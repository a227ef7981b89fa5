use dotmgr::path::FsPath;
use dotmgr::utils::sample_digest;
use dotmgr::worker::{
    clean_should_remove, clean_walk_source, deploy_should_copy, deploy_walk_target, digests_equal,
    files_differ, sync_should_copy, sync_walk_target, worker_is_ignored, worker_relative_path,
    DestCheck, WorkerCtx, copy_outcome, link_outcome, walk_step, LinkStep, WalkStep,
};
use dotmgr::stats::{Outcome, SyncStats};

fn p(s: &str) -> FsPath {
    FsPath {
        absolute: s.starts_with('/'),
        parts: s.split('/').filter(|c| !c.is_empty()).map(|c| c.to_string()).collect(),
    }
}

fn ctx(show_all: bool) -> WorkerCtx {
    WorkerCtx {
        home_dir: p("/home/u"),
        sync_dir: p("/home/u/.dotfiles"),
        ignored: vec![".cache".to_string(), ".config/secret".to_string()],
        synced_ignores: vec![".git".to_string(), "README.md".to_string()],
        show_all,
    }
}

#[test]
fn worker_relative_and_ignored() {
    let c = ctx(false);
    assert_eq!(worker_relative_path(&p("/home/u/.dotfiles/.zshrc"), &c.home_dir, &c.sync_dir), ".zshrc");
    assert_eq!(worker_relative_path(&p("/home/u/.zshrc"), &c.home_dir, &c.sync_dir), ".zshrc");
    assert_eq!(worker_relative_path(&p("/opt/x"), &c.home_dir, &c.sync_dir), "/opt/x");
    assert!(worker_is_ignored(&p("/home/u/.cache/a/b"), &c));
    assert!(worker_is_ignored(&p("/home/u/.dotfiles/.config/secret/key"), &c));
    assert!(!worker_is_ignored(&p("/home/u/.config"), &c));
}

#[test]
fn sync_walk_skips() {
    let c = ctx(false);
    let home = p("/home/u");
    let t = |dir: &FsPath, name: &str| {
        let src = dir.child(&name.to_string());
        sync_walk_target(&c, dir, &name.to_string(), &src).map(|d| d.to_text())
    };
    assert_eq!(t(&home, "Documents"), None);
    assert_eq!(t(&home, ".dotfiles"), None);
    assert_eq!(t(&home, ".cache"), None);
    assert_eq!(t(&home, ".git"), None);
    assert_eq!(t(&home, ".vimrc"), Some("/home/u/.dotfiles/.vimrc".to_string()));
    assert_eq!(t(&p("/home/u/.config"), "nvim"), Some("/home/u/.dotfiles/.config/nvim".to_string()));
    let all = ctx(true);
    let src = home.child(&"Documents".to_string());
    assert_eq!(
        sync_walk_target(&all, &home, &"Documents".to_string(), &src).map(|d| d.to_text()),
        Some("/home/u/.dotfiles/Documents".to_string())
    );
}

#[test]
fn clean_and_deploy_walks() {
    let c = ctx(false);
    let repo = p("/home/u/.dotfiles");
    let dest = repo.child(&".git".to_string());
    assert!(clean_walk_source(&c, &repo, &".git".to_string(), &dest).is_none());
    let dest = repo.child(&".vimrc".to_string());
    let src = clean_walk_source(&c, &repo, &".vimrc".to_string(), &dest).unwrap();
    assert_eq!(src.to_text(), "/home/u/.vimrc");
    assert!(clean_should_remove(&c, &src, false));
    assert!(!clean_should_remove(&c, &src, true));
    assert!(clean_should_remove(&c, &p("/home/u/.cache"), true));
    assert!(deploy_walk_target(&c, &"README.md".to_string(), &repo.child(&"README.md".to_string())).is_none());
    assert!(deploy_walk_target(&c, &"x".to_string(), &p("/elsewhere/x")).is_none());
    assert_eq!(
        deploy_walk_target(&c, &".vimrc".to_string(), &dest).unwrap().to_text(),
        "/home/u/.vimrc"
    );
}

#[test]
fn copy_decisions() {
    assert!(sync_should_copy(&None));
    assert!(deploy_should_copy(&None));
    let differ_len = DestCheck { same_len: false, digests: None, src_newer: Some(false) };
    assert!(sync_should_copy(&Some(differ_len)));
    let same = DestCheck { same_len: true, digests: Some(([1; 32], [1; 32])), src_newer: Some(true) };
    assert!(!sync_should_copy(&Some(same)));
    assert!(!deploy_should_copy(&Some(same)));
    let changed = DestCheck { same_len: true, digests: Some(([1; 32], [2; 32])), src_newer: Some(false) };
    assert!(sync_should_copy(&Some(changed)));
    let by_time = DestCheck { same_len: true, digests: None, src_newer: Some(true) };
    assert!(sync_should_copy(&Some(by_time)));
    let unknown = DestCheck { same_len: true, digests: None, src_newer: None };
    assert!(!sync_should_copy(&Some(unknown)));
    assert!(deploy_should_copy(&Some(unknown)));
}

#[test]
fn digests_of_samples() {
    let d = sample_digest(b"abc", b"");
    let expected: [u8; 32] = [
        0xba, 0x78, 0x16, 0xbf, 0x8f, 0x01, 0xcf, 0xea, 0x41, 0x41, 0x40, 0xde, 0x5d, 0xae, 0x22, 0x23,
        0xb0, 0x03, 0x61, 0xa3, 0x96, 0x17, 0x7a, 0x9c, 0xb4, 0x10, 0xff, 0x61, 0xf2, 0x00, 0x15, 0xad,
    ];
    assert_eq!(d, expected);
    assert_eq!(sample_digest(b"ab", b"c"), expected);
    assert_ne!(sample_digest(b"abd", b""), expected);
    assert!(digests_equal(&d, &expected));
    assert!(!digests_equal(&d, &[0; 32]));
}

#[test]
fn file_difference() {
    assert!(files_differ(1, 2, &None));
    assert!(!files_differ(3, 3, &None));
    assert!(files_differ(3, 3, &Some(([0; 32], [1; 32]))));
    assert!(!files_differ(3, 3, &Some(([5; 32], [5; 32]))));
}

#[test]
fn synced_file_deploys_back() {
    let c = ctx(false);
    let dir = p("/home/u/.config/nvim");
    let src = dir.child(&"init.lua".to_string());
    let dest = sync_walk_target(&c, &dir, &"init.lua".to_string(), &src).unwrap();
    assert_eq!(dest.to_text(), "/home/u/.dotfiles/.config/nvim/init.lua");
    let back = deploy_walk_target(&c, &"init.lua".to_string(), &dest).unwrap();
    assert!(back.same_as(&src));
}

#[test]
fn link_steps_are_counted() {
    assert_eq!(link_outcome(LinkStep::NotALink), None);
    assert_eq!(link_outcome(LinkStep::Unreadable), Some(None));
    assert_eq!(link_outcome(LinkStep::Same), Some(Some(Outcome::Skipped)));
    assert_eq!(
        link_outcome(LinkStep::Made { replaced: true }),
        Some(Some(Outcome::Copied { bytes: 0, replaced: true }))
    );
    assert_eq!(link_outcome(LinkStep::Failed), Some(Some(Outcome::Failed)));
}

#[test]
fn file_steps_are_counted() {
    assert_eq!(copy_outcome(false, false, 10, true), Outcome::Skipped);
    assert_eq!(copy_outcome(true, true, 10, true), Outcome::Copied { bytes: 10, replaced: true });
    assert_eq!(copy_outcome(true, true, 7, false), Outcome::Copied { bytes: 7, replaced: false });
    assert_eq!(copy_outcome(true, false, 10, false), Outcome::Failed);
    let mut stats = SyncStats::default();
    stats.record(copy_outcome(true, true, 10, false));
    stats.record(link_outcome(LinkStep::Made { replaced: false }).unwrap().unwrap());
    assert_eq!((stats.copied, stats.bytes), (2, 10));
}

#[test]
fn walk_steps() {
    assert_eq!(walk_step(true, false), WalkStep::Descend { create: true });
    assert_eq!(walk_step(true, true), WalkStep::Descend { create: false });
    assert_eq!(walk_step(false, false), WalkStep::CopyFile);
    assert_eq!(walk_step(false, true), WalkStep::CopyFile);
}
