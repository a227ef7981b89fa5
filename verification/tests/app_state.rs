use dotmgr::app::{AfterLoad, App, BackgroundEvent, BrowseMode, Effect, IgnoreStatus, JobKind};
use dotmgr::config::{resolve_config, AppConfig};
use dotmgr::listing::FileEntry;
use dotmgr::path::FsPath;
use dotmgr::stats::SyncStats;

/// Hands a listing to the state, after checking what `load_entries` asks of it.
fn load(app: &mut App, listed: Vec<FileEntry>) {
    assert!(app.listing_fits(&listed));
    app.load_entries(listed);
}

fn p(s: &str) -> FsPath {
    FsPath {
        absolute: s.starts_with('/'),
        parts: s.split('/').filter(|c| !c.is_empty()).map(|c| c.to_string()).collect(),
    }
}

fn new_app(ignored: &[&str]) -> App {
    let home = p("/home/u");
    let config = resolve_config(None, &home);
    App::new(home, config, ignored.iter().map(|s| s.to_string()).collect())
}

fn entry(dir: &str, name: &str, is_dir: bool) -> FileEntry {
    FileEntry {
        name: name.to_string(),
        path: p(dir).child(&name.to_string()),
        is_dir,
        is_symlink: false,
        size: 0,
        mirror_exists: false,
        has_diff: false,
    }
}

fn names(app: &App) -> Vec<String> {
    app.entries.iter().map(|e| e.name.clone()).collect()
}

#[test]
fn new_ignores_repository_inside_home() {
    let app = new_app(&["node_modules"]);
    assert!(app.ignored.contains(&".dotfiles".to_string()));
    assert!(app.ignored.contains(&"node_modules".to_string()));
    assert_eq!(app.browse_mode, BrowseMode::Home);
    assert_eq!(app.current_dir.to_text(), "/home/u");
    assert_eq!(app.display_path(), "~/");
}

#[test]
fn ignore_status_direct_and_inherited() {
    let app = new_app(&[".config/nvim"]);
    assert_eq!(app.ignore_status(&p("/home/u/.config/nvim")), IgnoreStatus::DirectlyIgnored);
    assert_eq!(app.ignore_status(&p("/home/u/.config/nvim/init.lua")), IgnoreStatus::InheritedIgnored);
    assert_eq!(app.ignore_status(&p("/home/u/.config")), IgnoreStatus::NotIgnored);
    assert_eq!(app.ignore_status(&p("/home/u/.dotfiles/.config/nvim/lua")), IgnoreStatus::InheritedIgnored);
    assert_eq!(app.relative_path(&p("/home/u/.dotfiles/.bashrc")), ".bashrc");
    assert_eq!(app.relative_path(&p("/home/u/.bashrc")), ".bashrc");
}

#[test]
fn keeps_only_dot_entries_at_home_top() {
    let mut app = new_app(&[]);
    assert!(app.keeps_name(&".bashrc".to_string()));
    assert!(!app.keeps_name(&"Documents".to_string()));
    assert!(!app.keeps_name(&".dotfiles".to_string()));
    assert!(!app.keeps_name(&".".to_string()));
    assert!(!app.keeps_name(&"..".to_string()));
    app.toggle_show_all();
    assert!(app.keeps_name(&"Documents".to_string()));
    assert!(!app.keeps_name(&".dotfiles".to_string()));
}

#[test]
fn keeps_in_repository_top() {
    let mut app = new_app(&[]);
    assert!(matches!(app.toggle_browse_mode(), Effect::CheckDir));
    assert_eq!(app.browse_mode, BrowseMode::Sync);
    assert_eq!(app.current_dir.to_text(), "/home/u/.dotfiles");
    assert!(matches!(app.dir_checked(true), Effect::Reload));
    assert_eq!(app.display_path(), "sync:/");
    assert!(!app.keeps_name(&".git".to_string()));
    assert!(!app.keeps_name(&"README.md".to_string()));
    assert!(app.keeps_name(&".bashrc".to_string()));
    app.toggle_show_all();
    assert!(app.keeps_name(&".git".to_string()));
}

#[test]
fn listing_puts_directories_first_by_lowercase_name() {
    let mut app = new_app(&[]);
    load(&mut app, vec![
        entry("/home/u", ".zshrc", false),
        entry("/home/u", ".Config", true),
        entry("/home/u", ".bashrc", false),
        entry("/home/u", ".cache", true),
        entry("/home/u", ".Bashrc", false),
    ]);
    assert_eq!(names(&app), vec![".cache", ".Config", ".bashrc", ".Bashrc", ".zshrc"]);
    assert_eq!(app.full_count, 5);
    assert_eq!(app.full_tracked, 5);
    assert_eq!(app.full_ignored, 0);
}

#[test]
fn listing_counts_and_hides_ignored() {
    let mut app = new_app(&[".cache"]);
    load(&mut app, vec![entry("/home/u", ".cache", true), entry("/home/u", ".vimrc", false)]);
    assert_eq!(app.full_count, 2);
    assert_eq!(app.full_tracked, 1);
    assert_eq!(app.full_ignored, 1);
    assert_eq!(app.entries.len(), 2);
    assert!(matches!(app.toggle_syncable_only(), Effect::Reload));
    load(&mut app, vec![entry("/home/u", ".cache", true), entry("/home/u", ".vimrc", false)]);
    assert_eq!(names(&app), vec![".vimrc"]);
    assert_eq!(app.full_count, 2);
}

#[test]
fn navigation_wraps() {
    let mut app = new_app(&[]);
    load(&mut app, vec![entry("/home/u", ".a", false), entry("/home/u", ".b", false), entry("/home/u", ".c", false)]);
    app.move_up();
    assert_eq!(app.selected, 2);
    app.move_down();
    assert_eq!(app.selected, 0);
    app.move_down();
    assert_eq!(app.selected, 1);
    app.page_down();
    assert_eq!(app.selected, 2);
    app.page_up();
    assert_eq!(app.selected, 0);
    app.go_bottom();
    assert_eq!(app.selected, 2);
    app.go_top();
    assert_eq!(app.selected, 0);
}

#[test]
fn navigation_in_empty_listing() {
    let mut app = new_app(&[]);
    app.move_up();
    app.move_down();
    assert_eq!(app.selected, 0);
    app.go_bottom();
    assert_eq!(app.selected, 0);
    app.page_down();
    assert_eq!(app.selected, 0);
}

#[test]
fn toggle_ignore_twice_restores_and_keeps_cursor() {
    let mut app = new_app(&[]);
    load(&mut app, vec![entry("/home/u", ".a", false), entry("/home/u", ".b", false)]);
    app.selected = 1;
    let before = app.ignored.clone();
    assert!(matches!(app.toggle_ignore(), Effect::SaveAndReload));
    assert!(app.ignored.contains(&".b".to_string()));
    assert!(matches!(app.after_load, AfterLoad::Reselect(ref n) if n == ".b"));
    app.selected = 0;
    load(&mut app, vec![entry("/home/u", ".b", false), entry("/home/u", ".a", false)]);
    assert_eq!(app.selected, 1);
    assert!(matches!(app.after_load, AfterLoad::Nothing));
    app.toggle_ignore();
    let mut a = app.ignored.clone();
    let mut b = before.clone();
    a.sort();
    b.sort();
    assert_eq!(a, b);
}

#[test]
fn ignore_all_reports_count_after_reload() {
    let mut app = new_app(&[]);
    load(&mut app, vec![entry("/home/u", ".a", false), entry("/home/u", ".b", true)]);
    assert!(matches!(app.ignore_all(), Effect::SaveAndReload));
    assert!(app.ignored.contains(&".a".to_string()));
    assert!(app.ignored.contains(&".b".to_string()));
    load(&mut app, vec![entry("/home/u", ".a", false), entry("/home/u", ".b", true)]);
    assert_eq!(app.status, "Ignored 2 items");
    assert_eq!(app.full_ignored, 2);
}

#[test]
fn enter_and_go_back_reselects_child() {
    let mut app = new_app(&[]);
    load(&mut app, vec![entry("/home/u", ".a", false), entry("/home/u", ".config", true)]);
    assert_eq!(app.selected, 0);
    app.selected = 0;
    assert!(matches!(app.enter_directory(), Effect::Reload));
    assert_eq!(app.current_dir.to_text(), "/home/u/.config");
    assert_eq!(app.display_path(), "~/.config");
    load(&mut app, vec![entry("/home/u/.config", "nvim", true)]);
    assert!(matches!(app.go_back(), Effect::Reload));
    assert_eq!(app.current_dir.to_text(), "/home/u");
    load(&mut app, vec![entry("/home/u", ".a", false), entry("/home/u", ".config", true)]);
    assert_eq!(names(&app), vec![".config", ".a"]);
    assert_eq!(app.selected, 0);
    assert!(matches!(app.go_back(), Effect::Nothing));
}

#[test]
fn enter_file_opens_it() {
    let mut app = new_app(&[]);
    load(&mut app, vec![entry("/home/u", ".vimrc", false)]);
    match app.enter_directory() {
        Effect::OpenFile(f) => assert_eq!(f.to_text(), "/home/u/.vimrc"),
        _ => panic!("expected a file to open"),
    }
}

#[test]
fn confirm_flow() {
    let mut app = new_app(&[]);
    app.request_confirm("sync_all");
    assert_eq!(app.status, "Sync ALL to repo? (y/N)");
    app.cancel_confirm();
    assert!(app.awaiting_confirm.is_none());
    assert_eq!(app.status, "Cancelled");
    app.request_confirm("deploy_all");
    assert_eq!(app.status, "Deploy ALL to home? (y/N)");
    assert!(matches!(app.confirm_action(false), Effect::Nothing));
    assert_eq!(app.status, "Nothing to deploy: sync dir does not exist");
    assert!(!app.pending);
    app.request_confirm("deploy_all");
    match app.confirm_action(true) {
        Effect::StartDeploy(job) => {
            assert_eq!(job.kind, JobKind::All);
            assert_eq!(job.src.to_text(), "/home/u/.dotfiles");
            assert_eq!(job.dest.to_text(), "/home/u");
        }
        _ => panic!("expected a deploy run"),
    }
    assert!(app.pending);
    assert_eq!(app.status, "Deploying all...");
    app.request_confirm("other");
    assert!(matches!(app.confirm_action(true), Effect::Nothing));
    assert_eq!(app.status, "");
}

#[test]
fn go_back_drops_question() {
    let mut app = new_app(&[]);
    app.request_confirm("sync_all");
    assert!(matches!(app.go_back(), Effect::Nothing));
    assert!(app.awaiting_confirm.is_none());
    assert_eq!(app.status, "");
}

#[test]
fn sync_selected_decisions() {
    let mut app = new_app(&["node_modules"]);
    app.toggle_show_all();
    load(&mut app, vec![entry("/home/u", "node_modules", true), entry("/home/u", ".vimrc", false)]);
    assert_eq!(names(&app), vec!["node_modules", ".vimrc"]);
    assert_eq!(app.sync_source().unwrap().to_text(), "/home/u/node_modules");
    assert!(matches!(app.sync_selected(true), Effect::Nothing));
    assert_eq!(app.status, "Ignored: node_modules");
    app.selected = 1;
    assert!(matches!(app.sync_selected(false), Effect::Nothing));
    assert_eq!(app.status, "Not in home: .vimrc");
    match app.sync_selected(true) {
        Effect::StartSync(job) => {
            assert_eq!(job.kind, JobKind::File);
            assert_eq!(job.src.to_text(), "/home/u/.vimrc");
            assert_eq!(job.dest.to_text(), "/home/u/.dotfiles/.vimrc");
        }
        _ => panic!("expected a sync run"),
    }
    assert_eq!(app.status, "Syncing .vimrc...");
    assert!(app.pending);
    assert!(app.sync_source().is_none());
    assert!(matches!(app.sync_all(), Effect::Nothing));
    let e = app.handle_background_event(BackgroundEvent::SyncDone(SyncStats { copied: 1, bytes: 3, ..SyncStats::default() }));
    assert!(matches!(e, Effect::Reload));
    assert!(!app.pending);
    assert_eq!(app.status, "↑ copied 1 (3B)");
    let e = app.handle_background_event(BackgroundEvent::Error("Sync FAILED: x".to_string()));
    assert!(matches!(e, Effect::Nothing));
    assert_eq!(app.status, "Sync FAILED: x");
}

#[test]
fn deploy_selected_decisions() {
    let mut app = new_app(&[]);
    app.toggle_browse_mode();
    app.dir_checked(true);
    load(&mut app, vec![entry("/home/u/.dotfiles", ".config", true)]);
    assert_eq!(app.deploy_source().unwrap().to_text(), "/home/u/.dotfiles/.config");
    assert!(matches!(app.deploy_selected(false), Effect::Nothing));
    assert_eq!(app.status, "Not in sync repo: .config");
    match app.deploy_selected(true) {
        Effect::StartDeploy(job) => {
            assert_eq!(job.kind, JobKind::Dir);
            assert_eq!(job.dest.to_text(), "/home/u/.config");
        }
        _ => panic!("expected a deploy run"),
    }
    assert_eq!(app.status, "Deploying .config...");
}

#[test]
fn browse_toggle_falls_back_to_root() {
    let mut app = new_app(&[]);
    load(&mut app, vec![entry("/home/u", ".config", true)]);
    app.enter_directory();
    app.toggle_browse_mode();
    assert_eq!(app.current_dir.to_text(), "/home/u/.dotfiles/.config");
    app.dir_checked(false);
    assert_eq!(app.current_dir.to_text(), "/home/u/.dotfiles");
}

#[test]
fn mirror_paths_and_diff() {
    let mut app = new_app(&[]);
    assert_eq!(app.mirror_path(&p("/home/u/.vimrc")).to_text(), "/home/u/.dotfiles/.vimrc");
    load(&mut app, vec![entry("/home/u", ".vimrc", false)]);
    let (l, r) = app.diff_paths().unwrap();
    assert_eq!(l.to_text(), "/home/u/.vimrc");
    assert_eq!(r.to_text(), "/home/u/.dotfiles/.vimrc");
    app.diff_unavailable();
    assert_eq!(app.status, "Both copies must exist to diff");
    app.editor_failed("vim", None);
    assert_eq!(app.status, "vim: exit code -1");
    app.editor_failed("nano", Some(2));
    assert_eq!(app.status, "nano: exit code 2");
}

#[test]
fn config_resolution() {
    let home = p("/home/u");
    let d = AppConfig::default_in(&home);
    assert_eq!(d.sync_dir.to_text(), "/home/u/.dotfiles");
    assert_eq!(d.synced_ignores.len(), 7);
    let loaded = AppConfig { sync_dir: FsPath::empty(), synced_ignores: vec![] };
    let r = resolve_config(Some(loaded), &home);
    assert_eq!(r.sync_dir.to_text(), "/home/u/.dotfiles");
    assert_eq!(r.synced_ignores, d.synced_ignores);
    let loaded = AppConfig { sync_dir: p("/data/dots"), synced_ignores: vec![".git".to_string()] };
    let r = resolve_config(Some(loaded), &home);
    assert_eq!(r.sync_dir.to_text(), "/data/dots");
    assert_eq!(r.synced_ignores, vec![".git".to_string()]);
    let ig = dotmgr::config::ignores_or_default(None);
    assert_eq!(ig, dotmgr::config::default_ignores());
    assert_eq!(ig[0], "node_modules");
}

#[test]
fn listing_leaves_out_what_is_not_kept() {
    let mut app = new_app(&[]);
    load(&mut app, vec![
        entry("/home/u", "Documents", true),
        entry("/home/u", ".dotfiles", true),
        entry("/home/u", ".profile", false),
    ]);
    assert_eq!(names(&app), vec![".profile"]);
    assert_eq!(app.full_count, 1);
}

#[test]
fn entries_from_probes() {
    let d = FileEntry::from_probes(".config".into(), p("/home/u/.config"), true, false, Some(4096), true, true);
    assert_eq!(d.size, 0);
    assert!(!d.has_diff);
    let f = FileEntry::from_probes(".vimrc".into(), p("/home/u/.vimrc"), false, false, Some(12), true, true);
    assert_eq!(f.size, 12);
    assert!(f.has_diff);
    let g = FileEntry::from_probes(".x".into(), p("/home/u/.x"), false, false, None, false, true);
    assert_eq!(g.size, 0);
    assert!(!g.has_diff);
    assert!(dotmgr::listing::needs_diff(false, true));
    assert!(!dotmgr::listing::needs_diff(true, true));
    assert!(!dotmgr::listing::needs_diff(false, false));
}

fn home_listing() -> Vec<FileEntry> {
    vec![
        entry("/home/u", "Documents", true),
        entry("/home/u", ".zshrc", false),
        entry("/home/u", ".local", true),
        entry("/home/u", ".config", true),
    ]
}

#[test]
fn show_all_twice_gives_back_the_listing() {
    let mut app = new_app(&[]);
    load(&mut app, home_listing());
    app.move_down();
    let before = names(&app);
    let count = app.full_count;
    assert_eq!(before, vec![".config", ".local", ".zshrc"]);
    assert!(matches!(app.toggle_show_all(), Effect::Reload));
    load(&mut app, home_listing());
    assert_eq!(names(&app), vec![".config", ".local", "Documents", ".zshrc"]);
    assert!(matches!(app.toggle_show_all(), Effect::Reload));
    load(&mut app, home_listing());
    assert!(!app.show_all);
    assert_eq!(names(&app), before);
    assert_eq!(app.full_count, count);
    assert_eq!(app.selected, 0);
}

#[test]
fn enter_and_go_back_restores_cursor_and_listing() {
    let mut app = new_app(&[".zshrc"]);
    load(&mut app, home_listing());
    app.move_down();
    assert_eq!(app.selected, 1);
    let before = names(&app);
    let (count, kept, dropped) = (app.full_count, app.full_tracked, app.full_ignored);
    assert_eq!((count, kept, dropped), (3, 2, 1));
    assert!(matches!(app.enter_directory(), Effect::Reload));
    assert_eq!(app.current_dir.to_text(), "/home/u/.local");
    load(&mut app, vec![entry("/home/u/.local", "share", true)]);
    assert!(matches!(app.go_back(), Effect::Reload));
    load(&mut app, home_listing());
    assert_eq!(app.current_dir.to_text(), "/home/u");
    assert_eq!(names(&app), before);
    assert_eq!(app.selected, 1);
    assert_eq!((app.full_count, app.full_tracked, app.full_ignored), (count, kept, dropped));
}

#[test]
fn listing_fits_checks_paths_and_fields() {
    let app = new_app(&[]);
    assert!(app.listing_fits(&vec![entry("/home/u", ".a", false)]));
    assert!(!app.listing_fits(&vec![entry("/home/u/.config", ".a", false)]));
    let mut dir = entry("/home/u", ".config", true);
    dir.size = 4096;
    assert!(!dir.is_consistent());
    assert!(!app.listing_fits(&vec![dir]));
    let mut file = entry("/home/u", ".vimrc", false);
    file.has_diff = true;
    assert!(!file.is_consistent());
    file.mirror_exists = true;
    assert!(file.is_consistent());
    assert!(app.listing_fits(&vec![file]));
}
