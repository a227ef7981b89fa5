use dotmgr::ignore::{relative_to, listed_or_below_exec, add_text, remove_text, unique_list};
use dotmgr::path::FsPath;

fn p(s: &str) -> FsPath {
    FsPath {
        absolute: s.starts_with('/'),
        parts: s.split('/').filter(|c| !c.is_empty()).map(|c| c.to_string()).collect(),
    }
}

#[test]
fn path_text_and_join() {
    assert_eq!(p("/home/u").to_text(), "/home/u");
    assert_eq!(p("/").to_text(), "/");
    assert_eq!(p("").to_text(), "");
    assert_eq!(p("/home/u").join(&p(".config/nvim")).to_text(), "/home/u/.config/nvim");
    assert_eq!(p("/home/u").join(&p("/etc")).to_text(), "/etc");
}

#[test]
fn path_strip_prefix() {
    let r = p("/home/u/.config/nvim").strip_prefix(&p("/home/u")).unwrap();
    assert!(!r.absolute);
    assert_eq!(r.to_text(), ".config/nvim");
    assert_eq!(p("/home/u").strip_prefix(&p("/home/u")).unwrap().to_text(), "");
    assert!(p("/home/uu").strip_prefix(&p("/home/u")).is_none());
    assert!(p("/etc").strip_prefix(&p("/home/u")).is_none());
    assert!(p("rel/x").strip_prefix(&p("/rel")).is_none());
    assert_eq!(p("/a/b").strip_prefix(&p("")).unwrap().to_text(), "/a/b");
}

#[test]
fn path_parent_and_file_name() {
    assert_eq!(p("/home/u/x").parent().unwrap().to_text(), "/home/u");
    assert!(p("/").parent().is_none());
    assert_eq!(p("a").parent().unwrap().to_text(), "");
    assert_eq!(p("/home/u/x").file_name().unwrap(), "x");
    assert!(p("/home/..").file_name().is_none());
    assert!(p("/").file_name().is_none());
}

#[test]
fn relative_prefers_repository() {
    let home = p("/home/u");
    let sync = p("/home/u/.dotfiles");
    assert_eq!(relative_to(&p("/home/u/.dotfiles/.vimrc"), &home, &sync).to_text(), ".vimrc");
    assert_eq!(relative_to(&p("/home/u/.vimrc"), &home, &sync).to_text(), ".vimrc");
    assert_eq!(relative_to(&p("/etc/hosts"), &home, &sync).to_text(), "/etc/hosts");
}

#[test]
fn ignored_below_listed_path() {
    let list = vec![".config/nvim".to_string()];
    assert!(listed_or_below_exec(&list, &p(".config/nvim")));
    assert!(listed_or_below_exec(&list, &p(".config/nvim/init.lua")));
    assert!(!listed_or_below_exec(&list, &p(".config")));
    assert!(!listed_or_below_exec(&list, &p(".config/nvim2")));
    let everything = vec!["".to_string()];
    assert!(listed_or_below_exec(&everything, &p("a/b")));
    let root = vec!["/".to_string()];
    assert!(listed_or_below_exec(&root, &p("/etc/hosts")));
}

#[test]
fn ignore_list_add_remove() {
    let mut list = unique_list(vec!["a".to_string(), "b".to_string(), "a".to_string()]);
    assert_eq!(list, vec!["a".to_string(), "b".to_string()]);
    add_text(&mut list, "c".to_string());
    add_text(&mut list, "a".to_string());
    assert_eq!(list.len(), 3);
    remove_text(&mut list, &"a".to_string());
    assert_eq!(list, vec!["b".to_string(), "c".to_string()]);
    remove_text(&mut list, &"zzz".to_string());
    assert_eq!(list.len(), 2);
}
