use dotmgr::app::{App, IgnoreStatus};
use dotmgr::config::resolve_config;
use dotmgr::keys::{key_command, Command, Key};
use dotmgr::listing::FileEntry;
use dotmgr::path::FsPath;
use dotmgr::ui::{empty_message, entry_row, inherited_warning, list_title, status_tone, sync_label, Tone};

/// Hands a listing to the state, after checking what `load_entries` asks of it.
fn load(app: &mut App, listed: Vec<FileEntry>) {
    assert!(app.listing_fits(&listed));
    app.load_entries(listed);
}

fn p(s: &str) -> FsPath {
    FsPath {
        absolute: s.starts_with('/'),
        parts: s.split('/').filter(|c| !c.is_empty()).map(|c| c.to_string()).collect(),
    }
}

fn new_app(ignored: &[&str]) -> App {
    let home = p("/home/u");
    let config = resolve_config(None, &home);
    App::new(home, config, ignored.iter().map(|s| s.to_string()).collect())
}

#[test]
fn key_table() {
    let k = |key: Key| key_command(true, false, false, key, false, false);
    assert_eq!(k(Key::Char('q')), Command::Quit);
    assert_eq!(k(Key::Char('Q')), Command::Quit);
    assert_eq!(k(Key::Char('k')), Command::MoveUp);
    assert_eq!(k(Key::Up), Command::MoveUp);
    assert_eq!(k(Key::Char('j')), Command::MoveDown);
    assert_eq!(k(Key::Char('G')), Command::GoBottom);
    assert_eq!(k(Key::End), Command::GoBottom);
    assert_eq!(k(Key::Tab), Command::ToggleBrowseMode);
    assert_eq!(k(Key::Char(' ')), Command::ToggleIgnore);
    assert_eq!(k(Key::Char('S')), Command::AskSyncAll);
    assert_eq!(k(Key::Char('s')), Command::SyncSelected);
    assert_eq!(k(Key::Char('D')), Command::AskDeployAll);
    assert_eq!(k(Key::Char('d')), Command::DeploySelected);
    assert_eq!(k(Key::Char('a')), Command::ToggleShowAll);
    assert_eq!(k(Key::Char('x')), Command::Nothing);
    assert_eq!(key_command(true, false, false, Key::Char('a'), false, true), Command::IgnoreAll);
    assert_eq!(key_command(true, false, false, Key::Char('s'), true, false), Command::Nothing);
    assert_eq!(key_command(false, false, false, Key::Char('q'), false, false), Command::Nothing);
    assert_eq!(key_command(true, true, false, Key::Char('q'), false, false), Command::Nothing);
    assert_eq!(key_command(true, false, true, Key::Char('y'), false, false), Command::Confirm);
    assert_eq!(key_command(true, false, true, Key::Char('Y'), true, false), Command::Confirm);
    assert_eq!(key_command(true, false, true, Key::Char('n'), false, false), Command::Cancel);
    assert_eq!(key_command(true, false, true, Key::Esc, false, false), Command::Cancel);
}

#[test]
fn status_tones() {
    assert_eq!(status_tone("Sync FAILED: disk"), Tone::Error);
    assert_eq!(status_tone("↑ copied 1 (1B) │ errors 2"), Tone::Error);
    assert_eq!(status_tone("Already up to date ✓"), Tone::Success);
    assert_eq!(status_tone("cleaned 3"), Tone::Warning);
    assert_eq!(status_tone("Syncing all..."), Tone::Info);
}

#[test]
fn titles_and_rows() {
    let mut app = new_app(&[".cache"]);
    load(&mut app, vec![
        FileEntry { name: ".cache".into(), path: p("/home/u/.cache"), is_dir: true, is_symlink: false, size: 0, mirror_exists: false, has_diff: false },
        FileEntry { name: ".vimrc".into(), path: p("/home/u/.vimrc"), is_dir: false, is_symlink: true, size: 2048, mirror_exists: true, has_diff: false },
    ]);
    assert_eq!(list_title(&app), " Files [DOT] 2 items │ tracked:1 ignored:1 ");
    let row = entry_row(&app, &app.entries[0]);
    assert_eq!(row.status, IgnoreStatus::DirectlyIgnored);
    assert_eq!(row.check, "✗");
    assert_eq!(row.label, ".cache/");
    assert_eq!(row.size, "");
    assert_eq!(row.tag, "  IGN");
    assert_eq!(row.mirror_mark, "⊘");
    let row = entry_row(&app, &app.entries[1]);
    assert_eq!(row.check, " ");
    assert_eq!(row.label, ".vimrc →");
    assert_eq!(row.size, "  2.0K");
    assert_eq!(row.tag, "");
    assert_eq!(row.mirror_mark, "");
    app.browse_mode = dotmgr::app::BrowseMode::Sync;
    let row = entry_row(&app, &app.entries[0]);
    assert_eq!(row.mirror_mark, "⚡");
    app.browse_mode = dotmgr::app::BrowseMode::Home;
    app.toggle_syncable_only();
    app.toggle_show_all();
    assert_eq!(list_title(&app), " Pending [ALL] 2/2 shown │ tracked:1 ignored:1 ");
    assert_eq!(empty_message(&app), "  (no syncable items — all entries are ignored)");
    assert_eq!(sync_label(&app), "sync → /home/u/.dotfiles ");
    assert!(!inherited_warning(&app));
    app.current_dir = p("/home/u/.cache/x");
    assert!(inherited_warning(&app));
}
