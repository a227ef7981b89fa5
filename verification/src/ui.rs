//! The texts that the screen shows: the list's title, each row, the
//! header's notes and the tone of the status line. Drawing them is left to
//! the terminal front end.
use vstd::prelude::*;
use crate::app::{App, IgnoreStatus, BrowseMode};
use crate::listing::FileEntry;
use crate::path::path_text;
use crate::text::{decimal, push_decimal, has_infix, contains_text};
use crate::utils::{format_size, size_text};

verus! {

/// How the status line is coloured.
#[derive(Debug, Clone, Copy, PartialEq, Eq, Structural)]
pub enum Tone {
    Error,
    Success,
    Warning,
    Info,
}

/// The tone of a status line: failures and errors, then the up-to-date
/// message, then cleaning, else plain information.
pub open spec fn tone_of(s: Seq<char>) -> Tone {
    if has_infix(s, "FAILED"@) || has_infix(s, "errors"@) {
        Tone::Error
    } else if has_infix(s, "Already up to date"@) {
        Tone::Success
    } else if has_infix(s, "cleaned"@) {
        Tone::Warning
    } else {
        Tone::Info
    }
}

/// The tone of a status line.
pub fn status_tone(status: &str) -> (t: Tone)
    ensures
        t == tone_of(status@),
{
    if contains_text(status, "FAILED") || contains_text(status, "errors") {
        Tone::Error
    } else if contains_text(status, "Already up to date") {
        Tone::Success
    } else if contains_text(status, "cleaned") {
        Tone::Warning
    } else {
        Tone::Info
    }
}

/// The list's title: the filter (`ALL` or `DOT`), the counts, and with
/// ignored entries hidden how many are shown.
pub open spec fn title_text(app: App) -> Seq<char> {
    let mode = if app.show_all { "ALL"@ } else { "DOT"@ };
    if app.show_syncable_only {
        " Pending ["@ + mode + "] "@ + decimal(app.entries@.len()) + "/"@ + decimal(app.full_count as nat)
            + " shown │ tracked:"@ + decimal(app.full_tracked as nat) + " ignored:"@
            + decimal(app.full_ignored as nat) + " "@
    } else {
        " Files ["@ + mode + "] "@ + decimal(app.full_count as nat) + " items │ tracked:"@
            + decimal(app.full_tracked as nat) + " ignored:"@ + decimal(app.full_ignored as nat) + " "@
    }
}

/// The list's title.
pub fn list_title(app: &App) -> (r: String)
    ensures
        r@ == title_text(*app),
{
    let mode = if app.show_all { "ALL" } else { "DOT" };
    let mut s;
    if app.show_syncable_only {
        s = String::from_str(" Pending [");
        s.append(mode);
        s.append("] ");
        push_decimal(&mut s, app.entries.len() as u128);
        s.append("/");
        push_decimal(&mut s, app.full_count as u128);
        s.append(" shown │ tracked:");
    } else {
        s = String::from_str(" Files [");
        s.append(mode);
        s.append("] ");
        push_decimal(&mut s, app.full_count as u128);
        s.append(" items │ tracked:");
    }
    push_decimal(&mut s, app.full_tracked as u128);
    s.append(" ignored:");
    push_decimal(&mut s, app.full_ignored as u128);
    s.append(" ");
    proof {
        assert(s@ =~= title_text(*app));
    }
    s
}

/// The texts of one row of the list.
#[derive(Debug)]
pub struct EntryRow {
    pub status: IgnoreStatus,
    /// The mark between brackets: blank, `✗` (ignored) or `~` (inherited).
    pub check: String,
    /// The name, with `/` after a directory and ` →` after a link.
    pub label: String,
    /// Two spaces and the size, for a non-empty file; else empty.
    pub size: String,
    /// `  IGN`, `  INH`, `  ✓` (tracked, with ignored entries hidden), or
    /// empty.
    pub tag: String,
    /// For an entry with no copy on the other side: `⊘` in home (not
    /// synced), `⚡` in the repository (missing in home); else empty.
    pub mirror_mark: String,
}

/// The mark for an entry's mirror: none when the copy on the other side
/// exists, else `⊘` browsing home and `⚡` browsing the repository.
pub open spec fn mirror_mark_text(mirror_exists: bool, mode: BrowseMode) -> Seq<char> {
    if mirror_exists {
        Seq::empty()
    } else {
        match mode {
            BrowseMode::Home => "⊘"@,
            BrowseMode::Sync => "⚡"@,
        }
    }
}

/// The mark for an ignore status.
pub open spec fn check_text(st: IgnoreStatus) -> Seq<char> {
    match st {
        IgnoreStatus::NotIgnored => " "@,
        IgnoreStatus::DirectlyIgnored => "✗"@,
        IgnoreStatus::InheritedIgnored => "~"@,
    }
}

/// The tag for an ignore status.
pub open spec fn tag_text(st: IgnoreStatus, syncable_only: bool) -> Seq<char> {
    match st {
        IgnoreStatus::DirectlyIgnored => "  IGN"@,
        IgnoreStatus::InheritedIgnored => "  INH"@,
        IgnoreStatus::NotIgnored => if syncable_only { "  ✓"@ } else { Seq::empty() },
    }
}

/// The row that the list shows for `entry`.
pub fn entry_row(app: &App, entry: &FileEntry) -> (r: EntryRow)
    ensures
        r.status == app.status_of(entry.path@),
        r.check@ == check_text(r.status),
        r.label@ == entry.name@ + (if entry.is_dir { "/"@ } else { Seq::empty() })
            + (if entry.is_symlink { " →"@ } else { Seq::empty() }),
        r.size@ == if !entry.is_dir && entry.size > 0 { "  "@ + size_text(entry.size as nat) } else { Seq::empty() },
        r.tag@ == tag_text(r.status, app.show_syncable_only),
        r.mirror_mark@ == mirror_mark_text(entry.mirror_exists, app.browse_mode),
{
    let status = app.ignore_status(&entry.path);
    let check = match status {
        IgnoreStatus::NotIgnored => String::from_str(" "),
        IgnoreStatus::DirectlyIgnored => String::from_str("✗"),
        IgnoreStatus::InheritedIgnored => String::from_str("~"),
    };
    let mut label = entry.name.clone();
    if entry.is_dir {
        label.append("/");
    }
    if entry.is_symlink {
        label.append(" →");
    }
    let size = if !entry.is_dir && entry.size > 0 {
        let mut t = String::from_str("  ");
        let f = format_size(entry.size);
        t.append(f.as_str());
        t
    } else {
        String::new()
    };
    let tag = match status {
        IgnoreStatus::DirectlyIgnored => String::from_str("  IGN"),
        IgnoreStatus::InheritedIgnored => String::from_str("  INH"),
        IgnoreStatus::NotIgnored => if app.show_syncable_only { String::from_str("  ✓") } else { String::new() },
    };
    proof {
        assert(label@ =~= entry.name@ + (if entry.is_dir { "/"@ } else { Seq::empty() })
            + (if entry.is_symlink { " →"@ } else { Seq::empty() }));
    }
    let mirror_mark = if entry.mirror_exists {
        String::new()
    } else {
        match app.browse_mode {
            BrowseMode::Home => String::from_str("⊘"),
            BrowseMode::Sync => String::from_str("⚡"),
        }
    };
    EntryRow { status, check, label, size, tag, mirror_mark }
}

/// What the list says when it is empty.
pub fn empty_message(app: &App) -> (r: String)
    ensures
        r@ == if app.show_syncable_only {
            "  (no syncable items — all entries are ignored)"@
        } else {
            "  (empty directory)"@
        },
{
    if app.show_syncable_only {
        String::from_str("  (no syncable items — all entries are ignored)")
    } else {
        String::from_str("  (empty directory)")
    }
}

/// Whether the header warns that the current directory is ignored through a
/// path above it (never at home itself).
pub fn inherited_warning(app: &App) -> (r: bool)
    ensures
        r == (app.current_dir@ != app.home_dir@ && app.ignored_path(app.current_dir@)),
{
    !app.current_dir.same_as(&app.home_dir) && app.is_ignored(&app.current_dir)
}

/// The header's note on where syncing goes.
pub fn sync_label(app: &App) -> (r: String)
    ensures
        r@ == "sync → "@ + path_text(app.config.sync_dir@) + " "@,
{
    let mut s = String::from_str("sync → ");
    let t = app.config.sync_dir.to_text();
    s.append(t.as_str());
    s.append(" ");
    s
}

} // verus!
