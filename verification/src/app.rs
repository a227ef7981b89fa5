//! The program's state and everything it decides: what a listing shows and
//! in which order, where the cursor goes, what is ignored, and which sync
//! or deploy run starts. Work that needs the filesystem or the terminal is
//! asked for through an `Effect`, carried out by the caller, whose results
//! come back through the methods that take them.
use vstd::prelude::*;
use crate::path::{FsPath, PathModel, path_text, strip_model, join_model, parent_model, file_name_model, copy_texts, copy_text};
use crate::ignore::{rel_model, listed_or_below, text_set, unique_texts, relative_to, listed_or_below_exec, list_has, add_text, remove_text, unique_list};
use crate::listing::{FileEntry, EntryModel, entry_models, listing_of, arrange_entries};
use crate::config::AppConfig;
use crate::stats::{SyncStats, DeployStats, format_sync_status, format_deploy_status, status_line, sync_parts, deploy_parts};
use crate::worker::WorkerCtx;
use crate::text::{texts, is_dotted, starts_with_dot, decimal, push_decimal};

verus! {

/// Whether a path is ignored, and how.
#[derive(Debug, Clone, Copy, PartialEq, Eq, Structural)]
pub enum IgnoreStatus {
    NotIgnored,
    /// The path itself is on the ignore list.
    DirectlyIgnored,
    /// A path above it is.
    InheritedIgnored,
}

/// Which tree is browsed: home or the sync repository.
#[derive(Debug, Clone, Copy, PartialEq, Eq, Structural)]
pub enum BrowseMode {
    Home,
    Sync,
}

/// The outcome of a background run.
#[derive(Debug)]
pub enum BackgroundEvent {
    SyncDone(SyncStats),
    DeployDone(DeployStats),
    Error(String),
}

/// What to do once the next listing is in.
#[derive(Debug)]
pub enum AfterLoad {
    Nothing,
    /// Put the cursor on the first entry with this name, if there is one.
    Reselect(String),
    /// Report how many entries the listing holds.
    ReportIgnored,
}

/// Which part of a tree a run covers.
#[derive(Debug, Clone, Copy, PartialEq, Eq, Structural)]
pub enum JobKind {
    /// The whole tree: create the destination root, walk the source root,
    /// and for a sync clean the repository.
    All,
    /// One directory: create it, count it, walk it, and for a sync clean it.
    Dir,
    /// One file.
    File,
}

/// A background sync run: from `src` in home to `dest` in the repository.
#[derive(Debug)]
pub struct SyncJob {
    pub ctx: WorkerCtx,
    pub kind: JobKind,
    pub src: FsPath,
    pub dest: FsPath,
}

/// A background deploy run: from `src` in the repository to `dest` in home.
#[derive(Debug)]
pub struct DeployJob {
    pub ctx: WorkerCtx,
    pub kind: JobKind,
    pub src: FsPath,
    pub dest: FsPath,
}

/// Work that the caller carries out for the program.
#[derive(Debug)]
pub enum Effect {
    Nothing,
    /// List `current_dir` again and hand the listing to `load_entries`.
    Reload,
    /// Tell `dir_checked` whether `current_dir` is a directory.
    CheckDir,
    /// Save the ignore list, then list `current_dir` again.
    SaveAndReload,
    /// Open the file in an editor.
    OpenFile(FsPath),
    StartSync(SyncJob),
    StartDeploy(DeployJob),
}

/// The program's state.
pub struct App {
    pub home_dir: FsPath,
    pub current_dir: FsPath,
    pub entries: Vec<FileEntry>,
    pub selected: usize,
    /// The ignore list; no text occurs twice.
    pub ignored: Vec<String>,
    pub config: AppConfig,
    pub show_all: bool,
    pub show_syncable_only: bool,
    pub browse_mode: BrowseMode,
    /// Entries in the last listing before hiding ignored ones.
    pub full_count: usize,
    pub full_tracked: usize,
    pub full_ignored: usize,
    pub status: String,
    pub should_quit: bool,
    pub awaiting_confirm: Option<String>,
    pub pending: bool,
    pub tick: u64,
    pub after_load: AfterLoad,
}

/// The sort key of each entry: its name in lower case.
pub open spec fn name_keys_of(listed: Seq<EntryModel>) -> Seq<Seq<char>> {
    listed.map_values(|e: EntryModel| crate::listing::lowercase(e.name))
}

/// The position the cursor takes after a reload that looks for `name`: the
/// first entry with that name, or `sel` when there is none.
pub open spec fn selection_after(entries: Seq<EntryModel>, name: Seq<char>, sel: usize) -> usize {
    if exists|i: int| 0 <= i < entries.len() && #[trigger] entries[i].name == name {
        (choose|i: int| 0 <= i < entries.len() && #[trigger] entries[i].name == name
            && forall|j: int| 0 <= j < i ==> entries[j].name != name) as usize
    } else {
        sel
    }
}

impl App {
    /// No text occurs twice in the ignore list.
    pub open spec fn wf(&self) -> bool {
        unique_texts(self.ignored@)
    }

    /// The root of the tree being browsed.
    pub open spec fn base(&self) -> PathModel {
        match self.browse_mode {
            BrowseMode::Home => self.home_dir@,
            BrowseMode::Sync => self.config.sync_dir@,
        }
    }

    /// The root of the other tree.
    pub open spec fn other_base(&self) -> PathModel {
        match self.browse_mode {
            BrowseMode::Home => self.config.sync_dir@,
            BrowseMode::Sync => self.home_dir@,
        }
    }

    /// `p` relative to the repository, else to home, else unchanged.
    pub open spec fn rel_of(&self, p: PathModel) -> PathModel {
        rel_model(p, self.home_dir@, self.config.sync_dir@)
    }

    /// The ignore list as a set of texts.
    pub open spec fn ignored_set(&self) -> Set<Seq<char>> {
        text_set(self.ignored@)
    }

    /// `p` is ignored, itself or through a path above it.
    pub open spec fn ignored_path(&self, p: PathModel) -> bool {
        listed_or_below(self.ignored_set(), self.rel_of(p))
    }

    /// `p` itself is on the ignore list.
    pub open spec fn directly_ignored(&self, p: PathModel) -> bool {
        self.ignored_set().contains(path_text(self.rel_of(p)))
    }

    /// The ignore status of `p`.
    pub open spec fn status_of(&self, p: PathModel) -> IgnoreStatus {
        if self.directly_ignored(p) {
            IgnoreStatus::DirectlyIgnored
        } else if self.ignored_path(p) {
            IgnoreStatus::InheritedIgnored
        } else {
            IgnoreStatus::NotIgnored
        }
    }

    /// The entries of `all` that are not ignored.
    pub open spec fn syncable_of(&self, all: Seq<EntryModel>) -> Seq<EntryModel> {
        all.filter(|e: EntryModel| !self.ignored_path(e.path))
    }

    /// The entries of `all` that are ignored.
    pub open spec fn ignored_of(&self, all: Seq<EntryModel>) -> Seq<EntryModel> {
        all.filter(|e: EntryModel| self.ignored_path(e.path))
    }

    /// The entries of `all` that the listing shows.
    pub open spec fn shown_of(&self, all: Seq<EntryModel>) -> Seq<EntryModel> {
        if self.show_syncable_only {
            self.syncable_of(all)
        } else {
            all
        }
    }

    /// Whether a listing of `current_dir` keeps an entry named `name`: not
    /// `.` or `..`; at the top of home not the repository itself, and,
    /// unless all are shown, only dot entries; at the top of the repository,
    /// unless all are shown, only dot entries that are not never-synced
    /// names.
    pub open spec fn keeps(&self, name: Seq<char>) -> bool {
        &&& name != seq!['.'] && name != seq!['.', '.']
        &&& !(self.browse_mode == BrowseMode::Home && self.current_dir@ == self.home_dir@
            && file_name_model(self.config.sync_dir@) == Some(name))
        &&& !(self.browse_mode == BrowseMode::Home && !self.show_all && self.current_dir@ == self.home_dir@
            && !is_dotted(name))
        &&& !(self.browse_mode == BrowseMode::Sync && !self.show_all && self.current_dir@ == self.config.sync_dir@
            && texts(self.config.synced_ignores@).contains(name))
        &&& !(self.browse_mode == BrowseMode::Sync && !self.show_all && self.current_dir@ == self.config.sync_dir@
            && !is_dotted(name))
    }

    /// The text of the current directory relative to the browsed root.
    pub open spec fn display_text(&self) -> Seq<char> {
        let rel = match strip_model(self.current_dir@, self.base()) {
            Some(r) => path_text(r),
            None => Seq::empty(),
        };
        match self.browse_mode {
            BrowseMode::Home => "~/"@ + rel,
            BrowseMode::Sync => "sync:/"@ + rel,
        }
    }

    /// The program's state at start: browsing home, given the home
    /// directory, the settings and the saved ignore list; the repository
    /// itself is added to the ignore list when it lies in home. The listing
    /// is empty until the first `load_entries`.
    pub fn new(home_dir: FsPath, config: AppConfig, ignored: Vec<String>) -> (r: App)
        ensures
            r.wf(),
            r.home_dir@ == home_dir@,
            r.current_dir@ == home_dir@,
            r.config@ == config@,
            r.ignored_set() == (match strip_model(config.sync_dir@, home_dir@) {
                Some(rel) => text_set(ignored@).insert(path_text(rel)),
                None => text_set(ignored@),
            }),
            r.entries@.len() == 0,
            r.selected == 0,
            !r.show_all && !r.show_syncable_only,
            r.browse_mode == BrowseMode::Home,
            r.full_count == 0 && r.full_tracked == 0 && r.full_ignored == 0,
            r.status@.len() == 0,
            !r.should_quit,
            r.awaiting_confirm is None,
            !r.pending,
            r.tick == 0,
            r.after_load is Nothing,
    {
        let mut set = unique_list(ignored);
        match config.sync_dir.strip_prefix(&home_dir) {
            Some(rel) => {
                add_text(&mut set, rel.to_text());
            },
            None => {},
        }
        let current_dir = home_dir.duplicate();
        App {
            home_dir,
            current_dir,
            entries: Vec::new(),
            selected: 0,
            ignored: set,
            config,
            show_all: false,
            show_syncable_only: false,
            browse_mode: BrowseMode::Home,
            full_count: 0,
            full_tracked: 0,
            full_ignored: 0,
            status: String::new(),
            should_quit: false,
            awaiting_confirm: None,
            pending: false,
            tick: 0,
            after_load: AfterLoad::Nothing,
        }
    }

    /// The root of the tree being browsed.
    pub fn base_dir(&self) -> (r: &FsPath)
        ensures
            r@ == self.base(),
    {
        match self.browse_mode {
            BrowseMode::Home => &self.home_dir,
            BrowseMode::Sync => &self.config.sync_dir,
        }
    }

    /// The text of `path` relative to the repository, else to home, else of
    /// `path` itself.
    pub fn relative_path(&self, path: &FsPath) -> (r: String)
        ensures
            r@ == path_text(self.rel_of(path@)),
    {
        relative_to(path, &self.home_dir, &self.config.sync_dir).to_text()
    }

    /// The header's path: `~/` or `sync:/` followed by the current directory
    /// relative to the browsed root.
    pub fn display_path(&self) -> (r: String)
        ensures
            r@ == self.display_text(),
    {
        let mut s = match self.browse_mode {
            BrowseMode::Home => String::from_str("~/"),
            BrowseMode::Sync => String::from_str("sync:/"),
        };
        match self.current_dir.strip_prefix(self.base_dir()) {
            Some(rel) => {
                let t = rel.to_text();
                s.append(t.as_str());
            },
            None => {},
        }
        proof {
            assert(s@ =~= self.display_text());
        }
        s
    }

    /// Whether `path` is ignored, itself or through a path above it.
    pub fn is_ignored(&self, path: &FsPath) -> (r: bool)
        ensures
            r == self.ignored_path(path@),
    {
        let rel = relative_to(path, &self.home_dir, &self.config.sync_dir);
        listed_or_below_exec(&self.ignored, &rel)
    }

    /// Whether `path` itself is on the ignore list.
    pub fn is_directly_ignored(&self, path: &FsPath) -> (r: bool)
        ensures
            r == self.directly_ignored(path@),
    {
        let rel = self.relative_path(path);
        list_has(&self.ignored, &rel)
    }

    /// How `path` is ignored.
    pub fn ignore_status(&self, path: &FsPath) -> (r: IgnoreStatus)
        ensures
            r == self.status_of(path@),
    {
        if self.is_directly_ignored(path) {
            return IgnoreStatus::DirectlyIgnored;
        }
        if self.is_ignored(path) {
            return IgnoreStatus::InheritedIgnored;
        }
        IgnoreStatus::NotIgnored
    }
}


impl App {
    /// Moves the cursor up one entry, from the first to the last.
    pub fn move_up(&mut self)
        ensures
            *final(self) == (App { selected: up_index(old(self).entries@.len(), old(self).selected), ..*old(self) }),
    {
        if self.entries.len() == 0 {
            return;
        }
        self.selected = if self.selected > 0 {
            self.selected - 1
        } else {
            self.entries.len() - 1
        };
    }

    /// Moves the cursor down one entry, from the last (or beyond) to the
    /// first.
    pub fn move_down(&mut self)
        ensures
            *final(self) == (App { selected: down_index(old(self).entries@.len(), old(self).selected), ..*old(self) }),
    {
        if self.entries.len() == 0 {
            return;
        }
        self.selected = if self.selected < self.entries.len() - 1 {
            self.selected + 1
        } else {
            0
        };
    }

    /// Moves the cursor to the first entry.
    pub fn go_top(&mut self)
        ensures
            *final(self) == (App { selected: 0, ..*old(self) }),
    {
        self.selected = 0;
    }

    /// Moves the cursor to the last entry (to 0 when there is none).
    pub fn go_bottom(&mut self)
        ensures
            *final(self) == (App {
                selected: if old(self).entries@.len() == 0 { 0 } else { (old(self).entries@.len() - 1) as usize },
                ..*old(self)
            }),
    {
        self.selected = if self.entries.len() == 0 { 0 } else { self.entries.len() - 1 };
    }

    /// Moves the cursor ten entries up, stopping at the first.
    pub fn page_up(&mut self)
        ensures
            *final(self) == (App {
                selected: if old(self).selected >= 10 { (old(self).selected - 10) as usize } else { 0 },
                ..*old(self)
            }),
    {
        self.selected = if self.selected >= 10 { self.selected - 10 } else { 0 };
    }

    /// Moves the cursor ten entries down, stopping at the last.
    pub fn page_down(&mut self)
        requires
            old(self).selected + 10 <= usize::MAX,
        ensures
            *final(self) == (App {
                selected: {
                    let last = if old(self).entries@.len() == 0 { 0 } else { old(self).entries@.len() - 1 };
                    if old(self).selected + 10 <= last { (old(self).selected + 10) as usize } else { last as usize }
                },
                ..*old(self)
            }),
    {
        let last = if self.entries.len() == 0 { 0 } else { self.entries.len() - 1 };
        let down = self.selected + 10;
        self.selected = if down <= last { down } else { last };
    }

    /// Shows or hides non-dot entries at the top of each tree, and lists
    /// again from the first entry.
    pub fn toggle_show_all(&mut self) -> (e: Effect)
        ensures
            *final(self) == (App { show_all: !old(self).show_all, selected: 0, ..*old(self) }),
            e is Reload,
    {
        self.show_all = !self.show_all;
        self.selected = 0;
        Effect::Reload
    }

    /// Hides or shows ignored entries, and lists again from the first entry.
    pub fn toggle_syncable_only(&mut self) -> (e: Effect)
        ensures
            *final(self) == (App { show_syncable_only: !old(self).show_syncable_only, selected: 0, ..*old(self) }),
            e is Reload,
    {
        self.show_syncable_only = !self.show_syncable_only;
        self.selected = 0;
        Effect::Reload
    }

    /// Lists the current directory again.
    pub fn refresh(&mut self) -> (e: Effect)
        ensures
            *final(self) == *old(self),
            e is Reload,
    {
        Effect::Reload
    }

    /// Asks the user to confirm `action`; for `sync_all` and `deploy_all`
    /// the status line says what will happen.
    pub fn request_confirm(&mut self, action: &str)
        ensures
            final(self).awaiting_confirm matches Some(a) && a@ == action@,
            final(self).status@ == (if action@ == "sync_all"@ {
                "Sync ALL to repo? (y/N)"@
            } else if action@ == "deploy_all"@ {
                "Deploy ALL to home? (y/N)"@
            } else {
                old(self).status@
            }),
            *final(self) == (App { awaiting_confirm: final(self).awaiting_confirm, status: final(self).status, ..*old(self) }),
    {
        let a = String::from_str(action);
        let is_sync = a == String::from_str("sync_all");
        let is_deploy = a == String::from_str("deploy_all");
        self.awaiting_confirm = Some(a);
        if is_sync {
            self.status = String::from_str("Sync ALL to repo? (y/N)");
        } else if is_deploy {
            self.status = String::from_str("Deploy ALL to home? (y/N)");
        }
    }

    /// Drops the pending question and says so.
    pub fn cancel_confirm(&mut self)
        ensures
            *final(self) == (App { awaiting_confirm: None, status: final(self).status, ..*old(self) }),
            final(self).status@ == "Cancelled"@,
    {
        self.awaiting_confirm = None;
        self.status = String::from_str("Cancelled");
    }

    /// Takes in the outcome of a background run: the run is over, the status
    /// line reports it, and after a finished run the listing is reloaded.
    pub fn handle_background_event(&mut self, event: BackgroundEvent) -> (e: Effect)
        ensures
            *final(self) == (App { pending: false, status: final(self).status, ..*old(self) }),
            match event {
                BackgroundEvent::SyncDone(st) => final(self).status@ == status_line(sync_parts(st)) && e is Reload,
                BackgroundEvent::DeployDone(st) => final(self).status@ == status_line(deploy_parts(st)) && e is Reload,
                BackgroundEvent::Error(msg) => final(self).status@ == msg@ && e is Nothing,
            },
    {
        match event {
            BackgroundEvent::SyncDone(stats) => {
                self.pending = false;
                self.status = format_sync_status(&stats);
                Effect::Reload
            },
            BackgroundEvent::DeployDone(stats) => {
                self.pending = false;
                self.status = format_deploy_status(&stats);
                Effect::Reload
            },
            BackgroundEvent::Error(msg) => {
                self.pending = false;
                self.status = msg;
                Effect::Nothing
            },
        }
    }
}


impl App {
    /// Whether a listing of the current directory keeps the entry `name`.
    pub fn keeps_name(&self, name: &String) -> (r: bool)
        ensures
            r == self.keeps(name@),
    {
        let dot = String::from_str(".");
        let dotdot = String::from_str("..");
        proof {
            reveal_strlit(".");
            reveal_strlit("..");
            assert(dot@ =~= seq!['.']);
            assert(dotdot@ =~= seq!['.', '.']);
        }
        if *name == dot || *name == dotdot {
            return false;
        }
        let at_home = self.current_dir.same_as(&self.home_dir);
        let at_repo = self.current_dir.same_as(&self.config.sync_dir);
        let dotted = starts_with_dot(name.as_str());
        match self.browse_mode {
            BrowseMode::Home => {
                if at_home {
                    match self.config.sync_dir.file_name() {
                        Some(n) => {
                            if n == *name {
                                return false;
                            }
                        },
                        None => {},
                    }
                }
                !(!self.show_all && at_home && !dotted)
            },
            BrowseMode::Sync => {
                if !self.show_all && at_repo && list_has(&self.config.synced_ignores, name) {
                    return false;
                }
                !(!self.show_all && at_repo && !dotted)
            },
        }
    }

    /// The path that an entry at `path` has on the other side: in the
    /// repository when browsing home, in home when browsing the repository.
    pub fn mirror_path(&self, path: &FsPath) -> (r: FsPath)
        ensures
            r@ == join_model(self.other_base(), self.rel_of(path@)),
    {
        let rel = relative_to(path, &self.home_dir, &self.config.sync_dir);
        match self.browse_mode {
            BrowseMode::Home => self.config.sync_dir.join(&rel),
            BrowseMode::Sync => self.home_dir.join(&rel),
        }
    }

    fn count_and_show(&self, all: Vec<FileEntry>) -> (r: (usize, usize, Vec<FileEntry>))
        ensures
            r.0 == self.syncable_of(entry_models(all@)).len(),
            r.1 == self.ignored_of(entry_models(all@)).len(),
            entry_models(r.2@) == self.shown_of(entry_models(all@)),
    {
        let ghost am = entry_models(all@);
        let ghost keep = |e: EntryModel| !self.ignored_path(e.path);
        let ghost drop = |e: EntryModel| self.ignored_path(e.path);
        let n = all.len();
        let mut n_kept: usize = 0;
        let mut n_dropped: usize = 0;
        let mut shown: Vec<FileEntry> = Vec::new();
        let mut i: usize = 0;
        while i < n
            invariant
                n == all@.len(),
                am == entry_models(all@),
                keep == (|e: EntryModel| !self.ignored_path(e.path)),
                drop == (|e: EntryModel| self.ignored_path(e.path)),
                i <= n,
                n_kept == am.take(i as int).filter(keep).len(),
                n_dropped == am.take(i as int).filter(drop).len(),
                n_kept <= i,
                n_dropped <= i,
                entry_models(shown@) == am.take(i as int).filter(keep),
            decreases n - i,
        {
            let ign = self.is_ignored(&all[i].path);
            proof {
                assert(am.take(i + 1) =~= am.take(i as int).push(am[i as int]));
                am.take(i as int).lemma_filter_push(am[i as int], keep);
                am.take(i as int).lemma_filter_push(am[i as int], drop);
                assert(am[i as int].path == all@[i as int].path@);
            }
            if ign {
                n_dropped = n_dropped + 1;
            } else {
                n_kept = n_kept + 1;
                let e = all[i].duplicate();
                let ghost before = shown@;
                shown.push(e);
                proof {
                    assert(entry_models(shown@) =~= entry_models(before).push(e@));
                }
            }
            i = i + 1;
        }
        proof {
            assert(am.take(n as int) =~= am);
        }
        if self.show_syncable_only {
            (n_kept, n_dropped, shown)
        } else {
            (n_kept, n_dropped, all)
        }
    }

    /// The entries of `listed` whose names the listing keeps.
    pub open spec fn kept_of(&self, listed: Seq<EntryModel>) -> Seq<EntryModel> {
        listed.filter(|e: EntryModel| self.keeps(e.name))
    }

    fn keep_named(&self, listed: &Vec<FileEntry>) -> (r: Vec<FileEntry>)
        ensures
            entry_models(r@) == self.kept_of(entry_models(listed@)),
    {
        let ghost lm = entry_models(listed@);
        let ghost keep = |e: EntryModel| self.keeps(e.name);
        let n = listed.len();
        let mut r: Vec<FileEntry> = Vec::new();
        let mut i: usize = 0;
        while i < n
            invariant
                n == listed@.len(),
                lm == entry_models(listed@),
                keep == (|e: EntryModel| self.keeps(e.name)),
                i <= n,
                entry_models(r@) == lm.take(i as int).filter(keep),
            decreases n - i,
        {
            proof {
                assert(lm.take(i + 1) =~= lm.take(i as int).push(lm[i as int]));
                lm.take(i as int).lemma_filter_push(lm[i as int], keep);
                assert(lm[i as int].name == listed@[i as int].name@);
            }
            if self.keeps_name(&listed[i].name) {
                let e = listed[i].duplicate();
                let ghost before = r@;
                r.push(e);
                proof {
                    assert(entry_models(r@) =~= entry_models(before).push(e@));
                }
            }
            i = i + 1;
        }
        proof {
            assert(lm.take(n as int) =~= lm);
        }
        r
    }

    fn find_name(entries: &Vec<FileEntry>, name: &String) -> (r: Option<usize>)
        ensures
            r matches Some(i) ==> i < entries@.len() && entries@[i as int].name@ == name@
                && forall|j: int| 0 <= j < i ==> entries@[j].name@ != name@,
            r is None ==> forall|j: int| 0 <= j < entries@.len() ==> entries@[j].name@ != name@,
    {
        let n = entries.len();
        let mut i: usize = 0;
        while i < n
            invariant
                n == entries@.len(),
                i <= n,
                forall|j: int| 0 <= j < i ==> entries@[j].name@ != name@,
            decreases n - i,
        {
            if entries[i].name == *name {
                return Some(i);
            }
            i = i + 1;
        }
        None
    }

    /// `post` is what `load_entries` makes of `pre` and a listing `listed`:
    /// the kept entries arranged, counted and filtered, then what
    /// `after_load` asked for done; nothing else changes.
    pub open spec fn loaded(pre: App, listed: Seq<EntryModel>, post: App) -> bool {
        &&& exists|all: Seq<EntryModel>|
            #[trigger] listing_of(pre.kept_of(listed), name_keys_of(pre.kept_of(listed)), all) && {
                &&& post.full_count == all.len()
                &&& post.full_tracked == pre.syncable_of(all).len()
                &&& post.full_ignored == pre.ignored_of(all).len()
                &&& entry_models(post.entries@) == pre.shown_of(all)
            }
        &&& match pre.after_load {
            AfterLoad::Nothing => post.selected == pre.selected && post.status == pre.status,
            AfterLoad::Reselect(name) => post.selected == selection_after(entry_models(post.entries@), name@, pre.selected)
                && post.status == pre.status,
            AfterLoad::ReportIgnored => post.selected == pre.selected
                && post.status@ == "Ignored "@ + decimal(post.entries@.len() as nat) + " items"@,
        }
        &&& post == (App {
            entries: post.entries,
            selected: post.selected,
            status: post.status,
            full_count: post.full_count,
            full_tracked: post.full_tracked,
            full_ignored: post.full_ignored,
            after_load: AfterLoad::Nothing,
            ..pre
        })
    }

    /// Takes in a fresh listing of the current directory, in the order read:
    /// keeps the entries whose names the listing keeps (the caller may have
    /// left the others out already, before looking at them), arranges them,
    /// counts the tracked and ignored ones, shows those that the filter lets
    /// through, then does what `after_load` asked.
    pub fn load_entries(&mut self, listed: Vec<FileEntry>)
        requires
            forall|i: int| 0 <= i < listed@.len() ==> old(self).lists_entry(#[trigger] listed@[i]@),
        ensures
            Self::loaded(*old(self), entry_models(listed@), *final(self)),
            forall|i: int| 0 <= i < final(self).entries@.len() ==> final(self).lists_entry(#[trigger] final(self).entries@[i]@),
    {
        let ghost old_listed = listed;
        let listed = self.keep_named(&listed);
        let keys = crate::listing::sort_keys(&listed);
        let all = arrange_entries(&listed, &keys);
        let ghost am = entry_models(all@);
        let count = all.len();
        let (n_kept, n_dropped, shown) = self.count_and_show(all);
        self.full_count = count;
        self.full_tracked = n_kept;
        self.full_ignored = n_dropped;
        self.entries = shown;
        let mut after = AfterLoad::Nothing;
        std::mem::swap(&mut after, &mut self.after_load);
        match after {
            AfterLoad::Nothing => {},
            AfterLoad::Reselect(name) => {
                match Self::find_name(&self.entries, &name) {
                    Some(i) => {
                        self.selected = i;
                        proof {
                            let em = entry_models(self.entries@);
                            assert(em[i as int].name == name@);
                            assert(exists|k: int| 0 <= k < em.len() && #[trigger] em[k].name == name@);
                            let c = choose|k: int| 0 <= k < em.len() && #[trigger] em[k].name == name@
                                && forall|j: int| 0 <= j < k ==> em[j].name != name@;
                            assert(forall|j: int| 0 <= j < i ==> em[j].name != name@);
                            if c < i {
                                assert(em[c].name != name@);
                            }
                            if c > i {
                                assert(em[i as int].name != name@);
                            }
                        }
                    },
                    None => {
                        proof {
                            let em = entry_models(self.entries@);
                            assert forall|k: int| 0 <= k < em.len() implies #[trigger] em[k].name != name@ by {
                                assert(em[k].name == self.entries@[k].name@);
                            }
                        }
                    },
                }
            },
            AfterLoad::ReportIgnored => {
                let mut st = String::from_str("Ignored ");
                push_decimal(&mut st, self.entries.len() as u128);
                st.append(" items");
                self.status = st;
            },
        }
        proof {
            assert(listing_of(entry_models(listed@), name_keys_of(entry_models(listed@)), am));
            let ghost pre = *old(self);
            let ghost lm = entry_models(old_listed@);
            assert(Self::loaded(pre, lm, *self));
            assert forall|i: int| 0 <= i < self.entries@.len() implies self.lists_entry(#[trigger] self.entries@[i]@) by {
                lemma_loaded_keeps(pre, lm, *self, i);
                let e = entry_models(self.entries@)[i];
                let k = choose|k: int| 0 <= k < lm.len() && lm[k] == e;
                assert(lm[k] == old_listed@[k]@);
                assert(pre.lists_entry(old_listed@[k]@));
            }
        }
    }

    /// Whether `e` belongs to a listing of the current directory: its path
    /// is the current directory with its name appended, and its fields
    /// agree as a listing sets them.
    pub open spec fn lists_entry(&self, e: EntryModel) -> bool {
        &&& e.path == (PathModel { absolute: self.current_dir@.absolute, parts: self.current_dir@.parts.push(e.name) })
        &&& e.consistent()
    }

    /// Whether every entry of `listed` belongs to a listing of the current
    /// directory (what `load_entries` asks of its listing).
    pub fn listing_fits(&self, listed: &Vec<FileEntry>) -> (r: bool)
        ensures
            r == forall|i: int| 0 <= i < listed@.len() ==> self.lists_entry(#[trigger] listed@[i]@),
    {
        let n = listed.len();
        let mut i: usize = 0;
        while i < n
            invariant
                n == listed@.len(),
                i <= n,
                forall|j: int| 0 <= j < i ==> self.lists_entry(#[trigger] listed@[j]@),
            decreases n - i,
        {
            let e = &listed[i];
            let expected = self.current_dir.child(&e.name);
            if !e.path.same_as(&expected) || !e.is_consistent() {
                proof {
                    assert(!self.lists_entry(listed@[i as int]@));
                }
                return false;
            }
            i = i + 1;
        }
        true
    }
}


/// The cursor after moving up in a list of `len` entries: one up, from the
/// first to the last; unchanged in an empty list.
pub open spec fn up_index(len: nat, sel: usize) -> usize {
    if len == 0 {
        sel
    } else if sel > 0 {
        (sel - 1) as usize
    } else {
        (len - 1) as usize
    }
}

/// The cursor after moving down in a list of `len` entries: one down, from
/// the last (or beyond) to the first; unchanged in an empty list.
pub open spec fn down_index(len: nat, sel: usize) -> usize {
    if len == 0 {
        sel
    } else if sel < len - 1 {
        (sel + 1) as usize
    } else {
        0
    }
}

/// Moving up and then down, or down and then up, comes back to the same
/// entry; and a cursor on an entry stays on one.
pub proof fn lemma_up_down_inverse(len: nat, sel: usize)
    requires
        sel < len,
        len <= usize::MAX,
    ensures
        down_index(len, up_index(len, sel)) == sel,
        up_index(len, down_index(len, sel)) == sel,
        up_index(len, sel) < len,
        down_index(len, sel) < len,
{
}

/// The counts of a listing add up: each entry is tracked or ignored.
pub proof fn lemma_counts_add_up(app: App, all: Seq<EntryModel>)
    ensures
        app.syncable_of(all).len() + app.ignored_of(all).len() == all.len(),
    decreases all.len(),
{
    let keep = |e: EntryModel| !app.ignored_path(e.path);
    let drop = |e: EntryModel| app.ignored_path(e.path);
    if all.len() > 0 {
        let rest = all.drop_last();
        lemma_counts_add_up(app, rest);
        assert(all =~= rest.push(all.last()));
        rest.lemma_filter_push(all.last(), keep);
        rest.lemma_filter_push(all.last(), drop);
    } else {
        assert(all.filter(keep) =~= Seq::<EntryModel>::empty());
        assert(all.filter(drop) =~= Seq::<EntryModel>::empty());
    }
}

/// A path on the ignore list is ignored; the status says `NotIgnored`
/// exactly when the path is not ignored, and `DirectlyIgnored` exactly
/// when it is on the list.
pub proof fn lemma_status_consistent(app: App, p: PathModel)
    ensures
        app.directly_ignored(p) ==> app.ignored_path(p),
        (app.status_of(p) == IgnoreStatus::NotIgnored) == !app.ignored_path(p),
        (app.status_of(p) == IgnoreStatus::DirectlyIgnored) == app.directly_ignored(p),
{
    let r = app.rel_of(p);
    if app.directly_ignored(p) {
        assert(crate::path::prefix_model(r, r.parts.len() as int) =~= r);
        assert(app.ignored_set().contains(path_text(crate::path::prefix_model(r, r.parts.len() as int))));
    }
}

/// With ignored entries hidden, the listing shows exactly the tracked
/// entries, in their arranged order, and none of them is ignored.
pub proof fn lemma_hidden_ignored(app: App, all: Seq<EntryModel>)
    requires
        app.show_syncable_only,
    ensures
        app.shown_of(all) == app.syncable_of(all),
        forall|i: int| 0 <= i < app.shown_of(all).len() ==> !app.ignored_path(#[trigger] app.shown_of(all)[i].path),
{
    let keep = |e: EntryModel| !app.ignored_path(e.path);
    assert forall|i: int| 0 <= i < app.shown_of(all).len() implies !app.ignored_path(#[trigger] app.shown_of(all)[i].path) by {
        all.lemma_filter_pred(keep, i);
    }
}

/// After a reload that looks for a name present in the listing, the cursor
/// is on the first entry with that name.
pub proof fn lemma_reselect_finds(entries: Seq<EntryModel>, name: Seq<char>, sel: usize, i: int)
    requires
        0 <= i < entries.len(),
        entries[i].name == name,
        entries.len() <= usize::MAX,
    ensures
        selection_after(entries, name, sel) <= i,
        entries[selection_after(entries, name, sel) as int].name == name,
        forall|j: int| 0 <= j < selection_after(entries, name, sel) ==> entries[j].name != name,
    decreases i,
{
    if exists|j: int| 0 <= j < i && #[trigger] entries[j].name == name {
        let j = choose|j: int| 0 <= j < i && #[trigger] entries[j].name == name;
        lemma_reselect_finds(entries, name, sel, j);
    } else {
        assert(exists|k: int| 0 <= k < entries.len() && #[trigger] entries[k].name == name);
        let c = choose|k: int| 0 <= k < entries.len() && #[trigger] entries[k].name == name
            && forall|j: int| 0 <= j < k ==> entries[j].name != name;
        assert(0 <= i < entries.len() && entries[i].name == name
            && forall|j: int| 0 <= j < i ==> entries[j].name != name);
        if c < i {
            assert(entries[c].name == name);
        }
        if c > i {
            assert(entries[i].name != name);
        }
    }
}

/// The mirror of a home entry outside the repository is its copy in the
/// repository, and the mirror of that copy, browsing the repository, is
/// the home entry again.
pub proof fn lemma_mirror_round_trip(app: App, p: PathModel)
    requires
        app.browse_mode == BrowseMode::Home,
        app.home_dir@.absolute,
        app.config.sync_dir@.absolute,
        strip_model(p, app.config.sync_dir@) is None,
        strip_model(p, app.home_dir@) is Some,
    ensures
        ({
            let copy = join_model(app.other_base(), app.rel_of(p));
            let back = App { browse_mode: BrowseMode::Sync, ..app };
            &&& strip_model(copy, app.config.sync_dir@) == Some(strip_model(p, app.home_dir@).unwrap())
            &&& join_model(back.other_base(), back.rel_of(copy)) == p
        }),
{
    let rel = strip_model(p, app.home_dir@).unwrap();
    crate::path::lemma_strip_join(app.config.sync_dir@, rel);
    crate::path::lemma_join_strip(app.home_dir@, p, rel);
}

/// Toggling a text twice gives back the set; one toggle flips exactly that
/// text's membership.
pub proof fn lemma_toggle_twice(s: Set<Seq<char>>, t: Seq<char>)
    ensures
        toggled(toggled(s, t), t) == s,
        toggled(s, t).contains(t) == !s.contains(t),
        forall|u: Seq<char>| u != t ==> toggled(s, t).contains(u) == s.contains(u),
{
    assert(toggled(toggled(s, t), t) =~= s);
}

/// Each entry that a listing shows has a name that the listing keeps.
proof fn lemma_loaded_keeps(pre: App, listed: Seq<EntryModel>, post: App, i: int)
    requires
        App::loaded(pre, listed, post),
        0 <= i < post.entries@.len(),
    ensures
        pre.keeps(entry_models(post.entries@)[i].name),
        listed.contains(entry_models(post.entries@)[i]),
{
    let kept = pre.kept_of(listed);
    let keys = name_keys_of(kept);
    let all = choose|all: Seq<EntryModel>| #[trigger] listing_of(kept, keys, all) && {
        &&& post.full_count == all.len()
        &&& post.full_tracked == pre.syncable_of(all).len()
        &&& post.full_ignored == pre.ignored_of(all).len()
        &&& entry_models(post.entries@) == pre.shown_of(all)
    };
    let em = entry_models(post.entries@);
    let e = em[i];
    if pre.show_syncable_only {
        let keep = |x: EntryModel| !pre.ignored_path(x.path);
        assert(all.filter(keep)[i] == e);
        assert(all.filter(keep).contains(e));
        all.lemma_filter_contains_rev(keep, e);
    } else {
        assert(all[i] == e);
    }
    assert(all.contains(e));
    let k = choose|k: int| 0 <= k < all.len() && all[k] == e;
    let order = choose|order: Seq<int>| #[trigger] crate::listing::sorted_order(crate::listing::dirs_of(kept), keys, order)
        && crate::listing::arranged(kept, order) == all;
    assert(crate::listing::arranged(kept, order).len() == order.len());
    let j = order[k];
    assert(0 <= j < crate::listing::dirs_of(kept).len());
    assert(all[k] == kept[j]);
    let kk = |x: EntryModel| pre.keeps(x.name);
    listed.lemma_filter_pred(kk, j);
    assert(kept.contains(kept[j]));
    listed.lemma_filter_contains_rev(kk, kept[j]);
}

/// Two states that agree on what decides a listing (the two trees, the
/// current directory, the repository's never-synced names, the ignore list
/// and the two filters) make the same entries and counts of one listing.
pub proof fn lemma_reload_same(p: App, q: App, listed: Seq<EntryModel>, x: App, y: App)
    requires
        p.home_dir@ == q.home_dir@,
        p.current_dir@ == q.current_dir@,
        p.config.sync_dir@ == q.config.sync_dir@,
        texts(p.config.synced_ignores@) == texts(q.config.synced_ignores@),
        p.ignored_set() == q.ignored_set(),
        p.show_all == q.show_all,
        p.show_syncable_only == q.show_syncable_only,
        p.browse_mode == q.browse_mode,
        App::loaded(p, listed, x),
        App::loaded(q, listed, y),
    ensures
        entry_models(x.entries@) == entry_models(y.entries@),
        x.full_count == y.full_count,
        x.full_tracked == y.full_tracked,
        x.full_ignored == y.full_ignored,
{
    assert((|e: EntryModel| p.keeps(e.name)) =~= (|e: EntryModel| q.keeps(e.name)));
    assert(p.kept_of(listed) == q.kept_of(listed));
    let kept = p.kept_of(listed);
    let keys = name_keys_of(kept);
    let a = choose|all: Seq<EntryModel>| #[trigger] listing_of(kept, keys, all) && {
        &&& x.full_count == all.len()
        &&& x.full_tracked == p.syncable_of(all).len()
        &&& x.full_ignored == p.ignored_of(all).len()
        &&& entry_models(x.entries@) == p.shown_of(all)
    };
    let b = choose|all: Seq<EntryModel>| #[trigger] listing_of(q.kept_of(listed), name_keys_of(q.kept_of(listed)), all) && {
        &&& y.full_count == all.len()
        &&& y.full_tracked == q.syncable_of(all).len()
        &&& y.full_ignored == q.ignored_of(all).len()
        &&& entry_models(y.entries@) == q.shown_of(all)
    };
    crate::listing::lemma_listing_unique(kept, keys, a, b);
    assert((|e: EntryModel| !p.ignored_path(e.path)) =~= (|e: EntryModel| !q.ignored_path(e.path)));
    assert((|e: EntryModel| p.ignored_path(e.path)) =~= (|e: EntryModel| q.ignored_path(e.path)));
    assert(p.syncable_of(a) == q.syncable_of(a));
    assert(p.ignored_of(a) == q.ignored_of(a));
}

/// Toggling show-all twice, with the same listing taken in after each
/// toggle, gives back the state that listing made, with the cursor on the
/// first entry: the same flag, entries, counts and status.
pub proof fn lemma_show_all_twice(a0: App, a: App, listed: Seq<EntryModel>, b1: App, b2: App)
    requires
        App::loaded(a0, listed, a),
        App::loaded(App { show_all: !a.show_all, selected: 0, ..a }, listed, b1),
        App::loaded(App { show_all: !b1.show_all, selected: 0, ..b1 }, listed, b2),
    ensures
        entry_models(b2.entries@) == entry_models(a.entries@),
        b2 == (App { entries: b2.entries, selected: 0, ..a }),
{
    let a2 = App { show_all: !b1.show_all, selected: 0, ..b1 };
    lemma_reload_same(a0, a2, listed, a, b2);
}

/// Entering the directory under the cursor and going back, with that
/// directory's listing taken in between and the first listing taken in
/// again after, gives back the state the first listing made: the same
/// directory, entries, counts and status, and the cursor on the directory
/// entered when no entry before it has its name.
pub proof fn lemma_enter_back(
    a0: App,
    a: App,
    listed: Seq<EntryModel>,
    e1: App,
    inner: Seq<EntryModel>,
    b1: App,
    b2: App,
    c: App,
)
    requires
        App::loaded(a0, listed, a),
        a.awaiting_confirm is None,
        a.selected < a.entries@.len(),
        a.entries@[a.selected as int]@.is_dir,
        a.entries@[a.selected as int]@.path == join_model(a.current_dir@,
            PathModel { absolute: false, parts: seq![a.entries@[a.selected as int]@.name] }),
        a.entries@[a.selected as int]@.path != a.base(),
        forall|j: int| 0 <= j < a.selected ==> (#[trigger] a.entries@[j])@.name != a.entries@[a.selected as int]@.name,
        e1.current_dir@ == a.entries@[a.selected as int]@.path,
        e1 == (App { current_dir: e1.current_dir, selected: 0, ..a }),
        App::loaded(e1, inner, b1),
        parent_model(b1.current_dir@) matches Some(up) && b2.current_dir@ == up,
        b2.after_load matches AfterLoad::Reselect(n) && n@ == match file_name_model(b1.current_dir@) {
            Some(f) => f,
            None => Seq::empty(),
        },
        b2 == (App { current_dir: b2.current_dir, after_load: b2.after_load, ..b1 }),
        App::loaded(b2, listed, c),
    ensures
        c.current_dir@ == a.current_dir@,
        entry_models(c.entries@) == entry_models(a.entries@),
        c == (App { current_dir: c.current_dir, entries: c.entries, ..a }),
{
    let i = a.selected as int;
    let name = a.entries@[i]@.name;
    let cur = a.current_dir@;
    lemma_loaded_keeps(a0, listed, a, i);
    assert(entry_models(a.entries@)[i] == a.entries@[i]@);
    assert(name != seq!['.', '.']);
    let d = a.entries@[i]@.path;
    assert(d.parts == cur.parts + seq![name]);
    assert(d.parts.drop_last() =~= cur.parts);
    assert(d.parts.last() == name);
    assert(b2.current_dir@ =~= cur);
    lemma_reload_same(a0, b2, listed, a, c);
    let em = entry_models(c.entries@);
    assert(em[i] == a.entries@[i]@);
    assert forall|j: int| 0 <= j < i implies em[j].name != name by {
        assert(em[j] == entry_models(a.entries@)[j]);
        assert(entry_models(a.entries@)[j] == a.entries@[j]@);
    }
    lemma_reselect_finds(em, name, b2.selected, i);
    if selection_after(em, name, b2.selected) < i {
        let s = selection_after(em, name, b2.selected) as int;
        assert(em[s].name == name);
    }
}

/// A set with `t` taken out when it holds `t`, else put in.
pub open spec fn toggled(s: Set<Seq<char>>, t: Seq<char>) -> Set<Seq<char>> {
    if s.contains(t) {
        s.remove(t)
    } else {
        s.insert(t)
    }
}

/// The texts of a signed number.
pub open spec fn signed_decimal(n: int) -> Seq<char> {
    if n < 0 {
        seq!['-'] + decimal((-n) as nat)
    } else {
        decimal(n as nat)
    }
}

impl App {
    /// The background-run context that this state hands out.
    pub open spec fn ctx_matches(&self, c: WorkerCtx) -> bool {
        &&& c.home_dir@ == self.home_dir@
        &&& c.sync_dir@ == self.config.sync_dir@
        &&& texts(c.ignored@) == texts(self.ignored@)
        &&& texts(c.synced_ignores@) == texts(self.config.synced_ignores@)
        &&& c.show_all == self.show_all
    }

    /// The relative path of the entry under the cursor.
    pub open spec fn selected_rel(&self) -> PathModel {
        self.rel_of(self.entries@[self.selected as int].path@)
    }

    /// The texts of the relative paths of the listed entries.
    pub open spec fn listed_rel_texts(&self) -> Set<Seq<char>> {
        entry_models(self.entries@).map_values(|e: EntryModel| path_text(self.rel_of(e.path))).to_set()
    }

    /// What `sync_all` does from `pre`: nothing while a run is pending, else
    /// the run over the whole of home starts.
    pub open spec fn sync_all_step(pre: App, post: App, e: Effect) -> bool {
        if pre.pending {
            post == pre && e is Nothing
        } else {
            &&& post == (App { pending: true, status: post.status, ..pre })
            &&& post.status@ == "Syncing all..."@
            &&& e matches Effect::StartSync(job) && {
                &&& pre.ctx_matches(job.ctx)
                &&& job.kind == JobKind::All
                &&& job.src@ == pre.home_dir@
                &&& job.dest@ == pre.config.sync_dir@
            }
        }
    }

    /// What `deploy_all` does from `pre`, told whether the repository
    /// exists: nothing while a run is pending, a message when there is no
    /// repository, else the run over the whole repository starts.
    pub open spec fn deploy_all_step(pre: App, post: App, e: Effect, sync_dir_exists: bool) -> bool {
        if pre.pending {
            post == pre && e is Nothing
        } else if !sync_dir_exists {
            &&& post == (App { status: post.status, ..pre })
            &&& post.status@ == "Nothing to deploy: sync dir does not exist"@
            &&& e is Nothing
        } else {
            &&& post == (App { pending: true, status: post.status, ..pre })
            &&& post.status@ == "Deploying all..."@
            &&& e matches Effect::StartDeploy(job) && {
                &&& pre.ctx_matches(job.ctx)
                &&& job.kind == JobKind::All
                &&& job.src@ == pre.config.sync_dir@
                &&& job.dest@ == pre.home_dir@
            }
        }
    }

    fn worker_ctx(&self) -> (c: WorkerCtx)
        ensures
            self.ctx_matches(c),
    {
        WorkerCtx {
            home_dir: self.home_dir.duplicate(),
            sync_dir: self.config.sync_dir.duplicate(),
            ignored: copy_texts(&self.ignored),
            synced_ignores: copy_texts(&self.config.synced_ignores),
            show_all: self.show_all,
        }
    }

    /// Switches between browsing home and the repository, staying at the
    /// same relative directory; the caller then checks that it is a
    /// directory (`dir_checked`).
    pub fn toggle_browse_mode(&mut self) -> (e: Effect)
        ensures
            final(self).browse_mode == (match old(self).browse_mode {
                BrowseMode::Home => BrowseMode::Sync,
                BrowseMode::Sync => BrowseMode::Home,
            }),
            final(self).current_dir@ == join_model(final(self).base(), match strip_model(old(self).current_dir@, old(self).base()) {
                Some(r) => r,
                None => PathModel { absolute: false, parts: Seq::empty() },
            }),
            *final(self) == (App {
                browse_mode: final(self).browse_mode,
                current_dir: final(self).current_dir,
                selected: 0,
                ..*old(self)
            }),
            e is CheckDir,
    {
        let rel = match self.current_dir.strip_prefix(self.base_dir()) {
            Some(r) => r,
            None => FsPath::empty(),
        };
        self.browse_mode = match self.browse_mode {
            BrowseMode::Home => BrowseMode::Sync,
            BrowseMode::Sync => BrowseMode::Home,
        };
        let dir = self.base_dir().join(&rel);
        self.current_dir = dir;
        self.selected = 0;
        Effect::CheckDir
    }

    /// Takes in whether the current directory is a directory; when it is
    /// not, goes to the browsed root. Then lists it.
    pub fn dir_checked(&mut self, is_dir: bool) -> (e: Effect)
        ensures
            is_dir ==> *final(self) == *old(self),
            !is_dir ==> final(self).current_dir@ == old(self).base()
                && *final(self) == (App { current_dir: final(self).current_dir, ..*old(self) }),
            e is Reload,
    {
        if !is_dir {
            let base = self.base_dir().duplicate();
            self.current_dir = base;
        }
        Effect::Reload
    }

    /// Opens the entry under the cursor: a directory becomes the current
    /// one (listed from its first entry); a file is handed out to edit.
    pub fn enter_directory(&mut self) -> (e: Effect)
        ensures
            old(self).selected >= old(self).entries@.len() ==> *final(self) == *old(self) && e is Nothing,
            old(self).selected < old(self).entries@.len() ==> {
                let entry = old(self).entries@[old(self).selected as int]@;
                if entry.is_dir {
                    &&& final(self).current_dir@ == entry.path
                    &&& *final(self) == (App { current_dir: final(self).current_dir, selected: 0, ..*old(self) })
                    &&& e is Reload
                } else {
                    &&& *final(self) == *old(self)
                    &&& e matches Effect::OpenFile(p) && p@ == entry.path
                }
            },
    {
        if self.selected >= self.entries.len() {
            return Effect::Nothing;
        }
        let sel = self.selected;
        if self.entries[sel].is_dir {
            let p = self.entries[sel].path.duplicate();
            self.current_dir = p;
            self.selected = 0;
            Effect::Reload
        } else {
            Effect::OpenFile(self.entries[sel].path.duplicate())
        }
    }

    /// Esc: drops a pending question; else goes up one directory, unless at
    /// the browsed root, and puts the cursor on the directory just left.
    pub fn go_back(&mut self) -> (e: Effect)
        ensures
            old(self).awaiting_confirm is Some ==> final(self).status@.len() == 0
                && *final(self) == (App { awaiting_confirm: None, status: final(self).status, ..*old(self) })
                && e is Nothing,
            old(self).awaiting_confirm is None && old(self).current_dir@ == old(self).base() ==>
                *final(self) == *old(self) && e is Nothing,
            old(self).awaiting_confirm is None && old(self).current_dir@ != old(self).base() ==>
                match parent_model(old(self).current_dir@) {
                    Some(up) => {
                        &&& final(self).current_dir@ == up
                        &&& final(self).after_load matches AfterLoad::Reselect(n) && n@ == match file_name_model(old(self).current_dir@) {
                            Some(f) => f,
                            None => Seq::empty(),
                        }
                        &&& *final(self) == (App { current_dir: final(self).current_dir, after_load: final(self).after_load, ..*old(self) })
                        &&& e is Reload
                    },
                    None => *final(self) == *old(self) && e is Nothing,
                },
    {
        if self.awaiting_confirm.is_some() {
            self.awaiting_confirm = None;
            self.status = String::new();
            return Effect::Nothing;
        }
        if self.current_dir.same_as(self.base_dir()) {
            return Effect::Nothing;
        }
        let child_name = match self.current_dir.file_name() {
            Some(n) => n,
            None => String::new(),
        };
        match self.current_dir.parent() {
            Some(up) => {
                self.current_dir = up;
                self.after_load = AfterLoad::Reselect(child_name);
                Effect::Reload
            },
            None => Effect::Nothing,
        }
    }

    /// Space: puts the entry under the cursor on the ignore list, or takes
    /// it off; the list is saved, the directory listed again, and the
    /// cursor kept on the entry.
    pub fn toggle_ignore(&mut self) -> (e: Effect)
        requires
            old(self).wf(),
        ensures
            final(self).wf(),
            old(self).selected >= old(self).entries@.len() ==> *final(self) == *old(self) && e is Nothing,
            old(self).selected < old(self).entries@.len() ==> {
                &&& final(self).ignored_set() == toggled(old(self).ignored_set(), path_text(old(self).selected_rel()))
                &&& final(self).after_load matches AfterLoad::Reselect(n)
                    && n@ == old(self).entries@[old(self).selected as int].name@
                &&& *final(self) == (App { ignored: final(self).ignored, after_load: final(self).after_load, ..*old(self) })
                &&& e is SaveAndReload
            },
    {
        if self.selected >= self.entries.len() {
            return Effect::Nothing;
        }
        let sel = self.selected;
        let rel = self.relative_path(&self.entries[sel].path);
        let name = copy_text(&self.entries[sel].name);
        if list_has(&self.ignored, &rel) {
            remove_text(&mut self.ignored, &rel);
        } else {
            add_text(&mut self.ignored, rel);
        }
        self.after_load = AfterLoad::Reselect(name);
        Effect::SaveAndReload
    }

    /// Puts every listed entry on the ignore list, saves it, lists again
    /// and reports how many entries the new listing holds.
    pub fn ignore_all(&mut self) -> (e: Effect)
        requires
            old(self).wf(),
        ensures
            final(self).wf(),
            final(self).ignored_set() == old(self).ignored_set().union(old(self).listed_rel_texts()),
            final(self).after_load is ReportIgnored,
            *final(self) == (App { ignored: final(self).ignored, after_load: final(self).after_load, ..*old(self) }),
            e is SaveAndReload,
    {
        let ghost start = self.ignored_set();
        let ghost rels = entry_models(self.entries@).map_values(|e: EntryModel| path_text(self.rel_of(e.path)));
        let n = self.entries.len();
        let mut i: usize = 0;
        while i < n
            invariant
                n == self.entries@.len(),
                i <= n,
                unique_texts(self.ignored@),
                *self == (App { ignored: self.ignored, ..*old(self) }),
                rels == entry_models(self.entries@).map_values(|e: EntryModel| path_text(self.rel_of(e.path))),
                self.ignored_set() == start.union(rels.take(i as int).to_set()),
            decreases n - i,
        {
            let rel = self.relative_path(&self.entries[i].path);
            add_text(&mut self.ignored, rel);
            proof {
                assert(rels[i as int] == rel@);
                assert(rels.take(i + 1) =~= rels.take(i as int).push(rels[i as int]));
                crate::text::lemma_push_to_set(rels.take(i as int), rels[i as int]);
                assert(self.ignored_set() =~= start.union(rels.take(i + 1).to_set()));
            }
            i = i + 1;
        }
        proof {
            assert(rels.take(n as int) =~= rels);
        }
        self.after_load = AfterLoad::ReportIgnored;
        Effect::SaveAndReload
    }
}


impl App {
    /// The home path that `sync_selected` needs checked for existence:
    /// `None` while a run is pending or when no entry is under the cursor.
    pub fn sync_source(&self) -> (r: Option<FsPath>)
        ensures
            (self.pending || self.selected >= self.entries@.len()) ==> r is None,
            (!self.pending && self.selected < self.entries@.len()) ==>
                (r matches Some(p) && p@ == join_model(self.home_dir@, self.selected_rel())),
    {
        if self.pending || self.selected >= self.entries.len() {
            return None;
        }
        let rel = relative_to(&self.entries[self.selected].path, &self.home_dir, &self.config.sync_dir);
        Some(self.home_dir.join(&rel))
    }

    /// The repository path that `deploy_selected` needs checked for
    /// existence: `None` while a run is pending or when no entry is under
    /// the cursor.
    pub fn deploy_source(&self) -> (r: Option<FsPath>)
        ensures
            (self.pending || self.selected >= self.entries@.len()) ==> r is None,
            (!self.pending && self.selected < self.entries@.len()) ==>
                (r matches Some(p) && p@ == join_model(self.config.sync_dir@, self.selected_rel())),
    {
        if self.pending || self.selected >= self.entries.len() {
            return None;
        }
        let rel = relative_to(&self.entries[self.selected].path, &self.home_dir, &self.config.sync_dir);
        Some(self.config.sync_dir.join(&rel))
    }

    /// `s`: syncs the entry under the cursor from home into the repository,
    /// told whether it exists in home. Refused with a message when it does
    /// not, or when it is ignored.
    pub fn sync_selected(&mut self, src_exists: bool) -> (e: Effect)
        ensures
            (old(self).pending || old(self).selected >= old(self).entries@.len()) ==> *final(self) == *old(self) && e is Nothing,
            (!old(self).pending && old(self).selected < old(self).entries@.len()) ==> {
                let rel = old(self).selected_rel();
                let src = join_model(old(self).home_dir@, rel);
                if !src_exists {
                    &&& final(self).status@ == "Not in home: "@ + path_text(rel)
                    &&& *final(self) == (App { status: final(self).status, ..*old(self) })
                    &&& e is Nothing
                } else if old(self).ignored_path(src) {
                    &&& final(self).status@ == "Ignored: "@ + path_text(rel)
                    &&& *final(self) == (App { status: final(self).status, ..*old(self) })
                    &&& e is Nothing
                } else {
                    &&& final(self).status@ == "Syncing "@ + path_text(rel) + "..."@
                    &&& *final(self) == (App { status: final(self).status, pending: true, ..*old(self) })
                    &&& e matches Effect::StartSync(job) && {
                        &&& old(self).ctx_matches(job.ctx)
                        &&& job.kind == if old(self).entries@[old(self).selected as int].is_dir { JobKind::Dir } else { JobKind::File }
                        &&& job.src@ == src
                        &&& job.dest@ == join_model(old(self).config.sync_dir@, rel)
                    }
                }
            },
    {
        if self.pending || self.selected >= self.entries.len() {
            return Effect::Nothing;
        }
        let sel = self.selected;
        let is_dir = self.entries[sel].is_dir;
        let rel = relative_to(&self.entries[sel].path, &self.home_dir, &self.config.sync_dir);
        let rel_text = rel.to_text();
        let src = self.home_dir.join(&rel);
        let dest = self.config.sync_dir.join(&rel);
        if !src_exists {
            let mut st = String::from_str("Not in home: ");
            st.append(rel_text.as_str());
            self.status = st;
            return Effect::Nothing;
        }
        if self.is_ignored(&src) {
            let mut st = String::from_str("Ignored: ");
            st.append(rel_text.as_str());
            self.status = st;
            return Effect::Nothing;
        }
        self.pending = true;
        let mut st = String::from_str("Syncing ");
        st.append(rel_text.as_str());
        st.append("...");
        self.status = st;
        let ctx = self.worker_ctx();
        Effect::StartSync(SyncJob { ctx, kind: if is_dir { JobKind::Dir } else { JobKind::File }, src, dest })
    }

    /// `S` confirmed: syncs all of home into the repository.
    pub fn sync_all(&mut self) -> (e: Effect)
        ensures
            Self::sync_all_step(*old(self), *final(self), e),
    {
        if self.pending {
            return Effect::Nothing;
        }
        let ctx = self.worker_ctx();
        let src = self.home_dir.duplicate();
        let dest = self.config.sync_dir.duplicate();
        self.pending = true;
        self.status = String::from_str("Syncing all...");
        Effect::StartSync(SyncJob { ctx, kind: JobKind::All, src, dest })
    }

    /// `d`: deploys the entry under the cursor from the repository into
    /// home, told whether it exists in the repository; refused with a
    /// message when it does not.
    pub fn deploy_selected(&mut self, src_exists: bool) -> (e: Effect)
        ensures
            (old(self).pending || old(self).selected >= old(self).entries@.len()) ==> *final(self) == *old(self) && e is Nothing,
            (!old(self).pending && old(self).selected < old(self).entries@.len()) ==> {
                let rel = old(self).selected_rel();
                if !src_exists {
                    &&& final(self).status@ == "Not in sync repo: "@ + path_text(rel)
                    &&& *final(self) == (App { status: final(self).status, ..*old(self) })
                    &&& e is Nothing
                } else {
                    &&& final(self).status@ == "Deploying "@ + path_text(rel) + "..."@
                    &&& *final(self) == (App { status: final(self).status, pending: true, ..*old(self) })
                    &&& e matches Effect::StartDeploy(job) && {
                        &&& old(self).ctx_matches(job.ctx)
                        &&& job.kind == if old(self).entries@[old(self).selected as int].is_dir { JobKind::Dir } else { JobKind::File }
                        &&& job.src@ == join_model(old(self).config.sync_dir@, rel)
                        &&& job.dest@ == join_model(old(self).home_dir@, rel)
                    }
                }
            },
    {
        if self.pending || self.selected >= self.entries.len() {
            return Effect::Nothing;
        }
        let sel = self.selected;
        let is_dir = self.entries[sel].is_dir;
        let rel = relative_to(&self.entries[sel].path, &self.home_dir, &self.config.sync_dir);
        let rel_text = rel.to_text();
        let src = self.config.sync_dir.join(&rel);
        let dest = self.home_dir.join(&rel);
        if !src_exists {
            let mut st = String::from_str("Not in sync repo: ");
            st.append(rel_text.as_str());
            self.status = st;
            return Effect::Nothing;
        }
        self.pending = true;
        let mut st = String::from_str("Deploying ");
        st.append(rel_text.as_str());
        st.append("...");
        self.status = st;
        let ctx = self.worker_ctx();
        Effect::StartDeploy(DeployJob { ctx, kind: if is_dir { JobKind::Dir } else { JobKind::File }, src, dest })
    }

    /// `D` confirmed: deploys the whole repository into home, told whether
    /// the repository exists.
    pub fn deploy_all(&mut self, sync_dir_exists: bool) -> (e: Effect)
        ensures
            Self::deploy_all_step(*old(self), *final(self), e, sync_dir_exists),
    {
        if self.pending {
            return Effect::Nothing;
        }
        if !sync_dir_exists {
            self.status = String::from_str("Nothing to deploy: sync dir does not exist");
            return Effect::Nothing;
        }
        let ctx = self.worker_ctx();
        let src = self.config.sync_dir.duplicate();
        let dest = self.home_dir.duplicate();
        self.pending = true;
        self.status = String::from_str("Deploying all...");
        Effect::StartDeploy(DeployJob { ctx, kind: JobKind::All, src, dest })
    }

    /// `y` to a question: runs the action asked about (`sync_all` or
    /// `deploy_all`), else clears the status line. The caller says whether
    /// the repository exists, which `deploy_all` needs.
    pub fn confirm_action(&mut self, sync_dir_exists: bool) -> (e: Effect)
        ensures
            match old(self).awaiting_confirm {
                Some(a) => if a@ == "sync_all"@ {
                    Self::sync_all_step(App { awaiting_confirm: None, ..*old(self) }, *final(self), e)
                } else if a@ == "deploy_all"@ {
                    Self::deploy_all_step(App { awaiting_confirm: None, ..*old(self) }, *final(self), e, sync_dir_exists)
                } else {
                    &&& final(self).status@.len() == 0
                    &&& *final(self) == (App { awaiting_confirm: None, status: final(self).status, ..*old(self) })
                    &&& e is Nothing
                },
                None => {
                    &&& final(self).status@.len() == 0
                    &&& *final(self) == (App { awaiting_confirm: None, status: final(self).status, ..*old(self) })
                    &&& e is Nothing
                },
            },
    {
        let mut action: Option<String> = None;
        std::mem::swap(&mut action, &mut self.awaiting_confirm);
        match action {
            Some(a) => {
                if a == String::from_str("sync_all") {
                    self.sync_all()
                } else if a == String::from_str("deploy_all") {
                    self.deploy_all(sync_dir_exists)
                } else {
                    self.status = String::new();
                    Effect::Nothing
                }
            },
            None => {
                self.status = String::new();
                Effect::Nothing
            },
        }
    }

    /// The two copies of the file under the cursor to compare, the browsed
    /// side first: `None` when no file is under the cursor.
    pub fn diff_paths(&self) -> (r: Option<(FsPath, FsPath)>)
        ensures
            (self.selected >= self.entries@.len() || self.entries@[self.selected as int].is_dir) ==> r is None,
            (self.selected < self.entries@.len() && !self.entries@[self.selected as int].is_dir) ==> {
                let h = join_model(self.home_dir@, self.selected_rel());
                let s = join_model(self.config.sync_dir@, self.selected_rel());
                r matches Some((left, right)) && match self.browse_mode {
                    BrowseMode::Home => left@ == h && right@ == s,
                    BrowseMode::Sync => left@ == s && right@ == h,
                }
            },
    {
        if self.selected >= self.entries.len() || self.entries[self.selected].is_dir {
            return None;
        }
        let rel = relative_to(&self.entries[self.selected].path, &self.home_dir, &self.config.sync_dir);
        let h = self.home_dir.join(&rel);
        let s = self.config.sync_dir.join(&rel);
        match self.browse_mode {
            BrowseMode::Home => Some((h, s)),
            BrowseMode::Sync => Some((s, h)),
        }
    }

    /// Says that a comparison needs both copies.
    pub fn diff_unavailable(&mut self)
        ensures
            final(self).status@ == "Both copies must exist to diff"@,
            *final(self) == (App { status: final(self).status, ..*old(self) }),
    {
        self.status = String::from_str("Both copies must exist to diff");
    }

    /// Reports that the editor `editor` ended with a failure, with its exit
    /// code (`-1` when it has none).
    pub fn editor_failed(&mut self, editor: &str, code: Option<i32>)
        ensures
            final(self).status@ == editor@ + ": exit code "@ + signed_decimal(match code {
                Some(c) => c as int,
                None => -1,
            }),
            *final(self) == (App { status: final(self).status, ..*old(self) }),
    {
        let c: i32 = match code {
            Some(c) => c,
            None => -1,
        };
        let mut st = String::from_str(editor);
        st.append(": exit code ");
        if c < 0 {
            crate::text::string_push(&mut st, '-');
            let m: i64 = -(c as i64);
            push_decimal(&mut st, m as u128);
        } else {
            push_decimal(&mut st, c as u128);
        }
        proof {
            assert(st@ =~= editor@ + ": exit code "@ + signed_decimal(c as int));
        }
        self.status = st;
    }
}

/// Below the top of the browsed tree a listing leaves nothing out by name:
/// every name but `.` and `..` is kept, whether or not all are shown.
pub proof fn lemma_keeps_below_top(app: App, name: Seq<char>)
    requires
        app.current_dir@ != app.base(),
    ensures
        app.keeps(name) == (name != seq!['.'] && name != seq!['.', '.']),
{
}

/// At the top of home, the repository's own directory is never kept;
/// any other name but `.` and `..` is kept when all are shown, and
/// otherwise exactly when it starts with a dot.
pub proof fn lemma_keeps_home_top(app: App, name: Seq<char>)
    requires
        app.browse_mode == BrowseMode::Home,
        app.current_dir@ == app.home_dir@,
        name != seq!['.'],
        name != seq!['.', '.'],
    ensures
        file_name_model(app.config.sync_dir@) == Some(name) ==> !app.keeps(name),
        file_name_model(app.config.sync_dir@) != Some(name) ==> app.keeps(name) == (app.show_all || is_dotted(name)),
{
}

} // verus!
