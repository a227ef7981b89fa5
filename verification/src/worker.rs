//! The decisions of the background sync and deploy runs: which entries a
//! walk visits and where they go, what the cleaning pass removes, and when
//! a file is copied. The runs themselves read and write the filesystem and
//! ask these functions at each step.
use vstd::prelude::*;
use crate::path::{FsPath, PathModel, path_text, strip_model, join_model, copy_texts};
use crate::ignore::{rel_model, listed_or_below, text_set, relative_to, listed_or_below_exec, list_has};
use crate::text::{texts, is_dotted, starts_with_dot};
use crate::stats::Outcome;

verus! {

/// What a background run needs to know of the program's state.
#[derive(Debug)]
pub struct WorkerCtx {
    pub home_dir: FsPath,
    pub sync_dir: FsPath,
    pub ignored: Vec<String>,
    pub synced_ignores: Vec<String>,
    pub show_all: bool,
}

impl WorkerCtx {
    /// Whether `p` is ignored, itself or through a path above it.
    pub open spec fn ignores(&self, p: PathModel) -> bool {
        listed_or_below(text_set(self.ignored@), rel_model(p, self.home_dir@, self.sync_dir@))
    }

    /// Whether `name` is one of the repository names never synced.
    pub open spec fn skips_name(&self, name: Seq<char>) -> bool {
        texts(self.synced_ignores@).contains(name)
    }

    /// A copy of the context.
    pub fn duplicate(&self) -> (r: WorkerCtx)
        ensures
            r.home_dir@ == self.home_dir@,
            r.sync_dir@ == self.sync_dir@,
            texts(r.ignored@) == texts(self.ignored@),
            texts(r.synced_ignores@) == texts(self.synced_ignores@),
            r.show_all == self.show_all,
    {
        WorkerCtx {
            home_dir: self.home_dir.duplicate(),
            sync_dir: self.sync_dir.duplicate(),
            ignored: copy_texts(&self.ignored),
            synced_ignores: copy_texts(&self.synced_ignores),
            show_all: self.show_all,
        }
    }
}

/// The text of `path` relative to the sync repository, else to home, else
/// of `path` itself.
pub fn worker_relative_path(path: &FsPath, home_dir: &FsPath, sync_dir: &FsPath) -> (r: String)
    ensures
        r@ == path_text(rel_model(path@, home_dir@, sync_dir@)),
{
    relative_to(path, home_dir, sync_dir).to_text()
}

/// Whether `path`, or a path above it, is on the ignore list.
pub fn worker_is_ignored(path: &FsPath, ctx: &WorkerCtx) -> (r: bool)
    ensures
        r == ctx.ignores(path@),
{
    let rel = relative_to(path, &ctx.home_dir, &ctx.sync_dir);
    listed_or_below_exec(&ctx.ignored, &rel)
}

/// Where a sync walk through `dir` copies the entry `src` named `name`:
/// `None` when it skips it (a non-dot entry of home unless all are shown,
/// anything in the repository, an ignored path, a never-synced name), else
/// the same path relative to home, in the repository.
pub open spec fn sync_target(ctx: &WorkerCtx, dir: PathModel, name: Seq<char>, src: PathModel) -> Option<PathModel> {
    if dir == ctx.home_dir@ && !ctx.show_all && !is_dotted(name) {
        None
    } else if strip_model(src, ctx.sync_dir@) is Some {
        None
    } else if ctx.ignores(src) {
        None
    } else if ctx.skips_name(name) {
        None
    } else {
        Some(join_model(ctx.sync_dir@, match strip_model(src, ctx.home_dir@) { Some(r) => r, None => src }))
    }
}

/// The destination in the repository of an entry met by a sync walk, if
/// the walk copies it.
pub fn sync_walk_target(ctx: &WorkerCtx, dir: &FsPath, name: &String, src: &FsPath) -> (r: Option<FsPath>)
    ensures
        r matches Some(d) ==> sync_target(ctx, dir@, name@, src@) == Some(d@),
        r is None ==> sync_target(ctx, dir@, name@, src@) is None,
{
    if dir.same_as(&ctx.home_dir) && !ctx.show_all && !starts_with_dot(name.as_str()) {
        return None;
    }
    if src.strip_prefix(&ctx.sync_dir).is_some() {
        return None;
    }
    if worker_is_ignored(src, ctx) {
        return None;
    }
    if list_has(&ctx.synced_ignores, name) {
        return None;
    }
    let rel = match src.strip_prefix(&ctx.home_dir) {
        Some(r) => r,
        None => src.duplicate(),
    };
    Some(ctx.sync_dir.join(&rel))
}

/// The home path that a repository entry `dest`, met by the cleaning walk
/// through `dir`, mirrors: `None` when the walk leaves it alone (a
/// never-synced top-level name, or a path outside the repository).
pub open spec fn clean_source(ctx: &WorkerCtx, dir: PathModel, name: Seq<char>, dest: PathModel) -> Option<PathModel> {
    if dir == ctx.sync_dir@ && ctx.skips_name(name) {
        None
    } else {
        match strip_model(dest, ctx.sync_dir@) {
            Some(rel) => Some(join_model(ctx.home_dir@, rel)),
            None => None,
        }
    }
}

/// The home path mirrored by a repository entry met by the cleaning walk,
/// if the walk considers it.
pub fn clean_walk_source(ctx: &WorkerCtx, dir: &FsPath, name: &String, dest: &FsPath) -> (r: Option<FsPath>)
    ensures
        r matches Some(s) ==> clean_source(ctx, dir@, name@, dest@) == Some(s@),
        r is None ==> clean_source(ctx, dir@, name@, dest@) is None,
{
    if dir.same_as(&ctx.sync_dir) && list_has(&ctx.synced_ignores, name) {
        return None;
    }
    match dest.strip_prefix(&ctx.sync_dir) {
        Some(rel) => Some(ctx.home_dir.join(&rel)),
        None => None,
    }
}

/// Whether the cleaning walk removes a repository entry whose home
/// counterpart is `src`: when that is gone from home, or ignored.
pub fn clean_should_remove(ctx: &WorkerCtx, src: &FsPath, src_exists: bool) -> (r: bool)
    ensures
        r == (!src_exists || ctx.ignores(src@)),
{
    !src_exists || worker_is_ignored(src, ctx)
}

/// Where a deploy walk copies the repository entry `src` named `name`:
/// `None` for a never-synced name or a path outside the repository, else
/// the same path relative to the repository, in home.
pub open spec fn deploy_target(ctx: &WorkerCtx, name: Seq<char>, src: PathModel) -> Option<PathModel> {
    if ctx.skips_name(name) {
        None
    } else {
        match strip_model(src, ctx.sync_dir@) {
            Some(rel) => Some(join_model(ctx.home_dir@, rel)),
            None => None,
        }
    }
}

/// The destination in home of an entry met by a deploy walk, if the walk
/// copies it.
pub fn deploy_walk_target(ctx: &WorkerCtx, name: &String, src: &FsPath) -> (r: Option<FsPath>)
    ensures
        r matches Some(d) ==> deploy_target(ctx, name@, src@) == Some(d@),
        r is None ==> deploy_target(ctx, name@, src@) is None,
{
    if list_has(&ctx.synced_ignores, name) {
        return None;
    }
    match src.strip_prefix(&ctx.sync_dir) {
        Some(rel) => Some(ctx.home_dir.join(&rel)),
        None => None,
    }
}

/// What is known of an existing destination file when deciding to copy:
/// whether its length equals the source's, the digests of both when they
/// could be read, and whether the source was modified later when both
/// times are known.
#[derive(Debug, Clone, Copy)]
pub struct DestCheck {
    pub same_len: bool,
    pub digests: Option<([u8; 32], [u8; 32])>,
    pub src_newer: Option<bool>,
}

/// Whether two digests are equal.
pub fn digests_equal(a: &[u8; 32], b: &[u8; 32]) -> (r: bool)
    ensures
        r == (a@ == b@),
{
    let mut i: usize = 0;
    while i < 32
        invariant
            i <= 32,
            a@.len() == 32,
            b@.len() == 32,
            forall|k: int| 0 <= k < i ==> a@[k] == b@[k],
        decreases 32 - i,
    {
        if a[i] != b[i] {
            return false;
        }
        i = i + 1;
    }
    proof {
        assert(a@ =~= b@);
    }
    true
}

/// Whether a file is copied over an existing destination, given what is
/// known of it; `fallback` is the answer when neither digests nor times
/// decide.
pub open spec fn copy_over(d: DestCheck, fallback: bool) -> bool {
    if !d.same_len {
        true
    } else {
        match d.digests {
            Some((a, b)) => a@ != b@,
            None => match d.src_newer {
                Some(n) => n,
                None => fallback,
            },
        }
    }
}

fn copy_over_exec(d: &DestCheck, fallback: bool) -> (r: bool)
    ensures
        r == copy_over(*d, fallback),
{
    if !d.same_len {
        true
    } else {
        match &d.digests {
            Some((a, b)) => !digests_equal(a, b),
            None => match d.src_newer {
                Some(n) => n,
                None => fallback,
            },
        }
    }
}

/// Whether a sync copies a file into the repository: always when the
/// destination is missing (`None`), else when the lengths or the digests
/// differ, else when the source is newer; not when nothing decides.
pub fn sync_should_copy(dest: &Option<DestCheck>) -> (r: bool)
    ensures
        r == match *dest {
            None => true,
            Some(d) => copy_over(d, false),
        },
{
    match dest {
        None => true,
        Some(d) => copy_over_exec(d, false),
    }
}

/// Whether a deploy copies a file into home: always when the destination is
/// missing, else when the lengths or the digests differ, else when the
/// source is newer; also when nothing decides.
pub fn deploy_should_copy(dest: &Option<DestCheck>) -> (r: bool)
    ensures
        r == match *dest {
            None => true,
            Some(d) => copy_over(d, true),
        },
{
    match dest {
        None => true,
        Some(d) => copy_over_exec(d, true),
    }
}

/// Whether two files differ, given their lengths and, when both could be
/// read, their digests: different lengths differ; equal lengths differ
/// when the digests do; unreadable files count as equal.
pub fn files_differ(len_a: u64, len_b: u64, digests: &Option<([u8; 32], [u8; 32])>) -> (r: bool)
    ensures
        r == (len_a != len_b || match *digests {
            Some((a, b)) => a@ != b@,
            None => false,
        }),
{
    if len_a != len_b {
        return true;
    }
    match digests {
        Some((a, b)) => !digests_equal(a, b),
        None => false,
    }
}

/// A home file that a sync copies into the repository is deployed back to
/// the same place: the deploy walk maps the repository copy to the path the
/// sync walk started from.
pub proof fn lemma_sync_then_deploy(ctx: &WorkerCtx, dir: PathModel, name: Seq<char>, src: PathModel)
    requires
        ctx.home_dir@.absolute,
        ctx.sync_dir@.absolute,
        strip_model(src, ctx.home_dir@) is Some,
        sync_target(ctx, dir, name, src) is Some,
    ensures
        deploy_target(ctx, name, sync_target(ctx, dir, name, src).unwrap()) == Some(src),
{
    let rel = strip_model(src, ctx.home_dir@).unwrap();
    assert(!rel.absolute);
    crate::path::lemma_strip_join(ctx.sync_dir@, rel);
    crate::path::lemma_join_strip(ctx.home_dir@, src, rel);
}

/// A sync walk copies nothing that is ignored, nothing already in the
/// repository, and no never-synced name.
pub proof fn lemma_sync_skips(ctx: &WorkerCtx, dir: PathModel, name: Seq<char>, src: PathModel)
    requires
        ctx.ignores(src) || strip_model(src, ctx.sync_dir@) is Some || ctx.skips_name(name),
    ensures
        sync_target(ctx, dir, name, src) is None,
{
}

/// What came of copying a symbolic link as a link.
#[derive(Debug, Clone, Copy, PartialEq, Eq, Structural)]
pub enum LinkStep {
    /// The source is not a symbolic link.
    NotALink,
    /// The source is a link whose target could not be read.
    Unreadable,
    /// The destination already is a link to the same target.
    Same,
    /// The link was made; `replaced` says whether something was there.
    Made { replaced: bool },
    /// Making the link failed.
    Failed,
}

/// How a run counts a link step: `None` when the source is no link and is
/// copied as a file; `Some(None)` when the link could not be read and
/// nothing is counted; else the outcome (a link made counts as a copy of
/// no bytes).
pub fn link_outcome(step: LinkStep) -> (r: Option<Option<Outcome>>)
    ensures
        r is None <==> step is NotALink,
        step is Unreadable ==> r == Some(None::<Outcome>),
        step is Same ==> r == Some(Some(Outcome::Skipped)),
        step matches LinkStep::Made { replaced } ==> r == Some(Some(Outcome::Copied { bytes: 0, replaced })),
        step is Failed ==> r == Some(Some(Outcome::Failed)),
{
    match step {
        LinkStep::NotALink => None,
        LinkStep::Unreadable => Some(None),
        LinkStep::Same => Some(Some(Outcome::Skipped)),
        LinkStep::Made { replaced } => Some(Some(Outcome::Copied { bytes: 0, replaced })),
        LinkStep::Failed => Some(Some(Outcome::Failed)),
    }
}

/// The outcome of one file: skipped when no copy is owed; else copied, with
/// the source's `bytes` and whether a destination was `replaced`, when the
/// copy succeeded, and failed when it did not.
pub fn copy_outcome(copy_owed: bool, copied: bool, bytes: u64, replaced: bool) -> (o: Outcome)
    ensures
        !copy_owed ==> o == Outcome::Skipped,
        copy_owed && copied ==> o == (Outcome::Copied { bytes, replaced }),
        copy_owed && !copied ==> o == Outcome::Failed,
{
    if !copy_owed {
        Outcome::Skipped
    } else if copied {
        Outcome::Copied { bytes, replaced }
    } else {
        Outcome::Failed
    }
}

/// What a sync or deploy walk does with an entry it visits.
#[derive(Debug, Clone, Copy, PartialEq, Eq, Structural)]
pub enum WalkStep {
    /// Walk into the directory, first creating its destination (counted as
    /// a directory created) when `create`.
    Descend { create: bool },
    /// Copy the file.
    CopyFile,
}

/// The step for an entry: a directory is walked into, its destination
/// created first when it does not exist; anything else is copied as a file.
pub fn walk_step(is_dir: bool, dest_exists: bool) -> (s: WalkStep)
    ensures
        is_dir ==> s == (WalkStep::Descend { create: !dest_exists }),
        !is_dir ==> s == WalkStep::CopyFile,
{
    if is_dir {
        WalkStep::Descend { create: !dest_exists }
    } else {
        WalkStep::CopyFile
    }
}

/// The cleaning walk undoes the sync walk: a home entry `src` that a sync
/// walk copies to `d` is the home counterpart that the cleaning walk finds
/// for `d`, met in `d`'s parent directory under the same name. So the
/// copy of a home file that still exists, and is not ignored, stays
/// (`clean_should_remove` removes only what is gone from home or ignored).
pub proof fn lemma_sync_then_clean(ctx: &WorkerCtx, dir: PathModel, name: Seq<char>, src: PathModel)
    requires
        ctx.home_dir@.absolute,
        ctx.sync_dir@.absolute,
        strip_model(src, ctx.home_dir@) is Some,
        src.parts.len() > ctx.home_dir@.parts.len(),
        src.parts.last() == name,
        sync_target(ctx, dir, name, src) is Some,
    ensures
        ({
            let d = sync_target(ctx, dir, name, src).unwrap();
            &&& crate::path::parent_model(d) is Some
            &&& crate::path::file_name_model(d) == crate::path::file_name_model(src)
            &&& clean_source(ctx, crate::path::parent_model(d).unwrap(), name, d) == Some(src)
        }),
{
    let rel = strip_model(src, ctx.home_dir@).unwrap();
    let h = ctx.home_dir@.parts.len() as int;
    assert(rel.parts =~= src.parts.skip(h));
    assert(rel.parts.last() == src.parts.last());
    crate::path::lemma_strip_join(ctx.sync_dir@, rel);
    crate::path::lemma_join_strip(ctx.home_dir@, src, rel);
    let d = sync_target(ctx, dir, name, src).unwrap();
    assert(d.parts.last() == rel.parts.last());
}

/// A repository entry and its home counterpart have the same path relative
/// to their trees: whenever the cleaning walk considers a repository entry,
/// the counterpart it finds lies in home at the entry's path relative to
/// the repository.
pub proof fn lemma_clean_same_relative(ctx: &WorkerCtx, dir: PathModel, name: Seq<char>, dest: PathModel)
    requires
        ctx.home_dir@.absolute,
        ctx.sync_dir@.absolute,
        clean_source(ctx, dir, name, dest) is Some,
    ensures
        strip_model(dest, ctx.sync_dir@) is Some,
        strip_model(clean_source(ctx, dir, name, dest).unwrap(), ctx.home_dir@) == strip_model(dest, ctx.sync_dir@),
{
    let rel = strip_model(dest, ctx.sync_dir@).unwrap();
    crate::path::lemma_strip_join(ctx.home_dir@, rel);
}

/// A repository entry that the cleaning walk does not skip by name has a
/// home counterpart exactly when it lies in the repository.
pub proof fn lemma_clean_considers(ctx: &WorkerCtx, dir: PathModel, name: Seq<char>, dest: PathModel)
    requires
        !(dir == ctx.sync_dir@ && ctx.skips_name(name)),
    ensures
        (clean_source(ctx, dir, name, dest) is Some) == (strip_model(dest, ctx.sync_dir@) is Some),
{
}

} // verus!
