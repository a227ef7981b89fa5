//! Counters of a finished sync or deploy run and the status lines that
//! report them.
use vstd::prelude::*;
use crate::text::{decimal, join_with, texts, join_texts, push_decimal};
use crate::utils::{format_size, size_text};

verus! {

/// What a sync run did: files copied into the repository, files already up
/// to date, files removed from the repository, directories created, bytes
/// copied and failures.
#[derive(Clone, Copy, Debug)]
pub struct SyncStats {
    pub copied: u64,
    pub skipped: u64,
    pub cleaned: u64,
    pub dirs: u64,
    pub bytes: u64,
    pub errors: u64,
}

/// What a deploy run did: files copied into home (of which `overwritten`
/// replaced an existing file), files already up to date, directories
/// created, bytes copied and failures.
#[derive(Clone, Copy, Debug)]
pub struct DeployStats {
    pub copied: u64,
    pub skipped: u64,
    pub dirs: u64,
    pub bytes: u64,
    pub errors: u64,
    pub overwritten: u64,
}

impl Default for SyncStats {
    fn default() -> (r: Self)
        ensures
            r.copied == 0 && r.skipped == 0 && r.cleaned == 0,
            r.dirs == 0 && r.bytes == 0 && r.errors == 0,
    {
        SyncStats { copied: 0, skipped: 0, cleaned: 0, dirs: 0, bytes: 0, errors: 0 }
    }
}

impl Default for DeployStats {
    fn default() -> (r: Self)
        ensures
            r.copied == 0 && r.skipped == 0 && r.dirs == 0,
            r.bytes == 0 && r.errors == 0 && r.overwritten == 0,
    {
        DeployStats { copied: 0, skipped: 0, dirs: 0, bytes: 0, errors: 0, overwritten: 0 }
    }
}

/// What happened to one entry during a run.
#[derive(Debug, Clone, Copy, PartialEq, Eq, Structural)]
pub enum Outcome {
    /// A file or link was copied; `bytes` is the size copied (0 for a link)
    /// and `replaced` says whether something was there before.
    Copied { bytes: u64, replaced: bool },
    /// The destination was already up to date.
    Skipped,
    /// Copying failed.
    Failed,
    /// A destination directory was created.
    DirCreated,
    /// A repository entry was removed by cleaning.
    Cleaned,
}

impl SyncStats {
    /// The counters after one more outcome.
    pub open spec fn after(self, o: Outcome) -> SyncStats {
        match o {
            Outcome::Copied { bytes, replaced: _ } => SyncStats {
                copied: (self.copied + 1) as u64,
                bytes: (self.bytes + bytes) as u64,
                ..self
            },
            Outcome::Skipped => SyncStats { skipped: (self.skipped + 1) as u64, ..self },
            Outcome::Failed => SyncStats { errors: (self.errors + 1) as u64, ..self },
            Outcome::DirCreated => SyncStats { dirs: (self.dirs + 1) as u64, ..self },
            Outcome::Cleaned => SyncStats { cleaned: (self.cleaned + 1) as u64, ..self },
        }
    }

    /// Whether the counters can take one more outcome without overflowing.
    pub open spec fn fits(self, o: Outcome) -> bool {
        match o {
            Outcome::Copied { bytes, replaced: _ } => self.copied < u64::MAX && self.bytes + bytes <= u64::MAX,
            Outcome::Skipped => self.skipped < u64::MAX,
            Outcome::Failed => self.errors < u64::MAX,
            Outcome::DirCreated => self.dirs < u64::MAX,
            Outcome::Cleaned => self.cleaned < u64::MAX,
        }
    }

    /// Whether `record` can take `o`.
    pub fn can_record(&self, o: &Outcome) -> (r: bool)
        ensures
            r == self.fits(*o),
    {
        match *o {
            Outcome::Copied { bytes, replaced: _ } => self.copied < u64::MAX && bytes <= u64::MAX - self.bytes,
            Outcome::Skipped => self.skipped < u64::MAX,
            Outcome::Failed => self.errors < u64::MAX,
            Outcome::DirCreated => self.dirs < u64::MAX,
            Outcome::Cleaned => self.cleaned < u64::MAX,
        }
    }

    /// Counts one outcome.
    pub fn record(&mut self, o: Outcome)
        requires
            old(self).fits(o),
        ensures
            *final(self) == old(self).after(o),
    {
        match o {
            Outcome::Copied { bytes, replaced: _ } => {
                self.copied = self.copied + 1;
                self.bytes = self.bytes + bytes;
            },
            Outcome::Skipped => self.skipped = self.skipped + 1,
            Outcome::Failed => self.errors = self.errors + 1,
            Outcome::DirCreated => self.dirs = self.dirs + 1,
            Outcome::Cleaned => self.cleaned = self.cleaned + 1,
        }
    }
}

impl DeployStats {
    /// The counters after one more outcome; a replaced file also counts as
    /// overwritten. Deploying never cleans.
    pub open spec fn after(self, o: Outcome) -> DeployStats {
        match o {
            Outcome::Copied { bytes, replaced } => DeployStats {
                copied: (self.copied + 1) as u64,
                bytes: (self.bytes + bytes) as u64,
                overwritten: if replaced { (self.overwritten + 1) as u64 } else { self.overwritten },
                ..self
            },
            Outcome::Skipped => DeployStats { skipped: (self.skipped + 1) as u64, ..self },
            Outcome::Failed => DeployStats { errors: (self.errors + 1) as u64, ..self },
            Outcome::DirCreated => DeployStats { dirs: (self.dirs + 1) as u64, ..self },
            Outcome::Cleaned => self,
        }
    }

    /// Whether the counters can take one more outcome without overflowing.
    pub open spec fn fits(self, o: Outcome) -> bool {
        match o {
            Outcome::Copied { bytes, replaced } => self.copied < u64::MAX && self.bytes + bytes <= u64::MAX
                && (replaced ==> self.overwritten < u64::MAX),
            Outcome::Skipped => self.skipped < u64::MAX,
            Outcome::Failed => self.errors < u64::MAX,
            Outcome::DirCreated => self.dirs < u64::MAX,
            Outcome::Cleaned => true,
        }
    }

    /// Whether `record` can take `o`.
    pub fn can_record(&self, o: &Outcome) -> (r: bool)
        ensures
            r == self.fits(*o),
    {
        match *o {
            Outcome::Copied { bytes, replaced } => self.copied < u64::MAX && bytes <= u64::MAX - self.bytes
                && (!replaced || self.overwritten < u64::MAX),
            Outcome::Skipped => self.skipped < u64::MAX,
            Outcome::Failed => self.errors < u64::MAX,
            Outcome::DirCreated => self.dirs < u64::MAX,
            Outcome::Cleaned => true,
        }
    }

    /// Counts one outcome.
    pub fn record(&mut self, o: Outcome)
        requires
            old(self).fits(o),
        ensures
            *final(self) == old(self).after(o),
    {
        match o {
            Outcome::Copied { bytes, replaced } => {
                self.copied = self.copied + 1;
                self.bytes = self.bytes + bytes;
                if replaced {
                    self.overwritten = self.overwritten + 1;
                }
            },
            Outcome::Skipped => self.skipped = self.skipped + 1,
            Outcome::Failed => self.errors = self.errors + 1,
            Outcome::DirCreated => self.dirs = self.dirs + 1,
            Outcome::Cleaned => {},
        }
    }
}

/// A part of a status line, present only when its count is positive.
pub open spec fn counted(n: u64, text: Seq<char>) -> Seq<Seq<char>> {
    if n > 0 {
        seq![text]
    } else {
        Seq::empty()
    }
}

/// The parts of the status line of a sync run, in order.
pub open spec fn sync_parts(st: SyncStats) -> Seq<Seq<char>> {
    counted(st.copied, "↑ copied "@ + decimal(st.copied as nat) + " ("@ + size_text(st.bytes as nat) + ")"@)
        + counted(st.skipped, "up-to-date "@ + decimal(st.skipped as nat))
        + counted(st.dirs, "dirs "@ + decimal(st.dirs as nat))
        + counted(st.cleaned, "cleaned "@ + decimal(st.cleaned as nat))
        + counted(st.errors, "errors "@ + decimal(st.errors as nat))
}

/// The parts of the status line of a deploy run, in order.
pub open spec fn deploy_parts(st: DeployStats) -> Seq<Seq<char>> {
    counted(st.copied, "↓ deployed "@ + decimal(st.copied as nat) + " ("@ + size_text(st.bytes as nat) + ")"@)
        + counted(st.overwritten, "overwritten "@ + decimal(st.overwritten as nat))
        + counted(st.skipped, "up-to-date "@ + decimal(st.skipped as nat))
        + counted(st.dirs, "dirs "@ + decimal(st.dirs as nat))
        + counted(st.errors, "errors "@ + decimal(st.errors as nat))
}

/// The status line for the given parts: them joined by a bar, or the
/// up-to-date message when there are none.
pub open spec fn status_line(parts: Seq<Seq<char>>) -> Seq<char> {
    if parts.len() == 0 {
        "Already up to date ✓"@
    } else {
        join_with(parts, " │ "@)
    }
}

fn push_counted(parts: &mut Vec<String>, n: u64, label: &str)
    ensures
        texts(final(parts)@) == texts(old(parts)@) + counted(n, label@ + decimal(n as nat)),
{
    let ghost before = texts(parts@);
    if n > 0 {
        let mut p = String::from_str(label);
        push_decimal(&mut p, n as u128);
        parts.push(p);
    }
    proof {
        assert(texts(parts@) =~= before + counted(n, label@ + decimal(n as nat)));
    }
}

fn push_copied(parts: &mut Vec<String>, n: u64, bytes: u64, label: &str)
    ensures
        texts(final(parts)@) == texts(old(parts)@) + counted(
            n,
            label@ + decimal(n as nat) + " ("@ + size_text(bytes as nat) + ")"@,
        ),
{
    let ghost before = texts(parts@);
    if n > 0 {
        let mut p = String::from_str(label);
        push_decimal(&mut p, n as u128);
        p.append(" (");
        let size = format_size(bytes);
        p.append(size.as_str());
        p.append(")");
        parts.push(p);
    }
    proof {
        assert(texts(parts@) =~= before + counted(
            n,
            label@ + decimal(n as nat) + " ("@ + size_text(bytes as nat) + ")"@,
        ));
    }
}

fn finish_status(parts: &Vec<String>) -> (r: String)
    ensures
        r@ == status_line(texts(parts@)),
{
    if parts.len() == 0 {
        String::from_str("Already up to date ✓")
    } else {
        join_texts(parts, " │ ")
    }
}

/// The status line that reports a finished sync run.
pub fn format_sync_status(stats: &SyncStats) -> (r: String)
    ensures
        r@ == status_line(sync_parts(*stats)),
{
    let mut parts: Vec<String> = Vec::new();
    proof {
        assert(texts(parts@) =~= Seq::<Seq<char>>::empty());
    }
    push_copied(&mut parts, stats.copied, stats.bytes, "↑ copied ");
    push_counted(&mut parts, stats.skipped, "up-to-date ");
    push_counted(&mut parts, stats.dirs, "dirs ");
    push_counted(&mut parts, stats.cleaned, "cleaned ");
    push_counted(&mut parts, stats.errors, "errors ");
    proof {
        assert(texts(parts@) =~= sync_parts(*stats));
    }
    finish_status(&parts)
}

/// The status line that reports a finished deploy run.
pub fn format_deploy_status(stats: &DeployStats) -> (r: String)
    ensures
        r@ == status_line(deploy_parts(*stats)),
{
    let mut parts: Vec<String> = Vec::new();
    proof {
        assert(texts(parts@) =~= Seq::<Seq<char>>::empty());
    }
    push_copied(&mut parts, stats.copied, stats.bytes, "↓ deployed ");
    push_counted(&mut parts, stats.overwritten, "overwritten ");
    push_counted(&mut parts, stats.skipped, "up-to-date ");
    push_counted(&mut parts, stats.dirs, "dirs ");
    push_counted(&mut parts, stats.errors, "errors ");
    proof {
        assert(texts(parts@) =~= deploy_parts(*stats));
    }
    finish_status(&parts)
}

/// A sync run reports "Already up to date" exactly when it copied,
/// skipped, created, cleaned and failed nothing; otherwise one part per
/// non-zero count.
pub proof fn lemma_sync_quiet(st: SyncStats)
    ensures
        (sync_parts(st).len() == 0) == (st.copied == 0 && st.skipped == 0 && st.dirs == 0 && st.cleaned == 0 && st.errors == 0),
        sync_parts(st).len() == 0 ==> status_line(sync_parts(st)) == "Already up to date ✓"@,
        sync_parts(st).len() == (if st.copied > 0 { 1nat } else { 0 }) + (if st.skipped > 0 { 1nat } else { 0 })
            + (if st.dirs > 0 { 1nat } else { 0 }) + (if st.cleaned > 0 { 1nat } else { 0 })
            + (if st.errors > 0 { 1nat } else { 0 }),
{
}

/// A deploy run reports "Already up to date" exactly when it copied,
/// overwrote, skipped, created and failed nothing.
pub proof fn lemma_deploy_quiet(st: DeployStats)
    ensures
        (deploy_parts(st).len() == 0) == (st.copied == 0 && st.overwritten == 0 && st.skipped == 0 && st.dirs == 0 && st.errors == 0),
        deploy_parts(st).len() == 0 ==> status_line(deploy_parts(st)) == "Already up to date ✓"@,
{
}

/// Each outcome of a sync step is counted exactly once: the copied,
/// up-to-date, created, cleaned and failed counters together grow by one,
/// the error counter grows exactly for a failure, and the bytes grow by
/// what a copy wrote. So a sync with a failed step never reports "Already
/// up to date".
pub proof fn lemma_sync_counts(st: SyncStats, o: Outcome)
    requires
        st.fits(o),
    ensures
        st.after(o).copied + st.after(o).skipped + st.after(o).dirs + st.after(o).cleaned + st.after(o).errors
            == st.copied + st.skipped + st.dirs + st.cleaned + st.errors + 1,
        st.after(o).errors == st.errors + (if o is Failed { 1int } else { 0int }),
        st.after(o).copied == st.copied + (if o is Copied { 1int } else { 0int }),
        st.after(o).bytes == st.bytes + match o {
            Outcome::Copied { bytes, replaced: _ } => bytes as int,
            _ => 0int,
        },
        o is Failed ==> sync_parts(st.after(o)).len() > 0,
{
    lemma_sync_quiet(st.after(o));
}

/// Each outcome of a deploy step is counted exactly once: the copied,
/// up-to-date, created and failed counters together grow by one (cleaning
/// is no deploy outcome), the error counter grows exactly for a failure, a
/// copy over an existing file also counts as overwritten, and the bytes
/// grow by what a copy wrote. So a deploy with a failed step never reports
/// "Already up to date".
pub proof fn lemma_deploy_counts(st: DeployStats, o: Outcome)
    requires
        st.fits(o),
        !(o is Cleaned),
    ensures
        st.after(o).copied + st.after(o).skipped + st.after(o).dirs + st.after(o).errors
            == st.copied + st.skipped + st.dirs + st.errors + 1,
        st.after(o).errors == st.errors + (if o is Failed { 1int } else { 0int }),
        st.after(o).copied == st.copied + (if o is Copied { 1int } else { 0int }),
        st.after(o).overwritten == st.overwritten + (if o matches Outcome::Copied { replaced: true, .. } { 1int } else { 0int }),
        st.after(o).bytes == st.bytes + match o {
            Outcome::Copied { bytes, replaced: _ } => bytes as int,
            _ => 0int,
        },
        o is Failed ==> deploy_parts(st.after(o)).len() > 0,
{
    lemma_deploy_quiet(st.after(o));
}

} // verus!
