//! Filesystem paths as the library sees them: whether the path starts at
//! the root, and its components in order. Operations follow those of
//! `std::path::Path` on paths made of root and normal components.
use vstd::prelude::*;
use crate::text::{join_with, texts, string_push, lemma_texts_push};

verus! {

/// The mathematical value of a path.
#[verifier::ext_equal]
pub struct PathModel {
    pub absolute: bool,
    pub parts: Seq<Seq<char>>,
}

/// A path: a root flag and the names of its components. `"/home/u"` is
/// absolute with parts `home`, `u`; `".config/nvim"` is relative with parts
/// `.config`, `nvim`; the empty path is relative with no parts.
#[derive(Debug)]
pub struct FsPath {
    pub absolute: bool,
    pub parts: Vec<String>,
}

impl View for FsPath {
    type V = PathModel;

    open spec fn view(&self) -> PathModel {
        PathModel { absolute: self.absolute, parts: texts(self.parts@) }
    }
}

/// The text of a path, components separated by `/`, with a leading `/`
/// when the path is absolute (what `to_string_lossy` gives).
pub open spec fn path_text(p: PathModel) -> Seq<char> {
    if p.absolute {
        seq!['/'] + join_with(p.parts, seq!['/'])
    } else {
        join_with(p.parts, seq!['/'])
    }
}

/// Whether `pre` is an initial part of `s`.
pub open spec fn is_prefix(pre: Seq<Seq<char>>, s: Seq<Seq<char>>) -> bool {
    pre.len() <= s.len() && s.take(pre.len() as int) == pre
}

/// `p` with the leading components `base` taken off, as
/// `Path::strip_prefix` does; `None` when `base` does not lead `p`.
pub open spec fn strip_model(p: PathModel, base: PathModel) -> Option<PathModel> {
    if base.absolute {
        if p.absolute && is_prefix(base.parts, p.parts) {
            Some(PathModel { absolute: false, parts: p.parts.skip(base.parts.len() as int) })
        } else {
            None
        }
    } else if base.parts.len() == 0 {
        Some(p)
    } else if !p.absolute && is_prefix(base.parts, p.parts) {
        Some(PathModel { absolute: false, parts: p.parts.skip(base.parts.len() as int) })
    } else {
        None
    }
}

/// `rel` appended to `base`, as `Path::join` does: an absolute `rel`
/// replaces `base`.
pub open spec fn join_model(base: PathModel, rel: PathModel) -> PathModel {
    if rel.absolute {
        rel
    } else {
        PathModel { absolute: base.absolute, parts: base.parts + rel.parts }
    }
}

/// The path without its last component; `None` for the root and the empty
/// path.
pub open spec fn parent_model(p: PathModel) -> Option<PathModel> {
    if p.parts.len() > 0 {
        Some(PathModel { absolute: p.absolute, parts: p.parts.drop_last() })
    } else {
        None
    }
}

/// The last component, unless there is none or it is `..`.
pub open spec fn file_name_model(p: PathModel) -> Option<Seq<char>> {
    if p.parts.len() > 0 && p.parts.last() != seq!['.', '.'] {
        Some(p.parts.last())
    } else {
        None
    }
}

/// The path made of the first `k` components of `p`.
pub open spec fn prefix_model(p: PathModel, k: int) -> PathModel {
    PathModel { absolute: p.absolute, parts: p.parts.take(k) }
}

/// A copy of a string with the same text.
pub fn copy_text(s: &String) -> (r: String)
    ensures
        r@ == s@,
{
    s.clone()
}

/// A copy of a list of strings with the same texts.
pub fn copy_texts(v: &Vec<String>) -> (r: Vec<String>)
    ensures
        texts(r@) == texts(v@),
{
    let mut r: Vec<String> = Vec::new();
    let n = v.len();
    let mut i: usize = 0;
    while i < n
        invariant
            n == v@.len(),
            i <= n,
            texts(r@) == texts(v@).take(i as int),
        decreases n - i,
    {
        let c = copy_text(&v[i]);
        let ghost before = r@;
        r.push(c);
        proof {
            lemma_texts_push(before, c);
            assert(texts(v@).take(i + 1) =~= texts(v@).take(i as int).push(v@[i as int]@));
        }
        i = i + 1;
    }
    proof {
        assert(texts(v@).take(n as int) =~= texts(v@));
    }
    r
}

/// Whether two lists of strings have the same texts in the same order.
pub fn same_texts(a: &Vec<String>, b: &Vec<String>) -> (r: bool)
    ensures
        r == (texts(a@) == texts(b@)),
{
    if a.len() != b.len() {
        proof {
            assert(texts(a@).len() != texts(b@).len());
        }
        return false;
    }
    let n = a.len();
    let mut i: usize = 0;
    while i < n
        invariant
            n == a@.len(),
            n == b@.len(),
            i <= n,
            forall|k: int| 0 <= k < i ==> a@[k]@ == b@[k]@,
        decreases n - i,
    {
        if a[i] != b[i] {
            proof {
                assert(texts(a@)[i as int] != texts(b@)[i as int]);
            }
            return false;
        }
        i = i + 1;
    }
    proof {
        assert(texts(a@) =~= texts(b@));
    }
    true
}

impl FsPath {
    /// The empty path.
    pub fn empty() -> (r: FsPath)
        ensures
            r@ == (PathModel { absolute: false, parts: Seq::empty() }),
    {
        let r = FsPath { absolute: false, parts: Vec::new() };
        proof {
            assert(r@ =~= PathModel { absolute: false, parts: Seq::empty() });
        }
        r
    }

    /// A copy of the path.
    pub fn duplicate(&self) -> (r: FsPath)
        ensures
            r@ == self@,
    {
        FsPath { absolute: self.absolute, parts: copy_texts(&self.parts) }
    }

    /// Whether two paths have the same components (`==` on paths).
    pub fn same_as(&self, other: &FsPath) -> (r: bool)
        ensures
            r == (self@ == other@),
    {
        if self.absolute != other.absolute {
            return false;
        }
        same_texts(&self.parts, &other.parts)
    }

    /// Whether the path has no component and no root.
    pub fn is_empty(&self) -> (r: bool)
        ensures
            r == (!self@.absolute && self@.parts.len() == 0),
    {
        !self.absolute && self.parts.len() == 0
    }

    /// The text of the path.
    pub fn to_text(&self) -> (r: String)
        ensures
            r@ == path_text(self@),
    {
        let mut s = String::new();
        if self.absolute {
            string_push(&mut s, '/');
        }
        let ghost start = s@;
        let n = self.parts.len();
        let mut i: usize = 0;
        while i < n
            invariant
                n == self.parts@.len(),
                i <= n,
                s@ == start + join_with(texts(self.parts@).take(i as int), seq!['/']),
            decreases n - i,
        {
            proof {
                assert(texts(self.parts@).take(i + 1).drop_last() =~= texts(self.parts@).take(i as int));
            }
            if i > 0 {
                string_push(&mut s, '/');
            }
            s.append(self.parts[i].as_str());
            proof {
                let t = texts(self.parts@).take(i + 1);
                assert(t.last() == self.parts@[i as int]@);
                if i == 0 {
                    assert(join_with(t, seq!['/']) == t[0]);
                }
                assert(s@ =~= start + join_with(t, seq!['/']));
            }
            i = i + 1;
        }
        proof {
            assert(texts(self.parts@).take(n as int) =~= texts(self.parts@));
            assert(s@ =~= path_text(self@));
        }
        s
    }

    /// Whether `base`'s components lead this path's, from index 0.
    fn leads(base: &Vec<String>, p: &Vec<String>) -> (r: bool)
        ensures
            r == is_prefix(texts(base@), texts(p@)),
    {
        let m = base.len();
        if m > p.len() {
            return false;
        }
        let mut i: usize = 0;
        while i < m
            invariant
                m == base@.len(),
                m <= p@.len(),
                i <= m,
                forall|k: int| 0 <= k < i ==> base@[k]@ == p@[k]@,
            decreases m - i,
        {
            if base[i] != p[i] {
                proof {
                    assert(texts(p@).take(m as int)[i as int] != texts(base@)[i as int]);
                }
                return false;
            }
            i = i + 1;
        }
        proof {
            assert(texts(p@).take(m as int) =~= texts(base@));
        }
        true
    }

    /// The components of `v` from index `from` on.
    fn tail_from(v: &Vec<String>, from: usize) -> (r: Vec<String>)
        requires
            from <= v@.len(),
        ensures
            texts(r@) == texts(v@).skip(from as int),
    {
        let mut r: Vec<String> = Vec::new();
        let n = v.len();
        let mut i: usize = from;
        while i < n
            invariant
                n == v@.len(),
                from <= i <= n,
                texts(r@) == texts(v@).subrange(from as int, i as int),
            decreases n - i,
        {
            let c = copy_text(&v[i]);
            let ghost before = r@;
            r.push(c);
            proof {
                lemma_texts_push(before, c);
                assert(texts(v@).subrange(from as int, i + 1) =~= texts(v@).subrange(from as int, i as int).push(v@[i as int]@));
            }
            i = i + 1;
        }
        proof {
            assert(texts(v@).subrange(from as int, n as int) =~= texts(v@).skip(from as int));
        }
        r
    }

    /// This path with the leading path `base` taken off (`strip_prefix`).
    pub fn strip_prefix(&self, base: &FsPath) -> (r: Option<FsPath>)
        ensures
            r matches Some(q) ==> strip_model(self@, base@) == Some(q@),
            r is None ==> strip_model(self@, base@) is None,
    {
        if base.absolute {
            if self.absolute && Self::leads(&base.parts, &self.parts) {
                Some(FsPath { absolute: false, parts: Self::tail_from(&self.parts, base.parts.len()) })
            } else {
                None
            }
        } else if base.parts.len() == 0 {
            Some(self.duplicate())
        } else if !self.absolute && Self::leads(&base.parts, &self.parts) {
            Some(FsPath { absolute: false, parts: Self::tail_from(&self.parts, base.parts.len()) })
        } else {
            None
        }
    }

    /// `rel` appended to this path (`join`).
    pub fn join(&self, rel: &FsPath) -> (r: FsPath)
        ensures
            r@ == join_model(self@, rel@),
    {
        if rel.absolute {
            return rel.duplicate();
        }
        let mut parts = copy_texts(&self.parts);
        let n = rel.parts.len();
        let ghost start = texts(parts@);
        let mut i: usize = 0;
        while i < n
            invariant
                n == rel.parts@.len(),
                i <= n,
                texts(parts@) == start + texts(rel.parts@).take(i as int),
            decreases n - i,
        {
            let c = copy_text(&rel.parts[i]);
            let ghost before = parts@;
            parts.push(c);
            proof {
                lemma_texts_push(before, c);
                assert(texts(rel.parts@).take(i + 1) =~= texts(rel.parts@).take(i as int).push(rel.parts@[i as int]@));
                assert(texts(parts@) =~= start + texts(rel.parts@).take(i + 1));
            }
            i = i + 1;
        }
        proof {
            assert(texts(rel.parts@).take(n as int) =~= texts(rel.parts@));
        }
        let r = FsPath { absolute: self.absolute, parts };
        proof {
            assert(r@ =~= join_model(self@, rel@));
        }
        r
    }

    /// This path with one more component `name` at the end.
    pub fn child(&self, name: &String) -> (r: FsPath)
        ensures
            r@ == (PathModel { absolute: self@.absolute, parts: self@.parts.push(name@) }),
    {
        let mut parts = copy_texts(&self.parts);
        parts.push(name.clone());
        let r = FsPath { absolute: self.absolute, parts };
        proof {
            assert(r@ =~= PathModel { absolute: self@.absolute, parts: self@.parts.push(name@) });
        }
        r
    }

    /// The path without its last component (`parent`).
    pub fn parent(&self) -> (r: Option<FsPath>)
        ensures
            r matches Some(q) ==> parent_model(self@) == Some(q@),
            r is None ==> parent_model(self@) is None,
    {
        let n = self.parts.len();
        if n == 0 {
            return None;
        }
        let mut parts = copy_texts(&self.parts);
        parts.pop();
        let r = FsPath { absolute: self.absolute, parts };
        proof {
            assert(r@ =~= PathModel { absolute: self@.absolute, parts: self@.parts.drop_last() });
        }
        Some(r)
    }

    /// The last component unless it is `..` (`file_name`).
    pub fn file_name(&self) -> (r: Option<String>)
        ensures
            r matches Some(s) ==> file_name_model(self@) == Some(s@),
            r is None ==> file_name_model(self@) is None,
    {
        let n = self.parts.len();
        if n == 0 {
            return None;
        }
        let last = &self.parts[n - 1];
        let up = String::from_str("..");
        proof {
            reveal_strlit("..");
            assert(up@ =~= seq!['.', '.']);
            assert(self@.parts.last() == last@);
        }
        if *last == up {
            None
        } else {
            Some(last.clone())
        }
    }
}

/// Joining a relative path to a root and taking the root off again gives
/// back the relative path.
pub proof fn lemma_strip_join(base: PathModel, rel: PathModel)
    requires
        base.absolute,
        !rel.absolute,
    ensures
        strip_model(join_model(base, rel), base) == Some(rel),
{
    let j = join_model(base, rel);
    assert(j.parts.take(base.parts.len() as int) =~= base.parts);
    assert(j.parts.skip(base.parts.len() as int) =~= rel.parts);
    assert(PathModel { absolute: false, parts: j.parts.skip(base.parts.len() as int) } =~= rel);
}

/// Taking a root off a path and joining it back gives back the path.
pub proof fn lemma_join_strip(base: PathModel, p: PathModel, rel: PathModel)
    requires
        base.absolute,
        strip_model(p, base) == Some(rel),
    ensures
        join_model(base, rel) == p,
{
    assert(base.parts + p.parts.skip(base.parts.len() as int) =~= p.parts);
}

} // verus!
