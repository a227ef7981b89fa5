//! The ignore list: paths, relative to home or to the sync repository, that
//! are left out of syncing together with everything below them.
use vstd::prelude::*;
use crate::text::{texts, list_contains, string_push, join_with, lemma_texts_push};
use crate::path::{FsPath, PathModel, path_text, prefix_model, strip_model};

verus! {

/// The set of texts in a list.
pub open spec fn text_set(v: Seq<String>) -> Set<Seq<char>> {
    texts(v).to_set()
}

/// A list of texts in which no text occurs twice.
pub open spec fn unique_texts(v: Seq<String>) -> bool {
    texts(v).no_duplicates()
}

/// The path that the ignore list and the mirror paths speak of: `p` relative
/// to the sync repository when it lies there, else relative to home when it
/// lies there, else `p` itself.
pub open spec fn rel_model(p: PathModel, home: PathModel, sync: PathModel) -> PathModel {
    match strip_model(p, sync) {
        Some(r) => r,
        None => match strip_model(p, home) {
            Some(r) => r,
            None => p,
        },
    }
}

/// Whether `rel` or one of the paths above it (down to the empty path, or
/// the root) has its text in `set`.
pub open spec fn listed_or_below(set: Set<Seq<char>>, rel: PathModel) -> bool {
    exists|k: int| 0 <= k <= rel.parts.len() && #[trigger] set.contains(path_text(prefix_model(rel, k)))
}

proof fn lemma_text_set_contains(v: Seq<String>, x: Seq<char>)
    ensures
        text_set(v).contains(x) == texts(v).contains(x),
{
}

/// `path` relative to the sync repository, else to home, else unchanged.
pub fn relative_to(path: &FsPath, home: &FsPath, sync: &FsPath) -> (r: FsPath)
    ensures
        r@ == rel_model(path@, home@, sync@),
{
    match path.strip_prefix(sync) {
        Some(r) => r,
        None => match path.strip_prefix(home) {
            Some(r) => r,
            None => path.duplicate(),
        },
    }
}

/// Whether the text `s` is in the list.
pub fn list_has(list: &Vec<String>, s: &String) -> (b: bool)
    ensures
        b == text_set(list@).contains(s@),
{
    list_contains(list, s)
}

/// Whether `rel` or a path above it is in the list.
pub fn listed_or_below_exec(list: &Vec<String>, rel: &FsPath) -> (b: bool)
    ensures
        b == listed_or_below(text_set(list@), rel@),
{
    let ghost set = text_set(list@);
    let mut s = String::new();
    if rel.absolute {
        string_push(&mut s, '/');
    }
    let ghost start = s@;
    proof {
        assert(prefix_model(rel@, 0).parts =~= Seq::<Seq<char>>::empty());
        assert(s@ =~= path_text(prefix_model(rel@, 0)));
    }
    if list_has(list, &s) {
        return true;
    }
    let n = rel.parts.len();
    let mut i: usize = 0;
    while i < n
        invariant
            n == rel.parts@.len(),
            set == text_set(list@),
            i <= n,
            s@ == path_text(prefix_model(rel@, i as int)),
            start == (if rel@.absolute { seq!['/'] } else { Seq::<char>::empty() }),
            forall|k: int| 0 <= k <= i ==> !set.contains(#[trigger] path_text(prefix_model(rel@, k))),
        decreases n - i,
    {
        proof {
            assert(texts(rel.parts@).take(i + 1).drop_last() =~= texts(rel.parts@).take(i as int));
            assert(s@ == start + join_with(texts(rel.parts@).take(i as int), seq!['/']));
        }
        if i > 0 {
            string_push(&mut s, '/');
        }
        s.append(rel.parts[i].as_str());
        proof {
            let t = texts(rel.parts@).take(i + 1);
            assert(t.last() == rel.parts@[i as int]@);
            if i == 0 {
                assert(join_with(t, seq!['/']) == t[0]);
            }
            assert(prefix_model(rel@, i + 1).parts == t);
            assert(s@ =~= path_text(prefix_model(rel@, i + 1)));
        }
        if list_has(list, &s) {
            return true;
        }
        i = i + 1;
    }
    false
}

/// Adds `s` to the list unless it is there already.
pub fn add_text(list: &mut Vec<String>, s: String)
    requires
        unique_texts(old(list)@),
    ensures
        unique_texts(final(list)@),
        text_set(final(list)@) == text_set(old(list)@).insert(s@),
{
    if !list_has(list, &s) {
        let ghost before = list@;
        let ghost x = s@;
        list.push(s);
        proof {
            lemma_texts_push(before, s);
            assert(texts(list@) == texts(before).push(x));
            assert(!texts(before).contains(x));
            assert forall|y: Seq<char>| texts(list@).contains(y) <==> (texts(before).contains(y) || y == x) by {
                if texts(list@).contains(y) {
                    let j = choose|j: int| 0 <= j < texts(list@).len() && texts(list@)[j] == y;
                    if j < texts(before).len() {
                        assert(texts(before)[j] == y);
                    }
                }
                if texts(before).contains(y) {
                    let j = choose|j: int| 0 <= j < texts(before).len() && texts(before)[j] == y;
                    assert(texts(list@)[j] == y);
                }
                if y == x {
                    assert(texts(list@)[texts(before).len() as int] == y);
                }
            }
            assert(text_set(list@) =~= text_set(before).insert(x));
            assert forall|a: int, b: int| 0 <= a < texts(list@).len() && 0 <= b < texts(list@).len() && a != b
                implies texts(list@)[a] != texts(list@)[b] by {
                if a == texts(before).len() {
                    assert(texts(before)[b] != x);
                } else if b == texts(before).len() {
                    assert(texts(before)[a] != x);
                }
            }
        }
    } else {
        proof {
            assert(text_set(list@) =~= text_set(list@).insert(s@));
        }
    }
}

/// The position of the text `s` in the list, if it is there.
pub fn find_text(list: &Vec<String>, s: &String) -> (r: Option<usize>)
    ensures
        r matches Some(i) ==> i < list@.len() && list@[i as int]@ == s@,
        r is None ==> !texts(list@).contains(s@),
{
    let n = list.len();
    let mut i: usize = 0;
    while i < n
        invariant
            n == list@.len(),
            i <= n,
            forall|k: int| 0 <= k < i ==> list@[k]@ != s@,
        decreases n - i,
    {
        if list[i] == *s {
            return Some(i);
        }
        i = i + 1;
    }
    proof {
        if texts(list@).contains(s@) {
            let j = choose|j: int| 0 <= j < texts(list@).len() && texts(list@)[j] == s@;
            assert(list@[j]@ == s@);
        }
    }
    None
}

/// Removes the text `s` from the list.
pub fn remove_text(list: &mut Vec<String>, s: &String)
    requires
        unique_texts(old(list)@),
    ensures
        unique_texts(final(list)@),
        text_set(final(list)@) == text_set(old(list)@).remove(s@),
{
    match find_text(list, s) {
        None => {
            proof {
                assert(text_set(list@) =~= text_set(list@).remove(s@));
            }
        },
        Some(i) => {
            let ghost before = list@;
            list.remove(i);
            proof {
                assert(list@ == before.remove(i as int));
                assert(texts(list@) =~= texts(before).remove(i as int));
                assert(texts(before).no_duplicates());
                assert forall|a: int, b: int| 0 <= a < texts(list@).len() && 0 <= b < texts(list@).len() && a != b
                    implies texts(list@)[a] != texts(list@)[b] by {
                    let a2 = if a < i { a } else { a + 1 };
                    let b2 = if b < i { b } else { b + 1 };
                    assert(texts(list@)[a] == texts(before)[a2]);
                    assert(texts(list@)[b] == texts(before)[b2]);
                }
                assert forall|x: Seq<char>| text_set(list@).contains(x) <==> text_set(before).remove(s@).contains(x) by {
                    if texts(list@).contains(x) {
                        let j = choose|j: int| 0 <= j < texts(list@).len() && texts(list@)[j] == x;
                        let j2 = if j < i { j } else { j + 1 };
                        assert(texts(before)[j2] == x);
                        assert(texts(before)[i as int] == s@);
                        assert(j2 != i);
                        assert(texts(before).contains(x));
                    }
                    if texts(before).contains(x) && x != s@ {
                        let j = choose|j: int| 0 <= j < texts(before).len() && texts(before)[j] == x;
                        assert(j != i);
                        let j2 = if j < i { j } else { j - 1 };
                        assert(texts(list@)[j2] == x);
                        assert(texts(list@).contains(x));
                    }
                }
                assert(text_set(list@) =~= text_set(before).remove(s@));
            }
        },
    }
}

/// The texts of `v` with later repeats left out.
pub fn unique_list(v: Vec<String>) -> (r: Vec<String>)
    ensures
        unique_texts(r@),
        text_set(r@) == text_set(v@),
{
    let mut r: Vec<String> = Vec::new();
    let n = v.len();
    let mut i: usize = 0;
    proof {
        assert(text_set(r@) =~= text_set(v@.take(0)));
    }
    while i < n
        invariant
            n == v@.len(),
            i <= n,
            unique_texts(r@),
            text_set(r@) == texts(v@).take(i as int).to_set(),
        decreases n - i,
    {
        let ghost before = r@;
        add_text(&mut r, v[i].clone());
        proof {
            assert(texts(v@).take(i + 1) =~= texts(v@).take(i as int).push(v@[i as int]@));
            let t1 = texts(v@).take(i + 1);
            let t0 = texts(v@).take(i as int);
            assert forall|y: Seq<char>| t1.contains(y) <==> (t0.contains(y) || y == v@[i as int]@) by {
                if t1.contains(y) {
                    let j = choose|j: int| 0 <= j < t1.len() && t1[j] == y;
                    if j < t0.len() {
                        assert(t0[j] == y);
                    }
                }
                if t0.contains(y) {
                    let j = choose|j: int| 0 <= j < t0.len() && t0[j] == y;
                    assert(t1[j] == y);
                }
                if y == v@[i as int]@ {
                    assert(t1[i as int] == y);
                }
            }
            assert(t1.to_set() =~= t0.to_set().insert(v@[i as int]@));
        }
        i = i + 1;
    }
    proof {
        assert(texts(v@).take(n as int) =~= texts(v@));
    }
    r
}

/// Ignoring a path ignores everything below it: when the text of `r` is
/// listed, every path that extends `r` is ignored.
pub proof fn lemma_ignore_inherited(set: Set<Seq<char>>, r: PathModel, below: PathModel)
    requires
        set.contains(path_text(r)),
        below.absolute == r.absolute,
        r.parts.len() <= below.parts.len(),
        below.parts.take(r.parts.len() as int) == r.parts,
    ensures
        listed_or_below(set, below),
{
    assert(prefix_model(below, r.parts.len() as int) =~= r);
}

} // verus!
