//! Directory entries and the order in which a listing shows them:
//! directories first, then files, each by lower-cased name, ties kept in
//! the order in which the directory was read.
use vstd::prelude::*;
use crate::path::{FsPath, PathModel, copy_text};
use crate::text::chars_of;

verus! {

/// One entry of a directory listing.
#[derive(Debug)]
pub struct FileEntry {
    pub name: String,
    pub path: FsPath,
    pub is_dir: bool,
    pub is_symlink: bool,
    pub size: u64,
    /// Whether the same relative path exists on the other side (repository
    /// when browsing home, home when browsing the repository).
    pub mirror_exists: bool,
    /// Whether that other copy differs in content.
    pub has_diff: bool,
}

/// The mathematical value of an entry.
#[verifier::ext_equal]
pub struct EntryModel {
    pub name: Seq<char>,
    pub path: PathModel,
    pub is_dir: bool,
    pub is_symlink: bool,
    pub size: u64,
    pub mirror_exists: bool,
    pub has_diff: bool,
}

impl View for FileEntry {
    type V = EntryModel;

    open spec fn view(&self) -> EntryModel {
        EntryModel {
            name: self.name@,
            path: self.path@,
            is_dir: self.is_dir,
            is_symlink: self.is_symlink,
            size: self.size,
            mirror_exists: self.mirror_exists,
            has_diff: self.has_diff,
        }
    }
}

impl EntryModel {
    /// The fields agree as a listing sets them: a directory has size 0 and
    /// no difference, and a difference needs a file whose mirror exists.
    pub open spec fn consistent(self) -> bool {
        &&& self.is_dir ==> self.size == 0 && !self.has_diff
        &&& self.has_diff ==> self.mirror_exists && !self.is_dir
    }
}

/// The values of a sequence of entries.
pub open spec fn entry_models(v: Seq<FileEntry>) -> Seq<EntryModel> {
    v.map_values(|e: FileEntry| e@)
}

/// Whether a listing compares an entry's content with its mirror: only a
/// file whose mirror exists.
pub fn needs_diff(is_dir: bool, mirror_exists: bool) -> (r: bool)
    ensures
        r == (!is_dir && mirror_exists),
{
    !is_dir && mirror_exists
}

impl FileEntry {
    /// The entry for what was found of a directory entry: its name and path,
    /// whether it is a directory or a link, its length when its metadata
    /// could be read, whether its mirror exists, and whether the contents
    /// differ (asked only when `needs_diff`). A directory has size 0 and no
    /// difference; a difference needs a file and an existing mirror.
    pub fn from_probes(
        name: String,
        path: FsPath,
        is_dir: bool,
        is_symlink: bool,
        len: Option<u64>,
        mirror_exists: bool,
        differs: bool,
    ) -> (r: FileEntry)
        ensures
            r.name@ == name@,
            r.path@ == path@,
            r.is_dir == is_dir,
            r.is_symlink == is_symlink,
            r.size == if is_dir {
                0
            } else {
                match len {
                    Some(n) => n,
                    None => 0,
                }
            },
            r.mirror_exists == mirror_exists,
            r.has_diff == (!is_dir && mirror_exists && differs),
            r@.consistent(),
    {
        let size = if is_dir {
            0
        } else {
            match len {
                Some(n) => n,
                None => 0,
            }
        };
        let has_diff = needs_diff(is_dir, mirror_exists) && differs;
        FileEntry { name, path, is_dir, is_symlink, size, mirror_exists, has_diff }
    }

    /// Whether the fields agree as a listing sets them.
    pub fn is_consistent(&self) -> (r: bool)
        ensures
            r == self@.consistent(),
    {
        (!self.is_dir || (self.size == 0 && !self.has_diff)) && (!self.has_diff || (self.mirror_exists && !self.is_dir))
    }

    /// A copy of the entry.
    pub fn duplicate(&self) -> (r: FileEntry)
        ensures
            r@ == self@,
    {
        FileEntry {
            name: copy_text(&self.name),
            path: self.path.duplicate(),
            is_dir: self.is_dir,
            is_symlink: self.is_symlink,
            size: self.size,
            mirror_exists: self.mirror_exists,
            has_diff: self.has_diff,
        }
    }
}

/// A text in lower case, as `str::to_lowercase` gives it.
pub uninterp spec fn lowercase(s: Seq<char>) -> Seq<char>;

/// Trusted: calls `str::to_lowercase`, which returns the lowercase
/// equivalent of the text (by Unicode's `Lowercase` mapping); the contract
/// claims only that the result is a function of the text.
#[verifier::external_body]
fn to_lowercase(s: &str) -> (r: String)
    ensures
        r@ == lowercase(s@),
{
    s.to_lowercase()
}

/// The sort key of each entry: its name in lower case.
pub fn sort_keys(listed: &Vec<FileEntry>) -> (r: Vec<String>)
    ensures
        r@.len() == listed@.len(),
        crate::text::texts(r@) == entry_models(listed@).map_values(|e: EntryModel| lowercase(e.name)),
{
    let mut r: Vec<String> = Vec::new();
    let n = listed.len();
    let mut i: usize = 0;
    while i < n
        invariant
            n == listed@.len(),
            i <= n,
            crate::text::texts(r@) == entry_models(listed@).map_values(|e: EntryModel| lowercase(e.name)).take(i as int),
            r@.len() == i,
        decreases n - i,
    {
        let k = to_lowercase(listed[i].name.as_str());
        let ghost before = r@;
        r.push(k);
        proof {
            crate::text::lemma_texts_push(before, k);
            assert(entry_models(listed@)[i as int].name == listed@[i as int].name@);
            assert(entry_models(listed@).map_values(|e: EntryModel| lowercase(e.name)).take(i + 1)
                =~= entry_models(listed@).map_values(|e: EntryModel| lowercase(e.name)).take(i as int).push(k@));
        }
        i = i + 1;
    }
    proof {
        assert(entry_models(listed@).map_values(|e: EntryModel| lowercase(e.name)).take(n as int)
            =~= entry_models(listed@).map_values(|e: EntryModel| lowercase(e.name)));
    }
    r
}

/// Lexicographic order of texts by character code, the order of `<` on
/// `String`: `a` is a proper prefix of `b`, or at the first position where
/// they differ `a` has the smaller character.
pub open spec fn text_less(a: Seq<char>, b: Seq<char>) -> bool {
    exists|i: int| #[trigger] differ_first(a, b, i)
}

/// `a` and `b` agree before `i`, and `i` is where `a` ends first or where
/// `a` holds the smaller character.
pub open spec fn differ_first(a: Seq<char>, b: Seq<char>, i: int) -> bool {
    &&& 0 <= i <= a.len()
    &&& i <= b.len()
    &&& forall|k: int| 0 <= k < i ==> a[k] == b[k]
    &&& ((i == a.len() && i < b.len()) || (i < a.len() && i < b.len() && (a[i] as u32) < (b[i] as u32)))
}

/// No text is below itself.
pub proof fn lemma_text_less_irreflexive(a: Seq<char>)
    ensures
        !text_less(a, a),
{
}

/// No two texts are each below the other.
pub proof fn lemma_text_less_asymmetric(a: Seq<char>, b: Seq<char>)
    ensures
        !(text_less(a, b) && text_less(b, a)),
{
    if text_less(a, b) && text_less(b, a) {
        let i = choose|i: int| differ_first(a, b, i);
        let j = choose|j: int| differ_first(b, a, j);
        if i < j {
            assert(b[i] == a[i]);
        } else if j < i {
            assert(a[j] == b[j]);
        }
    }
}

/// The order of texts is transitive.
pub proof fn lemma_text_less_transitive(a: Seq<char>, b: Seq<char>, c: Seq<char>)
    requires
        text_less(a, b),
        text_less(b, c),
    ensures
        text_less(a, c),
{
    let i = choose|i: int| differ_first(a, b, i);
    let j = choose|j: int| differ_first(b, c, j);
    if i < j {
        assert(b[i] == c[i]);
        assert(differ_first(a, c, i));
    } else if j < i {
        assert(a[j] == b[j]);
        assert(differ_first(a, c, j));
    } else {
        assert(differ_first(a, c, i));
    }
}

/// Two different texts are ordered one way or the other.
pub proof fn lemma_text_less_total(a: Seq<char>, b: Seq<char>)
    requires
        a != b,
    ensures
        text_less(a, b) || text_less(b, a),
{
    lemma_text_less_total_from(a, b, 0);
}

proof fn lemma_text_less_total_from(a: Seq<char>, b: Seq<char>, k: int)
    requires
        a != b,
        0 <= k <= a.len(),
        k <= b.len(),
        forall|j: int| 0 <= j < k ==> a[j] == b[j],
    ensures
        text_less(a, b) || text_less(b, a),
    decreases a.len() - k,
{
    if k == a.len() || k == b.len() {
        if a.len() < b.len() {
            assert(differ_first(a, b, k));
        } else if b.len() < a.len() {
            assert(differ_first(b, a, k));
        } else {
            assert(a =~= b);
        }
    } else if a[k] == b[k] {
        lemma_text_less_total_from(a, b, k + 1);
    } else {
        let ca = a[k];
        let cb = b[k];
        if (ca as u32) == (cb as u32) {
            vstd::utf8::char_u32_cast(ca, ca as u32);
            vstd::utf8::char_u32_cast(cb, cb as u32);
        }
        if (ca as u32) < (cb as u32) {
            assert(differ_first(a, b, k));
        } else {
            assert(differ_first(b, a, k));
        }
    }
}

/// Where an entry goes relative to another: directories before files, then
/// by key, then by position in the directory read.
pub open spec fn goes_before(da: bool, ka: Seq<char>, ia: int, db: bool, kb: Seq<char>, ib: int) -> bool {
    if da != db {
        da
    } else if ka == kb {
        ia < ib
    } else {
        text_less(ka, kb)
    }
}

/// `goes_before` for the entries at positions `i` and `j`.
pub open spec fn before_at(dirs: Seq<bool>, keys: Seq<Seq<char>>, i: int, j: int) -> bool {
    goes_before(dirs[i], keys[i], i, dirs[j], keys[j], j)
}

/// `order` lists each position `0..dirs.len()` in increasing `goes_before`
/// order (so each exactly once: the order is strict).
pub open spec fn sorted_order(dirs: Seq<bool>, keys: Seq<Seq<char>>, order: Seq<int>) -> bool {
    &&& order.len() == dirs.len()
    &&& forall|p: int| 0 <= p < order.len() ==> 0 <= #[trigger] order[p] < dirs.len()
    &&& forall|p: int, q: int| 0 <= p < q < order.len() ==> before_at(dirs, keys, #[trigger] order[p], #[trigger] order[q])
}

/// Which entries are directories.
pub open spec fn dirs_of(listed: Seq<EntryModel>) -> Seq<bool> {
    listed.map_values(|e: EntryModel| e.is_dir)
}

/// The entries of `listed` at the positions `order`, in that order.
pub open spec fn arranged(listed: Seq<EntryModel>, order: Seq<int>) -> Seq<EntryModel> {
    order.map_values(|i: int| listed[i])
}

/// `result` is `listed` arranged by `goes_before`, where `keys` holds the
/// sort key of each entry of `listed`.
pub open spec fn listing_of(listed: Seq<EntryModel>, keys: Seq<Seq<char>>, result: Seq<EntryModel>) -> bool {
    exists|order: Seq<int>|
        #[trigger] sorted_order(dirs_of(listed), keys, order)
        && arranged(listed, order) == result
}

proof fn lemma_goes_before_transitive(
    da: bool, ka: Seq<char>, ia: int,
    db: bool, kb: Seq<char>, ib: int,
    dc: bool, kc: Seq<char>, ic: int,
)
    requires
        goes_before(da, ka, ia, db, kb, ib),
        goes_before(db, kb, ib, dc, kc, ic),
    ensures
        goes_before(da, ka, ia, dc, kc, ic),
{
    if da == db && db == dc {
        if ka != kb && kb != kc {
            lemma_text_less_transitive(ka, kb, kc);
            if ka == kc {
                lemma_text_less_asymmetric(ka, kb);
            }
        }
    }
}

proof fn lemma_goes_before_irreflexive(d: bool, k: Seq<char>, i: int)
    ensures
        !goes_before(d, k, i, d, k, i),
{
}

/// Of two different positions one goes before the other.
proof fn lemma_before_total(dirs: Seq<bool>, keys: Seq<Seq<char>>, i: int, j: int)
    requires
        i != j,
    ensures
        before_at(dirs, keys, i, j) || before_at(dirs, keys, j, i),
{
    if dirs[i] == dirs[j] && keys[i] != keys[j] {
        lemma_text_less_total(keys[i], keys[j]);
    }
}

/// A sorted order lists every position.
proof fn lemma_sorted_covers(dirs: Seq<bool>, keys: Seq<Seq<char>>, order: Seq<int>, x: int)
    requires
        sorted_order(dirs, keys, order),
        0 <= x < dirs.len(),
    ensures
        exists|q: int| 0 <= q < order.len() && order[q] == x,
{
    let n = dirs.len() as int;
    assert(order.no_duplicates()) by {
        assert forall|p: int, q: int| 0 <= p < order.len() && 0 <= q < order.len() && p != q
            implies order[p] != order[q] by {
            if p < q {
                assert(before_at(dirs, keys, order[p], order[q]));
            } else {
                assert(before_at(dirs, keys, order[q], order[p]));
            }
        }
    }
    order.unique_seq_to_set();
    vstd::set_lib::lemma_int_range(0, n);
    let range = vstd::set_lib::set_int_range(0, n);
    assert(order.to_set().subset_of(range)) by {
        assert forall|v: int| order.to_set().contains(v) implies range.contains(v) by {
            let q = choose|q: int| 0 <= q < order.len() && order[q] == v;
            assert(0 <= order[q] < dirs.len());
        }
    }
    vstd::set_lib::lemma_len_subset(order.to_set(), range);
    vstd::set_lib::lemma_subset_equality(order.to_set(), range);
    assert(range.contains(x));
    assert(order.to_set().contains(x));
}

proof fn lemma_sorted_agree_from(dirs: Seq<bool>, keys: Seq<Seq<char>>, o1: Seq<int>, o2: Seq<int>, p: int)
    requires
        sorted_order(dirs, keys, o1),
        sorted_order(dirs, keys, o2),
        0 <= p <= o1.len(),
        forall|j: int| 0 <= j < p ==> o1[j] == o2[j],
    ensures
        o1 == o2,
    decreases o1.len() - p,
{
    if p == o1.len() {
        assert(o1 =~= o2);
    } else {
        let x = o1[p];
        let y = o2[p];
        if x != y {
            lemma_before_total(dirs, keys, x, y);
            if before_at(dirs, keys, x, y) {
                lemma_sorted_covers(dirs, keys, o2, x);
                let q = choose|q: int| 0 <= q < o2.len() && o2[q] == x;
                if q < p {
                    assert(o1[q] == x);
                    assert(before_at(dirs, keys, o1[q], o1[p]));
                } else {
                    assert(before_at(dirs, keys, o2[p], o2[q]));
                    lemma_goes_before_transitive(
                        dirs[x], keys[x], x, dirs[y], keys[y], y, dirs[x], keys[x], x);
                }
            } else {
                lemma_sorted_covers(dirs, keys, o1, y);
                let q = choose|q: int| 0 <= q < o1.len() && o1[q] == y;
                if q < p {
                    assert(o2[q] == y);
                    assert(before_at(dirs, keys, o2[q], o2[p]));
                } else {
                    assert(before_at(dirs, keys, o1[p], o1[q]));
                    lemma_goes_before_transitive(
                        dirs[y], keys[y], y, dirs[x], keys[x], x, dirs[y], keys[y], y);
                }
            }
        }
        lemma_sorted_agree_from(dirs, keys, o1, o2, p + 1);
    }
}

/// A listing has one arrangement: two results that both arrange `listed`
/// by the same keys are the same.
pub proof fn lemma_listing_unique(listed: Seq<EntryModel>, keys: Seq<Seq<char>>, a: Seq<EntryModel>, b: Seq<EntryModel>)
    requires
        listing_of(listed, keys, a),
        listing_of(listed, keys, b),
    ensures
        a == b,
{
    let o1 = choose|order: Seq<int>| #[trigger] sorted_order(dirs_of(listed), keys, order) && arranged(listed, order) == a;
    let o2 = choose|order: Seq<int>| #[trigger] sorted_order(dirs_of(listed), keys, order) && arranged(listed, order) == b;
    lemma_sorted_agree_from(dirs_of(listed), keys, o1, o2, 0);
}

/// Compares two keys: `-1` when `a` is below, `1` when `b` is below, `0`
/// when they are equal.
fn key_order(a: &Vec<char>, b: &Vec<char>) -> (r: i8)
    ensures
        r == -1 <==> text_less(a@, b@),
        r == 1 <==> text_less(b@, a@),
        r == 0 <==> a@ == b@,
        r == -1 || r == 0 || r == 1,
{
    let n = a.len();
    let m = b.len();
    let mut i: usize = 0;
    while i < n && i < m
        invariant
            n == a@.len(),
            m == b@.len(),
            i <= n,
            i <= m,
            forall|k: int| 0 <= k < i ==> a@[k] == b@[k],
        decreases n - i,
    {
        if a[i] != b[i] {
            if (a[i] as u32) < (b[i] as u32) {
                proof {
                    assert(differ_first(a@, b@, i as int));
                    lemma_text_less_asymmetric(a@, b@);
                    assert(a@[i as int] != b@[i as int]);
                }
                return -1;
            } else {
                proof {
                    assert(a@[i as int] != b@[i as int]);
                    if (a@[i as int] as u32) == (b@[i as int] as u32) {
                        vstd::utf8::char_u32_cast(a@[i as int], a@[i as int] as u32);
                        vstd::utf8::char_u32_cast(b@[i as int], b@[i as int] as u32);
                    }
                    assert((a@[i as int] as u32) != (b@[i as int] as u32));
                    assert(differ_first(b@, a@, i as int));
                    lemma_text_less_asymmetric(a@, b@);
                }
                return 1;
            }
        }
        i = i + 1;
    }
    if n < m {
        proof {
            assert(differ_first(a@, b@, i as int));
            lemma_text_less_asymmetric(a@, b@);
            assert(a@.len() != b@.len());
        }
        -1
    } else if m < n {
        proof {
            assert(differ_first(b@, a@, i as int));
            lemma_text_less_asymmetric(a@, b@);
            assert(a@.len() != b@.len());
        }
        1
    } else {
        proof {
            assert(a@ =~= b@);
            lemma_text_less_irreflexive(a@);
        }
        0
    }
}

/// Whether the entry at `i` goes before the one at `j`; for distinct
/// positions one of the two always does.
fn before_exec(dirs: &Vec<bool>, keys: &Vec<Vec<char>>, i: usize, j: usize) -> (r: bool)
    requires
        dirs@.len() == keys@.len(),
        i < dirs@.len(),
        j < dirs@.len(),
    ensures
        r == before_at(dirs@, key_models(keys@), i as int, j as int),
        !r && i != j ==> before_at(dirs@, key_models(keys@), j as int, i as int),
{
    let ghost ks = key_models(keys@);
    if dirs[i] != dirs[j] {
        return dirs[i];
    }
    let o = key_order(&keys[i], &keys[j]);
    proof {
        assert(ks[i as int] == keys@[i as int]@);
        assert(ks[j as int] == keys@[j as int]@);
        lemma_text_less_asymmetric(ks[i as int], ks[j as int]);
        lemma_text_less_irreflexive(ks[i as int]);
    }
    if o == 0 {
        i < j
    } else {
        o == -1
    }
}

/// The values of a sequence of character vectors.
pub open spec fn key_models(v: Seq<Vec<char>>) -> Seq<Seq<char>> {
    v.map_values(|k: Vec<char>| k@)
}

/// The positions of the entries, arranged by `goes_before` (an insertion
/// sort).
pub fn sort_order(dirs: &Vec<bool>, keys: &Vec<Vec<char>>) -> (order: Vec<usize>)
    requires
        dirs@.len() == keys@.len(),
    ensures
        sorted_order(dirs@, key_models(keys@), order@.map_values(|i: usize| i as int)),
{
    let ghost ks = key_models(keys@);
    let n = dirs.len();
    let mut order: Vec<usize> = Vec::new();
    let mut k: usize = 0;
    while k < n
        invariant
            n == dirs@.len(),
            n == keys@.len(),
            ks == key_models(keys@),
            k <= n,
            order@.len() == k,
            forall|p: int| 0 <= p < order@.len() ==> #[trigger] order@[p] < k,
            forall|p: int, q: int| 0 <= p < q < order@.len() ==> before_at(dirs@, ks, #[trigger] order@[p] as int, #[trigger] order@[q] as int),
        decreases n - k,
    {
        let len = order.len();
        let mut p: usize = 0;
        while p < len && !before_exec(dirs, keys, k, order[p])
            invariant
                len == order@.len(),
                n == dirs@.len(),
                n == keys@.len(),
                ks == key_models(keys@),
                k < n,
                p <= len,
                forall|x: int| 0 <= x < order@.len() ==> #[trigger] order@[x] < k,
                forall|q: int| 0 <= q < p ==> before_at(dirs@, ks, #[trigger] order@[q] as int, k as int),
            decreases len - p,
        {
            p = p + 1;
        }
        let ghost old_order = order@;
        proof {
            if p < len {
                assert(before_at(dirs@, ks, k as int, old_order[p as int] as int));
                assert forall|q: int| p <= q < len implies before_at(dirs@, ks, k as int, #[trigger] old_order[q] as int) by {
                    if q > p {
                        let a = k as int;
                        let b = old_order[p as int] as int;
                        let c = old_order[q] as int;
                        assert(before_at(dirs@, ks, b, c));
                        lemma_goes_before_transitive(
                            dirs@[a], ks[a], a, dirs@[b], ks[b], b, dirs@[c], ks[c], c,
                        );
                    }
                }
            }
        }
        order.insert(p, k);
        proof {
            assert(order@ == old_order.insert(p as int, k));
            assert forall|x: int| 0 <= x < order@.len() implies #[trigger] order@[x] < k + 1 by {
                if x < p {
                    assert(order@[x] == old_order[x]);
                } else if x > p {
                    assert(order@[x] == old_order[x - 1]);
                }
            }
            assert forall|a: int, b: int| 0 <= a < b < order@.len() implies before_at(dirs@, ks, #[trigger] order@[a] as int, #[trigger] order@[b] as int) by {
                if a < p && b < p {
                    assert(order@[a] == old_order[a] && order@[b] == old_order[b]);
                } else if a < p && b == p {
                    assert(order@[a] == old_order[a]);
                } else if a < p && b > p {
                    assert(order@[a] == old_order[a] && order@[b] == old_order[b - 1]);
                } else if a == p {
                    assert(order@[b] == old_order[b - 1]);
                } else {
                    assert(order@[a] == old_order[a - 1] && order@[b] == old_order[b - 1]);
                }
            }
        }
        k = k + 1;
    }
    let ghost o = order@.map_values(|i: usize| i as int);
    proof {
        assert forall|p: int, q: int| 0 <= p < q < o.len() implies before_at(dirs@, ks, #[trigger] o[p], #[trigger] o[q]) by {
            assert(o[p] == order@[p] as int);
            assert(o[q] == order@[q] as int);
        }
        assert forall|p: int| 0 <= p < o.len() implies 0 <= #[trigger] o[p] < dirs@.len() by {
            assert(o[p] == order@[p] as int);
        }
    }
    order
}

/// The sort key of each name.
fn name_keys(keys: &Vec<String>) -> (r: Vec<Vec<char>>)
    ensures
        r@.len() == keys@.len(),
        key_models(r@) == crate::text::texts(keys@),
{
    let mut r: Vec<Vec<char>> = Vec::new();
    let n = keys.len();
    let mut i: usize = 0;
    while i < n
        invariant
            n == keys@.len(),
            i <= n,
            key_models(r@) == crate::text::texts(keys@).take(i as int),
            r@.len() == i,
        decreases n - i,
    {
        let c = chars_of(keys[i].as_str());
        let ghost before = r@;
        r.push(c);
        proof {
            assert(key_models(r@) =~= key_models(before).push(c@));
            assert(crate::text::texts(keys@).take(i + 1) =~= crate::text::texts(keys@).take(i as int).push(keys@[i as int]@));
        }
        i = i + 1;
    }
    proof {
        assert(crate::text::texts(keys@).take(n as int) =~= crate::text::texts(keys@));
    }
    r
}

/// Arranges `listed` with directories first, then files, each in order of
/// `keys` (one key per entry), entries with equal keys in their given order.
pub fn arrange_entries(listed: &Vec<FileEntry>, keys: &Vec<String>) -> (r: Vec<FileEntry>)
    requires
        keys@.len() == listed@.len(),
    ensures
        listing_of(entry_models(listed@), crate::text::texts(keys@), entry_models(r@)),
{
    let ghost lm = entry_models(listed@);
    let n = listed.len();
    let mut dirs: Vec<bool> = Vec::new();
    let mut i: usize = 0;
    while i < n
        invariant
            n == listed@.len(),
            i <= n,
            dirs@ == dirs_of(lm).take(i as int),
            lm == entry_models(listed@),
        decreases n - i,
    {
        dirs.push(listed[i].is_dir);
        proof {
            assert(dirs@ =~= dirs_of(lm).take(i + 1));
        }
        i = i + 1;
    }
    proof {
        assert(dirs@ =~= dirs_of(lm));
    }
    let ks = name_keys(keys);
    assert(dirs@.len() == n);
    let order = sort_order(&dirs, &ks);
    let ghost o = order@.map_values(|i: usize| i as int);
    let mut r: Vec<FileEntry> = Vec::new();
    let mut p: usize = 0;
    while p < n
        invariant
            n == listed@.len(),
            order@.len() == n,
            p <= n,
            sorted_order(dirs@, key_models(ks@), o),
            o == order@.map_values(|i: usize| i as int),
            lm == entry_models(listed@),
            entry_models(r@) == arranged(lm, o).take(p as int),
        decreases n - p,
    {
        let idx = order[p];
        proof {
            assert(o[p as int] == idx as int);
        }
        let e = listed[idx].duplicate();
        let ghost before = r@;
        r.push(e);
        proof {
            assert(lm[idx as int] == listed@[idx as int]@);
            assert(e@ == lm[o[p as int]]);
            assert(entry_models(r@) =~= entry_models(before).push(e@));
            assert(entry_models(r@) =~= arranged(lm, o).take(p + 1));
        }
        p = p + 1;
    }
    proof {
        assert(arranged(lm, o).take(n as int) =~= arranged(lm, o));
        assert(key_models(ks@) == crate::text::texts(keys@));
        assert(sorted_order(dirs_of(lm), crate::text::texts(keys@), o));
        assert(arranged(lm, o) == entry_models(r@));
    }
    r
}

/// In an arranged listing no file comes before a directory, and entries
/// of the same kind come in order of their keys; the result gives the
/// positions in `listed` of the two entries.
pub proof fn lemma_dirs_first(listed: Seq<EntryModel>, keys: Seq<Seq<char>>, all: Seq<EntryModel>, i: int, j: int) -> (ab: (int, int))
    requires
        listing_of(listed, keys, all),
        keys.len() == listed.len(),
        0 <= i < j < all.len(),
    ensures
        all[i].is_dir || !all[j].is_dir,
        0 <= ab.0 < listed.len() && 0 <= ab.1 < listed.len(),
        all[i] == listed[ab.0] && all[j] == listed[ab.1],
        all[i].is_dir == all[j].is_dir ==> (keys[ab.0] == keys[ab.1] || text_less(keys[ab.0], keys[ab.1])),
{
    let order = choose|order: Seq<int>| #[trigger] sorted_order(dirs_of(listed), keys, order) && arranged(listed, order) == all;
    assert(arranged(listed, order).len() == order.len());
    let a = order[i];
    let b = order[j];
    assert(0 <= a < dirs_of(listed).len());
    assert(0 <= b < dirs_of(listed).len());
    assert(before_at(dirs_of(listed), keys, a, b));
    assert(all[i] == listed[a]);
    assert(all[j] == listed[b]);
    assert(dirs_of(listed)[a] == listed[a].is_dir);
    assert(dirs_of(listed)[b] == listed[b].is_dir);
    (a, b)
}

} // verus!
