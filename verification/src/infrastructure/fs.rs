use vstd::prelude::*;
use vstd::seq_lib::*;
use vstd::string::*;
use vstd::utf8::*;
use vstd::slice::*;
use crate::ports::filesystem::{list_result, names_view, read_result, FileSystemPort, FsError};
use crate::text::{bytes_eq, compare_bytes, lemma_lex_irreflexive, lemma_lex_total, lemma_lex_transitive, lex_lt};

verus! {

/// A stored file: its path's UTF-8 bytes and its contents.
pub type FsEntry = (Seq<u8>, Seq<u8>);

/// Entries whose paths come in strictly increasing order.
pub open spec fn keys_sorted(e: Seq<FsEntry>) -> bool {
    forall|i: int, j: int| 0 <= i < j < e.len() ==> lex_lt(#[trigger] e[i].0, #[trigger] e[j].0)
}

/// Whether some entry has path `k`.
pub open spec fn has_key(e: Seq<FsEntry>, k: Seq<u8>) -> bool {
    exists|i: int| 0 <= i < e.len() && #[trigger] e[i].0 == k
}

/// The map from path to contents that a list of entries stands for.
pub open spec fn entries_map(e: Seq<FsEntry>) -> Map<Seq<u8>, Seq<u8>> {
    Map::new(
        |k: Seq<u8>| has_key(e, k),
        |k: Seq<u8>| e[choose|i: int| 0 <= i < e.len() && #[trigger] e[i].0 == k].1,
    )
}

/// Byte strings in strictly increasing order.
pub open spec fn strictly_sorted(r: Seq<Seq<u8>>) -> bool {
    forall|i: int, j: int| 0 <= i < j < r.len() ==> lex_lt(#[trigger] r[i], #[trigger] r[j])
}

/// The members of a finite set of byte strings, in increasing order.
pub open spec fn sorted_members(s: Set<Seq<u8>>) -> Seq<Seq<u8>> {
    choose|r: Seq<Seq<u8>>| strictly_sorted(r) && r.to_set() == s
}

/// In sorted entries, the entry at index `i` gives the map's value at its path.
pub proof fn lemma_entries_map_at(e: Seq<FsEntry>, i: int)
    requires
        keys_sorted(e),
        0 <= i < e.len(),
    ensures
        entries_map(e).contains_key(e[i].0),
        entries_map(e)[e[i].0] == e[i].1,
{
    let k = e[i].0;
    assert(has_key(e, k));
    let j = choose|j: int| 0 <= j < e.len() && #[trigger] e[j].0 == k;
    assert(0 <= j < e.len() && e[j].0 == k);
    lemma_lex_irreflexive(k);
    if j < i {
        assert(lex_lt(e[j].0, e[i].0));
    } else if j > i {
        assert(lex_lt(e[i].0, e[j].0));
    }
    assert(j == i);
    assert(entries_map(e)[k] == e[j].1);
}

/// Inserting an entry at its place in sorted entries keeps them sorted and
/// adds it to the map.
pub proof fn lemma_entries_insert(e: Seq<FsEntry>, pos: int, k: Seq<u8>, v: Seq<u8>)
    requires
        keys_sorted(e),
        0 <= pos <= e.len(),
        forall|j: int| 0 <= j < pos ==> lex_lt(#[trigger] e[j].0, k),
        pos < e.len() ==> lex_lt(k, e[pos].0),
    ensures
        keys_sorted(e.insert(pos, (k, v))),
        entries_map(e.insert(pos, (k, v))) == entries_map(e).insert(k, v),
{
    let e2 = e.insert(pos, (k, v));
    e.insert_ensures(pos, (k, v));
    assert forall|i: int, j: int| 0 <= i < j < e2.len() implies lex_lt(
        #[trigger] e2[i].0,
        #[trigger] e2[j].0,
    ) by {
        if j < pos {
        } else if j == pos {
        } else if i < pos {
            assert(e2[j] == e[j - 1]);
            if j - 1 > pos {
                lemma_lex_transitive(k, e[pos].0, e[j - 1].0);
            }
            lemma_lex_transitive(e[i].0, k, e[j - 1].0);
        } else if i == pos {
            assert(e2[j] == e[j - 1]);
            if j - 1 > pos {
                lemma_lex_transitive(k, e[pos].0, e[j - 1].0);
            }
        } else {
            assert(e2[i] == e[i - 1]);
            assert(e2[j] == e[j - 1]);
        }
    }
    assert(!has_key(e, k)) by {
        if has_key(e, k) {
            let j = choose|j: int| 0 <= j < e.len() && #[trigger] e[j].0 == k;
            lemma_lex_irreflexive(k);
            if j < pos {
            } else if j == pos {
            } else {
                lemma_lex_transitive(k, e[pos].0, e[j].0);
            }
        }
    }
    let m1 = entries_map(e2);
    let m2 = entries_map(e).insert(k, v);
    assert forall|q: Seq<u8>| m1.contains_key(q) <==> m2.contains_key(q) by {
        if has_key(e2, q) {
            let i = choose|i: int| 0 <= i < e2.len() && #[trigger] e2[i].0 == q;
            if i < pos {
                assert(e[i].0 == q);
            } else if i > pos {
                assert(e[i - 1].0 == q);
            }
        }
        if has_key(e, q) {
            let i = choose|i: int| 0 <= i < e.len() && #[trigger] e[i].0 == q;
            if i < pos {
                assert(e2[i].0 == q);
            } else {
                assert(e2[i + 1].0 == q);
            }
        }
        if q == k {
            assert(e2[pos].0 == q);
        }
    }
    assert forall|q: Seq<u8>| m1.contains_key(q) implies m1[q] == m2[q] by {
        let i = choose|i: int| 0 <= i < e2.len() && #[trigger] e2[i].0 == q;
        assert(0 <= i < e2.len() && e2[i].0 == q);
        lemma_entries_map_at(e2, i);
        assert(m1[q] == e2[i].1);
        if i < pos {
            assert(e2[i] == e[i]);
            assert(e[i].0 == q);
            assert(q != k);
            lemma_entries_map_at(e, i);
            assert(m2[q] == entries_map(e)[q]);
        } else if i > pos {
            assert(e2[i] == e[i - 1]);
            assert(e[i - 1].0 == q);
            assert(q != k);
            lemma_entries_map_at(e, i - 1);
            assert(m2[q] == entries_map(e)[q]);
        } else {
            assert(e2[i] == (k, v));
            assert(m2[q] == v);
        }
    }
    assert(m1 =~= m2);
}

/// Replacing the contents of an entry keeps the entries sorted and updates
/// the map at its path.
pub proof fn lemma_entries_update(e: Seq<FsEntry>, pos: int, v: Seq<u8>)
    requires
        keys_sorted(e),
        0 <= pos < e.len(),
    ensures
        keys_sorted(e.update(pos, (e[pos].0, v))),
        entries_map(e.update(pos, (e[pos].0, v))) == entries_map(e).insert(e[pos].0, v),
{
    let k = e[pos].0;
    let e2 = e.update(pos, (k, v));
    assert forall|i: int, j: int| 0 <= i < j < e2.len() implies lex_lt(
        #[trigger] e2[i].0,
        #[trigger] e2[j].0,
    ) by {
        assert(e2[i].0 == e[i].0);
        assert(e2[j].0 == e[j].0);
    }
    let m1 = entries_map(e2);
    let m2 = entries_map(e).insert(k, v);
    assert forall|q: Seq<u8>| m1.contains_key(q) <==> m2.contains_key(q) by {
        if has_key(e2, q) {
            let i = choose|i: int| 0 <= i < e2.len() && #[trigger] e2[i].0 == q;
            assert(e[i].0 == q);
        }
        if has_key(e, q) {
            let i = choose|i: int| 0 <= i < e.len() && #[trigger] e[i].0 == q;
            assert(e2[i].0 == q);
        }
        if q == k {
            assert(e[pos].0 == q);
        }
    }
    assert forall|q: Seq<u8>| m1.contains_key(q) implies m1[q] == m2[q] by {
        let i = choose|i: int| 0 <= i < e2.len() && #[trigger] e2[i].0 == q;
        assert(0 <= i < e2.len() && e2[i].0 == q);
        lemma_entries_map_at(e2, i);
        if i != pos {
            assert(e2[i] == e[i]);
            lemma_lex_irreflexive(k);
            if i < pos {
                assert(lex_lt(e[i].0, e[pos].0));
            } else {
                assert(lex_lt(e[pos].0, e[i].0));
            }
            assert(q != k);
            lemma_entries_map_at(e, i);
        }
    }
    assert(m1 =~= m2);
}

/// Removing an entry keeps the entries sorted and removes its path from the map.
pub proof fn lemma_entries_remove(e: Seq<FsEntry>, pos: int)
    requires
        keys_sorted(e),
        0 <= pos < e.len(),
    ensures
        keys_sorted(e.remove(pos)),
        entries_map(e.remove(pos)) == entries_map(e).remove(e[pos].0),
{
    let k = e[pos].0;
    let e2 = e.remove(pos);
    e.remove_ensures(pos);
    assert forall|i: int, j: int| 0 <= i < j < e2.len() implies lex_lt(
        #[trigger] e2[i].0,
        #[trigger] e2[j].0,
    ) by {
        if j < pos {
        } else if i < pos {
            assert(e2[j] == e[j + 1]);
        } else {
            assert(e2[i] == e[i + 1]);
            assert(e2[j] == e[j + 1]);
        }
    }
    let m1 = entries_map(e2);
    let m2 = entries_map(e).remove(k);
    assert forall|q: Seq<u8>| m1.contains_key(q) <==> m2.contains_key(q) by {
        if has_key(e2, q) {
            let i = choose|i: int| 0 <= i < e2.len() && #[trigger] e2[i].0 == q;
            lemma_lex_irreflexive(q);
            if i < pos {
                assert(e[i].0 == q);
                assert(lex_lt(e[i].0, e[pos].0));
            } else {
                assert(e[i + 1].0 == q);
                assert(lex_lt(e[pos].0, e[i + 1].0));
            }
        }
        if has_key(e, q) && q != k {
            let i = choose|i: int| 0 <= i < e.len() && #[trigger] e[i].0 == q;
            if i < pos {
                assert(e2[i].0 == q);
            } else {
                assert(i != pos);
                assert(e2[i - 1].0 == q);
            }
        }
    }
    assert forall|q: Seq<u8>| m1.contains_key(q) implies m1[q] == m2[q] by {
        let i = choose|i: int| 0 <= i < e2.len() && #[trigger] e2[i].0 == q;
        lemma_entries_map_at(e2, i);
        if i < pos {
            lemma_entries_map_at(e, i);
        } else {
            lemma_entries_map_at(e, i + 1);
        }
    }
    assert(m1 =~= m2);
}

/// Two strictly sorted sequences with the same members are equal.
pub proof fn lemma_sorted_unique(a: Seq<Seq<u8>>, b: Seq<Seq<u8>>)
    requires
        strictly_sorted(a),
        strictly_sorted(b),
        a.to_set() == b.to_set(),
    ensures
        a == b,
    decreases a.len(),
{
    if a.len() == 0 {
        if b.len() > 0 {
            assert(b.to_set().contains(b[0]));
        }
        assert(a =~= b);
    } else {
        assert(a.to_set().contains(a[0]));
        assert(b.contains(a[0]));
        assert(b.len() > 0);
        assert(b.to_set().contains(b[0]));
        assert(a.contains(b[0]));
        let j = choose|j: int| 0 <= j < b.len() && b[j] == a[0];
        let i = choose|i: int| 0 <= i < a.len() && a[i] == b[0];
        if a[0] != b[0] {
            assert(j > 0 && i > 0);
            assert(lex_lt(b[0], b[j]));
            assert(lex_lt(a[0], a[i]));
            lemma_lex_total(a[0], b[0]);
        }
        let a1 = a.drop_first();
        let b1 = b.drop_first();
        assert forall|x: Seq<u8>| a1.contains(x) <==> b1.contains(x) by {
            lemma_lex_irreflexive(a[0]);
            if a1.contains(x) {
                let p = choose|p: int| 0 <= p < a1.len() && a1[p] == x;
                assert(lex_lt(a[0], a[p + 1]));
                assert(a.contains(x));
                assert(b.to_set().contains(x));
                let q = choose|q: int| 0 <= q < b.len() && b[q] == x;
                assert(q != 0);
                assert(b1[q - 1] == x);
            }
            if b1.contains(x) {
                let p = choose|p: int| 0 <= p < b1.len() && b1[p] == x;
                assert(lex_lt(b[0], b[p + 1]));
                assert(b.contains(x));
                assert(a.to_set().contains(x));
                let q = choose|q: int| 0 <= q < a.len() && a[q] == x;
                assert(q != 0);
                assert(a1[q - 1] == x);
            }
        }
        assert(a1.to_set() =~= b1.to_set());
        assert forall|x: int, y: int| 0 <= x < y < a1.len() implies lex_lt(
            #[trigger] a1[x],
            #[trigger] a1[y],
        ) by {
            assert(lex_lt(a[x + 1], a[y + 1]));
        }
        assert forall|x: int, y: int| 0 <= x < y < b1.len() implies lex_lt(
            #[trigger] b1[x],
            #[trigger] b1[y],
        ) by {
            assert(lex_lt(b[x + 1], b[y + 1]));
        }
        lemma_sorted_unique(a1, b1);
        assert(a =~= seq![a[0]] + a1);
        assert(b =~= seq![b[0]] + b1);
    }
}

/// A finite non-empty set of byte strings has a least member.
proof fn lemma_least_member(s: Set<Seq<u8>>) -> (m: Seq<u8>)
    requires
        s.finite(),
        s.len() > 0,
    ensures
        s.contains(m),
        forall|y: Seq<u8>| #[trigger] s.contains(y) && y != m ==> lex_lt(m, y),
    decreases s.len(),
{
    let x = s.choose();
    let rest = s.remove(x);
    if rest.len() == 0 {
        assert forall|y: Seq<u8>| #[trigger] s.contains(y) && y != x implies lex_lt(x, y) by {
            assert(rest.contains(y));
        }
        x
    } else {
        let m1 = lemma_least_member(rest);
        if lex_lt(x, m1) {
            assert forall|y: Seq<u8>| #[trigger] s.contains(y) && y != x implies lex_lt(x, y) by {
                assert(rest.contains(y));
                if y != m1 {
                    lemma_lex_transitive(x, m1, y);
                }
            }
            x
        } else {
            lemma_lex_total(x, m1);
            assert forall|y: Seq<u8>| #[trigger] s.contains(y) && y != m1 implies lex_lt(m1, y) by {
                if y != x {
                    assert(rest.contains(y));
                }
            }
            m1
        }
    }
}

/// Every finite set of byte strings has a strictly sorted listing.
proof fn lemma_sorted_listing_exists(s: Set<Seq<u8>>)
    requires
        s.finite(),
    ensures
        exists|r: Seq<Seq<u8>>| strictly_sorted(r) && r.to_set() == s,
    decreases s.len(),
{
    if s.len() == 0 {
        let r = Seq::<Seq<u8>>::empty();
        assert(s =~= Set::<Seq<u8>>::empty());
        assert(r.to_set() =~= s);
        assert(strictly_sorted(r) && r.to_set() == s);
    } else {
        let m = lemma_least_member(s);
        let rest = s.remove(m);
        lemma_sorted_listing_exists(rest);
        let r1 = choose|r: Seq<Seq<u8>>| strictly_sorted(r) && r.to_set() == rest;
        let r = seq![m] + r1;
        assert forall|i: int, j: int| 0 <= i < j < r.len() implies lex_lt(
            #[trigger] r[i],
            #[trigger] r[j],
        ) by {
            if i == 0 {
                assert(r[j] == r1[j - 1]);
                assert(r1.contains(r1[j - 1]));
                assert(rest.contains(r1[j - 1]));
            } else {
                assert(r[i] == r1[i - 1] && r[j] == r1[j - 1]);
            }
        }
        assert forall|y: Seq<u8>| r.to_set().contains(y) <==> s.contains(y) by {
            if r.contains(y) {
                let k = choose|k: int| 0 <= k < r.len() && r[k] == y;
                if k > 0 {
                    assert(r1[k - 1] == y);
                    assert(r1.contains(y));
                    assert(rest.contains(y));
                }
            }
            if s.contains(y) {
                if y == m {
                    assert(r[0] == m);
                } else {
                    assert(rest.contains(y));
                    assert(r1.to_set().contains(y));
                    let k = choose|k: int| 0 <= k < r1.len() && r1[k] == y;
                    assert(r[k + 1] == y);
                }
            }
        }
        assert(r.to_set() =~= s);
    }
}

/// For a finite set, `sorted_members` lists exactly its members, in
/// strictly increasing order.
pub proof fn lemma_sorted_members_of(s: Set<Seq<u8>>)
    requires
        s.finite(),
    ensures
        strictly_sorted(sorted_members(s)),
        sorted_members(s).to_set() == s,
        forall|k: Seq<u8>| #[trigger] sorted_members(s).contains(k) <==> s.contains(k),
{
    lemma_sorted_listing_exists(s);
    let r = sorted_members(s);
    assert(strictly_sorted(r) && r.to_set() == s);
    assert forall|k: Seq<u8>| #[trigger] r.contains(k) <==> s.contains(k) by {
        assert(r.to_set().contains(k) == r.contains(k));
    }
}

/// A strictly sorted sequence is the sorted listing of its members.
pub proof fn lemma_sorted_members(r: Seq<Seq<u8>>)
    requires
        strictly_sorted(r),
    ensures
        sorted_members(r.to_set()) == r,
{
    let c = sorted_members(r.to_set());
    assert(strictly_sorted(c) && c.to_set() == r.to_set());
    lemma_sorted_unique(c, r);
}


/// The root path, `/`, as bytes.
pub open spec fn root_path() -> Seq<u8> {
    seq![47u8]
}

/// Index of the last `/` byte of `p`, or -1 when it has none.
pub open spec fn last_slash(p: Seq<u8>) -> int
    decreases p.len(),
{
    if p.len() == 0 {
        -1
    } else if p.last() == 47u8 {
        p.len() - 1
    } else {
        last_slash(p.drop_last())
    }
}

proof fn lemma_last_slash(p: Seq<u8>)
    ensures
        -1 <= last_slash(p) < p.len(),
        last_slash(p) >= 0 ==> p[last_slash(p)] == 47u8,
        forall|j: int| last_slash(p) < j < p.len() ==> p[j] != 47u8,
    decreases p.len(),
{
    if p.len() > 0 && p.last() != 47u8 {
        lemma_last_slash(p.drop_last());
        assert forall|j: int| last_slash(p) < j < p.len() implies p[j] != 47u8 by {
            if j < p.len() - 1 {
                assert(p[j] == p.drop_last()[j]);
            }
        }
    }
}

/// The parent directory that writing path `p` creates: the part of `p`
/// before its last `/`, when that is neither empty nor the root and is not
/// stored yet.
pub open spec fn missing_parent(m: Map<Seq<u8>, Seq<u8>>, p: Seq<u8>) -> Option<Seq<u8>> {
    let i = last_slash(p);
    if p != root_path() && i > 0 && p.take(i) != root_path() && !m.contains_key(p.take(i)) {
        Some(p.take(i))
    } else {
        None
    }
}

/// The files after writing `data` at path `p`: a missing parent directory is
/// created empty, then `p` holds `data`.
pub open spec fn ramdisk_write(m: Map<Seq<u8>, Seq<u8>>, p: Seq<u8>, data: Seq<u8>) -> Map<
    Seq<u8>,
    Seq<u8>,
> {
    let m1 = match missing_parent(m, p) {
        Some(q) => m.insert(q, Seq::empty()),
        None => m,
    };
    m1.insert(p, data)
}

/// The prefix that the paths of the direct children of `dir` start with.
pub open spec fn child_prefix(dir: Seq<u8>) -> Seq<u8> {
    if dir == root_path() {
        root_path()
    } else {
        dir.push(47u8)
    }
}

/// Whether `k` names a direct child of directory `dir`: it is the child
/// prefix followed by a non-empty name without `/`.
pub open spec fn is_child(dir: Seq<u8>, k: Seq<u8>) -> bool {
    let pre = child_prefix(dir);
    &&& pre.len() < k.len()
    &&& k.take(pre.len() as int) == pre
    &&& !k.skip(pre.len() as int).contains(47u8)
}

/// The stored paths that are direct children of `dir`.
pub open spec fn children(m: Map<Seq<u8>, Seq<u8>>, dir: Seq<u8>) -> Set<Seq<u8>> {
    m.dom().filter(|k: Seq<u8>| is_child(dir, k))
}

/// The entries of a storage vector: each path's UTF-8 bytes and its contents.
pub open spec fn entries(s: Seq<(String, Vec<u8>)>) -> Seq<FsEntry> {
    s.map_values(|x: (String, Vec<u8>)| (encode_utf8(x.0@), x.1@))
}

/// The UTF-8 bytes of each string.
pub open spec fn string_keys(s: Seq<&String>) -> Seq<Seq<u8>> {
    s.map_values(|x: &String| encode_utf8(x@))
}

/// In-memory filesystem.
/// Keys are path strings; values are raw byte content.
/// Directories are represented as entries with empty content.
/// The entries are kept in increasing order of their paths' bytes.
///
/// They are held in a sorted vector rather than a `HashMap<String, Vec<u8>>`:
/// vstd specifies a hash map's lookups only for key types that it knows to
/// obey its key model (`obeys_key_model`), which it states for integers and
/// not for `String`, and this crate does not assume it. The sorted order is
/// also the order that `list` answers in.
pub struct RamdiskAdapter {
    storage: Vec<(String, Vec<u8>)>,
}

impl View for RamdiskAdapter {
    /// Path bytes to contents.
    type V = Map<Seq<u8>, Seq<u8>>;

    closed spec fn view(&self) -> Map<Seq<u8>, Seq<u8>> {
        entries_map(entries(self.storage@))
    }
}

impl RamdiskAdapter {
    #[verifier::type_invariant]
    spec fn sorted(&self) -> bool {
        keys_sorted(entries(self.storage@))
    }

    pub fn new() -> (r: Self)
        ensures
            r@ == Map::<Seq<u8>, Seq<u8>>::empty().insert(root_path(), Seq::empty()),
    {
        let mut storage: Vec<(String, Vec<u8>)> = Vec::new();
        // Pre-create a minimal VFS layout.
        storage.push((String::from_str("/"), Vec::new()));
        proof {
            reveal_strlit("/");
            assert(is_ascii_chars("/"@));
            is_ascii_chars_encode_utf8("/"@);
            assert(encode_utf8("/"@) =~= root_path());
            let e = entries(storage@);
            assert(e.len() == 1);
            lemma_entries_map_at(e, 0);
            assert(entries_map(e) =~= Map::<Seq<u8>, Seq<u8>>::empty().insert(
                root_path(),
                Seq::empty(),
            ));
        }
        RamdiskAdapter { storage }
    }

    /// Index of the entry with path bytes `key`, if any.
    fn find(&self, key: &[u8]) -> (r: Option<usize>)
        ensures
            r matches Some(i) ==> i < self.storage@.len() && entries(self.storage@)[i as int].0
                == key@,
            r is None ==> !has_key(entries(self.storage@), key@),
    {
        let mut i: usize = 0;
        while i < self.storage.len()
            invariant
                i <= self.storage@.len(),
                forall|j: int| 0 <= j < i ==> entries(self.storage@)[j].0 != key@,
            decreases self.storage@.len() - i,
        {
            if bytes_eq(self.storage[i].0.as_str().as_bytes(), key) {
                return Some(i);
            }
            i = i + 1;
        }
        None
    }

    /// The index at which path bytes `key` belong in the sorted entries.
    fn position_for(&self, key: &[u8]) -> (i: usize)
        ensures
            i <= self.storage@.len(),
            forall|j: int| 0 <= j < i ==> lex_lt(#[trigger] entries(self.storage@)[j].0, key@),
            i < self.storage@.len() ==> !lex_lt(entries(self.storage@)[i as int].0, key@),
    {
        let mut i: usize = 0;
        while i < self.storage.len() && compare_bytes(self.storage[i].0.as_str().as_bytes(), key) < 0
            invariant
                i <= self.storage@.len(),
                forall|j: int| 0 <= j < i ==> lex_lt(#[trigger] entries(self.storage@)[j].0, key@),
            decreases self.storage@.len() - i,
        {
            i = i + 1;
        }
        i
    }

    /// Store `data` under path `key`, replacing what the path held.
    fn put(&mut self, key: String, data: Vec<u8>)
        ensures
            final(self)@ == old(self)@.insert(encode_utf8(key@), data@),
    {
        proof {
            use_type_invariant(&*self);
        }
        let ghost k = encode_utf8(key@);
        let ghost e = entries(self.storage@);
        let i = self.position_for(key.as_str().as_bytes());
        if i < self.storage.len() && compare_bytes(
            self.storage[i].0.as_str().as_bytes(),
            key.as_str().as_bytes(),
        ) == 0 {
            proof {
                lemma_entries_update(e, i as int, data@);
            }
            let mut st: Vec<(String, Vec<u8>)> = Vec::new();
            std::mem::swap(&mut st, &mut self.storage);
            st.set(i, (key, data));
            assert(entries(st@) =~= e.update(i as int, (e[i as int].0, data@)));
            self.storage = st;
        } else {
            proof {
                if i < e.len() {
                    lemma_lex_total(e[i as int].0, k);
                }
                lemma_entries_insert(e, i as int, k, data@);
            }
            let mut st: Vec<(String, Vec<u8>)> = Vec::new();
            std::mem::swap(&mut st, &mut self.storage);
            st.insert(i, (key, data));
            assert(entries(st@) =~= e.insert(i as int, (k, data@)));
            self.storage = st;
        }
    }

    /// Index of the last `/` byte of `p`, if any.
    fn last_slash_index(p: &[u8]) -> (r: Option<usize>)
        ensures
            r matches Some(i) ==> i as int == last_slash(p@),
            r is None ==> last_slash(p@) == -1,
    {
        let mut i: usize = p.len();
        assert(p@.take(i as int) =~= p@);
        while i > 0
            invariant
                i <= p@.len(),
                last_slash(p@) == last_slash(p@.take(i as int)),
            decreases i,
        {
            assert(p@.take(i as int).drop_last() =~= p@.take(i - 1));
            if p[i - 1] == 47 {
                return Some(i - 1);
            }
            i = i - 1;
        }
        None
    }

    /// Whether `key` is the child prefix followed by a non-empty name
    /// without `/`.
    fn has_child_key(prefix: &[u8], key: &[u8]) -> (b: bool)
        ensures
            b == (prefix@.len() < key@.len() && key@.take(prefix@.len() as int) == prefix@
                && !key@.skip(prefix@.len() as int).contains(47u8)),
    {
        if prefix.len() >= key.len() {
            return false;
        }
        let head = slice_subrange(key, 0, prefix.len());
        if !bytes_eq(head, prefix) {
            return false;
        }
        let mut i: usize = prefix.len();
        while i < key.len()
            invariant
                prefix@.len() <= i <= key@.len(),
                forall|j: int| prefix@.len() <= j < i ==> key@[j] != 47u8,
            decreases key@.len() - i,
        {
            if key[i] == 47 {
                assert(key@.skip(prefix@.len() as int)[i - prefix@.len()] == 47u8);
                return false;
            }
            i = i + 1;
        }
        assert forall|j: int| 0 <= j < key@.skip(prefix@.len() as int).len() implies key@.skip(
            prefix@.len() as int,
        )[j] != 47u8 by {
            assert(key@.skip(prefix@.len() as int)[j] == key@[j + prefix@.len()]);
        }
        true
    }

    /// Return the paths that are direct children of `dir_path`, in sorted order.
    fn children_of(&self, dir_path: &str) -> (r: Vec<&String>)
        ensures
            strictly_sorted(string_keys(r@)),
            string_keys(r@).to_set() == children(self@, dir_path.spec_bytes()),
    {
        proof {
            use_type_invariant(self);
        }
        let d = dir_path.as_bytes();
        let mut prefix: Vec<u8> = Vec::new();
        if d.len() == 1 && d[0] == 47 {
            prefix.push(47);
            assert(d@ =~= root_path());
            assert(prefix@ =~= child_prefix(d@));
        } else {
            let mut j: usize = 0;
            while j < d.len()
                invariant
                    j <= d@.len(),
                    prefix@ =~= d@.take(j as int),
                decreases d@.len() - j,
            {
                prefix.push(d[j]);
                j = j + 1;
            }
            prefix.push(47);
            assert(d@ != root_path());
            assert(prefix@ =~= child_prefix(d@));
        }
        let ghost e = entries(self.storage@);
        let ghost dir = d@;
        let mut out: Vec<&String> = Vec::new();
        let ghost mut idx: Seq<int> = Seq::empty();
        let mut i: usize = 0;
        while i < self.storage.len()
            invariant
                e == entries(self.storage@),
                keys_sorted(e),
                prefix@ == child_prefix(dir),
                i <= self.storage@.len(),
                idx.len() == out@.len(),
                forall|a: int| 0 <= a < idx.len() ==> 0 <= #[trigger] idx[a] < i,
                forall|a: int|
                    0 <= a < idx.len() ==> #[trigger] string_keys(out@)[a] == e[idx[a]].0,
                forall|a: int| 0 <= a < out@.len() ==> is_child(dir, #[trigger] string_keys(out@)[a]),
                forall|a: int, b: int| 0 <= a < b < idx.len() ==> #[trigger] idx[a] < #[trigger] idx[b],
                forall|j: int|
                    0 <= j < i && is_child(dir, #[trigger] e[j].0) ==> string_keys(out@).contains(
                        e[j].0,
                    ),
            decreases self.storage@.len() - i,
        {
            let key = &self.storage[i].0;
            if Self::has_child_key(prefix.as_slice(), key.as_str().as_bytes()) {
                let ghost old_out = out@;
                out.push(key);
                proof {
                    idx = idx.push(i as int);
                    assert(string_keys(out@) =~= string_keys(old_out).push(e[i as int].0));
                    assert(string_keys(out@)[out@.len() - 1] == e[i as int].0);
                    assert forall|j: int|
                        0 <= j < i + 1 && is_child(dir, #[trigger] e[j].0) implies string_keys(
                        out@,
                    ).contains(e[j].0) by {
                        if j < i {
                            assert(string_keys(old_out).contains(e[j].0));
                            let a = choose|a: int|
                                0 <= a < string_keys(old_out).len() && string_keys(old_out)[a]
                                    == e[j].0;
                            assert(string_keys(out@)[a] == e[j].0);
                        } else {
                            assert(string_keys(out@)[out@.len() - 1] == e[j].0);
                        }
                    }
                }
            } else {
                proof {
                    assert forall|j: int|
                        0 <= j < i + 1 && is_child(dir, #[trigger] e[j].0) implies string_keys(
                        out@,
                    ).contains(e[j].0) by {
                        if j == i {
                            assert(!is_child(dir, e[j].0));
                        }
                    }
                }
            }
            i = i + 1;
        }
        let ghost ks = string_keys(out@);
        assert forall|a: int, b: int| 0 <= a < b < ks.len() implies lex_lt(
            #[trigger] ks[a],
            #[trigger] ks[b],
        ) by {
            assert(idx[a] < idx[b]);
        }
        assert forall|k: Seq<u8>| #[trigger] ks.contains(k) <==> children(self@, dir).contains(k) by {
            if ks.contains(k) {
                let a = choose|a: int| 0 <= a < ks.len() && ks[a] == k;
                assert(e[idx[a]].0 == k);
                assert(has_key(e, k));
            }
            if children(self@, dir).contains(k) {
                assert(has_key(e, k));
                let j = choose|j: int| 0 <= j < e.len() && #[trigger] e[j].0 == k;
                assert(is_child(dir, e[j].0));
            }
        }
        assert(ks.to_set() =~= children(self@, dir));
        out
    }
}

impl Default for RamdiskAdapter {
    fn default() -> (r: Self)
        ensures
            r@ == Map::<Seq<u8>, Seq<u8>>::empty().insert(root_path(), Seq::empty()),
    {
        Self::new()
    }
}

impl FileSystemPort for RamdiskAdapter {
    open spec fn read_spec(m: Self::V, path: Seq<char>) -> Result<Seq<u8>, FsError> {
        if m.contains_key(encode_utf8(path)) {
            Ok(m[encode_utf8(path)])
        } else {
            Err(FsError::NotFound)
        }
    }

    open spec fn write_spec(m: Self::V, path: Seq<char>, data: Seq<u8>) -> (Self::V, Result<(), FsError>) {
        (ramdisk_write(m, encode_utf8(path), data), Ok(()))
    }

    open spec fn delete_spec(m: Self::V, path: Seq<char>) -> (Self::V, Result<(), FsError>) {
        if m.contains_key(encode_utf8(path)) {
            (m.remove(encode_utf8(path)), Ok(()))
        } else {
            (m, Err(FsError::NotFound))
        }
    }

    open spec fn list_spec(m: Self::V, path: Seq<char>) -> Result<Seq<Seq<char>>, FsError> {
        if m.contains_key(encode_utf8(path)) {
            Ok(
                sorted_members(children(m, encode_utf8(path))).map_values(
                    |k: Seq<u8>| decode_utf8(k),
                ),
            )
        } else {
            Err(FsError::NotFound)
        }
    }

    open spec fn exists_spec(m: Self::V, path: Seq<char>) -> bool {
        m.contains_key(encode_utf8(path))
    }

    fn read(&self, path: &str) -> (r: Result<Vec<u8>, FsError>) {
        proof {
            use_type_invariant(self);
        }
        match self.find(path.as_bytes()) {
            Some(i) => {
                proof {
                    lemma_entries_map_at(entries(self.storage@), i as int);
                }
                Ok(slice_to_vec(self.storage[i].1.as_slice()))
            },
            None => Err(FsError::NotFound),
        }
    }

    fn write(&mut self, path: &str, data: &[u8]) -> (r: Result<(), FsError>) {
        let pb = path.as_bytes();
        let ghost m0 = self@;
        // Ensure that the parent directory exists (simple check).
        if !(pb.len() == 1 && pb[0] == 47) {
            match Self::last_slash_index(pb) {
                Some(i) => {
                    if i > 0 {
                        proof {
                            lemma_last_slash(pb@);
                            encode_utf8_valid_utf8(path@);
                            is_char_boundary_iff_not_is_continuation_byte(pb@, i as int);
                        }
                        let (parent, _rest) = path.split_at(i);
                        let qb = parent.as_bytes();
                        assert(qb@ =~= pb@.take(i as int));
                        if !(qb.len() == 1 && qb[0] == 47) {
                            match self.find(qb) {
                                None => {
                                    // Auto-create missing parent as an empty directory.
                                    proof {
                                        use_type_invariant(&*self);
                                        assert(qb@ != root_path());
                                    }
                                    self.put(String::from_str(parent), Vec::new());
                                },
                                Some(j) => {
                                    proof {
                                        use_type_invariant(&*self);
                                        lemma_entries_map_at(entries(self.storage@), j as int);
                                    }
                                },
                            }
                        } else {
                            assert(qb@ =~= root_path());
                        }
                    }
                },
                None => {},
            }
        } else {
            assert(pb@ =~= root_path());
        }
        self.put(String::from_str(path), slice_to_vec(data));
        Ok(())
    }

    fn delete(&mut self, path: &str) -> (r: Result<(), FsError>) {
        proof {
            use_type_invariant(&*self);
        }
        match self.find(path.as_bytes()) {
            Some(i) => {
                let ghost e = entries(self.storage@);
                proof {
                    lemma_entries_remove(e, i as int);
                }
                let mut st: Vec<(String, Vec<u8>)> = Vec::new();
                std::mem::swap(&mut st, &mut self.storage);
                st.remove(i);
                assert(entries(st@) =~= e.remove(i as int));
                self.storage = st;
                Ok(())
            },
            None => Err(FsError::NotFound),
        }
    }

    fn list(&self, path: &str) -> (r: Result<Vec<String>, FsError>) {
        proof {
            use_type_invariant(self);
        }
        match self.find(path.as_bytes()) {
            Some(i) => {
                proof {
                    lemma_entries_map_at(entries(self.storage@), i as int);
                }
            },
            None => {
                return Err(FsError::NotFound);
            },
        }
        let kids = self.children_of(path);
        let mut entries_out: Vec<String> = Vec::new();
        let mut j: usize = 0;
        while j < kids.len()
            invariant
                j <= kids@.len(),
                entries_out@.len() == j,
                forall|a: int| 0 <= a < j ==> #[trigger] entries_out@[a]@ == kids@[a]@,
            decreases kids@.len() - j,
        {
            entries_out.push(kids[j].clone());
            j = j + 1;
        }
        proof {
            let ks = string_keys(kids@);
            lemma_sorted_members(ks);
            assert forall|a: int| 0 <= a < ks.len() implies #[trigger] decode_utf8(ks[a])
                == names_view(entries_out)[a] by {
                encode_utf8_decode_utf8(kids@[a]@);
            }
            assert(names_view(entries_out) =~= ks.map_values(|k: Seq<u8>| decode_utf8(k)));
        }
        Ok(entries_out)
    }

    fn path_exists(&self, path: &str) -> (r: bool) {
        proof {
            use_type_invariant(self);
        }
        match self.find(path.as_bytes()) {
            Some(i) => {
                proof {
                    lemma_entries_map_at(entries(self.storage@), i as int);
                }
                true
            },
            None => false,
        }
    }
}


/// A read of a path gives back what the last write to it wrote, and the path
/// then exists.
pub proof fn law_read_after_write(m: Map<Seq<u8>, Seq<u8>>, path: Seq<char>, data: Seq<u8>)
    ensures
        RamdiskAdapter::read_spec(RamdiskAdapter::write_spec(m, path, data).0, path) == Ok::<
            Seq<u8>,
            FsError,
        >(data),
        RamdiskAdapter::exists_spec(RamdiskAdapter::write_spec(m, path, data).0, path),
{
}

/// A write changes no other stored path than its own and the parent
/// directory it may create.
pub proof fn law_write_keeps_other_paths(
    m: Map<Seq<u8>, Seq<u8>>,
    path: Seq<char>,
    data: Seq<u8>,
    other: Seq<u8>,
)
    requires
        other != encode_utf8(path),
        missing_parent(m, encode_utf8(path)) != Some(other),
    ensures
        RamdiskAdapter::write_spec(m, path, data).0.contains_key(other) == m.contains_key(other),
        m.contains_key(other) ==> RamdiskAdapter::write_spec(m, path, data).0[other] == m[other],
{
}

/// After a delete the path no longer exists, and reading it fails.
pub proof fn law_delete_removes(m: Map<Seq<u8>, Seq<u8>>, path: Seq<char>)
    ensures
        !RamdiskAdapter::exists_spec(RamdiskAdapter::delete_spec(m, path).0, path),
        RamdiskAdapter::read_spec(RamdiskAdapter::delete_spec(m, path).0, path) == Err::<
            Seq<u8>,
            FsError,
        >(FsError::NotFound),
{
}

/// Deleting what a write created gives back the files from before, when the
/// path was new and the write created no parent directory.
pub proof fn law_delete_undoes_write(m: Map<Seq<u8>, Seq<u8>>, path: Seq<char>, data: Seq<u8>)
    requires
        !m.contains_key(encode_utf8(path)),
        missing_parent(m, encode_utf8(path)) is None,
    ensures
        RamdiskAdapter::delete_spec(RamdiskAdapter::write_spec(m, path, data).0, path) == (
            m,
            Ok::<(), FsError>(()),
        ),
{
    assert(m.insert(encode_utf8(path), data).remove(encode_utf8(path)) =~= m);
}

/// The files a ramdisk holds are finitely many.
pub proof fn law_ramdisk_finite(fs: RamdiskAdapter)
    ensures
        fs@.dom().finite(),
{
    let e = entries(fs.storage@);
    let ks = e.map_values(|x: FsEntry| x.0);
    assert(fs@.dom() =~= ks.to_set()) by {
        assert forall|k: Seq<u8>| fs@.dom().contains(k) <==> ks.to_set().contains(k) by {
            if has_key(e, k) {
                let i = choose|i: int| 0 <= i < e.len() && #[trigger] e[i].0 == k;
                assert(ks[i] == k);
            }
            if ks.contains(k) {
                let i = choose|i: int| 0 <= i < ks.len() && ks[i] == k;
                assert(e[i].0 == k);
            }
        }
    }
    seq_to_set_is_finite(ks);
}

/// Listing a stored directory gives exactly its direct children (the
/// stored paths that are the directory's path, a `/` unless it is the root,
/// then a non-empty name without `/`), each once, in strictly increasing
/// order; listing a path that is not stored fails with `NotFound`.
pub proof fn law_list_sorted_children(m: Map<Seq<u8>, Seq<u8>>, path: Seq<char>)
    requires
        m.dom().finite(),
    ensures
        RamdiskAdapter::list_spec(m, path) is Err <==> !RamdiskAdapter::exists_spec(m, path),
        RamdiskAdapter::list_spec(m, path) matches Err(e) ==> e == FsError::NotFound,
        RamdiskAdapter::exists_spec(m, path) ==> {
            let keys = sorted_members(children(m, encode_utf8(path)));
            &&& RamdiskAdapter::list_spec(m, path) == Ok::<Seq<Seq<char>>, FsError>(
                keys.map_values(|k: Seq<u8>| decode_utf8(k)),
            )
            &&& strictly_sorted(keys)
            &&& forall|k: Seq<u8>| #[trigger] keys.contains(k) <==> (m.contains_key(k) && is_child(
                encode_utf8(path),
                k,
            ))
        },
{
    let c = children(m, encode_utf8(path));
    assert(c.finite()) by {
        assert(c.subset_of(m.dom()));
        vstd::set_lib::lemma_len_subset(c, m.dom());
    }
    lemma_sorted_members_of(c);
}

} // verus!
