//! The tag column: one tag set per row.
//!
//! A tag set maps tag keys to sets of tag values; the filter predicate is
//! disjunctive across keys and values. A row matches a query tag set exactly
//! when some key of the row also appears in the query and at least one of the
//! row's values for that key appears in the query's values for that key. Keys
//! of the query that appear in no row are ignored; they are never a mismatch.

use vstd::prelude::*;

use roaring::RoaringBitmap;

use crate::bitmap::{bitmap_seq, bm_insert, bm_new, bm_to_vec};
use crate::col_tys::str_col::str_views;
use crate::col_tys::Str;
use crate::interner::{intern, interned_clone, interned_eq, interned_str, interned_strs};
use crate::rowsel::{lemma_filter_elems, lemma_filter_prefix_bound, lemma_filter_step};

verus! {

/// One key of a tag set, with the values stored under it.
pub struct TagEntry {
    pub key: Str,
    pub values: Vec<Str>,
}

/// The tags of one row, or the tag predicate of one query metric: a list of
/// keys, each with its values.
pub struct TagSet {
    pub entries: Vec<TagEntry>,
}

/// What a tag set stands for: a list of keys, each with its values, all as
/// plain strings.
pub type TagsView = Seq<(Seq<char>, Seq<Seq<char>>)>;

/// What one entry stands for: its key and its values, as strings.
pub open spec fn entry_view(e: TagEntry) -> (Seq<char>, Seq<Seq<char>>) {
    (interned_str(e.key), interned_strs(e.values@))
}

/// What a tag set stands for: its entries' keys and values, as strings.
pub open spec fn tags_view(t: TagSet) -> Seq<(Seq<char>, Seq<Seq<char>>)> {
    t.entries@.map_values(|e: TagEntry| entry_view(e))
}

/// The tag-set data model: keys are unique within a tag set, and every key
/// holds at least one value. The disjunctive match is insensitive to
/// duplicate keys, so no filter depends on this; builders maintain it.
pub open spec fn tags_wf(t: TagsView) -> bool {
    &&& forall|i: int, j: int| 0 <= i < j < t.len() ==> (#[trigger] t[i]).0 != (#[trigger] t[j]).0
    &&& forall|i: int| 0 <= i < t.len() ==> (#[trigger] t[i]).1.len() > 0
}

/// Whether a tag set holds the value `v` under the key `k`.
pub open spec fn tags_has(t: Seq<(Seq<char>, Seq<Seq<char>>)>, k: Seq<char>, v: Seq<char>) -> bool {
    exists|i: int| 0 <= i < t.len() && t[i].0 == k && t[i].1.contains(v)
}

/// The disjunctive tag predicate: some key/value pair of the row also stands
/// in the query.
pub open spec fn tags_match(
    row: Seq<(Seq<char>, Seq<Seq<char>>)>,
    q: Seq<(Seq<char>, Seq<Seq<char>>)>,
) -> bool {
    exists|k: Seq<char>, v: Seq<char>| tags_has(row, k, v) && tags_has(q, k, v)
}

/// Whether the row at an index matches the query tag set.
pub open spec fn tag_matches_at(rows: Seq<TagSet>, q: TagSet) -> spec_fn(u32) -> bool {
    |i: u32| tags_match(tags_view(rows[i as int]), tags_view(q))
}

/// Whether entry `i` of `row` and entry `j` of `q` have the same key and a
/// value in common.
pub open spec fn entries_agree(row: TagSet, q: TagSet, i: int, j: int) -> bool {
    interned_str(row.entries@[i].key) == interned_str(q.entries@[j].key) && exists|x: int|
        0 <= x < row.entries@[i].values@.len() && interned_strs(q.entries@[j].values@).contains(
            interned_str(row.entries@[i].values@[x]),
        )
}

/// The disjunctive predicate holds exactly when some pair of entries, one of
/// the row and one of the query, shares its key and a value.
pub proof fn lemma_match_is_pairwise(row: TagSet, q: TagSet)
    ensures
        tags_match(tags_view(row), tags_view(q)) <==> exists|i: int, j: int|
            0 <= i < row.entries@.len() && 0 <= j < q.entries@.len() && entries_agree(
                row,
                q,
                i,
                j,
            ),
{
    if tags_match(tags_view(row), tags_view(q)) {
        let (k, v) = choose|k: Seq<char>, v: Seq<char>|
            tags_has(tags_view(row), k, v) && tags_has(tags_view(q), k, v);
        let i = choose|i: int|
            0 <= i < tags_view(row).len() && tags_view(row)[i].0 == k && tags_view(
                row,
            )[i].1.contains(v);
        let j = choose|j: int|
            0 <= j < tags_view(q).len() && tags_view(q)[j].0 == k && tags_view(q)[j].1.contains(v);
        let x = choose|x: int|
            0 <= x < interned_strs(row.entries@[i].values@).len() && interned_strs(
                row.entries@[i].values@,
            )[x] == v;
        assert(interned_str(row.entries@[i].values@[x]) == v);
        assert(entries_agree(row, q, i, j));
    }
    if exists|i: int, j: int|
        0 <= i < row.entries@.len() && 0 <= j < q.entries@.len() && entries_agree(row, q, i, j) {
        let (i, j) = choose|i: int, j: int|
            0 <= i < row.entries@.len() && 0 <= j < q.entries@.len() && entries_agree(row, q, i, j);
        let x = choose|x: int|
            0 <= x < row.entries@[i].values@.len() && interned_strs(
                q.entries@[j].values@,
            ).contains(interned_str(row.entries@[i].values@[x]));
        let k = interned_str(row.entries@[i].key);
        let v = interned_str(row.entries@[i].values@[x]);
        assert(interned_strs(row.entries@[i].values@)[x] == v);
        assert(tags_view(row)[i].0 == k && tags_view(row)[i].1.contains(v));
        assert(tags_view(q)[j].0 == k && tags_view(q)[j].1.contains(v));
        assert(tags_has(tags_view(row), k, v) && tags_has(tags_view(q), k, v));
    }
}

impl TagSet {
    pub fn new() -> (r: Self)
        ensures
            tags_view(r) == Seq::<(Seq<char>, Seq<Seq<char>>)>::empty(),
            tags_wf(tags_view(r)),
    {
        let r = Self { entries: Vec::new() };
        proof {
            assert(tags_view(r) =~= Seq::<(Seq<char>, Seq<Seq<char>>)>::empty());
        }
        r
    }

    /// Interns the key and the values and adds them as one more entry. A fresh
    /// key with at least one value keeps the tag set well formed.
    pub fn insert(&mut self, key: &str, vals: &Vec<&str>)
        ensures
            tags_view(*final(self)) == tags_view(*old(self)).push((key@, str_views(vals@))),
            (tags_wf(tags_view(*old(self))) && vals@.len() > 0 && (forall|i: int|
                0 <= i < tags_view(*old(self)).len() ==> (#[trigger] tags_view(
                    *old(self),
                )[i]).0 != key@)) ==> tags_wf(tags_view(*final(self))),
    {
        let k = intern(key);
        let mut values: Vec<Str> = Vec::new();
        let mut j: usize = 0;
        while j < vals.len()
            invariant
                j <= vals@.len(),
                values@.len() == j,
                forall|a: int|
                    0 <= a < j ==> interned_str(#[trigger] values@[a]) == vals@[a]@,
            decreases vals@.len() - j,
        {
            let h = intern(vals[j]);
            values.push(h);
            j = j + 1;
        }
        proof {
            assert(interned_strs(values@) =~= str_views(vals@));
        }
        self.entries.push(TagEntry { key: k, values });
        proof {
            assert(tags_view(*self) =~= tags_view(*old(self)).push((key@, str_views(vals@))));
        }
    }

    /// Whether the tag set holds no keys at all.
    pub fn is_empty(&self) -> (r: bool)
        ensures
            r == (tags_view(*self).len() == 0),
    {
        self.entries.len() == 0
    }
}

impl Clone for TagSet {
    /// Clones every entry; only handle reference counts move, no string bytes.
    fn clone(&self) -> (r: Self)
        ensures
            tags_view(r) == tags_view(*self),
    {
        let mut entries: Vec<TagEntry> = Vec::new();
        let mut i: usize = 0;
        while i < self.entries.len()
            invariant
                i <= self.entries@.len(),
                entries@.len() == i,
                forall|a: int|
                    0 <= a < i ==> entry_view(#[trigger] entries@[a]) == entry_view(
                        self.entries@[a],
                    ),
            decreases self.entries@.len() - i,
        {
            let e = &self.entries[i];
            let key = interned_clone(&e.key);
            let mut values: Vec<Str> = Vec::new();
            let mut j: usize = 0;
            while j < e.values.len()
                invariant
                    j <= e.values@.len(),
                    values@.len() == j,
                    forall|a: int|
                        0 <= a < j ==> interned_str(#[trigger] values@[a]) == interned_str(
                            e.values@[a],
                        ),
                decreases e.values@.len() - j,
            {
                let h = interned_clone(&e.values[j]);
                values.push(h);
                j = j + 1;
            }
            proof {
                assert(interned_strs(values@) =~= interned_strs(e.values@));
            }
            entries.push(TagEntry { key, values });
            i = i + 1;
        }
        let r = Self { entries };
        proof {
            assert(tags_view(r) =~= tags_view(*self));
        }
        r
    }
}

/// Whether some handle in `vals` stands for the same string as `v`.
fn values_contain(vals: &Vec<Str>, v: &Str) -> (r: bool)
    ensures
        r == interned_strs(vals@).contains(interned_str(*v)),
{
    let mut y: usize = 0;
    while y < vals.len()
        invariant
            y <= vals@.len(),
            forall|a: int| 0 <= a < y ==> interned_str(#[trigger] vals@[a]) != interned_str(*v),
        decreases vals@.len() - y,
    {
        if interned_eq(&vals[y], v) {
            assert(interned_strs(vals@)[y as int] == interned_str(*v));
            return true;
        }
        y = y + 1;
    }
    assert forall|a: int| 0 <= a < interned_strs(vals@).len() implies interned_strs(vals@)[a]
        != interned_str(*v) by {}
    false
}

/// Whether the two value lists share a string.
fn values_intersect(a: &Vec<Str>, b: &Vec<Str>) -> (r: bool)
    ensures
        r == exists|x: int|
            0 <= x < a@.len() && interned_strs(b@).contains(interned_str(a@[x])),
{
    let mut x: usize = 0;
    while x < a.len()
        invariant
            x <= a@.len(),
            forall|c: int|
                0 <= c < x ==> !interned_strs(b@).contains(interned_str(#[trigger] a@[c])),
        decreases a@.len() - x,
    {
        if values_contain(b, &a[x]) {
            return true;
        }
        x = x + 1;
    }
    false
}

/// Whether the row's tags match the query's tags under the disjunctive
/// predicate.
pub fn tag_sets_match(row: &TagSet, q: &TagSet) -> (r: bool)
    ensures
        r == tags_match(tags_view(*row), tags_view(*q)),
{
    proof {
        lemma_match_is_pairwise(*row, *q);
    }
    let mut i: usize = 0;
    while i < row.entries.len()
        invariant
            i <= row.entries@.len(),
            tags_match(tags_view(*row), tags_view(*q)) <==> exists|a: int, b: int|
                0 <= a < row.entries@.len() && 0 <= b < q.entries@.len() && entries_agree(
                    *row,
                    *q,
                    a,
                    b,
                ),
            forall|a: int, b: int|
                0 <= a < i && 0 <= b < q.entries@.len() ==> !entries_agree(*row, *q, a, b),
        decreases row.entries@.len() - i,
    {
        let re = &row.entries[i];
        let mut j: usize = 0;
        while j < q.entries.len()
            invariant
                i < row.entries@.len(),
                j <= q.entries@.len(),
                re == &row.entries[i as int],
                tags_match(tags_view(*row), tags_view(*q)) <==> exists|a: int, b: int|
                    0 <= a < row.entries@.len() && 0 <= b < q.entries@.len() && entries_agree(
                        *row,
                        *q,
                        a,
                        b,
                    ),
                forall|b: int| 0 <= b < j ==> !entries_agree(*row, *q, i as int, b),
            decreases q.entries@.len() - j,
        {
            let qe = &q.entries[j];
            if interned_eq(&re.key, &qe.key) {
                if values_intersect(&re.values, &qe.values) {
                    assert(entries_agree(*row, *q, i as int, j as int));
                    return true;
                }
            }
            assert(!entries_agree(*row, *q, i as int, j as int));
            j = j + 1;
        }
        i = i + 1;
    }
    false
}

pub struct TagCol {
    /// All rows in the column.
    pub rows: Vec<TagSet>,
}

impl TagCol {
    pub fn new() -> (r: Self)
        ensures
            r.rows@ == Seq::<TagSet>::empty(),
    {
        Self { rows: Vec::new() }
    }

    /// Tags one row.
    pub fn append(&mut self, tags: TagSet)
        ensures
            final(self).rows@ == old(self).rows@.push(tags),
    {
        self.rows.push(tags);
    }

    /// Keeps the candidate rows whose tags match the query tag set under the
    /// disjunctive predicate. An empty query tag set matches no row, and query
    /// keys absent from a row are ignored.
    pub fn filter_with(&self, indices_to_consider: RoaringBitmap, keys: &TagSet) -> (r:
        RoaringBitmap)
        requires
            forall|v: u32|
                bitmap_seq(indices_to_consider).contains(v) ==> (v as int) < self.rows@.len(),
        ensures
            bitmap_seq(r) == bitmap_seq(indices_to_consider).filter(
                tag_matches_at(self.rows@, *keys),
            ),
            forall|v: u32|
                bitmap_seq(r).contains(v) <==> (bitmap_seq(indices_to_consider).contains(v)
                    && tags_match(tags_view(self.rows@[v as int]), tags_view(*keys))),
    {
        let ghost p = tag_matches_at(self.rows@, *keys);
        let idxs = bm_to_vec(&indices_to_consider);
        let mut r = bm_new();
        let mut j: usize = 0;
        assert(idxs@.subrange(0, 0).filter(p) =~= Seq::<u32>::empty()) by {
            reveal(Seq::filter);
        }
        while j < idxs.len()
            invariant
                j <= idxs@.len(),
                idxs@ == bitmap_seq(indices_to_consider),
                forall|a: int, b: int| 0 <= a < b < idxs@.len() ==> idxs@[a] < idxs@[b],
                forall|v: u32|
                    bitmap_seq(indices_to_consider).contains(v) ==> (v as int)
                        < self.rows@.len(),
                p == tag_matches_at(self.rows@, *keys),
                bitmap_seq(r) == idxs@.subrange(0, j as int).filter(p),
            decreases idxs@.len() - j,
        {
            proof {
                lemma_filter_prefix_bound(idxs@, p, j as int);
                lemma_filter_step(idxs@, p, j as int);
                assert(idxs@.contains(idxs@[j as int]));
            }
            let idx = idxs[j];
            if tag_sets_match(&self.rows[idx as usize], keys) {
                bm_insert(&mut r, idx);
            }
            j = j + 1;
        }
        proof {
            assert(idxs@.subrange(0, idxs@.len() as int) =~= idxs@);
            assert forall|v: u32|
                bitmap_seq(r).contains(v) <==> (bitmap_seq(indices_to_consider).contains(v)
                    && tags_match(tags_view(self.rows@[v as int]), tags_view(*keys))) by {
                lemma_filter_elems(idxs@, p, v);
            }
        }
        r
    }
}

/// The disjunctive predicate ignores unrelated query keys: a key that appears
/// in no row of the column may be added to the query tag set without changing
/// whether any row matches.
pub proof fn lemma_unrelated_key(
    rows: Seq<TagSet>,
    q: TagSet,
    q2: TagSet,
    k: Seq<char>,
    vs: Seq<Seq<char>>,
    i: int,
)
    requires
        tags_view(q2) == tags_view(q).push((k, vs)),
        forall|r: int, x: int|
            0 <= r < rows.len() && 0 <= x < tags_view(rows[r]).len() ==> (#[trigger] tags_view(
                rows[r],
            )[x]).0 != k,
        0 <= i < rows.len(),
    ensures
        tags_match(tags_view(rows[i]), tags_view(q2)) == tags_match(
            tags_view(rows[i]),
            tags_view(q),
        ),
{
    let rv = tags_view(rows[i]);
    let qv = tags_view(q);
    let qv2 = tags_view(q2);
    if tags_match(rv, qv) {
        let (kk, v) = choose|kk: Seq<char>, v: Seq<char>| tags_has(rv, kk, v) && tags_has(qv, kk, v);
        let j = choose|j: int| 0 <= j < qv.len() && qv[j].0 == kk && qv[j].1.contains(v);
        assert(qv2[j].0 == kk && qv2[j].1.contains(v));
        assert(tags_has(qv2, kk, v));
    }
    if tags_match(rv, qv2) {
        let (kk, v) = choose|kk: Seq<char>, v: Seq<char>|
            tags_has(rv, kk, v) && tags_has(qv2, kk, v);
        let j = choose|j: int| 0 <= j < qv2.len() && qv2[j].0 == kk && qv2[j].1.contains(v);
        if j < qv.len() {
            assert(qv[j].0 == kk && qv[j].1.contains(v));
            assert(tags_has(qv, kk, v));
        } else {
            assert(qv2[j] == (k, vs));
            let x = choose|x: int| 0 <= x < rv.len() && rv[x].0 == kk && rv[x].1.contains(v);
            assert(false);
        }
    }
}

/// The tag filter's selection is unchanged when a key that appears in no row
/// of the column is added to the query tag set.
pub proof fn lemma_filter_unrelated_key(
    rows: Seq<TagSet>,
    cand: Seq<u32>,
    q: TagSet,
    q2: TagSet,
    k: Seq<char>,
    vs: Seq<Seq<char>>,
)
    requires
        tags_view(q2) == tags_view(q).push((k, vs)),
        forall|r: int, x: int|
            0 <= r < rows.len() && 0 <= x < tags_view(rows[r]).len() ==> (#[trigger] tags_view(
                rows[r],
            )[x]).0 != k,
        forall|u: u32| cand.contains(u) ==> (u as int) < rows.len(),
    ensures
        cand.filter(tag_matches_at(rows, q2)) == cand.filter(tag_matches_at(rows, q)),
{
    assert forall|u: u32| cand.contains(u) implies tag_matches_at(rows, q2)(u) == tag_matches_at(
        rows,
        q,
    )(u) by {
        lemma_unrelated_key(rows, q, q2, k, vs, u as int);
    }
    crate::rowsel::lemma_filter_agree(cand, tag_matches_at(rows, q2), tag_matches_at(rows, q));
}

/// A four-row tag column fixture: two `postgres` rows, one `tomcat` row and
/// one `zookeeper` row, with shard, version and server tags.
pub fn get_dummy_tag_col() -> (r: TagCol)
    ensures
        r.rows@.len() == 4,
        tags_view(r.rows@[0]) == seq![
            ("shard"@, seq!["0"@, "59"@]),
            ("version"@, seq!["9.3"@]),
            ("app"@, seq!["postgres"@]),
            ("server"@, seq!["192.168.0.1"@]),
        ],
        tags_view(r.rows@[1]) == seq![
            ("shard"@, seq!["23"@, "36"@]),
            ("version"@, seq!["1.0"@]),
            ("app"@, seq!["tomcat"@]),
            ("server"@, seq!["192.168.0.1"@]),
        ],
        tags_view(r.rows@[2]) == seq![
            ("shard"@, seq!["56"@, "6"@]),
            ("version"@, seq!["5.0"@]),
            ("app"@, seq!["zookeeper"@]),
        ],
        tags_view(r.rows@[3]) == seq![
            ("shard"@, seq!["0"@, "59"@]),
            ("version"@, seq!["8.4"@]),
            ("app"@, seq!["postgres"@]),
        ],
{
    let mut tag1 = TagSet::new();
    tag1.insert("shard", &vec!["0", "59"]);
    tag1.insert("version", &vec!["9.3"]);
    tag1.insert("app", &vec!["postgres"]);
    tag1.insert("server", &vec!["192.168.0.1"]);
    proof {
        assert(tags_view(tag1) =~~= seq![
            ("shard"@, seq!["0"@, "59"@]),
            ("version"@, seq!["9.3"@]),
            ("app"@, seq!["postgres"@]),
            ("server"@, seq!["192.168.0.1"@]),
        ]);
    }

    let mut tag2 = TagSet::new();
    tag2.insert("shard", &vec!["23", "36"]);
    tag2.insert("version", &vec!["1.0"]);
    tag2.insert("app", &vec!["tomcat"]);
    tag2.insert("server", &vec!["192.168.0.1"]);
    proof {
        assert(tags_view(tag2) =~~= seq![
            ("shard"@, seq!["23"@, "36"@]),
            ("version"@, seq!["1.0"@]),
            ("app"@, seq!["tomcat"@]),
            ("server"@, seq!["192.168.0.1"@]),
        ]);
    }

    let mut tag3 = TagSet::new();
    tag3.insert("shard", &vec!["56", "6"]);
    tag3.insert("version", &vec!["5.0"]);
    tag3.insert("app", &vec!["zookeeper"]);
    proof {
        assert(tags_view(tag3) =~~= seq![
            ("shard"@, seq!["56"@, "6"@]),
            ("version"@, seq!["5.0"@]),
            ("app"@, seq!["zookeeper"@]),
        ]);
    }

    let mut tag4 = TagSet::new();
    tag4.insert("shard", &vec!["0", "59"]);
    tag4.insert("version", &vec!["8.4"]);
    tag4.insert("app", &vec!["postgres"]);
    proof {
        assert(tags_view(tag4) =~~= seq![
            ("shard"@, seq!["0"@, "59"@]),
            ("version"@, seq!["8.4"@]),
            ("app"@, seq!["postgres"@]),
        ]);
    }

    let mut tag_col = TagCol::new();
    tag_col.append(tag1);
    tag_col.append(tag2);
    tag_col.append(tag3);
    tag_col.append(tag4);

    tag_col
}

} // verus!
