//! The listing of a directory: its entries in the order of their names.

use crate::text::{models, to_chars};
use vstd::prelude::*;

verus! {

/// An entry of a directory.
#[derive(Debug, Clone, PartialEq, Eq)]
pub struct DirEntry {
    pub name: String,
    pub is_dir: bool,
}

/// The model of a [`DirEntry`].
pub struct DirEntryModel {
    pub name: Seq<char>,
    pub is_dir: bool,
}

impl View for DirEntry {
    type V = DirEntryModel;

    open spec fn view(&self) -> DirEntryModel {
        DirEntryModel { name: self.name@, is_dir: self.is_dir }
    }
}

/// Whether the name `a` comes before `b` or is `b`, going by what follows position `i`
/// in both: the first character in which they differ decides, by its number in Unicode,
/// and a name that ends first comes first.
pub open spec fn name_le_from(a: Seq<char>, b: Seq<char>, i: int) -> bool
    decreases a.len() - i,
{
    if i < 0 || i >= a.len() {
        true
    } else if i >= b.len() {
        false
    } else if a[i] != b[i] {
        (a[i] as u32) < (b[i] as u32)
    } else {
        name_le_from(a, b, i + 1)
    }
}

/// Whether the name `a` comes before `b` or is `b`.
pub open spec fn name_le(a: Seq<char>, b: Seq<char>) -> bool {
    name_le_from(a, b, 0)
}

/// Whether the name `a` comes before `b` or is `b`.
pub fn comes_first(a: &str, b: &str) -> (r: bool)
    ensures
        r == name_le(a@, b@),
{
    let x = to_chars(a);
    let y = to_chars(b);
    let mut i: usize = 0;
    while i < x.len()
        invariant
            i <= x.len(),
            x@ == a@,
            y@ == b@,
            name_le(a@, b@) == name_le_from(a@, b@, i as int),
        decreases x.len() - i,
    {
        if i >= y.len() {
            return false;
        }
        if x[i] != y[i] {
            return (x[i] as u32) < (y[i] as u32);
        }
        i += 1;
    }
    true
}

/// The list `s`, which is in order, with `e` put in: after the last entry whose name
/// comes before `e`'s or is `e`'s, so that entries of one name stay in the order in
/// which they came.
pub open spec fn put_in(s: Seq<DirEntryModel>, e: DirEntryModel) -> Seq<DirEntryModel>
    decreases s.len(),
{
    if s.len() == 0 {
        seq![e]
    } else if name_le(s.last().name, e.name) {
        s.push(e)
    } else {
        put_in(s.drop_last(), e).push(s.last())
    }
}

/// The first `n` of `entries`, put in order one after the other.
pub open spec fn in_order(entries: Seq<DirEntryModel>, n: int) -> Seq<DirEntryModel>
    decreases n,
{
    if n <= 0 {
        Seq::empty()
    } else {
        put_in(in_order(entries, n - 1), entries[n - 1])
    }
}

/// The entries in the order of their names; entries of one name in the order in which
/// they came.
pub open spec fn sorted_by_name(entries: Seq<DirEntryModel>) -> Seq<DirEntryModel> {
    in_order(entries, entries.len() as int)
}

/// Putting `e` in puts it at the place `p`, where the entry before `p` does not come
/// after `e` and all entries from `p` on do.
proof fn lemma_put_in_at(s: Seq<DirEntryModel>, e: DirEntryModel, p: int)
    requires
        0 <= p <= s.len(),
        p > 0 ==> name_le(s[p - 1].name, e.name),
        forall|j: int| p <= j < s.len() ==> !name_le((#[trigger] s[j]).name, e.name),
    ensures
        put_in(s, e) == s.insert(p, e),
    decreases s.len(),
{
    if s.len() == 0 {
        assert(s.insert(p, e) =~= seq![e]);
    } else if p == s.len() {
        assert(s.insert(p, e) =~= s.push(e));
    } else {
        assert(!name_le(s[s.len() - 1].name, e.name));
        let rest = s.drop_last();
        assert forall|j: int| p <= j < rest.len() implies !name_le(
            (#[trigger] rest[j]).name,
            e.name,
        ) by {
            assert(rest[j] == s[j]);
        }
        lemma_put_in_at(rest, e, p);
        assert(rest.insert(p, e).push(s.last()) =~= s.insert(p, e));
    }
}

/// Puts the entries of a directory in the order of their names.
pub fn sort_entries(entries: Vec<DirEntry>) -> (out: Vec<DirEntry>)
    ensures
        models(out@) == sorted_by_name(models(entries@)),
{
    let ghost all = models(entries@);
    let mut out: Vec<DirEntry> = Vec::new();
    let mut entries = entries;
    let mut rest: Vec<DirEntry> = Vec::new();
    let mut n: usize = 0;
    let total = entries.len();
    // The entries are taken from the end; `rest` then holds them in reverse.
    while entries.len() > 0
        invariant
            entries@.len() + rest@.len() == total,
            total == all.len(),
            models(entries@) == all.take(entries@.len() as int),
            forall|k: int|
                0 <= k < rest@.len() ==> (#[trigger] rest@[k])@ == all[total - 1 - k],
        decreases entries.len(),
    {
        let ghost before = models(entries@);
        let e = entries.pop().unwrap();
        assert(e@ == before[before.len() - 1]);
        assert(models(entries@) =~= all.take(entries@.len() as int));
        rest.push(e);
    }
    assert(models(out@) =~= in_order(all, 0));
    while rest.len() > 0
        invariant
            n + rest@.len() == total,
            total == all.len(),
            models(out@) == in_order(all, n as int),
            out@.len() == n,
            forall|k: int|
                0 <= k < rest@.len() ==> (#[trigger] rest@[k])@ == all[total - 1 - k],
        decreases rest.len(),
    {
        let e = rest.pop().unwrap();
        assert(e@ == all[n as int]);
        let ghost sorted = models(out@);
        let mut p: usize = out.len();
        while p > 0 && !comes_first(out[p - 1].name.as_str(), e.name.as_str())
            invariant
                p <= out@.len(),
                sorted == models(out@),
                forall|j: int| p <= j < sorted.len() ==> !name_le((#[trigger] sorted[j]).name, e@.name),
            decreases p,
        {
            assert(sorted[p - 1] == out@[p - 1]@);
            p -= 1;
        }
        proof {
            if p > 0 {
                assert(sorted[p - 1] == out@[p - 1]@);
            }
            lemma_put_in_at(sorted, e@, p as int);
        }
        out.insert(p, e);
        assert(models(out@) =~= sorted.insert(p as int, e@));
        n += 1;
    }
    out
}

/// Whether the names of `s` are in order.
pub open spec fn ordered(s: Seq<DirEntryModel>) -> bool {
    forall|i: int, j: int|
        0 <= i < j < s.len() ==> name_le((#[trigger] s[i]).name, (#[trigger] s[j]).name)
}

/// Of two names, one comes before the other or is the other.
proof fn lemma_name_le_total(a: Seq<char>, b: Seq<char>, i: int)
    requires
        0 <= i,
    ensures
        name_le_from(a, b, i) || name_le_from(b, a, i),
    decreases a.len() - i,
{
    if i < a.len() && i < b.len() {
        if a[i] == b[i] {
            lemma_name_le_total(a, b, i + 1);
        } else {
            assert(a[i] as u32 != b[i] as u32) by {
                vstd::utf8::char_u32_cast(a[i], a[i] as u32);
                vstd::utf8::char_u32_cast(b[i], b[i] as u32);
            }
        }
    }
}

/// A name that does not come after a second, which does not come after a third, does
/// not come after the third.
proof fn lemma_name_le_transitive(a: Seq<char>, b: Seq<char>, c: Seq<char>, i: int)
    requires
        0 <= i,
        name_le_from(a, b, i),
        name_le_from(b, c, i),
    ensures
        name_le_from(a, c, i),
    decreases a.len() - i,
{
    if i < a.len() {
        if a[i] == b[i] && b[i] == c[i] {
            lemma_name_le_transitive(a, b, c, i + 1);
        }
    }
}

/// Where putting `e` into a list in order puts it: at a place that all entries up to
/// `e`'s name stand before and all later names stand after.
proof fn lemma_put_in_place(s: Seq<DirEntryModel>, e: DirEntryModel) -> (p: int)
    ensures
        0 <= p <= s.len(),
        put_in(s, e) == s.insert(p, e),
        p > 0 ==> name_le(s[p - 1].name, e.name),
        forall|j: int| p <= j < s.len() ==> !name_le((#[trigger] s[j]).name, e.name),
    decreases s.len(),
{
    if s.len() == 0 {
        assert(s.insert(0, e) =~= seq![e]);
        0
    } else if name_le(s.last().name, e.name) {
        assert(s.insert(s.len() as int, e) =~= s.push(e));
        s.len() as int
    } else {
        let rest = s.drop_last();
        let p = lemma_put_in_place(rest, e);
        assert(rest.insert(p, e).push(s.last()) =~= s.insert(p, e));
        assert forall|j: int| p <= j < s.len() implies !name_le((#[trigger] s[j]).name, e.name) by {
            if j < rest.len() {
                assert(rest[j] == s[j]);
            }
        }
        if p > 0 {
            assert(rest[p - 1] == s[p - 1]);
        }
        p
    }
}

/// Putting an entry into a list in order leaves the list in order.
proof fn lemma_put_in_keeps_order(s: Seq<DirEntryModel>, e: DirEntryModel)
    requires
        ordered(s),
    ensures
        ordered(put_in(s, e)),
{
    let p = lemma_put_in_place(s, e);
    let r = s.insert(p, e);
    assert forall|i: int, j: int| 0 <= i < j < r.len() implies name_le(
        (#[trigger] r[i]).name,
        (#[trigger] r[j]).name,
    ) by {
        if j < p {
            assert(r[i] == s[i] && r[j] == s[j]);
        } else if j == p {
            assert(r[i] == s[i]);
            if i < p - 1 {
                assert(name_le(s[i].name, s[p - 1].name));
                lemma_name_le_transitive(s[i].name, s[p - 1].name, e.name, 0);
            }
        } else if i == p {
            assert(r[j] == s[j - 1]);
            lemma_name_le_total(s[j - 1].name, e.name, 0);
        } else if i > p {
            assert(r[i] == s[i - 1] && r[j] == s[j - 1]);
        } else {
            assert(r[i] == s[i] && r[j] == s[j - 1]);
        }
    }
}

/// The entries of a listing come out in the order of their names, and they are the
/// entries that went in, each as often as it went in.
pub proof fn lemma_sorted_by_name(entries: Seq<DirEntryModel>, n: int)
    requires
        0 <= n <= entries.len(),
    ensures
        ordered(in_order(entries, n)),
        in_order(entries, n).to_multiset() == entries.take(n).to_multiset(),
    decreases n,
{
    if n > 0 {
        lemma_sorted_by_name(entries, n - 1);
        let before = in_order(entries, n - 1);
        let e = entries[n - 1];
        lemma_put_in_keeps_order(before, e);
        let p = lemma_put_in_place(before, e);
        vstd::seq_lib::to_multiset_insert(before, p, e);
        assert(entries.take(n) =~= entries.take(n - 1).push(e));
        vstd::seq_lib::to_multiset_build(entries.take(n - 1), e);
    } else {
        assert(in_order(entries, 0) =~= entries.take(0));
    }
}

/// The entries among the first `n` of `s` that go by `name`, in their order.
pub open spec fn named(s: Seq<DirEntryModel>, name: Seq<char>, n: int) -> Seq<DirEntryModel>
    decreases n,
{
    if n <= 0 {
        Seq::empty()
    } else if s[n - 1].name == name {
        named(s, name, n - 1).push(s[n - 1])
    } else {
        named(s, name, n - 1)
    }
}

/// A name comes before itself or is itself.
proof fn lemma_name_le_reflexive(a: Seq<char>, i: int)
    requires
        0 <= i,
    ensures
        name_le_from(a, a, i),
    decreases a.len() - i,
{
    if i < a.len() {
        lemma_name_le_reflexive(a, i + 1);
    }
}

/// Lists that agree in their first `n` entries hold the same entries of a name there.
proof fn lemma_named_agrees(s: Seq<DirEntryModel>, t: Seq<DirEntryModel>, name: Seq<char>, n: int)
    requires
        0 <= n <= s.len(),
        n <= t.len(),
        forall|i: int| 0 <= i < n ==> s[i] == t[i],
    ensures
        named(s, name, n) == named(t, name, n),
    decreases n,
{
    if n > 0 {
        lemma_named_agrees(s, t, name, n - 1);
    }
}

/// An entry that is put in before entries of other names only comes last among the
/// entries of its name, and leaves the entries of every other name as they were.
proof fn lemma_named_after_insert(
    s: Seq<DirEntryModel>,
    p: int,
    e: DirEntryModel,
    name: Seq<char>,
    k: int,
)
    requires
        0 <= p <= k <= s.len(),
        forall|j: int| p <= j < s.len() ==> (#[trigger] s[j]).name != e.name,
    ensures
        named(s.insert(p, e), name, k + 1) == if e.name == name {
            named(s, name, k).push(e)
        } else {
            named(s, name, k)
        },
    decreases k - p,
{
    let r = s.insert(p, e);
    if k == p {
        assert(r[p] == e);
        assert forall|i: int| 0 <= i < p implies r[i] == s[i] by {}
        lemma_named_agrees(r, s, name, p);
    } else {
        lemma_named_after_insert(s, p, e, name, k - 1);
        assert(r[k] == s[k - 1]);
    }
}

/// Entries of one name come out of the sorting in the order in which they went in.
pub proof fn lemma_sorted_by_name_is_stable(entries: Seq<DirEntryModel>, name: Seq<char>, n: int)
    requires
        0 <= n <= entries.len(),
    ensures
        in_order(entries, n).len() == n,
        named(in_order(entries, n), name, n) == named(entries, name, n),
    decreases n,
{
    if n > 0 {
        lemma_sorted_by_name_is_stable(entries, name, n - 1);
        let before = in_order(entries, n - 1);
        let e = entries[n - 1];
        let p = lemma_put_in_place(before, e);
        assert forall|j: int| p <= j < before.len() implies (#[trigger] before[j]).name
            != e.name by {
            lemma_name_le_reflexive(e.name, 0);
        }
        lemma_named_after_insert(before, p, e, name, n - 1);
    }
}

} // verus!
