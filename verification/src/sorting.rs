//! The client-selectable sort order and a stable insertion sort whose
//! result is pinned down exactly: each element is inserted after every
//! earlier element that compares less-or-equal, so entries with equal
//! keys keep their input order.

use vstd::prelude::*;

use crate::record::{RecordModel, WeatherData};
use crate::strs::{lex_le, lex_le_exec, lemma_lex_le_total, lemma_lex_le_trans, str_eq};

verus! {

/// The sort order a client may ask of the statistics endpoint.
/// `Unsorted` keeps catalog insertion order.
#[derive(Clone, Copy, PartialEq, Eq, Structural, Debug)]
pub enum SortKey {
    Unsorted,
    Temperature,
    Name,
    Humidity,
    Wind,
}

/// The sort order named by a query string: "temp" and "temperature"
/// sort by temperature, "name" and "city" by city name, "humidity"
/// and "wind" by those fields, and anything else keeps catalog order.
pub open spec fn sort_key_of_query(s: Seq<char>) -> SortKey {
    if s == "temp"@ || s == "temperature"@ {
        SortKey::Temperature
    } else if s == "name"@ || s == "city"@ {
        SortKey::Name
    } else if s == "humidity"@ {
        SortKey::Humidity
    } else if s == "wind"@ {
        SortKey::Wind
    } else {
        SortKey::Unsorted
    }
}

impl SortKey {
    /// Parses the `sort` query value into a sort order.
    pub fn from_query(s: &str) -> (k: SortKey)
        ensures
            k == sort_key_of_query(s@),
    {
        if str_eq(s, "temp") || str_eq(s, "temperature") {
            SortKey::Temperature
        } else if str_eq(s, "name") || str_eq(s, "city") {
            SortKey::Name
        } else if str_eq(s, "humidity") {
            SortKey::Humidity
        } else if str_eq(s, "wind") {
            SortKey::Wind
        } else {
            SortKey::Unsorted
        }
    }
}

/// The ordering each sort key induces on records.
pub open spec fn key_le(k: SortKey, a: RecordModel, b: RecordModel) -> bool {
    match k {
        SortKey::Unsorted => true,
        SortKey::Temperature => a.temperature <= b.temperature,
        SortKey::Name => lex_le(a.city, b.city),
        SortKey::Humidity => a.humidity <= b.humidity,
        SortKey::Wind => a.wind_speed <= b.wind_speed,
    }
}

/// Every sort key orders records totally.
pub proof fn lemma_key_le_total(k: SortKey, a: RecordModel, b: RecordModel)
    ensures
        key_le(k, a, b) || key_le(k, b, a),
{
    if k is Name {
        lemma_lex_le_total(a.city, b.city);
    }
}

/// Every sort key's ordering is transitive.
pub proof fn lemma_key_le_trans(k: SortKey, a: RecordModel, b: RecordModel, c: RecordModel)
    requires
        key_le(k, a, b),
        key_le(k, b, c),
    ensures
        key_le(k, a, c),
{
    if k is Name {
        lemma_lex_le_trans(a.city, b.city, c.city);
    }
}

/// Decides `key_le` on two records.
pub fn key_le_exec(k: SortKey, a: &WeatherData, b: &WeatherData) -> (r: bool)
    ensures
        r == key_le(k, a@, b@),
{
    match k {
        SortKey::Unsorted => true,
        SortKey::Temperature => a.temperature <= b.temperature,
        SortKey::Name => lex_le_exec(a.city.as_str(), b.city.as_str()),
        SortKey::Humidity => a.humidity <= b.humidity,
        SortKey::Wind => a.wind_speed <= b.wind_speed,
    }
}

/// A sequence is sorted under a key when every earlier element
/// compares less-or-equal to every later one.
pub open spec fn sorted_by_key(s: Seq<RecordModel>, k: SortKey) -> bool {
    forall|i: int, j: int| 0 <= i < j < s.len() ==> key_le(k, s[i], s[j])
}

/// Stable insertion: the new element lands after every element that
/// compares less-or-equal to it.
pub open spec fn insert_stable(s: Seq<RecordModel>, e: RecordModel, k: SortKey) -> Seq<
    RecordModel,
>
    decreases s.len(),
{
    if s.len() == 0 {
        seq![e]
    } else if key_le(k, s.last(), e) {
        s.push(e)
    } else {
        insert_stable(s.drop_last(), e, k).push(s.last())
    }
}

/// The stable sort of a sequence under a key, defined as insertion
/// sort from the left.
pub open spec fn sort_stable(s: Seq<RecordModel>, k: SortKey) -> Seq<RecordModel>
    decreases s.len(),
{
    if s.len() == 0 {
        s
    } else {
        insert_stable(sort_stable(s.drop_last(), k), s.last(), k)
    }
}

/// Stable insertion adds exactly one element, and every element of the
/// result is the inserted one or one of the input.
pub proof fn lemma_insert_stable_elems(s: Seq<RecordModel>, e: RecordModel, k: SortKey)
    ensures
        insert_stable(s, e, k).len() == s.len() + 1,
        forall|i: int|
            0 <= i < insert_stable(s, e, k).len() ==> (#[trigger] insert_stable(s, e, k)[i] == e
                || s.contains(insert_stable(s, e, k)[i])),
    decreases s.len(),
{
    if s.len() > 0 && !key_le(k, s.last(), e) {
        lemma_insert_stable_elems(s.drop_last(), e, k);
        assert forall|i: int| 0 <= i < insert_stable(s, e, k).len() implies (
        #[trigger] insert_stable(s, e, k)[i] == e || s.contains(insert_stable(s, e, k)[i])) by {
            let r = insert_stable(s, e, k);
            let inner = insert_stable(s.drop_last(), e, k);
            if i < inner.len() {
                if inner[i] != e {
                    let m = choose|m: int|
                        0 <= m < s.drop_last().len() && s.drop_last()[m] == inner[i];
                    assert(s[m] == inner[i]);
                }
            } else {
                assert(r[i] == s.last());
                assert(s[s.len() - 1] == s.last());
            }
        }
    }
}

/// Inserting into a sorted sequence keeps it sorted.
pub proof fn lemma_insert_stable_sorted(s: Seq<RecordModel>, e: RecordModel, k: SortKey)
    requires
        sorted_by_key(s, k),
    ensures
        sorted_by_key(insert_stable(s, e, k), k),
    decreases s.len(),
{
    let r = insert_stable(s, e, k);
    if s.len() == 0 {
    } else if key_le(k, s.last(), e) {
        assert forall|i: int, j: int| 0 <= i < j < r.len() implies key_le(k, r[i], r[j]) by {
            if j == r.len() - 1 {
                if i < s.len() - 1 {
                    lemma_key_le_trans(k, s[i], s[s.len() - 1], e);
                }
            }
        }
    } else {
        lemma_key_le_total(k, s.last(), e);
        lemma_insert_stable_sorted(s.drop_last(), e, k);
        lemma_insert_stable_elems(s.drop_last(), e, k);
        let inner = insert_stable(s.drop_last(), e, k);
        assert forall|i: int, j: int| 0 <= i < j < r.len() implies key_le(k, r[i], r[j]) by {
            if j == r.len() - 1 {
                assert(r[j] == s.last());
                if inner[i] == e {
                    assert(key_le(k, e, s.last()));
                } else {
                    let m = choose|m: int|
                        0 <= m < s.drop_last().len() && s.drop_last()[m] == inner[i];
                    if m < s.len() - 1 {
                        assert(key_le(k, s[m], s[s.len() - 1]));
                    }
                    assert(s.last() == s[s.len() - 1]);
                }
            }
        }
    }
}

/// The stable sort keeps the length and yields a sorted sequence.
pub proof fn lemma_sort_stable_sorted(s: Seq<RecordModel>, k: SortKey)
    ensures
        sort_stable(s, k).len() == s.len(),
        sorted_by_key(sort_stable(s, k), k),
    decreases s.len(),
{
    if s.len() > 0 {
        lemma_sort_stable_sorted(s.drop_last(), k);
        lemma_insert_stable_sorted(sort_stable(s.drop_last(), k), s.last(), k);
        lemma_insert_stable_elems(sort_stable(s.drop_last(), k), s.last(), k);
    }
}

/// Under `Unsorted` every comparison succeeds, so the stable sort
/// keeps the input exactly.
pub proof fn lemma_sort_unsorted_id(s: Seq<RecordModel>)
    ensures
        sort_stable(s, SortKey::Unsorted) == s,
    decreases s.len(),
{
    if s.len() > 0 {
        lemma_sort_unsorted_id(s.drop_last());
        let inner = sort_stable(s.drop_last(), SortKey::Unsorted);
        if inner.len() == 0 {
            assert(seq![s.last()] =~= s);
        } else {
            assert(inner.push(s.last()) =~= s);
        }
    }
}

/// Where a scan from the left stops is exactly where stable insertion
/// places the element: after every less-or-equal element.
proof fn lemma_insert_stable_at(s: Seq<RecordModel>, e: RecordModel, k: SortKey, j: int)
    requires
        sorted_by_key(s, k),
        0 <= j <= s.len(),
        j == 0 || key_le(k, s[j - 1], e),
        forall|m: int| j <= m < s.len() ==> !key_le(k, #[trigger] s[m], e),
    ensures
        insert_stable(s, e, k) == s.take(j) + seq![e] + s.skip(j),
    decreases s.len(),
{
    if s.len() == 0 {
        assert(insert_stable(s, e, k) =~= s.take(j) + seq![e] + s.skip(j));
    } else if j == s.len() {
        assert(key_le(k, s.last(), e));
        assert(insert_stable(s, e, k) =~= s.take(j) + seq![e] + s.skip(j));
    } else {
        assert(!key_le(k, s[s.len() - 1], e));
        let dl = s.drop_last();
        lemma_insert_stable_at(dl, e, k, j);
        assert(dl.take(j) =~= s.take(j));
        assert((dl.take(j) + seq![e] + dl.skip(j)).push(s.last()) =~= s.take(j) + seq![e] + s.skip(
            j,
        ));
    }
}

/// An element of a deeply viewed vector, seen through the view.
pub proof fn lemma_deep_view_index<T: DeepView>(v: &Vec<T>, i: int)
    requires
        0 <= i < v@.len(),
    ensures
        v.deep_view().len() == v@.len(),
        v.deep_view()[i] == v@[i].deep_view(),
{
}

/// Finds where to insert element `i` into the sorted prefix `0..i`:
/// the first position whose element does not compare less-or-equal.
fn insertion_point(v: &Vec<WeatherData>, k: SortKey, i: usize) -> (j: usize)
    requires
        i < v@.len(),
    ensures
        j <= i,
        forall|m: int| 0 <= m < j ==> key_le(k, #[trigger] v.deep_view()[m], v.deep_view()[i as int]),
        j < i ==> !key_le(k, v.deep_view()[j as int], v.deep_view()[i as int]),
{
    let mut j: usize = 0;
    while j < i
        invariant
            i < v@.len(),
            j <= i,
            forall|m: int|
                0 <= m < j ==> key_le(k, #[trigger] v.deep_view()[m], v.deep_view()[i as int]),
        decreases i - j,
    {
        proof {
            lemma_deep_view_index(v, j as int);
            lemma_deep_view_index(v, i as int);
        }
        if !key_le_exec(k, &v[j], &v[i]) {
            return j;
        }
        j += 1;
    }
    j
}

/// Sorts the entries stably under the given key, in place.
pub fn sort_entries(v: &mut Vec<WeatherData>, k: SortKey)
    ensures
        final(v).deep_view() == sort_stable(old(v).deep_view(), k),
{
    let ghost orig = old(v).deep_view();
    let n = v.len();
    let mut i: usize = 0;
    while i < n
        invariant
            n == v@.len(),
            orig.len() == n,
            i <= n,
            v.deep_view().take(i as int) == sort_stable(orig.take(i as int), k),
            v.deep_view().skip(i as int) == orig.skip(i as int),
        decreases n - i,
    {
        let ghost pre = v.deep_view();
        let ghost sp = pre.take(i as int);
        let ghost em = pre[i as int];
        proof {
            assert(em == orig.skip(i as int)[0]);
            assert(em == orig[i as int]);
        }
        let j = insertion_point(v, k, i);
        proof {
            lemma_sort_stable_sorted(orig.take(i as int), k);
            assert(sorted_by_key(sp, k));
            assert forall|m: int| j <= m < i implies !key_le(k, #[trigger] sp[m], em) by {
                if m > j {
                    lemma_key_le_total(k, sp[m], em);
                    if key_le(k, sp[m], em) {
                        lemma_key_le_trans(k, sp[j as int], sp[m], em);
                    }
                }
            }
            lemma_insert_stable_at(sp, em, k, j as int);
        }
        let e = v.remove(i);
        proof {
            assert(e@ == em);
            assert(v.deep_view() =~= pre.take(i as int) + pre.skip(i + 1));
        }
        v.insert(j, e);
        proof {
            let now = v.deep_view();
            let mid = pre.take(i as int) + pre.skip(i + 1);
            assert(now =~= mid.take(j as int) + seq![em] + mid.skip(j as int));
            assert(now.take(i + 1) =~= sp.take(j as int) + seq![em] + sp.skip(j as int));
            assert(now.take(i + 1) == insert_stable(sp, em, k));
            assert(orig.take(i + 1).drop_last() =~= orig.take(i as int));
            assert(orig.take(i + 1).last() == em);
            assert(now.take(i + 1) == sort_stable(orig.take(i + 1), k));
            assert forall|m: int| i + 1 <= m < n implies now[m] == orig[m] by {
                assert(now[m] == mid.skip(j as int)[m - j - 1]);
                assert(mid[m - 1] == pre.skip(i + 1)[m - 1 - i]);
                assert(pre.skip(i as int)[m - i] == orig.skip(i as int)[m - i]);
            }
            assert(now.skip(i + 1) =~= orig.skip(i + 1));
        }
        i += 1;
    }
    proof {
        assert(v.deep_view().take(n as int) =~= v.deep_view());
        assert(orig.take(n as int) =~= orig);
    }
}

} // verus!
