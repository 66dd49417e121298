//! Summary statistics over the whole catalog: the city count, the mean
//! temperature rounded to tenths of a degree, the hottest and coldest
//! cities, and the full list of records in the requested order.

use vstd::prelude::*;

use vstd::arithmetic::div_mod::{
    lemma_div_is_ordered, lemma_div_pos_is_pos, lemma_fundamental_div_mod_converse,
};

use crate::catalog::WeatherCatalog;
use crate::lookup::ValidationError;
use crate::record::{RecordModel, WeatherData};
use crate::sorting::{SortKey, insert_stable, lemma_deep_view_index, sort_entries, sort_stable};

verus! {

/// The statistics computed over the catalog. The mean temperature is
/// carried in tenths of a degree, so that it stays exact.
#[derive(Debug)]
pub struct StatsSummary {
    pub total_cities: usize,
    pub average_temp_tenths: i64,
    pub hottest_city: String,
    pub coldest_city: String,
    pub cities: Vec<WeatherData>,
}

/// The sum of all temperatures in a sequence of records.
pub open spec fn sum_temp(s: Seq<RecordModel>) -> int
    decreases s.len(),
{
    if s.len() == 0 {
        0
    } else {
        sum_temp(s.drop_last()) + s.last().temperature
    }
}

/// Round-half-away-from-zero of the rational `v / n`, for `n > 0`.
pub open spec fn round_half_away(v: int, n: int) -> int {
    if v >= 0 {
        (2 * v + n) / (2 * n)
    } else {
        -((2 * -v + n) / (2 * n))
    }
}

/// The mean temperature of a non-empty sequence, in tenths of a
/// degree, rounded half away from zero.
pub open spec fn average_tenths(s: Seq<RecordModel>) -> int {
    round_half_away(10 * sum_temp(s), s.len() as int)
}

/// Stable insertion adds exactly the inserted temperature to the sum.
pub proof fn lemma_sum_insert_stable(s: Seq<RecordModel>, e: RecordModel, k: SortKey)
    ensures
        sum_temp(insert_stable(s, e, k)) == sum_temp(s) + e.temperature,
    decreases s.len(),
{
    let r = insert_stable(s, e, k);
    if s.len() == 0 {
        assert(r == seq![e]);
        assert(r.drop_last() =~= Seq::<RecordModel>::empty());
        assert(sum_temp(r) == sum_temp(r.drop_last()) + r.last().temperature);
    } else if crate::sorting::key_le(k, s.last(), e) {
        assert(r == s.push(e));
        assert(r.drop_last() =~= s);
        assert(sum_temp(r) == sum_temp(r.drop_last()) + r.last().temperature);
    } else {
        lemma_sum_insert_stable(s.drop_last(), e, k);
        let inner = insert_stable(s.drop_last(), e, k);
        assert(r == inner.push(s.last()));
        assert(r.drop_last() =~= inner);
        assert(sum_temp(r) == sum_temp(r.drop_last()) + r.last().temperature);
        assert(sum_temp(s) == sum_temp(s.drop_last()) + s.last().temperature);
    }
}

/// Law: sorting does not affect the temperature aggregate.
pub proof fn lemma_sort_keeps_sum(s: Seq<RecordModel>, k: SortKey)
    ensures
        sum_temp(sort_stable(s, k)) == sum_temp(s),
    decreases s.len(),
{
    if s.len() > 0 {
        lemma_sort_keeps_sum(s.drop_last(), k);
        lemma_sum_insert_stable(sort_stable(s.drop_last(), k), s.last(), k);
    }
}

/// Law: no sort order can change the rounded mean temperature.
pub proof fn lemma_sort_keeps_average(s: Seq<RecordModel>, k: SortKey)
    ensures
        average_tenths(sort_stable(s, k)) == average_tenths(s),
{
    lemma_sort_keeps_sum(s, k);
    crate::sorting::lemma_sort_stable_sorted(s, k);
}

/// The index of the first entry with the maximal temperature.
pub open spec fn first_max_idx(s: Seq<RecordModel>) -> int
    decreases s.len(),
{
    if s.len() <= 1 {
        0
    } else {
        let r = first_max_idx(s.drop_last());
        if s.last().temperature > s[r].temperature {
            s.len() - 1
        } else {
            r
        }
    }
}

/// The index of the first entry with the minimal temperature.
pub open spec fn first_min_idx(s: Seq<RecordModel>) -> int
    decreases s.len(),
{
    if s.len() <= 1 {
        0
    } else {
        let r = first_min_idx(s.drop_last());
        if s.last().temperature < s[r].temperature {
            s.len() - 1
        } else {
            r
        }
    }
}

/// Law: the hottest index lies in the sequence, no temperature exceeds
/// its temperature, and every earlier entry is strictly colder — the
/// tie between equally hot cities goes to the first in catalog order.
pub proof fn lemma_first_max(s: Seq<RecordModel>)
    requires
        s.len() > 0,
    ensures
        0 <= first_max_idx(s) < s.len(),
        forall|i: int| 0 <= i < s.len() ==> (#[trigger] s[i]).temperature <= s[first_max_idx(
            s,
        )].temperature,
        forall|i: int| 0 <= i < first_max_idx(s) ==> (#[trigger] s[i]).temperature < s[
            first_max_idx(s)].temperature,
    decreases s.len(),
{
    if s.len() > 1 {
        lemma_first_max(s.drop_last());
        assert(forall|i: int| 0 <= i < s.len() - 1 ==> #[trigger] s[i] == s.drop_last()[i]);
    }
}

/// Law: the coldest index lies in the sequence, no temperature is
/// below its temperature, and every earlier entry is strictly hotter.
pub proof fn lemma_first_min(s: Seq<RecordModel>)
    requires
        s.len() > 0,
    ensures
        0 <= first_min_idx(s) < s.len(),
        forall|i: int| 0 <= i < s.len() ==> (#[trigger] s[i]).temperature >= s[first_min_idx(
            s,
        )].temperature,
        forall|i: int| 0 <= i < first_min_idx(s) ==> (#[trigger] s[i]).temperature > s[
            first_min_idx(s)].temperature,
    decreases s.len(),
{
    if s.len() > 1 {
        lemma_first_min(s.drop_last());
        assert(forall|i: int| 0 <= i < s.len() - 1 ==> #[trigger] s[i] == s.drop_last()[i]);
    }
}

/// The rounded mean in tenths stays within ten times the largest
/// magnitude an `i32` temperature can have, so it fits an `i64`.
proof fn lemma_round_bounded(v: int, n: int)
    requires
        n > 0,
        -n * 0x5_0000_0000 <= v <= n * 0x5_0000_0000,
    ensures
        -0x5_0000_0000 <= round_half_away(v, n) <= 0x5_0000_0000,
{
    lemma_fundamental_div_mod_converse(n * 0xA_0000_0000 + n, 2 * n, 0x5_0000_0000, n);
    if v >= 0 {
        lemma_div_pos_is_pos(2 * v + n, 2 * n);
        lemma_div_is_ordered(2 * v + n, n * 0xA_0000_0000 + n, 2 * n);
    } else {
        lemma_div_pos_is_pos(2 * -v + n, 2 * n);
        lemma_div_is_ordered(2 * -v + n, n * 0xA_0000_0000 + n, 2 * n);
    }
}

impl WeatherCatalog {
    /// Computes the statistics over the whole catalog. The record list
    /// comes back stably sorted under the requested key; the count,
    /// the rounded mean temperature and the hottest and coldest cities
    /// are taken from the catalog itself, so no sort order can change
    /// them. Fails only on an empty catalog, which the built-in
    /// constructor never produces.
    pub fn compute(&self, sort: SortKey) -> (r: Result<StatsSummary, ValidationError>)
        ensures
            self@.len() == 0 ==> (r matches Err(e) && e == ValidationError::EmptyCatalog),
            self@.len() > 0 ==> (r matches Ok(st) && st.total_cities == self@.len()
                && st.average_temp_tenths == average_tenths(self@) && st.hottest_city@ == self@[
                first_max_idx(self@)].city && st.coldest_city@ == self@[first_min_idx(self@)].city
                && st.cities.deep_view() == sort_stable(self@, sort)),
    {
        let entries = self.entries();
        let n = entries.len();
        if n == 0 {
            return Err(ValidationError::EmptyCatalog);
        }
        // A copy of the catalog, to be sorted as requested.
        let mut data = self.entries_copy();
        sort_entries(&mut data, sort);

        // The temperature sum, exact in a wide integer.
        let mut sum: i128 = 0;
        let mut i: usize = 0;
        while i < n
            invariant
                n == entries@.len(),
                entries.deep_view() == self@,
                i <= n,
                sum == sum_temp(self@.take(i as int)),
                -(i as int) * 0x8000_0000 <= sum <= (i as int) * 0x8000_0000,
            decreases n - i,
        {
            proof {
                lemma_deep_view_index(entries, i as int);
                assert(self@.take(i + 1).drop_last() =~= self@.take(i as int));
            }
            sum = sum + entries[i].temperature as i128;
            i += 1;
        }
        proof {
            assert(self@.take(n as int) =~= self@);
        }

        // The first hottest and first coldest entries, in catalog order.
        let mut hi: usize = 0;
        let mut lo: usize = 0;
        let mut i: usize = 1;
        proof {
            assert(self@.take(1).len() == 1);
        }
        while i < n
            invariant
                n == entries@.len(),
                entries.deep_view() == self@,
                1 <= i <= n,
                hi < i,
                lo < i,
                hi as int == first_max_idx(self@.take(i as int)),
                lo as int == first_min_idx(self@.take(i as int)),
            decreases n - i,
        {
            proof {
                lemma_deep_view_index(entries, i as int);
                lemma_deep_view_index(entries, hi as int);
                lemma_deep_view_index(entries, lo as int);
                assert(self@.take(i + 1).drop_last() =~= self@.take(i as int));
            }
            if entries[i].temperature > entries[hi].temperature {
                hi = i;
            }
            if entries[i].temperature < entries[lo].temperature {
                lo = i;
            }
            i += 1;
        }
        proof {
            assert(self@.take(n as int) =~= self@);
        }

        // The rounded mean, in tenths of a degree.
        let v: i128 = 10 * sum;
        let nn: i128 = n as i128;
        proof {
            lemma_round_bounded(v as int, nn as int);
        }
        let tenths: i64 = if v >= 0 {
            ((2 * v + nn) / (2 * nn)) as i64
        } else {
            (-((2 * -v + nn) / (2 * nn))) as i64
        };

        proof {
            lemma_deep_view_index(entries, hi as int);
            lemma_deep_view_index(entries, lo as int);
        }
        Ok(
            StatsSummary {
                total_cities: n,
                average_temp_tenths: tenths,
                hottest_city: entries[hi].city.clone(),
                coldest_city: entries[lo].city.clone(),
                cities: data,
            },
        )
    }
}

} // verus!
