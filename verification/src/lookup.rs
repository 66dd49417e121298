//! Request validation and city resolution: a list of requested city
//! names becomes one weather record per distinct requested spelling,
//! after the list's size has been checked.

use vstd::prelude::*;

use crate::catalog::{WeatherCatalog, fold_index, record_for};
use crate::record::{RecordModel, WeatherData, default_model};
use crate::sorting::lemma_deep_view_index;
use crate::strs::str_eq;

verus! {

/// The most cities one request may name.
pub const MAX_CITIES: usize = 20;

/// Why a request was rejected.
#[derive(Clone, Copy, PartialEq, Eq, Structural, Debug)]
pub enum ValidationError {
    /// The request named no city at all.
    Empty,
    /// The request named more cities than the allowed maximum;
    /// carries the count that was actually requested.
    TooMany(usize),
    /// Statistics were asked of an empty catalog. Defensive only: the
    /// built-in catalog is never empty.
    EmptyCatalog,
}

/// The message a rejected request is answered with.
pub open spec fn error_message(e: ValidationError) -> Seq<char> {
    match e {
        ValidationError::Empty => "Cities list cannot be empty"@,
        ValidationError::TooMany(n) => "Too many cities requested. Maximum is 20, you requested "@
            + crate::strs::dec_str(n as nat),
        ValidationError::EmptyCatalog => "Weather catalog is empty"@,
    }
}

impl ValidationError {
    /// Renders the human-readable message for this rejection.
    pub fn message(&self) -> (s: String)
        ensures
            s@ == error_message(*self),
    {
        match self {
            ValidationError::Empty => String::from_str("Cities list cannot be empty"),
            ValidationError::TooMany(n) => {
                let s = String::from_str(
                    "Too many cities requested. Maximum is 20, you requested ",
                ).concat(crate::strs::usize_to_string(*n).as_str());
                s
            },
            ValidationError::EmptyCatalog => String::from_str("Weather catalog is empty"),
        }
    }
}

/// What resolution returns for a request list: one record per distinct
/// requested spelling, in order of first occurrence. A spelling that
/// repeats changes nothing, since the record is determined by the
/// spelling alone.
pub open spec fn resolved_list(cat: Seq<RecordModel>, cities: Seq<Seq<char>>) -> Seq<RecordModel>
    decreases cities.len(),
{
    if cities.len() == 0 {
        Seq::empty()
    } else {
        let prev = resolved_list(cat, cities.drop_last());
        let c = cities.last();
        if exists|j: int| 0 <= j < prev.len() && prev[j].city == c {
            prev
        } else {
            prev.push(record_for(cat, c))
        }
    }
}

/// Every resolved record is exactly what the catalog prescribes for
/// its own spelling of the city.
pub proof fn lemma_resolved_records(cat: Seq<RecordModel>, cities: Seq<Seq<char>>)
    ensures
        forall|j: int|
            0 <= j < resolved_list(cat, cities).len() ==> #[trigger] resolved_list(cat, cities)[j]
                == record_for(cat, resolved_list(cat, cities)[j].city),
    decreases cities.len(),
{
    if cities.len() > 0 {
        lemma_resolved_records(cat, cities.drop_last());
        let prev = resolved_list(cat, cities.drop_last());
        let c = cities.last();
        let r = resolved_list(cat, cities);
        assert forall|j: int| 0 <= j < r.len() implies #[trigger] r[j] == record_for(
            cat,
            r[j].city,
        ) by {
            if j < prev.len() {
                assert(r[j] == prev[j]);
            } else {
                assert(r[j] == record_for(cat, c));
                assert(record_for(cat, c).city == c);
            }
        }
    }
}

/// Law: resolution yields exactly one record per distinct requested
/// city. Every requested city is present, under the record the catalog
/// prescribes for it; no two records share a spelling; and nothing
/// besides the requested cities appears.
pub proof fn lemma_resolve_one_per_city(cat: Seq<RecordModel>, cities: Seq<Seq<char>>)
    ensures
        forall|i: int|
            0 <= i < cities.len() ==> exists|j: int|
                0 <= j < resolved_list(cat, cities).len() && resolved_list(cat, cities)[j]
                    == record_for(cat, #[trigger] cities[i]),
        forall|j1: int, j2: int|
            0 <= j1 < j2 < resolved_list(cat, cities).len() ==> resolved_list(cat, cities)[j1].city
                != resolved_list(cat, cities)[j2].city,
        forall|j: int|
            0 <= j < resolved_list(cat, cities).len() ==> exists|i: int|
                0 <= i < cities.len() && cities[i] == #[trigger] resolved_list(cat,
                cities)[j].city,
    decreases cities.len(),
{
    if cities.len() > 0 {
        let prev = resolved_list(cat, cities.drop_last());
        let c = cities.last();
        let r = resolved_list(cat, cities);
        lemma_resolve_one_per_city(cat, cities.drop_last());
        lemma_resolved_records(cat, cities.drop_last());
        assert(forall|i: int| 0 <= i < cities.len() - 1 ==> #[trigger] cities[i]
            == cities.drop_last()[i]);
        assert forall|i: int| 0 <= i < cities.len() implies exists|j: int|
            0 <= j < r.len() && r[j] == record_for(cat, #[trigger] cities[i]) by {
            if i < cities.len() - 1 {
                let j = choose|j: int|
                    0 <= j < prev.len() && prev[j] == record_for(cat, cities.drop_last()[i]);
                assert(r[j] == record_for(cat, cities[i]));
            } else {
                if exists|j: int| 0 <= j < prev.len() && prev[j].city == c {
                    let j = choose|j: int| 0 <= j < prev.len() && prev[j].city == c;
                    assert(prev[j] == record_for(cat, prev[j].city));
                    assert(r[j] == record_for(cat, c));
                } else {
                    assert(r[r.len() - 1] == record_for(cat, c));
                }
            }
        }
        assert forall|j: int| 0 <= j < r.len() implies exists|i: int|
            0 <= i < cities.len() && cities[i] == #[trigger] r[j].city by {
            if j < prev.len() {
                let i = choose|i: int|
                    0 <= i < cities.drop_last().len() && cities.drop_last()[i] == prev[j].city;
                assert(cities[i] == r[j].city);
            } else {
                assert(r[j].city == c);
                assert(cities[cities.len() - 1] == c);
            }
        }
    }
}

/// Law: a requested city that matches no catalog entry after case
/// folding resolves to the default record, under its own spelling.
pub proof fn lemma_resolve_unknown_default(cat: Seq<RecordModel>, cities: Seq<Seq<char>>, i: int)
    requires
        0 <= i < cities.len(),
        fold_index(cat, cities[i]) == -1,
    ensures
        exists|j: int|
            0 <= j < resolved_list(cat, cities).len() && resolved_list(cat, cities)[j]
                == default_model(cities[i]),
{
    lemma_resolve_one_per_city(cat, cities);
    let j = choose|j: int|
        0 <= j < resolved_list(cat, cities).len() && resolved_list(cat, cities)[j] == record_for(
            cat,
            cities[i],
        );
    assert(record_for(cat, cities[i]) == default_model(cities[i]));
}

/// Law: a requested city that does match a catalog entry after case
/// folding resolves to that entry's fields, under the caller's own
/// spelling.
pub proof fn lemma_resolve_known_matches_catalog(
    cat: Seq<RecordModel>,
    cities: Seq<Seq<char>>,
    i: int,
)
    requires
        0 <= i < cities.len(),
        fold_index(cat, cities[i]) != -1,
    ensures
        exists|j: int|
            0 <= j < resolved_list(cat, cities).len() && (#[trigger] resolved_list(cat, cities)[j])
                == (RecordModel {
                city: cities[i],
                temperature: cat[fold_index(cat, cities[i])].temperature,
                condition: cat[fold_index(cat, cities[i])].condition,
                humidity: cat[fold_index(cat, cities[i])].humidity,
                wind_speed: cat[fold_index(cat, cities[i])].wind_speed,
            }),
{
    lemma_resolve_one_per_city(cat, cities);
    let j = choose|j: int|
        0 <= j < resolved_list(cat, cities).len() && resolved_list(cat, cities)[j] == record_for(
            cat,
            cities[i],
        );
}

/// Whether some already-resolved record carries exactly this spelling.
fn holds_city(out: &Vec<WeatherData>, city: &String) -> (b: bool)
    ensures
        b == exists|j: int|
            0 <= j < out.deep_view().len() && (#[trigger] out.deep_view()[j]).city == city@,
{
    let n = out.len();
    for m in 0..n
        invariant
            n == out@.len(),
            forall|j: int| 0 <= j < m ==> (#[trigger] out.deep_view()[j]).city != city@,
    {
        proof {
            lemma_deep_view_index(out, m as int);
        }
        if str_eq(out[m].city.as_str(), city.as_str()) {
            return true;
        }
    }
    false
}

impl WeatherCatalog {
    /// Resolves a request list. An empty list is rejected as `Empty`;
    /// a list of more than [`MAX_CITIES`] cities as `TooMany` carrying
    /// the exact count; anything in between yields exactly
    /// [`resolved_list`]: one record per distinct requested spelling,
    /// in order of first occurrence.
    pub fn resolve(&self, cities: &Vec<String>) -> (r: Result<Vec<WeatherData>, ValidationError>)
        ensures
            cities@.len() == 0 ==> (r matches Err(e) && e == ValidationError::Empty),
            cities@.len() > MAX_CITIES ==> (r matches Err(e) && e == ValidationError::TooMany(
                cities@.len() as usize,
            )),
            1 <= cities@.len() <= MAX_CITIES ==> (r matches Ok(v) && v.deep_view()
                == resolved_list(self@, cities.deep_view())),
    {
        let n = cities.len();
        if n == 0 {
            return Err(ValidationError::Empty);
        }
        if n > MAX_CITIES {
            return Err(ValidationError::TooMany(n));
        }
        let mut out: Vec<WeatherData> = Vec::new();
        let mut i: usize = 0;
        while i < n
            invariant
                n == cities@.len(),
                i <= n,
                out.deep_view() == resolved_list(self@, cities.deep_view().take(i as int)),
            decreases n - i,
        {
            let city = &cities[i];
            let ghost taken = cities.deep_view().take(i + 1);
            proof {
                lemma_deep_view_index(cities, i as int);
                assert(taken.drop_last() =~= cities.deep_view().take(i as int));
                assert(taken.last() == city@);
            }
            if !holds_city(&out, city) {
                let rec = self.lookup(city);
                out.push(rec);
                proof {
                    assert(out.deep_view() =~= resolved_list(self@, taken));
                }
            } else {
                proof {
                    assert(out.deep_view() == resolved_list(self@, taken));
                }
            }
            i += 1;
        }
        proof {
            assert(cities.deep_view().take(n as int) =~= cities.deep_view());
        }
        Ok(out)
    }
}

} // verus!
