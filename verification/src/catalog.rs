//! The immutable weather catalog: forty cities, each keyed by its
//! lowercase name, in a fixed insertion order that every consumer of
//! the catalog sees the same way.

use vstd::prelude::*;

use crate::record::{RecordModel, WeatherData, record_wf};
use crate::strs::{fold_chars, fold_eq, str_eq};

verus! {

/// The read-only catalog of cities. The `city` field of every entry
/// holds the lowercase lookup key; entries stay in insertion order.
pub struct WeatherCatalog {
    entries: Vec<WeatherData>,
}

/// The catalog's fixed contents, in insertion order.
pub open spec fn catalog_model() -> Seq<RecordModel> {
    seq![
        RecordModel { city: "stockholm"@, temperature: 15, condition: "Cloudy"@, humidity: 75, wind_speed: 15 },
        RecordModel { city: "gaza"@, temperature: 27, condition: "Sunny"@, humidity: 60, wind_speed: 12 },
        RecordModel { city: "paris"@, temperature: 19, condition: "Rainy"@, humidity: 80, wind_speed: 18 },
        RecordModel { city: "london"@, temperature: 12, condition: "Foggy"@, humidity: 85, wind_speed: 20 },
        RecordModel { city: "new york"@, temperature: 18, condition: "Partly Cloudy"@, humidity: 70, wind_speed: 22 },
        RecordModel { city: "tokyo"@, temperature: 22, condition: "Clear"@, humidity: 65, wind_speed: 10 },
        RecordModel { city: "sydney"@, temperature: 24, condition: "Sunny"@, humidity: 55, wind_speed: 14 },
        RecordModel { city: "berlin"@, temperature: 14, condition: "Overcast"@, humidity: 78, wind_speed: 16 },
        RecordModel { city: "moscow"@, temperature: 8, condition: "Snowy"@, humidity: 90, wind_speed: 25 },
        RecordModel { city: "dubai"@, temperature: 35, condition: "Hot & Sunny"@, humidity: 45, wind_speed: 8 },
        RecordModel { city: "cairo"@, temperature: 30, condition: "Sunny"@, humidity: 40, wind_speed: 10 },
        RecordModel { city: "riyadh"@, temperature: 38, condition: "Very Hot"@, humidity: 35, wind_speed: 15 },
        RecordModel { city: "madrid"@, temperature: 21, condition: "Sunny"@, humidity: 50, wind_speed: 12 },
        RecordModel { city: "rome"@, temperature: 23, condition: "Clear"@, humidity: 60, wind_speed: 11 },
        RecordModel { city: "amsterdam"@, temperature: 13, condition: "Rainy"@, humidity: 82, wind_speed: 19 },
        RecordModel { city: "vienna"@, temperature: 16, condition: "Cloudy"@, humidity: 70, wind_speed: 14 },
        RecordModel { city: "athens"@, temperature: 26, condition: "Sunny"@, humidity: 55, wind_speed: 13 },
        RecordModel { city: "istanbul"@, temperature: 20, condition: "Partly Cloudy"@, humidity: 68, wind_speed: 16 },
        RecordModel { city: "bangkok"@, temperature: 32, condition: "Hot & Humid"@, humidity: 85, wind_speed: 9 },
        RecordModel { city: "singapore"@, temperature: 31, condition: "Tropical"@, humidity: 80, wind_speed: 8 },
        RecordModel { city: "mumbai"@, temperature: 29, condition: "Humid"@, humidity: 75, wind_speed: 14 },
        RecordModel { city: "delhi"@, temperature: 28, condition: "Hazy"@, humidity: 65, wind_speed: 12 },
        RecordModel { city: "beijing"@, temperature: 17, condition: "Smoggy"@, humidity: 60, wind_speed: 15 },
        RecordModel { city: "shanghai"@, temperature: 21, condition: "Rainy"@, humidity: 78, wind_speed: 17 },
        RecordModel { city: "seoul"@, temperature: 19, condition: "Clear"@, humidity: 62, wind_speed: 13 },
        RecordModel { city: "los angeles"@, temperature: 24, condition: "Sunny"@, humidity: 50, wind_speed: 10 },
        RecordModel { city: "san francisco"@, temperature: 18, condition: "Foggy"@, humidity: 72, wind_speed: 16 },
        RecordModel { city: "chicago"@, temperature: 15, condition: "Windy"@, humidity: 68, wind_speed: 28 },
        RecordModel { city: "toronto"@, temperature: 13, condition: "Cloudy"@, humidity: 70, wind_speed: 18 },
        RecordModel { city: "vancouver"@, temperature: 14, condition: "Rainy"@, humidity: 85, wind_speed: 12 },
        RecordModel { city: "mexico city"@, temperature: 22, condition: "Sunny"@, humidity: 45, wind_speed: 11 },
        RecordModel { city: "buenos aires"@, temperature: 20, condition: "Pleasant"@, humidity: 68, wind_speed: 14 },
        RecordModel { city: "sao paulo"@, temperature: 25, condition: "Partly Cloudy"@, humidity: 70, wind_speed: 13 },
        RecordModel { city: "rio de janeiro"@, temperature: 28, condition: "Hot & Humid"@, humidity: 75, wind_speed: 12 },
        RecordModel { city: "cape town"@, temperature: 21, condition: "Windy"@, humidity: 65, wind_speed: 24 },
        RecordModel { city: "johannesburg"@, temperature: 23, condition: "Sunny"@, humidity: 50, wind_speed: 14 },
        RecordModel { city: "nairobi"@, temperature: 24, condition: "Warm"@, humidity: 55, wind_speed: 12 },
        RecordModel { city: "melbourne"@, temperature: 19, condition: "Variable"@, humidity: 68, wind_speed: 20 },
        RecordModel { city: "auckland"@, temperature: 17, condition: "Rainy"@, humidity: 80, wind_speed: 22 },
        RecordModel { city: "wellington"@, temperature: 15, condition: "Windy"@, humidity: 75, wind_speed: 30 },
    ]
}

impl View for WeatherCatalog {
    type V = Seq<RecordModel>;

    closed spec fn view(&self) -> Seq<RecordModel> {
        self.entries.deep_view()
    }
}

/// Builds one catalog entry from its parts.
fn entry(city: &str, temperature: i32, condition: &str, humidity: i32, wind_speed: i32) -> (r:
    WeatherData)
    ensures
        r@ == (RecordModel {
            city: city@,
            temperature: temperature as int,
            condition: condition@,
            humidity: humidity as int,
            wind_speed: wind_speed as int,
        }),
{
    WeatherData {
        city: String::from_str(city),
        temperature,
        condition: String::from_str(condition),
        humidity,
        wind_speed,
    }
}

/// Builds the full weather catalog, whose contents and order are
/// exactly [`catalog_model`].
pub fn get_weather_database() -> (c: WeatherCatalog)
    ensures
        c@ == catalog_model(),
{
    let mut v: Vec<WeatherData> = Vec::new();
    v.push(entry("stockholm", 15, "Cloudy", 75, 15));
    v.push(entry("gaza", 27, "Sunny", 60, 12));
    v.push(entry("paris", 19, "Rainy", 80, 18));
    v.push(entry("london", 12, "Foggy", 85, 20));
    v.push(entry("new york", 18, "Partly Cloudy", 70, 22));
    v.push(entry("tokyo", 22, "Clear", 65, 10));
    v.push(entry("sydney", 24, "Sunny", 55, 14));
    v.push(entry("berlin", 14, "Overcast", 78, 16));
    v.push(entry("moscow", 8, "Snowy", 90, 25));
    v.push(entry("dubai", 35, "Hot & Sunny", 45, 8));
    v.push(entry("cairo", 30, "Sunny", 40, 10));
    v.push(entry("riyadh", 38, "Very Hot", 35, 15));
    v.push(entry("madrid", 21, "Sunny", 50, 12));
    v.push(entry("rome", 23, "Clear", 60, 11));
    v.push(entry("amsterdam", 13, "Rainy", 82, 19));
    v.push(entry("vienna", 16, "Cloudy", 70, 14));
    v.push(entry("athens", 26, "Sunny", 55, 13));
    v.push(entry("istanbul", 20, "Partly Cloudy", 68, 16));
    v.push(entry("bangkok", 32, "Hot & Humid", 85, 9));
    v.push(entry("singapore", 31, "Tropical", 80, 8));
    v.push(entry("mumbai", 29, "Humid", 75, 14));
    v.push(entry("delhi", 28, "Hazy", 65, 12));
    v.push(entry("beijing", 17, "Smoggy", 60, 15));
    v.push(entry("shanghai", 21, "Rainy", 78, 17));
    v.push(entry("seoul", 19, "Clear", 62, 13));
    v.push(entry("los angeles", 24, "Sunny", 50, 10));
    v.push(entry("san francisco", 18, "Foggy", 72, 16));
    v.push(entry("chicago", 15, "Windy", 68, 28));
    v.push(entry("toronto", 13, "Cloudy", 70, 18));
    v.push(entry("vancouver", 14, "Rainy", 85, 12));
    v.push(entry("mexico city", 22, "Sunny", 45, 11));
    v.push(entry("buenos aires", 20, "Pleasant", 68, 14));
    v.push(entry("sao paulo", 25, "Partly Cloudy", 70, 13));
    v.push(entry("rio de janeiro", 28, "Hot & Humid", 75, 12));
    v.push(entry("cape town", 21, "Windy", 65, 24));
    v.push(entry("johannesburg", 23, "Sunny", 50, 14));
    v.push(entry("nairobi", 24, "Warm", 55, 12));
    v.push(entry("melbourne", 19, "Variable", 68, 20));
    v.push(entry("auckland", 17, "Rainy", 80, 22));
    v.push(entry("wellington", 15, "Windy", 75, 30));
    proof {
        assert(v.deep_view() =~= catalog_model());
    }
    WeatherCatalog { entries: v }
}

/// Whether some catalog entry carries exactly this key.
pub open spec fn contains_city(s: Seq<RecordModel>, key: Seq<char>) -> bool {
    exists|i: int| 0 <= i < s.len() && s[i].city == key
}

impl WeatherCatalog {
    /// The number of cities in the catalog.
    pub fn len(&self) -> (n: usize)
        ensures
            n == self@.len(),
    {
        self.entries.len()
    }

    /// Whether the catalog holds an entry under exactly this key.
    pub fn contains_key(&self, key: &str) -> (b: bool)
        ensures
            b == contains_city(self@, key@),
    {
        let n = self.entries.len();
        for i in 0..n
            invariant
                n == self@.len(),
                forall|m: int| 0 <= m < i ==> self@[m].city != key@,
        {
            if str_eq(self.entries[i].city.as_str(), key) {
                proof {
                    assert(self@[i as int] == self.entries@[i as int].deep_view());
                }
                return true;
            }
            proof {
                assert(self@[i as int] == self.entries@[i as int].deep_view());
            }
        }
        false
    }

    /// The entry stored under exactly this key, if any.
    pub fn get(&self, key: &str) -> (r: Option<&WeatherData>)
        ensures
            r is Some <==> contains_city(self@, key@),
            match r {
                Some(e) => e@.city == key@ && exists|i: int|
                    0 <= i < self@.len() && e@ == self@[i],
                None => true,
            },
    {
        let n = self.entries.len();
        for i in 0..n
            invariant
                n == self@.len(),
                forall|m: int| 0 <= m < i ==> self@[m].city != key@,
        {
            if str_eq(self.entries[i].city.as_str(), key) {
                proof {
                    assert(self@[i as int] == self.entries@[i as int].deep_view());
                }
                return Some(&self.entries[i]);
            }
            proof {
                assert(self@[i as int] == self.entries@[i as int].deep_view());
            }
        }
        None
    }

    /// All entries, in catalog insertion order.
    pub fn entries(&self) -> (v: &Vec<WeatherData>)
        ensures
            v.deep_view() == self@,
    {
        &self.entries
    }

    /// A fresh copy of all entries, in catalog insertion order.
    pub fn entries_copy(&self) -> (v: Vec<WeatherData>)
        ensures
            v@.len() == self@.len(),
            v.deep_view() == self@,
    {
        let n = self.entries.len();
        let mut out: Vec<WeatherData> = Vec::new();
        proof {
            assert(out.deep_view() =~= self@.take(0));
        }
        let mut i: usize = 0;
        while i < n
            invariant
                n == self.entries@.len(),
                n == self@.len(),
                i <= n,
                out@.len() == i,
                out.deep_view() == self@.take(i as int),
            decreases n - i,
        {
            proof {
                assert(self@[i as int] == self.entries@[i as int].deep_view());
            }
            let rec = self.entries[i].clone();
            let ghost rec_model = rec@;
            let ghost pre_view = out@;
            let ghost pre_deep = out.deep_view();
            out.push(rec);
            proof {
                assert forall|m: int| 0 <= m < i + 1 implies out.deep_view()[m] == self@.take(
                    i + 1,
                )[m] by {
                    assert(out.deep_view()[m] == out@[m].deep_view());
                    if m < i {
                        assert(out@[m] == pre_view[m]);
                        assert(pre_deep[m] == pre_view[m].deep_view());
                        assert(pre_deep[m] == self@.take(i as int)[m]);
                    } else {
                        assert(out@[m].deep_view() == rec_model);
                        assert(rec_model == self@[i as int]);
                    }
                }
                assert(out.deep_view() =~= self@.take(i + 1));
            }
            i += 1;
        }
        proof {
            assert(self@.take(n as int) =~= self@);
        }
        out
    }
}

/// The first catalog index whose key equals the requested city after
/// ASCII case folding of both, or -1 when no entry matches.
pub open spec fn fold_index(s: Seq<RecordModel>, city: Seq<char>) -> int
    decreases s.len(),
{
    if s.len() == 0 {
        -1
    } else if fold_chars(s[0].city) == fold_chars(city) {
        0
    } else {
        let r = fold_index(s.drop_first(), city);
        if r == -1 {
            -1
        } else {
            r + 1
        }
    }
}

/// What a case-folded lookup finds: when the index lies in range it is
/// the first match, and -1 means there is none.
pub proof fn lemma_fold_index(s: Seq<RecordModel>, city: Seq<char>)
    ensures
        fold_index(s, city) == -1 || 0 <= fold_index(s, city) < s.len(),
        fold_index(s, city) == -1 ==> forall|i: int|
            0 <= i < s.len() ==> fold_chars(#[trigger] s[i].city) != fold_chars(city),
        fold_index(s, city) != -1 ==> fold_chars(s[fold_index(s, city)].city) == fold_chars(city),
        fold_index(s, city) != -1 ==> forall|m: int|
            0 <= m < fold_index(s, city) ==> fold_chars(#[trigger] s[m].city) != fold_chars(city),
    decreases s.len(),
{
    if s.len() > 0 && fold_chars(s[0].city) != fold_chars(city) {
        lemma_fold_index(s.drop_first(), city);
        assert(forall|i: int| 1 <= i < s.len() ==> s[i] == s.drop_first()[i - 1]);
    }
}

/// A scan that matched at `i` after missing everywhere before it found
/// exactly `fold_index`.
pub proof fn lemma_fold_index_is(s: Seq<RecordModel>, city: Seq<char>, i: int)
    requires
        0 <= i < s.len(),
        fold_chars(s[i].city) == fold_chars(city),
        forall|m: int| 0 <= m < i ==> fold_chars(#[trigger] s[m].city) != fold_chars(city),
    ensures
        fold_index(s, city) == i,
    decreases s.len(),
{
    if i > 0 {
        lemma_fold_index_is(s.drop_first(), city, i - 1);
        assert(forall|m: int| 1 <= m < s.len() ==> s[m] == s.drop_first()[m - 1]);
    }
}

/// The record handed back for one requested city: the matching catalog
/// entry under the caller's own spelling, or the default record when
/// no entry matches the case-folded key.
pub open spec fn record_for(s: Seq<RecordModel>, city: Seq<char>) -> RecordModel {
    let i = fold_index(s, city);
    if i == -1 {
        crate::record::default_model(city)
    } else {
        RecordModel {
            city: city,
            temperature: s[i].temperature,
            condition: s[i].condition,
            humidity: s[i].humidity,
            wind_speed: s[i].wind_speed,
        }
    }
}

impl WeatherCatalog {
    /// Resolves one requested city against the catalog, matching the
    /// key case-insensitively and keeping the caller's spelling.
    pub fn lookup(&self, city: &String) -> (r: WeatherData)
        ensures
            r@ == record_for(self@, city@),
    {
        let n = self.entries.len();
        for i in 0..n
            invariant
                n == self@.len(),
                forall|m: int| 0 <= m < i ==> fold_chars(#[trigger] self@[m].city)
                    != fold_chars(city@),
        {
            proof {
                assert(self@[i as int] == self.entries@[i as int].deep_view());
            }
            if fold_eq(city.as_str(), self.entries[i].city.as_str()) {
                proof {
                    assert(self@[i as int] == self.entries@[i as int].deep_view());
                    lemma_fold_index_is(self@, city@, i as int);
                }
                return WeatherData {
                    city: city.clone(),
                    temperature: self.entries[i].temperature,
                    condition: self.entries[i].condition.clone(),
                    humidity: self.entries[i].humidity,
                    wind_speed: self.entries[i].wind_speed,
                };
            }
        }
        proof {
            lemma_fold_index(self@, city@);
            if fold_index(self@, city@) != -1 {
                assert(fold_chars(self@[fold_index(self@, city@)].city) == fold_chars(city@));
            }
        }
        crate::record::default_record(city)
    }
}

/// Every catalog entry is well formed: humidity is a percentage and
/// wind speed is not negative.
pub proof fn lemma_catalog_wf()
    ensures
        forall|i: int| 0 <= i < catalog_model().len() ==> record_wf(#[trigger] catalog_model()[i]),
        catalog_model().len() == 40,
{
}


/// Law: the catalog is a mapping — no two entries share a key. Each
/// key is told apart from every other by its length and its first two
/// characters.
#[verifier::rlimit(100)]
pub proof fn lemma_catalog_keys_unique()
    ensures
        forall|i: int, j: int|
            0 <= i < j < catalog_model().len() ==> catalog_model()[i].city
                != catalog_model()[j].city,
{
    reveal_strlit("stockholm");
    reveal_strlit("gaza");
    reveal_strlit("paris");
    reveal_strlit("london");
    reveal_strlit("new york");
    reveal_strlit("tokyo");
    reveal_strlit("sydney");
    reveal_strlit("berlin");
    reveal_strlit("moscow");
    reveal_strlit("dubai");
    reveal_strlit("cairo");
    reveal_strlit("riyadh");
    reveal_strlit("madrid");
    reveal_strlit("rome");
    reveal_strlit("amsterdam");
    reveal_strlit("vienna");
    reveal_strlit("athens");
    reveal_strlit("istanbul");
    reveal_strlit("bangkok");
    reveal_strlit("singapore");
    reveal_strlit("mumbai");
    reveal_strlit("delhi");
    reveal_strlit("beijing");
    reveal_strlit("shanghai");
    reveal_strlit("seoul");
    reveal_strlit("los angeles");
    reveal_strlit("san francisco");
    reveal_strlit("chicago");
    reveal_strlit("toronto");
    reveal_strlit("vancouver");
    reveal_strlit("mexico city");
    reveal_strlit("buenos aires");
    reveal_strlit("sao paulo");
    reveal_strlit("rio de janeiro");
    reveal_strlit("cape town");
    reveal_strlit("johannesburg");
    reveal_strlit("nairobi");
    reveal_strlit("melbourne");
    reveal_strlit("auckland");
    reveal_strlit("wellington");
    assert forall|i: int, j: int|
        0 <= i < j < catalog_model().len() implies catalog_model()[i].city
        != catalog_model()[j].city by {
        let a = catalog_model()[i].city;
        let b = catalog_model()[j].city;
        assert(a.len() * 65536 + (a[0] as int) * 256 + (a[1] as int) != b.len() * 65536 + (
        b[0] as int) * 256 + (b[1] as int));
    }
}

/// Law: every catalog key is already lowercase, so folding the key a
/// second time changes nothing and a lookup key matches an entry
/// exactly when its folded form equals the stored key.
#[verifier::rlimit(100)]
pub proof fn lemma_catalog_keys_folded()
    ensures
        forall|i: int|
            0 <= i < catalog_model().len() ==> fold_chars(#[trigger] catalog_model()[i].city)
                == catalog_model()[i].city,
{
    reveal_strlit("stockholm");
    reveal_strlit("gaza");
    reveal_strlit("paris");
    reveal_strlit("london");
    reveal_strlit("new york");
    reveal_strlit("tokyo");
    reveal_strlit("sydney");
    reveal_strlit("berlin");
    reveal_strlit("moscow");
    reveal_strlit("dubai");
    reveal_strlit("cairo");
    reveal_strlit("riyadh");
    reveal_strlit("madrid");
    reveal_strlit("rome");
    reveal_strlit("amsterdam");
    reveal_strlit("vienna");
    reveal_strlit("athens");
    reveal_strlit("istanbul");
    reveal_strlit("bangkok");
    reveal_strlit("singapore");
    reveal_strlit("mumbai");
    reveal_strlit("delhi");
    reveal_strlit("beijing");
    reveal_strlit("shanghai");
    reveal_strlit("seoul");
    reveal_strlit("los angeles");
    reveal_strlit("san francisco");
    reveal_strlit("chicago");
    reveal_strlit("toronto");
    reveal_strlit("vancouver");
    reveal_strlit("mexico city");
    reveal_strlit("buenos aires");
    reveal_strlit("sao paulo");
    reveal_strlit("rio de janeiro");
    reveal_strlit("cape town");
    reveal_strlit("johannesburg");
    reveal_strlit("nairobi");
    reveal_strlit("melbourne");
    reveal_strlit("auckland");
    reveal_strlit("wellington");
    assert(fold_chars("stockholm"@) =~= "stockholm"@);
    assert(fold_chars("gaza"@) =~= "gaza"@);
    assert(fold_chars("paris"@) =~= "paris"@);
    assert(fold_chars("london"@) =~= "london"@);
    assert(fold_chars("new york"@) =~= "new york"@);
    assert(fold_chars("tokyo"@) =~= "tokyo"@);
    assert(fold_chars("sydney"@) =~= "sydney"@);
    assert(fold_chars("berlin"@) =~= "berlin"@);
    assert(fold_chars("moscow"@) =~= "moscow"@);
    assert(fold_chars("dubai"@) =~= "dubai"@);
    assert(fold_chars("cairo"@) =~= "cairo"@);
    assert(fold_chars("riyadh"@) =~= "riyadh"@);
    assert(fold_chars("madrid"@) =~= "madrid"@);
    assert(fold_chars("rome"@) =~= "rome"@);
    assert(fold_chars("amsterdam"@) =~= "amsterdam"@);
    assert(fold_chars("vienna"@) =~= "vienna"@);
    assert(fold_chars("athens"@) =~= "athens"@);
    assert(fold_chars("istanbul"@) =~= "istanbul"@);
    assert(fold_chars("bangkok"@) =~= "bangkok"@);
    assert(fold_chars("singapore"@) =~= "singapore"@);
    assert(fold_chars("mumbai"@) =~= "mumbai"@);
    assert(fold_chars("delhi"@) =~= "delhi"@);
    assert(fold_chars("beijing"@) =~= "beijing"@);
    assert(fold_chars("shanghai"@) =~= "shanghai"@);
    assert(fold_chars("seoul"@) =~= "seoul"@);
    assert(fold_chars("los angeles"@) =~= "los angeles"@);
    assert(fold_chars("san francisco"@) =~= "san francisco"@);
    assert(fold_chars("chicago"@) =~= "chicago"@);
    assert(fold_chars("toronto"@) =~= "toronto"@);
    assert(fold_chars("vancouver"@) =~= "vancouver"@);
    assert(fold_chars("mexico city"@) =~= "mexico city"@);
    assert(fold_chars("buenos aires"@) =~= "buenos aires"@);
    assert(fold_chars("sao paulo"@) =~= "sao paulo"@);
    assert(fold_chars("rio de janeiro"@) =~= "rio de janeiro"@);
    assert(fold_chars("cape town"@) =~= "cape town"@);
    assert(fold_chars("johannesburg"@) =~= "johannesburg"@);
    assert(fold_chars("nairobi"@) =~= "nairobi"@);
    assert(fold_chars("melbourne"@) =~= "melbourne"@);
    assert(fold_chars("auckland"@) =~= "auckland"@);
    assert(fold_chars("wellington"@) =~= "wellington"@);
}

} // verus!
