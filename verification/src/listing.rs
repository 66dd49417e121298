//! The city listing: every catalog key, in ascending lexicographic
//! order.

use vstd::prelude::*;

use crate::catalog::WeatherCatalog;
use crate::record::RecordModel;
use crate::sorting::{
    SortKey, key_le, lemma_deep_view_index, lemma_sort_stable_sorted, sort_entries, sort_stable,
};
use crate::strs::lex_le;

verus! {

/// The catalog's city names in ascending lexicographic order: the
/// catalog sorted stably by name, with each entry replaced by its key.
pub open spec fn city_names_sorted(s: Seq<RecordModel>) -> Seq<Seq<char>> {
    sort_stable(s, SortKey::Name).map_values(|e: RecordModel| e.city)
}

/// Law: the listing holds exactly one name per catalog entry, in
/// ascending lexicographic order.
pub proof fn lemma_city_names_sorted(s: Seq<RecordModel>)
    ensures
        city_names_sorted(s).len() == s.len(),
        forall|i: int, j: int|
            0 <= i < j < city_names_sorted(s).len() ==> lex_le(
                #[trigger] city_names_sorted(s)[i],
                #[trigger] city_names_sorted(s)[j],
            ),
{
    lemma_sort_stable_sorted(s, SortKey::Name);
    let sorted = sort_stable(s, SortKey::Name);
    assert forall|i: int, j: int| 0 <= i < j < city_names_sorted(s).len() implies lex_le(
        #[trigger] city_names_sorted(s)[i],
        #[trigger] city_names_sorted(s)[j],
    ) by {
        assert(key_le(SortKey::Name, sorted[i], sorted[j]));
        assert(city_names_sorted(s)[i] == sorted[i].city);
        assert(city_names_sorted(s)[j] == sorted[j].city);
    }
}

impl WeatherCatalog {
    /// Lists every city key of the catalog in ascending lexicographic
    /// order.
    pub fn list_cities(&self) -> (v: Vec<String>)
        ensures
            v.deep_view() == city_names_sorted(self@),
    {
        let mut data = self.entries_copy();
        sort_entries(&mut data, SortKey::Name);
        let ghost sorted = sort_stable(self@, SortKey::Name);
        proof {
            lemma_sort_stable_sorted(self@, SortKey::Name);
        }
        let n = data.len();
        let mut out: Vec<String> = Vec::new();
        proof {
            assert(out.deep_view() =~= city_names_sorted(self@).take(0));
        }
        let mut i: usize = 0;
        while i < n
            invariant
                n == data@.len(),
                n == sorted.len(),
                data.deep_view() == sorted,
                i <= n,
                out@.len() == i,
                out.deep_view() == city_names_sorted(self@).take(i as int),
                city_names_sorted(self@) == sorted.map_values(|e: RecordModel| e.city),
            decreases n - i,
        {
            proof {
                lemma_deep_view_index(&data, i as int);
            }
            let name = data[i].city.clone();
            let ghost name_model = name@;
            let ghost pre_view = out@;
            let ghost pre_deep = out.deep_view();
            out.push(name);
            proof {
                assert(name_model == sorted[i as int].city);
                assert forall|m: int| 0 <= m < i + 1 implies out.deep_view()[m]
                    == city_names_sorted(self@).take(i + 1)[m] by {
                    assert(out.deep_view()[m] == out@[m].deep_view());
                    if m < i {
                        assert(out@[m] == pre_view[m]);
                        assert(pre_deep[m] == pre_view[m].deep_view());
                        assert(pre_deep[m] == city_names_sorted(self@).take(i as int)[m]);
                    } else {
                        assert(out@[m].deep_view() == name_model);
                        assert(city_names_sorted(self@)[i as int] == sorted[i as int].city);
                    }
                }
                assert(out.deep_view() =~= city_names_sorted(self@).take(i + 1));
            }
            i += 1;
        }
        proof {
            assert(city_names_sorted(self@).take(n as int) =~= city_names_sorted(self@));
        }
        out
    }
}

} // verus!
