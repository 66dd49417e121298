use weather_core::catalog::get_weather_database;
use weather_core::sorting::SortKey;

#[test]
fn test_stats_counts_and_extremes() {
    let db = get_weather_database();
    let st = db.compute(SortKey::Unsorted).unwrap();
    assert_eq!(st.total_cities, 40);
    assert_eq!(st.hottest_city, "riyadh");
    assert_eq!(st.coldest_city, "moscow");
    assert_eq!(st.cities.len(), 40);
}

#[test]
fn test_stats_average_exact() {
    // 856 degrees over 40 cities: exactly 21.4 on the tenths digit.
    let db = get_weather_database();
    let st = db.compute(SortKey::Unsorted).unwrap();
    assert_eq!(st.average_temp_tenths, 214);
}

#[test]
fn test_stats_average_same_for_every_sort() {
    let db = get_weather_database();
    for key in [
        SortKey::Unsorted,
        SortKey::Temperature,
        SortKey::Name,
        SortKey::Humidity,
        SortKey::Wind,
    ] {
        let st = db.compute(key).unwrap();
        assert_eq!(st.average_temp_tenths, 214);
        assert_eq!(st.total_cities, 40);
        assert_eq!(st.hottest_city, "riyadh");
        assert_eq!(st.coldest_city, "moscow");
    }
}

#[test]
fn test_stats_sort_by_temperature_non_decreasing() {
    let db = get_weather_database();
    let st = db.compute(SortKey::Temperature).unwrap();
    for w in st.cities.windows(2) {
        assert!(w[0].temperature <= w[1].temperature);
    }
    assert_eq!(st.cities[0].city, "moscow");
    assert_eq!(st.cities[39].city, "riyadh");
}

#[test]
fn test_stats_sort_by_name_ascending() {
    let db = get_weather_database();
    let st = db.compute(SortKey::Name).unwrap();
    for w in st.cities.windows(2) {
        assert!(w[0].city <= w[1].city);
    }
    assert_eq!(st.cities[0].city, "amsterdam");
    assert_eq!(st.cities[39].city, "wellington");
}

#[test]
fn test_stats_sort_by_humidity_and_wind() {
    let db = get_weather_database();
    let by_humidity = db.compute(SortKey::Humidity).unwrap();
    for w in by_humidity.cities.windows(2) {
        assert!(w[0].humidity <= w[1].humidity);
    }
    let by_wind = db.compute(SortKey::Wind).unwrap();
    for w in by_wind.cities.windows(2) {
        assert!(w[0].wind_speed <= w[1].wind_speed);
    }
}

#[test]
fn test_stats_unsorted_keeps_catalog_order() {
    let db = get_weather_database();
    let st = db.compute(SortKey::Unsorted).unwrap();
    for (got, want) in st.cities.iter().zip(db.entries().iter()) {
        assert_eq!(got.city, want.city);
        assert_eq!(got.temperature, want.temperature);
    }
    assert_eq!(st.cities[0].city, "stockholm");
    assert_eq!(st.cities[1].city, "gaza");
}

#[test]
fn test_stats_sort_is_stable() {
    // stockholm, chicago and wellington all sit at 15 degrees; a
    // stable temperature sort keeps them in catalog order.
    let db = get_weather_database();
    let st = db.compute(SortKey::Temperature).unwrap();
    let fifteens: Vec<&str> = st
        .cities
        .iter()
        .filter(|c| c.temperature == 15)
        .map(|c| c.city.as_str())
        .collect();
    assert_eq!(fifteens, ["stockholm", "chicago", "wellington"]);
}

#[test]
fn test_sort_key_parsing() {
    assert_eq!(SortKey::from_query("temp"), SortKey::Temperature);
    assert_eq!(SortKey::from_query("temperature"), SortKey::Temperature);
    assert_eq!(SortKey::from_query("name"), SortKey::Name);
    assert_eq!(SortKey::from_query("city"), SortKey::Name);
    assert_eq!(SortKey::from_query("humidity"), SortKey::Humidity);
    assert_eq!(SortKey::from_query("wind"), SortKey::Wind);
    assert_eq!(SortKey::from_query(""), SortKey::Unsorted);
    assert_eq!(SortKey::from_query("bogus"), SortKey::Unsorted);
}

#[test]
fn test_cities_listing_sorted() {
    let db = get_weather_database();
    let cities = db.list_cities();
    assert_eq!(cities.len(), 40);
    assert_eq!(cities.len(), db.len());
    for w in cities.windows(2) {
        assert!(w[0] < w[1]);
    }
    assert_eq!(cities[0], "amsterdam");
    assert_eq!(cities[39], "wellington");
    assert!(cities.contains(&"stockholm".to_string()));
}
