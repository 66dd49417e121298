use weather_core::catalog::get_weather_database;
use weather_core::lookup::ValidationError;

fn names(list: &[&str]) -> Vec<String> {
    list.iter().map(|s| s.to_string()).collect()
}

#[test]
fn test_resolve_empty_fails_empty() {
    let db = get_weather_database();
    let r = db.resolve(&Vec::new());
    assert_eq!(r.unwrap_err(), ValidationError::Empty);
}

#[test]
fn test_resolve_too_many_reports_count() {
    let db = get_weather_database();
    let many: Vec<String> = (0..21).map(|i| format!("city{}", i)).collect();
    assert_eq!(db.resolve(&many).unwrap_err(), ValidationError::TooMany(21));
    let more: Vec<String> = (0..35).map(|i| format!("city{}", i)).collect();
    assert_eq!(db.resolve(&more).unwrap_err(), ValidationError::TooMany(35));
}

#[test]
fn test_resolve_twenty_is_allowed() {
    let db = get_weather_database();
    let exactly: Vec<String> = (0..20).map(|i| format!("city{}", i)).collect();
    assert_eq!(db.resolve(&exactly).unwrap().len(), 20);
}

#[test]
fn test_resolve_known_cities_any_casing() {
    let db = get_weather_database();
    let r = db.resolve(&names(&["STOCKHOLM", "gaza", "Paris"])).unwrap();
    assert_eq!(r.len(), 3);
    assert_eq!(r[0].city, "STOCKHOLM");
    assert_eq!(r[0].temperature, 15);
    assert_eq!(r[0].condition, "Cloudy");
    assert_eq!(r[1].city, "gaza");
    assert_eq!(r[1].temperature, 27);
    assert_eq!(r[2].city, "Paris");
    assert_eq!(r[2].temperature, 19);
    assert_eq!(r[2].condition, "Rainy");
    assert_eq!(r[2].humidity, 80);
    assert_eq!(r[2].wind_speed, 18);
}

#[test]
fn test_resolve_mixed_known_and_unknown() {
    // Stockholm and Gaza come back with their real data, Nope with the
    // documented default record.
    let db = get_weather_database();
    let r = db.resolve(&names(&["Stockholm", "Gaza", "Nope"])).unwrap();
    assert_eq!(r.len(), 3);
    assert_eq!(r[0].city, "Stockholm");
    assert_eq!(r[0].temperature, 15);
    assert_eq!(r[0].condition, "Cloudy");
    assert_eq!(r[0].humidity, 75);
    assert_eq!(r[0].wind_speed, 15);
    assert_eq!(r[1].city, "Gaza");
    assert_eq!(r[1].temperature, 27);
    assert_eq!(r[1].condition, "Sunny");
    assert_eq!(r[1].humidity, 60);
    assert_eq!(r[1].wind_speed, 12);
    assert_eq!(r[2].city, "Nope");
    assert_eq!(r[2].temperature, 20);
    assert_eq!(r[2].condition, "Unknown");
    assert_eq!(r[2].humidity, 50);
    assert_eq!(r[2].wind_speed, 10);
}

#[test]
fn test_resolve_repeated_spelling_collapses() {
    let db = get_weather_database();
    let r = db.resolve(&names(&["Tokyo", "Tokyo", "Tokyo"])).unwrap();
    assert_eq!(r.len(), 1);
    assert_eq!(r[0].city, "Tokyo");
    assert_eq!(r[0].temperature, 22);
}

#[test]
fn test_resolve_distinct_spellings_stay_distinct() {
    // Two spellings of one city differing only in case are distinct
    // request keys, as in a map keyed by the literal request string.
    let db = get_weather_database();
    let r = db.resolve(&names(&["Paris", "paris"])).unwrap();
    assert_eq!(r.len(), 2);
    assert_eq!(r[0].city, "Paris");
    assert_eq!(r[1].city, "paris");
    assert_eq!(r[0].temperature, r[1].temperature);
}

#[test]
fn test_error_messages() {
    assert_eq!(ValidationError::Empty.message(), "Cities list cannot be empty");
    assert_eq!(
        ValidationError::TooMany(21).message(),
        "Too many cities requested. Maximum is 20, you requested 21"
    );
    assert_eq!(
        ValidationError::TooMany(105).message(),
        "Too many cities requested. Maximum is 20, you requested 105"
    );
    assert_eq!(ValidationError::EmptyCatalog.message(), "Weather catalog is empty");
}
