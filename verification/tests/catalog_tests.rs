use weather_core::catalog::{WeatherCatalog, get_weather_database};

#[test]
fn test_weather_database_has_cities() {
    let db = get_weather_database();
    assert!(db.len() > 0, "Weather database should not be empty");
    assert!(db.contains_key("stockholm"), "Database should contain Stockholm");
    assert!(db.contains_key("gaza"), "Database should contain Gaza");
    assert!(db.contains_key("paris"), "Database should contain Paris");
}

#[test]
fn test_weather_database_format() {
    let db = get_weather_database();

    // Check Stockholm has correct format
    if let Some(rec) = db.get("stockholm") {
        assert!(rec.temperature > -50 && rec.temperature < 60, "Temperature should be in reasonable range");
        assert!(!rec.condition.is_empty(), "Condition should not be empty");
        assert!(rec.humidity >= 0 && rec.humidity <= 100, "Humidity should be 0-100%");
        assert!(rec.wind_speed >= 0, "Wind speed should be positive");
    }
}

#[test]
fn test_all_cities_have_valid_data() {
    let db = get_weather_database();

    for rec in db.entries().iter() {
        let city = &rec.city;
        assert!(!city.is_empty(), "City name should not be empty");
        assert!(rec.temperature > -60 && rec.temperature < 60, "Temperature for {} should be reasonable", city);
        assert!(!rec.condition.is_empty(), "Condition for {} should not be empty", city);
        assert!(rec.humidity >= 0 && rec.humidity <= 100, "Humidity for {} should be 0-100%", city);
        assert!(rec.wind_speed >= 0 && rec.wind_speed < 100, "Wind speed for {} should be reasonable", city);
    }
}

#[test]
fn test_weather_database_count() {
    let db = get_weather_database();
    assert!(db.len() >= 40, "Database should have at least 40 cities");
}

#[test]
fn test_get_known_city_fields() {
    let db = get_weather_database();
    let rec = db.get("stockholm").expect("stockholm should be present");
    assert_eq!(rec.city, "stockholm");
    assert_eq!(rec.temperature, 15);
    assert_eq!(rec.condition, "Cloudy");
    assert_eq!(rec.humidity, 75);
    assert_eq!(rec.wind_speed, 15);
}

#[test]
fn test_get_unknown_city_is_none() {
    let db = get_weather_database();
    assert!(db.get("atlantis").is_none());
    assert!(!db.contains_key("atlantis"));
}

#[test]
fn test_get_is_exact_on_keys() {
    // `get` matches stored keys exactly; case-insensitive resolution
    // goes through `lookup` instead.
    let db = get_weather_database();
    assert!(db.get("Stockholm").is_none());
    let rec = db.lookup(&"Stockholm".to_string());
    assert_eq!(rec.temperature, 15);
}

#[test]
fn test_lookup_keeps_caller_casing() {
    let db: WeatherCatalog = get_weather_database();
    let rec = db.lookup(&"GAZA".to_string());
    assert_eq!(rec.city, "GAZA");
    assert_eq!(rec.temperature, 27);
    assert_eq!(rec.condition, "Sunny");
    assert_eq!(rec.humidity, 60);
    assert_eq!(rec.wind_speed, 12);
}

#[test]
fn test_lookup_unknown_gives_default() {
    let db = get_weather_database();
    let rec = db.lookup(&"Nope".to_string());
    assert_eq!(rec.city, "Nope");
    assert_eq!(rec.temperature, 20);
    assert_eq!(rec.condition, "Unknown");
    assert_eq!(rec.humidity, 50);
    assert_eq!(rec.wind_speed, 10);
}
