use weather_core::catalog::get_weather_database;
use weather_core::mcp::{McpWeatherRequest, weather_info};

#[test]
fn test_mcp_success_envelope() {
    let db = get_weather_database();
    let req = McpWeatherRequest {
        cities: vec!["Gaza".to_string(), "Stockholm".to_string()],
    };
    let resp = weather_info(&db, &req, "2025-10-08T14:30:00Z".to_string()).unwrap();
    assert_eq!(resp.tool, "weather_info");
    assert_eq!(resp.status, "success");
    assert_eq!(resp.timestamp, "2025-10-08T14:30:00Z");
    assert_eq!(resp.results.len(), 2);
    assert_eq!(resp.results[0].city, "Gaza");
    assert_eq!(resp.results[0].temperature, 27);
    assert_eq!(resp.results[0].condition, "Sunny");
    assert_eq!(resp.results[1].city, "Stockholm");
    assert_eq!(resp.results[1].temperature, 15);
}

#[test]
fn test_mcp_empty_request_error() {
    let db = get_weather_database();
    let req = McpWeatherRequest { cities: Vec::new() };
    let err = weather_info(&db, &req, "t0".to_string()).unwrap_err();
    assert_eq!(err.tool, "weather_info");
    assert_eq!(err.status, "error");
    assert_eq!(err.timestamp, "t0");
    assert_eq!(err.error, "Cities list cannot be empty");
    assert_eq!(err.code, 400);
}

#[test]
fn test_mcp_too_many_error() {
    let db = get_weather_database();
    let req = McpWeatherRequest {
        cities: (0..23).map(|i| format!("c{}", i)).collect(),
    };
    let err = weather_info(&db, &req, "t1".to_string()).unwrap_err();
    assert_eq!(err.error, "Too many cities requested. Maximum is 20, you requested 23");
    assert_eq!(err.code, 400);
}
