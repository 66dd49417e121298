//! The per-city weather record, its mathematical model, and the
//! default record handed out for cities the catalog does not know.

use vstd::prelude::*;

verus! {

/// One city's weather: the city name as the caller spelled it, the
/// temperature in whole degrees Celsius, a free-form condition label,
/// the relative humidity in percent, and the wind speed in km/h.
#[derive(Debug)]
pub struct WeatherData {
    pub city: String,
    pub temperature: i32,
    pub condition: String,
    pub humidity: i32,
    pub wind_speed: i32,
}

/// The mathematical model of a [`WeatherData`] value: every string is
/// a character sequence and every number an unbounded integer.
pub struct RecordModel {
    pub city: Seq<char>,
    pub temperature: int,
    pub condition: Seq<char>,
    pub humidity: int,
    pub wind_speed: int,
}

impl View for WeatherData {
    type V = RecordModel;

    open spec fn view(&self) -> RecordModel {
        RecordModel {
            city: self.city@,
            temperature: self.temperature as int,
            condition: self.condition@,
            humidity: self.humidity as int,
            wind_speed: self.wind_speed as int,
        }
    }
}

impl DeepView for WeatherData {
    type V = RecordModel;

    open spec fn deep_view(&self) -> RecordModel {
        self.view()
    }
}

impl Clone for WeatherData {
    fn clone(&self) -> (r: Self)
        ensures
            r@ == self@,
    {
        WeatherData {
            city: self.city.clone(),
            temperature: self.temperature,
            condition: self.condition.clone(),
            humidity: self.humidity,
            wind_speed: self.wind_speed,
        }
    }
}

/// A record is well formed when its humidity is a percentage and its
/// wind speed is not negative.
pub open spec fn record_wf(r: RecordModel) -> bool {
    &&& 0 <= r.humidity <= 100
    &&& 0 <= r.wind_speed
}

/// The model of the default record returned for a city that is absent
/// from the catalog: 20 degrees, "Unknown", 50 percent humidity, wind
/// 10 km/h, under the caller's own spelling of the city.
pub open spec fn default_model(city: Seq<char>) -> RecordModel {
    RecordModel {
        city: city,
        temperature: 20,
        condition: "Unknown"@,
        humidity: 50,
        wind_speed: 10,
    }
}

/// Builds the default record for a city the catalog does not know.
pub fn default_record(city: &String) -> (r: WeatherData)
    ensures
        r@ == default_model(city@),
{
    WeatherData {
        city: city.clone(),
        temperature: 20,
        condition: String::from_str("Unknown"),
        humidity: 50,
        wind_speed: 10,
    }
}

} // verus!
