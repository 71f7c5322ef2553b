use vstd::prelude::*;

pub mod cfg;
pub mod openweather;
pub mod pretty_printer;

verus! {

/// The current weather of one city, all temperatures in degrees Celsius.
#[derive(Debug)]
pub struct CityWeather {
    pub name: String,
    pub condition: String,
    pub temp: i16,
    pub temp_min: i16,
    pub temp_max: i16,
}

} // verus!
