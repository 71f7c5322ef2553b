use vstd::prelude::*;

use crate::CityWeather;

verus! {

/// A pending weather lookup: the city asked about and the credential the
/// provider expects alongside it.
pub struct OpenWeatherRequest<'a> {
    pub city: String,
    pub api_key: &'a str,
}

impl<'a> OpenWeatherRequest<'a> {
    pub fn new(city: &str, api_key: &'a str) -> (r: OpenWeatherRequest<'a>)
        ensures
            r.city@ == city@,
            r.api_key@ == api_key@,
    {
        OpenWeatherRequest { city: city.to_owned(), api_key }
    }
}

/// Builds the weather record a provider response describes: the condition
/// label is the first of the reported conditions, or "None" when the
/// response lists none, and the temperatures come in already converted to
/// whole degrees Celsius.
pub fn city_weather_from_parts(
    name: String,
    conditions: Vec<String>,
    temp: i16,
    temp_min: i16,
    temp_max: i16,
) -> (r: CityWeather)
    ensures
        r.name@ == name@,
        conditions@.len() > 0 ==> r.condition@ == conditions@[0]@,
        conditions@.len() == 0 ==> r.condition@ == "None"@,
        r.temp == temp,
        r.temp_min == temp_min,
        r.temp_max == temp_max,
{
    let condition = if conditions.len() > 0 {
        conditions[0].clone()
    } else {
        "None".to_owned()
    };
    CityWeather { name, condition, temp, temp_min, temp_max }
}

} // verus!
