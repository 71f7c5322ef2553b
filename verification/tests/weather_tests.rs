use simpleweather::cfg::{AppConfig, ConfigError};
use simpleweather::openweather::{city_weather_from_parts, OpenWeatherRequest};
use simpleweather::pretty_printer::{print_table, render_table, weather_records};
use simpleweather::CityWeather;

#[test]
fn config_hands_back_its_key() {
    let config = AppConfig::new("SECRET-REDACTED");
    assert_eq!(config.api_key(), "SECRET-REDACTED");
}

#[test]
fn request_keeps_city_and_key() {
    let request = OpenWeatherRequest::new("Oslo", "k");
    assert_eq!(request.city.as_str(), "Oslo");
    assert_eq!(request.api_key, "k");
}

#[test]
fn first_condition_labels_the_weather() {
    let weather = city_weather_from_parts(
        "Oslo".to_string(),
        vec!["Clouds".to_string(), "Mist".to_string()],
        5,
        2,
        7,
    );
    assert_eq!(weather.name.as_str(), "Oslo");
    assert_eq!(weather.condition.as_str(), "Clouds");
    assert_eq!(weather.temp, 5);
    assert_eq!(weather.temp_min, 2);
    assert_eq!(weather.temp_max, 7);
}

#[test]
fn no_conditions_label_is_none() {
    let weather = city_weather_from_parts("Oslo".to_string(), vec![], 5, 2, 7);
    assert_eq!(weather.condition.as_str(), "None");
}

#[test]
fn weather_table_renders_whole() {
    let weather = CityWeather {
        name: "Oslo".to_string(),
        condition: "Clouds".to_string(),
        temp: 5,
        temp_min: 2,
        temp_max: 7,
    };
    let records = weather_records(&weather);
    let lines = render_table(&records).unwrap();
    assert_eq!(lines.len(), 5);
    assert_eq!(
        lines[0].as_str(),
        "+------+-----------+-------------+------------+------------+"
    );
    assert_eq!(
        lines[1].as_str(),
        "| City | Condition | Temperature | Min. temp. | Max. temp. |"
    );
    assert_eq!(
        lines[3].as_str(),
        "| Oslo |  Clouds   |    5 \u{b0}C     |    2 \u{b0}C    |    7 \u{b0}C    |"
    );
    assert_eq!(lines[2], lines[0]);
    assert_eq!(lines[4], lines[0]);
}

#[test]
fn print_table_accepts_rectangular_tables() {
    let rows: Vec<Vec<String>> = vec![vec!["a".to_string()], vec!["b".to_string()]];
    assert!(print_table(&rows).is_ok());
}

#[test]
fn print_table_rejects_ragged_tables() {
    let rows: Vec<Vec<String>> =
        vec![vec!["a".to_string(), "b".to_string()], vec!["c".to_string()]];
    assert!(print_table(&rows).is_err());
}

#[test]
fn api_key_is_read_from_ini_text() {
    let text = "[application]\napi_key=SECRET-REDACTED\n";
    let config = match AppConfig::load_from_ini(text) {
        Ok(config) => config,
        Err(_) => panic!("a well-formed configuration must load"),
    };
    assert_eq!(config.api_key(), "SECRET-REDACTED");
}

#[test]
fn missing_section_means_missing_key() {
    let result = AppConfig::load_from_ini("[other]\napi_key=k\n");
    assert!(matches!(result, Err(ConfigError::Missing)));
}

#[test]
fn missing_entry_means_missing_key() {
    let result = AppConfig::load_from_ini("[application]\nother=k\n");
    assert!(matches!(result, Err(ConfigError::Missing)));
}

#[test]
fn unparsable_text_means_missing_key() {
    let result = AppConfig::load_from_ini("[application\napi_key=k\n");
    assert!(matches!(result, Err(ConfigError::Missing)));
}
