use weather_station::alert::{describe_alert, WeatherAlert};
use weather_station::reading::{Measurements, Reading, ValidationError};

fn accepted(temperature: i64, wind_speed: i64, humidity: i64) -> Reading {
    match Reading::validate(temperature, wind_speed, humidity) {
        Ok(reading) => reading,
        Err(e) => panic!("rejected: {}", e.message()),
    }
}

#[test]
fn mild_reading_is_accepted_unchanged_and_clear() {
    let reading = accepted(125, 250, 700);
    assert_eq!(reading.temperature(), 125);
    assert_eq!(reading.wind_speed(), 250);
    assert_eq!(reading.humidity(), 700);
    assert_eq!(
        reading.measurements(),
        Measurements { temperature: 125, wind_speed: 250, humidity: 700 }
    );
    assert_eq!(reading.check_alert(), WeatherAlert::Clear);
    assert_eq!(describe_alert(&reading.check_alert()), "All clear - no alerts");
}

#[test]
fn hot_reading_gives_high_temperature() {
    let reading = accepted(380, 150, 450);
    let alert = reading.check_alert();
    assert_eq!(alert, WeatherAlert::HighTemperature(380));
    assert_eq!(describe_alert(&alert), "HIGH TEMP WARNING: 38.0°C");
}

#[test]
fn cold_gale_gives_storm_with_rainfall() {
    let reading = accepted(30, 900, 850);
    let alert = reading.check_alert();
    assert_eq!(alert, WeatherAlert::Storm { wind_speed: 900, rainfall_mm: 4250 });
    assert_eq!(describe_alert(&alert), "STORM ALERT: wind 90.0 km/h, rain 42.5mm");
}

#[test]
fn windy_reading_gives_high_wind() {
    let reading = accepted(220, 650, 550);
    let alert = reading.check_alert();
    assert_eq!(alert, WeatherAlert::HighWind(650));
    assert_eq!(describe_alert(&alert), "HIGH WIND WARNING: 65.0 km/h");
}

#[test]
fn out_of_range_candidates_are_rejected() {
    assert_eq!(Reading::validate(1000, 100, 500), Err(ValidationError::Temperature(1000)));
    assert_eq!(Reading::validate(200, -50, 500), Err(ValidationError::WindSpeed(-50)));
    assert_eq!(Reading::validate(200, 100, 1500), Err(ValidationError::Humidity(1500)));
}

#[test]
fn messages_name_field_value_and_range() {
    assert_eq!(
        ValidationError::Temperature(1000).message(),
        "Invalid temperature: 100°C (must be between -100 and 60)"
    );
    assert_eq!(
        ValidationError::WindSpeed(-50).message(),
        "Invalid wind speed: -5 km/h (must be >= 0)"
    );
    assert_eq!(
        ValidationError::Humidity(1500).message(),
        "Invalid humidity: 150% (must be between 0 and 100)"
    );
    assert_eq!(
        ValidationError::Temperature(-1005).message(),
        "Invalid temperature: -100.5°C (must be between -100 and 60)"
    );
    assert_eq!(
        ValidationError::Humidity(-3).message(),
        "Invalid humidity: -0.3% (must be between 0 and 100)"
    );
}

#[test]
fn first_broken_rule_is_reported() {
    assert_eq!(Reading::validate(1000, -50, 1500), Err(ValidationError::Temperature(1000)));
    assert_eq!(Reading::validate(200, -50, 1500), Err(ValidationError::WindSpeed(-50)));
    assert_eq!(Reading::validate(i64::MIN, i64::MIN, i64::MIN), Err(ValidationError::Temperature(i64::MIN)));
    assert_eq!(Reading::validate(0, i64::MIN, i64::MAX), Err(ValidationError::WindSpeed(i64::MIN)));
    assert_eq!(Reading::validate(0, i64::MAX, i64::MAX), Err(ValidationError::Humidity(i64::MAX)));
}

#[test]
fn range_ends_are_accepted_and_their_neighbours_are_not() {
    assert!(Reading::validate(-1000, 0, 0).is_ok());
    assert!(Reading::validate(600, 0, 1000).is_ok());
    assert!(Reading::validate(0, i64::MAX, 0).is_ok());
    assert_eq!(Reading::validate(-1001, 0, 0), Err(ValidationError::Temperature(-1001)));
    assert_eq!(Reading::validate(601, 0, 0), Err(ValidationError::Temperature(601)));
    assert_eq!(Reading::validate(0, -1, 0), Err(ValidationError::WindSpeed(-1)));
    assert_eq!(Reading::validate(0, 0, -1), Err(ValidationError::Humidity(-1)));
    assert_eq!(Reading::validate(0, 0, 1001), Err(ValidationError::Humidity(1001)));
}

#[test]
fn thresholds_are_strict() {
    assert_eq!(accepted(49, 800, 500).check_alert(), WeatherAlert::HighWind(800));
    assert_eq!(accepted(50, 801, 500).check_alert(), WeatherAlert::HighWind(801));
    assert_eq!(
        accepted(49, 801, 500).check_alert(),
        WeatherAlert::Storm { wind_speed: 801, rainfall_mm: 2500 }
    );
    assert_eq!(accepted(350, 0, 0).check_alert(), WeatherAlert::Clear);
    assert_eq!(accepted(351, 0, 0).check_alert(), WeatherAlert::HighTemperature(351));
    assert_eq!(accepted(0, 600, 0).check_alert(), WeatherAlert::Clear);
    assert_eq!(accepted(100, 601, 0).check_alert(), WeatherAlert::HighWind(601));
}

#[test]
fn heat_goes_before_wind() {
    assert_eq!(accepted(360, 900, 0).check_alert(), WeatherAlert::HighTemperature(360));
}

#[test]
fn every_reading_has_one_category() {
    let temperatures = [-1000i64, 49, 50, 350, 351, 600];
    let winds = [0i64, 600, 601, 800, 801, 5000];
    for t in temperatures {
        for w in winds {
            let alert = accepted(t, w, 333).check_alert();
            let storm = w > 800 && t < 50;
            let hot = !storm && t > 350;
            let windy = !storm && !hot && w > 600;
            assert_eq!(matches!(alert, WeatherAlert::Storm { .. }), storm);
            assert_eq!(matches!(alert, WeatherAlert::HighTemperature(_)), hot);
            assert_eq!(matches!(alert, WeatherAlert::HighWind(_)), windy);
            assert_eq!(matches!(alert, WeatherAlert::Clear), !storm && !hot && !windy);
        }
    }
}

#[test]
fn rainfall_is_exactly_half_the_humidity() {
    let rain = |humidity: i64| match accepted(0, 900, humidity).check_alert() {
        WeatherAlert::Storm { rainfall_mm, .. } => rainfall_mm,
        other => panic!("no storm: {:?}", other),
    };
    assert_eq!(rain(0), 0);
    assert_eq!(rain(1), 5);
    assert_eq!(rain(3), 15);
    assert_eq!(rain(850), 4250);
    assert_eq!(rain(851), 4255);
    assert_eq!(rain(1000), 5000);
    for humidity in 0..=1000 {
        assert_eq!(2 * rain(humidity), 10 * humidity);
    }
}

#[test]
fn storm_description_rounds_the_rainfall_to_a_tenth() {
    let text = |rainfall_mm: i64| describe_alert(&WeatherAlert::Storm { wind_speed: 12345, rainfall_mm });
    assert_eq!(text(4250), "STORM ALERT: wind 1234.5 km/h, rain 42.5mm");
    assert_eq!(text(4254), "STORM ALERT: wind 1234.5 km/h, rain 42.5mm");
    assert_eq!(text(4255), "STORM ALERT: wind 1234.5 km/h, rain 42.6mm");
    assert_eq!(text(4245), "STORM ALERT: wind 1234.5 km/h, rain 42.4mm");
    assert_eq!(text(4246), "STORM ALERT: wind 1234.5 km/h, rain 42.5mm");
    assert_eq!(text(5), "STORM ALERT: wind 1234.5 km/h, rain 0.0mm");
    assert_eq!(text(6), "STORM ALERT: wind 1234.5 km/h, rain 0.1mm");
    assert_eq!(text(-16), "STORM ALERT: wind 1234.5 km/h, rain -0.2mm");
    assert_eq!(text(i64::MAX), "STORM ALERT: wind 1234.5 km/h, rain 92233720368547758.1mm");
    assert_eq!(text(i64::MIN), "STORM ALERT: wind 1234.5 km/h, rain -92233720368547758.1mm");
    assert_eq!(
        describe_alert(&accepted(30, 900, 851).check_alert()),
        "STORM ALERT: wind 90.0 km/h, rain 42.6mm"
    );
}

#[test]
fn descriptions_render_negative_and_small_values() {
    assert_eq!(describe_alert(&WeatherAlert::HighTemperature(-7)), "HIGH TEMP WARNING: -0.7°C");
    assert_eq!(describe_alert(&WeatherAlert::HighWind(0)), "HIGH WIND WARNING: 0.0 km/h");
}
