//! Alert categories and their one-line descriptions.

use vstd::prelude::*;
use vstd::string::*;
use crate::decimal::{div_round, lemma_round_div_bounds, one_decimal, push_one_decimal, round_div};

verus! {

/// What a reading warns of. Temperatures and wind speeds are in tenths of
/// their unit, the rainfall in hundredths of a millimetre.
#[derive(Debug, Clone, Copy, PartialEq, Eq)]
pub enum WeatherAlert {
    /// Nothing to report.
    Clear,
    /// Heat, with the temperature that gave rise to it.
    HighTemperature(i64),
    /// Wind, with the wind speed that gave rise to it.
    HighWind(i64),
    /// Strong wind in the cold, with the wind speed in tenths of a kilometre
    /// per hour and an estimate of the rainfall in hundredths of a
    /// millimetre.
    Storm { wind_speed: i64, rainfall_mm: i64 },
}

/// A rainfall of so many hundredths of a millimetre in tenths, rounded to the
/// nearest tenth and a tie to the even one.
pub open spec fn rainfall_tenths(hundredths: int) -> int {
    round_div(hundredths, 10)
}

/// The text that describes `alert`; every number has one digit after the
/// point, the rainfall after rounding.
pub open spec fn description(alert: WeatherAlert) -> Seq<char> {
    match alert {
        WeatherAlert::Clear => "All clear - no alerts"@,
        WeatherAlert::HighTemperature(t) => "HIGH TEMP WARNING: "@ + one_decimal(t as int)
            + "°C"@,
        WeatherAlert::HighWind(w) => "HIGH WIND WARNING: "@ + one_decimal(w as int) + " km/h"@,
        WeatherAlert::Storm { wind_speed, rainfall_mm } => "STORM ALERT: wind "@ + one_decimal(
            wind_speed as int,
        ) + " km/h, rain "@ + one_decimal(rainfall_tenths(rainfall_mm as int)) + "mm"@,
    }
}

/// Renders `alert` for a human reader.
pub fn describe_alert(alert: &WeatherAlert) -> (text: String)
    ensures
        text@ == description(*alert),
{
    match alert {
        WeatherAlert::Clear => String::from_str("All clear - no alerts"),
        WeatherAlert::HighTemperature(t) => {
            let mut text = String::from_str("HIGH TEMP WARNING: ");
            push_one_decimal(&mut text, *t);
            text.append("°C");
            text
        },
        WeatherAlert::HighWind(w) => {
            let mut text = String::from_str("HIGH WIND WARNING: ");
            push_one_decimal(&mut text, *w);
            text.append(" km/h");
            text
        },
        WeatherAlert::Storm { wind_speed, rainfall_mm } => {
            let mut text = String::from_str("STORM ALERT: wind ");
            push_one_decimal(&mut text, *wind_speed);
            text.append(" km/h, rain ");
            proof {
                lemma_round_div_bounds(*rainfall_mm as int, 10, i64::MIN as int, i64::MAX as int);
            }
            let rain: i128 = div_round(*rainfall_mm as i128, 10);
            push_one_decimal(&mut text, rain as i64);
            text.append("mm");
            text
        },
    }
}

} // verus!
