//! A validated reading, the reasons for which a candidate is turned down, and
//! the alert that a reading gives rise to.

use vstd::prelude::*;
use vstd::string::*;
use crate::alert::WeatherAlert;
use crate::decimal::{plain_decimal, push_plain_decimal};

verus! {

/// Lowest temperature that is accepted: -100.0 °C.
pub const MIN_TEMPERATURE: i64 = -1000;

/// Highest temperature that is accepted: 60.0 °C.
pub const MAX_TEMPERATURE: i64 = 600;

/// Highest humidity that is accepted: 100.0 %.
pub const MAX_HUMIDITY: i64 = 1000;

/// A storm needs wind above 80.0 km/h.
pub const STORM_WIND: i64 = 800;

/// A storm needs a temperature below 5.0 °C.
pub const STORM_TEMPERATURE: i64 = 50;

/// Heat begins above 35.0 °C.
pub const HEAT: i64 = 350;

/// High wind begins above 60.0 km/h.
pub const HIGH_WIND: i64 = 600;

/// Three measurements taken together, each in tenths of its unit: degrees
/// Celsius, kilometres per hour, per cent.
#[derive(Debug, Clone, Copy, PartialEq, Eq)]
pub struct Measurements {
    pub temperature: i64,
    pub wind_speed: i64,
    pub humidity: i64,
}

/// Why a candidate reading was turned down, with the offending value.
#[derive(Debug, Clone, Copy, PartialEq, Eq)]
pub enum ValidationError {
    /// The temperature is outside -100.0 ..= 60.0 °C.
    Temperature(i64),
    /// The wind speed is negative.
    WindSpeed(i64),
    /// The humidity is outside 0.0 ..= 100.0 %.
    Humidity(i64),
}

/// The first of the three range rules that the candidate breaks, if any:
/// temperature before wind speed before humidity.
pub open spec fn first_violation(temperature: i64, wind_speed: i64, humidity: i64) -> Option<
    ValidationError,
> {
    if temperature < MIN_TEMPERATURE || temperature > MAX_TEMPERATURE {
        Some(ValidationError::Temperature(temperature))
    } else if wind_speed < 0 {
        Some(ValidationError::WindSpeed(wind_speed))
    } else if humidity < 0 || humidity > MAX_HUMIDITY {
        Some(ValidationError::Humidity(humidity))
    } else {
        None
    }
}

/// All three measurements lie within their ranges.
pub open spec fn acceptable(m: Measurements) -> bool {
    &&& MIN_TEMPERATURE <= m.temperature <= MAX_TEMPERATURE
    &&& 0 <= m.wind_speed
    &&& 0 <= m.humidity <= MAX_HUMIDITY
}

/// A candidate breaks a rule exactly if a measurement is out of its range:
/// a temperature out of range, a negative wind speed and a humidity out of
/// range each suffice, whatever the other two are, and the error names the
/// first of them.
pub proof fn lemma_violation_rules(temperature: i64, wind_speed: i64, humidity: i64)
    ensures
        temperature < MIN_TEMPERATURE || temperature > MAX_TEMPERATURE ==> first_violation(
            temperature,
            wind_speed,
            humidity,
        ) == Some(ValidationError::Temperature(temperature)),
        wind_speed < 0 ==> first_violation(temperature, wind_speed, humidity) is Some,
        humidity < 0 || humidity > MAX_HUMIDITY ==> first_violation(
            temperature,
            wind_speed,
            humidity,
        ) is Some,
        first_violation(temperature, wind_speed, humidity) is None <==> acceptable(
            Measurements { temperature, wind_speed, humidity },
        ),
{
}

impl ValidationError {
    /// The message of this error: the field, its value, the accepted range.
    pub open spec fn message_text(self) -> Seq<char> {
        match self {
            ValidationError::Temperature(v) => "Invalid temperature: "@ + plain_decimal(v as int)
                + "°C (must be between -100 and 60)"@,
            ValidationError::WindSpeed(v) => "Invalid wind speed: "@ + plain_decimal(v as int)
                + " km/h (must be >= 0)"@,
            ValidationError::Humidity(v) => "Invalid humidity: "@ + plain_decimal(v as int)
                + "% (must be between 0 and 100)"@,
        }
    }

    /// Renders this error for a human reader.
    pub fn message(&self) -> (text: String)
        ensures
            text@ == self.message_text(),
    {
        match self {
            ValidationError::Temperature(v) => {
                let mut text = String::from_str("Invalid temperature: ");
                push_plain_decimal(&mut text, *v);
                text.append("°C (must be between -100 and 60)");
                text
            },
            ValidationError::WindSpeed(v) => {
                let mut text = String::from_str("Invalid wind speed: ");
                push_plain_decimal(&mut text, *v);
                text.append(" km/h (must be >= 0)");
                text
            },
            ValidationError::Humidity(v) => {
                let mut text = String::from_str("Invalid humidity: ");
                push_plain_decimal(&mut text, *v);
                text.append("% (must be between 0 and 100)");
                text
            },
        }
    }
}

/// The estimate of rainfall that goes with a storm, in hundredths of a
/// millimetre: half as many millimetres as the humidity has per cent. With
/// the humidity in tenths of a per cent that is five times its number.
pub open spec fn rainfall_estimate(humidity: int) -> int {
    5 * humidity
}

/// Strong wind in the cold.
pub open spec fn is_storm(m: Measurements) -> bool {
    m.wind_speed > STORM_WIND && m.temperature < STORM_TEMPERATURE
}

/// Hotter than the heat threshold.
pub open spec fn is_hot(m: Measurements) -> bool {
    m.temperature > HEAT
}

/// Windier than the high-wind threshold.
pub open spec fn is_windy(m: Measurements) -> bool {
    m.wind_speed > HIGH_WIND
}

/// The alert for `m`: the first that applies of storm, heat, high wind, and
/// otherwise none.
pub open spec fn classify(m: Measurements) -> WeatherAlert {
    if is_storm(m) {
        WeatherAlert::Storm {
            wind_speed: m.wind_speed,
            rainfall_mm: rainfall_estimate(m.humidity as int) as i64,
        }
    } else if is_hot(m) {
        WeatherAlert::HighTemperature(m.temperature)
    } else if is_windy(m) {
        WeatherAlert::HighWind(m.wind_speed)
    } else {
        WeatherAlert::Clear
    }
}

/// One where `b` holds, zero where it does not.
pub open spec fn count_of(b: bool) -> int {
    if b {
        1
    } else {
        0
    }
}

/// Every triple of measurements falls into exactly one of the four
/// categories, and which one is decided by the rules in their order.
pub proof fn lemma_classify_exactly_one(m: Measurements)
    ensures
        count_of(classify(m) is Storm) + count_of(classify(m) is HighTemperature) + count_of(
            classify(m) is HighWind,
        ) + count_of(classify(m) is Clear) == 1,
        classify(m) is Storm <==> is_storm(m),
        classify(m) is HighTemperature <==> !is_storm(m) && is_hot(m),
        classify(m) is HighWind <==> !is_storm(m) && !is_hot(m) && is_windy(m),
        classify(m) is Clear <==> !is_storm(m) && !is_hot(m) && !is_windy(m),
        is_storm(m) ==> !is_hot(m),
{
}

/// For acceptable measurements the rainfall estimate is exactly half the
/// humidity, both taken in hundredths, and lies between 0.00 and 50.00 mm.
pub proof fn lemma_rainfall_estimate(m: Measurements)
    requires
        acceptable(m),
    ensures
        0 <= rainfall_estimate(m.humidity as int) <= 5000,
        2 * rainfall_estimate(m.humidity as int) == 10 * m.humidity,
        classify(m) is Storm ==> classify(m)->rainfall_mm == rainfall_estimate(m.humidity as int),
{
}

/// A reading that has passed validation. Its measurements are always within
/// their ranges.
#[derive(Debug, Clone, Copy, PartialEq, Eq)]
pub struct Reading {
    temperature: i64,
    wind_speed: i64,
    humidity: i64,
}

impl View for Reading {
    type V = Measurements;

    closed spec fn view(&self) -> Measurements {
        Measurements {
            temperature: self.temperature,
            wind_speed: self.wind_speed,
            humidity: self.humidity,
        }
    }
}

/// A reading has no identity beyond its measurements.
pub proof fn lemma_reading_is_its_measurements(a: Reading, b: Reading)
    ensures
        a@ == b@ <==> a == b,
{
}

impl Reading {
    #[verifier::type_invariant]
    spec fn in_range(self) -> bool {
        acceptable(self@)
    }

    /// Accepts the candidate if all three measurements are in range and
    /// reports the first one that is not otherwise.
    pub fn validate(temperature: i64, wind_speed: i64, humidity: i64) -> (r: Result<
        Reading,
        ValidationError,
    >)
        ensures
            r is Ok <==> acceptable(Measurements { temperature, wind_speed, humidity }),
            match first_violation(temperature, wind_speed, humidity) {
                Some(e) => r == Err::<Reading, ValidationError>(e),
                None => r is Ok && r.unwrap()@ == (Measurements {
                    temperature,
                    wind_speed,
                    humidity,
                }),
            },
    {
        if temperature < MIN_TEMPERATURE || temperature > MAX_TEMPERATURE {
            return Err(ValidationError::Temperature(temperature));
        }
        if wind_speed < 0 {
            return Err(ValidationError::WindSpeed(wind_speed));
        }
        if humidity < 0 || humidity > MAX_HUMIDITY {
            return Err(ValidationError::Humidity(humidity));
        }
        Ok(Reading { temperature, wind_speed, humidity })
    }

    /// The three measurements of this reading.
    pub fn measurements(&self) -> (m: Measurements)
        ensures
            m == self@,
            acceptable(m),
    {
        proof {
            use_type_invariant(self);
        }
        Measurements {
            temperature: self.temperature,
            wind_speed: self.wind_speed,
            humidity: self.humidity,
        }
    }

    /// The temperature in tenths of a degree Celsius.
    pub fn temperature(&self) -> (t: i64)
        ensures
            t == self@.temperature,
            MIN_TEMPERATURE <= t <= MAX_TEMPERATURE,
    {
        proof {
            use_type_invariant(self);
        }
        self.temperature
    }

    /// The wind speed in tenths of a kilometre per hour.
    pub fn wind_speed(&self) -> (w: i64)
        ensures
            w == self@.wind_speed,
            0 <= w,
    {
        proof {
            use_type_invariant(self);
        }
        self.wind_speed
    }

    /// The humidity in tenths of a per cent.
    pub fn humidity(&self) -> (h: i64)
        ensures
            h == self@.humidity,
            0 <= h <= MAX_HUMIDITY,
    {
        proof {
            use_type_invariant(self);
        }
        self.humidity
    }

    /// The alert that this reading gives rise to.
    pub fn check_alert(&self) -> (alert: WeatherAlert)
        ensures
            alert == classify(self@),
    {
        proof {
            use_type_invariant(self);
        }
        if self.wind_speed > STORM_WIND && self.temperature < STORM_TEMPERATURE {
            WeatherAlert::Storm { wind_speed: self.wind_speed, rainfall_mm: 5 * self.humidity }
        } else if self.temperature > HEAT {
            WeatherAlert::HighTemperature(self.temperature)
        } else if self.wind_speed > HIGH_WIND {
            WeatherAlert::HighWind(self.wind_speed)
        } else {
            WeatherAlert::Clear
        }
    }
}

} // verus!
