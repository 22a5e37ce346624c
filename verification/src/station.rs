//! Stations: named collections of readings, their statistics, their summary
//! line, and lookup by name.

use vstd::prelude::*;
use vstd::string::*;
use crate::decimal::{
    digits,
    div_round,
    lemma_round_div_bounds,
    lemma_round_div_nearest,
    one_decimal,
    push_digits,
    push_one_decimal,
    round_div,
};
use crate::reading::{Reading, MAX_TEMPERATURE, MIN_TEMPERATURE};

verus! {

/// A named station and the readings taken there, oldest first. Readings are
/// only ever added, at the end.
#[derive(Debug)]
pub struct Station {
    name: String,
    readings: Vec<Reading>,
}

/// What a station holds: its name and its readings in the order in which
/// they were added.
pub struct StationData {
    pub name: Seq<char>,
    pub readings: Seq<Reading>,
}

impl View for Station {
    type V = StationData;

    closed spec fn view(&self) -> StationData {
        StationData { name: self.name@, readings: self.readings@ }
    }
}

/// An arithmetic mean of temperatures, held exactly: the sum of the
/// temperatures in tenths of a degree, and their number. It stands for
/// `total / count` tenths, and for zero where `count` is zero.
#[derive(Debug, Clone, Copy, PartialEq, Eq)]
pub struct Mean {
    pub total: i128,
    pub count: usize,
}

/// `total / count` rounded to the nearest integer, a tie to the even one;
/// zero where `count` is zero.
pub open spec fn rounded_mean(total: int, count: nat) -> int {
    if count == 0 {
        0
    } else {
        round_div(total, count as int)
    }
}

impl Mean {
    /// This mean is exactly `numerator / denominator` tenths of a degree.
    pub open spec fn is_ratio(self, numerator: int, denominator: int) -> bool
        recommends
            denominator > 0,
    {
        if self.count == 0 {
            numerator == 0
        } else {
            self.total * denominator == numerator * self.count
        }
    }

    /// This mean in tenths of a degree, rounded to the nearest tenth.
    pub fn nearest_tenth(&self) -> (tenths: i128)
        ensures
            tenths == rounded_mean(self.total as int, self.count as nat),
    {
        if self.count == 0 {
            0
        } else {
            div_round(self.total, self.count as u64)
        }
    }
}

/// Anything that can give a one-line account of itself.
pub trait Summary {
    /// The text of the account.
    spec fn summary_text(&self) -> Seq<char>;

    /// Renders the account.
    fn summary(&self) -> (text: String)
        ensures
            text@ == self.summary_text(),
    ;
}

/// The sum of all temperatures in `readings`.
pub open spec fn total_temperature(readings: Seq<Reading>) -> int
    decreases readings.len(),
{
    if readings.len() == 0 {
        0
    } else {
        total_temperature(readings.drop_last()) + readings.last()@.temperature
    }
}

/// The highest wind speed in `readings`, and zero where none is above zero.
pub open spec fn max_wind(readings: Seq<Reading>) -> int
    decreases readings.len(),
{
    if readings.len() == 0 {
        0
    } else {
        let before = max_wind(readings.drop_last());
        if readings.last()@.wind_speed > before {
            readings.last()@.wind_speed as int
        } else {
            before
        }
    }
}

/// The test that picks the readings strictly warmer than `threshold`.
pub open spec fn warmer_than(threshold: i64) -> spec_fn(Reading) -> bool {
    |r: Reading| r@.temperature > threshold
}

/// `i` is the place of the first station in `stations` that is called `name`.
pub open spec fn is_first_named(stations: Seq<Station>, name: Seq<char>, i: int) -> bool {
    &&& 0 <= i < stations.len()
    &&& stations[i]@.name == name
    &&& forall|j: int| 0 <= j < i ==> (#[trigger] stations[j])@.name != name
}

/// No station in `stations` is called `name`.
pub open spec fn none_named(stations: Seq<Station>, name: Seq<char>) -> bool {
    forall|j: int| 0 <= j < stations.len() ==> (#[trigger] stations[j])@.name != name
}

/// A name has at most one first place, and none where no station bears it.
pub proof fn lemma_first_named_unique(stations: Seq<Station>, name: Seq<char>, i: int, j: int)
    requires
        is_first_named(stations, name, i),
    ensures
        is_first_named(stations, name, j) ==> i == j,
        !none_named(stations, name),
{
    if is_first_named(stations, name, j) {
        if i < j {
            assert(stations[i]@.name != name);
        }
        if j < i {
            assert(stations[j]@.name != name);
        }
    }
}

/// The highest wind speed is at least zero and at least each reading's wind
/// speed, and it is zero or the wind speed of one of the readings.
pub proof fn lemma_max_wind_is_maximum(readings: Seq<Reading>)
    ensures
        0 <= max_wind(readings),
        forall|i: int|
            0 <= i < readings.len() ==> (#[trigger] readings[i])@.wind_speed <= max_wind(readings),
        max_wind(readings) == 0 || exists|i: int|
            0 <= i < readings.len() && (#[trigger] readings[i])@.wind_speed == max_wind(readings),
    decreases readings.len(),
{
    if readings.len() > 0 {
        let front = readings.drop_last();
        lemma_max_wind_is_maximum(front);
        assert forall|i: int| 0 <= i < readings.len() implies (#[trigger] readings[i])@.wind_speed
            <= max_wind(readings) by {
            if i < front.len() {
                assert(front[i] == readings[i]);
            }
        }
        if max_wind(readings) != 0 {
            if readings.last()@.wind_speed > max_wind(front) {
                assert(readings[readings.len() - 1]@.wind_speed == max_wind(readings));
            } else {
                let i = choose|i: int|
                    0 <= i < front.len() && (#[trigger] front[i])@.wind_speed == max_wind(front);
                assert(readings[i] == front[i]);
            }
        }
    }
}

/// The sum of the temperatures lies between the lowest and the highest that
/// every reading in `readings` stays within, times their number.
pub proof fn lemma_total_temperature_bounds(readings: Seq<Reading>, lo: int, hi: int)
    requires
        forall|i: int| 0 <= i < readings.len() ==> lo <= (#[trigger] readings[i])@.temperature <= hi,
    ensures
        lo * readings.len() <= total_temperature(readings) <= hi * readings.len(),
    decreases readings.len(),
{
    if readings.len() > 0 {
        let front = readings.drop_last();
        assert forall|i: int| 0 <= i < front.len() implies lo <= (#[trigger] front[i])@.temperature
            <= hi by {
            assert(front[i] == readings[i]);
        }
        lemma_total_temperature_bounds(front, lo, hi);
        let t = readings[readings.len() - 1]@.temperature;
        assert(lo <= t <= hi);
        assert(lo * readings.len() == lo * front.len() + lo) by (nonlinear_arith)
            requires
                readings.len() == front.len() + 1,
        ;
        assert(hi * readings.len() == hi * front.len() + hi) by (nonlinear_arith)
            requires
                readings.len() == front.len() + 1,
        ;
    }
}

/// The rounded mean lies between the lowest and the highest temperature that
/// every reading stays within, and is within half a tenth of the exact mean.
pub proof fn lemma_rounded_mean_is_near(readings: Seq<Reading>, lo: int, hi: int)
    requires
        readings.len() > 0,
        forall|i: int| 0 <= i < readings.len() ==> lo <= (#[trigger] readings[i])@.temperature <= hi,
    ensures
        lo <= rounded_mean(total_temperature(readings), readings.len()) <= hi,
        -readings.len() <= 2 * (total_temperature(readings) - rounded_mean(
            total_temperature(readings),
            readings.len(),
        ) * readings.len()) <= readings.len(),
{
    lemma_total_temperature_bounds(readings, lo, hi);
    lemma_round_div_bounds(total_temperature(readings), readings.len() as int, lo, hi);
    lemma_round_div_nearest(total_temperature(readings), readings.len() as int);
}

/// What one more reading does to the statistics: its temperature joins the
/// sum, its wind speed replaces the highest if it is higher, and it joins the
/// warm readings, at their end, if it is warm itself.
pub proof fn lemma_statistics_after_adding(readings: Seq<Reading>, reading: Reading, threshold: i64)
    ensures
        total_temperature(readings.push(reading)) == total_temperature(readings)
            + reading@.temperature,
        max_wind(readings.push(reading)) == if reading@.wind_speed > max_wind(readings) {
            reading@.wind_speed as int
        } else {
            max_wind(readings)
        },
        readings.push(reading).filter(warmer_than(threshold)) == if reading@.temperature
            > threshold {
            readings.filter(warmer_than(threshold)).push(reading)
        } else {
            readings.filter(warmer_than(threshold))
        },
{
    reveal(Seq::filter);
    assert(readings.push(reading).drop_last() =~= readings);
}

impl Station {
    /// A station called `name` that has no readings yet.
    pub fn new(name: &str) -> (station: Station)
        ensures
            station@.name == name@,
            station@.readings == Seq::<Reading>::empty(),
    {
        Station { name: String::from_str(name), readings: Vec::new() }
    }

    /// The station's name.
    pub fn name(&self) -> (name: &str)
        ensures
            name@ == self@.name,
    {
        self.name.as_str()
    }

    /// The station's readings, oldest first.
    pub fn readings(&self) -> (readings: &[Reading])
        ensures
            readings@ == self@.readings,
    {
        self.readings.as_slice()
    }

    /// Adds `reading` behind the readings that are there.
    pub fn add_reading(&mut self, reading: Reading)
        ensures
            final(self)@.name == old(self)@.name,
            final(self)@.readings == old(self)@.readings.push(reading),
    {
        self.readings.push(reading);
    }

    /// The arithmetic mean of the temperatures, exactly: their sum and their
    /// number. For a station without readings both are zero, and so is the
    /// mean.
    pub fn average_temperature(&self) -> (mean: Mean)
        ensures
            mean.total == total_temperature(self@.readings),
            mean.count == self@.readings.len(),
            MIN_TEMPERATURE * mean.count <= mean.total <= MAX_TEMPERATURE * mean.count,
    {
        let n: usize = self.readings.len();
        let mut sum: i128 = 0;
        let mut i: usize = 0;
        while i < n
            invariant
                i <= n,
                n == self.readings.len(),
                sum == total_temperature(self.readings@.take(i as int)),
                -1000 * i <= sum <= 600 * i,
            decreases n - i,
        {
            let t: i64 = self.readings[i].temperature();
            proof {
                assert(self.readings@.take(i + 1).drop_last() =~= self.readings@.take(i as int));
            }
            sum = sum + t as i128;
            i += 1;
        }
        proof {
            assert(self.readings@.take(n as int) =~= self.readings@);
        }
        Mean { total: sum, count: n }
    }

    /// The highest wind speed in tenths of a kilometre per hour; zero for a
    /// station without readings.
    pub fn max_wind_speed(&self) -> (max: i64)
        ensures
            max == max_wind(self@.readings),
    {
        let n: usize = self.readings.len();
        let mut max: i64 = 0;
        let mut i: usize = 0;
        while i < n
            invariant
                i <= n,
                n == self.readings.len(),
                max == max_wind(self.readings@.take(i as int)),
            decreases n - i,
        {
            let w: i64 = self.readings[i].wind_speed();
            proof {
                assert(self.readings@.take(i + 1).drop_last() =~= self.readings@.take(i as int));
            }
            if w > max {
                max = w;
            }
            i += 1;
        }
        proof {
            assert(self.readings@.take(n as int) =~= self.readings@);
        }
        max
    }

    /// The readings strictly warmer than `threshold`, in the order in which
    /// they were added.
    pub fn hot_readings(&self, threshold: i64) -> (hot: Vec<&Reading>)
        ensures
            hot@.len() == self@.readings.filter(warmer_than(threshold)).len(),
            forall|k: int|
                0 <= k < hot@.len() ==> *hot@[k] == self@.readings.filter(
                    warmer_than(threshold),
                )[k],
    {
        let n: usize = self.readings.len();
        let mut hot: Vec<&Reading> = Vec::new();
        let mut i: usize = 0;
        proof {
            reveal(Seq::filter);
        }
        while i < n
            invariant
                i <= n,
                n == self.readings.len(),
                hot@.len() == self.readings@.take(i as int).filter(warmer_than(threshold)).len(),
                forall|k: int|
                    0 <= k < hot@.len() ==> *hot@[k] == self.readings@.take(i as int).filter(
                        warmer_than(threshold),
                    )[k],
            decreases n - i,
        {
            let r: &Reading = &self.readings[i];
            proof {
                reveal(Seq::filter);
                assert(self.readings@.take(i + 1).drop_last() =~= self.readings@.take(i as int));
            }
            if r.temperature() > threshold {
                hot.push(r);
            }
            i += 1;
        }
        proof {
            assert(self.readings@.take(n as int) =~= self.readings@);
        }
        hot
    }
}

impl Summary for Station {
    /// The name, the number of readings, the mean temperature rounded to a
    /// tenth of a degree and the highest wind speed, in one line.
    open spec fn summary_text(&self) -> Seq<char> {
        "Station '"@ + self@.name + "': "@ + digits(self@.readings.len())
            + " readings, avg temp: "@ + one_decimal(
            rounded_mean(total_temperature(self@.readings), self@.readings.len()),
        ) + "°C, max wind: "@ + one_decimal(max_wind(self@.readings)) + " km/h"@
    }

    fn summary(&self) -> (text: String) {
        let mean: Mean = self.average_temperature();
        let average: i128 = mean.nearest_tenth();
        proof {
            if mean.count > 0 {
                lemma_round_div_bounds(
                    mean.total as int,
                    mean.count as int,
                    MIN_TEMPERATURE as int,
                    MAX_TEMPERATURE as int,
                );
            }
        }
        let mut text = String::from_str("Station '");
        text.append(self.name.as_str());
        text.append("': ");
        push_digits(&mut text, self.readings.len() as u64);
        text.append(" readings, avg temp: ");
        push_one_decimal(&mut text, average as i64);
        text.append("°C, max wind: ");
        push_one_decimal(&mut text, self.max_wind_speed());
        text.append(" km/h");
        text
    }
}

/// The first station in `stations` that is called exactly `name`, if there is
/// one.
pub fn find_station<'a>(stations: &'a [Station], name: &str) -> (found: Option<&'a Station>)
    ensures
        match found {
            Some(station) => exists|i: int|
                is_first_named(stations@, name@, i) && *station == stations@[i],
            None => none_named(stations@, name@),
        },
{
    let wanted: String = String::from_str(name);
    let n: usize = stations.len();
    let mut i: usize = 0;
    while i < n
        invariant
            i <= n,
            n == stations@.len(),
            wanted@ == name@,
            forall|j: int| 0 <= j < i ==> (#[trigger] stations@[j])@.name != name@,
        decreases n - i,
    {
        if stations[i].name == wanted {
            assert(is_first_named(stations@, name@, i as int));
            return Some(&stations[i]);
        }
        i += 1;
    }
    None
}

/// What the reading operations report is decided by a station's name and
/// readings alone: two stations that agree in both get the same summary, mean
/// temperature, highest wind speed and warm readings, and a name is found at
/// the same place in two directories that agree.
pub proof fn lemma_reports_follow_data(
    a: Station,
    b: Station,
    threshold: i64,
    first: Seq<Station>,
    second: Seq<Station>,
    name: Seq<char>,
    i: int,
)
    requires
        a@ == b@,
        first.len() == second.len(),
        forall|j: int| 0 <= j < first.len() ==> first[j]@.name == second[j]@.name,
    ensures
        a.summary_text() == b.summary_text(),
        total_temperature(a@.readings) == total_temperature(b@.readings),
        a@.readings.len() == b@.readings.len(),
        max_wind(a@.readings) == max_wind(b@.readings),
        a@.readings.filter(warmer_than(threshold)) == b@.readings.filter(warmer_than(threshold)),
        is_first_named(first, name, i) <==> is_first_named(second, name, i),
        none_named(first, name) <==> none_named(second, name),
{
}

} // verus!
