//! Scenario clock: elapsed simulated days and the calendar derived from them.
//!
//! A year has 364 days (52 weeks of 7 days). Days, weeks and years are all
//! counted from 1: day 364 is the last day of a year, day 365 the first day of
//! the next one.

use vstd::prelude::*;

verus! {

/// Scenario time ticks in days.
pub type Time = u64;

/// Total number of days in a year.
pub const DAYS_IN_A_YEAR: Time = 364;

/// Total number of weeks in a year.
pub const WEEKS_IN_A_YEAR: Time = 52;

/// Total number of days within a week.
pub const DAYS_IN_A_WEEK: Time = 7;

/// Total number of days within a month (four weeks, thirteen months a year).
pub const DAYS_IN_A_MONTH: Time = 28;

/// Day within its year, `1..=364`, of the absolute day `day` (`day >= 1`).
pub open spec fn day_in_year_of(day: int) -> int {
    (day - 1) % (DAYS_IN_A_YEAR as int) + 1
}

/// Week within its year, `1..=52`, of a day within the year `1..=364`.
pub open spec fn week_of_day_in_year(day_in_year: int) -> int {
    (day_in_year - 1) / (DAYS_IN_A_WEEK as int) + 1
}

/// Year, counted from 1, of the absolute day `day` (`day >= 1`).
pub open spec fn year_of(day: int) -> int {
    (day - 1) / (DAYS_IN_A_YEAR as int) + 1
}

/// Scenario time object: keeps track of elapsed days.
#[derive(Debug, Clone, Copy, PartialEq, Eq)]
pub struct ScenarioTime {
    start_time: Time,
    end_time: Option<Time>,
    elapsed_time: Time,
}

impl ScenarioTime {
    /// The current day, as a mathematical integer.
    pub open spec fn now(&self) -> int {
        self.start_spec() as int + self.elapsed_spec() as int
    }

    /// First day of the scenario.
    pub closed spec fn start_spec(&self) -> Time {
        self.start_time
    }

    /// Configured last day of the scenario, if any.
    pub closed spec fn end_spec(&self) -> Option<Time> {
        self.end_time
    }

    /// Days elapsed since the start.
    pub closed spec fn elapsed_spec(&self) -> Time {
        self.elapsed_time
    }

    /// The clock reads a day that is positive and fits a `Time`.
    pub open spec fn readable(&self) -> bool {
        0 < self.now() <= Time::MAX as int
    }

    /// Create a `ScenarioTime`, with no time elapsed yet.
    ///
    /// Starting at 0 is allowed, but the clock must then advance before it is read.
    pub fn new(start_time: Time, end_time: Option<Time>) -> (r: Self)
        requires
            end_time.is_some() ==> start_time <= end_time.unwrap(),
        ensures
            r.start_spec() == start_time,
            r.end_spec() == end_time,
            r.elapsed_spec() == 0,
    {
        ScenarioTime { start_time, end_time, elapsed_time: 0 }
    }

    /// Returns true if it is the first day of the year.
    pub fn first_day_of_the_year(&self) -> (r: bool)
        requires
            self.readable(),
        ensures
            r == (day_in_year_of(self.now()) == 1),
    {
        self.day_in_the_year() == 1
    }

    /// Returns true if it is the last day of the year.
    pub fn last_day_of_the_year(&self) -> (r: bool)
        requires
            self.readable(),
        ensures
            r == (day_in_year_of(self.now()) == DAYS_IN_A_YEAR),
    {
        self.day_in_the_year() == DAYS_IN_A_YEAR
    }

    /// Returns true if it is the first day of a (28-day) month.
    pub fn first_day_of_the_month(&self) -> (r: bool)
        requires
            self.readable(),
        ensures
            r == (day_in_year_of(self.now()) % (DAYS_IN_A_MONTH as int) == 1),
    {
        self.day_in_the_year() % DAYS_IN_A_MONTH == 1
    }

    /// Advance scenario time by `increment_time` days.
    ///
    /// Should only be invoked from one single, central location.
    pub fn update_time(&mut self, increment_time: Time)
        requires
            old(self).now() + increment_time <= Time::MAX as int,
        ensures
            final(self).start_spec() == old(self).start_spec(),
            final(self).end_spec() == old(self).end_spec(),
            final(self).elapsed_spec() == old(self).elapsed_spec() + increment_time,
    {
        self.elapsed_time = self.elapsed_time + increment_time;
    }

    /// Return current time in days.
    pub fn current_time(&self) -> (r: Time)
        requires
            self.readable(),
        ensures
            r == self.now(),
    {
        self.elapsed_time + self.start_time
    }

    /// Return the first day of the scenario.
    pub fn start_time(&self) -> (r: Time)
        ensures
            r == self.start_spec(),
    {
        self.start_time
    }

    /// Return the configured end time, if any.
    pub fn end_time(&self) -> (r: Option<Time>)
        ensures
            r == self.end_spec(),
    {
        self.end_time
    }

    /// Return the year the scenario is in, counting from 1.
    pub fn year(&self) -> (r: Time)
        requires
            self.readable(),
        ensures
            r == year_of(self.now()),
            r >= 1,
    {
        let day = self.current_time();
        if day > DAYS_IN_A_YEAR {
            day / DAYS_IN_A_YEAR + if day % DAYS_IN_A_YEAR == 0 {
                0
            } else {
                1
            }
        } else {
            1
        }
    }

    /// Return the number of days elapsed since the start.
    pub fn elapsed_duration(&self) -> (r: Time)
        requires
            self.readable(),
        ensures
            r == self.elapsed_spec(),
            r == self.now() - self.start_spec(),
    {
        self.current_time() - self.start_time
    }

    /// Return the configured scenario duration; without an end time, the
    /// elapsed duration.
    pub fn scenario_duration(&self) -> (r: Time)
        requires
            self.readable(),
            self.end_spec().is_some() ==> self.start_spec() <= self.end_spec().unwrap(),
        ensures
            r == match self.end_spec() {
                Some(end) => (end - self.start_spec()) as Time,
                None => self.elapsed_spec(),
            },
    {
        match self.end_time {
            Some(end_time) => end_time - self.start_time,
            None => self.elapsed_duration(),
        }
    }

    /// Returns the day in the year within the range `1..=364`.
    pub fn day_in_the_year(&self) -> (r: Time)
        requires
            self.readable(),
        ensures
            r == day_in_year_of(self.now()),
            1 <= r <= DAYS_IN_A_YEAR,
    {
        let days_count = self.current_time();
        if days_count > DAYS_IN_A_YEAR {
            if days_count % DAYS_IN_A_YEAR == 0 {
                DAYS_IN_A_YEAR
            } else {
                days_count % DAYS_IN_A_YEAR
            }
        } else {
            days_count
        }
    }

    /// Returns the current week within the year, in the range `1..=52`.
    pub fn current_week_in_the_year(&self) -> (r: Time)
        requires
            self.readable(),
        ensures
            r == week_of_day_in_year(day_in_year_of(self.now())),
            1 <= r <= WEEKS_IN_A_YEAR,
    {
        let day_in_a_year = self.day_in_the_year();
        if day_in_a_year > DAYS_IN_A_WEEK {
            day_in_a_year / DAYS_IN_A_WEEK + if day_in_a_year % DAYS_IN_A_WEEK == 0 {
                0
            } else {
                1
            }
        } else {
            1
        }
    }

    /// Returns true if it is the first day of a week, and, when `week_no` is
    /// given, that week is week `week_no` of the year.
    pub fn first_day_of_week(&self, week_no: Option<Time>) -> (r: bool)
        requires
            self.readable(),
        ensures
            r == (self.now() % (DAYS_IN_A_WEEK as int) == 1 && match week_no {
                Some(w) => w == week_of_day_in_year(day_in_year_of(self.now())),
                None => true,
            }),
    {
        let day_counter = self.current_time();
        day_counter % DAYS_IN_A_WEEK == 1 && match week_no {
            Some(w) => w == self.current_week_in_the_year(),
            None => true,
        }
    }

    /// Returns true if the scenario has reached its end time.
    pub fn ended(&self) -> (r: bool)
        requires
            self.readable(),
            self.end_spec().is_some(),
        ensures
            r == (self.now() >= self.end_spec().unwrap()),
    {
        let end_time = self.end_time.unwrap();
        self.current_time() >= end_time
    }

    /// The calendar date of the scenario's first day, 2000-01-01, for plotting.
    pub fn first_day_date(&self) -> chrono::NaiveDate {
        date_from_ymd(2000, 1, 1).unwrap()
    }

    /// A textual description of the current time.
    pub fn describe(&self) -> (r: String)
        requires
            self.readable(),
    {
        time_text(self.current_time(), self.current_week_in_the_year())
    }
}

#[verifier::external_type_specification]
#[verifier::external_body]
pub struct ExNaiveDate(chrono::NaiveDate);

/// Relies on `chrono::NaiveDate::from_ymd_opt`: a date for every existing
/// calendar day of a year in chrono's range (which covers -262_000..=262_000);
/// days 1 to 28 exist in every month.
#[verifier::external_body]
fn date_from_ymd(year: i32, month: u32, day: u32) -> (r: Option<chrono::NaiveDate>)
    ensures
        -262_000 <= year <= 262_000 && 1 <= month <= 12 && 1 <= day <= 28 ==> r.is_some(),
{
    chrono::NaiveDate::from_ymd_opt(year, month, day)
}

/// Relies on `format!` for the text of two integers.
#[verifier::external_body]
fn time_text(time: Time, week: Time) -> String {
    format!("Time: {}; Week no. {}", time, week)
}

/// Run criterion: true on the first day of each year.
pub fn run_every_year(scenario_time: &ScenarioTime) -> (r: bool)
    requires
        scenario_time.readable(),
    ensures
        r == (day_in_year_of(scenario_time.now()) == 1),
{
    scenario_time.first_day_of_the_year()
}

/// Run criterion: true on the first day of each week.
pub fn run_every_week(scenario_time: &ScenarioTime) -> (r: bool)
    requires
        scenario_time.readable(),
    ensures
        r == (scenario_time.now() % (DAYS_IN_A_WEEK as int) == 1),
{
    scenario_time.first_day_of_week(None)
}

/// Run criterion: true on the first day of each month.
pub fn run_every_month(scenario_time: &ScenarioTime) -> (r: bool)
    requires
        scenario_time.readable(),
    ensures
        r == (day_in_year_of(scenario_time.now()) % (DAYS_IN_A_MONTH as int) == 1),
{
    scenario_time.first_day_of_the_month()
}

} // verus!
