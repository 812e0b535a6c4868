use std::collections::{BTreeMap, HashSet};

use herd_epi::scenario_time::{
    run_every_month, run_every_week, run_every_year, ScenarioTime, Time, WEEKS_IN_A_YEAR,
};

#[test]
fn test_first_day_of_week() {
    let duration = 6 * 364;
    let mut days = Vec::with_capacity(duration);
    let mut scenario_time = ScenarioTime::new(0, Some(duration as Time));
    loop {
        scenario_time.update_time(1);
        if scenario_time.first_day_of_the_year() {
            println!("First day of the year");
        }
        let day_tuple = (
            scenario_time.current_time(),
            scenario_time.day_in_the_year(),
            scenario_time.current_week_in_the_year(),
            scenario_time.year(),
            scenario_time.first_day_of_week(None),
            scenario_time.first_day_of_week(Some(28)),
        );

        println!("{:>7?}", day_tuple);
        days.push(day_tuple);

        if scenario_time.ended() {
            break;
        }
    }
}

#[test]
fn test_day_in_a_year() {
    let example = ScenarioTime::new(1, None);
    assert_eq!(example.day_in_the_year(), 1);
    let example = ScenarioTime::new(2, None);
    assert_eq!(example.day_in_the_year(), 2);
    let example = ScenarioTime::new(363, None);
    assert_eq!(example.day_in_the_year(), 363);
    let example = ScenarioTime::new(364, None);
    assert_eq!(example.day_in_the_year(), 364);
    let example = ScenarioTime::new(365, None);
    assert_eq!(example.day_in_the_year(), 1);
    let example = ScenarioTime::new(366, None);
    assert_eq!(example.day_in_the_year(), 2);

    let example = ScenarioTime::new(363 + 364, None);
    assert_eq!(example.day_in_the_year(), 363);
    let example = ScenarioTime::new(364 + 364, None);
    assert_eq!(example.day_in_the_year(), 364);
    let example = ScenarioTime::new(365 + 364, None);
    assert_eq!(example.day_in_the_year(), 1);
    let example = ScenarioTime::new(366 + 364, None);
    assert_eq!(example.day_in_the_year(), 2);
}

#[test]
fn test_count_weeks_in_multiple_years() {
    let duration = (20 * 364) as Time;
    let mut days = Vec::with_capacity(duration as usize);
    let mut scenario_time = ScenarioTime::new(0, Some(duration));
    loop {
        scenario_time.update_time(1);
        if scenario_time.first_day_of_the_year() {
            println!("First day of the year");
        }
        let day_tuple = (
            scenario_time.current_time(),
            scenario_time.day_in_the_year(),
            scenario_time.current_week_in_the_year(),
            scenario_time.year(),
        );

        println!(
            "{} {} {} {}",
            day_tuple.0, day_tuple.1, day_tuple.2, day_tuple.3
        );
        days.push(day_tuple);

        if scenario_time.ended() {
            break;
        }
    }
    assert_eq!(
        scenario_time.elapsed_duration(),
        duration,
        "Duration wasn't reached exactly."
    );

    for x in &days {
        assert_ne!(x.0, 0, "all time representations are non-zero; instead: {:?}", x.0);
        assert_ne!(x.1, 0, "all time representations are non-zero; instead: {:?}", x.1);
        assert_ne!(x.2, 0, "all time representations are non-zero; instead: {:?}", x.2);
        assert_ne!(x.3, 0, "all time representations are non-zero; instead: {:?}", x.3);
    }

    let mut day_in_a_year = BTreeMap::new();
    let mut days_in_a_week = BTreeMap::new();
    let mut weeks_year: BTreeMap<Time, HashSet<Time>> = BTreeMap::new();
    for (_day_count, day, week, year) in days.into_iter() {
        *day_in_a_year.entry((day, year)).or_insert(0) += 1;
        *days_in_a_week.entry((week, year)).or_insert(0) += 1;
        weeks_year.entry(year).or_insert_with(HashSet::new).insert(week);
    }

    for &day_count in day_in_a_year.values() {
        assert_eq!(day_count, 1, "Counts must all be equal to 1.");
    }

    for &days_in_a_week_count in days_in_a_week.values() {
        assert_eq!(days_in_a_week_count, 7, "Counts must all be equal to 7.");
    }

    for x in weeks_year {
        assert_eq!(
            x.1.len() as Time,
            WEEKS_IN_A_YEAR,
            "There must be {} weeks in a year.",
            WEEKS_IN_A_YEAR
        );
    }
}

#[test]
fn test_current_week_in_the_year() {
    assert_eq!(ScenarioTime::new(1 + 1, None).current_week_in_the_year(), 1);
    assert_eq!(ScenarioTime::new(1 + 2, None).current_week_in_the_year(), 1);
    assert_eq!(ScenarioTime::new(1 + 3, None).current_week_in_the_year(), 1);
    assert_eq!(ScenarioTime::new(1 + 4, None).current_week_in_the_year(), 1);
    assert_eq!(ScenarioTime::new(1 + 5, None).current_week_in_the_year(), 1);
    assert_eq!(ScenarioTime::new(1 + 6, None).current_week_in_the_year(), 1);
    assert_eq!(ScenarioTime::new(1 + 7, None).current_week_in_the_year(), 1 + 1);
    assert_eq!(ScenarioTime::new(1 + 8, None).current_week_in_the_year(), 1 + 1);
    assert_eq!(ScenarioTime::new(1 + 9, None).current_week_in_the_year(), 1 + 1);
    assert_eq!(ScenarioTime::new(1 + 10, None).current_week_in_the_year(), 1 + 1);
    assert_eq!(ScenarioTime::new(1 + 11, None).current_week_in_the_year(), 1 + 1);
    assert_eq!(ScenarioTime::new(1 + 12, None).current_week_in_the_year(), 1 + 1);
    assert_eq!(ScenarioTime::new(1 + 13, None).current_week_in_the_year(), 1 + 1);
    assert_eq!(ScenarioTime::new(1 + 14, None).current_week_in_the_year(), 2 + 1);
    assert_eq!(ScenarioTime::new(1 + 364 - 7, None).current_week_in_the_year(), 51 + 1);
    assert_eq!(ScenarioTime::new(1 + 364 - 6, None).current_week_in_the_year(), 51 + 1);
    assert_eq!(ScenarioTime::new(1 + 364 - 5, None).current_week_in_the_year(), 51 + 1);
    assert_eq!(ScenarioTime::new(1 + 364 - 4, None).current_week_in_the_year(), 51 + 1);
    assert_eq!(ScenarioTime::new(1 + 364 - 3, None).current_week_in_the_year(), 51 + 1);
    assert_eq!(ScenarioTime::new(1 + 364 - 2, None).current_week_in_the_year(), 51 + 1);
    assert_eq!(ScenarioTime::new(364, None).current_week_in_the_year(), 51 + 1);
    assert_eq!(ScenarioTime::new(1 + 365, None).current_week_in_the_year(), 1);
    assert_eq!(ScenarioTime::new(1 + 364, None).current_week_in_the_year(), 1);
    assert_eq!(ScenarioTime::new(1 + 365 + 7, None).current_week_in_the_year(), 1 + 1);
    assert_eq!(ScenarioTime::new(1 + 365 + 14, None).current_week_in_the_year(), 2 + 1);
}

#[test]
fn tests() {
    let ex_current_time: Vec<u64> = vec![1, 45, 365, 365 + 1, 365 + 2];
    assert_eq!(
        ex_current_time.iter().map(|x| x % 365 == 1).collect::<Vec<_>>(),
        vec!(true, false, false, true, false)
    );

    let mut some_time = ScenarioTime::new(1, Some(365 + 10));
    assert!(some_time.first_day_of_the_year());

    some_time.update_time(120);
    some_time.update_time(1);
    some_time.update_time(1);
    some_time.update_time(1);

    assert!(!some_time.first_day_of_the_year());
    some_time.update_time(361);
}

#[test]
fn test_elapsed_duration() {
    for &start_time_offset in &[1, 21, 423, 12] {
        let mut scenario_time = ScenarioTime::new(start_time_offset, None);
        for _ in 0..25 {
            assert_eq!(
                scenario_time.elapsed_duration(),
                scenario_time.current_time() - start_time_offset
            );
            scenario_time.update_time(14);
        }
    }
}

#[test]
fn test_show_run_criteria() {
    let max_timesteps = 365 * 20;
    let mut scenario_time = ScenarioTime::new(1, None);
    let mut records: Vec<Time> = Vec::new();
    for _timesteps in 0..max_timesteps {
        scenario_time.update_time(1);
        if run_every_year(&scenario_time) {
            records.push(scenario_time.current_time());
        }
    }
    println!("{:?}", records);
    assert_eq!(records.len(), 20);
    for (k, &t) in records.iter().enumerate() {
        assert_eq!(t, 365 + 364 * k as Time);
    }
}

#[test]
fn calendar_boundaries() {
    assert_eq!(ScenarioTime::new(1, None).day_in_the_year(), 1);
    assert_eq!(ScenarioTime::new(364, None).day_in_the_year(), 364);
    assert!(ScenarioTime::new(364, None).last_day_of_the_year());
    assert_eq!(ScenarioTime::new(365, None).day_in_the_year(), 1);
    assert!(ScenarioTime::new(365, None).first_day_of_the_year());
    assert_eq!(ScenarioTime::new(364, None).year(), 1);
    assert_eq!(ScenarioTime::new(365, None).year(), 2);
    assert_eq!(ScenarioTime::new(728, None).year(), 2);
    assert_eq!(ScenarioTime::new(729, None).year(), 3);
}

#[test]
fn first_day_of_week_follows_current_time() {
    let mut t = ScenarioTime::new(0, None);
    for _ in 0..800 {
        t.update_time(1);
        assert_eq!(t.first_day_of_week(None), t.current_time() % 7 == 1);
        assert_eq!(run_every_week(&t), t.current_time() % 7 == 1);
    }
    assert!(ScenarioTime::new(8, None).first_day_of_week(Some(2)));
    assert!(!ScenarioTime::new(8, None).first_day_of_week(Some(3)));
    assert!(!ScenarioTime::new(9, None).first_day_of_week(Some(2)));
}

#[test]
fn months_have_four_weeks() {
    assert!(run_every_month(&ScenarioTime::new(1, None)));
    assert!(!run_every_month(&ScenarioTime::new(28, None)));
    assert!(run_every_month(&ScenarioTime::new(29, None)));
    assert!(run_every_month(&ScenarioTime::new(365, None)));
}

#[test]
fn durations_and_end() {
    let mut t = ScenarioTime::new(10, Some(15));
    assert_eq!(t.start_time(), 10);
    assert_eq!(t.end_time(), Some(15));
    assert_eq!(t.scenario_duration(), 5);
    assert!(!t.ended());
    t.update_time(5);
    assert!(t.ended());
    assert_eq!(t.elapsed_duration(), 5);
    let open = ScenarioTime::new(3, None);
    assert_eq!(open.scenario_duration(), 0);
    assert_eq!(open.describe(), "Time: 3; Week no. 1");
    assert_eq!(
        open.first_day_date(),
        chrono::NaiveDate::from_ymd_opt(2000, 1, 1).unwrap()
    );
}
