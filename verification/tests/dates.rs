use month_calendar::date::month_after;
use month_calendar::CivilDate;

fn date(year: i32, month: u32, day: u32) -> CivilDate {
    CivilDate::from_ymd(year, month, day).unwrap()
}

fn is_leap(year: i64) -> bool {
    year.rem_euclid(4) == 0 && (year.rem_euclid(100) != 0 || year.rem_euclid(400) == 0)
}

fn month_length(year: i64, month: u32) -> u32 {
    match month {
        2 => {
            if is_leap(year) {
                29
            } else {
                28
            }
        }
        4 | 6 | 9 | 11 => 30,
        _ => 31,
    }
}

// The number of a day, 1 January of year 1 being day 1.
fn day_number(year: i64, month: u32, day: u32) -> i64 {
    let y = year - 1;
    let before_year = 365 * y + y.div_euclid(4) - y.div_euclid(100) + y.div_euclid(400);
    let before_month: i64 = (1..month).map(|m| month_length(year, m) as i64).sum();
    before_year + before_month + day as i64
}

fn weekday_of(year: i64, month: u32, day: u32) -> u32 {
    ((day_number(year, month, day) - 1).rem_euclid(7) + 1) as u32
}

#[test]
fn dates_that_exist_are_made() {
    assert!(CivilDate::from_ymd(2015, 3, 14).is_some());
    assert!(CivilDate::from_ymd(-4, 2, 29).is_some());
    assert!(CivilDate::from_ymd(2020, 2, 29).is_some());
    assert!(CivilDate::from_ymd(2000, 2, 29).is_some());
    assert!(CivilDate::from_ymd(2021, 12, 31).is_some());
    assert!(CivilDate::from_ymd(262142, 12, 31).is_some());
    assert!(CivilDate::from_ymd(-262143, 1, 1).is_some());
}

#[test]
fn dates_that_do_not_exist_are_not_made() {
    assert!(CivilDate::from_ymd(2015, 0, 14).is_none());
    assert!(CivilDate::from_ymd(2015, 13, 14).is_none());
    assert!(CivilDate::from_ymd(2015, 2, 29).is_none());
    assert!(CivilDate::from_ymd(1900, 2, 29).is_none());
    assert!(CivilDate::from_ymd(2023, 4, 31).is_none());
    assert!(CivilDate::from_ymd(2023, 4, 0).is_none());
    assert!(CivilDate::from_ymd(2023, 1, 32).is_none());
    assert!(CivilDate::from_ymd(2023, u32::MAX, 1).is_none());
    assert!(CivilDate::from_ymd(2023, 1, u32::MAX).is_none());
}

#[test]
fn years_out_of_range_are_not_made() {
    assert!(CivilDate::from_ymd(400000, 1, 1).is_none());
    assert!(CivilDate::from_ymd(-400000, 1, 1).is_none());
    assert!(CivilDate::from_ymd(262143, 1, 1).is_none());
    assert!(CivilDate::from_ymd(-262144, 12, 31).is_none());
    assert!(CivilDate::from_ymd(i32::MAX, 1, 1).is_none());
    assert!(CivilDate::from_ymd(i32::MIN, 1, 1).is_none());
}

#[test]
fn a_date_keeps_its_fields() {
    let d = date(2017, 3, 21);
    assert_eq!(d.year(), 2017);
    assert_eq!(d.month(), 3);
    assert_eq!(d.day(), 21);
    let d = date(-308, 11, 2);
    assert_eq!((d.year(), d.month(), d.day()), (-308, 11, 2));
}

#[test]
fn known_weekdays() {
    // Monday is 1, Sunday is 7.
    assert_eq!(date(1, 1, 1).weekday(), 1);
    assert_eq!(date(2015, 9, 8).weekday(), 2);
    assert_eq!(date(-308, 3, 14).weekday(), 5);
    assert_eq!(date(2017, 3, 1).weekday(), 3);
    assert_eq!(date(2017, 3, 4).weekday(), 6);
    assert_eq!(date(2017, 3, 5).weekday(), 7);
    assert_eq!(date(2000, 1, 1).weekday(), 6);
    assert_eq!(date(1970, 1, 1).weekday(), 4);
    assert_eq!(date(2021, 12, 31).weekday(), 5);
    assert_eq!(date(2022, 1, 1).weekday(), 6);
}

#[test]
fn known_distances() {
    assert_eq!(date(2014, 1, 1).days_since(&date(2014, 1, 1)), 0);
    assert_eq!(date(2014, 1, 1).days_since(&date(2013, 12, 31)), 1);
    assert_eq!(date(2014, 1, 1).days_since(&date(2014, 1, 2)), -1);
    assert_eq!(date(2014, 1, 1).days_since(&date(2013, 9, 23)), 100);
    assert_eq!(date(2014, 1, 1).days_since(&date(2013, 1, 1)), 365);
    assert_eq!(date(2014, 1, 1).days_since(&date(2010, 1, 1)), 365 * 4 + 1);
    assert_eq!(date(2014, 1, 1).days_since(&date(1614, 1, 1)), 365 * 400 + 97);
    assert_eq!(date(2022, 1, 1).days_since(&date(2021, 12, 1)), 31);
    assert_eq!(date(2020, 3, 1).days_since(&date(2020, 2, 1)), 29);
    assert_eq!(date(1970, 1, 1).days_since(&date(1, 1, 1)), 719162);
}

#[test]
fn weekdays_agree_with_the_count_of_days() {
    for year in -450..=2450 {
        for month in 1..=12u32 {
            for day in 1..=month_length(year as i64, month) {
                let d = date(year, month, day);
                assert_eq!(d.weekday(), weekday_of(year as i64, month, day));
            }
            assert!(CivilDate::from_ymd(year, month, month_length(year as i64, month) + 1).is_none());
        }
    }
}

#[test]
fn weekdays_agree_with_the_count_of_days_at_the_ends_of_the_range() {
    for year in (-262143..=-262100).chain(262100..=262142) {
        for month in 1..=12u32 {
            for day in [1, 2, 15, month_length(year as i64, month)] {
                let d = date(year, month, day);
                assert_eq!(d.weekday(), weekday_of(year as i64, month, day));
            }
        }
    }
}

#[test]
fn distances_agree_with_the_count_of_days() {
    let anchors = [date(1, 1, 1), date(1970, 1, 1), date(-262143, 1, 1), date(262142, 12, 31)];
    let anchor_numbers = [
        day_number(1, 1, 1),
        day_number(1970, 1, 1),
        day_number(-262143, 1, 1),
        day_number(262142, 12, 31),
    ];
    for year in (-262143..=262142).step_by(97) {
        for (month, day) in [(1u32, 1u32), (2, 28), (3, 1), (7, 17), (12, 31)] {
            let d = date(year, month, day);
            let number = day_number(year as i64, month, day);
            for (anchor, anchor_number) in anchors.iter().zip(anchor_numbers.iter()) {
                assert_eq!(d.days_since(anchor), number - anchor_number);
                assert_eq!(anchor.days_since(&d), anchor_number - number);
            }
        }
    }
}

#[test]
fn the_first_days_of_two_months_are_a_month_apart() {
    for year in 1890..=2110 {
        for month in 1..=12u32 {
            let (next_year, next_month) = if month == 12 { (year + 1, 1) } else { (year, month + 1) };
            let span = date(next_year, next_month, 1).days_since(&date(year, month, 1));
            assert_eq!(span, month_length(year as i64, month) as i64);
        }
    }
}

#[test]
fn the_month_after_each_month() {
    for month in 1..=11u32 {
        assert_eq!(month_after(month), Some(month + 1));
    }
    assert_eq!(month_after(12), Some(1));
}

#[test]
fn no_month_after_what_is_no_month() {
    assert_eq!(month_after(0), None);
    assert_eq!(month_after(13), None);
    assert_eq!(month_after(u32::MAX), None);
}
