use month_calendar::decimal::{decimal_string, push_decimal_digits};
use month_calendar::weeks::into_weeks;
use month_calendar::{CivilDate, Day};

#[test]
fn an_empty_cell_shows_nothing_and_is_not_marked() {
    let cell = Day::empty();
    assert_eq!(cell.txt(), "");
    assert!(!cell.red());
}

#[test]
fn a_weekday_cell_shows_its_day_and_is_not_marked() {
    // 1 March 2017 is a Wednesday.
    let cell = Day::from(CivilDate::from_ymd(2017, 3, 1).unwrap());
    assert_eq!(cell.txt(), "1");
    assert!(!cell.red());
    // 31 March 2017 is a Friday.
    let cell = Day::from(CivilDate::from_ymd(2017, 3, 31).unwrap());
    assert_eq!(cell.txt(), "31");
    assert!(!cell.red());
}

#[test]
fn saturday_and_sunday_cells_are_marked() {
    let saturday = Day::from(CivilDate::from_ymd(2017, 3, 4).unwrap());
    assert_eq!(saturday.txt(), "4");
    assert!(saturday.red());
    let sunday = Day::from(CivilDate::from_ymd(2017, 3, 5).unwrap());
    assert_eq!(sunday.txt(), "5");
    assert!(sunday.red());
    let monday = Day::from(CivilDate::from_ymd(2017, 3, 6).unwrap());
    assert!(!monday.red());
}

#[test]
fn a_week_of_cells_marks_its_last_two_days() {
    // 6 to 12 March 2017 run from Monday to Sunday.
    let marks: Vec<bool> = (6..=12)
        .map(|day| Day::from(CivilDate::from_ymd(2017, 3, day).unwrap()).red())
        .collect();
    assert_eq!(marks, vec![false, false, false, false, false, true, true]);
}

#[test]
fn a_cloned_cell_is_equal() {
    let cell = Day::from(CivilDate::from_ymd(2017, 3, 4).unwrap());
    assert_eq!(cell.clone(), cell);
    assert_eq!(Day::empty().clone(), Day::empty());
    assert_ne!(cell, Day::empty());
}

#[test]
fn decimal_of_small_numbers() {
    assert_eq!(decimal_string(0), "0");
    assert_eq!(decimal_string(7), "7");
    assert_eq!(decimal_string(9), "9");
    assert_eq!(decimal_string(10), "10");
    assert_eq!(decimal_string(31), "31");
    assert_eq!(decimal_string(100), "100");
    assert_eq!(decimal_string(2017), "2017");
    assert_eq!(decimal_string(1234567890), "1234567890");
}

#[test]
fn decimal_of_negative_numbers() {
    assert_eq!(decimal_string(-1), "-1");
    assert_eq!(decimal_string(-10), "-10");
    assert_eq!(decimal_string(-262143), "-262143");
}

#[test]
fn decimal_of_the_extremes() {
    assert_eq!(decimal_string(i64::MAX), "9223372036854775807");
    assert_eq!(decimal_string(i64::MIN), "-9223372036854775808");
}

#[test]
fn decimal_agrees_with_the_standard_formatting() {
    for n in -2000i64..=2000 {
        assert_eq!(decimal_string(n), n.to_string());
    }
    for shift in 0..63 {
        let n = 1i64 << shift;
        assert_eq!(decimal_string(n), n.to_string());
        assert_eq!(decimal_string(-n), (-n).to_string());
        assert_eq!(decimal_string(n - 1), (n - 1).to_string());
    }
}

#[test]
fn digits_are_appended_to_what_is_there() {
    let mut text = String::from("day ");
    push_decimal_digits(&mut text, 27);
    assert_eq!(text, "day 27");
    push_decimal_digits(&mut text, 0);
    assert_eq!(text, "day 270");
    push_decimal_digits(&mut text, u64::MAX);
    assert_eq!(text, "day 27018446744073709551615");
}

#[test]
fn no_cells_make_no_weeks() {
    let weeks: Vec<Vec<u8>> = into_weeks(Vec::new());
    assert!(weeks.is_empty());
}

#[test]
fn seven_cells_make_one_week() {
    assert_eq!(into_weeks(vec![1, 2, 3, 4, 5, 6, 7]), vec![vec![1, 2, 3, 4, 5, 6, 7]]);
}

#[test]
fn an_eighth_cell_starts_a_second_week() {
    assert_eq!(
        into_weeks(vec![1, 2, 3, 4, 5, 6, 7, 8]),
        vec![vec![1, 2, 3, 4, 5, 6, 7], vec![8]]
    );
}

#[test]
fn few_cells_make_one_short_week() {
    assert_eq!(into_weeks(vec!['a', 'b', 'c']), vec![vec!['a', 'b', 'c']]);
}

#[test]
fn weeks_put_together_are_the_cells() {
    for count in 0..60usize {
        let cells: Vec<usize> = (0..count).collect();
        let weeks = into_weeks(cells.clone());
        assert_eq!(weeks.len(), (count + 6) / 7);
        for (number, week) in weeks.iter().enumerate() {
            if number + 1 < weeks.len() {
                assert_eq!(week.len(), 7);
            } else {
                assert!(1 <= week.len() && week.len() <= 7);
            }
        }
        let together: Vec<usize> = weeks.into_iter().flatten().collect();
        assert_eq!(together, cells);
    }
}
