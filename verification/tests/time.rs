use conversions::time::{describe, reject, run, split_sections, Time, TimeNotation};
use std::str::FromStr;

#[test]
fn test_from_str_12h_pm() {
    let t = Time::from_str("12:00:00 PM").unwrap();
    let time = Time {
        kind: TimeNotation::TwelveHour,
        hours: 12,
        minutes: 0,
        seconds: 0,
    };

    assert_eq!(t, time);
}

#[test]
fn test_from_str_12h_am() {
    let test = Time::from_str("6:40:00 AM").unwrap();
    let time = Time {
        kind: TimeNotation::TwelveHour,
        hours: 6,
        minutes: 40,
        seconds: 0,
    };

    assert_eq!(test, time);
}

#[test]
fn test_from_str_24h_pm() {
    let test = Time::from_str("14:50:11").unwrap();
    let time = Time {
        kind: TimeNotation::TwentyFourHour,
        hours: 14,
        minutes: 50,
        seconds: 11,
    };

    assert_eq!(test, time);
}

#[test]
fn test_from_str_24h_am() {
    let test = Time::from_str("0:50:11").unwrap();
    let time = Time {
        kind: TimeNotation::TwentyFourHour,
        hours: 0,
        minutes: 50,
        seconds: 11,
    };

    assert_eq!(test, time);
}

#[test]
fn test_stringify_12h_am() {
    let test = Time::from_str("6:40:00 AM").unwrap();
    assert_eq!(test.to_string(), "06:40:00 AM".to_string())
}

#[test]
fn test_stringify_12h_pm() {
    let test = Time::from_str("6:45:02 PM").unwrap();
    assert_eq!(test.to_string(), "06:45:02 PM".to_string())
}

#[test]
fn test_stringify_24h_pm() {
    let test = Time::from_str("14:40:00").unwrap();
    assert_eq!(test.to_string(), "14:40:00".to_string())
}

#[test]
fn test_stringify_24h_am() {
    let test = Time::from_str("00:45:02").unwrap();
    assert_eq!(test.to_string(), "00:45:02".to_string())
}

#[test]
fn test_convert_12h_to_24h_am() {
    let mut test = Time::from_str("6:40:00 AM").unwrap();
    test.to_24();
    let time = Time {
        kind: TimeNotation::TwentyFourHour,
        hours: 6,
        minutes: 40,
        seconds: 0,
    };

    assert_eq!(test, time);
}

#[test]
fn test_convert_12h_to_24h_pm() {
    let mut test = Time::from_str("6:45:05 PM").unwrap();
    test.to_24();
    let time = Time {
        kind: TimeNotation::TwentyFourHour,
        hours: 18,
        minutes: 45,
        seconds: 5,
    };

    assert_eq!(test, time);
}

#[test]
fn test_convert_24h_to_12h_am() {
    let mut test = Time::from_str("6:45:05").unwrap();
    test.to_12();
    let time = Time {
        kind: TimeNotation::TwelveHour,
        hours: 6,
        minutes: 45,
        seconds: 5,
    };

    assert_eq!(test, time);
}

#[test]
fn test_convert_24h_to_12h_pm() {
    let mut test = Time::from_str("24:0:05").unwrap();
    test.to_12();
    let time = Time {
        kind: TimeNotation::TwelveHour,
        hours: 24,
        minutes: 0,
        seconds: 5,
    };

    assert_eq!(test, time);
}

#[test]
fn run_answers_with_both_notations() {
    assert_eq!(run("14:30".to_string()), "14:30:00 -> 02:30:00 PM");
    assert_eq!(run("4:44am".to_string()), "04:44:00 AM -> 04:44:00");
    assert_eq!(run("12:20 PM".to_string()), "12:20:00 PM -> 12:20:00");
    assert_eq!(run("12:00:01 am".to_string()), "12:00:01 AM -> 00:00:01");
}

#[test]
fn run_rejects_what_is_no_time() {
    for text in ["", "noon", "1:2:3:4", "25:61:xx", "-1:00", "256:00", "12:00 xm", ":", "1::"] {
        assert_eq!(
            run(text.to_string()),
            format!("'{text}' is in improper form. Examples: '12:20 PM' or '17:00:08'."),
        );
        assert_eq!(run(text.to_string()), reject(text));
    }
}

#[test]
fn missing_sections_count_as_zero() {
    assert_eq!(
        Time::from_str("7").unwrap(),
        Time {
            kind: TimeNotation::TwentyFourHour,
            hours: 7,
            minutes: 0,
            seconds: 0
        }
    );
    assert_eq!(
        Time::from_str(" 7 : 5 ").unwrap(),
        Time {
            kind: TimeNotation::TwentyFourHour,
            hours: 7,
            minutes: 5,
            seconds: 0
        }
    );
    assert_eq!(
        Time::from_str("7pm").unwrap(),
        Time {
            kind: TimeNotation::TwelveHour,
            hours: 19,
            minutes: 0,
            seconds: 0
        }
    );
    assert_eq!(
        "+7:+05:+09".parse::<Time>().unwrap(),
        Time {
            kind: TimeNotation::TwentyFourHour,
            hours: 7,
            minutes: 5,
            seconds: 9
        }
    );
}

#[test]
fn hours_of_the_twelve_hour_clock() {
    let hours = |text: &str| Time::from_str(text).unwrap().hours;
    assert_eq!(hours("12:00 am"), 0);
    assert_eq!(hours("1:00 am"), 1);
    assert_eq!(hours("11:59 AM"), 11);
    assert_eq!(hours("12:00 pm"), 12);
    assert_eq!(hours("1:00 pm"), 13);
    assert_eq!(hours("11:00 PM"), 23);
    // Hours beyond the dial are kept as they are.
    assert_eq!(hours("13:00 pm"), 13);
    assert_eq!(hours("13:00 am"), 13);
    assert_eq!(hours("0:00 am"), 0);
    assert_eq!(hours("0:00 pm"), 12);
    assert_eq!(hours("255:00 pm"), 255);
    assert_eq!(hours("255:00"), 255);
}

#[test]
fn errors_name_the_reason_and_the_section() {
    let message = |text: &str| Time::from_str(text).unwrap_err().message().clone();
    assert_eq!(message("1:2:3:4"), "Too many sections!");
    assert_eq!(message("::::"), "Too many sections!");
    assert_eq!(message(""), "cannot parse integer from empty string ");
    assert_eq!(message("  "), "cannot parse integer from empty string   ");
    assert_eq!(message("pm"), "cannot parse integer from empty string ");
    assert_eq!(message("12: :1"), "cannot parse integer from empty string  ");
    assert_eq!(message("a:b"), "invalid digit found in string a");
    assert_eq!(message("1: x1 "), "invalid digit found in string  x1 ");
    assert_eq!(message("1:2:-3"), "invalid digit found in string -3");
    assert_eq!(message("1:+"), "invalid digit found in string +");
    assert_eq!(message("256:00"), "number too large to fit in target type 256");
    assert_eq!(message("1:2:999 AM"), "number too large to fit in target type 999 ");
    // The first section that holds no number is the one that is named.
    assert_eq!(message("x:300:y"), "invalid digit found in string x");
    assert_eq!(message("1:300:y"), "number too large to fit in target type 300");
    // Upper case is gone by the time the sections are read.
    assert_eq!(message("1:X"), "invalid digit found in string x");
}

#[test]
fn errors_read_as_those_of_the_standard_parser() {
    for section in ["", "+", "-", "x", "1x", "999x", "26x", "2560x", "99999", "256", "+256", "١"] {
        let expected = format!("{} {}", section.parse::<u8>().unwrap_err(), section);
        let text = format!("1:{section}");
        assert_eq!(
            Time::from_str(&text).unwrap_err().message(),
            &expected,
            "{text:?}"
        );
    }
}

#[test]
fn time_parse_lowered_takes_the_text_as_it_is() {
    assert_eq!(
        Time::parse_lowered("6:40 am").unwrap(),
        Time {
            kind: TimeNotation::TwelveHour,
            hours: 6,
            minutes: 40,
            seconds: 0
        }
    );
    assert_eq!(
        Time::parse_lowered("6:40 AM").unwrap_err().message(),
        "invalid digit found in string 40 AM"
    );
}

#[test]
fn rendering_in_both_notations() {
    let time = |kind, hours| Time {
        kind,
        hours,
        minutes: 5,
        seconds: 9,
    };
    let twelve = TimeNotation::TwelveHour;
    let twenty_four = TimeNotation::TwentyFourHour;
    assert_eq!(time(twelve, 0).to_string(), "12:05:09 AM");
    assert_eq!(time(twelve, 1).to_string(), "01:05:09 AM");
    assert_eq!(time(twelve, 11).to_string(), "11:05:09 AM");
    assert_eq!(time(twelve, 12).to_string(), "12:05:09 PM");
    assert_eq!(time(twelve, 13).to_string(), "01:05:09 PM");
    assert_eq!(time(twelve, 23).to_string(), "11:05:09 PM");
    assert_eq!(time(twelve, 24).to_string(), "12:05:09 AM");
    assert_eq!(time(twelve, 25).to_string(), "13:05:09 PM");
    assert_eq!(time(twelve, 255).to_string(), "243:05:09 PM");
    assert_eq!(time(twenty_four, 0).to_string(), "00:05:09");
    assert_eq!(time(twenty_four, 24).to_string(), "24:05:09");
    assert_eq!(time(twenty_four, 255).to_string(), "255:05:09");
    let wide = Time {
        kind: twenty_four,
        hours: 100,
        minutes: 199,
        seconds: 200,
    };
    assert_eq!(wide.to_string(), "100:199:200");
    for n in 0..=255u8 {
        let t = Time {
            kind: twenty_four,
            hours: n,
            minutes: n,
            seconds: n,
        };
        assert_eq!(t.to_string(), format!("{n:02}:{n:02}:{n:02}"));
    }
}

#[test]
fn notation_changes_leave_the_time_alone() {
    let mut t = Time {
        kind: TimeNotation::TwentyFourHour,
        hours: 18,
        minutes: 45,
        seconds: 5,
    };
    let shown = *t.to_opposite();
    assert_eq!(shown.kind, TimeNotation::TwelveHour);
    assert_eq!(t, shown);
    assert_eq!((t.hours, t.minutes, t.seconds), (18, 45, 5));
    t.to_opposite();
    assert_eq!(t.kind, TimeNotation::TwentyFourHour);
    t.to_24().to_12().to_12();
    assert_eq!(t.kind, TimeNotation::TwelveHour);
    assert_eq!((t.hours, t.minutes, t.seconds), (18, 45, 5));
    assert_eq!(describe(t), "06:45:05 PM -> 18:45:05");
}

#[test]
fn new_and_default_are_midnight() {
    let midnight = Time {
        kind: TimeNotation::TwentyFourHour,
        hours: 0,
        minutes: 0,
        seconds: 0,
    };
    assert_eq!(Time::new(TimeNotation::TwentyFourHour), midnight);
    assert_eq!(Time::default(), midnight);
    assert_eq!(TimeNotation::default(), TimeNotation::TwentyFourHour);
    assert_eq!(
        Time::new(TimeNotation::TwelveHour).to_string(),
        "12:00:00 AM"
    );
}

#[test]
fn sections_are_split_at_every_colon() {
    let split = |text: &str| {
        let chars: Vec<char> = text.chars().collect();
        let bounds = split_sections(&chars, 0, chars.len());
        let parts: Vec<String> = bounds
            .iter()
            .map(|(a, b)| chars[*a..*b].iter().collect())
            .collect();
        let expected: Vec<String> = text.split(':').map(|s| s.to_string()).collect();
        assert_eq!(parts, expected, "{text:?}");
        parts.len()
    };
    assert_eq!(split(""), 1);
    assert_eq!(split("12"), 1);
    assert_eq!(split("12:30"), 2);
    assert_eq!(split("12:30:15"), 3);
    assert_eq!(split(":"), 2);
    assert_eq!(split("::"), 3);
    assert_eq!(split("a::b:"), 4);
    assert_eq!(split(":12:"), 3);
}
