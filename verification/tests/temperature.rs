use conversions::temperature::{
    read_letters, show, show_lettered, tidy, LetterError, LetterRequest, ParseTempError, Reading,
    Temperature, TemperatureUnit,
};

fn reading(number: &str, kind: TemperatureUnit) -> Result<Reading, ParseTempError> {
    Ok(Reading {
        number: number.to_string(),
        kind,
    })
}

#[test]
fn readings_with_letters_and_words() {
    assert_eq!(Reading::parse("65F"), reading("65", TemperatureUnit::Fahrenheit));
    assert_eq!(Reading::parse("65f"), reading("65", TemperatureUnit::Fahrenheit));
    assert_eq!(Reading::parse("18.33C"), reading("18.33", TemperatureUnit::Celsius));
    assert_eq!(Reading::parse(" 18.33 c"), reading("18.33", TemperatureUnit::Celsius));
    assert_eq!(Reading::parse("300K"), reading("300", TemperatureUnit::Kelvin));
    assert_eq!(Reading::parse("300 Kelvin"), reading("300", TemperatureUnit::Kelvin));
    assert_eq!(Reading::parse("-40 celsius"), reading("-40", TemperatureUnit::Celsius));
    assert_eq!(Reading::parse("-40 cel"), reading("-40", TemperatureUnit::Celsius));
    assert_eq!(Reading::parse("-40 Fahrenheit"), reading("-40", TemperatureUnit::Fahrenheit));
    assert_eq!(Reading::parse("-40 fah"), reading("-40", TemperatureUnit::Fahrenheit));
    assert_eq!(Reading::parse("1e2k"), reading("1e2", TemperatureUnit::Kelvin));
    assert_eq!(Reading::parse("infk"), reading("inf", TemperatureUnit::Kelvin));
    // One name is taken off, not two.
    assert_eq!(
        Reading::parse("5 cc"),
        Err(ParseTempError::InvalidNumber("5 c".to_string()))
    );
    // `inf` ends with the letter of a scale.
    assert_eq!(
        Reading::parse("inf"),
        Err(ParseTempError::InvalidNumber("in".to_string()))
    );
}

#[test]
fn readings_without_a_unit() {
    for text in ["", "65", "65 degrees", "20 kel", "k20", "c 20", "65F ", "20 °"] {
        assert_eq!(Reading::parse(text), Err(ParseTempError::InvalidUnit), "{text:?}");
    }
    assert_eq!(ParseTempError::InvalidUnit.to_string(), "Invalid unit provided");
}

#[test]
fn readings_without_a_number() {
    assert_eq!(
        Reading::parse("abc c"),
        Err(ParseTempError::InvalidNumber("abc".to_string()))
    );
    assert_eq!(
        Reading::parse("  F"),
        Err(ParseTempError::InvalidNumber("".to_string()))
    );
    assert_eq!(
        Reading::parse("k"),
        Err(ParseTempError::InvalidNumber("".to_string()))
    );
    assert_eq!(
        Reading::parse("1,5 Kelvin"),
        Err(ParseTempError::InvalidNumber("1,5".to_string()))
    );
    assert_eq!(
        Reading::parse("6 5 f").unwrap_err().to_string(),
        "Invalid number provided: 6 5"
    );
    for before in ["", "x", "1e", "--1", " 1 1 ", "1.2.3"] {
        let text = format!("{before}k");
        assert!(before.trim().parse::<f64>().is_err());
        assert_eq!(
            Reading::parse(&text),
            Err(ParseTempError::InvalidNumber(before.trim().to_string())),
            "{text:?}"
        );
    }
}

#[test]
fn reading_parse_lowered_takes_the_text_as_it_is() {
    assert_eq!(
        Reading::parse_lowered("65f"),
        reading("65", TemperatureUnit::Fahrenheit)
    );
    assert_eq!(Reading::parse_lowered("65F"), Err(ParseTempError::InvalidUnit));
}

#[test]
fn scales_by_letter() {
    assert_eq!(TemperatureUnit::from_letter('C'), Some(TemperatureUnit::Celsius));
    assert_eq!(TemperatureUnit::from_letter('c'), Some(TemperatureUnit::Celsius));
    assert_eq!(TemperatureUnit::from_letter('F'), Some(TemperatureUnit::Fahrenheit));
    assert_eq!(TemperatureUnit::from_letter('f'), Some(TemperatureUnit::Fahrenheit));
    assert_eq!(TemperatureUnit::from_letter('K'), Some(TemperatureUnit::Kelvin));
    assert_eq!(TemperatureUnit::from_letter('k'), Some(TemperatureUnit::Kelvin));
    for c in ['x', ' ', '0', 'R', 'ç', '\u{212a}'] {
        assert_eq!(TemperatureUnit::from_letter(c), None, "{c:?}");
    }
    assert_eq!(TemperatureUnit::Kelvin.name(), "Kelvin");
    assert_eq!(TemperatureUnit::Celsius.name(), "Celsius");
    assert_eq!(TemperatureUnit::Fahrenheit.name(), "Fahrenheit");
    assert_eq!(TemperatureUnit::Kelvin.words(), vec!["k", "kelvin"]);
    assert_eq!(TemperatureUnit::Celsius.words(), vec!["c", "celsius", "cel"]);
    assert_eq!(TemperatureUnit::Fahrenheit.words(), vec!["f", "fahrenheit", "fah"]);
}

#[test]
fn digits_are_tidied() {
    assert_eq!(tidy("0.000"), "0");
    assert_eq!(tidy("18.330"), "18.33");
    assert_eq!(tidy("273.150"), "273.15");
    assert_eq!(tidy("-40.000"), "-40");
    assert_eq!(tidy("65.000"), "65");
    assert_eq!(tidy("100.000"), "100");
    assert_eq!(tidy("300.000"), "300");
    assert_eq!(tidy("0.500"), "0.5");
    assert_eq!(tidy("-0.000"), "-0");
    assert_eq!(tidy("0.001"), "0.001");
    assert_eq!(tidy("1.234"), "1.234");
    assert_eq!(tidy("10.010"), "10.01");
    assert_eq!(tidy("1000.100"), "1000.1");
    assert_eq!(tidy("inf"), "inf");
    assert_eq!(tidy("NaN"), "NaN");
    assert_eq!(tidy(""), "");
    // Digits without a point are whole and keep every zero.
    assert_eq!(tidy("000"), "000");
    assert_eq!(tidy("0"), "0");
    assert_eq!(tidy("10"), "10");
    assert_eq!(tidy("300"), "300");
    // The point goes only where nothing but zeros stood behind it.
    assert_eq!(tidy("0.0000"), "0");
    assert_eq!(tidy("5."), "5");
    assert_eq!(tidy("."), "");
    assert_eq!(tidy(".0"), "");
    assert_eq!(tidy(".50"), ".5");
    assert_eq!(tidy("..00.."), "..00.");
}

#[test]
fn shown_digits_read_back_as_the_value() {
    for value in [
        300.0f64, 273.15, 0.0, -40.0, 100.0, 18.33, 1000.1, 0.5, -0.0004, 1e9, 10.01, 255.372,
        -17.778, 0.001, 99.9995,
    ] {
        let digits = format!("{value:.3}");
        let tidied = tidy(&digits);
        let rounded: f64 = digits.parse().unwrap();
        assert_eq!(tidied.parse::<f64>().unwrap(), rounded, "{digits}");
        assert!(!tidied.ends_with('.'), "{digits}");
        assert!(!tidied.contains('.') || !tidied.ends_with('0'), "{digits}");
    }
}

#[test]
fn temperatures_are_shown_with_their_scale() {
    assert_eq!(show("18.330", TemperatureUnit::Celsius), "18.33 Celsius");
    assert_eq!(show("0.000", TemperatureUnit::Kelvin), "0 Kelvin");
    assert_eq!(show("300.000", TemperatureUnit::Kelvin), "300 Kelvin");
    assert_eq!(show("-40.000", TemperatureUnit::Fahrenheit), "-40 Fahrenheit");
    assert_eq!(show("64.994", TemperatureUnit::Fahrenheit), "64.994 Fahrenheit");
    let shown = |value: f64, kind| show(&format!("{value:.3}"), kind);
    assert_eq!(shown(291.48 - 273.15, TemperatureUnit::Celsius), "18.33 Celsius");
    assert_eq!(shown(0.0, TemperatureUnit::Kelvin), "0 Kelvin");
    assert_eq!(shown(300.0, TemperatureUnit::Kelvin), "300 Kelvin");
    assert_eq!(shown(100.0, TemperatureUnit::Celsius), "100 Celsius");
}

#[test]
fn showing_a_temperature_in_another_scale_changes_nothing_else() {
    let mut t = Temperature::new(291.48, TemperatureUnit::Kelvin);
    assert_eq!(t.kind, TemperatureUnit::Kelvin);
    t.as_cel();
    assert_eq!(t, Temperature::new(291.48, TemperatureUnit::Celsius));
    t.as_fah();
    assert_eq!(t, Temperature::new(291.48, TemperatureUnit::Fahrenheit));
    t.as_kel();
    assert_eq!(t, Temperature::new(291.48, TemperatureUnit::Kelvin));
    assert_eq!(t.as_cel().as_fah().kind, TemperatureUnit::Fahrenheit);
    assert_eq!(t.temp, 291.48);
    assert_eq!(t.show("64.994"), "64.994 Fahrenheit");
    assert_eq!(t.as_kel().show("291.480"), "291.48 Kelvin");
}

#[test]
fn temperatures_with_single_letters() {
    let request = |number: &str, from, to| {
        Ok(LetterRequest {
            number: number.to_string(),
            from,
            to,
        })
    };
    assert_eq!(
        read_letters("65F", 'c'),
        request("65", TemperatureUnit::Fahrenheit, TemperatureUnit::Celsius)
    );
    assert_eq!(
        read_letters("18.33c", 'K'),
        request("18.33", TemperatureUnit::Celsius, TemperatureUnit::Kelvin)
    );
    assert_eq!(
        read_letters("k", 'f'),
        request("", TemperatureUnit::Kelvin, TemperatureUnit::Fahrenheit)
    );
    // What stands before the letter is kept as it stands.
    assert_eq!(
        read_letters(" 65 F", 'F'),
        request(" 65 ", TemperatureUnit::Fahrenheit, TemperatureUnit::Fahrenheit)
    );
    assert_eq!(read_letters("65", 'c'), Err(LetterError::NoUnit));
    assert_eq!(read_letters("65F ", 'c'), Err(LetterError::NoUnit));
    assert_eq!(read_letters("65F", 'x'), Err(LetterError::NoTarget));
    // The scale of the temperature is looked at first.
    assert_eq!(read_letters("65", 'x'), Err(LetterError::NoUnit));
    assert_eq!(
        LetterError::NoUnit.message(),
        "Error: No viable unit specified"
    );
    assert_eq!(
        LetterError::NoTarget.message(),
        "Error: No viable target specified"
    );
    assert_eq!(
        LetterError::NotANumber.message(),
        "Error: not a parseable number!"
    );
    assert_eq!(show_lettered("18.3", 'C'), "18.3C");
    assert_eq!(show_lettered("", 'k'), "k");
    let converted = (65.0f64 - 32.0) / 1.8;
    assert_eq!(show_lettered(&format!("{converted:.1}"), 'c'), "18.3c");
}
