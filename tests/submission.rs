use cobra::config::{parse_interval_ms, parse_interval_secs, Args, ParseIntError};
use cobra::score::{calculate_accuracy, mods_to_string, Accuracy, AccuracyError, Hit};
use cobra::submit::{
    beatmap_request, get_token, score_submission, set_token, ResultRecord, Session, SubmitError,
};
use cobra::text::decimal_string;

#[test]
fn accuracy_all_300_is_exactly_one() {
    let a = calculate_accuracy(0, 100, 0, 0, 0, 0, 0).unwrap();
    assert_eq!(a.numerator, a.denominator);
    assert_eq!(a.numerator as f64 / a.denominator as f64, 1.0);
    assert_eq!(a.percent_string(), "100.000000000000000000000000");
}

#[test]
fn accuracy_unsupported_mode() {
    assert_eq!(
        calculate_accuracy(9, 100, 0, 0, 0, 0, 0),
        Err(AccuracyError::UnsupportedMode(9))
    );
}

#[test]
fn accuracy_formulas() {
    // standard: (6*90 + 2*5 + 3) / (6*(90+5+3+2))
    assert_eq!(
        calculate_accuracy(0, 90, 5, 3, 0, 0, 2),
        Ok(Accuracy { numerator: 553, denominator: 600 })
    );
    // mode 1 leaves the 50s out of the numerator
    assert_eq!(
        calculate_accuracy(1, 10, 4, 2, 0, 0, 0),
        Ok(Accuracy { numerator: 24, denominator: 32 })
    );
    assert_eq!(
        calculate_accuracy(2, 10, 4, 2, 0, 3, 1),
        Ok(Accuracy { numerator: 16, denominator: 20 })
    );
    assert_eq!(
        calculate_accuracy(3, 10, 4, 2, 5, 3, 1),
        Ok(Accuracy { numerator: 90 + 12 + 8 + 2, denominator: 150 })
    );
    assert_eq!(calculate_accuracy(0, 0, 0, 0, 0, 0, 0), Err(AccuracyError::NoHits));
    assert_eq!(calculate_accuracy(0, -1, 0, 0, 0, 0, 0), Err(AccuracyError::NegativeCount));
    assert_eq!(
        Accuracy { numerator: 553, denominator: 600 }.percent_string(),
        "92.166666666666666666666667"
    );
    assert_eq!(Accuracy { numerator: 1, denominator: 20 }.percent_string(), "5.000000000000000000000000");
    assert_eq!(Accuracy { numerator: 0, denominator: 3 }.percent_string(), "0.000000000000000000000000");
    assert_eq!(Accuracy { numerator: 1, denominator: 3 }.percent_string(), "33.333333333333333333333333");
}

#[test]
fn excluded_mod_alone_renders_empty() {
    assert_eq!(mods_to_string(1 << 9), "");
}

#[test]
fn mod_lists() {
    assert_eq!(mods_to_string(0), "");
    assert_eq!(mods_to_string(8 | 16), "HD,HR");
    assert_eq!(mods_to_string(64 | 512), "DT");
    assert_eq!(mods_to_string(1 | 512 | 1024), "NF,FL");
    assert_eq!(mods_to_string(1 << 30), "MR");
}

#[test]
fn decimals() {
    assert_eq!(decimal_string(0), "0");
    assert_eq!(decimal_string(1234567), "1234567");
    assert_eq!(decimal_string(-45), "-45");
    assert_eq!(decimal_string(i64::MIN), "-9223372036854775808");
}

#[test]
fn token_is_kept_in_the_session() {
    let mut s = Session::new();
    assert_eq!(get_token(&s), None);
    set_token(&mut s, "abc".to_string());
    assert_eq!(get_token(&s), Some("abc".to_string()));
    set_token(&mut s, "def".to_string());
    assert_eq!(get_token(&s), Some("def".to_string()));
}

#[test]
fn beatmap_request_body() {
    let mut s = Session::new();
    assert_eq!(beatmap_request(&s, "d41d8c"), Err(SubmitError::NoToken));
    set_token(&mut s, "tok".to_string());
    assert_eq!(
        beatmap_request(&s, "d41d8c").unwrap(),
        r#"{"token": "tok","map": {"checkSum": "d41d8c"}}"#
    );
}

fn record(mode: u8) -> ResultRecord {
    ResultRecord {
        username: "player".to_string(),
        mode,
        max_combo: 321,
        score: 987654,
        hit: Hit { _geki: 7, _300: 90, _katu: 4, _100: 5, _50: 3, _miss: 2 },
        mods: 8 | 64 | 512,
    }
}

#[test]
fn score_submission_body() {
    let mut s = Session::new();
    assert_eq!(score_submission(&s, "md5", &record(0)), Err(SubmitError::NoToken));
    set_token(&mut s, "tok".to_string());
    let body = score_submission(&s, "md5", &record(0)).unwrap();
    assert_eq!(
        body,
        r#"{"token": "tok", "map": {"checkSum": "md5"}, "score": {"devServer": "bancho","scorePoint": 987654, "accuracy": 92.166666666666666666666667,"marvelous": 7,"perfect": 90,"great": 4,"good": 5,"bad": 3,"miss": 2,"modList": "HD,DT","maxCombo": 321}, "pc": {"macaddr": "temp","hwid": "temp"} }"#
    );
    assert_eq!(
        score_submission(&s, "md5", &record(7)),
        Err(SubmitError::Accuracy(AccuracyError::UnsupportedMode(7)))
    );
}

#[test]
fn request_strings_are_escaped() {
    let mut s = Session::new();
    set_token(&mut s, "a\"b\\c".to_string());
    assert_eq!(
        beatmap_request(&s, "x\ny\u{1}").unwrap(),
        r#"{"token": "a\"b\\c","map": {"checkSum": "x\ny\u0001"}}"#
    );
    let body = score_submission(&s, "q\"", &record(0)).unwrap();
    assert!(body.starts_with(r#"{"token": "a\"b\\c", "map": {"checkSum": "q\""}, "#));
}

#[test]
fn result_record_accuracy() {
    assert_eq!(record(0).accuracy(), Ok(Accuracy { numerator: 553, denominator: 600 }));
    assert_eq!(Hit::default(), Hit { _geki: 0, _300: 0, _katu: 0, _100: 0, _50: 0, _miss: 0 });
}

#[test]
fn interval_arguments() {
    assert_eq!(parse_interval_ms("200"), Ok(200));
    assert_eq!(parse_interval_secs("3"), Ok(3));
    assert_eq!(parse_interval_ms("+15"), Ok(15));
    assert_eq!(parse_interval_ms(""), Err(ParseIntError));
    assert_eq!(parse_interval_ms("-1"), Err(ParseIntError));
    assert_eq!(parse_interval_ms("12a"), Err(ParseIntError));
    assert_eq!(parse_interval_ms("18446744073709551616"), Err(ParseIntError));
    assert_eq!(parse_interval_ms("18446744073709551615"), Ok(u64::MAX));
    let args = Args::default();
    assert_eq!(args.interval_ms, 300);
    assert_eq!(args.error_interval_secs, 3);
    assert!(args.osu_path.is_none());
}
