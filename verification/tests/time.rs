use muxfin::time::{rescale, LanguageCode, SampleTime, Timescale};

#[test]
fn rescale_rounds() {
    let from = Timescale::const_new(90_000);
    let to = Timescale::const_new(1_000);
    assert_eq!(rescale(4_500, from, to).unwrap(), 50);
}

#[test]
fn time_zero_duration_rejected() {
    assert!(SampleTime::new(0, 0, 0).is_err());
}

#[test]
fn language_parse() {
    assert!(LanguageCode::parse("eng").is_ok());
    assert!(LanguageCode::parse("EN").is_err());
    assert!(LanguageCode::parse("english").is_err());
}
