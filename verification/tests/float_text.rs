use michi::resilience::{check_retry_delays, normalize_retry_delays, Delay, RetryDelayError};
use michi::text::FloatText;

#[test]
fn formatted_floats_are_accepted_with_their_bits() {
    let samples = [
        0.0f64, -0.0, 1.0, -1.5, 3.14159, 1e21, 1e-7, f64::MAX, f64::MIN_POSITIVE, 5e-324, f64::NAN, -f64::NAN,
        f64::INFINITY, f64::NEG_INFINITY,
    ];
    for x in samples {
        let f = FloatText::new(format!("{x}"), x.to_bits()).unwrap();
        assert_eq!(f.text(), format!("{x}"));
        assert_eq!(f.bits(), x.to_bits());
        assert_eq!(f.is_finite(), x.is_finite());
        for d in [0usize, 1, 3] {
            assert!(FloatText::new(format!("{x:.*}", d), x.to_bits()).is_some());
        }
    }
}

#[test]
fn texts_that_formatting_never_gives_are_refused() {
    assert!(FloatText::new("1e10".to_string(), 1e10f64.to_bits()).is_none());
    assert!(FloatText::new("1\n2".to_string(), 12.0f64.to_bits()).is_none());
    assert!(FloatText::new("1.2.3".to_string(), 1.2f64.to_bits()).is_none());
    assert!(FloatText::new(".5".to_string(), 0.5f64.to_bits()).is_none());
    assert!(FloatText::new("5.".to_string(), 5.0f64.to_bits()).is_none());
    assert!(FloatText::new("".to_string(), 0.0f64.to_bits()).is_none());
    assert!(FloatText::new("-".to_string(), 0.0f64.to_bits()).is_none());
    assert!(FloatText::new("inf".to_string(), 1.0f64.to_bits()).is_none());
    assert!(FloatText::new("1.5".to_string(), f64::NAN.to_bits()).is_none());
    assert!(FloatText::new("inf".to_string(), f64::NEG_INFINITY.to_bits()).is_none());
    assert!(FloatText::new("-inf".to_string(), f64::INFINITY.to_bits()).is_none());
    assert!(FloatText::new("nan".to_string(), f64::NAN.to_bits()).is_none());
}

#[test]
fn normalized_delays_floor_the_maximum_and_cap_the_base() {
    let (b, m) = normalize_retry_delays(Delay::from_millis(500), Delay::zero());
    assert_eq!((b, m), (Delay::from_millis(1), Delay::from_millis(1)));
    let (b, m) = normalize_retry_delays(Delay::from_secs(60), Delay::from_secs(30));
    assert_eq!((b, m), (Delay::from_secs(30), Delay::from_secs(30)));
    let (b, m) = normalize_retry_delays(Delay::from_millis(500), Delay::from_secs(30));
    assert_eq!((b, m), (Delay::from_millis(500), Delay::from_secs(30)));
    let (b, m) = normalize_retry_delays(Delay::new(0, 10), Delay::new(0, 999_999));
    assert_eq!((b, m), (Delay::new(0, 10), Delay::from_millis(1)));
}

#[test]
fn strict_delays_report_each_error() {
    assert_eq!(check_retry_delays(Delay::zero(), Delay::zero()), Err(RetryDelayError::MaxDelayIsZero));
    assert_eq!(
        check_retry_delays(Delay::from_secs(2), Delay::from_secs(1)),
        Err(RetryDelayError::BaseDelayExceedsMaxDelay { base: Delay::from_secs(2), max: Delay::from_secs(1) })
    );
    assert_eq!(check_retry_delays(Delay::from_secs(1), Delay::from_secs(1)), Ok(()));
    assert_eq!(check_retry_delays(Delay::zero(), Delay::new(0, 1)), Ok(()));
}
