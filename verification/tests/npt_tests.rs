use mediarss::duration::MediaDuration;
use mediarss::npt::parse_npt;

// Verify we can parse NPT times
#[test]
fn test_parse_npt() {
    assert_eq!(parse_npt("12:05:35").unwrap(), MediaDuration::from_secs(12 * 3600 + 5 * 60 + 35));
    assert_eq!(
        parse_npt("12:05:35.123").unwrap(),
        MediaDuration::from_millis(12 * 3600000 + 5 * 60000 + 35 * 1000 + 123)
    );
    assert_eq!(parse_npt("123.45").unwrap(), MediaDuration::from_millis(123450));
}

#[test]
fn test_parse_npt_rejects_non_times() {
    assert!(parse_npt("not-a-time").is_none());
    assert!(parse_npt("").is_none());
    assert!(parse_npt("::").is_none());
}

#[test]
fn test_parse_npt_fraction_is_floored() {
    // fraction "5" of length 1 contributes floor(1000 * 5 / 10) = 500 ms
    assert_eq!(parse_npt("0.5").unwrap(), MediaDuration::from_millis(500));
    // fraction "05" of length 2 contributes floor(1000 * 5 / 100) = 50 ms
    assert_eq!(parse_npt("0.05").unwrap(), MediaDuration::from_millis(50));
    // fraction "2345" contributes floor(1000 * 2345 / 10000) = 234 ms
    assert_eq!(parse_npt("1.2345").unwrap(), MediaDuration::from_millis(1234));
    assert_eq!(parse_npt("7.000").unwrap(), MediaDuration::from_secs(7));
}

#[test]
fn test_parse_npt_takes_leftmost_match() {
    // the full-clock grammar matches inside surrounding text
    assert_eq!(
        parse_npt("t=1:02:03;rest").unwrap(),
        MediaDuration::from_secs(3600 + 2 * 60 + 3)
    );
    // with no clock match, the first digit run is read as seconds
    assert_eq!(parse_npt("ab12cd34").unwrap(), MediaDuration::from_secs(12));
    // minutes must be exactly two digits for the clock grammar
    assert_eq!(parse_npt("1:2:3").unwrap(), MediaDuration::from_secs(1));
}

#[test]
fn test_parse_npt_clock_without_fraction() {
    assert_eq!(parse_npt("0:00:00").unwrap(), MediaDuration::from_secs(0));
    assert_eq!(parse_npt("100:59:59").unwrap(), MediaDuration::from_secs(100 * 3600 + 59 * 60 + 59));
}

#[test]
fn test_parse_npt_huge_values_give_nothing() {
    // more seconds than a u64 can hold
    assert!(parse_npt("99999999999999999999999").is_none());
    assert!(parse_npt("99999999999999999999999:00:00").is_none());
}

#[test]
fn test_duration_accessors() {
    let d = MediaDuration::from_millis(123450);
    assert_eq!(d.as_millis(), 123450);
    assert_eq!(d.secs, 123);
    assert_eq!(d.millis, 450);
}
