use status_server::duration::parse_duration;

fn nanos(text: &str) -> Option<i128> {
    parse_duration(text).map(|d| d.nanos)
}

#[test]
fn single_units() {
    assert_eq!(nanos("1h"), Some(3_600_000_000_000));
    assert_eq!(nanos("100s"), Some(100_000_000_000));
    assert_eq!(nanos("6h"), Some(6 * 3_600_000_000_000));
    assert_eq!(nanos("5s"), Some(5_000_000_000));
    assert_eq!(nanos("1m"), Some(60_000_000_000));
    assert_eq!(nanos("30min"), Some(30 * 60_000_000_000));
    assert_eq!(nanos("250ms"), Some(250_000_000));
    assert_eq!(nanos("2d"), Some(2 * 86_400_000_000_000));
    assert_eq!(nanos("1w"), Some(604_800_000_000_000));
}

#[test]
fn several_terms_add_up() {
    assert_eq!(nanos("5h10m"), Some(5 * 3_600_000_000_000 + 10 * 60_000_000_000));
    assert_eq!(nanos("1h1m1s"), Some(3_661_000_000_000));
    assert_eq!(nanos("0s"), Some(0));
}

#[test]
fn malformed_durations_are_refused() {
    assert_eq!(nanos(""), None);
    assert_eq!(nanos("5"), None);
    assert_eq!(nanos("h"), None);
    assert_eq!(nanos("5x"), None);
    assert_eq!(nanos("5 h"), None);
    assert_eq!(nanos("-5s"), None);
    assert_eq!(nanos("1h5"), None);
}

#[test]
fn durations_too_long_for_nanoseconds_are_refused() {
    assert_eq!(nanos("999999999999999999999999999999999999999w"), None);
    assert_eq!(nanos("170141183460469231731s"), Some(170_141_183_460_469_231_731_000_000_000));
    assert_eq!(nanos("170141183460469231731687303715884105728ms"), None);
    assert_eq!(nanos("170141183460469231731687303716s"), None);
    assert_eq!(nanos("170141183460469231731687303715s"), Some(170_141_183_460_469_231_731_687_303_715_000_000_000));
    assert_eq!(nanos("170141183460469231731687303715s1s"), None);
}
