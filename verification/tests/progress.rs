use rustjammers_engine::progress::seconds_to_string;

#[test]
fn seconds_only() {
    assert_eq!(seconds_to_string(0), "00:00");
    assert_eq!(seconds_to_string(7), "00:07");
    assert_eq!(seconds_to_string(59), "00:59");
}

#[test]
fn minutes_and_seconds() {
    assert_eq!(seconds_to_string(60), "01:00");
    assert_eq!(seconds_to_string(61), "01:01");
    assert_eq!(seconds_to_string(754), "12:34");
    assert_eq!(seconds_to_string(3599), "59:59");
}

#[test]
fn hours_come_first_when_there_are_any() {
    assert_eq!(seconds_to_string(3600), "01:00:00");
    assert_eq!(seconds_to_string(3661), "01:01:01");
    assert_eq!(seconds_to_string(36000 + 23 * 60 + 45), "10:23:45");
    assert_eq!(seconds_to_string(360000), "100:00:00");
}

#[test]
fn the_longest_span() {
    let hours = u64::MAX / 3600;
    let minutes = (u64::MAX % 3600) / 60;
    let seconds = u64::MAX % 60;
    assert_eq!(
        seconds_to_string(u64::MAX),
        format!("{:02}:{:02}:{:02}", hours, minutes, seconds)
    );
}

#[test]
fn agrees_with_the_formatter() {
    for seconds in (0u64..200_000).step_by(137) {
        let hours = seconds / 3600;
        let minutes = (seconds % 3600) / 60;
        let rest = seconds % 60;
        let expected = if hours > 0 {
            format!("{:02}:{:02}:{:02}", hours, minutes, rest)
        } else {
            format!("{:02}:{:02}", minutes, rest)
        };
        assert_eq!(seconds_to_string(seconds), expected);
    }
}
