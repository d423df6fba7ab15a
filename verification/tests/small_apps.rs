use std::time::Duration;

use playground::content::{format_for_subtype, response_format, ResponseFormat, Xml};
use playground::delay::my_sleep;
use playground::guess::{check_guess, secret_number, secret_range, GuessOutcome};

#[test]
fn accept_header_choice() {
    assert_eq!(response_format(Some("application/json")), ResponseFormat::Json);
    assert_eq!(response_format(Some("text/xml")), ResponseFormat::Xml);
    assert_eq!(response_format(Some("Application/JSON")), ResponseFormat::Json);
    assert_eq!(response_format(Some("application/json; charset=utf-8")), ResponseFormat::Json);
    assert_eq!(response_format(Some("text/html")), ResponseFormat::Unsupported);
    assert_eq!(response_format(Some("garbage")), ResponseFormat::UnknownEncoding);
    assert_eq!(response_format(None), ResponseFormat::UnknownEncoding);
}

#[test]
fn subtype_choice() {
    assert_eq!(format_for_subtype(Some("xml")), ResponseFormat::Xml);
    assert_eq!(format_for_subtype(Some("json")), ResponseFormat::Json);
    assert_eq!(format_for_subtype(Some("plain")), ResponseFormat::Unsupported);
    assert_eq!(format_for_subtype(None), ResponseFormat::UnknownEncoding);
    let wrapped = Xml(5);
    assert_eq!(wrapped.0, 5);
}

#[test]
fn secret_is_in_range() {
    for _ in 0..200 {
        let secret = secret_number();
        assert!((1..=100).contains(&secret));
    }
}

#[test]
fn guesses() {
    assert_eq!(check_guess("50\n", 50), GuessOutcome::Win);
    assert_eq!(check_guess(" 10 \r\n", 50), GuessOutcome::Less);
    assert_eq!(check_guess("99", 50), GuessOutcome::Greater);
    assert_eq!(check_guess("abc\n", 50), GuessOutcome::Invalid);
    assert_eq!(check_guess("-5\n", 50), GuessOutcome::Invalid);
}

#[test]
fn zero_delay_is_ready_at_once() {
    let mut delay = my_sleep(Duration::from_millis(0));
    assert!(delay.poll_ready());
}

#[test]
fn long_delay_stays_pending() {
    let mut delay = my_sleep(Duration::from_secs(3600));
    assert!(!delay.poll_ready());
    assert!(!delay.poll_ready());
}

#[test]
fn short_delay_becomes_ready() {
    let mut delay = my_sleep(Duration::from_millis(20));
    assert!(!delay.poll_ready());
    let start = std::time::Instant::now();
    while start.elapsed() < Duration::from_millis(40) {}
    assert!(delay.poll_ready());
}

#[test]
fn poll_follows_the_clock_answer() {
    let mut delay = my_sleep(Duration::from_secs(3600));
    let start = time::Instant::now();
    assert!(!delay.poll_with(start, true));
    assert!(delay.poll_with(start, false));
    let mut quick = my_sleep(Duration::from_millis(0));
    assert!(quick.poll_with(start, false));
}

#[test]
fn secret_range_is_one_to_a_hundred() {
    assert_eq!(secret_range(), (1, 100));
}

#[test]
fn wait_is_measured_from_the_first_poll() {
    let mut delay = my_sleep(Duration::from_secs(3600));
    let first = time::Instant::now();
    assert_eq!(delay.wait_start(first), first);
    assert!(!delay.poll_with(first, true));
    let later = first + Duration::from_secs(5);
    assert_eq!(delay.wait_start(later), first);
}
