use boilchangeip::status_card::{format_countdown, CountdownState};
use boilchangeip::time::Duration;

#[test]
fn countdown_formats_not_available() {
    assert_eq!(format_countdown(&CountdownState::NotAvailable), "N/A");
}

#[test]
fn countdown_formats_more_than_one_day() {
    assert_eq!(
        format_countdown(&CountdownState::Duration(Duration::from_secs(
            2 * 86_400 + 3 * 3_600 + 18 * 60 + 42,
        ))),
        "2天 03:18:42"
    );
}

#[test]
fn countdown_formats_paused() {
    assert_eq!(format_countdown(&CountdownState::Paused), "已暂停");
}
