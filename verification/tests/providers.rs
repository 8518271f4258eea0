use terra_shell::battery::parse_battery;
use terra_shell::brightness::parse_brightness;
use terra_shell::media::{media_from_metadata, parse_media_status};
use terra_shell::network::parse_wifi;

#[test]
fn battery_reading_trims_and_parses() {
    assert_eq!(parse_battery(b" 85\n", b"Charging\n"), Some((85, true)));
    assert_eq!(parse_battery(b"100", b"Full"), Some((100, false)));
    assert_eq!(parse_battery(b"42\n", b"Discharging\n"), Some((42, false)));
}

#[test]
fn battery_reading_fails_on_a_bad_capacity() {
    assert_eq!(parse_battery(b"eighty\n", b"Charging\n"), None);
    assert_eq!(parse_battery(b"", b"Charging"), None);
    assert_eq!(parse_battery(b"300", b"Charging"), None);
}

#[test]
fn brightness_takes_the_fourth_field() {
    assert_eq!(parse_brightness(b"intel_backlight,backlight,120,47%,255"), Some(47));
    assert_eq!(parse_brightness(b"dev,class,10,100%"), Some(100));
}

#[test]
fn brightness_fails_on_short_or_bad_output() {
    assert_eq!(parse_brightness(b"dev,class,10"), None);
    assert_eq!(parse_brightness(b""), None);
    assert_eq!(parse_brightness(b"dev,class,10,high%"), None);
}

#[test]
fn media_status_reads_the_player_state() {
    assert_eq!(parse_media_status(b"Playing\n"), Some(true));
    assert_eq!(parse_media_status(b"Paused\n"), Some(false));
    assert_eq!(parse_media_status(b"Stopped"), Some(false));
}

#[test]
fn media_status_reports_no_player() {
    assert_eq!(parse_media_status(b""), None);
    assert_eq!(parse_media_status(b"  \n"), None);
    assert_eq!(parse_media_status(b"No players found\n"), None);
}

#[test]
fn media_metadata_fills_the_three_lines() {
    let info = media_from_metadata(true, b"Song\nThe Artist\nThe Album\n");
    assert_eq!(info.title, b"Song".to_vec());
    assert_eq!(info.artist, b"The Artist".to_vec());
    assert_eq!(info.album, b"The Album".to_vec());
    assert!(info.playing);
    assert_eq!(info.position, 0);
    assert_eq!(info.duration, 0);
}

#[test]
fn media_metadata_missing_lines_are_empty() {
    let info = media_from_metadata(false, b"Song\n");
    assert_eq!(info.title, b"Song".to_vec());
    assert_eq!(info.artist, b"".to_vec());
    assert_eq!(info.album, b"".to_vec());
    assert!(!info.playing);
    let none = media_from_metadata(false, b"");
    assert_eq!(none.title, b"".to_vec());
}

#[test]
fn wifi_takes_the_first_active_line() {
    let info = parse_wifi(b"no:OtherNet:80\nyes:HomeWifi:72\nyes:Second:10\n");
    assert!(info.connected);
    assert_eq!(info.ssid, Some(b"HomeWifi".to_vec()));
    assert_eq!(info.strength, Some(72));
}

#[test]
fn wifi_with_unparseable_signal_still_connects() {
    let info = parse_wifi(b"yes:HomeWifi:strong\n");
    assert!(info.connected);
    assert_eq!(info.ssid, Some(b"HomeWifi".to_vec()));
    assert_eq!(info.strength, None);
}

#[test]
fn wifi_without_an_active_line_is_disconnected() {
    let info = parse_wifi(b"no:OtherNet:80\nno:Third:12\n");
    assert!(!info.connected);
    assert_eq!(info.ssid, None);
    assert_eq!(info.strength, None);
    let empty = parse_wifi(b"");
    assert!(!empty.connected);
}

#[test]
fn wifi_lines_with_too_few_fields_are_skipped() {
    let info = parse_wifi(b"yes:NoSignalField\nyes:Real:55\n");
    assert!(info.connected);
    assert_eq!(info.ssid, Some(b"Real".to_vec()));
    assert_eq!(info.strength, Some(55));
}
