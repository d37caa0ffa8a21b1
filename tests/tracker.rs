use cosmic_ext_applet_bitrate::app::{rate_per_second, to_unit, AppModel, Message};
use cosmic_ext_applet_bitrate::config::{BitrateAppletConfig, Unit};

fn config(unit: Unit, update_rate: u8) -> BitrateAppletConfig {
    BitrateAppletConfig { unit, update_rate, show_download_speed: true, show_upload_speed: true }
}

fn model(unit: Unit, received: u64, sent: u64) -> AppModel {
    AppModel::init(config(unit, 5), Some("eth0".to_string()), received, sent)
}

#[test]
fn rate_over_five_seconds_in_bytes() {
    let mut m = model(Unit::Bytes, 1000, 2000);
    m.update_bandwidth(Some(1500), Some(2500));
    assert_eq!(m.download_speed(), 100);
    assert_eq!(m.upload_speed(), 100);
    assert_eq!(m.download_speed_display(), "100");
    assert_eq!(m.download_unit(), "B/s");
    assert_eq!(m.received_bytes(), 1500);
    assert_eq!(m.sent_bytes(), 2500);
}

#[test]
fn rate_over_five_seconds_in_bits() {
    let mut m = model(Unit::Bits, 1000, 2000);
    m.update_bandwidth(Some(1500), Some(2500));
    assert_eq!(m.download_speed(), 800);
    assert_eq!(m.upload_speed(), 800);
    assert_eq!(m.upload_speed_display(), "800");
    assert_eq!(m.upload_unit(), "b/s");
}

#[test]
fn counter_regression_resynchronises() {
    let mut m = model(Unit::Bytes, 5000, 7000);
    m.update_bandwidth(Some(100), Some(7500));
    assert_eq!(m.download_speed(), 0);
    assert_eq!(m.received_bytes(), 100);
    assert_eq!(m.upload_speed(), 100);
    m.update_bandwidth(Some(600), None);
    assert_eq!(m.download_speed(), 100);
}

#[test]
fn failed_read_keeps_that_direction() {
    let mut m = model(Unit::Bytes, 0, 0);
    m.update_bandwidth(Some(5000), Some(10000));
    m.update_bandwidth(None, Some(10500));
    assert_eq!(m.download_speed(), 1000);
    assert_eq!(m.received_bytes(), 5000);
    assert_eq!(m.upload_speed(), 100);
    assert_eq!(m.sent_bytes(), 10500);
}

#[test]
fn no_interface_freezes_the_rates() {
    let mut m = model(Unit::Bytes, 0, 0);
    m.update_bandwidth(Some(5000), Some(5000));
    m.update(Message::UpdateNetworkInterface(None));
    assert_eq!(m.default_network_interface(), None);
    m.update_bandwidth(Some(9000), Some(9000));
    assert_eq!(m.download_speed(), 1000);
    assert_eq!(m.received_bytes(), 5000);
    m.update(Message::UpdateNetworkInterface(Some("wlan0".to_string())));
    assert_eq!(m.default_network_interface(), Some("wlan0"));
}

#[test]
fn unit_toggle_rescales_without_sampling() {
    let mut m = model(Unit::Bytes, 1000, 2000);
    m.update_bandwidth(Some(1500), Some(2500));
    m.update(Message::UnitChanged(Unit::Bits));
    assert_eq!(m.download_speed(), 800);
    assert_eq!(m.upload_speed(), 800);
    assert_eq!(m.download_unit(), "b/s");
    m.update(Message::UnitChanged(Unit::Bytes));
    assert_eq!(m.download_speed(), 100);
    assert_eq!(m.upload_speed(), 100);
    assert_eq!(m.download_unit(), "B/s");
}

#[test]
fn unit_toggle_back_truncates_odd_bit_rates() {
    let mut m = model(Unit::Bits, 0, 0);
    m.update_bandwidth(Some(5), Some(0));
    assert_eq!(m.download_speed(), 8);
    m.set_unit(Unit::Bytes);
    assert_eq!(m.download_speed(), 1);
    m.set_unit(Unit::Bits);
    assert_eq!(m.download_speed(), 8);
    m.set_unit(Unit::Bits);
    assert_eq!(m.download_speed(), 8);
}

#[test]
fn rate_divides_before_converting_to_bits() {
    assert_eq!(rate_per_second(0, 7, Unit::Bits, 5), 8);
    assert_eq!(rate_per_second(0, 7, Unit::Bytes, 5), 1);
    assert_eq!(rate_per_second(10, 10, Unit::Bits, 1), 0);
    assert_eq!(rate_per_second(11, 10, Unit::Bits, 1), 0);
}

#[test]
fn bit_rates_saturate() {
    assert_eq!(to_unit(u64::MAX / 8, Unit::Bits), u64::MAX / 8 * 8);
    assert_eq!(to_unit(u64::MAX / 8 + 1, Unit::Bits), u64::MAX);
    assert_eq!(rate_per_second(0, u64::MAX, Unit::Bits, 1), u64::MAX);
}

#[test]
fn displays_follow_the_rates() {
    let mut m = model(Unit::Bits, 0, 0);
    assert_eq!(m.download_speed_display(), "0");
    assert_eq!(m.download_unit(), "b/s");
    m.update(Message::UpdateBandwidth(Some(5 * 187_500), Some(5 * 2048)));
    assert_eq!(m.download_speed(), 1_500_000);
    assert_eq!(m.download_speed_display(), "1.43");
    assert_eq!(m.download_unit(), "Mb/s");
    assert_eq!(m.upload_speed_display(), "16");
    assert_eq!(m.upload_unit(), "Kb/s");
}

#[test]
fn update_rate_changes_within_range() {
    let mut m = model(Unit::Bytes, 0, 0);
    m.update(Message::UpdateRateChanged(2));
    assert_eq!(m.config().update_rate, 2);
    m.update(Message::UpdateRateChanged(0));
    assert_eq!(m.config().update_rate, 2);
    m.update(Message::UpdateRateChanged(11));
    assert_eq!(m.config().update_rate, 2);
    m.update_bandwidth(Some(1000), Some(0));
    assert_eq!(m.download_speed(), 500);
}

#[test]
fn show_flags_are_stored() {
    let mut m = model(Unit::Bytes, 0, 0);
    m.update(Message::ShowDownloadSpeedChanged(false));
    m.update(Message::ShowUploadSpeedChanged(false));
    assert!(!m.config().show_download_speed);
    assert!(!m.config().show_upload_speed);
    assert_eq!(m.config().unit, Unit::Bytes);
}

#[test]
fn default_config() {
    let c = BitrateAppletConfig::default();
    assert_eq!(c, config(Unit::Bits, 1));
}
