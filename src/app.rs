use vstd::prelude::*;

use crate::config::{valid_update_rate, BitrateAppletConfig, Unit};
use crate::display::{format_unit, format_value, unit_text, value_text};

verus! {

/// Eight times `rate`, or `u64::MAX` when that does not fit.
pub open spec fn times_eight(rate: u64) -> u64 {
    if rate as nat * 8 > u64::MAX {
        u64::MAX
    } else {
        (rate * 8) as u64
    }
}

/// A rate in bytes per second expressed in `unit`.
pub open spec fn in_unit(byte_rate: u64, unit: Unit) -> u64 {
    match unit {
        Unit::Bits => times_eight(byte_rate),
        Unit::Bytes => byte_rate,
    }
}

/// The rate of one direction between two readings of its cumulative counter
/// taken `interval` seconds apart: the bytes counted per whole second, then
/// expressed in `unit`. A reading below the previous one (the counter was
/// reset, or the interface replaced) gives 0.
pub open spec fn sample_rate(previous: u64, current: u64, unit: Unit, interval: u8) -> u64 {
    if current < previous {
        0
    } else {
        in_unit(((current - previous) as nat / interval as nat) as u64, unit)
    }
}

/// A stored rate carried from unit `from` over to unit `to`: times eight from
/// bytes to bits, divided by eight (rounding down) from bits to bytes.
pub open spec fn rescale(rate: u64, from: Unit, to: Unit) -> u64 {
    if from == to {
        rate
    } else {
        match to {
            Unit::Bits => times_eight(rate),
            Unit::Bytes => rate / 8,
        }
    }
}

/// The state of the tracker as its contracts describe it.
pub struct AppModelView {
    pub config: BitrateAppletConfig,
    pub default_network_interface: Option<Seq<char>>,
    pub received_bytes: u64,
    pub sent_bytes: u64,
    pub download_speed: u64,
    pub upload_speed: u64,
}

/// The view of an optional interface name.
pub open spec fn interface_view(iface: Option<String>) -> Option<Seq<char>> {
    match iface {
        Some(name) => Some(name@),
        None => None,
    }
}

/// A counter of one direction after a sample: the new reading when there is
/// one, else the previous reading.
pub open spec fn next_counter(previous: u64, current: Option<u64>) -> u64 {
    match current {
        Some(c) => c,
        None => previous,
    }
}

/// A rate of one direction after a sample: unchanged when the counter could
/// not be read.
pub open spec fn next_speed(
    speed: u64,
    previous: u64,
    current: Option<u64>,
    config: BitrateAppletConfig,
) -> u64 {
    match current {
        Some(c) => sample_rate(previous, c, config.unit, config.update_rate),
        None => speed,
    }
}

/// The state after a sampling tick that read `received` and `sent` for the
/// selected interface. With no interface selected nothing changes.
pub open spec fn after_bandwidth(s: AppModelView, received: Option<u64>, sent: Option<u64>) -> AppModelView {
    if s.default_network_interface is None {
        s
    } else {
        AppModelView {
            received_bytes: next_counter(s.received_bytes, received),
            sent_bytes: next_counter(s.sent_bytes, sent),
            download_speed: next_speed(s.download_speed, s.received_bytes, received, s.config),
            upload_speed: next_speed(s.upload_speed, s.sent_bytes, sent, s.config),
            ..s
        }
    }
}

/// The state after the unit is set to `unit`: both stored rates are carried
/// over to it at once.
pub open spec fn after_unit_change(s: AppModelView, unit: Unit) -> AppModelView {
    AppModelView {
        config: BitrateAppletConfig { unit, ..s.config },
        download_speed: rescale(s.download_speed, s.config.unit, unit),
        upload_speed: rescale(s.upload_speed, s.config.unit, unit),
        ..s
    }
}

/// The state after the sampling interval is set to `rate`; a rate out of
/// range is ignored.
pub open spec fn after_update_rate(s: AppModelView, rate: u8) -> AppModelView {
    if valid_update_rate(rate) {
        AppModelView { config: BitrateAppletConfig { update_rate: rate, ..s.config }, ..s }
    } else {
        s
    }
}

/// Switching the unit from bytes to bits multiplies both stored rates by
/// eight, and switching back restores the state exactly, as long as eight
/// times each rate fits in 64 bits.
pub proof fn lemma_bytes_to_bits_round_trip(s: AppModelView)
    requires
        s.config.unit == Unit::Bytes,
        s.download_speed as nat * 8 <= u64::MAX,
        s.upload_speed as nat * 8 <= u64::MAX,
    ensures
        after_unit_change(s, Unit::Bits).download_speed == s.download_speed * 8,
        after_unit_change(s, Unit::Bits).upload_speed == s.upload_speed * 8,
        after_unit_change(after_unit_change(s, Unit::Bits), Unit::Bytes) == s,
{
}

/// Switching the unit from bits to bytes and back restores the state exactly
/// when both stored rates are multiples of eight; otherwise the division by
/// eight has dropped the remainder.
pub proof fn lemma_bits_to_bytes_round_trip(s: AppModelView)
    requires
        s.config.unit == Unit::Bits,
    ensures
        after_unit_change(after_unit_change(s, Unit::Bytes), Unit::Bits) == s <==> (s.download_speed
            % 8 == 0 && s.upload_speed % 8 == 0),
{
}

/// An event handed to the tracker by whoever drives it.
#[derive(Clone, Debug)]
pub enum Message {
    /// A sampling tick, with the counters just read for the selected
    /// interface (received, then sent); `None` where a read failed.
    UpdateBandwidth(Option<u64>, Option<u64>),
    /// An interface re-check, with the interface just selected.
    UpdateNetworkInterface(Option<String>),
    UnitChanged(Unit),
    UpdateRateChanged(u8),
    ShowDownloadSpeedChanged(bool),
    ShowUploadSpeedChanged(bool),
}

/// The state after `message`.
pub open spec fn step(s: AppModelView, message: Message) -> AppModelView {
    match message {
        Message::UpdateBandwidth(received, sent) => after_bandwidth(s, received, sent),
        Message::UpdateNetworkInterface(iface) => AppModelView {
            default_network_interface: interface_view(iface),
            ..s
        },
        Message::UnitChanged(unit) => after_unit_change(s, unit),
        Message::UpdateRateChanged(rate) => after_update_rate(s, rate),
        Message::ShowDownloadSpeedChanged(show) => AppModelView {
            config: BitrateAppletConfig { show_download_speed: show, ..s.config },
            ..s
        },
        Message::ShowUploadSpeedChanged(show) => AppModelView {
            config: BitrateAppletConfig { show_upload_speed: show, ..s.config },
            ..s
        },
    }
}

/// The rate of one direction between two counter readings taken
/// `interval_seconds` apart, in `unit`; 0 when the counter went backwards.
pub fn rate_per_second(previous: u64, current: u64, unit: Unit, interval_seconds: u8) -> (r: u64)
    requires
        interval_seconds >= 1,
    ensures
        r == sample_rate(previous, current, unit, interval_seconds),
{
    if current < previous {
        return 0;
    }
    let byte_rate = (current - previous) / interval_seconds as u64;
    to_unit(byte_rate, unit)
}

/// A rate in bytes per second expressed in `unit`, saturating at `u64::MAX`.
pub fn to_unit(byte_rate: u64, unit: Unit) -> (r: u64)
    ensures
        r == in_unit(byte_rate, unit),
{
    match unit {
        Unit::Bits => saturating_times_eight(byte_rate),
        Unit::Bytes => byte_rate,
    }
}

fn saturating_times_eight(rate: u64) -> (r: u64)
    ensures
        r == times_eight(rate),
{
    if rate > u64::MAX / 8 {
        u64::MAX
    } else {
        rate * 8
    }
}

/// The tracker: the selected interface, the last counter readings, the
/// current rates, and their display.
pub struct AppModel {
    config: BitrateAppletConfig,
    default_network_interface: Option<String>,
    received_bytes: u64,
    sent_bytes: u64,
    download_speed: u64,
    download_speed_display: String,
    download_unit: String,
    upload_speed: u64,
    upload_speed_display: String,
    upload_unit: String,
}

impl View for AppModel {
    type V = AppModelView;

    closed spec fn view(&self) -> AppModelView {
        AppModelView {
            config: self.config,
            default_network_interface: interface_view(self.default_network_interface),
            received_bytes: self.received_bytes,
            sent_bytes: self.sent_bytes,
            download_speed: self.download_speed,
            upload_speed: self.upload_speed,
        }
    }
}

impl AppModel {
    /// The sampling interval is in range and both displays show the current
    /// rates in the current unit.
    pub closed spec fn well_formed(&self) -> bool {
        &&& self.config.is_valid()
        &&& self.download_speed_display@ == value_text(self.download_speed as nat)
        &&& self.download_unit@ == unit_text(self.download_speed as nat, self.config.unit)
        &&& self.upload_speed_display@ == value_text(self.upload_speed as nat)
        &&& self.upload_unit@ == unit_text(self.upload_speed as nat, self.config.unit)
    }

    /// A tracker with the given configuration, the interface selected at
    /// start, and that interface's counters as the first baseline; both rates
    /// start at 0.
    pub fn init(
        config: BitrateAppletConfig,
        default_network_interface: Option<String>,
        received_bytes: u64,
        sent_bytes: u64,
    ) -> (r: AppModel)
        requires
            config.is_valid(),
        ensures
            r.well_formed(),
            r@ == (AppModelView {
                config,
                default_network_interface: interface_view(default_network_interface),
                received_bytes,
                sent_bytes,
                download_speed: 0,
                upload_speed: 0,
            }),
    {
        let mut app = AppModel {
            config,
            default_network_interface,
            received_bytes,
            sent_bytes,
            download_speed: 0,
            download_speed_display: String::new(),
            download_unit: String::new(),
            upload_speed: 0,
            upload_speed_display: String::new(),
            upload_unit: String::new(),
        };
        app.set_download_speed_display();
        app.set_upload_speed_display();
        app
    }

    fn set_download_speed_display(&mut self)
        ensures
            final(self)@ == old(self)@,
            final(self).download_speed_display@ == value_text(final(self).download_speed as nat),
            final(self).download_unit@ == unit_text(
                final(self).download_speed as nat,
                final(self).config.unit,
            ),
            final(self).upload_speed_display == old(self).upload_speed_display,
            final(self).upload_unit == old(self).upload_unit,
    {
        self.download_speed_display = format_value(self.download_speed);
        self.download_unit = format_unit(self.download_speed, self.config.unit);
    }

    fn set_upload_speed_display(&mut self)
        ensures
            final(self)@ == old(self)@,
            final(self).upload_speed_display@ == value_text(final(self).upload_speed as nat),
            final(self).upload_unit@ == unit_text(
                final(self).upload_speed as nat,
                final(self).config.unit,
            ),
            final(self).download_speed_display == old(self).download_speed_display,
            final(self).download_unit == old(self).download_unit,
    {
        self.upload_speed_display = format_value(self.upload_speed);
        self.upload_unit = format_unit(self.upload_speed, self.config.unit);
    }

    /// A sampling tick: `received` and `sent` are the counters just read for
    /// the selected interface, `None` where a read failed. Each direction that
    /// was read gets its rate over the configured interval and the reading as
    /// its new baseline; a counter that went backwards gives a rate of 0 and
    /// becomes the baseline all the same. With no interface selected nothing
    /// changes.
    pub fn update_bandwidth(&mut self, received: Option<u64>, sent: Option<u64>)
        requires
            old(self).well_formed(),
        ensures
            final(self).well_formed(),
            final(self)@ == after_bandwidth(old(self)@, received, sent),
    {
        if self.default_network_interface.is_none() {
            return;
        }
        if let Some(received_bytes_cur) = received {
            self.download_speed = rate_per_second(
                self.received_bytes,
                received_bytes_cur,
                self.config.unit,
                self.config.update_rate,
            );
            self.received_bytes = received_bytes_cur;
            self.set_download_speed_display();
        }
        if let Some(sent_bytes_cur) = sent {
            self.upload_speed = rate_per_second(
                self.sent_bytes,
                sent_bytes_cur,
                self.config.unit,
                self.config.update_rate,
            );
            self.sent_bytes = sent_bytes_cur;
            self.set_upload_speed_display();
        }
    }

    /// An interface re-check: `iface` becomes the interface that is sampled.
    pub fn update_network_interface(&mut self, iface: Option<String>)
        requires
            old(self).well_formed(),
        ensures
            final(self).well_formed(),
            final(self)@ == (AppModelView {
                default_network_interface: interface_view(iface),
                ..old(self)@
            }),
    {
        self.default_network_interface = iface;
    }

    /// Sets the unit. When it changes, both stored rates are carried over to
    /// it at once (times eight, or divided by eight), without a new sample.
    pub fn set_unit(&mut self, unit: Unit)
        requires
            old(self).well_formed(),
        ensures
            final(self).well_formed(),
            final(self)@ == after_unit_change(old(self)@, unit),
    {
        if self.config.unit == unit {
            return;
        }
        match unit {
            Unit::Bits => {
                self.download_speed = saturating_times_eight(self.download_speed);
                self.upload_speed = saturating_times_eight(self.upload_speed);
            },
            Unit::Bytes => {
                self.download_speed = self.download_speed / 8;
                self.upload_speed = self.upload_speed / 8;
            },
        }
        self.config.unit = unit;
        self.set_download_speed_display();
        self.set_upload_speed_display();
    }

    /// Sets the sampling interval, in seconds; one out of range is ignored.
    pub fn set_update_rate(&mut self, rate: u8)
        requires
            old(self).well_formed(),
        ensures
            final(self).well_formed(),
            final(self)@ == after_update_rate(old(self)@, rate),
    {
        if 1 <= rate && rate <= crate::config::MAX_UPDATE_RATE {
            self.config.update_rate = rate;
        }
    }

    /// Handles one event.
    pub fn update(&mut self, message: Message)
        requires
            old(self).well_formed(),
        ensures
            final(self).well_formed(),
            final(self)@ == step(old(self)@, message),
    {
        match message {
            Message::UpdateBandwidth(received, sent) => self.update_bandwidth(received, sent),
            Message::UpdateNetworkInterface(iface) => self.update_network_interface(iface),
            Message::UnitChanged(unit) => self.set_unit(unit),
            Message::UpdateRateChanged(rate) => self.set_update_rate(rate),
            Message::ShowDownloadSpeedChanged(show) => {
                self.config.show_download_speed = show;
            },
            Message::ShowUploadSpeedChanged(show) => {
                self.config.show_upload_speed = show;
            },
        }
    }

    pub fn config(&self) -> (r: BitrateAppletConfig)
        ensures
            r == self@.config,
    {
        self.config
    }

    pub fn default_network_interface(&self) -> (r: Option<&str>)
        ensures
            match r {
                Some(name) => self@.default_network_interface == Some(name@),
                None => self@.default_network_interface is None,
            },
    {
        match &self.default_network_interface {
            Some(name) => Some(name.as_str()),
            None => None,
        }
    }

    pub fn received_bytes(&self) -> (r: u64)
        ensures
            r == self@.received_bytes,
    {
        self.received_bytes
    }

    pub fn sent_bytes(&self) -> (r: u64)
        ensures
            r == self@.sent_bytes,
    {
        self.sent_bytes
    }

    pub fn download_speed(&self) -> (r: u64)
        ensures
            r == self@.download_speed,
    {
        self.download_speed
    }

    pub fn upload_speed(&self) -> (r: u64)
        ensures
            r == self@.upload_speed,
    {
        self.upload_speed
    }

    /// The value shown for the download rate.
    pub fn download_speed_display(&self) -> (r: &str)
        requires
            self.well_formed(),
        ensures
            r@ == value_text(self@.download_speed as nat),
    {
        self.download_speed_display.as_str()
    }

    /// The unit suffix shown for the download rate.
    pub fn download_unit(&self) -> (r: &str)
        requires
            self.well_formed(),
        ensures
            r@ == unit_text(self@.download_speed as nat, self@.config.unit),
    {
        self.download_unit.as_str()
    }

    /// The value shown for the upload rate.
    pub fn upload_speed_display(&self) -> (r: &str)
        requires
            self.well_formed(),
        ensures
            r@ == value_text(self@.upload_speed as nat),
    {
        self.upload_speed_display.as_str()
    }

    /// The unit suffix shown for the upload rate.
    pub fn upload_unit(&self) -> (r: &str)
        requires
            self.well_formed(),
        ensures
            r@ == unit_text(self@.upload_speed as nat, self@.config.unit),
    {
        self.upload_unit.as_str()
    }
}

} // verus!
