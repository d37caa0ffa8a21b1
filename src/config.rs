use vstd::prelude::*;

verus! {

/// Whether rates are counted in bits or in bytes per second.
#[derive(Clone, Copy, Debug, PartialEq, Eq, Structural)]
pub enum Unit {
    Bits,
    Bytes,
}

/// The slowest sampling interval that can be configured, in seconds.
pub const MAX_UPDATE_RATE: u8 = 10;

/// What the user configures: the unit, the sampling interval in seconds, and
/// which directions the panel shows.
#[derive(Clone, Copy, Debug, PartialEq, Eq, Structural)]
pub struct BitrateAppletConfig {
    pub unit: Unit,
    pub update_rate: u8,
    pub show_download_speed: bool,
    pub show_upload_speed: bool,
}

/// A sampling interval that can be configured: 1 to 10 seconds.
pub open spec fn valid_update_rate(rate: u8) -> bool {
    1 <= rate && rate <= MAX_UPDATE_RATE
}

impl BitrateAppletConfig {
    /// A configuration whose sampling interval is in range.
    pub open spec fn is_valid(&self) -> bool {
        valid_update_rate(self.update_rate)
    }
}

impl Default for BitrateAppletConfig {
    /// Bits, sampled every second, both directions shown.
    fn default() -> (r: BitrateAppletConfig)
        ensures
            r == (BitrateAppletConfig {
                unit: Unit::Bits,
                update_rate: 1,
                show_download_speed: true,
                show_upload_speed: true,
            }),
    {
        BitrateAppletConfig {
            unit: Unit::Bits,
            update_rate: 1,
            show_download_speed: true,
            show_upload_speed: true,
        }
    }
}

} // verus!
