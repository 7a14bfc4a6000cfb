//! The battery gauge in the title bar: how full the bar is drawn and in
//! which colour band.

use vstd::prelude::*;

verus! {

/// Cells of the gauge.
pub const BAR_WIDTH: usize = 10;

/// The colour band of a battery level.
#[derive(Debug, Clone, Copy, PartialEq, Eq)]
pub enum BatteryBand {
    /// Below 10%: drawn in the danger colour.
    Danger,
    /// 10% to 25%: drawn in the warning colour.
    Warning,
    /// Above 25%: drawn in the text colour.
    Normal,
}

pub open spec fn band_of(level: int) -> BatteryBand {
    if level < 10 {
        BatteryBand::Danger
    } else if level <= 25 {
        BatteryBand::Warning
    } else {
        BatteryBand::Normal
    }
}

pub fn battery_band(level: u8) -> (r: BatteryBand)
    ensures
        r == band_of(level as int),
{
    if level < 10 {
        BatteryBand::Danger
    } else if level <= 25 {
        BatteryBand::Warning
    } else {
        BatteryBand::Normal
    }
}

/// The filled and empty cells of the gauge: a tenth of the level, rounded
/// down, at most the whole bar.
pub fn battery_cells(level: u8) -> (r: (usize, usize))
    ensures
        r.0 as int == if level as int * BAR_WIDTH as int / 100 < BAR_WIDTH as int {
            level as int * BAR_WIDTH as int / 100
        } else {
            BAR_WIDTH as int
        },
        r.0 + r.1 == BAR_WIDTH,
{
    let scaled: usize = (level as usize) * BAR_WIDTH / 100;
    let filled: usize = if scaled < BAR_WIDTH {
        scaled
    } else {
        BAR_WIDTH
    };
    (filled, BAR_WIDTH - filled)
}

} // verus!
