use holo::battery::{battery_band, battery_cells, BatteryBand};

#[test]
fn battery_color_red_below_10() {
    assert_eq!(battery_band(0), BatteryBand::Danger);
    assert_eq!(battery_band(9), BatteryBand::Danger);
}

#[test]
fn battery_color_yellow_10_to_25() {
    assert_eq!(battery_band(10), BatteryBand::Warning);
    assert_eq!(battery_band(25), BatteryBand::Warning);
}

#[test]
fn battery_color_normal_above_25() {
    assert_eq!(battery_band(26), BatteryBand::Normal);
    assert_eq!(battery_band(100), BatteryBand::Normal);
}

#[test]
fn battery_gauge_fills_a_tenth_per_ten_percent() {
    assert_eq!(battery_cells(0), (0, 10));
    assert_eq!(battery_cells(57), (5, 5));
    assert_eq!(battery_cells(100), (10, 0));
    assert_eq!(battery_cells(255), (10, 0));
}
