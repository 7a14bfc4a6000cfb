use holo::adb::Device;
use holo::selector::{device_label, selector_label};

fn make_device(serial: &str, model: Option<&str>, device: Option<&str>) -> Device {
    Device {
        serial: serial.to_string(),
        model: model.map(String::from),
        device: device.map(String::from),
        connected: true,
    }
}

#[test]
fn device_label_model_and_device() {
    let d = make_device("ABC", Some("Pixel 7"), Some("panther"));
    assert_eq!(device_label(&d), "Pixel 7 (panther)");
}

#[test]
fn device_label_model_only() {
    let d = make_device("ABC", Some("Pixel 7"), None);
    assert_eq!(device_label(&d), "Pixel 7");
}

#[test]
fn device_label_device_only() {
    let d = make_device("ABC", None, Some("panther"));
    assert_eq!(device_label(&d), "panther");
}

#[test]
fn device_label_serial_fallback() {
    let d = make_device("ABC123", None, None);
    assert_eq!(device_label(&d), "ABC123");
}

#[test]
fn selector_label_with_detail() {
    let d = make_device("ABC123", Some("Pixel 7"), None);
    assert_eq!(selector_label(&d), "ABC123: Pixel 7");
}

#[test]
fn selector_label_serial_only() {
    let d = make_device("ABC123", None, None);
    assert_eq!(selector_label(&d), "ABC123");
}
