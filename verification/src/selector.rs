//! How a device is named in selectors and the toolbar.

use vstd::prelude::*;
use crate::adb::{Device, DeviceView};
use crate::text::string_from_chars;

verus! {

/// `"<model> (<device>)"`, the model or the device alone, or the serial.
pub open spec fn device_label_of(d: DeviceView) -> Seq<char> {
    match (d.model, d.device) {
        (Some(m), Some(dv)) => m + " ("@ + dv + ")"@,
        (Some(m), None) => m,
        (None, Some(dv)) => dv,
        (None, None) => d.serial,
    }
}

/// `"<serial>: <label>"`, or the serial alone when the label is the serial.
pub open spec fn selector_label_of(d: DeviceView) -> Seq<char> {
    if device_label_of(d) == d.serial {
        d.serial
    } else {
        d.serial + ": "@ + device_label_of(d)
    }
}

pub fn concat_str(a: String, b: &str) -> (r: String)
    ensures
        r@ == a@ + b@,
{
    let mut a = a;
    a.append(b);
    a
}

pub fn device_label(d: &Device) -> (r: String)
    ensures
        r@ == device_label_of(d@),
{
    match (&d.model, &d.device) {
        (Some(model), Some(device)) => {
            let s = concat_str(model.clone(), " (");
            let s = concat_str(s, device.as_str());
            concat_str(s, ")")
        },
        (Some(model), None) => model.clone(),
        (None, Some(device)) => device.clone(),
        (None, None) => d.serial.clone(),
    }
}

pub fn selector_label(d: &Device) -> (r: String)
    ensures
        r@ == selector_label_of(d@),
{
    let detail = device_label(d);
    if detail == d.serial {
        d.serial.clone()
    } else {
        let s = concat_str(d.serial.clone(), ": ");
        concat_str(s, detail.as_str())
    }
}

} // verus!
