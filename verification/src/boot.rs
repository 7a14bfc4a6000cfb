//! The start-up screens: wait for a device, pick one when several are
//! attached, then pick the app to inspect.

use vstd::prelude::*;
use crate::adb::{Device, DeviceView, strings_view};
use crate::apps::{filtered_packages, matching_names};
use crate::keys::KeyCode;
use crate::text::{string_clear, string_pop, string_push};

verus! {

pub enum BootPhase {
    WaitingForDevice,
    SelectDevice { devices: Vec<Device>, cursor: usize },
    SelectApp { device: Device, packages: Option<Vec<String>>, cursor: usize, filter: String },
    Done { device: Device, package: String },
}

pub enum BootAction {
    Continue,
    Quit,
}

pub ghost enum BootView {
    Waiting,
    SelectDevice { devices: Seq<DeviceView>, cursor: int },
    SelectApp {
        device: DeviceView,
        packages: Option<Seq<Seq<char>>>,
        cursor: int,
        filter: Seq<char>,
    },
    Done { device: DeviceView, package: Seq<char> },
}

pub open spec fn devices_seq(v: Seq<Device>) -> Seq<DeviceView> {
    v.map_values(|d: Device| d@)
}

impl View for BootPhase {
    type V = BootView;

    open spec fn view(&self) -> BootView {
        match self {
            BootPhase::WaitingForDevice => BootView::Waiting,
            BootPhase::SelectDevice { devices, cursor } => BootView::SelectDevice {
                devices: devices_seq(devices@),
                cursor: *cursor as int,
            },
            BootPhase::SelectApp { device, packages, cursor, filter } => BootView::SelectApp {
                device: device@,
                packages: match packages {
                    Some(p) => Some(strings_view(p@)),
                    None => None,
                },
                cursor: *cursor as int,
                filter: filter@,
            },
            BootPhase::Done { device, package } => BootView::Done {
                device: device@,
                package: package@,
            },
        }
    }
}

/// How many packages the app list shows for `filter`.
pub open spec fn shown_count(packages: Option<Seq<Seq<char>>>, filter: Seq<char>) -> int {
    match packages {
        Some(p) => matching_names(p, filter).len() as int,
        None => 0,
    }
}

/// One step down a list of `count` rows, staying on the last.
pub open spec fn step_down_in(cursor: int, count: int) -> int {
    if cursor + 1 < count - 1 {
        cursor + 1
    } else if count > 0 {
        count - 1
    } else {
        0
    }
}

/// The screen after a key: the lists move their cursor; Enter picks the
/// device, or the app under the cursor among those the filter shows;
/// typed characters build the filter and reset the cursor.
pub open spec fn boot_after(v: BootView, code: KeyCode) -> BootView {
    match v {
        BootView::SelectDevice { devices, cursor } => match code {
            KeyCode::Up => BootView::SelectDevice {
                devices,
                cursor: if cursor > 0 {
                    cursor - 1
                } else {
                    0
                },
            },
            KeyCode::Down => BootView::SelectDevice {
                devices,
                cursor: step_down_in(cursor, devices.len() as int),
            },
            KeyCode::Enter => BootView::SelectApp {
                device: devices[cursor],
                packages: None,
                cursor: 0,
                filter: Seq::empty(),
            },
            _ => v,
        },
        BootView::SelectApp { device, packages, cursor, filter } => match code {
            KeyCode::Char('q') if filter.len() == 0 => v,
            KeyCode::Esc => BootView::SelectApp { device, packages, cursor: 0, filter: Seq::empty() },
            KeyCode::Backspace => BootView::SelectApp {
                device,
                packages,
                cursor: 0,
                filter: if filter.len() > 0 {
                    filter.drop_last()
                } else {
                    filter
                },
            },
            KeyCode::Up => BootView::SelectApp {
                device,
                packages,
                cursor: if cursor > 0 {
                    cursor - 1
                } else {
                    0
                },
                filter,
            },
            KeyCode::Down => BootView::SelectApp {
                device,
                packages,
                cursor: step_down_in(cursor, shown_count(packages, filter)),
                filter,
            },
            KeyCode::Enter => match packages {
                Some(p) => if cursor < matching_names(p, filter).len() {
                    BootView::Done { device, package: matching_names(p, filter)[cursor] }
                } else {
                    v
                },
                None => v,
            },
            KeyCode::Char(c) => BootView::SelectApp { device, packages, cursor: 0, filter: filter.push(c) },
            _ => v,
        },
        _ => v,
    }
}

/// `q` quits while waiting, while picking a device, and while picking an
/// app with an empty filter.
pub open spec fn boot_quits(v: BootView, code: KeyCode) -> bool {
    code == KeyCode::Char('q') && match v {
        BootView::Waiting => true,
        BootView::SelectDevice { .. } => true,
        BootView::SelectApp { filter, .. } => filter.len() == 0,
        BootView::Done { .. } => false,
    }
}

fn filtered_count(packages: &Option<Vec<String>>, filter: &String) -> (r: usize)
    ensures
        r == shown_count(
            match packages {
                Some(p) => Some(strings_view(p@)),
                None => None,
            },
            filter@,
        ),
{
    match packages {
        Some(p) => filtered_packages(p.as_slice(), filter.as_str()).len(),
        None => 0,
    }
}

fn step_down(cursor: usize, count: usize) -> (r: usize)
    requires
        cursor < usize::MAX,
    ensures
        r == step_down_in(cursor as int, count as int),
{
    let last = if count > 0 {
        count - 1
    } else {
        0
    };
    if cursor + 1 < last {
        cursor + 1
    } else {
        last
    }
}

impl BootPhase {
    /// The key can be handled: no cursor at `usize::MAX` moves down, and
    /// Enter on the device list has a device under the cursor.
    pub open spec fn key_in_bounds(&self, code: KeyCode) -> bool {
        match self@ {
            BootView::SelectDevice { devices, cursor } => {
                &&& code == KeyCode::Down ==> cursor < usize::MAX
                &&& code == KeyCode::Enter ==> cursor < devices.len()
            },
            BootView::SelectApp { filter, cursor, .. } => code == KeyCode::Down ==> cursor
                < usize::MAX,
            _ => true,
        }
    }

    pub fn handle_key(&mut self, code: KeyCode) -> (r: BootAction)
        requires
            old(self).key_in_bounds(code),
        ensures
            (r is Quit) == boot_quits(old(self)@, code),
            final(self)@ == boot_after(old(self)@, code),
    {
        match self {
            BootPhase::WaitingForDevice => match code {
                KeyCode::Char('q') => BootAction::Quit,
                _ => BootAction::Continue,
            },
            BootPhase::SelectDevice { devices, cursor } => match code {
                KeyCode::Char('q') => BootAction::Quit,
                KeyCode::Up => {
                    *cursor = if *cursor > 0 {
                        *cursor - 1
                    } else {
                        0
                    };
                    BootAction::Continue
                },
                KeyCode::Down => {
                    *cursor = step_down(*cursor, devices.len());
                    BootAction::Continue
                },
                KeyCode::Enter => {
                    let device = devices[*cursor].duplicate();
                    *self = BootPhase::SelectApp {
                        device,
                        packages: None,
                        cursor: 0,
                        filter: String::new(),
                    };
                    BootAction::Continue
                },
                _ => BootAction::Continue,
            },
            BootPhase::SelectApp { device, packages, cursor, filter } => match code {
                KeyCode::Char('q') if filter.as_str().is_empty() => BootAction::Quit,
                KeyCode::Esc => {
                    string_clear(filter);
                    *cursor = 0;
                    BootAction::Continue
                },
                KeyCode::Backspace => {
                    string_pop(filter);
                    *cursor = 0;
                    BootAction::Continue
                },
                KeyCode::Up => {
                    *cursor = if *cursor > 0 {
                        *cursor - 1
                    } else {
                        0
                    };
                    BootAction::Continue
                },
                KeyCode::Down => {
                    let count = filtered_count(packages, filter);
                    *cursor = step_down(*cursor, count);
                    BootAction::Continue
                },
                KeyCode::Enter => {
                    let count = filtered_count(packages, filter);
                    if count > 0 {
                        match packages {
                            Some(pkgs) => {
                                let filtered = filtered_packages(pkgs.as_slice(), filter.as_str());
                                if *cursor < filtered.len() {
                                    let pkg = filtered[*cursor].to_string();
                                    let d = device.duplicate();
                                    *self = BootPhase::Done { device: d, package: pkg };
                                }
                            },
                            None => {},
                        }
                    }
                    BootAction::Continue
                },
                KeyCode::Char(c) => {
                    string_push(filter, c);
                    *cursor = 0;
                    BootAction::Continue
                },
                _ => BootAction::Continue,
            },
            BootPhase::Done { .. } => BootAction::Continue,
        }
    }
}

impl BootPhase {
    /// The device list arrived. While waiting: one device goes straight to
    /// the app picker, several open the device picker, none keeps waiting.
    /// Other screens ignore it.
    pub fn receive_devices(&mut self, devices: Vec<Device>)
        ensures
            final(self)@ == (match old(self)@ {
                BootView::Waiting => if devices@.len() == 0 {
                    BootView::Waiting
                } else if devices@.len() == 1 {
                    BootView::SelectApp {
                        device: devices@[0]@,
                        packages: None,
                        cursor: 0,
                        filter: Seq::empty(),
                    }
                } else {
                    BootView::SelectDevice { devices: devices_seq(devices@), cursor: 0 }
                },
                v => v,
            }),
    {
        if !matches!(self, BootPhase::WaitingForDevice) {
            return;
        }
        if devices.len() == 0 {
            return;
        }
        if devices.len() == 1 {
            let mut devices = devices;
            let device = devices.remove(0);
            *self = BootPhase::SelectApp { device, packages: None, cursor: 0, filter: String::new() };
        } else {
            *self = BootPhase::SelectDevice { devices, cursor: 0 };
        }
    }

    /// The package list arrived; only the app picker keeps it.
    pub fn receive_packages(&mut self, pkgs: Vec<String>)
        ensures
            final(self)@ == (match old(self)@ {
                BootView::SelectApp { device, cursor, filter, .. } => BootView::SelectApp {
                    device,
                    packages: Some(strings_view(pkgs@)),
                    cursor,
                    filter,
                },
                v => v,
            }),
    {
        match self {
            BootPhase::SelectApp { packages, .. } => {
                *packages = Some(pkgs);
            },
            _ => {},
        }
    }

    pub fn is_done(&self) -> (b: bool)
        ensures
            b == (self@ is Done),
    {
        matches!(self, BootPhase::Done { .. })
    }

    /// The chosen device and package, once both are picked.
    pub fn into_result(self) -> (r: Option<(Device, String)>)
        ensures
            match self@ {
                BootView::Done { device, package } => r matches Some(x) && x.0@ == device && x.1@
                    == package,
                _ => r is None,
            },
    {
        match self {
            BootPhase::Done { device, package } => Some((device, package)),
            _ => None,
        }
    }
}

} // verus!
