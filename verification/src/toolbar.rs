//! The toolbar's device and app dropdowns.

use vstd::prelude::*;
use crate::adb::{Device, DeviceView, devices_view, strings_view};
use crate::apps::{filtered_packages as matching_packages, fuzzy_match, fuzzy_matches, matching_names, strs_view};
use crate::keys::KeyCode;
use crate::selector::{device_label, device_label_of};
use crate::text::{string_clear, string_pop, string_push};

verus! {

#[derive(Debug, Clone, Copy, PartialEq)]
pub enum DropdownKind {
    Device,
    App,
}

pub enum ToolbarAction {
    /// Nothing to do.
    Nothing,
    Close,
    SelectDevice(Device),
    SelectApp(String),
    LaunchEmulator(String),
}

pub struct ToolbarState {
    pub device: Option<Device>,
    pub package: Option<String>,
    pub last_package: Option<String>,
    pub devices: Vec<Device>,
    pub packages: Vec<String>,
    pub open: Option<DropdownKind>,
    pub cursor: usize,
    pub filter: String,
    pub loading: bool,
    pub device_connected: bool,
}

/// The devices whose label matches `filter`, in order.
pub open spec fn matching_devices(ds: Seq<DeviceView>, filter: Seq<char>) -> Seq<DeviceView>
    decreases ds.len(),
{
    if ds.len() == 0 {
        Seq::empty()
    } else if fuzzy_match(device_label_of(ds.last()), filter) {
        matching_devices(ds.drop_last(), filter).push(ds.last())
    } else {
        matching_devices(ds.drop_last(), filter)
    }
}

pub open spec fn device_refs_view(v: Seq<&Device>) -> Seq<DeviceView> {
    v.map_values(|d: &Device| d@)
}

pub open spec fn toolbar_key_done(a: ToolbarState, b: ToolbarState, code: KeyCode, r: ToolbarAction) -> bool {
    &&& b.device == a.device
    &&& b.package == a.package
    &&& b.last_package == a.last_package
    &&& b.devices == a.devices
    &&& b.packages == a.packages
    &&& b.loading == a.loading
    &&& a.open is None ==> r is Nothing && b == a
    &&& a.open is Some ==> match code {
        KeyCode::Esc => b.open is None && r is Close
            && b.cursor == a.cursor
            && b.filter == a.filter,
        KeyCode::Up => r is Nothing && b.open == a.open
            && b.cursor == (if a.cursor > 0 {
                a.cursor - 1
            } else {
                0
            }) && b.filter == a.filter,
        KeyCode::Down => r is Nothing && b.open == a.open
            && b.cursor == crate::toolbar::clamp_down(
                a.cursor as int,
                a.count_spec(),
            ) && b.filter == a.filter,
        KeyCode::Enter => b.cursor == a.cursor
            && b.filter == a.filter
            && (if a.cursor < a.count_spec() {
                b.open is None && a.chosen(r)
            } else {
                b.open == a.open && r is Nothing
            }),
        KeyCode::Backspace => r is Nothing && b.open == a.open
            && b.cursor == 0 && b.filter@ == (if a.filter@.len() > 0 {
                a.filter@.drop_last()
            } else {
                a.filter@
            }),
        KeyCode::Char(c) => r is Nothing && b.open == a.open
            && b.cursor == 0 && b.filter@ == a.filter@.push(c),
        _ => r is Nothing && b == a,
    }
}

pub open spec fn devices_received(a: ToolbarState, b: ToolbarState, devices: Vec<Device>) -> bool {
    &&& b.devices == devices
    &&& b.loading == (a.loading && a.open != Some(
        DropdownKind::Device,
    ))
    &&& b.open == a.open
    &&& b.cursor == a.cursor
    &&& b.filter == a.filter
    &&& b.device == a.device
    &&& b.package == a.package
    &&& b.last_package == a.last_package
    &&& b.packages == a.packages
    &&& b.device_connected == a.device_connected
}

pub open spec fn packages_received(a: ToolbarState, b: ToolbarState, packages: Vec<String>, r: Option<String>) -> bool {
    &&& b.packages == packages
    &&& b.loading == (a.loading && a.open != Some(
        DropdownKind::App,
    ))
    &&& b.open == a.open
    &&& b.cursor == a.cursor
    &&& b.filter == a.filter
    &&& b.device == a.device
    &&& b.package == a.package
    &&& b.last_package == a.last_package
    &&& b.devices == a.devices
    &&& b.device_connected == a.device_connected
    &&& r is Some <==> (a.package is None && a.last_package is Some
        && strings_view(packages@).contains(a.last_package->0@))
    &&& r is Some ==> r->0@ == a.last_package->0@
}

impl ToolbarState {
    /// A toolbar with no app chosen and no remembered package.
    pub fn new(device: Option<Device>) -> (r: Self)
        ensures
            r.device == device,
            r.package is None,
            r.last_package is None,
            r.devices@.len() == 0,
            r.packages@.len() == 0,
            r.open is None,
            r.cursor == 0,
            r.filter@.len() == 0,
            !r.loading,
            r.device_connected,
    {
        Self::with_last_package(device, None)
    }

    /// A toolbar that remembers `last_package` as the app chosen last time.
    pub fn with_last_package(device: Option<Device>, last_package: Option<String>) -> (r: Self)
        ensures
            r.device == device,
            r.package is None,
            r.last_package == last_package,
            r.devices@.len() == 0,
            r.packages@.len() == 0,
            r.open is None,
            r.cursor == 0,
            r.filter@.len() == 0,
            !r.loading,
            r.device_connected,
    {
        Self {
            device,
            package: None,
            last_package,
            devices: Vec::new(),
            packages: Vec::new(),
            open: None,
            cursor: 0,
            filter: String::new(),
            loading: false,
            device_connected: true,
        }
    }

    pub fn device_label(&self) -> (r: String)
        ensures
            r@ == (match self.device {
                Some(d) => device_label_of(d@),
                None => "no device"@,
            }),
    {
        match &self.device {
            Some(d) => device_label(d),
            None => "no device".to_string(),
        }
    }

    pub fn app_label(&self) -> (r: String)
        ensures
            r@ == (match self.package {
                Some(p) => p@,
                None => "no app"@,
            }),
    {
        match &self.package {
            Some(p) => p.clone(),
            None => "no app".to_string(),
        }
    }

    pub fn open_devices(&mut self)
        ensures
            final(self).open == Some(DropdownKind::Device),
            final(self).cursor == 0,
            final(self).filter@.len() == 0,
            final(self).loading,
            final(self).device == old(self).device,
            final(self).package == old(self).package,
            final(self).last_package == old(self).last_package,
            final(self).devices == old(self).devices,
            final(self).packages == old(self).packages,
            final(self).device_connected == old(self).device_connected,
    {
        self.open = Some(DropdownKind::Device);
        self.cursor = 0;
        string_clear(&mut self.filter);
        self.loading = true;
    }

    pub fn open_apps(&mut self)
        ensures
            final(self).open == Some(DropdownKind::App),
            final(self).cursor == 0,
            final(self).filter@.len() == 0,
            final(self).loading,
            final(self).device == old(self).device,
            final(self).package == old(self).package,
            final(self).last_package == old(self).last_package,
            final(self).devices == old(self).devices,
            final(self).packages == old(self).packages,
            final(self).device_connected == old(self).device_connected,
    {
        self.open = Some(DropdownKind::App);
        self.cursor = 0;
        string_clear(&mut self.filter);
        self.loading = true;
    }

    pub fn receive_devices(&mut self, devices: Vec<Device>)
        ensures
            devices_received(*old(self), *final(self), devices),
    {
        self.devices = devices;
        if matches!(self.open, Some(DropdownKind::Device)) {
            self.loading = false;
        }
    }

    /// Stores the package list; returns the remembered package when no app
    /// is chosen yet and the list contains it.
    pub fn receive_packages(&mut self, packages: Vec<String>) -> (r: Option<String>)
        ensures
            packages_received(*old(self), *final(self), packages, r),
    {
        self.packages = packages;
        if matches!(self.open, Some(DropdownKind::App)) {
            self.loading = false;
        }
        if self.package.is_none() {
            if let Some(last) = &self.last_package {
                if contains_string(&self.packages, last) {
                    return Some(last.clone());
                }
            }
        }
        None
    }

    /// The devices whose label matches the filter.
    pub fn filtered_devices(&self) -> (r: Vec<&Device>)
        ensures
            device_refs_view(r@) == matching_devices(devices_view(self.devices@), self.filter@),
    {
        let mut r: Vec<&Device> = Vec::new();
        let mut i: usize = 0;
        while i < self.devices.len()
            invariant
                i <= self.devices@.len(),
                device_refs_view(r@) == matching_devices(
                    devices_view(self.devices@).take(i as int),
                    self.filter@,
                ),
            decreases self.devices@.len() - i,
        {
            let ghost t = devices_view(self.devices@).take(i + 1);
            proof {
                assert(t.drop_last() =~= devices_view(self.devices@).take(i as int));
                assert(t.last() == self.devices@[i as int]@);
            }
            let label = device_label(&self.devices[i]);
            if fuzzy_matches(label.as_str(), self.filter.as_str()) {
                let ghost before = device_refs_view(r@);
                r.push(&self.devices[i]);
                proof {
                    assert(device_refs_view(r@) =~= before.push(self.devices@[i as int]@));
                }
            }
            i = i + 1;
        }
        proof {
            assert(devices_view(self.devices@).take(i as int) =~= devices_view(self.devices@));
        }
        r
    }

    /// The packages that match the filter.
    pub fn filtered_packages(&self) -> (r: Vec<&str>)
        ensures
            strs_view(r@) == matching_names(strings_view(self.packages@), self.filter@),
    {
        matching_packages(self.packages.as_slice(), self.filter.as_str())
    }

    /// How many entries the open dropdown shows.
    pub fn filtered_count(&self) -> (r: usize)
        ensures
            r == (match self.open {
                Some(DropdownKind::Device) => matching_devices(
                    devices_view(self.devices@),
                    self.filter@,
                ).len(),
                Some(DropdownKind::App) => matching_names(
                    strings_view(self.packages@),
                    self.filter@,
                ).len(),
                None => 0,
            }),
    {
        match self.open {
            Some(DropdownKind::Device) => self.filtered_devices().len(),
            Some(DropdownKind::App) => self.filtered_packages().len(),
            None => 0,
        }
    }

    /// Applies a key to the open dropdown: move the cursor, edit the filter,
    /// close it, or choose the entry under the cursor.
    pub fn handle_key(&mut self, code: KeyCode) -> (r: ToolbarAction)
        requires
            old(self).filter@.len() < usize::MAX,
        ensures
            toolbar_key_done(*old(self), *final(self), code, r),
    {
        let kind = match self.open {
            Some(k) => k,
            None => return ToolbarAction::Nothing,
        };
        match code {
            KeyCode::Esc => {
                self.open = None;
                ToolbarAction::Close
            },
            KeyCode::Up => {
                self.cursor = if self.cursor > 0 {
                    self.cursor - 1
                } else {
                    0
                };
                ToolbarAction::Nothing
            },
            KeyCode::Down => {
                let count = self.filtered_count();
                self.cursor = down_within(self.cursor, count);
                ToolbarAction::Nothing
            },
            KeyCode::Enter => {
                let result = match kind {
                    DropdownKind::Device => {
                        let filtered = self.filtered_devices();
                        if self.cursor < filtered.len() {
                            let d = filtered[self.cursor];
                            if d.connected {
                                Some(ToolbarAction::SelectDevice(d.duplicate()))
                            } else {
                                Some(ToolbarAction::LaunchEmulator(d.serial.clone()))
                            }
                        } else {
                            None
                        }
                    },
                    DropdownKind::App => {
                        let filtered = self.filtered_packages();
                        if self.cursor < filtered.len() {
                            Some(ToolbarAction::SelectApp(filtered[self.cursor].to_string()))
                        } else {
                            None
                        }
                    },
                };
                match result {
                    Some(action) => {
                        self.open = None;
                        action
                    },
                    None => ToolbarAction::Nothing,
                }
            },
            KeyCode::Backspace => {
                string_pop(&mut self.filter);
                self.cursor = 0;
                ToolbarAction::Nothing
            },
            KeyCode::Char(c) => {
                string_push(&mut self.filter, c);
                self.cursor = 0;
                ToolbarAction::Nothing
            },
            _ => ToolbarAction::Nothing,
        }
    }

    /// How many entries the open dropdown shows.
    pub open spec fn count_spec(&self) -> int {
        match self.open {
            Some(DropdownKind::Device) => matching_devices(
                devices_view(self.devices@),
                self.filter@,
            ).len() as int,
            Some(DropdownKind::App) => matching_names(
                strings_view(self.packages@),
                self.filter@,
            ).len() as int,
            None => 0,
        }
    }

    /// `r` is what choosing the entry under the cursor yields: the device
    /// (or, for a disconnected emulator, a request to launch it) or the app.
    pub open spec fn chosen(&self, r: ToolbarAction) -> bool {
        match self.open {
            Some(DropdownKind::Device) => {
                let d = matching_devices(devices_view(self.devices@), self.filter@)[self.cursor as int];
                if d.connected {
                    r matches ToolbarAction::SelectDevice(x) && x@ == d
                } else {
                    r matches ToolbarAction::LaunchEmulator(s) && s@ == d.serial
                }
            },
            Some(DropdownKind::App) => r matches ToolbarAction::SelectApp(p) && p@ == matching_names(
                strings_view(self.packages@),
                self.filter@,
            )[self.cursor as int],
            None => false,
        }
    }
}

/// Whether `v` holds a string equal to `x`.
pub fn contains_string(v: &Vec<String>, x: &String) -> (r: bool)
    ensures
        r == strings_view(v@).contains(x@),
{
    let mut i: usize = 0;
    while i < v.len()
        invariant
            i <= v@.len(),
            forall|j: int| 0 <= j < i ==> v@[j]@ != x@,
        decreases v@.len() - i,
    {
        if v[i] == *x {
            proof {
                assert(strings_view(v@)[i as int] == x@);
            }
            return true;
        }
        i = i + 1;
    }
    proof {
        if strings_view(v@).contains(x@) {
            let j = choose|j: int| 0 <= j < strings_view(v@).len() && strings_view(v@)[j] == x@;
            assert(v@[j]@ == x@);
        }
    }
    false
}

/// The cursor one step down, kept on the last of `count` entries (on 0
/// when there are none).
pub open spec fn clamp_down(cursor: int, count: int) -> int {
    let last = if count > 0 {
        count - 1
    } else {
        0
    };
    if cursor + 1 < last {
        cursor + 1
    } else {
        last
    }
}

/// `(cursor + 1).min(count.saturating_sub(1))`.
pub fn down_within(cursor: usize, count: usize) -> (r: usize)
    ensures
        r == clamp_down(cursor as int, count as int),
{
    let last = if count > 0 {
        count - 1
    } else {
        0
    };
    if cursor < last {
        cursor + 1
    } else {
        last
    }
}

} // verus!
