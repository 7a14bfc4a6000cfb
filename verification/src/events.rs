//! What the results of the background workers do to the application:
//! each result updates the panel it belongs to. While a captured session
//! is on screen, results about the live app are kept out of the panels.

use vstd::prelude::*;
use crate::adb::Device;
use crate::anrs::AnrEntry;
use crate::app::{Action, App, Navigation, apps_picker_opened, panel_data_reset};
use crate::crashes::CrashEntry;
use crate::database::{
    DatabaseState, TableData, error_pushed, result_pushed, table_data_received,
    table_error_received, tables_received, window_fits,
};
use crate::dispatch::{DeviceState, Effect, apply_initial_state, dispatch, dispatch_done, flashed, initial_state_applied};
use crate::files::{FilesState, children_set, root_children_set};
use crate::issues::{IssuesState, anr_error_set, anrs_set, crash_error_set, crashes_set};
use crate::monitor::{MonitorSample, MonitorState, sample_pushed};
use crate::network::{HttpLine, HttpOutcome, NetworkState, decode_http_line, entry_pushed, failed, http_outcome};
use crate::permissions::PermissionsState;
use crate::clock::now;
use crate::text::{chars_of, eq_chars, extend_chars, string_from_chars};
use crate::toolbar::{ToolbarState, devices_received, packages_received};
use crate::trace::TraceState;

verus! {

/// A result from a background worker.
pub enum WorkerEvent {
    Devices(Vec<Device>),
    Packages(Vec<String>),
    Permissions(Result<Vec<(String, bool)>, String>),
    Databases(Result<Vec<String>, String>),
    QueryOutput(Result<String, String>),
    /// Where a database was pulled to.
    DbPulled(Result<String, String>),
    Tables(Result<(String, Vec<String>), String>),
    TableRows(Result<TableData, String>),
    /// The listing of a directory of the app's files.
    FilesListed(Result<(String, Vec<(String, bool)>), String>),
    /// Where a file was pulled to.
    FilePulled(Result<String, String>),
    TraceStartFailed(String),
    /// Where a recorded trace was pulled to.
    TracePulled(Result<String, String>),
    Crashes(Result<Vec<CrashEntry>, String>),
    Anrs(Result<Vec<AnrEntry>, String>),
    DiskSample(MonitorSample),
    LogLine(String),
    /// A command sent to the device failed, with its message.
    CommandFailed(String),
    /// An adb call ran out of time; the arguments it was given.
    AdbTimeout(String),
    /// The device's settings, read when the app's data sources were built.
    DeviceState(DeviceState),
    /// The packages of the device with this serial, listed when the device
    /// was picked.
    DevicePackages(String, Vec<String>),
    /// The emulator that was launched has come up as this device.
    EmulatorReady(Device),
}

/// Whether the event is about the live app's panels (and so is kept out
/// while a captured session is on screen).
pub open spec fn about_live_app(ev: WorkerEvent) -> bool {
    !(ev is Devices || ev is Packages || ev is CommandFailed || ev is AdbTimeout || ev is DevicePackages
        || ev is EmulatorReady)
}

/// `b` is `a` with only the component named by `f` changed.
pub open spec fn only_database(a: App, b: App) -> bool {
    b == App { database_state: b.database_state, ..a }
}

pub open spec fn only_files(a: App, b: App) -> bool {
    b == App { files_state: b.files_state, ..a }
}

pub open spec fn only_issues(a: App, b: App) -> bool {
    b == App { issues_state: b.issues_state, ..a }
}

pub open spec fn only_trace(a: App, b: App) -> bool {
    b == App { trace_state: b.trace_state, ..a }
}

/// `msg` followed by `text`.
pub open spec fn prefixed(msg: Seq<char>, text: Seq<char>) -> Seq<char> {
    msg + text
}

/// What a worker's result does to the application, and what is left for
/// the front end.
pub open spec fn event_done(a: App, b: App, ev: WorkerEvent, viewing: bool, e: Effect) -> bool {
    if viewing && about_live_app(ev) {
        b == a && e == Effect::Nothing
    } else {
        match ev {
            WorkerEvent::Devices(ds) => devices_done(a, b, ds, e),
            WorkerEvent::Packages(ps) => packages_done(a, b, ps, e),
            WorkerEvent::Permissions(res) => permissions_done(a, b, res, e),
            WorkerEvent::Databases(res) => databases_done(a, b, res, e),
            WorkerEvent::QueryOutput(res) => query_output_done(a, b, res, e),
            WorkerEvent::DbPulled(res) => db_pulled_done(a, b, res, e),
            WorkerEvent::Tables(res) => tables_done(a, b, res, e),
            WorkerEvent::TableRows(res) => table_rows_done(a, b, res, e),
            WorkerEvent::FilesListed(res) => files_listed_done(a, b, res, e),
            WorkerEvent::FilePulled(res) => file_pulled_done(a, b, res, e),
            WorkerEvent::TraceStartFailed(err) => trace_start_failed_done(a, b, err, e),
            WorkerEvent::TracePulled(res) => trace_pulled_done(a, b, res, e),
            WorkerEvent::Crashes(res) => crashes_done(a, b, res, e),
            WorkerEvent::Anrs(res) => anrs_done(a, b, res, e),
            WorkerEvent::DiskSample(s) => disk_sample_done(a, b, s, e),
            WorkerEvent::LogLine(line) => log_line_done(a, b, line, e),
            WorkerEvent::CommandFailed(msg) => command_failed_done(a, b, msg, e),
            WorkerEvent::AdbTimeout(args) => adb_timeout_done(a, b, args, e),
            WorkerEvent::DeviceState(st) => e == Effect::Nothing && initial_state_applied(a, b, st),
            WorkerEvent::DevicePackages(serial, ps) => device_packages_done(a, b, serial, ps, e),
            WorkerEvent::EmulatorReady(d) => dispatch_done(a, b, Action::ChangeDevice(d), viewing, e),
        }
    }
}

/// What a `Devices` result does.
pub open spec fn devices_done(a: App, b: App, ds: Vec<Device>, e: Effect) -> bool {
    {
                &&& b == App { toolbar: b.toolbar, ..a }
                &&& devices_received(a.toolbar, b.toolbar, ds)
                &&& e == Effect::Nothing
            }
}

/// What a `Packages` result does.
pub open spec fn packages_done(a: App, b: App, ps: Vec<String>, e: Effect) -> bool {
    exists|t: ToolbarState, auto: Option<String>|
                #[trigger] packages_received(a.toolbar, t, ps, auto) && match auto {
                    None => b == App { toolbar: t, ..a } && e == Effect::Nothing,
                    Some(p) => {
                        let m = App { toolbar: ToolbarState { package: Some(p), ..t }, ..a };
                        &&& panel_data_reset(m, b, p@)
                        &&& match a.toolbar.device {
                            Some(d) => e == Effect::Build { device: d, package: p },
                            None => e == Effect::Nothing,
                        }
                    },
                }
}

/// What a `DevicePackages` result does: a list for a device that is no
/// longer the chosen one is dropped; otherwise the list is stored and the
/// remembered app, when listed, is chosen and its data sources built; when
/// it is not, the app picker opens, unless a popup is open or an app is
/// chosen already.
pub open spec fn device_packages_done(a: App, b: App, serial: String, ps: Vec<String>, e: Effect) -> bool {
    let current = match a.toolbar.device {
        Some(d) => d.serial@ == serial@,
        None => false,
    };
    if !current {
        b == a && e == Effect::Nothing
    } else {
        exists|t: ToolbarState, auto: Option<String>|
            #[trigger] packages_received(a.toolbar, t, ps, auto) && match auto {
                None => {
                    let m = App { toolbar: t, ..a };
                    &&& e == Effect::Nothing
                    &&& if m.nav == Navigation::Panels && t.package is None {
                        apps_picker_opened(m, b)
                    } else {
                        b == m
                    }
                },
                Some(p) => {
                    let m = App { toolbar: ToolbarState { package: Some(p), ..t }, ..a };
                    &&& panel_data_reset(m, b, p@)
                    &&& match a.toolbar.device {
                        Some(d) => e == Effect::Build { device: d, package: p },
                        None => e == Effect::Nothing,
                    }
                },
            }
    }
}

/// What a `Permissions` result does.
pub open spec fn permissions_done(a: App, b: App, res: Result<Vec<(String, bool)>, String>, e: Effect) -> bool {
    e == Effect::Nothing && match res {
                Ok(perms) => b == App {
                    permissions_state: PermissionsState { permissions: perms, ..a.permissions_state },
                    ..a
                },
                Err(err) => b == App {
                    permissions_state: PermissionsState { error: Some(err), ..a.permissions_state },
                    ..a
                },
            }
}

/// What a `Databases` result does.
pub open spec fn databases_done(a: App, b: App, res: Result<Vec<String>, String>, e: Effect) -> bool {
    e == Effect::Nothing && match res {
                Ok(dbs) => b == App {
                    database_state: DatabaseState { databases: dbs, ..a.database_state },
                    ..a
                },
                Err(err) => b == App {
                    database_state: DatabaseState { error: Some(err), ..a.database_state },
                    ..a
                },
            }
}

/// What a `QueryOutput` result does.
pub open spec fn query_output_done(a: App, b: App, res: Result<String, String>, e: Effect) -> bool {
    e == Effect::Nothing && only_database(a, b) && match res {
                Ok(out) => result_pushed(a.database_state, b.database_state, out@),
                Err(err) => error_pushed(a.database_state, b.database_state, err@),
            }
}

/// What a `DbPulled` result does.
pub open spec fn db_pulled_done(a: App, b: App, res: Result<String, String>, e: Effect) -> bool {
    e == Effect::Nothing && only_database(a, b) && match res {
                Ok(path) => result_pushed(a.database_state, b.database_state, "pulled to "@ + path@),
                Err(err) => error_pushed(a.database_state, b.database_state, "pull failed: "@ + err@),
            }
}

/// What a `Tables` result does.
pub open spec fn tables_done(a: App, b: App, res: Result<(String, Vec<String>), String>, e: Effect) -> bool {
    e == Effect::Nothing && only_database(a, b) && match res {
                Ok(p) => tables_received(a.database_state, b.database_state, p.0, p.1),
                Err(err) => {
                    &&& b.database_state@ == (crate::database::DbView {
                        tables_loading: Set::empty(),
                        error: Some(err@),
                        ..a.database_state@
                    })
                },
            }
}

/// What a `TableRows` result does.
pub open spec fn table_rows_done(a: App, b: App, res: Result<TableData, String>, e: Effect) -> bool {
    e == Effect::Nothing && only_database(a, b) && match res {
                Ok(d) => table_data_received(a.database_state, b.database_state, d),
                Err(err) => table_error_received(a.database_state, b.database_state, err),
            }
}

/// What a `FilesListed` result does.
pub open spec fn files_listed_done(a: App, b: App, res: Result<(String, Vec<(String, bool)>), String>, e: Effect) -> bool {
    e == Effect::Nothing && only_files(a, b) && match res {
                Ok(p) => if p.0@ == "."@ {
                    root_children_set(a.files_state, b.files_state, p.1)
                } else {
                    children_set(a.files_state, b.files_state, p.0@, p.1)
                },
                Err(err) => b.files_state == FilesState { error: Some(err), ..a.files_state },
            }
}

/// What a `FilePulled` result does.
pub open spec fn file_pulled_done(a: App, b: App, res: Result<String, String>, e: Effect) -> bool {
    match res {
                Ok(path) => {
                    &&& b == App { files_state: b.files_state, ..a }
                    &&& b.files_state == FilesState { action_flash: b.files_state.action_flash, ..a.files_state }
                    &&& b.files_state.action_flash matches Some(f) && f.0@ == "opening..."@
                    &&& e == Effect::OpenPulledFile(path)
                },
                Err(err) => e == Effect::Nothing && b == App {
                    files_state: FilesState { error: Some(err), ..a.files_state },
                    ..a
                },
            }
}

/// What a `TraceStartFailed` result does.
pub open spec fn trace_start_failed_done(a: App, b: App, err: String, e: Effect) -> bool {
    {
                &&& e == Effect::Nothing
                &&& only_trace(a, b)
                &&& b.trace_state == TraceState {
                    recording: false,
                    started_at: None,
                    status_message: b.trace_state.status_message,
                    message_at: b.trace_state.message_at,
                    ..a.trace_state
                }
                &&& b.trace_state.status_message matches Some(m) && m@ == "failed: "@ + err@
                &&& b.trace_state.message_at is Some
            }
}

/// What a `TracePulled` result does.
pub open spec fn trace_pulled_done(a: App, b: App, res: Result<String, String>, e: Effect) -> bool {
    {
                &&& only_trace(a, b)
                &&& b.trace_state.message_at is Some
                &&& match res {
                    Ok(path) => {
                        &&& b.trace_state == TraceState {
                            status_message: b.trace_state.status_message,
                            message_at: b.trace_state.message_at,
                            pulled_traces: b.trace_state.pulled_traces,
                            ..a.trace_state
                        }
                        &&& b.trace_state.status_message matches Some(m) && m@ == "done!"@
                        &&& b.trace_state.pulled_traces@ == a.trace_state.pulled_traces@.push(path)
                        &&& e == Effect::OpenTrace(path)
                    },
                    Err(err) => {
                        &&& b.trace_state == TraceState {
                            status_message: b.trace_state.status_message,
                            message_at: b.trace_state.message_at,
                            ..a.trace_state
                        }
                        &&& b.trace_state.status_message matches Some(m) && m@ == "failed: "@ + err@
                        &&& e == Effect::Nothing
                    },
                }
            }
}

/// What a `Crashes` result does.
pub open spec fn crashes_done(a: App, b: App, res: Result<Vec<CrashEntry>, String>, e: Effect) -> bool {
    e == Effect::Nothing && only_issues(a, b) && match res {
                Ok(cs) => crashes_set(a.issues_state, b.issues_state, cs),
                Err(err) => crash_error_set(a.issues_state, b.issues_state, err),
            }
}

/// What a `Anrs` result does.
pub open spec fn anrs_done(a: App, b: App, res: Result<Vec<AnrEntry>, String>, e: Effect) -> bool {
    e == Effect::Nothing && only_issues(a, b) && match res {
                Ok(xs) => anrs_set(a.issues_state, b.issues_state, xs),
                Err(err) => anr_error_set(a.issues_state, b.issues_state, err),
            }
}

/// What a `DiskSample` result does.
pub open spec fn disk_sample_done(a: App, b: App, s: MonitorSample, e: Effect) -> bool {
    e == Effect::Nothing && b == App { monitor_state: b.monitor_state, ..a }
                && sample_pushed(a.monitor_state, b.monitor_state, s)
}

/// What a `LogLine` result does.
pub open spec fn log_line_done(a: App, b: App, line: String, e: Effect) -> bool {
    e == Effect::Nothing && b == App { network_state: b.network_state, ..a }
                && match http_outcome(line@) {
                HttpOutcome::Entry(_) => exists|x: crate::network::NetworkEntry|
                    #[trigger] entry_pushed(a.network_state, b.network_state, x) && x@ == http_outcome(
                        line@,
                    )->Entry_0,
                _ => b.network_state == a.network_state,
            }
}

/// What a `CommandFailed` result does.
pub open spec fn command_failed_done(a: App, b: App, msg: String, e: Effect) -> bool {
    e == Effect::Nothing && flashed(a, b, msg@, true)
}

/// What a `AdbTimeout` result does.
pub open spec fn adb_timeout_done(a: App, b: App, args: String, e: Effect) -> bool {
    e == Effect::Nothing && flashed(
                a,
                b,
                "adb timed out: "@ + args@,
                true,
            )
}

/// The results whose handling could pass `usize::MAX`, or read a line the
/// HTTP decoder cannot cut, are left out.
pub open spec fn event_in_bounds(a: App, ev: WorkerEvent) -> bool {
    match ev {
        WorkerEvent::TableRows(Ok(d)) => window_fits(a.database_state@) && d.offset + d.rows@.len()
            <= usize::MAX,
        WorkerEvent::LogLine(line) => match http_outcome(line@) {
            HttpOutcome::Unsliceable => false,
            HttpOutcome::Entry(x) => failed(x) ==> a.network_state.failure_count < usize::MAX,
            _ => true,
        },
        _ => true,
    }
}

fn joined(a: &str, b: &str) -> (r: String)
    ensures
        r@ == a@ + b@,
{
    let mut v = chars_of(a);
    let w = chars_of(b);
    extend_chars(&mut v, w.as_slice());
    string_from_chars(v.as_slice())
}

impl App {
    /// Applies a worker's result.
    pub fn receive(&mut self, ev: WorkerEvent, viewing: bool) -> (e: Effect)
        requires
            !viewing ==> event_in_bounds(*old(self), ev),
        ensures
            event_done(*old(self), *final(self), ev, viewing, e),
    {
        let live = match &ev {
            WorkerEvent::Devices(_) | WorkerEvent::Packages(_) | WorkerEvent::CommandFailed(_)
            | WorkerEvent::AdbTimeout(_) | WorkerEvent::DevicePackages(_, _) | WorkerEvent::EmulatorReady(_) => false,
            _ => true,
        };
        if viewing && live {
            return Effect::Nothing;
        }
        match ev {
            WorkerEvent::Devices(ds) => self.on_devices(ds),
            WorkerEvent::Packages(ps) => self.on_packages(ps),
            WorkerEvent::CommandFailed(msg) => self.on_command_failed(msg),
            WorkerEvent::AdbTimeout(args) => self.on_adb_timeout(args),
            WorkerEvent::Permissions(res) => self.on_permissions(res),
            WorkerEvent::Databases(res) => self.on_databases(res),
            WorkerEvent::QueryOutput(res) => self.on_query_output(res),
            WorkerEvent::DbPulled(res) => self.on_db_pulled(res),
            WorkerEvent::Tables(res) => self.on_tables(res),
            WorkerEvent::TableRows(res) => self.on_table_rows(res),
            WorkerEvent::FilesListed(res) => self.on_files_listed(res),
            WorkerEvent::FilePulled(res) => self.on_file_pulled(res),
            WorkerEvent::TraceStartFailed(err) => self.on_trace_start_failed(err),
            WorkerEvent::TracePulled(res) => self.on_trace_pulled(res),
            WorkerEvent::Crashes(res) => self.on_crashes(res),
            WorkerEvent::Anrs(res) => self.on_anrs(res),
            WorkerEvent::DiskSample(s) => self.on_disk_sample(s),
            WorkerEvent::LogLine(line) => self.on_log_line(line),
            WorkerEvent::DeviceState(st) => {
                apply_initial_state(self, st);
                Effect::Nothing
            },
            WorkerEvent::DevicePackages(serial, ps) => self.on_device_packages(serial, ps),
            WorkerEvent::EmulatorReady(d) => dispatch(self, Action::ChangeDevice(d), viewing),
        }
    }

    fn on_devices(&mut self, ds: Vec<Device>) -> (e: Effect)
        ensures
            devices_done(*old(self), *final(self), ds, e),
    {
        {
                self.toolbar.receive_devices(ds);
                Effect::Nothing
            }
    }

    fn on_packages(&mut self, ps: Vec<String>) -> (e: Effect)
        ensures
            packages_done(*old(self), *final(self), ps, e),
    {
        self.receive_packages_event(ps)
    }

    fn on_device_packages(&mut self, serial: String, ps: Vec<String>) -> (e: Effect)
        ensures
            device_packages_done(*old(self), *final(self), serial, ps, e),
    {
        let current = match &self.toolbar.device {
            Some(d) => {
                let a = chars_of(d.serial.as_str());
                let b = chars_of(serial.as_str());
                eq_chars(a.as_slice(), b.as_slice())
            },
            None => false,
        };
        if !current {
            return Effect::Nothing;
        }
        let ghost gps = ps;
        let e = self.receive_packages_event(ps);
        if self.toolbar.package.is_none() && matches!(self.nav, Navigation::Panels) {
            let ghost m = *self;
            self.open_apps_popup();
            assert(apps_picker_opened(m, *self));
        }
        e
    }

    fn on_command_failed(&mut self, msg: String) -> (e: Effect)
        ensures
            command_failed_done(*old(self), *final(self), msg, e),
    {
        {
                self.set_status_flash(msg, true);
                Effect::Nothing
            }
    }

    fn on_adb_timeout(&mut self, args: String) -> (e: Effect)
        ensures
            adb_timeout_done(*old(self), *final(self), args, e),
    {
        {
                let t = joined("adb timed out: ", args.as_str());
                self.set_status_flash(t, true);
                Effect::Nothing
            }
    }

    fn on_permissions(&mut self, res: Result<Vec<(String, bool)>, String>) -> (e: Effect)
        ensures
            permissions_done(*old(self), *final(self), res, e),
    {
        {
                match res {
                    Ok(perms) => self.permissions_state.permissions = perms,
                    Err(err) => self.permissions_state.error = Some(err),
                }
                Effect::Nothing
            }
    }

    fn on_databases(&mut self, res: Result<Vec<String>, String>) -> (e: Effect)
        ensures
            databases_done(*old(self), *final(self), res, e),
    {
        {
                match res {
                    Ok(dbs) => self.database_state.databases = dbs,
                    Err(err) => self.database_state.error = Some(err),
                }
                Effect::Nothing
            }
    }

    fn on_query_output(&mut self, res: Result<String, String>) -> (e: Effect)
        ensures
            query_output_done(*old(self), *final(self), res, e),
    {
        {
                match res {
                    Ok(out) => self.database_state.push_result(out.as_str()),
                    Err(err) => self.database_state.push_error(err.as_str()),
                }
                Effect::Nothing
            }
    }

    fn on_db_pulled(&mut self, res: Result<String, String>) -> (e: Effect)
        ensures
            db_pulled_done(*old(self), *final(self), res, e),
    {
        {
                match res {
                    Ok(path) => {
                        let t = joined("pulled to ", path.as_str());
                        self.database_state.push_result(t.as_str());
                        
                    },
                    Err(err) => {
                        let t = joined("pull failed: ", err.as_str());
                        self.database_state.push_error(t.as_str());
                        
                    },
                }
                Effect::Nothing
            }
    }

    fn on_tables(&mut self, res: Result<(String, Vec<String>), String>) -> (e: Effect)
        ensures
            tables_done(*old(self), *final(self), res, e),
    {
        {
                match res {
                    Ok((db, tables)) => self.database_state.receive_tables(db, tables),
                    Err(err) => {
                        self.database_state.tables_loading.clear();
                        self.database_state.error = Some(err);
                    },
                }
                Effect::Nothing
            }
    }

    fn on_table_rows(&mut self, res: Result<TableData, String>) -> (e: Effect)
        requires
            res matches Ok(d) ==> window_fits(old(self).database_state@) && d.offset + d.rows@.len() <= usize::MAX,
        ensures
            table_rows_done(*old(self), *final(self), res, e),
    {
        {
                match res {
                    Ok(d) => self.database_state.receive_table_data(d),
                    Err(err) => self.database_state.receive_table_error(err),
                }
                Effect::Nothing
            }
    }

    fn on_files_listed(&mut self, res: Result<(String, Vec<(String, bool)>), String>) -> (e: Effect)
        ensures
            files_listed_done(*old(self), *final(self), res, e),
    {
        {
                match res {
                    Ok((path, entries)) => {
                        let root = {
                            let pc = chars_of(path.as_str());
                            let dot = chars_of(".");
                            crate::text::eq_chars(pc.as_slice(), dot.as_slice())
                        };
                        if root {
                            self.files_state.set_root_children(entries);
                        } else {
                            self.files_state.set_children(path.as_str(), entries);
                        }
                    },
                    Err(err) => self.files_state.error = Some(err),
                }
                Effect::Nothing
            }
    }

    fn on_file_pulled(&mut self, res: Result<String, String>) -> (e: Effect)
        ensures
            file_pulled_done(*old(self), *final(self), res, e),
    {
        match res {
                Ok(path) => {
                    self.files_state.action_flash = Some(("opening...", now()));
                    Effect::OpenPulledFile(path)
                },
                Err(err) => {
                    self.files_state.error = Some(err);
                    Effect::Nothing
                },
            }
    }

    fn on_trace_start_failed(&mut self, err: String) -> (e: Effect)
        ensures
            trace_start_failed_done(*old(self), *final(self), err, e),
    {
        {
                self.trace_state.recording = false;
                self.trace_state.started_at = None;
                self.trace_state.status_message = Some(joined("failed: ", err.as_str()));
                self.trace_state.message_at = Some(now());
                Effect::Nothing
            }
    }

    fn on_trace_pulled(&mut self, res: Result<String, String>) -> (e: Effect)
        ensures
            trace_pulled_done(*old(self), *final(self), res, e),
    {
        match res {
                Ok(path) => {
                    self.trace_state.status_message = Some("done!".to_string());
                    self.trace_state.message_at = Some(now());
                    self.trace_state.pulled_traces.push(path.clone());
                    Effect::OpenTrace(path)
                },
                Err(err) => {
                    self.trace_state.status_message = Some(joined("failed: ", err.as_str()));
                    self.trace_state.message_at = Some(now());
                    Effect::Nothing
                },
            }
    }

    fn on_crashes(&mut self, res: Result<Vec<CrashEntry>, String>) -> (e: Effect)
        ensures
            crashes_done(*old(self), *final(self), res, e),
    {
        {
                match res {
                    Ok(cs) => self.issues_state.set_crashes(cs),
                    Err(err) => self.issues_state.set_crash_error(err),
                }
                Effect::Nothing
            }
    }

    fn on_anrs(&mut self, res: Result<Vec<AnrEntry>, String>) -> (e: Effect)
        ensures
            anrs_done(*old(self), *final(self), res, e),
    {
        {
                match res {
                    Ok(xs) => self.issues_state.set_anrs(xs),
                    Err(err) => self.issues_state.set_anr_error(err),
                }
                Effect::Nothing
            }
    }

    fn on_disk_sample(&mut self, s: MonitorSample) -> (e: Effect)
        ensures
            disk_sample_done(*old(self), *final(self), s, e),
    {
        {
                self.monitor_state.push(s);
                Effect::Nothing
            }
    }

    fn on_log_line(&mut self, line: String) -> (e: Effect)
        requires
            match http_outcome(line@) {
                HttpOutcome::Unsliceable => false,
                HttpOutcome::Entry(x) => failed(x) ==> old(self).network_state.failure_count < usize::MAX,
                _ => true,
            },
        ensures
            log_line_done(*old(self), *final(self), line, e),
    {
        {
                match decode_http_line(line.as_str()) {
                    HttpLine::Entry(x) => {
                        let ghost gx = x;
                        self.network_state.push(x);
                        assert(entry_pushed(old(self).network_state, self.network_state, gx));
                    },
                    _ => {},
                }
                Effect::Nothing
            }
    }

    fn receive_packages_event(&mut self, ps: Vec<String>) -> (e: Effect)
        ensures
            exists|t: ToolbarState, auto: Option<String>|
                #[trigger] packages_received(old(self).toolbar, t, ps, auto) && match auto {
                    None => *final(self) == (App { toolbar: t, ..*old(self) }) && e == Effect::Nothing,
                    Some(p) => {
                        let m = App { toolbar: ToolbarState { package: Some(p), ..t }, ..*old(self) };
                        &&& panel_data_reset(m, *final(self), p@)
                        &&& match old(self).toolbar.device {
                            Some(d) => e == Effect::Build { device: d, package: p },
                            None => e == Effect::Nothing,
                        }
                    },
                },
    {
        let ghost gps = ps;
        let auto = self.toolbar.receive_packages(ps);
        let ghost t = self.toolbar;
        let ghost gauto = auto;
        assert(packages_received(old(self).toolbar, t, gps, gauto));
        match auto {
            None => Effect::Nothing,
            Some(p) => {
                self.toolbar.package = Some(p.clone());
                self.reset_panel_data_for_app(p.as_str());
                match &self.toolbar.device {
                    Some(d) => Effect::Build { device: d.duplicate(), package: p },
                    None => Effect::Nothing,
                }
            },
        }
    }
}


impl App {
    /// Whether `receive` can take `ev` now.
    pub fn accepts_event(&self, ev: &WorkerEvent) -> (b: bool)
        ensures
            b == event_in_bounds(*self, *ev),
    {
        match ev {
            WorkerEvent::TableRows(Ok(d)) => {
                let fits = match &self.database_state.table_data {
                    Some(t) => t.offset <= usize::MAX - t.rows.len(),
                    None => true,
                };
                fits && d.offset <= usize::MAX - d.rows.len()
            },
            WorkerEvent::LogLine(line) => match decode_http_line(line.as_str()) {
                HttpLine::Unsliceable => false,
                HttpLine::Entry(x) => !NetworkState::is_failure(&x) || self.network_state.failure_count
                    < usize::MAX,
                HttpLine::Skip => true,
            },
            _ => true,
        }
    }
}
} // verus!
