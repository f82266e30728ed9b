//! The daemon's shared state and its handling of IPC requests.
//!
//! Requests that only read or change the daemon's state, the macro engine or
//! the token store are answered here. Requests that need the configuration
//! files, the input devices or fresh entropy are handed back as deferred work;
//! once the caller has done that work, the `*_response` functions turn its
//! outcome into the answer.
use vstd::prelude::*;
use crate::engine::{EngineError, MacroEngine, MacroStart, fresh_recording};
use crate::protocol::{DeviceInfo, MacroEntry, MacroEntryV, Profile, Request, Response, ResponseV, copy_devices, macro_list, macro_list_view};
use crate::security::SecurityManager;
use crate::strmap::StrMap;
use crate::text::{owned, str_eq, concat2, concat3};

verus! {

/// The version that the daemon reports.
pub const DAEMON_VERSION: &'static str = "0.1.0";

/// The shared state of the daemon.
pub struct DaemonState {
    /// The discovered devices.
    pub devices: Vec<DeviceInfo>,
    /// The macros set through the IPC interface, keyed by name.
    pub macros: StrMap<MacroEntry>,
    /// Profiles known to the daemon, keyed by name.
    pub profiles: StrMap<Profile>,
    /// The recording in progress: its name and device path.
    pub active_recording: Option<(String, String)>,
    /// Whether a device manager is running.
    pub device_manager_ready: bool,
}

/// Work that a request needs from outside the daemon's state.
#[derive(Debug)]
pub enum Deferred {
    /// Make a token for this client.
    GenerateToken { client_id: String },
    /// Save the configuration's macros as the profile `name`; the daemon holds `macros_count` macros.
    SaveProfile { name: String, macros_count: usize },
    /// Load the profile `name`.
    LoadProfile { name: String },
    /// List the stored profiles.
    ListProfiles,
    /// Delete the profile `name`.
    DeleteProfile { name: String },
    /// Grab the device at `device_path`.
    GrabDevice { device_path: String },
    /// Release the device at `device_path`.
    UngrabDevice { device_path: String },
}

/// What handling a request leads to.
#[derive(Debug)]
pub enum Handled {
    /// Send `response`; when `start` holds a macro, perform its actions.
    Reply { response: Response, start: Option<MacroStart> },
    /// Do this work, then answer with the matching `*_response` function.
    Defer(Deferred),
}

impl DaemonState {
    /// The state's invariant: macros and profiles are keyed by name without repeats.
    pub open spec fn wf(&self) -> bool {
        &&& self.macros.wf()
        &&& self.profiles.wf()
        &&& forall|j: int|
            0 <= j < self.macros.keys().len() ==> #[trigger] self.macros.vals()[j].name@
                == self.macros.keys()[j]
    }

    /// A state with no devices, macros, profiles or recording, and no device manager.
    pub fn new() -> (s: Self)
        ensures
            s.wf(),
            s.devices@.len() == 0,
            s.macros.view() == Map::<Seq<char>, MacroEntry>::empty(),
            s.macros.keys().len() == 0,
            s.profiles.view() == Map::<Seq<char>, Profile>::empty(),
            s.active_recording is None,
            !s.device_manager_ready,
    {
        let s = DaemonState {
            devices: Vec::new(),
            macros: StrMap::new(),
            profiles: StrMap::new(),
            active_recording: None,
            device_manager_ready: false,
        };
        s
    }

    /// Whether a device with path `path` was discovered.
    pub fn has_device(&self, path: &str) -> (r: bool)
        ensures
            r == exists|j: int| 0 <= j < self.devices@.len() && #[trigger] self.devices@[j].path@ == path@,
    {
        let n = self.devices.len();
        let mut i: usize = 0;
        while i < n
            invariant
                n == self.devices@.len(),
                i <= n,
                forall|j: int| 0 <= j < i ==> #[trigger] self.devices@[j].path@ != path@,
            decreases n - i,
        {
            if str_eq(self.devices[i].path.as_str(), path) {
                assert(self.devices@[i as int].path@ == path@);
                return true;
            }
            i = i + 1;
        }
        false
    }

    /// Stores `entry` under its name, replacing a macro of that name.
    pub fn put_macro(&mut self, entry: MacroEntry)
        requires
            old(self).wf(),
        ensures
            final(self).wf(),
            final(self).macros.view() == old(self).macros.view().insert(entry.name@, entry),
            final(self).devices == old(self).devices,
            final(self).profiles == old(self).profiles,
            final(self).active_recording == old(self).active_recording,
            final(self).device_manager_ready == old(self).device_manager_ready,
    {
        let ghost old_macros = self.macros;
        let ghost e = entry;
        let key = entry.name.clone();
        self.macros.insert(key, entry);
        proof {
            old_macros.lemma_lens();
            self.macros.lemma_lens();
            assert forall|j: int| 0 <= j < self.macros.keys().len() implies #[trigger] self.macros.vals()[j].name@
                == self.macros.keys()[j] by {
                if j < old_macros.keys().len() {
                    if old_macros.keys()[j] != e.name@ {
                        assert(self.macros.vals()[j] == old_macros.vals()[j]);
                    } else {
                        assert(self.macros.view()[e.name@] == e);
                        self.macros.lemma_shape();
                        assert(self.macros.view()[self.macros.keys()[j]] == self.macros.vals()[j]);
                    }
                    if old_macros.keys().contains(e.name@) {
                        assert(self.macros.keys() == old_macros.keys());
                    } else {
                        assert(self.macros.keys() == old_macros.keys().push(e.name@));
                    }
                } else {
                    assert(!old_macros.keys().contains(e.name@));
                    assert(self.macros.vals() == old_macros.vals().push(e));
                }
            }
        }
    }
}

/// The answer to a refused recording start.
pub open spec fn recording_refused_text(e: EngineError) -> Seq<char> {
    "Failed to start recording: Failed to start recording: "@ + e.message_spec()
}

/// The answer to a failed macro start.
pub open spec fn execute_failed_text(name: Seq<char>, e: EngineError) -> Seq<char> {
    "Failed to execute macro '"@ + name + "': "@ + e.message_spec()
}

/// Whether `h` is a plain reply with the response `v` and no macro to perform.
pub open spec fn replies(h: Handled, v: ResponseV) -> bool {
    h matches Handled::Reply { response, start } && response@ == v && start is None
}

/// The macro that a test or execute request for `name` runs: the one the
/// daemon's table holds under that name (where set and recorded macros are
/// stored), otherwise the engine's macro of that name.
pub open spec fn named_macro(table: Map<Seq<char>, MacroEntry>, engine: MacroEngine, name: Seq<char>) -> Option<
    MacroEntryV,
> {
    if table.contains_key(name) {
        Some(table[name]@)
    } else if engine.store().view().contains_key(name) {
        Some(engine.store().view()[name]@)
    } else {
        None
    }
}

/// The answer to a test or execute request for a macro that is not known.
pub open spec fn unknown_macro_text(name: Seq<char>) -> Seq<char> {
    "Macro '"@ + name + "' not found"@
}

/// What handling a request that asks to execute the macro named `name` (the
/// test and execute requests) gives, with `table` the daemon's macro table.
pub open spec fn execute_outcome(
    table: Map<Seq<char>, MacroEntry>,
    pre: MacroEngine,
    post: MacroEngine,
    name: Seq<char>,
    h: Handled,
) -> bool {
    match named_macro(table, pre, name) {
        None => replies(h, ResponseV::Error(unknown_macro_text(name))) && post.executing_spec()
            == pre.executing_spec(),
        Some(m) => {
            &&& !pre.injector_spec() ==> replies(
                h,
                ResponseV::Error(execute_failed_text(m.name, EngineError::NoInjector)),
            ) && post.executing_spec() == pre.executing_spec()
            &&& pre.injector_spec() && pre.executing_spec().contains(m.name) ==> replies(h, ResponseV::Ack)
                && post.executing_spec() == pre.executing_spec()
            &&& pre.injector_spec() && !pre.executing_spec().contains(m.name) ==> (h matches Handled::Reply {
                response,
                start,
            } && response@ == ResponseV::Ack && (start matches Some(s) && s.name@ == m.name
                && s.actions.deep_view() == m.actions)) && post.executing_spec() == pre.executing_spec().push(
                m.name,
            )
        },
    }
}

/// Starts the macro named `name`: the daemon's table is looked in first, then
/// the engine's macros.
fn run_named_macro(state: &DaemonState, engine: &mut MacroEngine, name: &str) -> (h: Handled)
    requires
        state.wf(),
        old(engine).wf(),
    ensures
        final(engine).wf(),
        final(engine).store() == old(engine).store(),
        final(engine).recording_spec() == old(engine).recording_spec(),
        final(engine).injector_spec() == old(engine).injector_spec(),
        execute_outcome(state.macros.view(), *old(engine), *final(engine), name@, h),
{
    let found = match state.macros.get(name) {
        Some(m) => Some(m.clone()),
        None => engine.get_macro(name),
    };
    match found {
        None => Handled::Reply { response: Response::Error(concat3("Macro '", name, "' not found")), start: None },
        Some(entry) => {
            let entry_name = entry.name.clone();
            match engine.execute_macro(entry) {
                Ok(start) => Handled::Reply { response: Response::Ack, start },
                Err(e) => {
                    let mut msg = concat3("Failed to execute macro '", entry_name.as_str(), "': ");
                    let em = e.message();
                    crate::text::push_str(&mut msg, em.as_str());
                    Handled::Reply { response: Response::Error(msg), start: None }
                },
            }
        },
    }
}

/// Answers a request from the state, the macro engine and the token store at
/// time `now`, or hands back the outside work it needs.
pub fn handle_request(
    request: Request,
    state: &mut DaemonState,
    engine: &mut MacroEngine,
    security: &SecurityManager,
    now: u64,
) -> (h: Handled)
    requires
        old(state).wf(),
        old(engine).wf(),
        security.wf(),
    ensures
        final(state).wf(),
        final(engine).wf(),
        final(engine).store() == old(engine).store(),
        final(engine).injector_spec() == old(engine).injector_spec(),
        final(state).devices == old(state).devices,
        final(state).profiles == old(state).profiles,
        final(state).device_manager_ready == old(state).device_manager_ready,
        request matches Request::GenerateToken { client_id } ==> (h matches Handled::Defer(
            Deferred::GenerateToken { client_id: c },
        ) && c@ == client_id@),
        request matches Request::Authenticate { token } ==> replies(
            h,
            if security.accepts(token@, now) {
                ResponseV::Authenticated
            } else {
                ResponseV::Error("Invalid authentication token"@)
            },
        ),
        request is GetDevices ==> replies(h, ResponseV::Devices(old(state).devices.deep_view())),
        request is ListMacros ==> replies(h, ResponseV::Macros(macro_list_view(old(state).macros))),
        request matches Request::SetMacro { device_path, macro_entry } ==> {
            let found = exists|j: int|
                0 <= j < old(state).devices@.len() && #[trigger] old(state).devices@[j].path@
                    == device_path@;
            &&& found ==> replies(h, ResponseV::Ack) && final(state).macros.view()
                == old(state).macros.view().insert(macro_entry.name@, macro_entry)
            &&& !found ==> replies(h, ResponseV::Error("Device not found: "@ + device_path@))
                && final(state).macros == old(state).macros
        },
        request matches Request::DeleteMacro { name } ==> {
            &&& old(state).macros.view().contains_key(name@) ==> replies(h, ResponseV::Ack)
            &&& !old(state).macros.view().contains_key(name@) ==> replies(
                h,
                ResponseV::Error("Macro not found: "@ + name@),
            )
            &&& final(state).macros.view() == old(state).macros.view().remove(name@)
        },
        request is ReloadConfig ==> replies(h, ResponseV::Ack),
        request is LedSet ==> replies(h, ResponseV::Ack),
        request matches Request::RecordMacro { device_path, name } ==> {
            &&& old(engine).recording_spec() is None ==> replies(
                h,
                ResponseV::RecordingStarted { device_path: device_path@, name: name@ },
            )
            &&& old(engine).recording_spec() is None ==> (final(state).active_recording matches Some((n, d))
                && n@ == name@ && d@ == device_path@)
            &&& old(engine).recording_spec() is None ==> (final(engine).recording_spec() matches Some(m)
                && m@ == fresh_recording(name@, device_path@))
            &&& old(engine).recording_spec() is Some ==> replies(
                h,
                ResponseV::Error(recording_refused_text(EngineError::AlreadyRecording)),
            ) && final(state).active_recording == old(state).active_recording
                && final(engine).recording_spec() == old(engine).recording_spec()
        },
        request is StopRecording ==> {
            &&& final(state).active_recording is None
            &&& final(engine).recording_spec() is None
            &&& old(engine).recording_spec() matches Some(m) ==> replies(
                h,
                ResponseV::RecordingStopped { macro_entry: m@ },
            ) && final(state).macros.view() == old(state).macros.view().insert(m.name@, m)
            &&& old(engine).recording_spec() is None ==> replies(
                h,
                ResponseV::Error("No recording in progress"@),
            ) && final(state).macros == old(state).macros
        },
        request matches Request::TestMacro { name } ==> execute_outcome(
            old(state).macros.view(),
            *old(engine),
            *final(engine),
            name@,
            h,
        ),
        request matches Request::ExecuteMacro { name } ==> execute_outcome(
            old(state).macros.view(),
            *old(engine),
            *final(engine),
            name@,
            h,
        ),
        request is GetStatus ==> replies(
            h,
            ResponseV::Status {
                version: DAEMON_VERSION@,
                uptime_seconds: 0,
                devices_count: old(state).devices@.len() as usize,
                macros_count: old(state).macros.keys().len() as usize,
            },
        ),
        request matches Request::SaveProfile { name } ==> (h matches Handled::Defer(
            Deferred::SaveProfile { name: n, macros_count },
        ) && n@ == name@ && macros_count == old(state).macros.keys().len()),
        request matches Request::LoadProfile { name } ==> (h matches Handled::Defer(
            Deferred::LoadProfile { name: n },
        ) && n@ == name@),
        request is ListProfiles ==> h matches Handled::Defer(Deferred::ListProfiles),
        request matches Request::DeleteProfile { name } ==> (h matches Handled::Defer(
            Deferred::DeleteProfile { name: n },
        ) && n@ == name@),
        request matches Request::GrabDevice { device_path } ==> {
            &&& old(state).device_manager_ready ==> (h matches Handled::Defer(
                Deferred::GrabDevice { device_path: d },
            ) && d@ == device_path@)
            &&& !old(state).device_manager_ready ==> replies(
                h,
                ResponseV::Error("Device manager not initialized"@),
            )
        },
        request matches Request::UngrabDevice { device_path } ==> {
            &&& old(state).device_manager_ready ==> (h matches Handled::Defer(
                Deferred::UngrabDevice { device_path: d },
            ) && d@ == device_path@)
            &&& !old(state).device_manager_ready ==> replies(
                h,
                ResponseV::Error("Device manager not initialized"@),
            )
        },
        !(request is SetMacro || request is DeleteMacro || request is StopRecording) ==> final(state).macros
            == old(state).macros,
        !(request is RecordMacro || request is StopRecording) ==> final(state).active_recording == old(state).active_recording && final(engine).recording_spec() == old(engine).recording_spec(),
        !(request is TestMacro || request is ExecuteMacro) ==> final(engine).executing_spec() == old(engine).executing_spec(),
{
    match request {
        Request::GenerateToken { client_id } => Handled::Defer(Deferred::GenerateToken { client_id }),
        Request::Authenticate { token } => {
            let response = if security.validate_auth_token(token.as_str(), now) {
                Response::Authenticated
            } else {
                Response::Error(owned("Invalid authentication token"))
            };
            Handled::Reply { response, start: None }
        },
        Request::GetDevices => Handled::Reply { response: Response::Devices(copy_devices(&state.devices)), start: None },
        Request::ListMacros => Handled::Reply { response: Response::Macros(macro_list(&state.macros)), start: None },
        Request::SetMacro { device_path, macro_entry } => {
            if !state.has_device(device_path.as_str()) {
                return Handled::Reply {
                    response: Response::Error(concat2("Device not found: ", device_path.as_str())),
                    start: None,
                };
            }
            state.put_macro(macro_entry);
            Handled::Reply { response: Response::Ack, start: None }
        },
        Request::DeleteMacro { name } => {
            let removed = remove_state_macro(state, name.as_str());
            if removed {
                Handled::Reply { response: Response::Ack, start: None }
            } else {
                Handled::Reply { response: Response::Error(concat2("Macro not found: ", name.as_str())), start: None }
            }
        },
        Request::ReloadConfig => Handled::Reply { response: Response::Ack, start: None },
        Request::LedSet { device_path: _, color: _ } => Handled::Reply { response: Response::Ack, start: None },
        Request::RecordMacro { device_path, name } => {
            match engine.start_recording(name.clone(), device_path.clone()) {
                Ok(()) => {
                    state.active_recording = Some((name.clone(), device_path.clone()));
                    Handled::Reply { response: Response::RecordingStarted { device_path, name }, start: None }
                },
                Err(e) => {
                    let mut msg = owned("Failed to start recording: Failed to start recording: ");
                    let em = e.message();
                    crate::text::push_str(&mut msg, em.as_str());
                    Handled::Reply { response: Response::Error(msg), start: None }
                },
            }
        },
        Request::StopRecording => {
            let stopped = engine.stop_recording();
            state.active_recording = None;
            match stopped {
                Ok(Some(macro_entry)) => {
                    let copy = macro_entry.clone();
                    state.put_macro(macro_entry);
                    Handled::Reply { response: Response::RecordingStopped { macro_entry: copy }, start: None }
                },
                _ => Handled::Reply {
                    response: Response::Error(owned("No recording in progress")),
                    start: None,
                },
            }
        },
        Request::TestMacro { name } => run_named_macro(state, engine, name.as_str()),
        Request::ExecuteMacro { name } => run_named_macro(state, engine, name.as_str()),
        Request::GetStatus => {
            let devices_count = state.devices.len();
            let macros_count = state.macros.len();
            proof {
                state.macros.lemma_shape();
            }
            Handled::Reply {
                response: Response::Status {
                    version: owned(DAEMON_VERSION),
                    uptime_seconds: 0,
                    devices_count,
                    macros_count,
                },
                start: None,
            }
        },
        Request::SaveProfile { name } => {
            let macros_count = state.macros.len();
            Handled::Defer(Deferred::SaveProfile { name, macros_count })
        },
        Request::LoadProfile { name } => Handled::Defer(Deferred::LoadProfile { name }),
        Request::ListProfiles => Handled::Defer(Deferred::ListProfiles),
        Request::DeleteProfile { name } => Handled::Defer(Deferred::DeleteProfile { name }),
        Request::GrabDevice { device_path } => {
            if state.device_manager_ready {
                Handled::Defer(Deferred::GrabDevice { device_path })
            } else {
                Handled::Reply { response: Response::Error(owned("Device manager not initialized")), start: None }
            }
        },
        Request::UngrabDevice { device_path } => {
            if state.device_manager_ready {
                Handled::Defer(Deferred::UngrabDevice { device_path })
            } else {
                Handled::Reply { response: Response::Error(owned("Device manager not initialized")), start: None }
            }
        },
    }
}

/// Removes the state's macro named `name`; returns whether one was stored.
fn remove_state_macro(state: &mut DaemonState, name: &str) -> (r: bool)
    requires
        old(state).wf(),
    ensures
        final(state).wf(),
        r == old(state).macros.view().contains_key(name@),
        final(state).macros.view() == old(state).macros.view().remove(name@),
        final(state).devices == old(state).devices,
        final(state).profiles == old(state).profiles,
        final(state).active_recording == old(state).active_recording,
        final(state).device_manager_ready == old(state).device_manager_ready,
{
    let ghost old_macros = state.macros;
    let removed = state.macros.remove(name);
    proof {
        if removed is Some {
            old_macros.lemma_lens();
            state.macros.lemma_lens();
            let i = choose|i: int|
                0 <= i < old_macros.keys().len() && old_macros.keys()[i] == name@ && state.macros.keys()
                    == old_macros.keys().remove(i) && state.macros.vals() == old_macros.vals().remove(i);
            assert forall|j: int| 0 <= j < state.macros.keys().len() implies #[trigger] state.macros.vals()[j].name@
                == state.macros.keys()[j] by {
                if j < i {
                    assert(old_macros.vals()[j].name@ == old_macros.keys()[j]);
                } else {
                    assert(old_macros.vals()[j + 1].name@ == old_macros.keys()[j + 1]);
                }
            }
        }
    }
    removed.is_some()
}

/// The answer once a token was or was not made.
pub fn token_response(outcome: Result<String, String>) -> (r: Response)
    ensures
        outcome matches Ok(t) ==> r@ == ResponseV::Token(t@),
        outcome matches Err(e) ==> r@ == ResponseV::Error("Failed to generate token: "@ + e@),
{
    match outcome {
        Ok(t) => Response::Token(t),
        Err(e) => Response::Error(concat2("Failed to generate token: ", e.as_str())),
    }
}

/// The answer once the profile `name` was or was not saved.
pub fn profile_saved_response(name: String, macros_count: usize, outcome: Result<(), String>) -> (r: Response)
    ensures
        outcome is Ok ==> r@ == (ResponseV::ProfileSaved { name: name@, macros_count }),
        outcome matches Err(e) ==> r@ == ResponseV::Error("Failed to save profile: "@ + e@),
{
    match outcome {
        Ok(()) => Response::ProfileSaved { name, macros_count },
        Err(e) => Response::Error(concat2("Failed to save profile: ", e.as_str())),
    }
}

/// The answer once the profile `name` was or was not loaded (with its number of macros).
pub fn profile_loaded_response(name: String, outcome: Result<usize, String>) -> (r: Response)
    ensures
        outcome matches Ok(n) ==> r@ == (ResponseV::ProfileLoaded { name: name@, macros_count: n }),
        outcome matches Err(e) ==> r@ == ResponseV::Error("Failed to load profile: "@ + e@),
{
    match outcome {
        Ok(n) => Response::ProfileLoaded { name, macros_count: n },
        Err(e) => Response::Error(concat2("Failed to load profile: ", e.as_str())),
    }
}

/// The answer once the profiles were or were not listed.
pub fn profiles_listed_response(outcome: Result<Vec<String>, String>) -> (r: Response)
    ensures
        outcome matches Ok(p) ==> r@ == ResponseV::Profiles(p.deep_view()),
        outcome matches Err(e) ==> r@ == ResponseV::Error("Failed to list profiles: "@ + e@),
{
    match outcome {
        Ok(p) => Response::Profiles(p),
        Err(e) => Response::Error(concat2("Failed to list profiles: ", e.as_str())),
    }
}

/// The answer once a profile was or was not deleted.
pub fn profile_deleted_response(outcome: Result<(), String>) -> (r: Response)
    ensures
        outcome is Ok ==> r@ == ResponseV::Ack,
        outcome matches Err(e) ==> r@ == ResponseV::Error("Failed to delete profile: "@ + e@),
{
    match outcome {
        Ok(()) => Response::Ack,
        Err(e) => Response::Error(concat2("Failed to delete profile: ", e.as_str())),
    }
}

/// The answer once a device was or was not grabbed.
pub fn device_grabbed_response(outcome: Result<(), String>) -> (r: Response)
    ensures
        outcome is Ok ==> r@ == ResponseV::Ack,
        outcome matches Err(e) ==> r@ == ResponseV::Error("Failed to grab device: "@ + e@),
{
    match outcome {
        Ok(()) => Response::Ack,
        Err(e) => Response::Error(concat2("Failed to grab device: ", e.as_str())),
    }
}

/// The answer once a device was or was not released.
pub fn device_ungrabbed_response(outcome: Result<(), String>) -> (r: Response)
    ensures
        outcome is Ok ==> r@ == ResponseV::Ack,
        outcome matches Err(e) ==> r@ == ResponseV::Error("Failed to ungrab device: "@ + e@),
{
    match outcome {
        Ok(()) => Response::Ack,
        Err(e) => Response::Error(concat2("Failed to ungrab device: ", e.as_str())),
    }
}

/// The answer sent before a request is handled when tokens are required:
/// an authentication request is answered at once, a token request goes on,
/// and any other request is refused. Nothing is answered early when tokens
/// are not required.
pub fn gate_request(auth_required: bool, request: &Request, security: &SecurityManager, now: u64) -> (r: Option<
    Response,
>)
    requires
        security.wf(),
    ensures
        !auth_required ==> r is None,
        auth_required && request is GenerateToken ==> r is None,
        auth_required ==> (request matches Request::Authenticate { token } ==> (r matches Some(resp)
            && resp@ == if security.accepts(token@, now) {
            ResponseV::Authenticated
        } else {
            ResponseV::Error("Invalid authentication token"@)
        })),
        auth_required && !(request is GenerateToken) && !(request is Authenticate) ==> (r matches Some(
            resp,
        ) && resp@ == ResponseV::Error("Authentication required"@)),
{
    if !auth_required {
        return None;
    }
    match request {
        Request::Authenticate { token } => {
            if security.validate_auth_token(token.as_str(), now) {
                Some(Response::Authenticated)
            } else {
                Some(Response::Error(owned("Invalid authentication token")))
            }
        },
        Request::GenerateToken { client_id: _ } => None,
        _ => Some(Response::Error(owned("Authentication required"))),
    }
}

/// What a `SetMacro` wrote, a `ListMacros` reads back: when the state's table
/// holds `m` under `m`'s name, the listed macros hold `m`.
pub proof fn lemma_set_macro_listed(macros: StrMap<MacroEntry>, m: MacroEntry)
    requires
        macros.wf(),
        macros.view().contains_key(m.name@),
        macros.view()[m.name@] == m,
    ensures
        macro_list_view(macros).contains(m@),
{
    macros.lemma_shape();
    let j = macros.keys().index_of(m.name@);
    assert(macros.view()[macros.keys()[j]] == macros.vals()[j]);
    assert(macro_list_view(macros)[j] == m@);
}

/// A macro that a `StopRecording` stored is the one a later `TestMacro` or
/// `ExecuteMacro` of its name runs: once the daemon's table holds `m` under
/// its name, that name runs `m`, whatever the engine holds.
pub proof fn lemma_recorded_macro_runs(table: Map<Seq<char>, MacroEntry>, engine: MacroEngine, m: MacroEntry)
    ensures
        named_macro(table.insert(m.name@, m), engine, m.name@) == Some(m@),
{
}

} // verus!
