//! The GUI's state and how each message changes it.
//!
//! Each message updates the state and names the IPC work to start next (an
//! [`Effect`]); the caller performs that work and feeds its outcome back as
//! another message. Time is given in milliseconds by the caller.
use vstd::prelude::*;
use std::collections::VecDeque;
use crate::protocol::{DeviceInfo, DeviceInfoV, MacroEntry, MacroEntryV};
use crate::strmap::StrMap;
use crate::text::{owned, push_str, push_hex4_upper, hex4_upper, concat2, concat3, contains_str, contains_seq, decimal, decimal_string, trim, trim_spec, str_eq};

verus! {

/// The tabs of the main window.
#[derive(Debug, Clone, Copy, PartialEq, Eq, Structural)]
pub enum Tab {
    Devices,
    Macros,
    Profiles,
}

/// A message shown to the user.
#[derive(Debug)]
pub struct Notification {
    pub message: String,
    pub is_error: bool,
    /// When it was shown, in milliseconds.
    pub timestamp: u64,
}

/// Model of [`Notification`].
pub struct NotificationV {
    pub message: Seq<char>,
    pub is_error: bool,
    pub timestamp: u64,
}

impl View for Notification {
    type V = NotificationV;

    open spec fn view(&self) -> NotificationV {
        NotificationV { message: self.message@, is_error: self.is_error, timestamp: self.timestamp }
    }
}

/// The GUI's state.
pub struct State {
    pub devices: Vec<DeviceInfo>,
    pub macros: Vec<MacroEntry>,
    pub selected_device: Option<usize>,
    pub status: String,
    pub status_history: VecDeque<String>,
    pub loading: bool,
    pub recording: bool,
    pub recording_macro_name: Option<String>,
    pub daemon_connected: bool,
    pub new_macro_name: String,
    pub socket_path: String,
    /// Macros recorded recently, with the time they were recorded.
    pub recently_updated_macros: StrMap<u64>,
    /// Paths of the grabbed devices.
    pub grabbed_devices: StrMap<()>,
    pub profile_name: String,
    pub active_tab: Tab,
    pub notifications: VecDeque<Notification>,
    pub recording_pulse: bool,
}

/// The messages of the GUI.
#[derive(Debug)]
pub enum Message {
    SwitchTab(Tab),
    LoadDevices,
    DevicesLoaded(Result<Vec<DeviceInfo>, String>),
    GrabDevice(String),
    UngrabDevice(String),
    DeviceGrabbed(Result<String, String>),
    DeviceUngrabbed(Result<String, String>),
    SelectDevice(usize),
    UpdateMacroName(String),
    StartRecording,
    StopRecording,
    RecordingStarted(Result<String, String>),
    RecordingStopped(Result<MacroEntry, String>),
    LoadMacros,
    MacrosLoaded(Result<Vec<MacroEntry>, String>),
    PlayMacro(String),
    MacroPlayed(Result<String, String>),
    DeleteMacro(String),
    MacroDeleted(Result<String, String>),
    UpdateProfileName(String),
    SaveProfile,
    ProfileSaved(Result<(String, usize), String>),
    LoadProfile,
    ProfileLoaded(Result<(String, usize), String>),
    CheckDaemonConnection,
    DaemonStatusChanged(bool),
    TickAnimations,
    /// Sets the status line.
    StatusUpdated(String),
    /// Names a macro and starts recording it.
    RecordMacro(String),
}

/// Whether `b` holds the same values as `a`: the same message, with equal
/// texts, devices, macros and numbers.
pub open spec fn same_message(a: Message, b: Message) -> bool {
    match a {
        Message::SwitchTab(t) => b == Message::SwitchTab(t),
        Message::LoadDevices => b is LoadDevices,
        Message::DevicesLoaded(Ok(d)) => b matches Message::DevicesLoaded(Ok(e)) && e.deep_view() == d.deep_view(),
        Message::DevicesLoaded(Err(x)) => b matches Message::DevicesLoaded(Err(y)) && y@ == x@,
        Message::GrabDevice(x) => b matches Message::GrabDevice(y) && y@ == x@,
        Message::UngrabDevice(x) => b matches Message::UngrabDevice(y) && y@ == x@,
        Message::DeviceGrabbed(r) => b matches Message::DeviceGrabbed(q) && same_text_outcome(r, q),
        Message::DeviceUngrabbed(r) => b matches Message::DeviceUngrabbed(q) && same_text_outcome(r, q),
        Message::SelectDevice(i) => b == Message::SelectDevice(i),
        Message::UpdateMacroName(x) => b matches Message::UpdateMacroName(y) && y@ == x@,
        Message::StartRecording => b is StartRecording,
        Message::StopRecording => b is StopRecording,
        Message::RecordingStarted(r) => b matches Message::RecordingStarted(q) && same_text_outcome(r, q),
        Message::RecordingStopped(Ok(m)) => b matches Message::RecordingStopped(Ok(n)) && n@ == m@,
        Message::RecordingStopped(Err(x)) => b matches Message::RecordingStopped(Err(y)) && y@ == x@,
        Message::LoadMacros => b is LoadMacros,
        Message::MacrosLoaded(Ok(m)) => b matches Message::MacrosLoaded(Ok(n)) && n.deep_view() == m.deep_view(),
        Message::MacrosLoaded(Err(x)) => b matches Message::MacrosLoaded(Err(y)) && y@ == x@,
        Message::PlayMacro(x) => b matches Message::PlayMacro(y) && y@ == x@,
        Message::MacroPlayed(r) => b matches Message::MacroPlayed(q) && same_text_outcome(r, q),
        Message::DeleteMacro(x) => b matches Message::DeleteMacro(y) && y@ == x@,
        Message::MacroDeleted(r) => b matches Message::MacroDeleted(q) && same_text_outcome(r, q),
        Message::UpdateProfileName(x) => b matches Message::UpdateProfileName(y) && y@ == x@,
        Message::SaveProfile => b is SaveProfile,
        Message::ProfileSaved(r) => b matches Message::ProfileSaved(q) && same_profile_outcome(r, q),
        Message::LoadProfile => b is LoadProfile,
        Message::ProfileLoaded(r) => b matches Message::ProfileLoaded(q) && same_profile_outcome(r, q),
        Message::CheckDaemonConnection => b is CheckDaemonConnection,
        Message::DaemonStatusChanged(c) => b == Message::DaemonStatusChanged(c),
        Message::TickAnimations => b is TickAnimations,
        Message::StatusUpdated(x) => b matches Message::StatusUpdated(y) && y@ == x@,
        Message::RecordMacro(x) => b matches Message::RecordMacro(y) && y@ == x@,
    }
}

/// Whether two text outcomes hold equal texts on the same side.
pub open spec fn same_text_outcome(a: Result<String, String>, b: Result<String, String>) -> bool {
    match a {
        Ok(x) => b matches Ok(y) && y@ == x@,
        Err(x) => b matches Err(y) && y@ == x@,
    }
}

/// Whether two profile outcomes hold equal names and counts, or equal errors.
pub open spec fn same_profile_outcome(a: Result<(String, usize), String>, b: Result<(String, usize), String>) -> bool {
    match a {
        Ok((n, k)) => b matches Ok((m, j)) && m@ == n@ && j == k,
        Err(x) => b matches Err(y) && y@ == x@,
    }
}

/// A copy of a text outcome.
fn copy_text_outcome(r: &Result<String, String>) -> (c: Result<String, String>)
    ensures
        same_text_outcome(*r, c),
{
    match r {
        Ok(s) => Ok(s.clone()),
        Err(s) => Err(s.clone()),
    }
}

/// A copy of a profile outcome: the profile's name and its number of macros.
fn copy_profile_outcome(r: &Result<(String, usize), String>) -> (c: Result<(String, usize), String>)
    ensures
        same_profile_outcome(*r, c),
{
    match r {
        Ok((n, k)) => Ok((n.clone(), *k)),
        Err(s) => Err(s.clone()),
    }
}

impl Clone for Message {
    fn clone(&self) -> (r: Self)
        ensures
            same_message(*self, r),
    {
        match self {
            Message::SwitchTab(t) => Message::SwitchTab(*t),
            Message::LoadDevices => Message::LoadDevices,
            Message::DevicesLoaded(Ok(d)) => Message::DevicesLoaded(Ok(crate::protocol::copy_devices(d))),
            Message::DevicesLoaded(Err(e)) => Message::DevicesLoaded(Err(e.clone())),
            Message::GrabDevice(p) => Message::GrabDevice(p.clone()),
            Message::UngrabDevice(p) => Message::UngrabDevice(p.clone()),
            Message::DeviceGrabbed(r) => Message::DeviceGrabbed(copy_text_outcome(r)),
            Message::DeviceUngrabbed(r) => Message::DeviceUngrabbed(copy_text_outcome(r)),
            Message::SelectDevice(i) => Message::SelectDevice(*i),
            Message::UpdateMacroName(n) => Message::UpdateMacroName(n.clone()),
            Message::StartRecording => Message::StartRecording,
            Message::StopRecording => Message::StopRecording,
            Message::RecordingStarted(r) => Message::RecordingStarted(copy_text_outcome(r)),
            Message::RecordingStopped(Ok(m)) => Message::RecordingStopped(Ok(m.clone())),
            Message::RecordingStopped(Err(e)) => Message::RecordingStopped(Err(e.clone())),
            Message::LoadMacros => Message::LoadMacros,
            Message::MacrosLoaded(Ok(m)) => Message::MacrosLoaded(Ok(crate::protocol::copy_macros(m))),
            Message::MacrosLoaded(Err(e)) => Message::MacrosLoaded(Err(e.clone())),
            Message::PlayMacro(n) => Message::PlayMacro(n.clone()),
            Message::MacroPlayed(r) => Message::MacroPlayed(copy_text_outcome(r)),
            Message::DeleteMacro(n) => Message::DeleteMacro(n.clone()),
            Message::MacroDeleted(r) => Message::MacroDeleted(copy_text_outcome(r)),
            Message::UpdateProfileName(n) => Message::UpdateProfileName(n.clone()),
            Message::SaveProfile => Message::SaveProfile,
            Message::ProfileSaved(r) => Message::ProfileSaved(copy_profile_outcome(r)),
            Message::LoadProfile => Message::LoadProfile,
            Message::ProfileLoaded(r) => Message::ProfileLoaded(copy_profile_outcome(r)),
            Message::CheckDaemonConnection => Message::CheckDaemonConnection,
            Message::DaemonStatusChanged(c) => Message::DaemonStatusChanged(*c),
            Message::TickAnimations => Message::TickAnimations,
            Message::StatusUpdated(s) => Message::StatusUpdated(s.clone()),
            Message::RecordMacro(n) => Message::RecordMacro(n.clone()),
        }
    }
}

/// The IPC work that a message calls for.
#[derive(Debug)]
pub enum Effect {
    /// Nothing to do.
    Nothing,
    /// Check whether the daemon runs; answer with `DaemonStatusChanged`.
    CheckConnection,
    /// Fetch the devices; answer with `DevicesLoaded`.
    LoadDevices,
    /// Fetch the macros; answer with `MacrosLoaded`.
    LoadMacros,
    /// Play a macro; answer with `MacroPlayed`.
    PlayMacro(String),
    /// Delete a macro; answer with `MacroDeleted`.
    DeleteMacro(String),
    /// Start recording `name` on `device_path`; answer with `RecordingStarted`.
    StartRecording { device_path: String, name: String },
    /// Stop recording; answer with `RecordingStopped`.
    StopRecording,
    /// Save a profile; answer with `ProfileSaved`.
    SaveProfile(String),
    /// Load a profile; answer with `ProfileLoaded`.
    LoadProfile(String),
    /// Grab a device; answer with `DeviceGrabbed`.
    GrabDevice(String),
    /// Release a device; answer with `DeviceUngrabbed`.
    UngrabDevice(String),
}

/// The default socket path of the GUI on Linux.
pub const GUI_SOCKET_PATH: &'static str = "/run/razermapper/razermapper.sock";

/// How long a recorded macro is marked as recent, in milliseconds.
pub const RECENT_MS: u64 = 3000;

/// How long a notification is kept, in milliseconds.
pub const NOTIFICATION_MS: u64 = 5000;

/// `s` with its first element dropped when it is longer than `cap`.
pub open spec fn capped<A>(s: Seq<A>, cap: nat) -> Seq<A> {
    if s.len() > cap {
        s.drop_first()
    } else {
        s
    }
}

/// The models of the notifications.
pub open spec fn notes(q: VecDeque<Notification>) -> Seq<NotificationV> {
    q@.map_values(|n: Notification| n@)
}

/// The status history as character sequences.
pub open spec fn history(q: VecDeque<String>) -> Seq<Seq<char>> {
    q@.map_values(|s: String| s@)
}

/// `later - earlier`, or 0 when `earlier` is later (as `Instant::duration_since` saturates).
pub open spec fn elapsed(later: u64, earlier: u64) -> int {
    if later >= earlier {
        later - earlier
    } else {
        0
    }
}

/// The notifications left after dropping those at the front that are older than five seconds.
pub open spec fn drop_expired(s: Seq<NotificationV>, now: u64) -> Seq<NotificationV>
    decreases s.len(),
{
    if s.len() > 0 && elapsed(now, s[0].timestamp) > NOTIFICATION_MS {
        drop_expired(s.drop_first(), now)
    } else {
        s
    }
}

/// The models of macros other than those named `name`, in order.
pub open spec fn without_named(s: Seq<MacroEntryV>, name: Seq<char>) -> Seq<MacroEntryV>
    decreases s.len(),
{
    if s.len() == 0 {
        Seq::empty()
    } else if s.last().name == name {
        without_named(s.drop_last(), name)
    } else {
        without_named(s.drop_last(), name).push(s.last())
    }
}

/// Whether `post` is `pre` after showing `msg`: the notification joins the
/// queue (keeping the last five), the status becomes `msg`, and `msg` joins
/// the status history (keeping the last ten).
pub open spec fn notified(pre: State, post: State, msg: Seq<char>, is_error: bool, now: u64) -> bool {
    &&& notes(post.notifications) == capped(
        notes(pre.notifications).push(NotificationV { message: msg, is_error, timestamp: now }),
        5,
    )
    &&& post.status@ == msg
    &&& history(post.status_history) == capped(history(pre.status_history).push(msg), 10)
}

/// The notification part of the state is unchanged.
pub open spec fn quiet(pre: State, post: State) -> bool {
    &&& post.notifications == pre.notifications
    &&& post.status == pre.status
    &&& post.status_history == pre.status_history
}

impl State {
    /// The state when the GUI starts: nothing loaded, not connected, the
    /// devices tab open, the status `Initializing...`, the profile name `default`.
    pub fn new() -> (s: Self)
        ensures
            s.devices@.len() == 0,
            s.macros@.len() == 0,
            s.selected_device is None,
            s.status@ == "Initializing..."@,
            s.status_history@.len() == 0,
            !s.loading,
            !s.recording,
            s.recording_macro_name is None,
            !s.daemon_connected,
            s.new_macro_name@.len() == 0,
            s.socket_path@ == GUI_SOCKET_PATH@,
            s.recently_updated_macros.wf(),
            s.recently_updated_macros.view() == Map::<Seq<char>, u64>::empty(),
            s.grabbed_devices.wf(),
            s.grabbed_devices.view() == Map::<Seq<char>, ()>::empty(),
            s.profile_name@ == "default"@,
            s.active_tab == Tab::Devices,
            s.notifications@.len() == 0,
            !s.recording_pulse,
    {
        State {
            devices: Vec::new(),
            macros: Vec::new(),
            selected_device: None,
            status: owned("Initializing..."),
            status_history: VecDeque::with_capacity(10),
            loading: false,
            recording: false,
            recording_macro_name: None,
            daemon_connected: false,
            new_macro_name: String::new(),
            socket_path: owned(GUI_SOCKET_PATH),
            recently_updated_macros: StrMap::new(),
            grabbed_devices: StrMap::new(),
            profile_name: owned("default"),
            active_tab: Tab::Devices,
            notifications: VecDeque::with_capacity(5),
            recording_pulse: false,
        }
    }

    /// The state's invariant: the maps keep their keys without repeats.
    pub open spec fn wf(&self) -> bool {
        self.recently_updated_macros.wf() && self.grabbed_devices.wf()
    }

    /// The window title.
    pub fn title(&self) -> (r: String)
        ensures
            r@ == "Razermapper"@,
    {
        owned("Razermapper")
    }

    /// Shows `message`: queues a notification (keeping the last five), sets
    /// the status, and records it in the status history (keeping the last ten).
    pub fn add_notification(&mut self, message: &str, is_error: bool, now: u64)
        ensures
            notified(*old(self), *final(self), message@, is_error, now),
            final(self).devices == old(self).devices,
            final(self).macros == old(self).macros,
            final(self).selected_device == old(self).selected_device,
            final(self).loading == old(self).loading,
            final(self).recording == old(self).recording,
            final(self).recording_macro_name == old(self).recording_macro_name,
            final(self).daemon_connected == old(self).daemon_connected,
            final(self).new_macro_name == old(self).new_macro_name,
            final(self).socket_path == old(self).socket_path,
            final(self).recently_updated_macros == old(self).recently_updated_macros,
            final(self).grabbed_devices == old(self).grabbed_devices,
            final(self).profile_name == old(self).profile_name,
            final(self).active_tab == old(self).active_tab,
            final(self).recording_pulse == old(self).recording_pulse,
    {
        let ghost old_notes = notes(self.notifications);
        let ghost old_hist = history(self.status_history);
        self.notifications.push_back(Notification { message: owned(message), is_error, timestamp: now });
        assert(notes(self.notifications) =~= old_notes.push(
            NotificationV { message: message@, is_error, timestamp: now },
        ));
        self.status = owned(message);
        self.status_history.push_back(owned(message));
        assert(history(self.status_history) =~= old_hist.push(message@));
        if self.status_history.len() > 10 {
            let ghost h = history(self.status_history);
            let _ = self.status_history.pop_front();
            assert(history(self.status_history) =~= h.drop_first());
        }
        if self.notifications.len() > 5 {
            let ghost ns = notes(self.notifications);
            let _ = self.notifications.pop_front();
            assert(notes(self.notifications) =~= ns.drop_first());
        }
    }

    /// Sets the status line and records it in the status history (keeping the last ten).
    fn set_status(&mut self, message: String)
        ensures
            final(self).status@ == message@,
            history(final(self).status_history) == capped(history(old(self).status_history).push(message@), 10),
            final(self).notifications == old(self).notifications,
            final(self).devices == old(self).devices,
            final(self).macros == old(self).macros,
            final(self).selected_device == old(self).selected_device,
            final(self).loading == old(self).loading,
            final(self).recording == old(self).recording,
            final(self).recording_macro_name == old(self).recording_macro_name,
            final(self).daemon_connected == old(self).daemon_connected,
            final(self).new_macro_name == old(self).new_macro_name,
            final(self).socket_path == old(self).socket_path,
            final(self).recently_updated_macros == old(self).recently_updated_macros,
            final(self).grabbed_devices == old(self).grabbed_devices,
            final(self).profile_name == old(self).profile_name,
            final(self).active_tab == old(self).active_tab,
            final(self).recording_pulse == old(self).recording_pulse,
    {
        let ghost old_hist = history(self.status_history);
        let copy = message.clone();
        self.status = message;
        self.status_history.push_back(copy);
        assert(history(self.status_history) =~= old_hist.push(self.status@));
        if self.status_history.len() > 10 {
            let ghost h = history(self.status_history);
            let _ = self.status_history.pop_front();
            assert(history(self.status_history) =~= h.drop_first());
        }
    }

    /// Forgets the macros recorded three or more seconds before `now`.
    fn expire_recent(&mut self, now: u64)
        requires
            old(self).recently_updated_macros.wf(),
        ensures
            final(self).recently_updated_macros.wf(),
            forall|k: Seq<char>|
                #[trigger] final(self).recently_updated_macros.view().contains_key(k) <==> (old(self).recently_updated_macros.view().contains_key(k)
                    && elapsed(now, old(self).recently_updated_macros.view()[k]) < RECENT_MS),
            forall|k: Seq<char>|
                #[trigger] final(self).recently_updated_macros.view().contains_key(k) ==> final(self).recently_updated_macros.view()[k]
                    == old(self).recently_updated_macros.view()[k],
            final(self).notifications == old(self).notifications,
            final(self).status == old(self).status,
            final(self).status_history == old(self).status_history,
            final(self).devices == old(self).devices,
            final(self).macros == old(self).macros,
            final(self).selected_device == old(self).selected_device,
            final(self).loading == old(self).loading,
            final(self).recording == old(self).recording,
            final(self).recording_macro_name == old(self).recording_macro_name,
            final(self).daemon_connected == old(self).daemon_connected,
            final(self).new_macro_name == old(self).new_macro_name,
            final(self).socket_path == old(self).socket_path,
            final(self).grabbed_devices == old(self).grabbed_devices,
            final(self).profile_name == old(self).profile_name,
            final(self).active_tab == old(self).active_tab,
            final(self).recording_pulse == old(self).recording_pulse,
    {
        let ghost old_map = self.recently_updated_macros;
        proof {
            old_map.lemma_shape();
        }
        let n = self.recently_updated_macros.len();
        let mut kept: StrMap<u64> = StrMap::new();
        let mut i: usize = 0;
        while i < n
            invariant
                old_map == self.recently_updated_macros,
                old_map.wf(),
                n == old_map.keys().len(),
                old_map.vals().len() == n,
                i <= n,
                kept.wf(),
                forall|k: Seq<char>|
                    #[trigger] kept.view().contains_key(k) <==> exists|j: int|
                        0 <= j < i && old_map.keys()[j] == k && elapsed(now, old_map.vals()[j]) < RECENT_MS,
                forall|j: int|
                    0 <= j < i && elapsed(now, old_map.vals()[j]) < RECENT_MS ==> kept.view()[#[trigger] old_map.keys()[j]]
                        == old_map.vals()[j],
            decreases n - i,
        {
            let t = *self.recently_updated_macros.value_at(i);
            let age = if now >= t { now - t } else { 0 };
            if age < RECENT_MS {
                let key = self.recently_updated_macros.key_at(i).clone();
                kept.insert(key, t);
                proof {
                    assert forall|j: int|
                        0 <= j < i + 1 && elapsed(now, old_map.vals()[j]) < RECENT_MS implies kept.view()[#[trigger] old_map.keys()[j]]
                        == old_map.vals()[j] by {
                        if j < i {
                            assert(old_map.keys()[j] != old_map.keys()[i as int]);
                        }
                    }
                    assert forall|k: Seq<char>| #[trigger] kept.view().contains_key(k) <==> exists|j: int|
                        0 <= j < i + 1 && old_map.keys()[j] == k && elapsed(now, old_map.vals()[j]) < RECENT_MS by {
                        if k == old_map.keys()[i as int] {
                            assert(old_map.keys()[i as int] == k && elapsed(now, old_map.vals()[i as int]) < RECENT_MS);
                        }
                    }
                }
            } else {
                proof {
                    assert forall|k: Seq<char>| #[trigger] kept.view().contains_key(k) <==> exists|j: int|
                        0 <= j < i + 1 && old_map.keys()[j] == k && elapsed(now, old_map.vals()[j]) < RECENT_MS by {
                        if exists|j: int| 0 <= j < i + 1 && old_map.keys()[j] == k && elapsed(now, old_map.vals()[j]) < RECENT_MS {
                            let j = choose|j: int| 0 <= j < i + 1 && old_map.keys()[j] == k && elapsed(now, old_map.vals()[j]) < RECENT_MS;
                            assert(j != i);
                        }
                    }
                }
            }
            i = i + 1;
        }
        proof {
            assert forall|k: Seq<char>| #[trigger] kept.view().contains_key(k) <==> (old_map.view().contains_key(
                k,
            ) && elapsed(now, old_map.view()[k]) < RECENT_MS) by {
                if old_map.view().contains_key(k) {
                    let j = old_map.keys().index_of(k);
                    assert(old_map.keys()[j] == k);
                    assert(old_map.view()[old_map.keys()[j]] == old_map.vals()[j]);
                }
                if kept.view().contains_key(k) {
                    let j = choose|j: int| 0 <= j < n && old_map.keys()[j] == k && elapsed(now, old_map.vals()[j]) < RECENT_MS;
                    assert(old_map.view()[old_map.keys()[j]] == old_map.vals()[j]);
                    assert(old_map.keys().contains(k));
                }
            }
            assert forall|k: Seq<char>| #[trigger] kept.view().contains_key(k) implies kept.view()[k]
                == old_map.view()[k] by {
                let j = choose|j: int| 0 <= j < n && old_map.keys()[j] == k && elapsed(now, old_map.vals()[j]) < RECENT_MS;
                assert(old_map.view()[old_map.keys()[j]] == old_map.vals()[j]);
            }
        }
        self.recently_updated_macros = kept;
    }

    /// Drops the notifications at the front that were shown more than five seconds before `now`.
    fn expire_notifications(&mut self, now: u64)
        ensures
            notes(final(self).notifications) == drop_expired(notes(old(self).notifications), now),
            final(self).status == old(self).status,
            final(self).status_history == old(self).status_history,
            final(self).devices == old(self).devices,
            final(self).macros == old(self).macros,
            final(self).selected_device == old(self).selected_device,
            final(self).loading == old(self).loading,
            final(self).recording == old(self).recording,
            final(self).recording_macro_name == old(self).recording_macro_name,
            final(self).daemon_connected == old(self).daemon_connected,
            final(self).new_macro_name == old(self).new_macro_name,
            final(self).socket_path == old(self).socket_path,
            final(self).recently_updated_macros == old(self).recently_updated_macros,
            final(self).grabbed_devices == old(self).grabbed_devices,
            final(self).profile_name == old(self).profile_name,
            final(self).active_tab == old(self).active_tab,
            final(self).recording_pulse == old(self).recording_pulse,
    {
        loop
            invariant
                drop_expired(notes(self.notifications), now) == drop_expired(notes(old(self).notifications), now),
                self.status == old(self).status,
                self.status_history == old(self).status_history,
                self.devices == old(self).devices,
                self.macros == old(self).macros,
                self.selected_device == old(self).selected_device,
                self.loading == old(self).loading,
                self.recording == old(self).recording,
                self.recording_macro_name == old(self).recording_macro_name,
                self.daemon_connected == old(self).daemon_connected,
                self.new_macro_name == old(self).new_macro_name,
                self.socket_path == old(self).socket_path,
                self.recently_updated_macros == old(self).recently_updated_macros,
                self.grabbed_devices == old(self).grabbed_devices,
                self.profile_name == old(self).profile_name,
                self.active_tab == old(self).active_tab,
                self.recording_pulse == old(self).recording_pulse,
            ensures
                notes(self.notifications) == drop_expired(notes(old(self).notifications), now),
            decreases self.notifications@.len(),
        {
            if self.notifications.len() == 0 {
                break;
            }
            let ts = self.notifications[0].timestamp;
            let age = if now >= ts { now - ts } else { 0 };
            if age > NOTIFICATION_MS {
                let ghost ns = notes(self.notifications);
                let _ = self.notifications.pop_front();
                assert(notes(self.notifications) =~= ns.drop_first());
            } else {
                break;
            }
        }
    }

    /// The first device whose path is `path`.
    fn device_position(&self, path: &str) -> (r: Option<usize>)
        ensures
            r matches Some(i) ==> i < self.devices@.len() && self.devices@[i as int].path@ == path@ && forall|j: int|
                0 <= j < i ==> self.devices@[j].path@ != path@,
            r is None ==> forall|j: int| 0 <= j < self.devices@.len() ==> self.devices@[j].path@ != path@,
    {
        let n = self.devices.len();
        let mut i: usize = 0;
        while i < n
            invariant
                n == self.devices@.len(),
                i <= n,
                forall|j: int| 0 <= j < i ==> self.devices@[j].path@ != path@,
            decreases n - i,
        {
            if str_eq(self.devices[i].path.as_str(), path) {
                return Some(i);
            }
            i = i + 1;
        }
        None
    }

    /// Drops the macros named `name`.
    fn drop_macros_named(&mut self, name: &str)
        ensures
            final(self).macros.deep_view() == without_named(old(self).macros.deep_view(), name@),
            final(self).notifications == old(self).notifications,
            final(self).status == old(self).status,
            final(self).status_history == old(self).status_history,
            final(self).devices == old(self).devices,
            final(self).selected_device == old(self).selected_device,
            final(self).loading == old(self).loading,
            final(self).recording == old(self).recording,
            final(self).recording_macro_name == old(self).recording_macro_name,
            final(self).daemon_connected == old(self).daemon_connected,
            final(self).new_macro_name == old(self).new_macro_name,
            final(self).socket_path == old(self).socket_path,
            final(self).recently_updated_macros == old(self).recently_updated_macros,
            final(self).grabbed_devices == old(self).grabbed_devices,
            final(self).profile_name == old(self).profile_name,
            final(self).active_tab == old(self).active_tab,
            final(self).recording_pulse == old(self).recording_pulse,
    {
        let mut all: Vec<MacroEntry> = Vec::new();
        std::mem::swap(&mut all, &mut self.macros);
        let ghost orig = all.deep_view();
        let n = all.len();
        let mut kept: Vec<MacroEntry> = Vec::new();
        let mut i: usize = 0;
        assert(orig.subrange(0, 0) =~= Seq::<MacroEntryV>::empty());
        while i < n
            invariant
                n == all@.len(),
                orig == all.deep_view(),
                i <= n,
                kept.deep_view() == without_named(orig.subrange(0, i as int), name@),
            decreases n - i,
        {
            assert(orig.subrange(0, i + 1).drop_last() =~= orig.subrange(0, i as int));
            assert(orig.subrange(0, i + 1).last() == all@[i as int]@);
            if !str_eq(all[i].name.as_str(), name) {
                let ghost before = kept.deep_view();
                kept.push(all[i].clone());
                assert(kept.deep_view() =~= before.push(all@[i as int]@));
            }
            i = i + 1;
        }
        assert(orig.subrange(0, n as int) =~= orig);
        self.macros = kept;
    }

    /// The path of the first grabbed device.
    fn first_grabbed(&self) -> (r: String)
        requires
            self.grabbed_devices.wf(),
            self.grabbed_devices.view().dom().len() > 0,
        ensures
            self.grabbed_devices.view().contains_key(r@),
            r@ == self.grabbed_devices.keys()[0],
    {
        proof {
            self.grabbed_devices.lemma_shape();
        }
        let k = self.grabbed_devices.key_at(0).clone();
        proof {
            assert(self.grabbed_devices.keys().to_set().contains(self.grabbed_devices.keys()[0]));
        }
        k
    }

    /// Starts recording the macro named in the name field on a grabbed
    /// device; refused without a name or without a grabbed device.
    fn begin_recording(&mut self, now: u64) -> (e: Effect)
        requires
            old(self).wf(),
        ensures
            final(self).wf(),
            recording_started(*old(self), *final(self), now, e),
    {
        let trimmed = trim(self.new_macro_name.as_str());
        if trimmed.unicode_len() == 0 {
            self.add_notification("Enter a macro name first", true, now);
            return Effect::Nothing;
        }
        if self.grabbed_devices.len() == 0 {
            self.add_notification("Grab a device first", true, now);
            return Effect::Nothing;
        }
        let device_path = self.first_grabbed();
        let macro_name = self.new_macro_name.clone();
        self.recording = true;
        self.recording_macro_name = Some(macro_name.clone());
        Effect::StartRecording { device_path, name: macro_name }
    }

    /// Applies `message` at time `now` and returns the IPC work that follows.
    pub fn update(&mut self, message: Message, now: u64) -> (e: Effect)
        requires
            old(self).wf(),
        ensures
            final(self).wf(),
            update_spec(*old(self), *final(self), message, now, e),
    {
        match message {
            Message::SwitchTab(tab) => {
                self.active_tab = tab;
                Effect::Nothing
            },
            Message::SelectDevice(idx) => {
                self.selected_device = Some(idx);
                Effect::Nothing
            },
            Message::CheckDaemonConnection => Effect::CheckConnection,
            Message::DaemonStatusChanged(connected) => {
                self.daemon_connected = connected;
                if connected {
                    self.add_notification("Connected to daemon", false, now);
                } else {
                    self.add_notification("Daemon not running - start razermapperd", true, now);
                }
                Effect::Nothing
            },
            Message::LoadDevices => {
                self.loading = true;
                Effect::LoadDevices
            },
            Message::DevicesLoaded(Ok(devices)) => {
                let count = devices.len();
                self.devices = devices;
                self.loading = false;
                let msg = concat3("Found ", decimal_string(count as u64).as_str(), " devices");
                self.add_notification(msg.as_str(), false, now);
                Effect::LoadMacros
            },
            Message::DevicesLoaded(Err(e)) => {
                self.loading = false;
                let msg = concat2("Error: ", e.as_str());
                self.add_notification(msg.as_str(), true, now);
                Effect::Nothing
            },
            Message::LoadMacros => Effect::LoadMacros,
            Message::MacrosLoaded(Ok(macros)) => {
                let count = macros.len();
                self.macros = macros;
                let msg = concat3("Loaded ", decimal_string(count as u64).as_str(), " macros");
                self.add_notification(msg.as_str(), false, now);
                Effect::Nothing
            },
            Message::MacrosLoaded(Err(e)) => {
                let msg = concat2("Error loading macros: ", e.as_str());
                self.add_notification(msg.as_str(), true, now);
                Effect::Nothing
            },
            Message::PlayMacro(name) => Effect::PlayMacro(name),
            Message::MacroPlayed(Ok(name)) => {
                let msg = concat2("Played macro: ", name.as_str());
                self.add_notification(msg.as_str(), false, now);
                Effect::Nothing
            },
            Message::MacroPlayed(Err(e)) => {
                let msg = concat2("Failed to play: ", e.as_str());
                self.add_notification(msg.as_str(), true, now);
                Effect::Nothing
            },
            Message::UpdateMacroName(name) => {
                self.new_macro_name = name;
                Effect::Nothing
            },
            Message::UpdateProfileName(name) => {
                self.profile_name = name;
                Effect::Nothing
            },
            Message::StartRecording => self.begin_recording(now),
            Message::RecordMacro(name) => {
                self.new_macro_name = name;
                self.begin_recording(now)
            },
            Message::RecordingStarted(Ok(name)) => {
                let msg = concat3("Recording '", name.as_str(), "' - Press keys now!");
                self.add_notification(msg.as_str(), false, now);
                Effect::Nothing
            },
            Message::RecordingStarted(Err(e)) => {
                self.recording = false;
                self.recording_macro_name = None;
                let msg = concat2("Failed to start recording: ", e.as_str());
                self.add_notification(msg.as_str(), true, now);
                Effect::Nothing
            },
            Message::StopRecording => Effect::StopRecording,
            Message::RecordingStopped(Ok(macro_entry)) => {
                let name = macro_entry.name.clone();
                self.macros.push(macro_entry);
                self.recording = false;
                self.recording_macro_name = None;
                self.recently_updated_macros.insert(name.clone(), now);
                self.new_macro_name = String::new();
                let msg = concat2("Recorded macro: ", name.as_str());
                self.add_notification(msg.as_str(), false, now);
                Effect::Nothing
            },
            Message::RecordingStopped(Err(e)) => {
                self.recording = false;
                self.recording_macro_name = None;
                let msg = concat2("Recording failed: ", e.as_str());
                self.add_notification(msg.as_str(), true, now);
                Effect::Nothing
            },
            Message::DeleteMacro(name) => Effect::DeleteMacro(name),
            Message::MacroDeleted(Ok(name)) => {
                self.drop_macros_named(name.as_str());
                let msg = concat2("Deleted: ", name.as_str());
                self.add_notification(msg.as_str(), false, now);
                Effect::Nothing
            },
            Message::MacroDeleted(Err(e)) => {
                let msg = concat2("Delete failed: ", e.as_str());
                self.add_notification(msg.as_str(), true, now);
                Effect::Nothing
            },
            Message::SaveProfile => {
                let trimmed = trim(self.profile_name.as_str());
                if trimmed.unicode_len() == 0 {
                    self.add_notification("Enter a profile name", true, now);
                    return Effect::Nothing;
                }
                Effect::SaveProfile(self.profile_name.clone())
            },
            Message::ProfileSaved(Ok((name, count))) => {
                let msg = profile_count_message("Saved '", name.as_str(), count);
                self.add_notification(msg.as_str(), false, now);
                Effect::Nothing
            },
            Message::ProfileSaved(Err(e)) => {
                let msg = concat2("Save failed: ", e.as_str());
                self.add_notification(msg.as_str(), true, now);
                Effect::Nothing
            },
            Message::LoadProfile => {
                let trimmed = trim(self.profile_name.as_str());
                if trimmed.unicode_len() == 0 {
                    self.add_notification("Enter a profile name to load", true, now);
                    return Effect::Nothing;
                }
                Effect::LoadProfile(self.profile_name.clone())
            },
            Message::ProfileLoaded(Ok((name, count))) => {
                let msg = profile_count_message("Loaded '", name.as_str(), count);
                self.add_notification(msg.as_str(), false, now);
                Effect::LoadMacros
            },
            Message::ProfileLoaded(Err(e)) => {
                let msg = concat2("Load failed: ", e.as_str());
                self.add_notification(msg.as_str(), true, now);
                Effect::Nothing
            },
            Message::TickAnimations => {
                self.expire_recent(now);
                self.recording_pulse = !self.recording_pulse;
                self.expire_notifications(now);
                Effect::Nothing
            },
            Message::GrabDevice(path) => Effect::GrabDevice(path),
            Message::UngrabDevice(path) => Effect::UngrabDevice(path),
            Message::DeviceGrabbed(Ok(path)) => {
                self.grabbed_devices.insert(path.clone(), ());
                match self.device_position(path.as_str()) {
                    Some(idx) => {
                        self.selected_device = Some(idx);
                    },
                    None => {},
                }
                self.add_notification("Device grabbed - ready for recording", false, now);
                Effect::Nothing
            },
            Message::DeviceGrabbed(Err(e)) => {
                let msg = concat2("Grab failed: ", e.as_str());
                self.add_notification(msg.as_str(), true, now);
                Effect::Nothing
            },
            Message::DeviceUngrabbed(Ok(path)) => {
                let _ = self.grabbed_devices.remove(path.as_str());
                self.add_notification("Device released", false, now);
                Effect::Nothing
            },
            Message::DeviceUngrabbed(Err(e)) => {
                let msg = concat2("Release failed: ", e.as_str());
                self.add_notification(msg.as_str(), true, now);
                Effect::Nothing
            },
            Message::StatusUpdated(status) => {
                self.set_status(status);
                Effect::Nothing
            },
        }
    }
}

/// `<prefix><name>' (<count> macros)`.
fn profile_count_message(prefix: &str, name: &str, count: usize) -> (r: String)
    ensures
        r@ == prefix@ + name@ + "' ("@ + decimal(count as nat) + " macros)"@,
{
    let mut s = concat3(prefix, name, "' (");
    let d = decimal_string(count as u64);
    push_str(&mut s, d.as_str());
    push_str(&mut s, " macros)");
    s
}

/// Every field but the notification part, the name field, the recording
/// flags and the macros is unchanged.
pub open spec fn keeps_rest(pre: State, post: State) -> bool {
    &&& post.devices == pre.devices
    &&& post.selected_device == pre.selected_device
    &&& post.loading == pre.loading
    &&& post.daemon_connected == pre.daemon_connected
    &&& post.socket_path == pre.socket_path
    &&& post.grabbed_devices == pre.grabbed_devices
    &&& post.profile_name == pre.profile_name
    &&& post.active_tab == pre.active_tab
    &&& post.recording_pulse == pre.recording_pulse
}

/// The recording part and the macros are unchanged.
pub open spec fn keeps_recording(pre: State, post: State) -> bool {
    &&& post.macros == pre.macros
    &&& post.recording == pre.recording
    &&& post.recording_macro_name == pre.recording_macro_name
    &&& post.new_macro_name == pre.new_macro_name
    &&& post.recently_updated_macros == pre.recently_updated_macros
}

/// `post` is `pre` after showing `msg`, with nothing else changed.
pub open spec fn only_notified(pre: State, post: State, msg: Seq<char>, is_error: bool, now: u64) -> bool {
    notified(pre, post, msg, is_error, now) && keeps_rest(pre, post) && keeps_recording(pre, post)
}

/// `post` is `pre` with nothing changed.
pub open spec fn unchanged(pre: State, post: State) -> bool {
    quiet(pre, post) && keeps_rest(pre, post) && keeps_recording(pre, post)
}

/// What starting a recording does: without a name in the name field (after
/// trimming) or without a grabbed device it only says so; otherwise it marks
/// the recording and asks to record the named macro on the first grabbed device.
pub open spec fn recording_started(pre: State, post: State, now: u64, e: Effect) -> bool {
    if trim_spec(pre.new_macro_name@).len() == 0 {
        only_notified(pre, post, "Enter a macro name first"@, true, now) && e is Nothing
    } else if pre.grabbed_devices.view().dom().len() == 0 {
        only_notified(pre, post, "Grab a device first"@, true, now) && e is Nothing
    } else {
        &&& e matches Effect::StartRecording { device_path, name } && pre.grabbed_devices.view().contains_key(
            device_path@,
        ) && device_path@ == pre.grabbed_devices.keys()[0] && name@ == pre.new_macro_name@
        &&& post.recording
        &&& post.recording_macro_name matches Some(n) && n@ == pre.new_macro_name@
        &&& quiet(pre, post) && keeps_rest(pre, post)
        &&& post.macros == pre.macros && post.new_macro_name == pre.new_macro_name
            && post.recently_updated_macros == pre.recently_updated_macros
    }
}

/// What each message does to the state and which work it asks for.
pub open spec fn update_spec(pre: State, post: State, message: Message, now: u64, e: Effect) -> bool {
    match message {
        Message::SwitchTab(tab) => post.socket_path == pre.socket_path && e is Nothing && post.active_tab == tab && quiet(pre, post)
            && keeps_recording(pre, post) && post.devices == pre.devices && post.selected_device
            == pre.selected_device && post.loading == pre.loading && post.daemon_connected
            == pre.daemon_connected && post.grabbed_devices == pre.grabbed_devices && post.profile_name
            == pre.profile_name && post.recording_pulse == pre.recording_pulse,
        Message::SelectDevice(idx) => post.socket_path == pre.socket_path && e is Nothing && post.selected_device == Some(idx) && quiet(pre, post)
            && keeps_recording(pre, post) && post.devices == pre.devices && post.loading == pre.loading
            && post.daemon_connected == pre.daemon_connected && post.grabbed_devices == pre.grabbed_devices
            && post.profile_name == pre.profile_name && post.active_tab == pre.active_tab
            && post.recording_pulse == pre.recording_pulse,
        Message::CheckDaemonConnection => e is CheckConnection && unchanged(pre, post),
        Message::DaemonStatusChanged(c) => post.socket_path == pre.socket_path && e is Nothing && post.daemon_connected == c && notified(
            pre,
            post,
            if c { "Connected to daemon"@ } else { "Daemon not running - start razermapperd"@ },
            !c,
            now,
        ) && keeps_recording(pre, post) && post.devices == pre.devices && post.selected_device
            == pre.selected_device && post.loading == pre.loading && post.grabbed_devices
            == pre.grabbed_devices && post.profile_name == pre.profile_name && post.active_tab
            == pre.active_tab && post.recording_pulse == pre.recording_pulse,
        Message::LoadDevices => post.socket_path == pre.socket_path && e is LoadDevices && post.loading && quiet(pre, post) && keeps_recording(
            pre,
            post,
        ) && post.devices == pre.devices && post.selected_device == pre.selected_device
            && post.daemon_connected == pre.daemon_connected && post.grabbed_devices == pre.grabbed_devices
            && post.profile_name == pre.profile_name && post.active_tab == pre.active_tab
            && post.recording_pulse == pre.recording_pulse,
        Message::DevicesLoaded(Ok(d)) => post.socket_path == pre.socket_path && e is LoadMacros && post.devices == d && !post.loading && notified(
            pre,
            post,
            "Found "@ + decimal(d@.len()) + " devices"@,
            false,
            now,
        ) && keeps_recording(pre, post) && post.selected_device == pre.selected_device
            && post.daemon_connected == pre.daemon_connected && post.grabbed_devices == pre.grabbed_devices
            && post.profile_name == pre.profile_name && post.active_tab == pre.active_tab
            && post.recording_pulse == pre.recording_pulse,
        Message::DevicesLoaded(Err(err)) => post.socket_path == pre.socket_path && e is Nothing && !post.loading && notified(
            pre,
            post,
            "Error: "@ + err@,
            true,
            now,
        ) && keeps_recording(pre, post) && post.devices == pre.devices && post.selected_device
            == pre.selected_device && post.daemon_connected == pre.daemon_connected && post.grabbed_devices
            == pre.grabbed_devices && post.profile_name == pre.profile_name && post.active_tab
            == pre.active_tab && post.recording_pulse == pre.recording_pulse,
        Message::LoadMacros => e is LoadMacros && unchanged(pre, post),
        Message::MacrosLoaded(Ok(m)) => e is Nothing && post.macros == m && notified(
            pre,
            post,
            "Loaded "@ + decimal(m@.len()) + " macros"@,
            false,
            now,
        ) && keeps_rest(pre, post) && post.recording == pre.recording && post.recording_macro_name
            == pre.recording_macro_name && post.new_macro_name == pre.new_macro_name
            && post.recently_updated_macros == pre.recently_updated_macros,
        Message::MacrosLoaded(Err(err)) => e is Nothing && only_notified(
            pre,
            post,
            "Error loading macros: "@ + err@,
            true,
            now,
        ),
        Message::PlayMacro(name) => (e matches Effect::PlayMacro(n) && n == name) && unchanged(pre, post),
        Message::MacroPlayed(Ok(name)) => e is Nothing && only_notified(
            pre,
            post,
            "Played macro: "@ + name@,
            false,
            now,
        ),
        Message::MacroPlayed(Err(err)) => e is Nothing && only_notified(
            pre,
            post,
            "Failed to play: "@ + err@,
            true,
            now,
        ),
        Message::UpdateMacroName(name) => e is Nothing && post.new_macro_name == name && quiet(pre, post)
            && keeps_rest(pre, post) && post.macros == pre.macros && post.recording == pre.recording
            && post.recording_macro_name == pre.recording_macro_name && post.recently_updated_macros
            == pre.recently_updated_macros,
        Message::UpdateProfileName(name) => post.socket_path == pre.socket_path && e is Nothing && post.profile_name == name && quiet(pre, post)
            && keeps_recording(pre, post) && post.devices == pre.devices && post.selected_device
            == pre.selected_device && post.loading == pre.loading && post.daemon_connected
            == pre.daemon_connected && post.grabbed_devices == pre.grabbed_devices && post.active_tab
            == pre.active_tab && post.recording_pulse == pre.recording_pulse,
        Message::StartRecording => recording_started(pre, post, now, e),
        Message::RecordMacro(name) => recording_started(State { new_macro_name: name, ..pre }, post, now, e),
        Message::RecordingStarted(Ok(name)) => e is Nothing && only_notified(
            pre,
            post,
            "Recording '"@ + name@ + "' - Press keys now!"@,
            false,
            now,
        ),
        Message::RecordingStarted(Err(err)) => e is Nothing && !post.recording
            && post.recording_macro_name is None && notified(
            pre,
            post,
            "Failed to start recording: "@ + err@,
            true,
            now,
        ) && keeps_rest(pre, post) && post.macros == pre.macros && post.new_macro_name
            == pre.new_macro_name && post.recently_updated_macros == pre.recently_updated_macros,
        Message::StopRecording => e is StopRecording && unchanged(pre, post),
        Message::RecordingStopped(Ok(m)) => e is Nothing && post.macros@ == pre.macros@.push(m)
            && !post.recording && post.recording_macro_name is None
            && post.recently_updated_macros.view() == pre.recently_updated_macros.view().insert(m.name@, now)
            && post.new_macro_name@.len() == 0 && notified(
            pre,
            post,
            "Recorded macro: "@ + m.name@,
            false,
            now,
        ) && keeps_rest(pre, post),
        Message::RecordingStopped(Err(err)) => e is Nothing && !post.recording
            && post.recording_macro_name is None && notified(pre, post, "Recording failed: "@ + err@, true, now)
            && keeps_rest(pre, post) && post.macros == pre.macros && post.new_macro_name
            == pre.new_macro_name && post.recently_updated_macros == pre.recently_updated_macros,
        Message::DeleteMacro(name) => (e matches Effect::DeleteMacro(n) && n == name) && unchanged(pre, post),
        Message::MacroDeleted(Ok(name)) => e is Nothing && post.macros.deep_view() == without_named(
            pre.macros.deep_view(),
            name@,
        ) && notified(pre, post, "Deleted: "@ + name@, false, now) && keeps_rest(pre, post)
            && post.recording == pre.recording && post.recording_macro_name == pre.recording_macro_name
            && post.new_macro_name == pre.new_macro_name && post.recently_updated_macros
            == pre.recently_updated_macros,
        Message::MacroDeleted(Err(err)) => e is Nothing && only_notified(
            pre,
            post,
            "Delete failed: "@ + err@,
            true,
            now,
        ),
        Message::SaveProfile => if trim_spec(pre.profile_name@).len() == 0 {
            e is Nothing && only_notified(pre, post, "Enter a profile name"@, true, now)
        } else {
            (e matches Effect::SaveProfile(n) && n@ == pre.profile_name@) && unchanged(pre, post)
        },
        Message::ProfileSaved(Ok((name, count))) => e is Nothing && only_notified(
            pre,
            post,
            "Saved '"@ + name@ + "' ("@ + decimal(count as nat) + " macros)"@,
            false,
            now,
        ),
        Message::ProfileSaved(Err(err)) => e is Nothing && only_notified(
            pre,
            post,
            "Save failed: "@ + err@,
            true,
            now,
        ),
        Message::LoadProfile => if trim_spec(pre.profile_name@).len() == 0 {
            e is Nothing && only_notified(pre, post, "Enter a profile name to load"@, true, now)
        } else {
            (e matches Effect::LoadProfile(n) && n@ == pre.profile_name@) && unchanged(pre, post)
        },
        Message::ProfileLoaded(Ok((name, count))) => e is LoadMacros && only_notified(
            pre,
            post,
            "Loaded '"@ + name@ + "' ("@ + decimal(count as nat) + " macros)"@,
            false,
            now,
        ),
        Message::ProfileLoaded(Err(err)) => e is Nothing && only_notified(
            pre,
            post,
            "Load failed: "@ + err@,
            true,
            now,
        ),
        Message::TickAnimations => {
            &&& e is Nothing
            &&& forall|k: Seq<char>|
                #[trigger] post.recently_updated_macros.view().contains_key(k) <==> (
                pre.recently_updated_macros.view().contains_key(k) && elapsed(
                    now,
                    pre.recently_updated_macros.view()[k],
                ) < RECENT_MS)
            &&& forall|k: Seq<char>|
                #[trigger] post.recently_updated_macros.view().contains_key(k)
                    ==> post.recently_updated_macros.view()[k] == pre.recently_updated_macros.view()[k]
            &&& post.recording_pulse == !pre.recording_pulse
            &&& notes(post.notifications) == drop_expired(notes(pre.notifications), now)
            &&& post.status == pre.status && post.status_history == pre.status_history
            &&& post.macros == pre.macros && post.recording == pre.recording && post.recording_macro_name
                == pre.recording_macro_name && post.new_macro_name == pre.new_macro_name
            &&& post.devices == pre.devices && post.selected_device == pre.selected_device && post.loading
                == pre.loading && post.daemon_connected == pre.daemon_connected && post.socket_path
                == pre.socket_path && post.grabbed_devices == pre.grabbed_devices && post.profile_name
                == pre.profile_name && post.active_tab == pre.active_tab
        },
        Message::GrabDevice(path) => (e matches Effect::GrabDevice(p) && p == path) && unchanged(pre, post),
        Message::UngrabDevice(path) => (e matches Effect::UngrabDevice(p) && p == path) && unchanged(
            pre,
            post,
        ),
        Message::DeviceGrabbed(Ok(path)) => {
            &&& e is Nothing
            &&& post.grabbed_devices.view() == pre.grabbed_devices.view().insert(path@, ())
            &&& (exists|j: int| 0 <= j < pre.devices@.len() && pre.devices@[j].path@ == path@)
                ==> (post.selected_device matches Some(i) && i < pre.devices@.len()
                && pre.devices@[i as int].path@ == path@ && forall|j: int|
                0 <= j < i ==> pre.devices@[j].path@ != path@)
            &&& !(exists|j: int| 0 <= j < pre.devices@.len() && pre.devices@[j].path@ == path@)
                ==> post.selected_device == pre.selected_device
            &&& notified(pre, post, "Device grabbed - ready for recording"@, false, now)
            &&& keeps_recording(pre, post)
            &&& post.devices == pre.devices && post.loading == pre.loading && post.daemon_connected
                == pre.daemon_connected && post.socket_path == pre.socket_path && post.profile_name
                == pre.profile_name && post.active_tab == pre.active_tab && post.recording_pulse
                == pre.recording_pulse
        },
        Message::DeviceGrabbed(Err(err)) => e is Nothing && only_notified(
            pre,
            post,
            "Grab failed: "@ + err@,
            true,
            now,
        ),
        Message::DeviceUngrabbed(Ok(path)) => {
            &&& e is Nothing
            &&& post.grabbed_devices.view() == pre.grabbed_devices.view().remove(path@)
            &&& notified(pre, post, "Device released"@, false, now)
            &&& keeps_recording(pre, post)
            &&& post.devices == pre.devices && post.selected_device == pre.selected_device && post.loading
                == pre.loading && post.daemon_connected == pre.daemon_connected && post.socket_path
                == pre.socket_path && post.profile_name == pre.profile_name && post.active_tab
                == pre.active_tab && post.recording_pulse == pre.recording_pulse
        },
        Message::DeviceUngrabbed(Err(err)) => e is Nothing && only_notified(
            pre,
            post,
            "Release failed: "@ + err@,
            true,
            now,
        ),
        Message::StatusUpdated(status) => {
            &&& e is Nothing
            &&& post.status@ == status@
            &&& history(post.status_history) == capped(history(pre.status_history).push(status@), 10)
            &&& post.notifications == pre.notifications
            &&& keeps_rest(pre, post) && keeps_recording(pre, post)
        },
    }
}

/// Dropping expired notifications never adds any.
pub proof fn lemma_drop_expired_len(s: Seq<NotificationV>, now: u64)
    ensures
        drop_expired(s, now).len() <= s.len(),
    decreases s.len(),
{
    if s.len() > 0 && elapsed(now, s[0].timestamp) > NOTIFICATION_MS {
        lemma_drop_expired_len(s.drop_first(), now);
    }
}

/// The GUI shows at most five notifications and keeps at most ten status
/// lines: every message keeps both bounds.
pub proof fn lemma_update_keeps_bounds(pre: State, post: State, message: Message, now: u64, e: Effect)
    requires
        pre.notifications@.len() <= 5,
        pre.status_history@.len() <= 10,
        update_spec(pre, post, message, now, e),
    ensures
        post.notifications@.len() <= 5,
        post.status_history@.len() <= 10,
{
    assert(notes(pre.notifications).len() == pre.notifications@.len());
    assert(notes(post.notifications).len() == post.notifications@.len());
    assert(history(pre.status_history).len() == pre.status_history@.len());
    assert(history(post.status_history).len() == post.status_history@.len());
    lemma_drop_expired_len(notes(pre.notifications), now);
}

/// The lower-case form of a text as std's `str::to_lowercase` gives it (the
/// full Unicode mapping).
pub uninterp spec fn lowercase(s: Seq<char>) -> Seq<char>;

/// std's `str::to_lowercase`.
#[verifier::external_body]
fn to_lowercase(s: &str) -> (r: String)
    ensures
        r@ == lowercase(s@),
{
    s.to_lowercase()
}

/// What a device card shows a device as.
#[derive(Debug, Clone, Copy, PartialEq, Eq, Structural)]
pub enum DeviceKind {
    Mouse,
    Keyboard,
    Other,
}

/// The kind of a device whose lower-cased name is `lower`: a mouse when it
/// holds `mouse`, otherwise a keyboard when it holds `keyboard`.
pub fn kind_of_lowercase_name(lower: &str) -> (k: DeviceKind)
    ensures
        contains_seq(lower@, "mouse"@) ==> k == DeviceKind::Mouse,
        !contains_seq(lower@, "mouse"@) && contains_seq(lower@, "keyboard"@) ==> k == DeviceKind::Keyboard,
        !contains_seq(lower@, "mouse"@) && !contains_seq(lower@, "keyboard"@) ==> k == DeviceKind::Other,
{
    if contains_str(lower, "mouse") {
        DeviceKind::Mouse
    } else if contains_str(lower, "keyboard") {
        DeviceKind::Keyboard
    } else {
        DeviceKind::Other
    }
}

/// The kind of a device, by its name in lower case.
pub fn device_kind(name: &str) -> (k: DeviceKind)
    ensures
        contains_seq(lowercase(name@), "mouse"@) ==> k == DeviceKind::Mouse,
        !contains_seq(lowercase(name@), "mouse"@) && contains_seq(lowercase(name@), "keyboard"@) ==> k
            == DeviceKind::Keyboard,
        !contains_seq(lowercase(name@), "mouse"@) && !contains_seq(lowercase(name@), "keyboard"@) ==> k
            == DeviceKind::Other,
{
    let lower = to_lowercase(name);
    kind_of_lowercase_name(lower.as_str())
}

/// The id line of a device card: `VID:XXXX PID:XXXX | <path>`, the ids in
/// four upper-case hexadecimal digits.
pub open spec fn device_label_spec(d: DeviceInfoV) -> Seq<char> {
    "VID:"@ + hex4_upper(d.vendor_id as nat) + " PID:"@ + hex4_upper(d.product_id as nat) + " | "@ + d.path
}

/// The id line of a device card.
pub fn device_label(d: &DeviceInfo) -> (r: String)
    ensures
        r@ == device_label_spec(d@),
{
    let mut s = owned("VID:");
    push_hex4_upper(&mut s, d.vendor_id);
    push_str(&mut s, " PID:");
    push_hex4_upper(&mut s, d.product_id);
    push_str(&mut s, " | ");
    push_str(&mut s, d.path.as_str());
    s
}

} // verus!
