//! The messages that the GUI and the daemon exchange, and the values they carry.
//!
//! Each type has a mathematical model (its view): strings become character
//! sequences and vectors become sequences of models.
use vstd::prelude::*;
use crate::strmap::StrMap;
use crate::text::{owned, push_str, push_hex4_upper, hex4_upper};

verus! {

// ---------------------------------------------------------------------
// Models
// ---------------------------------------------------------------------

/// Model of [`DeviceInfo`].
pub struct DeviceInfoV {
    pub name: Seq<char>,
    pub path: Seq<char>,
    pub vendor_id: u16,
    pub product_id: u16,
    pub phys: Seq<char>,
}

/// Model of [`KeyCombo`].
pub struct KeyComboV {
    pub keys: Seq<u16>,
    pub modifiers: Seq<u16>,
}

/// Model of [`Action`].
pub enum ActionV {
    KeyPress(u16),
    KeyRelease(u16),
    Delay(u32),
    Execute(Seq<char>),
    Type(Seq<char>),
    MousePress(u16),
    MouseRelease(u16),
    MouseMove(i32, i32),
    MouseScroll(i32),
}

/// Model of [`MacroEntry`].
pub struct MacroEntryV {
    pub name: Seq<char>,
    pub trigger: KeyComboV,
    pub actions: Seq<ActionV>,
    pub device_id: Option<Seq<char>>,
    pub enabled: bool,
}

/// Model of [`Response`].
pub enum ResponseV {
    Devices(Seq<DeviceInfoV>),
    Macros(Seq<MacroEntryV>),
    Ack,
    Status { version: Seq<char>, uptime_seconds: u64, devices_count: usize, macros_count: usize },
    RecordingStarted { device_path: Seq<char>, name: Seq<char> },
    RecordingStopped { macro_entry: MacroEntryV },
    Profiles(Seq<Seq<char>>),
    ProfileLoaded { name: Seq<char>, macros_count: usize },
    ProfileSaved { name: Seq<char>, macros_count: usize },
    Error(Seq<char>),
    Token(Seq<char>),
    Authenticated,
}

// ---------------------------------------------------------------------
// Values
// ---------------------------------------------------------------------

/// Information about a connected input device.
#[derive(Debug)]
pub struct DeviceInfo {
    pub name: String,
    /// Device node path, such as `/dev/input/event3`.
    pub path: String,
    pub vendor_id: u16,
    pub product_id: u16,
    pub phys: String,
}

/// A key combination that triggers a macro.
#[derive(Debug, PartialEq, Eq, Hash)]
pub struct KeyCombo {
    /// Key codes.
    pub keys: Vec<u16>,
    /// Modifier key codes.
    pub modifiers: Vec<u16>,
}

/// One step of a macro.
#[derive(Debug)]
pub enum Action {
    /// Key press with a key code.
    KeyPress(u16),
    /// Key release.
    KeyRelease(u16),
    /// Delay in milliseconds.
    Delay(u32),
    /// Execute a command.
    Execute(String),
    /// Type a string.
    Type(String),
    /// Mouse button press.
    MousePress(u16),
    /// Mouse button release.
    MouseRelease(u16),
    /// Relative mouse movement.
    MouseMove(i32, i32),
    /// Mouse scroll.
    MouseScroll(i32),
}

/// A macro: its name, trigger, actions, optional device restriction and whether it is enabled.
#[derive(Debug)]
pub struct MacroEntry {
    pub name: String,
    pub trigger: KeyCombo,
    pub actions: Vec<Action>,
    /// Optional device restriction.
    pub device_id: Option<String>,
    pub enabled: bool,
}

/// Requests from the GUI to the daemon.
#[derive(Debug)]
pub enum Request {
    GetDevices,
    SetMacro { device_path: String, macro_entry: MacroEntry },
    ListMacros,
    DeleteMacro { name: String },
    ReloadConfig,
    LedSet { device_path: String, color: (u8, u8, u8) },
    RecordMacro { device_path: String, name: String },
    StopRecording,
    TestMacro { name: String },
    GetStatus,
    SaveProfile { name: String },
    LoadProfile { name: String },
    ListProfiles,
    DeleteProfile { name: String },
    GenerateToken { client_id: String },
    Authenticate { token: String },
    ExecuteMacro { name: String },
    GrabDevice { device_path: String },
    UngrabDevice { device_path: String },
}

/// Status information.
#[derive(Debug)]
pub struct StatusInfo {
    pub version: String,
    pub uptime_seconds: u64,
    pub devices_count: usize,
    pub macros_count: usize,
}

/// Responses from the daemon to the GUI.
#[derive(Debug)]
pub enum Response {
    Devices(Vec<DeviceInfo>),
    Macros(Vec<MacroEntry>),
    Ack,
    Status { version: String, uptime_seconds: u64, devices_count: usize, macros_count: usize },
    RecordingStarted { device_path: String, name: String },
    RecordingStopped { macro_entry: MacroEntry },
    Profiles(Vec<String>),
    ProfileLoaded { name: String, macros_count: usize },
    ProfileSaved { name: String, macros_count: usize },
    Error(String),
    Token(String),
    Authenticated,
}

/// A named set of macros, keyed by name.
pub struct Profile {
    pub name: String,
    pub macros: StrMap<MacroEntry>,
}

// ---------------------------------------------------------------------
// Views
// ---------------------------------------------------------------------

impl View for DeviceInfo {
    type V = DeviceInfoV;

    open spec fn view(&self) -> DeviceInfoV {
        DeviceInfoV {
            name: self.name@,
            path: self.path@,
            vendor_id: self.vendor_id,
            product_id: self.product_id,
            phys: self.phys@,
        }
    }
}

impl DeepView for DeviceInfo {
    type V = DeviceInfoV;

    open spec fn deep_view(&self) -> DeviceInfoV {
        self@
    }
}

impl View for KeyCombo {
    type V = KeyComboV;

    open spec fn view(&self) -> KeyComboV {
        KeyComboV { keys: self.keys@, modifiers: self.modifiers@ }
    }
}

impl View for Action {
    type V = ActionV;

    open spec fn view(&self) -> ActionV {
        match self {
            Action::KeyPress(c) => ActionV::KeyPress(*c),
            Action::KeyRelease(c) => ActionV::KeyRelease(*c),
            Action::Delay(ms) => ActionV::Delay(*ms),
            Action::Execute(s) => ActionV::Execute(s@),
            Action::Type(s) => ActionV::Type(s@),
            Action::MousePress(b) => ActionV::MousePress(*b),
            Action::MouseRelease(b) => ActionV::MouseRelease(*b),
            Action::MouseMove(x, y) => ActionV::MouseMove(*x, *y),
            Action::MouseScroll(a) => ActionV::MouseScroll(*a),
        }
    }
}

impl DeepView for Action {
    type V = ActionV;

    open spec fn deep_view(&self) -> ActionV {
        self@
    }
}

/// The model of an optional string.
pub open spec fn opt_str_view(o: Option<String>) -> Option<Seq<char>> {
    match o {
        Some(s) => Some(s@),
        None => None,
    }
}

impl View for MacroEntry {
    type V = MacroEntryV;

    open spec fn view(&self) -> MacroEntryV {
        MacroEntryV {
            name: self.name@,
            trigger: self.trigger@,
            actions: self.actions.deep_view(),
            device_id: opt_str_view(self.device_id),
            enabled: self.enabled,
        }
    }
}

impl DeepView for MacroEntry {
    type V = MacroEntryV;

    open spec fn deep_view(&self) -> MacroEntryV {
        self@
    }
}

impl View for Response {
    type V = ResponseV;

    open spec fn view(&self) -> ResponseV {
        match self {
            Response::Devices(d) => ResponseV::Devices(d.deep_view()),
            Response::Macros(m) => ResponseV::Macros(m.deep_view()),
            Response::Ack => ResponseV::Ack,
            Response::Status { version, uptime_seconds, devices_count, macros_count } => ResponseV::Status {
                version: version@,
                uptime_seconds: *uptime_seconds,
                devices_count: *devices_count,
                macros_count: *macros_count,
            },
            Response::RecordingStarted { device_path, name } => ResponseV::RecordingStarted {
                device_path: device_path@,
                name: name@,
            },
            Response::RecordingStopped { macro_entry } => ResponseV::RecordingStopped {
                macro_entry: macro_entry@,
            },
            Response::Profiles(p) => ResponseV::Profiles(p.deep_view()),
            Response::ProfileLoaded { name, macros_count } => ResponseV::ProfileLoaded {
                name: name@,
                macros_count: *macros_count,
            },
            Response::ProfileSaved { name, macros_count } => ResponseV::ProfileSaved {
                name: name@,
                macros_count: *macros_count,
            },
            Response::Error(e) => ResponseV::Error(e@),
            Response::Token(t) => ResponseV::Token(t@),
            Response::Authenticated => ResponseV::Authenticated,
        }
    }
}

/// The models of a map's macros, by key.
pub open spec fn macro_map_view(m: StrMap<MacroEntry>) -> Map<Seq<char>, MacroEntryV> {
    m.view().map_values(|e: MacroEntry| e@)
}

/// The models of a map's macros, in the map's order.
pub open spec fn macro_list_view(m: StrMap<MacroEntry>) -> Seq<MacroEntryV> {
    m.vals().map_values(|e: MacroEntry| e@)
}

// ---------------------------------------------------------------------
// Copies
// ---------------------------------------------------------------------

/// A copy of a vector of key codes.
pub fn copy_codes(v: &Vec<u16>) -> (r: Vec<u16>)
    ensures
        r@ == v@,
{
    let mut out: Vec<u16> = Vec::new();
    let mut i: usize = 0;
    while i < v.len()
        invariant
            i <= v@.len(),
            out@ == v@.subrange(0, i as int),
        decreases v@.len() - i,
    {
        out.push(v[i]);
        i = i + 1;
        assert(out@ =~= v@.subrange(0, i as int));
    }
    assert(v@.subrange(0, v@.len() as int) =~= v@);
    out
}

impl Clone for DeviceInfo {
    fn clone(&self) -> (r: Self)
        ensures
            r@ == self@,
    {
        DeviceInfo {
            name: self.name.clone(),
            path: self.path.clone(),
            vendor_id: self.vendor_id,
            product_id: self.product_id,
            phys: self.phys.clone(),
        }
    }
}

impl Clone for KeyCombo {
    fn clone(&self) -> (r: Self)
        ensures
            r@ == self@,
    {
        KeyCombo { keys: copy_codes(&self.keys), modifiers: copy_codes(&self.modifiers) }
    }
}

impl Clone for Action {
    fn clone(&self) -> (r: Self)
        ensures
            r@ == self@,
    {
        match self {
            Action::KeyPress(c) => Action::KeyPress(*c),
            Action::KeyRelease(c) => Action::KeyRelease(*c),
            Action::Delay(ms) => Action::Delay(*ms),
            Action::Execute(s) => Action::Execute(s.clone()),
            Action::Type(s) => Action::Type(s.clone()),
            Action::MousePress(b) => Action::MousePress(*b),
            Action::MouseRelease(b) => Action::MouseRelease(*b),
            Action::MouseMove(x, y) => Action::MouseMove(*x, *y),
            Action::MouseScroll(a) => Action::MouseScroll(*a),
        }
    }
}

/// A copy of a list of actions.
pub fn copy_actions(v: &Vec<Action>) -> (r: Vec<Action>)
    ensures
        r.deep_view() == v.deep_view(),
{
    let mut out: Vec<Action> = Vec::new();
    let mut i: usize = 0;
    while i < v.len()
        invariant
            i <= v@.len(),
            out@.len() == i,
            forall|j: int| 0 <= j < i ==> #[trigger] out@[j]@ == v@[j]@,
        decreases v@.len() - i,
    {
        out.push(v[i].clone());
        i = i + 1;
    }
    assert(out.deep_view() =~= v.deep_view());
    out
}

/// A copy of an optional string.
pub fn copy_opt_string(o: &Option<String>) -> (r: Option<String>)
    ensures
        opt_str_view(r) == opt_str_view(*o),
{
    match o {
        Some(s) => Some(s.clone()),
        None => None,
    }
}

impl Clone for MacroEntry {
    fn clone(&self) -> (r: Self)
        ensures
            r@ == self@,
    {
        MacroEntry {
            name: self.name.clone(),
            trigger: self.trigger.clone(),
            actions: copy_actions(&self.actions),
            device_id: copy_opt_string(&self.device_id),
            enabled: self.enabled,
        }
    }
}

/// Whether `copy` holds what `orig` holds: the same name, and the same macros
/// under the same keys in the same order.
pub open spec fn profile_copy_of(copy: Profile, orig: Profile) -> bool {
    &&& copy.name@ == orig.name@
    &&& copy.macros.keys() == orig.macros.keys()
    &&& macro_list_view(copy.macros) == macro_list_view(orig.macros)
    &&& orig.macros.wf() ==> copy.macros.wf()
}

impl Clone for Profile {
    fn clone(&self) -> (r: Self)
        ensures
            profile_copy_of(r, *self),
    {
        let macros = self.macros.duplicate();
        proof {
            assert forall|j: int| 0 <= j < macros.vals().len() implies #[trigger] macros.vals()[j]@
                == self.macros.vals()[j]@ by {
                assert(cloned::<MacroEntry>(self.macros.vals()[j], macros.vals()[j]));
            }
            assert(macro_list_view(macros) =~= macro_list_view(self.macros));
        }
        Profile { name: self.name.clone(), macros }
    }
}

/// A copy of a list of devices.
pub fn copy_devices(v: &Vec<DeviceInfo>) -> (r: Vec<DeviceInfo>)
    ensures
        r.deep_view() == v.deep_view(),
{
    let mut out: Vec<DeviceInfo> = Vec::new();
    let mut i: usize = 0;
    while i < v.len()
        invariant
            i <= v@.len(),
            out@.len() == i,
            forall|j: int| 0 <= j < i ==> #[trigger] out@[j]@ == v@[j]@,
        decreases v@.len() - i,
    {
        out.push(v[i].clone());
        i = i + 1;
    }
    assert(out.deep_view() =~= v.deep_view());
    out
}

/// A copy of a list of macros.
pub fn copy_macros(v: &Vec<MacroEntry>) -> (r: Vec<MacroEntry>)
    ensures
        r.deep_view() == v.deep_view(),
{
    let mut out: Vec<MacroEntry> = Vec::new();
    let mut i: usize = 0;
    while i < v.len()
        invariant
            i <= v@.len(),
            out@.len() == i,
            forall|j: int| 0 <= j < i ==> #[trigger] out@[j]@ == v@[j]@,
        decreases v@.len() - i,
    {
        out.push(v[i].clone());
        i = i + 1;
    }
    assert(out.deep_view() =~= v.deep_view());
    out
}

/// Copies of the macros of a map, in the map's order.
pub fn macro_list(m: &StrMap<MacroEntry>) -> (r: Vec<MacroEntry>)
    ensures
        r.deep_view() == macro_list_view(*m),
{
    let n = m.key_list().len();
    proof {
        m.lemma_lens();
    }
    let mut out: Vec<MacroEntry> = Vec::new();
    let mut i: usize = 0;
    while i < n
        invariant
            n == m.keys().len(),
            m.vals().len() == m.keys().len(),
            i <= n,
            out@.len() == i,
            forall|j: int| 0 <= j < i ==> #[trigger] out@[j]@ == m.vals()[j]@,
        decreases n - i,
    {
        out.push(m.value_at(i).clone());
        i = i + 1;
    }
    assert(out.deep_view() =~= macro_list_view(*m));
    out
}

impl DeviceInfo {
    /// The display text of a device: `name (VID: XXXX, PID: XXXX)`, the ids in
    /// four upper-case hexadecimal digits.
    pub open spec fn display_spec(&self) -> Seq<char> {
        self.name@ + " (VID: "@ + hex4_upper(self.vendor_id as nat) + ", PID: "@ + hex4_upper(
            self.product_id as nat,
        ) + ")"@
    }

    /// Renders the device for display.
    pub fn display(&self) -> (r: String)
        ensures
            r@ == self.display_spec(),
    {
        let mut s = owned(self.name.as_str());
        push_str(&mut s, " (VID: ");
        push_hex4_upper(&mut s, self.vendor_id);
        push_str(&mut s, ", PID: ");
        push_hex4_upper(&mut s, self.product_id);
        push_str(&mut s, ")");
        s
    }
}

} // verus!
