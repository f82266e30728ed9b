//! The macro engine: the macros and the key combinations that trigger them,
//! the recording of new macros from input events, and the bookkeeping of
//! macros that are executing.
//!
//! Executing a macro means handing its actions to an injector; the engine
//! decides which macros start and returns their actions, and the caller
//! performs them.
use vstd::prelude::*;
use crate::protocol::{Action, ActionV, KeyCombo, KeyComboV, MacroEntry, MacroEntryV, opt_str_view, copy_actions, macro_list, macro_list_view, macro_map_view};
use crate::strmap::StrMap;
use crate::text::{owned, str_eq, concat3};

verus! {

/// Errors of the macro engine.
#[derive(Debug)]
pub enum EngineError {
    /// A macro with this name is already stored.
    AlreadyExists(String),
    /// A recording is already in progress.
    AlreadyRecording,
    /// No injector is attached, so no macro can execute.
    NoInjector,
}

impl EngineError {
    /// The message of the error.
    pub open spec fn message_spec(&self) -> Seq<char> {
        match self {
            EngineError::AlreadyExists(n) => "Macro '"@ + n@ + "' already exists"@,
            EngineError::AlreadyRecording => "Already recording a macro"@,
            EngineError::NoInjector => "No injector available"@,
        }
    }

    /// The message of the error.
    pub fn message(&self) -> (r: String)
        ensures
            r@ == self.message_spec(),
    {
        match self {
            EngineError::AlreadyExists(n) => concat3("Macro '", n.as_str(), "' already exists"),
            EngineError::AlreadyRecording => owned("Already recording a macro"),
            EngineError::NoInjector => owned("No injector available"),
        }
    }
}

/// A macro that started executing: its name and the actions to perform.
#[derive(Debug)]
pub struct MacroStart {
    pub name: String,
    pub actions: Vec<Action>,
}

/// Manages macros, records new ones and decides which ones execute.
pub struct MacroEngine {
    macros: StrMap<MacroEntry>,
    active_combos: Vec<KeyCombo>,
    recording: Option<MacroEntry>,
    executing: Vec<String>,
    max_concurrent_macros: usize,
    default_delay: u32,
    injector_attached: bool,
}

/// The triggers of the enabled macros of `s`, in order.
pub open spec fn enabled_triggers(s: Seq<MacroEntry>) -> Seq<KeyComboV>
    decreases s.len(),
{
    if s.len() == 0 {
        Seq::empty()
    } else if s.last().enabled {
        enabled_triggers(s.drop_last()).push(s.last().trigger@)
    } else {
        enabled_triggers(s.drop_last())
    }
}

/// Whether a key press of `key` on device `dev` triggers macro `m`: it is
/// enabled, it is not restricted to another device, and its trigger holds the key.
pub open spec fn triggers(m: MacroEntry, key: u16, dev: Seq<char>) -> bool {
    &&& m.enabled
    &&& (m.device_id matches Some(d) ==> d@ == dev)
    &&& m.trigger.keys@.contains(key)
}

/// Whether some macro of `s` is triggered by `key` on `dev`.
pub open spec fn any_triggered(s: Seq<MacroEntry>, key: u16, dev: Seq<char>) -> bool {
    exists|j: int| 0 <= j < s.len() && triggers(#[trigger] s[j], key, dev)
}

/// The macros of `s` that `key` on `dev` triggers and that are not in `running`, in order.
pub open spec fn starts(s: Seq<MacroEntry>, key: u16, dev: Seq<char>, running: Seq<Seq<char>>) -> Seq<
    MacroEntry,
>
    decreases s.len(),
{
    if s.len() == 0 {
        Seq::empty()
    } else if triggers(s.last(), key, dev) && !running.contains(s.last().name@) {
        starts(s.drop_last(), key, dev, running).push(s.last())
    } else {
        starts(s.drop_last(), key, dev, running)
    }
}

/// The names of a sequence of macros.
pub open spec fn names_of(s: Seq<MacroEntry>) -> Seq<Seq<char>> {
    s.map_values(|m: MacroEntry| m.name@)
}

/// Whether the started macros `r` are the macros `s`: same names and actions, in order.
pub open spec fn started_as(r: Seq<MacroStart>, s: Seq<MacroEntry>) -> bool {
    &&& r.len() == s.len()
    &&& forall|k: int|
        0 <= k < r.len() ==> #[trigger] r[k].name@ == s[k].name@ && r[k].actions.deep_view()
            == s[k].actions.deep_view()
}

/// The macro that a recording starts from: the given name, an empty trigger,
/// no actions, restricted to the recording device, enabled.
pub open spec fn fresh_recording(name: Seq<char>, device_path: Seq<char>) -> MacroEntryV {
    MacroEntryV {
        name,
        trigger: KeyComboV { keys: Seq::empty(), modifiers: Seq::empty() },
        actions: Seq::empty(),
        device_id: Some(device_path),
        enabled: true,
    }
}

/// The action that records a key event.
pub open spec fn key_event_action(key_code: u16, is_pressed: bool) -> ActionV {
    if is_pressed {
        ActionV::KeyPress(key_code)
    } else {
        ActionV::KeyRelease(key_code)
    }
}

/// What one key event does to the recording: while a recording takes events
/// from `dev`, the event is appended to its actions and nothing else changes.
pub open spec fn recording_step(
    pre: Option<MacroEntry>,
    post: Option<MacroEntry>,
    key_code: u16,
    is_pressed: bool,
    dev: Seq<char>,
) -> bool {
    (pre matches Some(m) && records_from(m.device_id, dev)) ==> (post matches Some(m2) && m2@ == (MacroEntryV {
        actions: pre.unwrap()@.actions.push(key_event_action(key_code, is_pressed)),
        ..pre.unwrap()@
    }))
}

/// The actions that a sequence of key events (code, pressed) records, in order.
pub open spec fn recorded_actions(events: Seq<(u16, bool)>) -> Seq<ActionV> {
    events.map_values(|ev: (u16, bool)| key_event_action(ev.0, ev.1))
}

/// Whether a recording restricted to `device_id` takes events from `dev`.
pub open spec fn records_from(device_id: Option<String>, dev: Seq<char>) -> bool {
    match device_id {
        Some(d) => d@ == dev,
        None => true,
    }
}

impl MacroEngine {
    /// The stored macros, keyed by name.
    pub closed spec fn store(&self) -> StrMap<MacroEntry> {
        self.macros
    }

    /// The triggers that are watched.
    pub closed spec fn active_combos_spec(&self) -> Seq<KeyComboV> {
        self.active_combos@.map_values(|k: KeyCombo| k@)
    }

    /// The macro being recorded, if any.
    pub closed spec fn recording_spec(&self) -> Option<MacroEntry> {
        self.recording
    }

    /// The names of the macros that are executing, in the order they started.
    pub closed spec fn executing_spec(&self) -> Seq<Seq<char>> {
        self.executing@.map_values(|s: String| s@)
    }

    /// The most macros that may execute at once before new triggers are ignored.
    pub closed spec fn max_concurrent_spec(&self) -> usize {
        self.max_concurrent_macros
    }

    /// The default delay between actions in milliseconds.
    pub closed spec fn default_delay_spec(&self) -> u32 {
        self.default_delay
    }

    /// Whether an injector is attached.
    pub closed spec fn injector_spec(&self) -> bool {
        self.injector_attached
    }

    /// The engine's invariant: keys are distinct and each macro is stored under
    /// its own name; no name executes twice; the watched triggers are those
    /// of the enabled macros.
    pub open spec fn wf(&self) -> bool {
        &&& self.store().wf()
        &&& forall|j: int|
            0 <= j < self.store().keys().len() ==> #[trigger] self.store().vals()[j].name@
                == self.store().keys()[j]
        &&& self.executing_spec().no_duplicates()
        &&& self.active_combos_spec() == enabled_triggers(self.store().vals())
    }

    /// An engine with the default limits (ten concurrent macros, a ten millisecond delay).
    pub fn new() -> (e: Self)
        ensures
            e.wf(),
            e.store().view() == Map::<Seq<char>, MacroEntry>::empty(),
            e.recording_spec() is None,
            e.executing_spec() == Seq::<Seq<char>>::empty(),
            e.max_concurrent_spec() == 10,
            e.default_delay_spec() == 10,
            !e.injector_spec(),
    {
        Self::with_config(10, 10)
    }

    /// An engine with the given limits and no injector.
    pub fn with_config(max_concurrent_macros: usize, default_delay: u32) -> (e: Self)
        ensures
            e.wf(),
            e.store().view() == Map::<Seq<char>, MacroEntry>::empty(),
            e.store().keys() == Seq::<Seq<char>>::empty(),
            e.recording_spec() is None,
            e.executing_spec() == Seq::<Seq<char>>::empty(),
            e.max_concurrent_spec() == max_concurrent_macros,
            e.default_delay_spec() == default_delay,
            !e.injector_spec(),
    {
        let e = MacroEngine {
            macros: StrMap::new(),
            active_combos: Vec::new(),
            recording: None,
            executing: Vec::new(),
            max_concurrent_macros,
            default_delay,
            injector_attached: false,
        };
        proof {
            e.macros.lemma_lens();
        }
        assert(e.executing_spec() =~= Seq::<Seq<char>>::empty());
        assert(e.active_combos_spec() =~= Seq::<KeyComboV>::empty());
        assert(e.store().vals() =~= Seq::<MacroEntry>::empty());
        e
    }

    /// An engine with the default limits and an injector attached.
    pub fn with_injector() -> (e: Self)
        ensures
            e.wf(),
            e.store().view() == Map::<Seq<char>, MacroEntry>::empty(),
            e.store().keys() == Seq::<Seq<char>>::empty(),
            e.recording_spec() is None,
            e.executing_spec() == Seq::<Seq<char>>::empty(),
            e.max_concurrent_spec() == 10,
            e.default_delay_spec() == 10,
            e.injector_spec(),
    {
        let mut e = Self::with_config(10, 10);
        e.injector_attached = true;
        e
    }

    /// Attaches an injector.
    pub fn set_injector(&mut self)
        ensures
            final(self).injector_spec(),
            final(self).store() == old(self).store(),
            final(self).active_combos_spec() == old(self).active_combos_spec(),
            final(self).recording_spec() == old(self).recording_spec(),
            final(self).executing_spec() == old(self).executing_spec(),
            final(self).max_concurrent_spec() == old(self).max_concurrent_spec(),
            final(self).default_delay_spec() == old(self).default_delay_spec(),
    {
        self.injector_attached = true;
    }

    /// Recomputes the watched triggers from the enabled macros.
    fn update_active_combos(&mut self)
        requires
            old(self).store().wf(),
        ensures
            final(self).active_combos_spec() == enabled_triggers(final(self).store().vals()),
            final(self).store() == old(self).store(),
            final(self).recording_spec() == old(self).recording_spec(),
            final(self).executing_spec() == old(self).executing_spec(),
            final(self).max_concurrent_spec() == old(self).max_concurrent_spec(),
            final(self).default_delay_spec() == old(self).default_delay_spec(),
            final(self).injector_spec() == old(self).injector_spec(),
    {
        let n = self.macros.len();
        proof {
            self.macros.lemma_lens();
        }
        let mut combos: Vec<KeyCombo> = Vec::new();
        let mut i: usize = 0;
        while i < n
            invariant
                n == self.macros.keys().len(),
                self.macros.vals().len() == n,
                i <= n,
                combos@.map_values(|k: KeyCombo| k@) == enabled_triggers(
                    self.macros.vals().subrange(0, i as int),
                ),
            decreases n - i,
        {
            let m = self.macros.value_at(i);
            let ghost pre = self.macros.vals().subrange(0, i as int);
            assert(self.macros.vals().subrange(0, i + 1).drop_last() =~= pre);
            if m.enabled {
                combos.push(m.trigger.clone());
            }
            i = i + 1;
            assert(combos@.map_values(|k: KeyCombo| k@) =~= enabled_triggers(
                self.macros.vals().subrange(0, i as int),
            ));
        }
        assert(self.macros.vals().subrange(0, n as int) =~= self.macros.vals());
        self.active_combos = combos;
    }

    /// Adds a macro under its name; refused when a macro of that name is stored.
    pub fn add_macro(&mut self, macro_entry: MacroEntry) -> (r: Result<(), EngineError>)
        requires
            old(self).wf(),
        ensures
            final(self).wf(),
            old(self).store().view().contains_key(macro_entry.name@) ==> (r matches Err(
                EngineError::AlreadyExists(n),
            ) && n@ == macro_entry.name@ && final(self).store() == old(self).store()),
            !old(self).store().view().contains_key(macro_entry.name@) ==> (r is Ok
                && final(self).store().view() == old(self).store().view().insert(
                macro_entry.name@,
                macro_entry,
            ) && final(self).store().keys() == old(self).store().keys().push(macro_entry.name@)),
            final(self).recording_spec() == old(self).recording_spec(),
            final(self).executing_spec() == old(self).executing_spec(),
            final(self).max_concurrent_spec() == old(self).max_concurrent_spec(),
            final(self).injector_spec() == old(self).injector_spec(),
    {
        if self.macros.contains_key(macro_entry.name.as_str()) {
            return Err(EngineError::AlreadyExists(macro_entry.name.clone()));
        }
        let ghost old_store = self.macros;
        let key = macro_entry.name.clone();
        let ghost entry = macro_entry;
        self.macros.insert(key, macro_entry);
        proof {
            self.macros.lemma_lens();
            old_store.lemma_lens();
            assert(self.macros.vals() == old_store.vals().push(entry));
            assert forall|j: int| 0 <= j < self.macros.keys().len() implies #[trigger] self.macros.vals()[j].name@
                == self.macros.keys()[j] by {
                if j < old_store.keys().len() {
                    assert(self.macros.vals()[j] == old_store.vals()[j]);
                    assert(self.macros.keys()[j] == old_store.keys()[j]);
                }
            }
        }
        self.update_active_combos();
        Ok(())
    }

    /// Adds the macros of a profile one after another, in the profile's order;
    /// each one whose name is stored by then is refused. Returns the refusals,
    /// in order.
    pub fn add_profile_macros(&mut self, macros: &StrMap<MacroEntry>) -> (refused: Vec<EngineError>)
        requires
            old(self).wf(),
            macros.wf(),
        ensures
            final(self).wf(),
            macro_map_view(final(self).store()) == with_added(
                macro_map_view(old(self).store()),
                macro_list_view(*macros),
            ),
            refused@.len() == refused_names(macro_map_view(old(self).store()), macro_list_view(*macros)).len(),
            forall|k: int|
                0 <= k < refused@.len() ==> (#[trigger] refused@[k] matches EngineError::AlreadyExists(n) && n@
                    == refused_names(macro_map_view(old(self).store()), macro_list_view(*macros))[k]),
            final(self).recording_spec() == old(self).recording_spec(),
            final(self).executing_spec() == old(self).executing_spec(),
            final(self).max_concurrent_spec() == old(self).max_concurrent_spec(),
            final(self).injector_spec() == old(self).injector_spec(),
    {
        let n = macros.len();
        proof {
            macros.lemma_lens();
        }
        let ghost start = macro_map_view(self.store());
        let ghost lv = macro_list_view(*macros);
        let mut out: Vec<EngineError> = Vec::new();
        let mut i: usize = 0;
        while i < n
            invariant
                self.wf(),
                n == macros.spec_len(),
                n == lv.len(),
                lv == macro_list_view(*macros),
                start == macro_map_view(old(self).store()),
                i <= n,
                macro_map_view(self.store()) == with_added(start, lv.subrange(0, i as int)),
                out@.len() == refused_names(start, lv.subrange(0, i as int)).len(),
                forall|k: int|
                    0 <= k < out@.len() ==> (#[trigger] out@[k] matches EngineError::AlreadyExists(m) && m@
                        == refused_names(start, lv.subrange(0, i as int))[k]),
                self.recording_spec() == old(self).recording_spec(),
                self.executing_spec() == old(self).executing_spec(),
                self.max_concurrent_spec() == old(self).max_concurrent_spec(),
                self.injector_spec() == old(self).injector_spec(),
            decreases n - i,
        {
            let entry = macros.value_at(i).clone();
            let ghost ev = entry@;
            let ghost before = macro_map_view(self.store());
            proof {
                assert(lv.subrange(0, i + 1).drop_last() =~= lv.subrange(0, i as int));
                assert(lv.subrange(0, i + 1).last() == ev);
            }
            match self.add_macro(entry) {
                Ok(()) => {
                    assert(macro_map_view(self.store()) =~= before.insert(ev.name, ev));
                },
                Err(e) => {
                    out.push(e);
                },
            }
            i = i + 1;
        }
        assert(lv.subrange(0, n as int) =~= lv);
        out
    }

    /// Removes the macro named `name`; returns whether one was stored.
    pub fn remove_macro(&mut self, name: &str) -> (r: Result<bool, EngineError>)
        requires
            old(self).wf(),
        ensures
            final(self).wf(),
            r == Ok::<bool, EngineError>(old(self).store().view().contains_key(name@)),
            final(self).store().view() == old(self).store().view().remove(name@),
            final(self).recording_spec() == old(self).recording_spec(),
            final(self).executing_spec() == old(self).executing_spec(),
            final(self).max_concurrent_spec() == old(self).max_concurrent_spec(),
            final(self).injector_spec() == old(self).injector_spec(),
    {
        let ghost old_store = self.macros;
        match self.macros.remove(name) {
            None => Ok(false),
            Some(_) => {
                proof {
                    old_store.lemma_lens();
                    self.macros.lemma_lens();
                    let i = choose|i: int|
                        0 <= i < old_store.keys().len() && old_store.keys()[i] == name@
                            && self.macros.keys() == old_store.keys().remove(i)
                            && self.macros.vals() == old_store.vals().remove(i);
                    assert forall|j: int| 0 <= j < self.macros.keys().len() implies #[trigger] self.macros.vals()[j].name@
                        == self.macros.keys()[j] by {
                        if j < i {
                            assert(old_store.vals()[j].name@ == old_store.keys()[j]);
                        } else {
                            assert(old_store.vals()[j + 1].name@ == old_store.keys()[j + 1]);
                        }
                    }
                }
                self.update_active_combos();
                Ok(true)
            },
        }
    }

    /// A copy of the macro named `name`.
    pub fn get_macro(&self, name: &str) -> (r: Option<MacroEntry>)
        requires
            self.wf(),
        ensures
            r matches Some(m) ==> self.store().view().contains_key(name@) && m@ == self.store().view()[name@]@,
            r is None <==> !self.store().view().contains_key(name@),
    {
        match self.macros.get(name) {
            Some(m) => Some(m.clone()),
            None => None,
        }
    }

    /// Copies of all macros, in the order they were added.
    pub fn list_macros(&self) -> (r: Vec<MacroEntry>)
        ensures
            r.deep_view() == macro_list_view(self.store()),
    {
        macro_list(&self.macros)
    }

    /// Starts recording a macro named `name` from `device_path`; refused while a
    /// recording is in progress.
    pub fn start_recording(&mut self, name: String, device_path: String) -> (r: Result<(), EngineError>)
        requires
            old(self).wf(),
        ensures
            final(self).wf(),
            old(self).recording_spec() is Some ==> (r matches Err(EngineError::AlreadyRecording)
                && final(self).recording_spec() == old(self).recording_spec()),
            old(self).recording_spec() is None ==> r is Ok,
            old(self).recording_spec() is None ==> (final(self).recording_spec() matches Some(m)
                && m@ == fresh_recording(name@, device_path@)),
            final(self).store() == old(self).store(),
            final(self).executing_spec() == old(self).executing_spec(),
            final(self).max_concurrent_spec() == old(self).max_concurrent_spec(),
            final(self).injector_spec() == old(self).injector_spec(),
    {
        if self.recording.is_some() {
            return Err(EngineError::AlreadyRecording);
        }
        let m = MacroEntry {
            name,
            trigger: KeyCombo { keys: Vec::new(), modifiers: Vec::new() },
            actions: Vec::new(),
            device_id: Some(device_path),
            enabled: true,
        };
        assert(m.actions.deep_view() =~= Seq::<ActionV>::empty());
        assert(m.trigger.keys@ =~= Seq::<u16>::empty());
        assert(m.trigger.modifiers@ =~= Seq::<u16>::empty());
        assert(m@ == fresh_recording(m.name@, opt_str_view(m.device_id).unwrap()));
        self.recording = Some(m);
        Ok(())
    }

    /// Stops recording and returns the recorded macro (`None` when no recording was in progress).
    pub fn stop_recording(&mut self) -> (r: Result<Option<MacroEntry>, EngineError>)
        requires
            old(self).wf(),
        ensures
            final(self).wf(),
            r == Ok::<Option<MacroEntry>, EngineError>(old(self).recording_spec()),
            final(self).recording_spec() is None,
            final(self).store() == old(self).store(),
            final(self).executing_spec() == old(self).executing_spec(),
            final(self).max_concurrent_spec() == old(self).max_concurrent_spec(),
            final(self).injector_spec() == old(self).injector_spec(),
    {
        let r = self.recording.take();
        Ok(r)
    }

    /// Whether a recording is in progress.
    pub fn is_recording(&self) -> (r: bool)
        ensures
            r == self.recording_spec() is Some,
    {
        self.recording.is_some()
    }

    /// Whether `combo` holds `key_code`.
    fn keys_match(&self, combo: &KeyCombo, key_code: u16) -> (r: bool)
        ensures
            r == combo.keys@.contains(key_code),
    {
        let n = combo.keys.len();
        let mut i: usize = 0;
        while i < n
            invariant
                n == combo.keys@.len(),
                i <= n,
                forall|j: int| 0 <= j < i ==> combo.keys@[j] != key_code,
            decreases n - i,
        {
            if combo.keys[i] == key_code {
                assert(combo.keys@[i as int] == key_code);
                return true;
            }
            i = i + 1;
        }
        false
    }

    /// Whether `name` is executing.
    fn is_executing(&self, name: &str) -> (r: bool)
        ensures
            r == self.executing_spec().contains(name@),
    {
        let n = self.executing.len();
        let mut i: usize = 0;
        while i < n
            invariant
                n == self.executing@.len(),
                i <= n,
                forall|j: int| 0 <= j < i ==> self.executing_spec()[j] != name@,
            decreases n - i,
        {
            if str_eq(self.executing[i].as_str(), name) {
                assert(self.executing_spec()[i as int] == name@);
                return true;
            }
            i = i + 1;
        }
        false
    }

    /// Starts executing a macro: refused without an injector; nothing happens
    /// when a macro of that name is already executing; otherwise the name joins
    /// the executing macros and the macro's actions are returned to be performed.
    pub fn execute_macro(&mut self, macro_entry: MacroEntry) -> (r: Result<Option<MacroStart>, EngineError>)
        requires
            old(self).wf(),
        ensures
            final(self).wf(),
            final(self).store() == old(self).store(),
            final(self).recording_spec() == old(self).recording_spec(),
            final(self).max_concurrent_spec() == old(self).max_concurrent_spec(),
            final(self).injector_spec() == old(self).injector_spec(),
            !old(self).injector_spec() ==> (r matches Err(EngineError::NoInjector)
                && final(self).executing_spec() == old(self).executing_spec()),
            old(self).injector_spec() && old(self).executing_spec().contains(macro_entry.name@) ==> (r
                matches Ok(None) && final(self).executing_spec() == old(self).executing_spec()),
            old(self).injector_spec() && !old(self).executing_spec().contains(macro_entry.name@) ==> (r
                matches Ok(Some(s)) && s.name@ == macro_entry.name@ && s.actions.deep_view()
                == macro_entry.actions.deep_view() && final(self).executing_spec()
                == old(self).executing_spec().push(macro_entry.name@)),
    {
        if !self.injector_attached {
            return Err(EngineError::NoInjector);
        }
        if self.is_executing(macro_entry.name.as_str()) {
            return Ok(None);
        }
        let ghost old_exec = self.executing_spec();
        self.executing.push(macro_entry.name.clone());
        assert(self.executing_spec() =~= old_exec.push(macro_entry.name@));
        Ok(Some(MacroStart { name: macro_entry.name, actions: macro_entry.actions }))
    }

    /// Starts every stored macro that a press of `key_code` on `device_path`
    /// triggers and that is not executing yet, in the order the macros were added.
    /// When as many macros execute as allowed, the press is ignored; without an
    /// injector, a press that triggers any macro is refused.
    pub fn check_macro_triggers(&mut self, key_code: u16, device_path: &str) -> (r: Result<
        Vec<MacroStart>,
        EngineError,
    >)
        requires
            old(self).wf(),
        ensures
            final(self).wf(),
            final(self).store() == old(self).store(),
            final(self).recording_spec() == old(self).recording_spec(),
            final(self).max_concurrent_spec() == old(self).max_concurrent_spec(),
            final(self).injector_spec() == old(self).injector_spec(),
            check_triggers_outcome(*old(self), *final(self), key_code, device_path@, r),
    {
        let mut out: Vec<MacroStart> = Vec::new();
        if self.executing.len() >= self.max_concurrent_macros {
            return Ok(out);
        }
        let n = self.macros.len();
        proof {
            self.macros.lemma_lens();
        }
        let ghost vals = self.macros.vals();
        let ghost keys = self.macros.keys();
        let ghost exec0 = self.executing_spec();
        let ghost dev = device_path@;
        let mut i: usize = 0;
        while i < n
            invariant
                self.wf(),
                n == keys.len(),
                vals.len() == n,
                vals == self.store().vals(),
                keys == self.store().keys(),
                keys.no_duplicates(),
                forall|j: int| 0 <= j < n ==> #[trigger] vals[j].name@ == keys[j],
                i <= n,
                dev == device_path@,
                forall|j: int| 0 <= j < i ==> !triggers(#[trigger] vals[j], key_code, dev) || self.injector_spec(),
                self.store() == old(self).store(),
                self.recording_spec() == old(self).recording_spec(),
                self.max_concurrent_spec() == old(self).max_concurrent_spec(),
                self.injector_spec() == old(self).injector_spec(),
                exec0 == old(self).executing_spec(),
                exec0.len() < old(self).max_concurrent_spec(),
                started_as(out@, starts(vals.subrange(0, i as int), key_code, dev, exec0)),
                self.executing_spec() == exec0 + names_of(
                    starts(vals.subrange(0, i as int), key_code, dev, exec0),
                ),
                forall|k: int|
                    0 <= k < starts(vals.subrange(0, i as int), key_code, dev, exec0).len()
                        ==> exists|j: int|
                        0 <= j < i && #[trigger] starts(
                            vals.subrange(0, i as int),
                            key_code,
                            dev,
                            exec0,
                        )[k] == vals[j],
            decreases n - i,
        {
            let m = self.macros.value_at(i);
            let ghost pre = vals.subrange(0, i as int);
            assert(vals.subrange(0, i + 1).drop_last() =~= pre);
            assert(vals.subrange(0, i + 1).last() == vals[i as int]);
            let ghost st = starts(pre, key_code, dev, exec0);
            let mut is_trigger = m.enabled && self.keys_match(&m.trigger, key_code);
            if is_trigger {
                match &m.device_id {
                    Some(d) => {
                        if !str_eq(d.as_str(), device_path) {
                            is_trigger = false;
                        }
                    },
                    None => {},
                }
            }
            assert(is_trigger == triggers(vals[i as int], key_code, dev));
            if is_trigger {
                if !self.injector_attached {
                    proof {
                        assert(any_triggered(vals, key_code, dev));
                        assert forall|j: int| 0 <= j < pre.len() implies !triggers(#[trigger] pre[j], key_code, dev) by {
                            assert(pre[j] == vals[j]);
                        }
                        lemma_no_starts_without_triggers(pre, key_code, dev, exec0);
                        assert(self.executing_spec() =~= exec0);
                    }
                    return Err(EngineError::NoInjector);
                }
                // names started so far are names of earlier macros, so differ from this one
                proof {
                    assert forall|k: int| 0 <= k < names_of(st).len() implies names_of(st)[k]
                        != vals[i as int].name@ by {
                        let j = choose|j: int| 0 <= j < i && st[k] == vals[j];
                        assert(keys[j] != keys[i as int]);
                    }
                    assert(self.executing_spec().contains(vals[i as int].name@) <==> exec0.contains(
                        vals[i as int].name@,
                    )) by {
                        if self.executing_spec().contains(vals[i as int].name@) {
                            let k = self.executing_spec().index_of(vals[i as int].name@);
                            if k >= exec0.len() {
                                assert(names_of(st)[k - exec0.len()] == vals[i as int].name@);
                            } else {
                                assert(exec0[k] == vals[i as int].name@);
                            }
                        }
                        if exec0.contains(vals[i as int].name@) {
                            let k = exec0.index_of(vals[i as int].name@);
                            assert(self.executing_spec()[k] == vals[i as int].name@);
                        }
                    }
                }
                let entry = m.clone();
                let ghost exec_before = self.executing_spec();
                let started = self.execute_macro(entry);
                match started {
                    Ok(Some(s)) => {
                        out.push(s);
                    },
                    _ => {},
                }
                proof {
                    let st2 = starts(vals.subrange(0, i + 1), key_code, dev, exec0);
                    if !exec0.contains(vals[i as int].name@) {
                        assert(st2 == st.push(vals[i as int]));
                        assert(names_of(st2) =~= names_of(st).push(vals[i as int].name@));
                        assert(self.executing_spec() =~= exec0 + names_of(st2));
                        assert forall|k: int| 0 <= k < st2.len() implies exists|j: int|
                            0 <= j < i + 1 && #[trigger] st2[k] == vals[j] by {
                            if k == st.len() {
                                assert(st2[k] == vals[i as int]);
                            } else {
                                assert(st2[k] == st[k]);
                            }
                        }
                    } else {
                        assert(st2 == st);
                    }
                }
            } else {
                assert(starts(vals.subrange(0, i + 1), key_code, dev, exec0) == st);
            }
            i = i + 1;
        }
        assert(vals.subrange(0, n as int) =~= vals);
        proof {
            if !self.injector_spec() {
                assert(!any_triggered(vals, key_code, dev));
                assert(starts(vals, key_code, dev, exec0).len() == 0) by {
                    lemma_no_starts_without_triggers(vals, key_code, dev, exec0);
                }
                assert(self.executing_spec() =~= exec0);
            }
        }
        Ok(out)
    }

    /// Handles a key event from `device_path`. While recording from that device
    /// (or from any device, when the recording has no restriction) the event is
    /// appended to the recording as a press or a release; otherwise a press
    /// checks the macro triggers.
    pub fn process_input_event(&mut self, key_code: u16, is_pressed: bool, device_path: &str) -> (r:
        Result<Vec<MacroStart>, EngineError>)
        requires
            old(self).wf(),
        ensures
            final(self).wf(),
            final(self).store() == old(self).store(),
            final(self).max_concurrent_spec() == old(self).max_concurrent_spec(),
            final(self).injector_spec() == old(self).injector_spec(),
            recording_step(
                old(self).recording_spec(),
                final(self).recording_spec(),
                key_code,
                is_pressed,
                device_path@,
            ),
            (old(self).recording_spec() matches Some(m) && records_from(m.device_id, device_path@)) ==> ({
                &&& r matches Ok(v) && v@.len() == 0
                &&& final(self).executing_spec() == old(self).executing_spec()
            }),
            !(old(self).recording_spec() matches Some(m) && records_from(m.device_id, device_path@))
                ==> final(self).recording_spec() == old(self).recording_spec(),
            !(old(self).recording_spec() matches Some(m) && records_from(m.device_id, device_path@))
                && !is_pressed ==> (r matches Ok(v) && v@.len() == 0 && final(self).executing_spec()
                == old(self).executing_spec()),
            !(old(self).recording_spec() matches Some(m) && records_from(m.device_id, device_path@))
                && is_pressed ==> check_triggers_outcome(*old(self), *final(self), key_code, device_path@, r),
    {
        let mut recorded = false;
        match &mut self.recording {
            Some(m) => {
                let should_record = match &m.device_id {
                    Some(d) => str_eq(d.as_str(), device_path),
                    None => true,
                };
                if should_record {
                    let ghost before = m.actions.deep_view();
                    if is_pressed {
                        m.actions.push(Action::KeyPress(key_code));
                    } else {
                        m.actions.push(Action::KeyRelease(key_code));
                    }
                    assert(m.actions.deep_view() =~= before.push(key_event_action(key_code, is_pressed)));
                    recorded = true;
                }
            },
            None => {},
        }
        if recorded {
            return Ok(Vec::new());
        }
        if is_pressed {
            return self.check_macro_triggers(key_code, device_path);
        }
        Ok(Vec::new())
    }

    /// Stops the executing macro named `name`; returns whether it was executing.
    pub fn stop_macro(&mut self, name: &str) -> (r: Result<bool, EngineError>)
        requires
            old(self).wf(),
        ensures
            final(self).wf(),
            r == Ok::<bool, EngineError>(old(self).executing_spec().contains(name@)),
            !final(self).executing_spec().contains(name@),
            forall|x: Seq<char>|
                x != name@ ==> (final(self).executing_spec().contains(x) <==> old(self).executing_spec().contains(x)),
            final(self).store() == old(self).store(),
            final(self).recording_spec() == old(self).recording_spec(),
            final(self).max_concurrent_spec() == old(self).max_concurrent_spec(),
            final(self).injector_spec() == old(self).injector_spec(),
    {
        let n = self.executing.len();
        let ghost ex = self.executing_spec();
        let mut i: usize = 0;
        while i < n
            invariant
                n == self.executing@.len(),
                ex == self.executing_spec(),
                ex == old(self).executing_spec(),
                old(self).wf(),
                self.store() == old(self).store(),
                self.recording_spec() == old(self).recording_spec(),
                self.active_combos_spec() == old(self).active_combos_spec(),
                self.max_concurrent_spec() == old(self).max_concurrent_spec(),
                self.injector_spec() == old(self).injector_spec(),
                i <= n,
                forall|j: int| 0 <= j < i ==> ex[j] != name@,
            decreases n - i,
        {
            if str_eq(self.executing[i].as_str(), name) {
                assert(ex[i as int] == name@);
                self.executing.remove(i);
                proof {
                    assert(self.executing_spec() =~= ex.remove(i as int));
                    assert forall|x: Seq<char>| #[trigger] self.executing_spec().contains(x) <==> (ex.contains(x) && x != name@) by {
                        if self.executing_spec().contains(x) {
                            let k = self.executing_spec().index_of(x);
                            if k < i {
                                assert(ex[k] == x);
                            } else {
                                assert(ex[k + 1] == x);
                            }
                            assert(x != name@) by {
                                if x == name@ {
                                    assert(ex[i as int] == name@);
                                    if k < i {
                                        assert(ex[k] != name@);
                                    } else {
                                        assert(k + 1 != i);
                                    }
                                }
                            }
                        }
                        if ex.contains(x) && x != name@ {
                            let k = ex.index_of(x);
                            if k < i {
                                assert(self.executing_spec()[k] == x);
                            } else {
                                assert(k != i);
                                assert(self.executing_spec()[k - 1] == x);
                            }
                        }
                    }
                    assert(ex.contains(name@));
                }
                return Ok(true);
            }
            i = i + 1;
        }
        Ok(false)
    }

    /// Records that the macro named `name` ran to its end: it is no longer
    /// executing, so a later trigger or request starts it again.
    pub fn finish_macro(&mut self, name: &str)
        requires
            old(self).wf(),
        ensures
            final(self).wf(),
            !final(self).executing_spec().contains(name@),
            forall|x: Seq<char>|
                x != name@ ==> (final(self).executing_spec().contains(x) <==> old(self).executing_spec().contains(x)),
            final(self).store() == old(self).store(),
            final(self).recording_spec() == old(self).recording_spec(),
            final(self).max_concurrent_spec() == old(self).max_concurrent_spec(),
            final(self).injector_spec() == old(self).injector_spec(),
    {
        let _ = self.stop_macro(name);
    }

    /// The names of the executing macros, in the order they started.
    pub fn get_executing_macros(&self) -> (r: Vec<String>)
        ensures
            r@.map_values(|s: String| s@) == self.executing_spec(),
    {
        let n = self.executing.len();
        let mut out: Vec<String> = Vec::new();
        let mut i: usize = 0;
        while i < n
            invariant
                n == self.executing@.len(),
                i <= n,
                out@.len() == i,
                forall|j: int| 0 <= j < i ==> #[trigger] out@[j]@ == self.executing@[j]@,
            decreases n - i,
        {
            out.push(self.executing[i].clone());
            i = i + 1;
        }
        assert(out@.map_values(|s: String| s@) =~= self.executing_spec());
        out
    }
}

/// The stored macros after adding `entries` one after another: each is
/// stored under its name unless a macro of that name is stored by then.
pub open spec fn with_added(store: Map<Seq<char>, MacroEntryV>, entries: Seq<MacroEntryV>) -> Map<
    Seq<char>,
    MacroEntryV,
>
    decreases entries.len(),
{
    if entries.len() == 0 {
        store
    } else {
        let before = with_added(store, entries.drop_last());
        if before.contains_key(entries.last().name) {
            before
        } else {
            before.insert(entries.last().name, entries.last())
        }
    }
}

/// The names of the `entries` that adding them one after another refuses,
/// because a macro of that name is stored by then, in order.
pub open spec fn refused_names(store: Map<Seq<char>, MacroEntryV>, entries: Seq<MacroEntryV>) -> Seq<Seq<char>>
    decreases entries.len(),
{
    if entries.len() == 0 {
        Seq::empty()
    } else {
        let before = refused_names(store, entries.drop_last());
        if with_added(store, entries.drop_last()).contains_key(entries.last().name) {
            before.push(entries.last().name)
        } else {
            before
        }
    }
}

/// What [`MacroEngine::check_macro_triggers`] promises, as a predicate over the
/// engine before and after the call and its result.
pub open spec fn check_triggers_outcome(
    pre: MacroEngine,
    post: MacroEngine,
    key_code: u16,
    dev: Seq<char>,
    r: Result<Vec<MacroStart>, EngineError>,
) -> bool {
    &&& pre.executing_spec().len() >= pre.max_concurrent_spec() ==> (r matches Ok(v) && v@.len() == 0
        && post.executing_spec() == pre.executing_spec())
    &&& pre.executing_spec().len() < pre.max_concurrent_spec() && !pre.injector_spec()
        ==> post.executing_spec() == pre.executing_spec()
    &&& pre.executing_spec().len() < pre.max_concurrent_spec() && !pre.injector_spec() && any_triggered(
        pre.store().vals(),
        key_code,
        dev,
    ) ==> (r matches Err(EngineError::NoInjector))
    &&& pre.executing_spec().len() < pre.max_concurrent_spec() && !pre.injector_spec() && !any_triggered(
        pre.store().vals(),
        key_code,
        dev,
    ) ==> (r matches Ok(v) && v@.len() == 0)
    &&& pre.executing_spec().len() < pre.max_concurrent_spec() && pre.injector_spec() ==> (r matches Ok(
        v,
    ) && started_as(v@, starts(pre.store().vals(), key_code, dev, pre.executing_spec()))
        && post.executing_spec() == pre.executing_spec() + names_of(
        starts(pre.store().vals(), key_code, dev, pre.executing_spec()),
    ))
}

/// When nothing is triggered, nothing starts.
pub proof fn lemma_no_starts_without_triggers(
    s: Seq<MacroEntry>,
    key: u16,
    dev: Seq<char>,
    running: Seq<Seq<char>>,
)
    requires
        !any_triggered(s, key, dev),
    ensures
        starts(s, key, dev, running).len() == 0,
    decreases s.len(),
{
    if s.len() > 0 {
        assert(!triggers(s[s.len() - 1], key, dev));
        assert forall|j: int| 0 <= j < s.drop_last().len() implies !triggers(
            #[trigger] s.drop_last()[j],
            key,
            dev,
        ) by {
            assert(s.drop_last()[j] == s[j]);
        }
        lemma_no_starts_without_triggers(s.drop_last(), key, dev, running);
    }
}

/// The macros that a press starts are exactly the macros it triggers that are
/// not running, every one of them and in their order: `starts` keeps, of `s`,
/// those for which `triggers` holds and whose name `running` does not hold.
pub proof fn lemma_starts_exactly(s: Seq<MacroEntry>, key: u16, dev: Seq<char>, running: Seq<Seq<char>>)
    ensures
        starts(s, key, dev, running) == s.filter(
            |m: MacroEntry| triggers(m, key, dev) && !running.contains(m.name@),
        ),
        forall|j: int|
            0 <= j < s.len() && triggers(s[j], key, dev) && !running.contains(s[j].name@)
                ==> #[trigger] starts(s, key, dev, running).contains(s[j]),
        forall|k: int|
            0 <= k < starts(s, key, dev, running).len() ==> s.contains(
                #[trigger] starts(s, key, dev, running)[k],
            ) && triggers(starts(s, key, dev, running)[k], key, dev) && !running.contains(
                starts(s, key, dev, running)[k].name@,
            ),
    decreases s.len(),
{
    let pred = |m: MacroEntry| triggers(m, key, dev) && !running.contains(m.name@);
    reveal(Seq::filter);
    if s.len() > 0 {
        lemma_starts_exactly(s.drop_last(), key, dev, running);
        assert(starts(s, key, dev, running) == s.filter(pred));
    }
    let st = starts(s, key, dev, running);
    assert forall|j: int|
        0 <= j < s.len() && triggers(s[j], key, dev) && !running.contains(s[j].name@)
            implies #[trigger] st.contains(s[j]) by {
        s.lemma_filter_contains(pred, j);
    }
    assert forall|k: int| 0 <= k < st.len() implies s.contains(#[trigger] st[k]) && triggers(
        st[k],
        key,
        dev,
    ) && !running.contains(st[k].name@) by {
        s.lemma_filter_pred(pred, k);
        lemma_filter_in_source(s, pred, k);
    }
}

proof fn lemma_filter_in_source(s: Seq<MacroEntry>, pred: spec_fn(MacroEntry) -> bool, k: int)
    requires
        0 <= k < s.filter(pred).len(),
    ensures
        s.contains(s.filter(pred)[k]),
    decreases s.len(),
{
    reveal(Seq::filter);
    let sub = s.drop_last().filter(pred);
    if pred(s.last()) && k == sub.len() {
        assert(s[s.len() - 1] == s.filter(pred)[k]);
    } else {
        assert(s.filter(pred)[k] == sub[k]);
        lemma_filter_in_source(s.drop_last(), pred, k);
        let i = choose|i: int| 0 <= i < s.drop_last().len() && s.drop_last()[i] == sub[k];
        assert(s[i] == sub[k]);
    }
}

/// A press that neither the limit nor a missing injector stops starts every
/// stored macro it triggers that is not executing yet: the macro is among the
/// started ones, with its actions, and is executing afterwards.
pub proof fn lemma_press_starts_every_triggered(
    pre: MacroEngine,
    post: MacroEngine,
    key: u16,
    dev: Seq<char>,
    r: Result<Vec<MacroStart>, EngineError>,
    j: int,
)
    requires
        check_triggers_outcome(pre, post, key, dev, r),
        pre.executing_spec().len() < pre.max_concurrent_spec(),
        pre.injector_spec(),
        0 <= j < pre.store().vals().len(),
        triggers(pre.store().vals()[j], key, dev),
        !pre.executing_spec().contains(pre.store().vals()[j].name@),
    ensures
        r matches Ok(v) && exists|k: int|
            0 <= k < v@.len() && #[trigger] v@[k].name@ == pre.store().vals()[j].name@
                && v@[k].actions.deep_view() == pre.store().vals()[j].actions.deep_view(),
        post.executing_spec().contains(pre.store().vals()[j].name@),
{
    let vals = pre.store().vals();
    let m = vals[j];
    let st = starts(vals, key, dev, pre.executing_spec());
    lemma_starts_exactly(vals, key, dev, pre.executing_spec());
    assert(st.contains(m));
    let k = choose|k: int| 0 <= k < st.len() && st[k] == m;
    let v = r->Ok_0;
    assert(v@[k].name@ == m.name@);
    let names = names_of(st);
    assert(names[k] == m.name@);
    let e = post.executing_spec();
    assert(e[pre.executing_spec().len() + k] == m.name@);
}

/// The words that open the report of a failed action: what the injector was
/// asked to do. A delay asks nothing of the injector and cannot fail.
pub open spec fn action_failure_prefix(a: ActionV) -> Seq<char> {
    match a {
        ActionV::KeyPress(_) => "Key press failed: "@,
        ActionV::KeyRelease(_) => "Key release failed: "@,
        ActionV::Delay(_) => Seq::empty(),
        ActionV::Execute(_) => "Command execution failed: "@,
        ActionV::Type(_) => "Text typing failed: "@,
        ActionV::MousePress(_) => "Mouse press failed: "@,
        ActionV::MouseRelease(_) => "Mouse release failed: "@,
        ActionV::MouseMove(_, _) => "Mouse move failed: "@,
        ActionV::MouseScroll(_) => "Mouse scroll failed: "@,
    }
}

/// What performing one action reports, given what the injector answered:
/// success when it succeeded (and always for a delay), otherwise the failure
/// prefixed with what the injector was asked to do.
pub fn action_outcome(action: &Action, injected: Result<(), String>) -> (r: Result<(), String>)
    ensures
        (injected is Ok || action is Delay) ==> r is Ok,
        injected matches Err(e) ==> (action is Delay || (r matches Err(m) && m@
            == action_failure_prefix(action@) + e@)),
{
    match injected {
        Ok(()) => Ok(()),
        Err(e) => {
            let prefix = match action {
                Action::KeyPress(_) => "Key press failed: ",
                Action::KeyRelease(_) => "Key release failed: ",
                Action::Delay(_) => {
                    return Ok(());
                },
                Action::Execute(_) => "Command execution failed: ",
                Action::Type(_) => "Text typing failed: ",
                Action::MousePress(_) => "Mouse press failed: ",
                Action::MouseRelease(_) => "Mouse release failed: ",
                Action::MouseMove(_, _) => "Mouse move failed: ",
                Action::MouseScroll(_) => "Mouse scroll failed: ",
            };
            Err(crate::text::concat2(prefix, e.as_str()))
        },
    }
}

/// Adding a macro under a name that is not stored and then removing that name
/// leaves the stored macros as they were.
pub proof fn lemma_add_then_remove(store: Map<Seq<char>, MacroEntry>, m: MacroEntry)
    requires
        !store.contains_key(m.name@),
    ensures
        store.insert(m.name@, m).remove(m.name@) == store,
        store.insert(m.name@, m).contains_key(m.name@),
        store.insert(m.name@, m)[m.name@] == m,
{
    assert(store.insert(m.name@, m).remove(m.name@) =~= store);
}

/// Recording collects the key events of the recording device in order: from a
/// fresh recording named `name` on `dev`, handing the events to
/// [`MacroEngine::process_input_event`] one after the other leaves a recording
/// whose actions are those events as presses and releases, with the name,
/// trigger and device of the fresh recording.
pub proof fn lemma_recording_collects(
    recs: Seq<Option<MacroEntry>>,
    events: Seq<(u16, bool)>,
    name: Seq<char>,
    dev: Seq<char>,
)
    requires
        recs.len() == events.len() + 1,
        recs[0] matches Some(m) && m@ == fresh_recording(name, dev),
        forall|i: int|
            0 <= i < events.len() ==> recording_step(
                #[trigger] recs[i],
                recs[i + 1],
                events[i].0,
                events[i].1,
                dev,
            ),
    ensures
        recs.last() matches Some(m) && m@ == (MacroEntryV {
            actions: recorded_actions(events),
            ..fresh_recording(name, dev)
        }),
    decreases events.len(),
{
    if events.len() == 0 {
        assert(recorded_actions(events) =~= Seq::<ActionV>::empty());
    } else {
        let n = events.len() - 1;
        let prefix = events.drop_last();
        let recs_prefix = recs.drop_last();
        assert forall|i: int| 0 <= i < prefix.len() implies recording_step(
            #[trigger] recs_prefix[i],
            recs_prefix[i + 1],
            prefix[i].0,
            prefix[i].1,
            dev,
        ) by {
            assert(recording_step(recs[i], recs[i + 1], events[i].0, events[i].1, dev));
        }
        lemma_recording_collects(recs_prefix, prefix, name, dev);
        assert(recs_prefix.last() == recs[n]);
        let m = recs[n].unwrap();
        assert(m.device_id matches Some(d) && d@ == dev);
        assert(recording_step(recs[n], recs[n + 1], events[n].0, events[n].1, dev));
        assert(recorded_actions(events) =~= recorded_actions(prefix).push(
            key_event_action(events[n].0, events[n].1),
        ));
    }
}

} // verus!
