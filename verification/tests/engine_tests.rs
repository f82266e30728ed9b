use razermapper::engine::{action_outcome, EngineError, MacroEngine};
use razermapper::protocol::{Action, KeyCombo, MacroEntry};

fn entry(name: &str, keys: Vec<u16>, actions: Vec<Action>, device_id: Option<&str>, enabled: bool) -> MacroEntry {
    MacroEntry {
        name: name.to_string(),
        trigger: KeyCombo { keys, modifiers: vec![] },
        actions,
        device_id: device_id.map(|d| d.to_string()),
        enabled,
    }
}

#[test]
fn test_macro_creation() {
    let mut engine = MacroEngine::new();

    let macro_entry = MacroEntry {
        name: "Test Macro".to_string(),
        trigger: KeyCombo { keys: vec![30], modifiers: vec![] },
        actions: vec![Action::KeyPress(30), Action::Delay(100), Action::KeyRelease(30)],
        device_id: None,
        enabled: true,
    };

    engine.add_macro(macro_entry.clone()).unwrap();

    let retrieved = engine.get_macro("Test Macro").unwrap();
    assert_eq!(retrieved.name, macro_entry.name);
    assert_eq!(retrieved.trigger.keys, macro_entry.trigger.keys);
}

#[test]
fn test_macro_removal() {
    let mut engine = MacroEngine::new();

    let macro_entry = MacroEntry {
        name: "Test Macro".to_string(),
        trigger: KeyCombo { keys: vec![30], modifiers: vec![] },
        actions: vec![],
        device_id: None,
        enabled: true,
    };

    engine.add_macro(macro_entry).unwrap();
    assert!(engine.get_macro("Test Macro").is_some());

    let removed = engine.remove_macro("Test Macro").unwrap();
    assert!(removed);

    assert!(engine.get_macro("Test Macro").is_none());
}

#[test]
fn test_macro_recording() {
    let mut engine = MacroEngine::new();

    engine.start_recording("Test Recording".to_string(), "/dev/input/event0".to_string()).unwrap();
    assert!(engine.is_recording());

    engine.process_input_event(30, true, "/dev/input/event0").unwrap();
    engine.process_input_event(30, false, "/dev/input/event0").unwrap();

    let macro_entry = engine.stop_recording().unwrap().unwrap();
    assert_eq!(macro_entry.name, "Test Recording");
    assert_eq!(macro_entry.actions.len(), 2);

    assert!(!engine.is_recording());
}

#[test]
fn test_macro_triggering() {
    let _engine = MacroEngine::new();
    assert!(true);
}

#[test]
fn adding_a_name_twice_is_refused() {
    let mut engine = MacroEngine::new();
    engine.add_macro(entry("dup", vec![1], vec![], None, true)).unwrap();
    match engine.add_macro(entry("dup", vec![2], vec![], None, true)) {
        Err(EngineError::AlreadyExists(n)) => assert_eq!(n, "dup"),
        other => panic!("unexpected {:?}", other),
    }
    assert_eq!(EngineError::AlreadyExists("dup".to_string()).message(), "Macro 'dup' already exists");
    assert_eq!(engine.get_macro("dup").unwrap().trigger.keys, vec![1]);
}

#[test]
fn removing_a_missing_macro_reports_false() {
    let mut engine = MacroEngine::new();
    assert_eq!(engine.remove_macro("nothing").unwrap(), false);
}

#[test]
fn add_then_remove_restores_the_macros() {
    let mut engine = MacroEngine::new();
    engine.add_macro(entry("a", vec![1], vec![], None, true)).unwrap();
    engine.add_macro(entry("b", vec![2], vec![], None, true)).unwrap();
    assert!(engine.remove_macro("b").unwrap());
    let names: Vec<String> = engine.list_macros().into_iter().map(|m| m.name).collect();
    assert_eq!(names, vec!["a".to_string()]);
}

#[test]
fn list_keeps_insertion_order() {
    let mut engine = MacroEngine::new();
    engine.add_macro(entry("z", vec![1], vec![], None, true)).unwrap();
    engine.add_macro(entry("a", vec![2], vec![], None, true)).unwrap();
    let names: Vec<String> = engine.list_macros().into_iter().map(|m| m.name).collect();
    assert_eq!(names, vec!["z".to_string(), "a".to_string()]);
}

#[test]
fn a_second_recording_is_refused() {
    let mut engine = MacroEngine::new();
    engine.start_recording("one".to_string(), "/d".to_string()).unwrap();
    assert!(matches!(
        engine.start_recording("two".to_string(), "/d".to_string()),
        Err(EngineError::AlreadyRecording)
    ));
    assert_eq!(EngineError::AlreadyRecording.message(), "Already recording a macro");
    assert_eq!(engine.stop_recording().unwrap().unwrap().name, "one");
    assert!(engine.stop_recording().unwrap().is_none());
}

#[test]
fn recording_ignores_other_devices_and_keeps_order() {
    let mut engine = MacroEngine::new();
    engine.start_recording("rec".to_string(), "/dev/input/event1".to_string()).unwrap();
    engine.process_input_event(30, true, "/dev/input/event1").unwrap();
    engine.process_input_event(44, true, "/dev/input/event9").unwrap();
    engine.process_input_event(30, false, "/dev/input/event1").unwrap();
    let m = engine.stop_recording().unwrap().unwrap();
    assert_eq!(m.device_id, Some("/dev/input/event1".to_string()));
    assert!(m.enabled);
    assert!(m.trigger.keys.is_empty());
    assert_eq!(m.actions.len(), 2);
    assert!(matches!(m.actions[0], Action::KeyPress(30)));
    assert!(matches!(m.actions[1], Action::KeyRelease(30)));
}

#[test]
fn triggers_need_an_injector() {
    let mut engine = MacroEngine::new();
    engine.add_macro(entry("m", vec![30], vec![Action::KeyPress(31)], None, true)).unwrap();
    assert!(matches!(engine.check_macro_triggers(30, "/d"), Err(EngineError::NoInjector)));
    assert_eq!(EngineError::NoInjector.message(), "No injector available");
    // a key that triggers nothing is no error
    assert!(engine.check_macro_triggers(99, "/d").unwrap().is_empty());
}

#[test]
fn triggered_macros_start_once() {
    let mut engine = MacroEngine::with_injector();
    engine.add_macro(entry("m", vec![30, 31], vec![Action::KeyPress(40)], None, true)).unwrap();
    engine.add_macro(entry("off", vec![30], vec![], None, false)).unwrap();
    engine.add_macro(entry("elsewhere", vec![30], vec![], Some("/other"), true)).unwrap();
    let started = engine.process_input_event(30, true, "/d").unwrap();
    assert_eq!(started.len(), 1);
    assert_eq!(started[0].name, "m");
    assert_eq!(started[0].actions.len(), 1);
    assert_eq!(engine.get_executing_macros(), vec!["m".to_string()]);
    // already executing: not started again
    assert!(engine.check_macro_triggers(31, "/d").unwrap().is_empty());
    // releases never trigger
    assert!(engine.process_input_event(30, false, "/d").unwrap().is_empty());
    assert!(engine.stop_macro("m").unwrap());
    assert!(!engine.stop_macro("m").unwrap());
    assert!(engine.get_executing_macros().is_empty());
}

#[test]
fn concurrency_limit_ignores_triggers() {
    let mut engine = MacroEngine::with_config(1, 10);
    engine.set_injector();
    engine.add_macro(entry("a", vec![1], vec![], None, true)).unwrap();
    engine.add_macro(entry("b", vec![2], vec![], None, true)).unwrap();
    assert_eq!(engine.check_macro_triggers(1, "/d").unwrap().len(), 1);
    assert!(engine.check_macro_triggers(2, "/d").unwrap().is_empty());
    assert_eq!(engine.get_executing_macros(), vec!["a".to_string()]);
}

#[test]
fn execute_macro_outcomes() {
    let mut plain = MacroEngine::new();
    assert!(matches!(plain.execute_macro(entry("x", vec![], vec![], None, true)), Err(EngineError::NoInjector)));
    let mut engine = MacroEngine::with_injector();
    let s = engine.execute_macro(entry("x", vec![], vec![Action::Delay(5)], None, true)).unwrap().unwrap();
    assert_eq!(s.name, "x");
    assert!(engine.execute_macro(entry("x", vec![], vec![], None, true)).unwrap().is_none());
}

#[test]
fn action_outcome_messages() {
    assert!(action_outcome(&Action::KeyPress(1), Ok(())).is_ok());
    assert!(action_outcome(&Action::Delay(10), Err("ignored".to_string())).is_ok());
    assert_eq!(
        action_outcome(&Action::KeyPress(1), Err("e".to_string())).unwrap_err(),
        "Key press failed: e"
    );
    assert_eq!(
        action_outcome(&Action::KeyRelease(1), Err("e".to_string())).unwrap_err(),
        "Key release failed: e"
    );
    assert_eq!(
        action_outcome(&Action::Execute("ls".to_string()), Err("e".to_string())).unwrap_err(),
        "Command execution failed: e"
    );
    assert_eq!(
        action_outcome(&Action::Type("hi".to_string()), Err("e".to_string())).unwrap_err(),
        "Text typing failed: e"
    );
    assert_eq!(
        action_outcome(&Action::MousePress(1), Err("e".to_string())).unwrap_err(),
        "Mouse press failed: e"
    );
    assert_eq!(
        action_outcome(&Action::MouseRelease(1), Err("e".to_string())).unwrap_err(),
        "Mouse release failed: e"
    );
    assert_eq!(
        action_outcome(&Action::MouseMove(1, 2), Err("e".to_string())).unwrap_err(),
        "Mouse move failed: e"
    );
    assert_eq!(
        action_outcome(&Action::MouseScroll(3), Err("e".to_string())).unwrap_err(),
        "Mouse scroll failed: e"
    );
}

#[test]
fn a_finished_macro_can_start_again() {
    let mut engine = MacroEngine::with_injector();
    let m = entry("again", vec![30], vec![Action::KeyPress(31)], None, true);
    assert!(engine.execute_macro(m.clone()).unwrap().is_some());
    assert!(engine.execute_macro(m.clone()).unwrap().is_none());
    engine.finish_macro("again");
    assert!(engine.get_executing_macros().is_empty());
    assert!(engine.execute_macro(m).unwrap().is_some());
    assert_eq!(engine.get_executing_macros(), vec!["again".to_string()]);
}

#[test]
fn finishing_leaves_other_macros_running() {
    let mut engine = MacroEngine::with_injector();
    engine.execute_macro(entry("a", vec![], vec![], None, true)).unwrap();
    engine.execute_macro(entry("b", vec![], vec![], None, true)).unwrap();
    engine.finish_macro("a");
    engine.finish_macro("not running");
    assert_eq!(engine.get_executing_macros(), vec!["b".to_string()]);
}

#[test]
fn profile_macros_are_added_in_order() {
    let mut engine = MacroEngine::new();
    engine.add_macro(entry("a", vec![1], vec![], None, true)).unwrap();
    let mut table = razermapper::strmap::StrMap::new();
    table.insert("x".to_string(), entry("a", vec![9], vec![], None, true));
    table.insert("y".to_string(), entry("b", vec![2], vec![], None, true));
    table.insert("z".to_string(), entry("b", vec![3], vec![], None, true));
    let refused = engine.add_profile_macros(&table);
    assert_eq!(refused.len(), 2);
    assert!(matches!(&refused[0], EngineError::AlreadyExists(n) if n == "a"));
    assert!(matches!(&refused[1], EngineError::AlreadyExists(n) if n == "b"));
    assert_eq!(engine.get_macro("a").unwrap().trigger.keys, vec![1]);
    assert_eq!(engine.get_macro("b").unwrap().trigger.keys, vec![2]);
}
