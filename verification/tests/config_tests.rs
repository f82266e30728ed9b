use razermapper::config::{join, profile_name_of_file, profile_names, profile_path, ConfigManager, DaemonConfig};
use razermapper::protocol::{Action, KeyCombo, MacroEntry, Profile};
use razermapper::strmap::StrMap;

fn entry(name: &str, key: u16) -> MacroEntry {
    MacroEntry {
        name: name.to_string(),
        trigger: KeyCombo { keys: vec![key], modifiers: vec![] },
        actions: vec![Action::KeyPress(key)],
        device_id: None,
        enabled: true,
    }
}

#[test]
fn default_configuration_values() {
    let c = DaemonConfig::default();
    assert_eq!(c.daemon.socket_path, "/run/razermapper.sock");
    assert_eq!(c.daemon.log_level, "info");
    assert!(c.daemon.drop_privileges);
    assert_eq!(c.device_discovery.input_devices_path, "/dev/input/by-id");
    assert_eq!(c.device_discovery.fallback_name_pattern, "Razer");
    assert_eq!(c.macro_engine.max_concurrent_macros, 10);
    assert_eq!(c.macro_engine.default_delay, 10);
    assert_eq!(c.config.reload_interval, 30);
    assert_eq!(c.security.socket_group, "input");
    assert_eq!(c.security.socket_permissions, "0660");
    assert!(!c.security.require_auth_token);
    assert_eq!(c.security.retain_capabilities, vec!["CAP_SYS_RAWIO".to_string()]);
    assert_eq!(c.led_control.interface, "dbus");
    assert_eq!(c.led_control.default_color, [0, 255, 0]);
    assert_eq!(c.performance.event_queue_size, 1000);
}

#[test]
fn manager_paths() {
    let m = ConfigManager::new();
    assert_eq!(m.config_path, "/etc/razermapperd/config.yaml");
    assert_eq!(m.macros_path, "/etc/razermapperd/macros.yaml");
    assert_eq!(m.cache_path, "/var/cache/razermapperd/macros.bin");
    assert_eq!(m.profiles_dir, "/etc/razermapperd/profiles");
    assert_eq!(m.profile_path("gaming"), "/etc/razermapperd/profiles/gaming.yaml");
    assert_eq!(m.macros().len(), 0);
}

#[test]
fn joining_paths() {
    assert_eq!(join("/tmp", "config.yaml"), "/tmp/config.yaml");
    assert_eq!(join("/tmp/", "config.yaml"), "/tmp/config.yaml");
    assert_eq!(join("/tmp", "/etc/x"), "/etc/x");
    assert_eq!(join("", "a"), "a");
    assert_eq!(profile_path("/p", "work"), "/p/work.yaml");
}

#[test]
fn profile_file_names() {
    assert_eq!(profile_name_of_file("work.yaml"), Some("work".to_string()));
    assert_eq!(profile_name_of_file("a.b.yaml"), Some("a.b".to_string()));
    assert_eq!(profile_name_of_file("work.yml"), None);
    assert_eq!(profile_name_of_file(".yaml"), None);
    assert_eq!(profile_name_of_file("noext"), None);
    assert_eq!(
        profile_names(vec!["b.yaml".to_string(), "notes.txt".to_string(), "a.yaml".to_string()]),
        vec!["a".to_string(), "b".to_string()]
    );
}

#[test]
fn saving_and_loading_profiles() {
    let mut m = ConfigManager::with_paths(
        "/tmp/c.yaml".to_string(),
        "/tmp/m.yaml".to_string(),
        "/tmp/m.bin".to_string(),
        "/tmp/p".to_string(),
    );
    let mut macros = StrMap::new();
    macros.insert("a".to_string(), entry("a", 30));
    m.set_macros(macros);
    let p = m.current_macros_as_profile("saved");
    assert_eq!(p.name, "saved");
    assert_eq!(p.macros.len(), 1);
    m.record_saved_profile(p);
    assert!(m.profiles.contains_key("saved"));

    let mut loaded = StrMap::new();
    loaded.insert("a".to_string(), entry("a", 31));
    loaded.insert("b".to_string(), entry("b", 32));
    let count = m.apply_loaded_profile("other", Profile { name: "other".to_string(), macros: loaded });
    assert_eq!(count, 2);
    assert_eq!(m.macros.len(), 2);
    assert_eq!(m.macros.get("a").unwrap().trigger.keys, vec![31]);
    assert!(m.profiles.contains_key("other"));
    m.forget_profile("other");
    assert!(!m.profiles.contains_key("other"));
}

#[test]
fn reloading_a_saved_profile_changes_nothing() {
    let mut m = ConfigManager::new();
    let mut macros = StrMap::new();
    macros.insert("x".to_string(), entry("x", 1));
    macros.insert("y".to_string(), entry("y", 2));
    m.set_macros(macros);
    let p = m.current_macros_as_profile("same");
    m.apply_loaded_profile("same", p);
    assert_eq!(m.macros.len(), 2);
    assert_eq!(m.macros.get("x").unwrap().trigger.keys, vec![1]);
    assert_eq!(m.macros.get("y").unwrap().trigger.keys, vec![2]);
}

#[test]
fn string_map_basics() {
    let mut s: StrMap<u32> = StrMap::new();
    s.insert("k".to_string(), 1);
    s.insert("k".to_string(), 2);
    assert_eq!(s.len(), 1);
    assert_eq!(s.get("k"), Some(&2));
    assert_eq!(s.remove("k"), Some(2));
    assert_eq!(s.remove("k"), None);
    assert!(!s.contains_key("k"));
}

#[test]
fn recorded_profiles_can_be_read_back() {
    let mut m = ConfigManager::new();
    let mut macros = StrMap::new();
    macros.insert("a".to_string(), entry("a", 30));
    m.set_macros(macros);
    let p = m.current_macros_as_profile("default");
    m.record_saved_profile(p);
    let got = m.get_profile("default").unwrap();
    assert_eq!(got.name, "default");
    assert_eq!(got.macros.get("a").unwrap().trigger.keys, vec![30]);
    assert!(m.get_profile("missing").is_none());
    let all = m.get_profiles();
    assert_eq!(all.len(), 1);
    assert_eq!(all.key_at(0), "default");
    let copy = got.clone();
    assert_eq!(copy.macros.len(), 1);
}
