//! The daemon's configuration: its settings and their defaults, where
//! profiles are stored, which files in the profile directory are profiles,
//! and the in-memory tables of macros and profiles.
//!
//! Reading and writing the files is the caller's work; this module keeps the
//! tables that those files fill and decides the names and paths involved.
use vstd::prelude::*;
use crate::protocol::{MacroEntry, Profile, macro_map_view, profile_copy_of};
use crate::strmap::StrMap;
use crate::text::{owned, push_str, push_char};

verus! {

/// Daemon-specific settings.
#[derive(Debug)]
pub struct DaemonSettings {
    pub socket_path: String,
    pub log_level: String,
    pub drop_privileges: bool,
}

/// Device discovery settings.
#[derive(Debug)]
pub struct DeviceDiscoverySettings {
    pub input_devices_path: String,
    pub use_openrazer_db: bool,
    pub fallback_name_pattern: String,
}

/// Macro engine settings.
#[derive(Debug)]
pub struct MacroEngineSettings {
    pub max_concurrent_macros: usize,
    pub default_delay: u32,
    pub enable_recording: bool,
}

/// Configuration persistence settings.
#[derive(Debug)]
pub struct ConfigSettings {
    pub config_file: String,
    pub macros_file: String,
    pub cache_file: String,
    pub auto_save: bool,
    pub reload_interval: u64,
}

/// Security settings.
#[derive(Debug)]
pub struct SecuritySettings {
    pub socket_group: String,
    pub socket_permissions: String,
    pub require_auth_token: bool,
    pub retain_capabilities: Vec<String>,
}

/// LED control settings.
#[derive(Debug)]
pub struct LedControlSettings {
    pub enabled: bool,
    pub interface: String,
    pub default_color: [u8; 3],
}

/// Performance settings.
#[derive(Debug)]
pub struct PerformanceSettings {
    pub device_poll_interval: u64,
    pub event_queue_size: usize,
    pub thread_pool: bool,
}

/// The daemon's configuration.
#[derive(Debug)]
pub struct DaemonConfig {
    pub daemon: DaemonSettings,
    pub device_discovery: DeviceDiscoverySettings,
    pub macro_engine: MacroEngineSettings,
    pub config: ConfigSettings,
    pub security: SecuritySettings,
    pub led_control: LedControlSettings,
    pub performance: PerformanceSettings,
}

/// Whether `c` holds the default configuration.
pub open spec fn is_default_config(c: DaemonConfig) -> bool {
    &&& c.daemon.socket_path@ == "/run/razermapper.sock"@
    &&& c.daemon.log_level@ == "info"@
    &&& c.daemon.drop_privileges
    &&& c.device_discovery.input_devices_path@ == "/dev/input/by-id"@
    &&& c.device_discovery.use_openrazer_db
    &&& c.device_discovery.fallback_name_pattern@ == "Razer"@
    &&& c.macro_engine.max_concurrent_macros == 10
    &&& c.macro_engine.default_delay == 10
    &&& c.macro_engine.enable_recording
    &&& c.config.config_file@ == "/etc/razermapperd/config.yaml"@
    &&& c.config.macros_file@ == "/etc/razermapperd/macros.yaml"@
    &&& c.config.cache_file@ == "/var/cache/razermapperd/macros.bin"@
    &&& c.config.auto_save
    &&& c.config.reload_interval == 30
    &&& c.security.socket_group@ == "input"@
    &&& c.security.socket_permissions@ == "0660"@
    &&& !c.security.require_auth_token
    &&& c.security.retain_capabilities@.len() == 1
    &&& c.security.retain_capabilities@[0]@ == "CAP_SYS_RAWIO"@
    &&& c.led_control.enabled
    &&& c.led_control.interface@ == "dbus"@
    &&& c.led_control.default_color@ == seq![0u8, 255u8, 0u8]
    &&& c.performance.device_poll_interval == 1
    &&& c.performance.event_queue_size == 1000
    &&& c.performance.thread_pool
}

impl Default for DaemonConfig {
    fn default() -> (c: Self)
        ensures
            is_default_config(c),
    {
        let caps = vec![owned("CAP_SYS_RAWIO")];
        let color: [u8; 3] = [0, 255, 0];
        let c = DaemonConfig {
            daemon: DaemonSettings {
                socket_path: owned("/run/razermapper.sock"),
                log_level: owned("info"),
                drop_privileges: true,
            },
            device_discovery: DeviceDiscoverySettings {
                input_devices_path: owned("/dev/input/by-id"),
                use_openrazer_db: true,
                fallback_name_pattern: owned("Razer"),
            },
            macro_engine: MacroEngineSettings {
                max_concurrent_macros: 10,
                default_delay: 10,
                enable_recording: true,
            },
            config: ConfigSettings {
                config_file: owned("/etc/razermapperd/config.yaml"),
                macros_file: owned("/etc/razermapperd/macros.yaml"),
                cache_file: owned("/var/cache/razermapperd/macros.bin"),
                auto_save: true,
                reload_interval: 30,
            },
            security: SecuritySettings {
                socket_group: owned("input"),
                socket_permissions: owned("0660"),
                require_auth_token: false,
                retain_capabilities: caps,
            },
            led_control: LedControlSettings {
                enabled: true,
                interface: owned("dbus"),
                default_color: color,
            },
            performance: PerformanceSettings {
                device_poll_interval: 1,
                event_queue_size: 1000,
                thread_pool: true,
            },
        };
        assert(c.led_control.default_color@ =~= seq![0u8, 255u8, 0u8]);
        c
    }
}

// ---------------------------------------------------------------------
// Paths and profile files
// ---------------------------------------------------------------------

/// `base` joined with the relative or absolute path `p` (as `Path::join`
/// does): an absolute `p` replaces `base`; otherwise a `/` separates them
/// unless `base` is empty or already ends with one.
pub open spec fn join_path(base: Seq<char>, p: Seq<char>) -> Seq<char> {
    if p.len() > 0 && p[0] == '/' {
        p
    } else if base.len() == 0 || base.last() == '/' {
        base + p
    } else {
        base + seq!['/'] + p
    }
}

/// Joins two paths as `Path::join` does.
pub fn join(base: &str, p: &str) -> (r: String)
    ensures
        r@ == join_path(base@, p@),
{
    let pn = p.unicode_len();
    if pn > 0 && p.get_char(0) == '/' {
        return owned(p);
    }
    let bn = base.unicode_len();
    let mut s = owned(base);
    if !(bn == 0 || base.get_char(bn - 1) == '/') {
        push_char(&mut s, '/');
    }
    push_str(&mut s, p);
    s
}

/// The name of the file that stores profile `name`.
pub open spec fn profile_file_name(name: Seq<char>) -> Seq<char> {
    name + ".yaml"@
}

/// Where the profile `name` is stored in `dir`.
pub fn profile_path(dir: &str, name: &str) -> (r: String)
    ensures
        r@ == join_path(dir@, profile_file_name(name@)),
{
    let mut file = owned(name);
    push_str(&mut file, ".yaml");
    join(dir, file.as_str())
}

/// The index of the last `.` in `s`.
pub open spec fn last_dot(s: Seq<char>) -> Option<int>
    decreases s.len(),
{
    if s.len() == 0 {
        None
    } else if s.last() == '.' {
        Some(s.len() - 1)
    } else {
        last_dot(s.drop_last())
    }
}

proof fn lemma_last_dot_bounds(s: Seq<char>)
    ensures
        last_dot(s) matches Some(i) ==> 0 <= i < s.len() && s[i] == '.' && forall|j: int|
            i < j < s.len() ==> s[j] != '.',
        last_dot(s) is None ==> forall|j: int| 0 <= j < s.len() ==> s[j] != '.',
    decreases s.len(),
{
    if s.len() > 0 && s.last() != '.' {
        let t = s.drop_last();
        lemma_last_dot_bounds(t);
        assert forall|j: int| 0 <= j < t.len() implies t[j] == s[j] by {}
        if last_dot(t) is None {
            assert forall|j: int| 0 <= j < s.len() implies s[j] != '.' by {
                if j < t.len() {
                    assert(t[j] == s[j]);
                }
            }
        } else {
            let i = last_dot(t).unwrap();
            assert forall|j: int| i < j < s.len() implies s[j] != '.' by {
                if j < t.len() {
                    assert(t[j] == s[j]);
                }
            }
        }
    }
}

/// The profile named by a file in the profile directory: the file name
/// without its extension when the extension is `yaml` (the extension is what
/// follows the last dot, when that dot is not the name's first character).
pub open spec fn profile_of_file(file: Seq<char>) -> Option<Seq<char>> {
    match last_dot(file) {
        Some(i) => if i > 0 && file.subrange(i + 1, file.len() as int) == "yaml"@ {
            Some(file.subrange(0, i))
        } else {
            None
        },
        None => None,
    }
}

/// The profile named by a file, if it is a profile file.
pub fn profile_name_of_file(file: &str) -> (r: Option<String>)
    ensures
        r matches Some(p) ==> profile_of_file(file@) == Some(p@),
        r is None ==> profile_of_file(file@) is None,
{
    let n = file.unicode_len();
    proof {
        lemma_last_dot_bounds(file@);
    }
    let mut i: usize = n;
    while i > 0 && file.get_char(i - 1) != '.'
        invariant
            n == file@.len(),
            i <= n,
            forall|j: int| i <= j < n ==> file@[j] != '.',
        decreases i,
    {
        i = i - 1;
    }
    // i is 0 when there is no dot, otherwise one past the last dot
    if i == 0 {
        proof {
            lemma_last_dot_none(file@);
        }
        return None;
    }
    let dot = i - 1;
    proof {
        lemma_last_dot_at(file@, dot as int);
    }
    if dot == 0 {
        return None;
    }
    let ext_len = n - i;
    proof {
        reveal_strlit("yaml");
    }
    if ext_len != 4 {
        assert(file@.subrange(i as int, n as int).len() != "yaml"@.len());
        return None;
    }
    let ghost ext = file@.subrange(i as int, n as int);
    if file.get_char(i) != 'y' || file.get_char(i + 1) != 'a' || file.get_char(i + 2) != 'm'
        || file.get_char(i + 3) != 'l' {
        proof {
            assert(ext[0] == file@[i as int]);
            assert(ext[1] == file@[i + 1]);
            assert(ext[2] == file@[i + 2]);
            assert(ext[3] == file@[i + 3]);
            assert(ext != "yaml"@) by {
                if ext == "yaml"@ {
                    assert("yaml"@[0] == 'y');
                }
            }
        }
        return None;
    }
    proof {
        assert(ext =~= "yaml"@);
    }
    let stem = file.substring_char(0, dot);
    Some(owned(stem))
}

proof fn lemma_last_dot_at(s: Seq<char>, i: int)
    requires
        0 <= i < s.len(),
        s[i] == '.',
        forall|j: int| i < j < s.len() ==> s[j] != '.',
    ensures
        last_dot(s) == Some(i),
    decreases s.len(),
{
    if s.last() != '.' {
        assert forall|j: int| i < j < s.drop_last().len() implies s.drop_last()[j] != '.' by {}
        lemma_last_dot_at(s.drop_last(), i);
    }
}

proof fn lemma_last_dot_none(s: Seq<char>)
    requires
        forall|j: int| 0 <= j < s.len() ==> s[j] != '.',
    ensures
        last_dot(s) is None,
    decreases s.len(),
{
    if s.len() > 0 {
        lemma_last_dot_none(s.drop_last());
    }
}

/// Lexicographic order of character sequences (the order of `String`: byte
/// order of UTF-8, which is the order of the code points); a proper prefix
/// comes first.
pub open spec fn lex_le(a: Seq<char>, b: Seq<char>) -> bool
    decreases a.len(),
{
    if a.len() == 0 {
        true
    } else if b.len() == 0 {
        false
    } else if a[0] != b[0] {
        (a[0] as u32) < (b[0] as u32)
    } else {
        lex_le(a.drop_first(), b.drop_first())
    }
}

/// Whether the names are in ascending order.
pub open spec fn sorted_names(s: Seq<String>) -> bool {
    forall|i: int, j: int| 0 <= i < j < s.len() ==> lex_le(#[trigger] s[i]@, #[trigger] s[j]@)
}

/// Sorts names in ascending order (std's `sort` on `String`s: a stable sort
/// by `Ord`, which compares the bytes of the UTF-8 encodings).
#[verifier::external_body]
fn sort_names(v: &mut Vec<String>)
    ensures
        final(v)@.map_values(|s: String| s@).to_multiset() == old(v)@.map_values(|s: String| s@).to_multiset(),
        sorted_names(final(v)@),
{
    v.sort();
}

/// The profiles named by the files of a directory, the file names given in
/// any order: the names of the `.yaml` files without the extension, sorted.
pub fn profile_names(files: Vec<String>) -> (r: Vec<String>)
    ensures
        sorted_names(r@),
        r@.map_values(|s: String| s@).to_multiset() == profile_names_spec(
            files@.map_values(|s: String| s@),
        ).to_multiset(),
{
    let n = files.len();
    let mut out: Vec<String> = Vec::new();
    let mut i: usize = 0;
    while i < n
        invariant
            n == files@.len(),
            i <= n,
            out@.map_values(|s: String| s@) == profile_names_spec(
                files@.map_values(|s: String| s@).subrange(0, i as int),
            ),
        decreases n - i,
    {
        let ghost fs = files@.map_values(|s: String| s@);
        assert(fs.subrange(0, i + 1).drop_last() =~= fs.subrange(0, i as int));
        match profile_name_of_file(files[i].as_str()) {
            Some(p) => {
                out.push(p);
            },
            None => {},
        }
        i = i + 1;
        assert(out@.map_values(|s: String| s@) =~= profile_names_spec(fs.subrange(0, i as int)));
    }
    assert(files@.map_values(|s: String| s@).subrange(0, n as int) =~= files@.map_values(|s: String| s@));
    sort_names(&mut out);
    out
}

/// The profile names of a sequence of file names, in the files' order.
pub open spec fn profile_names_spec(files: Seq<Seq<char>>) -> Seq<Seq<char>>
    decreases files.len(),
{
    if files.len() == 0 {
        Seq::empty()
    } else {
        match profile_of_file(files.last()) {
            Some(p) => profile_names_spec(files.drop_last()).push(p),
            None => profile_names_spec(files.drop_last()),
        }
    }
}

// ---------------------------------------------------------------------
// Tables of macros and profiles
// ---------------------------------------------------------------------

/// The configuration manager's paths, settings and tables. The macros are
/// keyed by the names their file gives them.
pub struct ConfigManager {
    pub config_path: String,
    pub macros_path: String,
    pub cache_path: String,
    pub profiles_dir: String,
    pub config: DaemonConfig,
    pub macros: StrMap<MacroEntry>,
    pub profiles: StrMap<Profile>,
}

impl ConfigManager {
    /// The manager's invariant: no key repeats in its tables.
    pub open spec fn wf(&self) -> bool {
        self.macros.wf() && self.profiles.wf()
    }

    /// A manager with the given paths, the default configuration and empty tables.
    pub fn with_paths(config_path: String, macros_path: String, cache_path: String, profiles_dir: String) -> (m:
        Self)
        ensures
            m.wf(),
            m.config_path == config_path,
            m.macros_path == macros_path,
            m.cache_path == cache_path,
            m.profiles_dir == profiles_dir,
            is_default_config(m.config),
            m.macros.view() == Map::<Seq<char>, MacroEntry>::empty(),
            m.profiles.view() == Map::<Seq<char>, Profile>::empty(),
    {
        ConfigManager {
            config_path,
            macros_path,
            cache_path,
            profiles_dir,
            config: DaemonConfig::default(),
            macros: StrMap::new(),
            profiles: StrMap::new(),
        }
    }

    /// A manager with the system paths under `/etc/razermapperd` and
    /// `/var/cache/razermapperd`, the default configuration and empty tables.
    pub fn new() -> (m: Self)
        ensures
            m.wf(),
            m.config_path@ == "/etc/razermapperd/config.yaml"@,
            m.macros_path@ == "/etc/razermapperd/macros.yaml"@,
            m.cache_path@ == "/var/cache/razermapperd/macros.bin"@,
            m.profiles_dir@ == "/etc/razermapperd/profiles"@,
            is_default_config(m.config),
            m.macros.view() == Map::<Seq<char>, MacroEntry>::empty(),
            m.profiles.view() == Map::<Seq<char>, Profile>::empty(),
    {
        Self::with_paths(
            owned("/etc/razermapperd/config.yaml"),
            owned("/etc/razermapperd/macros.yaml"),
            owned("/var/cache/razermapperd/macros.bin"),
            owned("/etc/razermapperd/profiles"),
        )
    }

    /// The configuration.
    pub fn config(&self) -> (r: &DaemonConfig)
        ensures
            *r == self.config,
    {
        &self.config
    }

    /// The macro table.
    pub fn macros(&self) -> (r: &StrMap<MacroEntry>)
        ensures
            *r == self.macros,
    {
        &self.macros
    }

    /// A copy of the profile recorded under `name`.
    pub fn get_profile(&self, name: &str) -> (r: Option<Profile>)
        requires
            self.wf(),
        ensures
            r matches Some(p) ==> self.profiles.view().contains_key(name@) && profile_copy_of(
                p,
                self.profiles.view()[name@],
            ),
            r is None <==> !self.profiles.view().contains_key(name@),
    {
        match self.profiles.get(name) {
            Some(p) => Some(p.clone()),
            None => None,
        }
    }

    /// A copy of the table of recorded profiles.
    pub fn get_profiles(&self) -> (r: StrMap<Profile>)
        requires
            self.wf(),
        ensures
            r.wf(),
            r.keys() == self.profiles.keys(),
            r.vals().len() == self.profiles.vals().len(),
            forall|j: int| 0 <= j < r.vals().len() ==> profile_copy_of(#[trigger] r.vals()[j], self.profiles.vals()[j]),
    {
        let r = self.profiles.duplicate();
        proof {
            assert forall|j: int| 0 <= j < r.vals().len() implies profile_copy_of(#[trigger] r.vals()[j], self.profiles.vals()[j]) by {
                assert(cloned::<Profile>(self.profiles.vals()[j], r.vals()[j]));
            }
        }
        r
    }

    /// Where the profile `name` is stored.
    pub fn profile_path(&self, name: &str) -> (r: String)
        ensures
            r@ == join_path(self.profiles_dir@, profile_file_name(name@)),
    {
        profile_path(self.profiles_dir.as_str(), name)
    }

    /// Replaces the macro table with the one read from the YAML file or the cache.
    pub fn set_macros(&mut self, macros: StrMap<MacroEntry>)
        requires
            macros.wf(),
            old(self).wf(),
        ensures
            final(self).wf(),
            final(self).macros == macros,
            final(self).profiles == old(self).profiles,
    {
        self.macros = macros;
    }

    /// A profile named `name` holding copies of the current macros.
    pub fn current_macros_as_profile(&self, name: &str) -> (p: Profile)
        requires
            self.wf(),
        ensures
            p.name@ == name@,
            p.macros.wf(),
            p.macros.keys() == self.macros.keys(),
            p.macros.vals().len() == self.macros.vals().len(),
            forall|j: int| 0 <= j < p.macros.vals().len() ==> #[trigger] p.macros.vals()[j]@ == self.macros.vals()[j]@,
    {
        let copy = self.macros.duplicate();
        proof {
            assert forall|j: int| 0 <= j < copy.vals().len() implies #[trigger] copy.vals()[j]@ == self.macros.vals()[j]@ by {
                assert(cloned::<MacroEntry>(self.macros.vals()[j], copy.vals()[j]));
            }
        }
        Profile { name: owned(name), macros: copy }
    }

    /// Records a profile that was saved.
    pub fn record_saved_profile(&mut self, profile: Profile)
        requires
            old(self).wf(),
        ensures
            final(self).wf(),
            final(self).profiles.view() == old(self).profiles.view().insert(profile.name@, profile),
            final(self).macros == old(self).macros,
    {
        let key = profile.name.clone();
        self.profiles.insert(key, profile);
    }

    /// Records a profile that was loaded under the name `name` and adds its
    /// macros to the current ones, replacing those of the same key.
    pub fn apply_loaded_profile(&mut self, name: &str, profile: Profile) -> (macros_count: usize)
        requires
            old(self).wf(),
            profile.macros.wf(),
        ensures
            final(self).wf(),
            macros_count == profile.macros.keys().len(),
            final(self).profiles.view() == old(self).profiles.view().insert(name@, profile),
            macro_map_view(final(self).macros) == macro_map_view(old(self).macros).union_prefer_right(
                macro_map_view(profile.macros),
            ),
    {
        let ghost loaded = profile.macros;
        let n = profile.macros.len();
        proof {
            loaded.lemma_shape();
        }
        let mut i: usize = 0;
        while i < n
            invariant
                self.wf(),
                loaded == profile.macros,
                loaded.wf(),
                n == loaded.keys().len(),
                loaded.vals().len() == n,
                i <= n,
                self.profiles == old(self).profiles,
                forall|k: Seq<char>|
                    #[trigger] self.macros.view().contains_key(k) <==> (old(self).macros.view().contains_key(k)
                        || exists|j: int| 0 <= j < i && loaded.keys()[j] == k),
                forall|k: Seq<char>|
                    #[trigger] self.macros.view().contains_key(k) ==> self.macros.view()[k]@ == if exists|j: int|
                        0 <= j < i && loaded.keys()[j] == k {
                        loaded.view()[k]@
                    } else {
                        old(self).macros.view()[k]@
                    },
            decreases n - i,
        {
            let key = profile.macros.key_at(i).clone();
            let value = profile.macros.value_at(i).clone();
            let ghost k_i = loaded.keys()[i as int];
            let ghost v_i = loaded.vals()[i as int];
            proof {
                assert(loaded.view()[loaded.keys()[i as int]] == loaded.vals()[i as int]);
            }
            let ghost before = self.macros.view();
            self.macros.insert(key, value);
            proof {
                assert forall|k: Seq<char>| #[trigger] self.macros.view().contains_key(k) <==> (old(self).macros.view().contains_key(k)
                    || exists|j: int| 0 <= j < i + 1 && loaded.keys()[j] == k) by {
                    if k == k_i {
                        assert(loaded.keys()[i as int] == k);
                    }
                    if exists|j: int| 0 <= j < i + 1 && loaded.keys()[j] == k {
                        let j = choose|j: int| 0 <= j < i + 1 && loaded.keys()[j] == k;
                        if j < i {
                            assert(exists|j2: int| 0 <= j2 < i && loaded.keys()[j2] == k);
                        }
                    }
                }
                assert forall|k: Seq<char>| #[trigger] self.macros.view().contains_key(k) implies self.macros.view()[k]@
                    == if exists|j: int| 0 <= j < i + 1 && loaded.keys()[j] == k {
                    loaded.view()[k]@
                } else {
                    old(self).macros.view()[k]@
                } by {
                    if k == k_i {
                        assert(loaded.keys()[i as int] == k);
                    } else {
                        if exists|j: int| 0 <= j < i + 1 && loaded.keys()[j] == k {
                            let j = choose|j: int| 0 <= j < i + 1 && loaded.keys()[j] == k;
                            assert(j != i);
                            assert(exists|j2: int| 0 <= j2 < i && loaded.keys()[j2] == k);
                        } else {
                            assert(!exists|j2: int| 0 <= j2 < i && loaded.keys()[j2] == k);
                        }
                    }
                }
            }
            i = i + 1;
        }
        proof {
            assert forall|k: Seq<char>| loaded.view().contains_key(k) <==> exists|j: int|
                0 <= j < n && loaded.keys()[j] == k by {
                if loaded.view().contains_key(k) {
                    let j = loaded.keys().index_of(k);
                    assert(loaded.keys()[j] == k);
                }
            }
            assert(macro_map_view(self.macros) =~= macro_map_view(old(self).macros).union_prefer_right(
                macro_map_view(loaded),
            ));
        }
        let pname = owned(name);
        self.profiles.insert(pname, profile);
        n
    }

    /// Forgets the profile named `name`.
    pub fn forget_profile(&mut self, name: &str)
        requires
            old(self).wf(),
        ensures
            final(self).wf(),
            final(self).profiles.view() == old(self).profiles.view().remove(name@),
            final(self).macros == old(self).macros,
    {
        self.profiles.remove(name);
    }
}

/// Loading back a profile that holds copies of the current macros leaves the
/// current macros as they were.
pub proof fn lemma_reload_saved_profile(current: StrMap<MacroEntry>, saved: StrMap<MacroEntry>)
    requires
        current.wf(),
        saved.keys() == current.keys(),
        saved.vals().len() == current.vals().len(),
        forall|j: int| 0 <= j < saved.vals().len() ==> #[trigger] saved.vals()[j]@ == current.vals()[j]@,
    ensures
        macro_map_view(current).union_prefer_right(macro_map_view(saved)) == macro_map_view(current),
{
    current.lemma_shape();
    saved.lemma_shape();
    assert forall|k: Seq<char>| #[trigger] macro_map_view(saved).contains_key(k) implies macro_map_view(saved)[k]
        == macro_map_view(current)[k] by {
        let j = saved.keys().index_of(k);
        assert(saved.view()[saved.keys()[j]] == saved.vals()[j]);
        assert(current.view()[current.keys()[j]] == current.vals()[j]);
    }
    assert(macro_map_view(current).union_prefer_right(macro_map_view(saved)) =~= macro_map_view(current));
}

} // verus!
