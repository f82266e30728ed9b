//! Input devices: the table of discovered devices and which of them are
//! grabbed, how discovery results are merged, how Razer devices are read from
//! their sysfs entries, how raw events become key events, and key names.
//!
//! Opening devices and reading sysfs is the caller's work; this module
//! decides what the results mean.
use vstd::prelude::*;
use crate::protocol::{DeviceInfo, DeviceInfoV, copy_devices};
use crate::strmap::StrMap;
use crate::text::{owned, str_eq, contains_str, contains_seq, starts_with, has_prefix, concat2, parse_hex_u16, parse_hex_u16_spec, trim, trim_spec};

verus! {

/// Razer's USB vendor id.
pub const RAZER_VENDOR_ID: u16 = 0x1532;

/// The key event that a raw input event carries, if it is one (evdev's
/// `InputEvent::kind`, which is `Key` exactly for events of type `EV_KEY`, 1).
#[verifier::external_body]
fn evdev_key_code(event_type: u16, code: u16, value: i32) -> (r: Option<u16>)
    ensures
        event_type == 1 ==> r == Some(code),
        event_type != 1 ==> r is None,
{
    let event = evdev::InputEvent::new(evdev::EventType(event_type), code, value);
    match event.kind() {
        evdev::InputEventKind::Key(key) => Some(key.0),
        _ => None,
    }
}

/// A key event read from a device: the key code and whether the key went
/// down (value 1); events of other kinds give nothing.
pub fn key_event(event_type: u16, code: u16, value: i32) -> (r: Option<(u16, bool)>)
    ensures
        event_type == 1 ==> r == Some((code, value == 1)),
        event_type != 1 ==> r is None,
{
    match evdev_key_code(event_type, code, value) {
        Some(k) => Some((k, value == 1)),
        None => None,
    }
}

/// The discovered devices, keyed by path, and the paths of the grabbed ones.
pub struct DeviceRegistry {
    devices: StrMap<DeviceInfo>,
    grabbed: StrMap<()>,
}

/// What grabbing a device calls for.
#[derive(Debug)]
pub enum GrabDecision {
    /// The device is grabbed already; nothing to do.
    AlreadyGrabbed,
    /// No device has that path.
    NotFound(String),
    /// Open and grab the device described here, then record the grab.
    Proceed(DeviceInfo),
}

impl GrabDecision {
    /// The message of a refusal: `Device not found: <path>`.
    pub fn message(&self) -> (r: Option<String>)
        ensures
            self matches GrabDecision::NotFound(p) ==> (r matches Some(m) && m@ == "Device not found: "@ + p@),
            !(self is NotFound) ==> r is None,
    {
        match self {
            GrabDecision::NotFound(p) => Some(concat2("Device not found: ", p.as_str())),
            _ => None,
        }
    }
}

impl DeviceRegistry {
    /// The devices by path.
    pub closed spec fn devices_spec(&self) -> StrMap<DeviceInfo> {
        self.devices
    }

    /// The grabbed paths.
    pub closed spec fn grabbed_spec(&self) -> Set<Seq<char>> {
        self.grabbed.view().dom()
    }

    /// The table's invariant.
    pub open spec fn wf(&self) -> bool {
        self.devices_spec().wf() && self.grabbed_wf()
    }

    /// The grabbed paths are kept without repeats.
    pub closed spec fn grabbed_wf(&self) -> bool {
        self.grabbed.wf()
    }

    /// An empty table.
    pub fn new() -> (r: Self)
        ensures
            r.wf(),
            r.devices_spec().view() == Map::<Seq<char>, DeviceInfo>::empty(),
            r.grabbed_spec() == Set::<Seq<char>>::empty(),
    {
        let r = DeviceRegistry { devices: StrMap::new(), grabbed: StrMap::new() };
        assert(r.grabbed_spec() =~= Set::<Seq<char>>::empty());
        r
    }

    /// Adds discovered devices under their paths; a later device replaces an
    /// earlier one of the same path.
    pub fn add_discovered(&mut self, found: Vec<DeviceInfo>)
        requires
            old(self).wf(),
        ensures
            final(self).wf(),
            final(self).grabbed_spec() == old(self).grabbed_spec(),
            device_table(final(self).devices_spec().view()) == with_discovered(
                device_table(old(self).devices_spec().view()),
                found.deep_view(),
            ),
            forall|p: Seq<char>|
                #[trigger] final(self).devices_spec().view().contains_key(p) <==> (old(
                    self,
                ).devices_spec().view().contains_key(p) || exists|j: int|
                    0 <= j < found@.len() && found@[j].path@ == p),
    {
        let mut found = found;
        let n = found.len();
        let ghost f = found@;
        let ghost fv = found.deep_view();
        let ghost start = device_table(self.devices_spec().view());
        let mut i: usize = 0;
        while i < n
            invariant
                self.wf(),
                self.grabbed_spec() == old(self).grabbed_spec(),
                n == f.len(),
                fv == f.map_values(|d: DeviceInfo| d@),
                start == device_table(old(self).devices_spec().view()),
                i <= n,
                found@ == f.subrange(i as int, n as int),
                device_table(self.devices_spec().view()) == with_discovered(start, fv.subrange(0, i as int)),
                forall|p: Seq<char>|
                    #[trigger] self.devices_spec().view().contains_key(p) <==> (old(
                        self,
                    ).devices_spec().view().contains_key(p) || exists|j: int| 0 <= j < i && f[j].path@ == p),
            decreases n - i,
        {
            let d = found.remove(0);
            assert(d == f[i as int]);
            let key = d.path.clone();
            let ghost before = self.devices_spec().view();
            let ghost dv = d@;
            self.devices.insert(key, d);
            proof {
                assert(fv.subrange(0, i + 1).drop_last() =~= fv.subrange(0, i as int));
                assert(fv.subrange(0, i + 1).last() == dv);
                assert(device_table(self.devices_spec().view()) =~= device_table(before).insert(dv.path, dv));
                assert forall|p: Seq<char>| #[trigger] self.devices_spec().view().contains_key(p) <==> (old(
                    self,
                ).devices_spec().view().contains_key(p) || exists|j: int| 0 <= j < i + 1 && f[j].path@ == p) by {
                    if p == f[i as int].path@ {
                        assert(f[i as int].path@ == p);
                    }
                    if exists|j: int| 0 <= j < i + 1 && f[j].path@ == p {
                        let j = choose|j: int| 0 <= j < i + 1 && f[j].path@ == p;
                        if j < i {
                            assert(exists|j2: int| 0 <= j2 < i && f[j2].path@ == p);
                        }
                    }
                }
            }
            i = i + 1;
            assert(found@ =~= f.subrange(i as int, n as int));
        }
        assert(fv.subrange(0, n as int) =~= fv);
    }

    /// Copies of the discovered devices, in the order they were first added.
    pub fn get_devices(&self) -> (r: Vec<DeviceInfo>)
        ensures
            r@.len() == self.devices_spec().vals().len(),
            forall|j: int| 0 <= j < r@.len() ==> #[trigger] r@[j]@ == self.devices_spec().vals()[j]@,
    {
        let n = self.devices.key_list().len();
        proof {
            self.devices.lemma_lens();
        }
        let mut out: Vec<DeviceInfo> = Vec::new();
        let mut i: usize = 0;
        while i < n
            invariant
                n == self.devices.keys().len(),
                self.devices.vals().len() == n,
                i <= n,
                out@.len() == i,
                forall|j: int| 0 <= j < i ==> #[trigger] out@[j]@ == self.devices_spec().vals()[j]@,
            decreases n - i,
        {
            out.push(self.devices.value_at(i).clone());
            i = i + 1;
        }
        out
    }

    /// A copy of the device at `path`.
    pub fn get_device(&self, path: &str) -> (r: Option<DeviceInfo>)
        requires
            self.wf(),
        ensures
            r matches Some(d) ==> self.devices_spec().view().contains_key(path@) && d@
                == self.devices_spec().view()[path@]@,
            r is None <==> !self.devices_spec().view().contains_key(path@),
    {
        match self.devices.get(path) {
            Some(d) => Some(d.clone()),
            None => None,
        }
    }

    /// Whether the device at `path` is grabbed.
    pub fn is_grabbed(&self, path: &str) -> (r: bool)
        ensures
            r == self.grabbed_spec().contains(path@),
    {
        self.grabbed.contains_key(path)
    }

    /// What grabbing the device at `path` calls for: nothing when it is
    /// grabbed; a refusal when no device has that path; otherwise the device.
    pub fn grab_device(&self, path: &str) -> (r: GrabDecision)
        requires
            self.wf(),
        ensures
            self.grabbed_spec().contains(path@) ==> r is AlreadyGrabbed,
            !self.grabbed_spec().contains(path@) && !self.devices_spec().view().contains_key(path@) ==> (r matches GrabDecision::NotFound(
                p,
            ) && p@ == path@),
            !self.grabbed_spec().contains(path@) && self.devices_spec().view().contains_key(path@) ==> (r matches GrabDecision::Proceed(
                d,
            ) && d@ == self.devices_spec().view()[path@]@),
    {
        if self.grabbed.contains_key(path) {
            return GrabDecision::AlreadyGrabbed;
        }
        match self.devices.get(path) {
            Some(d) => GrabDecision::Proceed(d.clone()),
            None => GrabDecision::NotFound(owned(path)),
        }
    }

    /// Records that the device at `path` is grabbed.
    pub fn mark_grabbed(&mut self, path: String)
        requires
            old(self).wf(),
        ensures
            final(self).wf(),
            final(self).grabbed_spec() == old(self).grabbed_spec().insert(path@),
            final(self).devices_spec() == old(self).devices_spec(),
    {
        self.grabbed.insert(path, ());
        assert(self.grabbed_spec() =~= old(self).grabbed_spec().insert(path@));
    }

    /// Forgets the grab of the device at `path`; returns whether it was grabbed.
    pub fn ungrab_device(&mut self, path: &str) -> (r: bool)
        requires
            old(self).wf(),
        ensures
            final(self).wf(),
            r == old(self).grabbed_spec().contains(path@),
            final(self).grabbed_spec() == old(self).grabbed_spec().remove(path@),
            final(self).devices_spec() == old(self).devices_spec(),
    {
        let r = self.grabbed.remove(path);
        assert(self.grabbed_spec() =~= old(self).grabbed_spec().remove(path@));
        r.is_some()
    }

    /// The paths of the grabbed devices.
    pub fn grabbed_paths(&self) -> (r: Vec<String>)
        requires
            self.wf(),
        ensures
            r@.len() == self.grabbed_spec().len(),
            forall|j: int| 0 <= j < r@.len() ==> self.grabbed_spec().contains(#[trigger] r@[j]@),
            forall|p: Seq<char>|
                #[trigger] self.grabbed_spec().contains(p) ==> exists|j: int| 0 <= j < r@.len() && r@[j]@ == p,
    {
        proof {
            self.grabbed.lemma_shape();
        }
        let r = self.grabbed.key_list();
        proof {
            assert forall|j: int| 0 <= j < r@.len() implies self.grabbed_spec().contains(#[trigger] r@[j]@) by {
                assert(self.grabbed.keys().to_set().contains(self.grabbed.keys()[j]));
            }
            assert forall|p: Seq<char>| #[trigger] self.grabbed_spec().contains(p) implies exists|j: int|
                0 <= j < r@.len() && r@[j]@ == p by {
                assert(self.grabbed.keys().to_set().contains(p));
                let j = self.grabbed.keys().index_of(p);
                assert(r@[j]@ == self.grabbed.keys()[j]);
            }
        }
        r
    }
}

/// The models of a table of devices, by path.
pub open spec fn device_table(m: Map<Seq<char>, DeviceInfo>) -> Map<Seq<char>, DeviceInfoV> {
    m.map_values(|d: DeviceInfo| d@)
}

/// `table` after storing each of the `found` devices in turn under its path:
/// a device replaces whatever was stored under its path, so for each path the
/// last device found with it is kept.
pub open spec fn with_discovered(
    table: Map<Seq<char>, DeviceInfoV>,
    found: Seq<DeviceInfoV>,
) -> Map<Seq<char>, DeviceInfoV>
    decreases found.len(),
{
    if found.len() == 0 {
        table
    } else {
        with_discovered(table, found.drop_last()).insert(found.last().path, found.last())
    }
}

/// After a scan, the device stored under a path that the scan found is the
/// last device found with that path.
pub proof fn lemma_with_discovered_last(
    table: Map<Seq<char>, DeviceInfoV>,
    found: Seq<DeviceInfoV>,
    p: Seq<char>,
    j: int,
)
    requires
        0 <= j < found.len(),
        found[j].path == p,
        forall|k: int| j < k < found.len() ==> found[k].path != p,
    ensures
        with_discovered(table, found).contains_key(p),
        with_discovered(table, found)[p] == found[j],
    decreases found.len(),
{
    if j < found.len() - 1 {
        let rest = found.drop_last();
        assert forall|k: int| j < k < rest.len() implies rest[k].path != p by {
            assert(rest[k] == found[k]);
        }
        lemma_with_discovered_last(table, rest, p, j);
    }
}

/// After a scan, a path that the scan did not find keeps what was stored under it.
pub proof fn lemma_with_discovered_untouched(
    table: Map<Seq<char>, DeviceInfoV>,
    found: Seq<DeviceInfoV>,
    p: Seq<char>,
)
    requires
        forall|k: int| 0 <= k < found.len() ==> found[k].path != p,
    ensures
        with_discovered(table, found).contains_key(p) == table.contains_key(p),
        table.contains_key(p) ==> with_discovered(table, found)[p] == table[p],
    decreases found.len(),
{
    if found.len() > 0 {
        let rest = found.drop_last();
        assert forall|k: int| 0 <= k < rest.len() implies rest[k].path != p by {
            assert(rest[k] == found[k]);
        }
        lemma_with_discovered_untouched(table, rest, p);
    }
}

/// Whether a list of devices holds one with path `p`.
pub open spec fn has_path(devices: Seq<DeviceInfo>, p: Seq<char>) -> bool {
    exists|j: int| 0 <= j < devices.len() && #[trigger] devices[j].path@ == p
}

/// The devices of a scan: the Razer devices found through sysfs, then each
/// event device whose path is not listed yet.
pub open spec fn merged_devices(razer: Seq<DeviceInfoV>, events: Seq<DeviceInfoV>) -> Seq<DeviceInfoV>
    decreases events.len(),
{
    if events.len() == 0 {
        razer
    } else {
        let before = merged_devices(razer, events.drop_last());
        if exists|j: int| 0 <= j < before.len() && #[trigger] before[j].path == events.last().path {
            before
        } else {
            before.push(events.last())
        }
    }
}

/// Merges the devices of a scan: the Razer devices first, then the event
/// devices whose path is not listed yet.
pub fn merge_discovered(razer: Vec<DeviceInfo>, events: Vec<DeviceInfo>) -> (r: Vec<DeviceInfo>)
    ensures
        r.deep_view() == merged_devices(razer.deep_view(), events.deep_view()),
{
    let mut out = razer;
    let ghost rz = out.deep_view();
    let ghost ev = events.deep_view();
    let n = events.len();
    let mut i: usize = 0;
    while i < n
        invariant
            n == events@.len(),
            ev == events.deep_view(),
            i <= n,
            out.deep_view() == merged_devices(rz, ev.subrange(0, i as int)),
        decreases n - i,
    {
        let d = &events[i];
        let m = out.len();
        let mut present = false;
        let mut k: usize = 0;
        while k < m
            invariant
                m == out@.len(),
                k <= m,
                present == exists|j: int| 0 <= j < k && #[trigger] out@[j].path@ == d.path@,
            decreases m - k,
        {
            if str_eq(out[k].path.as_str(), d.path.as_str()) {
                present = true;
            }
            k = k + 1;
        }
        let ghost before = out.deep_view();
        assert(ev.subrange(0, i + 1).drop_last() =~= ev.subrange(0, i as int));
        assert(ev.subrange(0, i + 1).last() == d@);
        assert(present == exists|j: int| 0 <= j < before.len() && #[trigger] before[j].path == d@.path) by {
            if present {
                let j = choose|j: int| 0 <= j < m && #[trigger] out@[j].path@ == d.path@;
                assert(before[j].path == d@.path);
            }
            if exists|j: int| 0 <= j < before.len() && #[trigger] before[j].path == d@.path {
                let j = choose|j: int| 0 <= j < before.len() && #[trigger] before[j].path == d@.path;
                assert(out@[j].path@ == d.path@);
            }
        }
        if !present {
            out.push(d.clone());
            assert(out.deep_view() =~= before.push(d@));
        }
        i = i + 1;
    }
    assert(ev.subrange(0, n as int) =~= ev);
    out
}

/// Whether a file in `/dev/input` is an event device (its name starts with `event`).
pub fn is_event_device_name(name: &str) -> (r: bool)
    ensures
        r == has_prefix(name@, "event"@),
{
    starts_with(name, "event")
}

/// Whether a sysfs directory of a HID driver belongs to a Razer device: its
/// name (`XXXX:1532:YYYY.ZZZZ`) holds `:1532:`.
pub fn is_razer_sysfs_entry(name: &str) -> (r: bool)
    ensures
        r == contains_seq(name@, ":1532:"@),
{
    contains_str(name, ":1532:")
}

// ---------------------------------------------------------------------
// Razer sysfs entries
// ---------------------------------------------------------------------

/// The pieces of `s` between the characters `sep`, in order (`str::split`
/// with a character pattern; an empty `s` gives one empty piece).
pub open spec fn split_on(s: Seq<char>, sep: char) -> Seq<Seq<char>>
    decreases s.len(),
{
    if s.len() == 0 {
        seq![Seq::empty()]
    } else {
        let rest = split_on(s.drop_last(), sep);
        if s.last() == sep {
            rest.push(Seq::empty())
        } else {
            rest.update(rest.len() - 1, rest.last().push(s.last()))
        }
    }
}

proof fn lemma_split_on_nonempty(s: Seq<char>, sep: char)
    ensures
        split_on(s, sep).len() >= 1,
    decreases s.len(),
{
    if s.len() > 0 {
        lemma_split_on_nonempty(s.drop_last(), sep);
    }
}

/// Splits `s` at each `sep`.
pub fn split_on_char(s: &str, sep: char) -> (r: Vec<String>)
    ensures
        r@.len() == split_on(s@, sep).len(),
        forall|k: int| 0 <= k < r@.len() ==> #[trigger] r@[k]@ == split_on(s@, sep)[k],
{
    let n = s.unicode_len();
    let mut out: Vec<String> = Vec::new();
    let mut cur = String::new();
    let mut i: usize = 0;
    assert(s@.subrange(0, 0) =~= Seq::<char>::empty());
    while i < n
        invariant
            n == s@.len(),
            i <= n,
            out@.len() + 1 == split_on(s@.subrange(0, i as int), sep).len(),
            forall|k: int| 0 <= k < out@.len() ==> #[trigger] out@[k]@ == split_on(
                s@.subrange(0, i as int),
                sep,
            )[k],
            cur@ == split_on(s@.subrange(0, i as int), sep).last(),
        decreases n - i,
    {
        let c = s.get_char(i);
        let ghost pre = s@.subrange(0, i as int);
        let ghost next = s@.subrange(0, i + 1);
        assert(next.drop_last() =~= pre);
        assert(next.last() == c);
        proof {
            lemma_split_on_nonempty(pre, sep);
        }
        if c == sep {
            let done = cur;
            out.push(done);
            cur = String::new();
        } else {
            crate::text::push_char(&mut cur, c);
        }
        i = i + 1;
    }
    assert(s@.subrange(0, n as int) =~= s@);
    out.push(cur);
    out
}

/// The vendor and product ids that a Razer sysfs directory name gives: with
/// at least three `:`-separated parts, Razer's vendor id and the product id
/// written in hexadecimal before the first `.` of the third part (0 when it
/// does not parse); otherwise Razer's vendor id and product id 0.
pub open spec fn razer_ids_spec(dir_name: Seq<char>) -> (u16, u16) {
    let parts = split_on(dir_name, ':');
    if parts.len() >= 3 {
        let pid_part = split_on(parts[2], '.')[0];
        (
            RAZER_VENDOR_ID,
            match parse_hex_u16_spec(pid_part) {
                Some(v) => v,
                None => 0,
            },
        )
    } else {
        (RAZER_VENDOR_ID, 0)
    }
}

/// Reads the vendor and product ids from a Razer sysfs directory name.
pub fn parse_razer_ids(dir_name: &str) -> (r: (u16, u16))
    ensures
        r == razer_ids_spec(dir_name@),
{
    let parts = split_on_char(dir_name, ':');
    if parts.len() >= 3 {
        let sub = split_on_char(parts[2].as_str(), '.');
        proof {
            lemma_split_on_nonempty(parts@[2]@, '.');
        }
        let pid = match parse_hex_u16(sub[0].as_str()) {
            Some(v) => v,
            None => 0,
        };
        (RAZER_VENDOR_ID, pid)
    } else {
        (RAZER_VENDOR_ID, 0)
    }
}

/// What reading a device's `device_type` file gave.
#[derive(Debug)]
pub enum DeviceTypeFile {
    /// There is no such file.
    Missing,
    /// The file exists but could not be read.
    Unreadable,
    /// The file's content.
    Content(String),
}

/// The name of a Razer device: its `device_type` file trimmed; `Unknown
/// Razer Device` when the file cannot be read; `Razer Device` when there is none.
pub fn razer_device_name(file: DeviceTypeFile) -> (r: String)
    ensures
        file is Missing ==> r@ == "Razer Device"@,
        file is Unreadable ==> r@ == trim_spec("Unknown Razer Device"@),
        file matches DeviceTypeFile::Content(c) ==> r@ == trim_spec(c@),
{
    match file {
        DeviceTypeFile::Missing => owned("Razer Device"),
        DeviceTypeFile::Unreadable => trim("Unknown Razer Device"),
        DeviceTypeFile::Content(c) => trim(c.as_str()),
    }
}

/// `s` with every occurrence of `pat` replaced by `rep`, matched from the left
/// without overlaps (`str::replace`).
pub open spec fn replace_spec(s: Seq<char>, pat: Seq<char>, rep: Seq<char>) -> Seq<char>
    recommends
        pat.len() > 0,
    decreases s.len(),
{
    if pat.len() == 0 || s.len() < pat.len() {
        s
    } else if s.subrange(0, pat.len() as int) == pat {
        rep + replace_spec(s.skip(pat.len() as int), pat, rep)
    } else {
        seq![s[0]] + replace_spec(s.drop_first(), pat, rep)
    }
}

/// The device node of an `eventN` directory of sysfs: `/dev/input/event`
/// followed by the directory name with every `event` removed.
pub fn event_device_path(event_name: &str) -> (r: String)
    ensures
        r@ == "/dev/input/event"@ + replace_spec(event_name@, "event"@, Seq::empty()),
{
    let n = event_name.unicode_len();
    let pat = "event";
    proof {
        reveal_strlit("event");
    }
    let mut out = owned("/dev/input/event");
    let ghost prefix = out@;
    let mut i: usize = 0;
    assert(event_name@.subrange(0, n as int) =~= event_name@);
    while i < n
        invariant
            n == event_name@.len(),
            pat@ == "event"@,
            pat@.len() == 5,
            i <= n,
            prefix == "/dev/input/event"@,
            prefix + replace_spec(event_name@, pat@, Seq::empty()) == out@ + replace_spec(
                event_name@.subrange(i as int, n as int),
                pat@,
                Seq::empty(),
            ),
        decreases n - i,
    {
        let ghost rest = event_name@.subrange(i as int, n as int);
        if n - i >= 5 && starts_with_at(event_name, n, i) {
            assert(rest.subrange(0, 5) =~= event_name@.subrange(i as int, i + 5));
            assert(rest.skip(5) =~= event_name@.subrange(i + 5, n as int));
            assert(Seq::<char>::empty() + replace_spec(rest.skip(5), pat@, Seq::empty()) =~= replace_spec(
                rest.skip(5),
                pat@,
                Seq::empty(),
            ));
            i = i + 5;
        } else {
            let c = event_name.get_char(i);
            proof {
                if rest.len() >= 5 {
                    assert(rest.subrange(0, 5) =~= event_name@.subrange(i as int, i + 5));
                }
                assert(rest.drop_first() =~= event_name@.subrange(i + 1, n as int));
            }
            let ghost before = out@;
            crate::text::push_char(&mut out, c);
            assert(before + (seq![c] + replace_spec(rest.drop_first(), pat@, Seq::empty())) =~= out@
                + replace_spec(rest.drop_first(), pat@, Seq::empty()));
            i = i + 1;
        }
    }
    assert(event_name@.subrange(n as int, n as int) =~= Seq::<char>::empty());
    assert(out@ + Seq::<char>::empty() =~= out@);
    out
}

/// Whether `event` stands in `s` at index `i`.
fn starts_with_at(s: &str, n: usize, i: usize) -> (r: bool)
    requires
        n == s@.len(),
        i + 5 <= n,
    ensures
        r == (s@.subrange(i as int, i + 5) == "event"@),
{
    proof {
        reveal_strlit("event");
    }
    let r = s.get_char(i) == 'e' && s.get_char(i + 1) == 'v' && s.get_char(i + 2) == 'e' && s.get_char(
        i + 3,
    ) == 'n' && s.get_char(i + 4) == 't';
    proof {
        let sub = s@.subrange(i as int, i + 5);
        if r {
            assert(sub =~= "event"@);
        } else if sub == "event"@ {
            assert(sub[0] == s@[i as int]);
            assert(sub[1] == s@[i + 1]);
            assert(sub[2] == s@[i + 2]);
            assert(sub[3] == s@[i + 3]);
            assert(sub[4] == s@[i + 4]);
        }
    }
    r
}

/// A stand-in device of the given type: `Fallback <type>` at
/// `/dev/input/event0` for a keyboard and `/dev/input/event1` otherwise.
pub fn create_fallback_device(device_type: &str) -> (d: DeviceInfo)
    ensures
        d.name@ == "Fallback "@ + device_type@,
        d.path@ == if device_type@ == "keyboard"@ {
            "/dev/input/event0"@
        } else {
            "/dev/input/event1"@
        },
        d.vendor_id == RAZER_VENDOR_ID,
        d.product_id == 0x0220,
        d.phys@ == "fallback-device"@,
{
    let path = if str_eq(device_type, "keyboard") {
        owned("/dev/input/event0")
    } else {
        owned("/dev/input/event1")
    };
    DeviceInfo {
        name: concat2("Fallback ", device_type),
        path,
        vendor_id: RAZER_VENDOR_ID,
        product_id: 0x0220,
        phys: owned("fallback-device"),
    }
}

/// The Unix group id of a group name, for the groups the daemon knows.
pub fn get_group_gid(group_name: &str) -> (r: Option<u32>)
    ensures
        group_name@ == "root"@ ==> r == Some(0u32),
        group_name@ == "input"@ ==> r == Some(1001u32),
        group_name@ != "root"@ && group_name@ != "input"@ ==> r is None,
{
    proof {
        reveal_strlit("root");
        reveal_strlit("input");
        assert("input"@.len() != "root"@.len());
    }
    if str_eq(group_name, "root") {
        Some(0)
    } else if str_eq(group_name, "input") {
        Some(1001)
    } else {
        None
    }
}

/// Where the daemon's socket is created (systemd's runtime directory).
pub fn determine_socket_path() -> (r: String)
    ensures
        r@ == "/run/razermapper/razermapper.sock"@,
{
    owned("/run/razermapper/razermapper.sock")
}

/// The name of a Linux key code, as the grab tool prints it.
pub open spec fn key_name(code: u16) -> Seq<char> {
    if code == 1 { "ESC"@ }
    else if code == 2 { "1"@ }
    else if code == 3 { "2"@ }
    else if code == 4 { "3"@ }
    else if code == 5 { "4"@ }
    else if code == 6 { "5"@ }
    else if code == 7 { "6"@ }
    else if code == 8 { "7"@ }
    else if code == 9 { "8"@ }
    else if code == 10 { "9"@ }
    else if code == 11 { "0"@ }
    else if code == 12 { "MINUS"@ }
    else if code == 13 { "EQUAL"@ }
    else if code == 14 { "BACKSPACE"@ }
    else if code == 15 { "TAB"@ }
    else if code == 16 { "Q"@ }
    else if code == 17 { "W"@ }
    else if code == 18 { "E"@ }
    else if code == 19 { "R"@ }
    else if code == 20 { "T"@ }
    else if code == 21 { "Y"@ }
    else if code == 22 { "U"@ }
    else if code == 23 { "I"@ }
    else if code == 24 { "O"@ }
    else if code == 25 { "P"@ }
    else if code == 26 { "LEFTBRACE"@ }
    else if code == 27 { "RIGHTBRACE"@ }
    else if code == 28 { "ENTER"@ }
    else if code == 29 { "LEFTCTRL"@ }
    else if code == 30 { "A"@ }
    else if code == 31 { "S"@ }
    else if code == 32 { "D"@ }
    else if code == 33 { "F"@ }
    else if code == 34 { "G"@ }
    else if code == 35 { "H"@ }
    else if code == 36 { "J"@ }
    else if code == 37 { "K"@ }
    else if code == 38 { "L"@ }
    else if code == 39 { "SEMICOLON"@ }
    else if code == 40 { "APOSTROPHE"@ }
    else if code == 41 { "GRAVE"@ }
    else if code == 42 { "LEFTSHIFT"@ }
    else if code == 43 { "BACKSLASH"@ }
    else if code == 44 { "Z"@ }
    else if code == 45 { "X"@ }
    else if code == 46 { "C"@ }
    else if code == 47 { "V"@ }
    else if code == 48 { "B"@ }
    else if code == 49 { "N"@ }
    else if code == 50 { "M"@ }
    else if code == 51 { "COMMA"@ }
    else if code == 52 { "DOT"@ }
    else if code == 53 { "SLASH"@ }
    else if code == 54 { "RIGHTSHIFT"@ }
    else if code == 55 { "KPASTERISK"@ }
    else if code == 56 { "LEFTALT"@ }
    else if code == 57 { "SPACE"@ }
    else if code == 58 { "CAPSLOCK"@ }
    else if 59 <= code && code <= 68 { "F1-F10"@ }
    else if code == 87 { "F11"@ }
    else if code == 88 { "F12"@ }
    else if code == 96 { "KPENTER"@ }
    else if code == 97 { "RIGHTCTRL"@ }
    else if code == 100 { "RIGHTALT"@ }
    else if code == 102 { "HOME"@ }
    else if code == 103 { "UP"@ }
    else if code == 104 { "PAGEUP"@ }
    else if code == 105 { "LEFT"@ }
    else if code == 106 { "RIGHT"@ }
    else if code == 107 { "END"@ }
    else if code == 108 { "DOWN"@ }
    else if code == 109 { "PAGEDOWN"@ }
    else if code == 110 { "INSERT"@ }
    else if code == 111 { "DELETE"@ }
    else if code == 125 { "LEFTMETA"@ }
    else if code == 126 { "RIGHTMETA"@ }
    else { "UNKNOWN"@ }
}


/// The name of a Linux key code, as the grab tool prints it.
pub fn key_code_to_name(code: u16) -> (r: &'static str)
    ensures
        r@ == key_name(code),
{
    match code {
        1 => "ESC",
        2 => "1",
        3 => "2",
        4 => "3",
        5 => "4",
        6 => "5",
        7 => "6",
        8 => "7",
        9 => "8",
        10 => "9",
        11 => "0",
        12 => "MINUS",
        13 => "EQUAL",
        14 => "BACKSPACE",
        15 => "TAB",
        16 => "Q",
        17 => "W",
        18 => "E",
        19 => "R",
        20 => "T",
        21 => "Y",
        22 => "U",
        23 => "I",
        24 => "O",
        25 => "P",
        26 => "LEFTBRACE",
        27 => "RIGHTBRACE",
        28 => "ENTER",
        29 => "LEFTCTRL",
        30 => "A",
        31 => "S",
        32 => "D",
        33 => "F",
        34 => "G",
        35 => "H",
        36 => "J",
        37 => "K",
        38 => "L",
        39 => "SEMICOLON",
        40 => "APOSTROPHE",
        41 => "GRAVE",
        42 => "LEFTSHIFT",
        43 => "BACKSLASH",
        44 => "Z",
        45 => "X",
        46 => "C",
        47 => "V",
        48 => "B",
        49 => "N",
        50 => "M",
        51 => "COMMA",
        52 => "DOT",
        53 => "SLASH",
        54 => "RIGHTSHIFT",
        55 => "KPASTERISK",
        56 => "LEFTALT",
        57 => "SPACE",
        58 => "CAPSLOCK",
        59..=68 => "F1-F10",
        87 => "F11",
        88 => "F12",
        96 => "KPENTER",
        97 => "RIGHTCTRL",
        100 => "RIGHTALT",
        102 => "HOME",
        103 => "UP",
        104 => "PAGEUP",
        105 => "LEFT",
        106 => "RIGHT",
        107 => "END",
        108 => "DOWN",
        109 => "PAGEDOWN",
        110 => "INSERT",
        111 => "DELETE",
        125 => "LEFTMETA",
        126 => "RIGHTMETA",
        _ => "UNKNOWN",
    }
}

/// Grabbing a device that was not grabbed and then releasing it leaves the
/// grabbed paths as they were.
pub proof fn lemma_grab_then_release(grabbed: Set<Seq<char>>, path: Seq<char>)
    requires
        !grabbed.contains(path),
    ensures
        grabbed.insert(path).contains(path),
        grabbed.insert(path).remove(path) == grabbed,
{
    assert(grabbed.insert(path).remove(path) =~= grabbed);
}

} // verus!
