//! Which input devices have a listener, and which of the devices that a scan
//! finds need one.
//!
//! A path is in the set of active devices exactly while one listener is
//! responsible for it. A scan claims every path it finds that is not in the
//! set; only a listener that ends releases its path.

use vstd::prelude::*;
use crate::event_handler::DeviceInfo;
use crate::text::{occurs_at, starts_with};

verus! {

/// Directory that holds the device nodes.
pub const INPUT_DIR: &'static str = "/dev/input";

/// Beginning of the file name of every event-class device node.
pub const EVENT_NODE_PREFIX: &'static str = "event";

/// Name given to a device that reports none.
pub const UNKNOWN_DEVICE_NAME: &'static str = "Unknown";

/// Time between two scans for new devices, in milliseconds.
pub const HOTPLUG_INTERVAL_MS: u64 = 2000;

/// Time a new listener waits before its first read, in milliseconds.
pub const LISTENER_STAGGER_MS: u64 = 100;

/// Time between two tick events, in milliseconds.
pub const TICK_INTERVAL_MS: u64 = 100;

/// Whether a file of the input directory is an event-class device node.
pub fn is_event_node(file_name: &str) -> (r: bool)
    ensures
        r == occurs_at(file_name@, EVENT_NODE_PREFIX@, 0),
{
    starts_with(file_name, EVENT_NODE_PREFIX)
}

/// The positions in `file_names` of the event-class device nodes, in order.
pub fn get_devices(file_names: &Vec<String>) -> (nodes: Vec<usize>)
    ensures
        forall|k: int| 0 <= k < nodes@.len() ==> (#[trigger] nodes@[k]) < file_names@.len(),
        forall|k: int, l: int| 0 <= k < l < nodes@.len() ==> nodes@[k] < nodes@[l],
        forall|i: usize|
            i < file_names@.len() ==> (#[trigger] nodes@.contains(i) <==> occurs_at(
                file_names@[i as int]@,
                EVENT_NODE_PREFIX@,
                0,
            )),
{
    let mut nodes: Vec<usize> = Vec::new();
    let mut i: usize = 0;
    while i < file_names.len()
        invariant
            i <= file_names.len(),
            forall|k: int| 0 <= k < nodes@.len() ==> (#[trigger] nodes@[k]) < i,
            forall|k: int, l: int| 0 <= k < l < nodes@.len() ==> nodes@[k] < nodes@[l],
            forall|j: usize|
                j < i ==> (#[trigger] nodes@.contains(j) <==> occurs_at(
                    file_names@[j as int]@,
                    EVENT_NODE_PREFIX@,
                    0,
                )),
        decreases file_names.len() - i,
    {
        let ghost before = nodes@;
        if is_event_node(file_names[i].as_str()) {
            nodes.push(i);
            proof {
                assert(nodes@[nodes@.len() - 1] == i);
                assert forall|j: usize| j < i implies (#[trigger] nodes@.contains(j)
                    <==> before.contains(j)) by {
                    if before.contains(j) {
                        let k = choose|k: int| 0 <= k < before.len() && before[k] == j;
                        assert(nodes@[k] == j);
                    }
                    if nodes@.contains(j) {
                        let k = choose|k: int| 0 <= k < nodes@.len() && nodes@[k] == j;
                        assert(before[k] == j);
                    }
                }
            }
        } else {
            proof {
                if nodes@.contains(i) {
                    let k = choose|k: int| 0 <= k < nodes@.len() && nodes@[k] == i;
                    assert(nodes@[k] < i);
                }
            }
        }
        i += 1;
    }
    nodes
}

/// The view of an optional string.
pub open spec fn name_or_unknown(name: Option<&str>) -> Seq<char> {
    match name {
        Some(n) => n@,
        None => UNKNOWN_DEVICE_NAME@,
    }
}

/// The description of a device that has been opened at `path`: its name, or
/// "Unknown" where it reports none, and the largest X and Y it reports, where
/// it has absolute axes.
pub fn describe_device(
    path: &str,
    name: Option<&str>,
    abs_x_max: Option<i32>,
    abs_y_max: Option<i32>,
) -> (info: DeviceInfo)
    ensures
        info@.path == path@,
        info@.name == name_or_unknown(name),
        info@.abs_x_max == abs_x_max,
        info@.abs_y_max == abs_y_max,
{
    let name = match name {
        Some(n) => n.to_owned(),
        None => UNKNOWN_DEVICE_NAME.to_owned(),
    };
    DeviceInfo { path: path.to_owned(), name, abs_x_max, abs_y_max }
}

/// The paths of devices that have a listener: a set, held as a list in which
/// no path stands twice.
#[derive(Debug)]
pub struct ActiveDevices {
    paths: Vec<String>,
}

/// The paths of a list of devices, in order.
pub open spec fn paths_of(devices: Seq<DeviceInfo>) -> Seq<Seq<char>> {
    devices.map_values(|d: DeviceInfo| d@.path)
}

/// A scan that finds `discovered` while `active` have a listener claims the
/// device at position `i`: its path has no listener and stands at no earlier
/// position.
pub open spec fn claimed(active: Set<Seq<char>>, discovered: Seq<Seq<char>>, i: int) -> bool {
    &&& 0 <= i < discovered.len()
    &&& !active.contains(discovered[i])
    &&& forall|j: int| 0 <= j < i ==> discovered[j] != discovered[i]
}

/// The active paths after a scan that found `discovered`.
pub open spec fn after_scan(active: Set<Seq<char>>, discovered: Seq<Seq<char>>) -> Set<Seq<char>> {
    Set::new(|p: Seq<char>| active.contains(p) || discovered.contains(p))
}

impl View for ActiveDevices {
    type V = Set<Seq<char>>;

    closed spec fn view(&self) -> Set<Seq<char>> {
        Set::new(|p: Seq<char>| exists|i: int| 0 <= i < self.paths@.len() && self.paths@[i]@ == p)
    }
}

impl ActiveDevices {
    /// No path is held twice.
    pub closed spec fn wf(&self) -> bool {
        forall|i: int, j: int|
            0 <= i < j < self.paths@.len() ==> self.paths@[i]@ != self.paths@[j]@
    }

    /// An empty set.
    pub fn new() -> (a: Self)
        ensures
            a.wf(),
            a@ == Set::<Seq<char>>::empty(),
    {
        let a = ActiveDevices { paths: Vec::new() };
        assert(a@ =~= Set::<Seq<char>>::empty());
        a
    }

    /// The number of devices that have a listener.
    pub fn len(&self) -> (n: usize)
        requires
            self.wf(),
        ensures
            self@.finite(),
            n == self@.len(),
    {
        proof {
            let held = self.paths@.map_values(|p: String| p@);
            assert(held.no_duplicates());
            assert(self@ =~= held.to_set()) by {
                assert forall|p: Seq<char>| self@.contains(p) == #[trigger] held.to_set().contains(
                    p,
                ) by {
                    if self@.contains(p) {
                        let i = choose|i: int| 0 <= i < self.paths@.len() && self.paths@[i]@ == p;
                        assert(held[i] == p);
                    }
                    if held.contains(p) {
                        let i = choose|i: int| 0 <= i < held.len() && held[i] == p;
                        assert(self.paths@[i]@ == p);
                    }
                }
            }
            held.unique_seq_to_set();
            vstd::seq_lib::seq_to_set_is_finite(held);
        }
        self.paths.len()
    }

    /// The position of `path`, if it is held.
    fn position(&self, path: &String) -> (r: Option<usize>)
        ensures
            match r {
                Some(i) => i < self.paths@.len() && self.paths@[i as int]@ == path@,
                None => !self@.contains(path@),
            },
    {
        let mut i: usize = 0;
        while i < self.paths.len()
            invariant
                i <= self.paths@.len(),
                forall|k: int| 0 <= k < i ==> self.paths@[k]@ != path@,
            decreases self.paths.len() - i,
        {
            if self.paths[i] == *path {
                return Some(i);
            }
            i += 1;
        }
        None
    }

    /// Whether `path` has a listener.
    pub fn contains(&self, path: &String) -> (r: bool)
        ensures
            r == self@.contains(path@),
    {
        match self.position(path) {
            Some(i) => {
                assert(self.paths@[i as int]@ == path@);
                true
            },
            None => false,
        }
    }

    /// Records that `path` has a listener. Returns whether it had none before.
    pub fn insert(&mut self, path: &String) -> (added: bool)
        requires
            old(self).wf(),
        ensures
            final(self).wf(),
            final(self)@ == old(self)@.insert(path@),
            added == !old(self)@.contains(path@),
    {
        if self.contains(path) {
            assert(self@ =~= old(self)@.insert(path@));
            return false;
        }
        let ghost before = self.paths@;
        self.paths.push(path.clone());
        proof {
            assert forall|p: Seq<char>| #[trigger] self@.contains(p) == old(self)@.insert(
                path@,
            ).contains(p) by {
                if old(self)@.contains(p) {
                    let i = choose|i: int| 0 <= i < before.len() && before[i]@ == p;
                    assert(self.paths@[i]@ == p);
                }
                if p == path@ {
                    assert(self.paths@[before.len() as int]@ == p);
                }
                if self@.contains(p) {
                    let i = choose|i: int| 0 <= i < self.paths@.len() && self.paths@[i]@ == p;
                    if i < before.len() {
                        assert(before[i]@ == p);
                    }
                }
            }
            assert(self@ =~= old(self)@.insert(path@));
            assert forall|i: int, j: int| 0 <= i < j < self.paths@.len() implies self.paths@[i]@
                != self.paths@[j]@ by {
                if j == before.len() {
                    assert(before[i]@ == self.paths@[i]@);
                    assert(old(self)@.contains(before[i]@));
                } else {
                    assert(before[i]@ != before[j]@);
                }
            }
        }
        true
    }

    /// Records that the listener of `path` has ended. Returns whether the path
    /// was held.
    pub fn remove(&mut self, path: &String) -> (removed: bool)
        requires
            old(self).wf(),
        ensures
            final(self).wf(),
            final(self)@ == old(self)@.remove(path@),
            removed == old(self)@.contains(path@),
    {
        match self.position(path) {
            Some(i) => {
                let ghost before = self.paths@;
                self.paths.remove(i);
                proof {
                    assert(old(self)@.contains(path@));
                    assert forall|p: Seq<char>| #[trigger] self@.contains(p) == old(self)@.remove(
                        path@,
                    ).contains(p) by {
                        if old(self)@.contains(p) && p != path@ {
                            let k = choose|k: int| 0 <= k < before.len() && before[k]@ == p;
                            if k < i {
                                assert(self.paths@[k]@ == p);
                            } else {
                                assert(self.paths@[k - 1]@ == p);
                            }
                        }
                        if self@.contains(p) {
                            let k = choose|k: int|
                                0 <= k < self.paths@.len() && self.paths@[k]@ == p;
                            if k < i {
                                assert(before[k]@ == p);
                            } else {
                                assert(before[k + 1]@ == p);
                            }
                        }
                    }
                    assert(self@ =~= old(self)@.remove(path@));
                    assert forall|a: int, b: int| 0 <= a < b < self.paths@.len() implies self.paths@[a]@
                        != self.paths@[b]@ by {
                        let a0 = if a < i { a } else { a + 1 };
                        let b0 = if b < i { b } else { b + 1 };
                        assert(before[a0]@ != before[b0]@);
                    }
                }
                true
            },
            None => {
                assert(self@ =~= old(self)@.remove(path@));
                false
            },
        }
    }
}

/// Why the listeners could not be started.
#[derive(Clone, Copy, Debug, PartialEq, Eq, Structural)]
pub enum StartError {
    /// The first scan found no device that could be opened.
    NoDevices,
}

impl StartError {
    /// The text shown to the user.
    pub open spec fn message_text(self) -> Seq<char> {
        "no input devices found, ensure you have the necessary permissions"@
    }

    /// The text shown to the user.
    pub fn message(&self) -> (m: String)
        ensures
            m@ == self.message_text(),
    {
        "no input devices found, ensure you have the necessary permissions".to_owned()
    }
}

/// One scan for devices: claims every device of `discovered` whose path has no
/// listener, and returns the positions of the claimed devices, in order. Each
/// of them is to get a listener.
pub fn hotswap_monitor(active: &mut ActiveDevices, discovered: &Vec<DeviceInfo>) -> (start: Vec<
    usize,
>)
    requires
        old(active).wf(),
    ensures
        final(active).wf(),
        final(active)@ == after_scan(old(active)@, paths_of(discovered@)),
        forall|k: int, l: int| 0 <= k < l < start@.len() ==> start@[k] < start@[l],
        forall|i: usize| #[trigger]
            start@.contains(i) <==> claimed(old(active)@, paths_of(discovered@), i as int),
{
    let ghost paths = paths_of(discovered@);
    let mut start: Vec<usize> = Vec::new();
    let mut i: usize = 0;
    while i < discovered.len()
        invariant
            i <= discovered.len(),
            paths == paths_of(discovered@),
            active.wf(),
            active@ == after_scan(old(active)@, paths.subrange(0, i as int)),
            forall|k: int| 0 <= k < start@.len() ==> (#[trigger] start@[k]) < i,
            forall|k: int, l: int| 0 <= k < l < start@.len() ==> start@[k] < start@[l],
            forall|j: usize|
                j < i ==> (#[trigger] start@.contains(j) <==> claimed(
                    old(active)@,
                    paths,
                    j as int,
                )),
        decreases discovered.len() - i,
    {
        let ghost before = start@;
        let ghost seen = paths.subrange(0, i as int);
        proof {
            assert(paths[i as int] == discovered@[i as int]@.path);
            assert(paths.subrange(0, i + 1) =~= seen.push(paths[i as int]));
            lemma_scan_one_more(old(active)@, seen, paths[i as int]);
            assert(active@.contains(paths[i as int]) <==> !claimed(old(active)@, paths, i as int))
                by {
                if seen.contains(paths[i as int]) {
                    let k = choose|k: int| 0 <= k < seen.len() && seen[k] == paths[i as int];
                    assert(paths[k] == paths[i as int]);
                }
                if exists|j: int| 0 <= j < i && paths[j] == paths[i as int] {
                    let j = choose|j: int| 0 <= j < i && paths[j] == paths[i as int];
                    assert(seen[j] == paths[i as int]);
                }
            }
        }
        if active.insert(&discovered[i].path) {
            start.push(i);
            proof {
                assert(start@[start@.len() - 1] == i);
                assert forall|j: usize| j < i implies (#[trigger] start@.contains(j)
                    <==> before.contains(j)) by {
                    if before.contains(j) {
                        let k = choose|k: int| 0 <= k < before.len() && before[k] == j;
                        assert(start@[k] == j);
                    }
                    if start@.contains(j) {
                        let k = choose|k: int| 0 <= k < start@.len() && start@[k] == j;
                        assert(before[k] == j);
                    }
                }
            }
        } else {
            proof {
                if start@.contains(i) {
                    let k = choose|k: int| 0 <= k < start@.len() && start@[k] == i;
                    assert(start@[k] < i);
                }
            }
        }
        i += 1;
    }
    proof {
        assert(paths.subrange(0, discovered.len() as int) =~= paths);
        assert forall|j: usize| #[trigger]
            start@.contains(j) <==> claimed(old(active)@, paths, j as int) by {
            if start@.contains(j) {
                let k = choose|k: int| 0 <= k < start@.len() && start@[k] == j;
                assert(start@[k] < i);
            }
        }
    }
    start
}

/// The first scan: fails if it found no device; otherwise claims every device
/// found, as any later scan does, and returns the set of active devices with
/// the positions of the devices that are to get a listener.
pub fn spawn_device_listeners(discovered: &Vec<DeviceInfo>) -> (r: Result<
    (ActiveDevices, Vec<usize>),
    StartError,
>)
    ensures
        discovered@.len() == 0 <==> r is Err,
        r matches Ok((active, start)) ==> {
            &&& active.wf()
            &&& active@ == after_scan(Set::empty(), paths_of(discovered@))
            &&& forall|k: int, l: int| 0 <= k < l < start@.len() ==> start@[k] < start@[l]
            &&& forall|i: usize| #[trigger]
                start@.contains(i) <==> claimed(Set::empty(), paths_of(discovered@), i as int)
        },
{
    if discovered.len() == 0 {
        return Err(StartError::NoDevices);
    }
    let mut active = ActiveDevices::new();
    let start = hotswap_monitor(&mut active, discovered);
    Ok((active, start))
}

/// A path that its listener has released is claimed again by the very next
/// scan that finds it.
pub proof fn lemma_released_path_is_claimed_again(
    active: Set<Seq<char>>,
    path: Seq<char>,
    discovered: Seq<Seq<char>>,
)
    requires
        discovered.contains(path),
    ensures
        exists|i: int| claimed(active.remove(path), discovered, i) && discovered[i] == path,
        after_scan(active.remove(path), discovered).contains(path),
{
    let i = first_occurrence(discovered, path, discovered.len() as int);
    assert(claimed(active.remove(path), discovered, i));
}

/// The first position of `path` among the first `n` of `discovered`.
proof fn first_occurrence(discovered: Seq<Seq<char>>, path: Seq<char>, n: int) -> (i: int)
    requires
        0 <= n <= discovered.len(),
        exists|j: int| 0 <= j < n && discovered[j] == path,
    ensures
        0 <= i < n,
        discovered[i] == path,
        forall|j: int| 0 <= j < i ==> discovered[j] != path,
    decreases n,
{
    if exists|j: int| 0 <= j < n - 1 && discovered[j] == path {
        first_occurrence(discovered, path, n - 1)
    } else {
        n - 1
    }
}

/// Finding one more path adds that path to what a scan leaves active.
proof fn lemma_scan_one_more(active: Set<Seq<char>>, seen: Seq<Seq<char>>, path: Seq<char>)
    ensures
        after_scan(active, seen.push(path)) == after_scan(active, seen).insert(path),
{
    assert forall|q: Seq<char>| #[trigger]
        seen.push(path).contains(q) <==> (seen.contains(q) || q == path) by {
        if seen.contains(q) {
            let k = choose|k: int| 0 <= k < seen.len() && seen[k] == q;
            assert(seen.push(path)[k] == q);
        }
        if q == path {
            assert(seen.push(path)[seen.len() as int] == q);
        }
        if seen.push(path).contains(q) {
            let k = choose|k: int| 0 <= k < seen.push(path).len() && seen.push(path)[k] == q;
            if k < seen.len() {
                assert(seen[k] == q);
            }
        }
    }
    assert forall|q: Seq<char>|
        after_scan(active, seen.push(path)).contains(q) == #[trigger] after_scan(
            active,
            seen,
        ).insert(path).contains(q) by {
        assert(seen.push(path).contains(q) <==> (seen.contains(q) || q == path));
    }
    assert(after_scan(active, seen.push(path)) =~= after_scan(active, seen).insert(path));
}

/// No path ever has two listeners: a scan claims no path that has one, claims
/// no path twice, and a second scan right after it claims nothing.
pub proof fn lemma_no_double_registration(active: Set<Seq<char>>, discovered: Seq<Seq<char>>)
    ensures
        forall|i: int| claimed(active, discovered, i) ==> !active.contains(discovered[i]),
        forall|i: int, j: int|
            claimed(active, discovered, i) && claimed(active, discovered, j) && i != j
                ==> discovered[i] != discovered[j],
        forall|i: int| !claimed(after_scan(active, discovered), discovered, i),
{
    assert forall|i: int, j: int|
        claimed(active, discovered, i) && claimed(active, discovered, j) && i != j implies discovered[i]
        != discovered[j] by {
        if i < j {
            assert(discovered[i] != discovered[j]);
        } else {
            assert(discovered[j] != discovered[i]);
        }
    }
    assert forall|i: int| !claimed(after_scan(active, discovered), discovered, i) by {
        if 0 <= i < discovered.len() {
            assert(discovered.contains(discovered[i]));
        }
    }
}

} // verus!
