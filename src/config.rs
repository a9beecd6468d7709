//! Per-machine connection settings, remembered by machine name.

use vstd::prelude::*;
use vstd::string::*;

verus! {

/// How to connect to a machine, and the hardware it was last given.
pub struct VMConnectionSettings {
    pub resolution_w: u32,
    pub resolution_h: u32,
    pub scale: u32,
    pub username: Option<String>,
    pub password: Option<String>,
    pub shared_drives: Vec<String>,
    pub fullscreen: bool,
    pub gpu_name: Option<String>,
    pub gpu_allocation_percent: Option<u32>,
    pub cpu_count: Option<u32>,
    pub memory_gb: Option<u32>,
    pub network_switch: Option<String>,
}

/// The settings of a machine nothing was saved for: full HD at 100%, signed
/// in as `Administrator`, nothing else chosen.
pub open spec fn is_default_settings(s: VMConnectionSettings) -> bool {
    &&& s.resolution_w == 1920
    &&& s.resolution_h == 1080
    &&& s.scale == 100
    &&& s.username matches Some(u) && u@ == "Administrator"@
    &&& s.password is None
    &&& s.shared_drives@.len() == 0
    &&& !s.fullscreen
    &&& s.gpu_name is None
    &&& s.gpu_allocation_percent is None
    &&& s.cpu_count is None
    &&& s.memory_gb is None
    &&& s.network_switch is None
}

impl Default for VMConnectionSettings {
    fn default() -> (r: Self)
        ensures
            is_default_settings(r),
    {
        VMConnectionSettings {
            resolution_w: 1920,
            resolution_h: 1080,
            scale: 100,
            username: Some(String::from_str("Administrator")),
            password: None,
            shared_drives: Vec::new(),
            fullscreen: false,
            gpu_name: None,
            gpu_allocation_percent: None,
            cpu_count: None,
            memory_gb: None,
            network_switch: None,
        }
    }
}

fn copy_text(o: &Option<String>) -> (r: Option<String>)
    ensures
        r == *o,
{
    match o {
        Some(s) => Some(s.clone()),
        None => None,
    }
}

fn copy_texts(v: &Vec<String>) -> (r: Vec<String>)
    ensures
        r@ == v@,
{
    let mut out: Vec<String> = Vec::new();
    let mut i: usize = 0;
    while i < v.len()
        invariant
            i <= v@.len(),
            out@ == v@.subrange(0, i as int),
        decreases v.len() - i,
    {
        out.push(v[i].clone());
        i = i + 1;
        proof {
            assert(out@ =~= v@.subrange(0, i as int));
        }
    }
    proof {
        assert(v@.subrange(0, i as int) =~= v@);
    }
    out
}

impl VMConnectionSettings {
    /// An equal, independent copy.
    pub fn duplicate(&self) -> (r: Self)
        ensures
            r.resolution_w == self.resolution_w,
            r.resolution_h == self.resolution_h,
            r.scale == self.scale,
            r.username == self.username,
            r.password == self.password,
            r.shared_drives@ == self.shared_drives@,
            r.fullscreen == self.fullscreen,
            r.gpu_name == self.gpu_name,
            r.gpu_allocation_percent == self.gpu_allocation_percent,
            r.cpu_count == self.cpu_count,
            r.memory_gb == self.memory_gb,
            r.network_switch == self.network_switch,
    {
        VMConnectionSettings {
            resolution_w: self.resolution_w,
            resolution_h: self.resolution_h,
            scale: self.scale,
            username: copy_text(&self.username),
            password: copy_text(&self.password),
            shared_drives: copy_texts(&self.shared_drives),
            fullscreen: self.fullscreen,
            gpu_name: copy_text(&self.gpu_name),
            gpu_allocation_percent: self.gpu_allocation_percent,
            cpu_count: self.cpu_count,
            memory_gb: self.memory_gb,
            network_switch: copy_text(&self.network_switch),
        }
    }
}

/// Two settings agree on every field.
pub open spec fn same_settings(a: VMConnectionSettings, b: VMConnectionSettings) -> bool {
    &&& a.resolution_w == b.resolution_w
    &&& a.resolution_h == b.resolution_h
    &&& a.scale == b.scale
    &&& a.username == b.username
    &&& a.password == b.password
    &&& a.shared_drives@ == b.shared_drives@
    &&& a.fullscreen == b.fullscreen
    &&& a.gpu_name == b.gpu_name
    &&& a.gpu_allocation_percent == b.gpu_allocation_percent
    &&& a.cpu_count == b.cpu_count
    &&& a.memory_gb == b.memory_gb
    &&& a.network_switch == b.network_switch
}

/// The settings of every machine, one entry per machine name.
pub struct VMSettingsStore {
    entries: Vec<(String, VMConnectionSettings)>,
}

impl VMSettingsStore {
    /// No two entries share a machine name.
    pub closed spec fn wf(&self) -> bool {
        forall|i: int, j: int|
            0 <= i < self.entries@.len() && 0 <= j < self.entries@.len() && i != j
                ==> (#[trigger] self.entries@[i]).0@ != (#[trigger] self.entries@[j]).0@
    }

    /// The entries, in the order the machines were first saved.
    pub closed spec fn entries_view(&self) -> Seq<(String, VMConnectionSettings)> {
        self.entries@
    }

    /// The settings saved for each machine name.
    pub closed spec fn view(&self) -> Map<Seq<char>, VMConnectionSettings> {
        Map::new(
            |k: Seq<char>| exists|i: int| 0 <= i < self.entries@.len() && (#[trigger] self.entries@[i]).0@ == k,
            |k: Seq<char>|
                self.entries@[choose|i: int| 0 <= i < self.entries@.len() && (#[trigger] self.entries@[i]).0@ == k].1,
        )
    }

    /// A store that holds nothing.
    pub fn new() -> (r: Self)
        ensures
            r.wf(),
            r.view() == Map::<Seq<char>, VMConnectionSettings>::empty(),
    {
        let r = VMSettingsStore { entries: Vec::new() };
        proof {
            assert(r.view() =~= Map::<Seq<char>, VMConnectionSettings>::empty());
        }
        r
    }

    /// The entries, for persisting them.
    pub fn entries(&self) -> (r: &Vec<(String, VMConnectionSettings)>)
        ensures
            r@ == self.entries_view(),
    {
        &self.entries
    }

    fn position(&self, vm_name: &str) -> (r: Option<usize>)
        requires
            self.wf(),
        ensures
            r matches Some(i) ==> i < self.entries@.len() && self.entries@[i as int].0@ == vm_name@,
            r is None ==> forall|i: int| 0 <= i < self.entries@.len() ==> (#[trigger] self.entries@[i]).0@ != vm_name@,
    {
        let target = String::from_str(vm_name);
        let mut i: usize = 0;
        while i < self.entries.len()
            invariant
                target@ == vm_name@,
                i <= self.entries@.len(),
                forall|j: int| 0 <= j < i ==> (#[trigger] self.entries@[j]).0@ != vm_name@,
            decreases self.entries.len() - i,
        {
            if self.entries[i].0 == target {
                return Some(i);
            }
            i = i + 1;
        }
        None
    }

    /// The settings saved for `vm_name`, or the default settings when none were.
    pub fn get(&self, vm_name: &str) -> (r: VMConnectionSettings)
        requires
            self.wf(),
        ensures
            self.view().contains_key(vm_name@) ==> same_settings(r, self.view()[vm_name@]),
            !self.view().contains_key(vm_name@) ==> is_default_settings(r),
    {
        match self.position(vm_name) {
            Some(i) => {
                proof {
                    let k = vm_name@;
                    let j = choose|j: int| 0 <= j < self.entries@.len() && (#[trigger] self.entries@[j]).0@ == k;
                    assert(self.entries@[i as int].0@ == k);
                    assert(j == i);
                }
                self.entries[i].1.duplicate()
            },
            None => VMConnectionSettings::default(),
        }
    }

    /// Saves `config` for `vm_name`, replacing what was saved for it before.
    pub fn set(&mut self, vm_name: String, config: VMConnectionSettings)
        requires
            old(self).wf(),
        ensures
            final(self).wf(),
            final(self).view() == old(self).view().insert(vm_name@, config),
    {
        let ghost k = vm_name@;
        let ghost o = self.entries@;
        let ghost idx: int;
        match self.position(vm_name.as_str()) {
            Some(i) => {
                self.entries.set(i, (vm_name, config));
                proof {
                    idx = i as int;
                }
            },
            None => {
                self.entries.push((vm_name, config));
                proof {
                    idx = o.len() as int;
                }
            },
        }
        proof {
            let e = self.entries@;
            assert(0 <= idx < e.len() && e[idx].0@ == k && e[idx].1 == config);
            assert forall|j: int| 0 <= j < e.len() && j != idx implies #[trigger] e[j] == o[j] && o[j].0@ != k by {}
            assert(self.wf());
            assert forall|a: Seq<char>| #[trigger] self.view().contains_key(a) == old(self).view().insert(k, config).contains_key(a) by {
                if a == k {
                    assert(e[idx].0@ == a);
                } else {
                    if old(self).view().contains_key(a) {
                        let j = choose|j: int| 0 <= j < o.len() && (#[trigger] o[j]).0@ == a;
                        assert(j != idx);
                        assert(e[j].0@ == a);
                    }
                    if self.view().contains_key(a) {
                        let j = choose|j: int| 0 <= j < e.len() && (#[trigger] e[j]).0@ == a;
                        assert(j != idx);
                        assert(o[j].0@ == a);
                    }
                }
            }
            assert forall|a: Seq<char>| #[trigger] self.view().contains_key(a) implies self.view()[a] == old(self).view().insert(k, config)[a] by {
                let j = choose|j: int| 0 <= j < e.len() && (#[trigger] e[j]).0@ == a;
                if a == k {
                    assert(e[idx].0@ == a);
                    assert(j == idx);
                } else {
                    assert(j != idx);
                    assert(o[j].0@ == a);
                    let j2 = choose|j: int| 0 <= j < o.len() && (#[trigger] o[j]).0@ == a;
                    assert(j2 != idx);
                    assert(e[j2].0@ == a);
                    assert(j == j2);
                }
            }
            assert(self.view() =~= old(self).view().insert(k, config));
        }
    }
}

} // verus!
