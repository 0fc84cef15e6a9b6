//! The app's runtime state: which VMs are running and the ports they were
//! launched with, keyed by VM name, and the decisions made on it.
use vstd::prelude::*;
use crate::qemu::LaunchPorts;
use crate::session::PersistedVm;
use crate::text::{decimal, push_decimal, str_eq};
use crate::vm::{push_text, texts, VmConfig};

verus! {

/// A running VM and the ports it was launched with.
#[derive(Clone, Copy, Debug, PartialEq, Eq)]
pub struct RunningVm {
    pub pid: u32,
    pub vnc_display: u16,
    pub websocket_port: u16,
    pub qmp_port: u16,
    pub spice_port: u16,
    /// Whether this session launched the process (and holds its handle);
    /// false for a VM reattached from an earlier session, tracked by PID.
    pub owned: bool,
}

impl RunningVm {
    /// A VM this session has just launched as process `pid` with `ports`.
    pub fn launched(pid: u32, ports: &LaunchPorts) -> (r: RunningVm)
        ensures
            r == (RunningVm {
                pid,
                vnc_display: ports.vnc_display,
                websocket_port: ports.websocket_port,
                qmp_port: ports.qmp_port,
                spice_port: ports.spice_port,
                owned: true,
            }),
    {
        RunningVm {
            pid,
            vnc_display: ports.vnc_display,
            websocket_port: ports.websocket_port,
            qmp_port: ports.qmp_port,
            spice_port: ports.spice_port,
            owned: true,
        }
    }
}

/// The map from names to running VMs held in two parallel sequences.
pub open spec fn view_of(names: Seq<Seq<char>>, vms: Seq<RunningVm>) -> Map<Seq<char>, RunningVm> {
    Map::new(|k: Seq<char>| names.contains(k), |k: Seq<char>| vms[names.index_of(k)])
}

/// In parallel sequences without repeated names, name `i` maps to VM `i`.
pub proof fn lemma_view_at(names: Seq<Seq<char>>, vms: Seq<RunningVm>, i: int)
    requires
        names.no_duplicates(),
        names.len() == vms.len(),
        0 <= i < names.len(),
    ensures
        view_of(names, vms).contains_key(names[i]),
        view_of(names, vms)[names[i]] == vms[i],
{
    assert(names.contains(names[i]));
    let j = names.index_of(names[i]);
    assert(names[j] == names[i]);
}

/// Running VMs by name.
pub struct Registry {
    names: Vec<String>,
    vms: Vec<RunningVm>,
}

impl Registry {
    /// The names in the registry, in its internal order.
    pub closed spec fn keys(&self) -> Seq<Seq<char>> {
        texts(self.names@)
    }

    /// The VMs in the registry, in the order of `keys`.
    pub closed spec fn values(&self) -> Seq<RunningVm> {
        self.vms@
    }

    /// Each name once, with one VM per name.
    pub closed spec fn wf(&self) -> bool {
        &&& self.names@.len() == self.vms@.len()
        &&& self.keys().no_duplicates()
    }

    /// The running VMs by name.
    pub closed spec fn view(&self) -> Map<Seq<char>, RunningVm> {
        view_of(self.keys(), self.vms@)
    }

    /// The order of `keys` lists each running VM once, with its entry.
    pub proof fn lemma_keys(&self)
        requires
            self.wf(),
        ensures
            self.keys().no_duplicates(),
            self.keys().len() == self.values().len(),
            forall|k: Seq<char>| self.view().contains_key(k) <==> self.keys().contains(k),
            forall|i: int|
                0 <= i < self.keys().len() ==> #[trigger] self.view()[self.keys()[i]]
                    == self.values()[i],
    {
        assert forall|i: int| 0 <= i < self.keys().len() implies #[trigger] self.view()[self.keys()[i]]
            == self.values()[i] by {
            lemma_view_at(self.keys(), self.vms@, i);
        }
    }

    /// No VM is running.
    pub fn new() -> (r: Registry)
        ensures
            r.wf(),
            r.view() == Map::<Seq<char>, RunningVm>::empty(),
    {
        let r = Registry { names: Vec::new(), vms: Vec::new() };
        assert(r.keys() =~= Seq::<Seq<char>>::empty());
        assert(r.view() =~= Map::<Seq<char>, RunningVm>::empty());
        r
    }

    fn find(&self, name: &str) -> (r: Option<usize>)
        requires
            self.wf(),
        ensures
            match r {
                Some(i) => i < self.keys().len() && self.keys()[i as int] == name@,
                None => !self.keys().contains(name@),
            },
    {
        let n = self.names.len();
        let mut i: usize = 0;
        while i < n
            invariant
                n == self.names@.len(),
                i <= n,
                forall|j: int| 0 <= j < i ==> self.keys()[j] != name@,
            decreases n - i,
        {
            if str_eq(self.names[i].as_str(), name) {
                return Some(i);
            }
            i = i + 1;
        }
        None
    }

    /// The running VM named `name`, if any.
    pub fn get(&self, name: &str) -> (r: Option<RunningVm>)
        requires
            self.wf(),
        ensures
            r == self.view().get(name@),
    {
        match self.find(name) {
            Some(i) => {
                proof {
                    lemma_view_at(self.keys(), self.vms@, i as int);
                }
                Some(self.vms[i])
            },
            None => None,
        }
    }

    /// Whether a VM named `name` is running.
    pub fn contains(&self, name: &str) -> (r: bool)
        requires
            self.wf(),
        ensures
            r == self.view().contains_key(name@),
    {
        self.find(name).is_some()
    }

    /// Whether any VM is running.
    pub fn any_running(&self) -> (r: bool)
        requires
            self.wf(),
        ensures
            r == (self.view().dom().len() > 0),
    {
        proof {
            self.lemma_dom_len();
        }
        self.names.len() > 0
    }

    proof fn lemma_dom_len(&self)
        requires
            self.wf(),
        ensures
            self.view().dom().len() > 0 <==> self.keys().len() > 0,
    {
        if self.keys().len() > 0 {
            lemma_view_at(self.keys(), self.vms@, 0);
            assert(self.view().dom().contains(self.keys()[0]));
            assert(self.view().dom() =~= self.keys().to_set());
            self.keys().lemma_cardinality_of_set();
        } else {
            assert(self.view().dom() =~= Set::<Seq<char>>::empty());
        }
    }

    /// Records that `name` runs as `vm`, replacing an earlier entry of that name.
    pub fn insert(&mut self, name: String, vm: RunningVm)
        requires
            old(self).wf(),
        ensures
            final(self).wf(),
            final(self).view() == old(self).view().insert(name@, vm),
    {
        let ghost old_keys = self.keys();
        let ghost old_vms = self.vms@;
        match self.find(name.as_str()) {
            Some(i) => {
                self.vms.set(i, vm);
                proof {
                    let new_view = view_of(old_keys, self.vms@);
                    let expected = view_of(old_keys, old_vms).insert(name@, vm);
                    assert forall|k: Seq<char>| #[trigger] new_view.contains_key(k) == expected.contains_key(k)
                        by {}
                    assert forall|k: Seq<char>| #[trigger] new_view.contains_key(k) implies new_view[k]
                        == expected[k] by {
                        let j = old_keys.index_of(k);
                        lemma_view_at(old_keys, self.vms@, j);
                        lemma_view_at(old_keys, old_vms, j);
                    }
                    assert(new_view =~= expected);
                }
            },
            None => {
                let ghost nm = name@;
                push_text(&mut self.names, name);
                self.vms.push(vm);
                proof {
                    let keys = self.keys();
                    assert(keys == old_keys.push(nm));
                    assert forall|a: int, b: int| 0 <= a < keys.len() && 0 <= b < keys.len() && a != b
                        implies keys[a] != keys[b] by {
                        if a == old_keys.len() {
                            assert(keys[b] == old_keys[b]);
                            assert(old_keys.contains(old_keys[b]));
                        } else if b == old_keys.len() {
                            assert(keys[a] == old_keys[a]);
                            assert(old_keys.contains(old_keys[a]));
                        } else {
                            assert(keys[a] == old_keys[a]);
                            assert(keys[b] == old_keys[b]);
                        }
                    }
                    let new_view = view_of(keys, self.vms@);
                    let expected = view_of(old_keys, old_vms).insert(nm, vm);
                    assert forall|k: Seq<char>| #[trigger] new_view.contains_key(k) == expected.contains_key(k)
                        by {
                        if old_keys.contains(k) {
                            let j = old_keys.index_of(k);
                            assert(keys[j] == k);
                        }
                        if k == nm {
                            assert(keys[old_keys.len() as int] == nm);
                        }
                        if keys.contains(k) && k != nm {
                            let j = keys.index_of(k);
                            assert(old_keys[j] == k);
                        }
                    }
                    assert forall|k: Seq<char>| #[trigger] new_view.contains_key(k) implies new_view[k]
                        == expected[k] by {
                        if k == nm {
                            lemma_view_at(keys, self.vms@, old_keys.len() as int);
                        } else {
                            let j = keys.index_of(k);
                            assert(j < old_keys.len());
                            lemma_view_at(keys, self.vms@, j);
                            lemma_view_at(old_keys, old_vms, j);
                        }
                    }
                    assert(new_view =~= expected);
                }
            },
        }
    }

    /// Forgets the VM named `name`, handing back its entry if it was running.
    pub fn remove(&mut self, name: &str) -> (r: Option<RunningVm>)
        requires
            old(self).wf(),
        ensures
            final(self).wf(),
            r == old(self).view().get(name@),
            final(self).view() == old(self).view().remove(name@),
    {
        let ghost old_keys = self.keys();
        let ghost old_vms = self.vms@;
        match self.find(name) {
            Some(i) => {
                proof {
                    lemma_view_at(old_keys, old_vms, i as int);
                }
                let _ = self.names.remove(i);
                let vm = self.vms.remove(i);
                proof {
                    let keys = self.keys();
                    assert(keys =~= old_keys.remove(i as int));
                    assert forall|a: int, b: int| 0 <= a < keys.len() && 0 <= b < keys.len() && a != b
                        implies keys[a] != keys[b] by {
                        let a1 = if a < i { a } else { a + 1 };
                        let b1 = if b < i { b } else { b + 1 };
                        assert(keys[a] == old_keys[a1]);
                        assert(keys[b] == old_keys[b1]);
                    }
                    let new_view = view_of(keys, self.vms@);
                    let expected = view_of(old_keys, old_vms).remove(name@);
                    assert forall|k: Seq<char>| #[trigger] new_view.contains_key(k) == expected.contains_key(k)
                        by {
                        if keys.contains(k) {
                            let j = keys.index_of(k);
                            let j1 = if j < i { j } else { j + 1 };
                            assert(old_keys[j1] == k);
                            assert(j1 != i);
                        }
                        if old_keys.contains(k) && k != name@ {
                            let j = old_keys.index_of(k);
                            assert(j != i);
                            let j0 = if j < i { j } else { j - 1 };
                            assert(keys[j0] == k);
                        }
                    }
                    assert forall|k: Seq<char>| #[trigger] new_view.contains_key(k) implies new_view[k]
                        == expected[k] by {
                        let j = keys.index_of(k);
                        let j1 = if j < i { j } else { j + 1 };
                        assert(old_keys[j1] == k);
                        lemma_view_at(keys, self.vms@, j);
                        lemma_view_at(old_keys, old_vms, j1);
                    }
                    assert(new_view =~= expected);
                }
                Some(vm)
            },
            None => {
                proof {
                    assert(view_of(old_keys, old_vms).remove(name@) =~= view_of(old_keys, old_vms));
                }
                None
            },
        }
    }

    /// Forgets every VM whose name is in `dead`: those whose process has exited.
    pub fn prune(&mut self, dead: &Vec<String>)
        requires
            old(self).wf(),
        ensures
            final(self).wf(),
            final(self).view() == old(self).view().remove_keys(texts(dead@).to_set()),
    {
        let ghost start = self.view();
        let n = dead.len();
        let mut i: usize = 0;
        assert(start.remove_keys(texts(dead@.take(0)).to_set()) =~= start);
        while i < n
            invariant
                n == dead@.len(),
                i <= n,
                self.wf(),
                self.view() == start.remove_keys(texts(dead@.take(i as int)).to_set()),
            decreases n - i,
        {
            let _ = self.remove(dead[i].as_str());
            proof {
                let before = texts(dead@.take(i as int)).to_set();
                let after = texts(dead@.take(i + 1)).to_set();
                let sa = texts(dead@.take(i + 1));
                let sb = texts(dead@.take(i as int));
                let x = dead@[i as int]@;
                assert(sa =~= sb.push(x));
                assert forall|y: Seq<char>| #[trigger] after.contains(y) == before.insert(x).contains(y) by {
                    if sb.contains(y) {
                        let j = sb.index_of(y);
                        assert(sa[j] == y);
                    }
                    if y == x {
                        assert(sa[i as int] == x);
                    }
                    if sa.contains(y) && y != x {
                        let j = sa.index_of(y);
                        assert(j < i);
                        assert(sb[j] == y);
                    }
                }
                assert(after =~= before.insert(x));
                assert(start.remove_keys(before).remove(dead@[i as int]@) =~= start.remove_keys(after));
            }
            i = i + 1;
        }
        assert(dead@.take(n as int) =~= dead@);
    }

    /// The names of the running VMs, each once.
    pub fn names(&self) -> (r: Vec<String>)
        requires
            self.wf(),
        ensures
            texts(r@) == self.keys(),
    {
        let n = self.names.len();
        let mut out: Vec<String> = Vec::new();
        let mut i: usize = 0;
        while i < n
            invariant
                n == self.names@.len(),
                i <= n,
                texts(out@) == self.keys().take(i as int),
            decreases n - i,
        {
            push_text(&mut out, self.names[i].clone());
            proof {
                assert(self.keys().take(i + 1) =~= self.keys().take(i as int).push(self.keys()[i as int]));
            }
            i = i + 1;
        }
        assert(self.keys().take(n as int) =~= self.keys());
        out
    }

    /// The record of the running VMs a relaunch needs to reattach to them, in
    /// the order of `keys`.
    pub fn to_persisted(&self) -> (r: Vec<PersistedVm>)
        requires
            self.wf(),
        ensures
            r@.len() == self.keys().len(),
            forall|i: int|
                0 <= i < r@.len() ==> persisted_matches(
                    #[trigger] r@[i],
                    self.keys()[i],
                    self.view()[self.keys()[i]],
                ),
    {
        let n = self.names.len();
        let mut out: Vec<PersistedVm> = Vec::new();
        let mut i: usize = 0;
        while i < n
            invariant
                self.wf(),
                n == self.names@.len(),
                i <= n,
                out@.len() == i,
                forall|j: int|
                    0 <= j < i ==> persisted_matches(
                        #[trigger] out@[j],
                        self.keys()[j],
                        self.view()[self.keys()[j]],
                    ),
            decreases n - i,
        {
            let vm = self.vms[i];
            proof {
                lemma_view_at(self.keys(), self.vms@, i as int);
            }
            out.push(
                PersistedVm {
                    name: self.names[i].clone(),
                    pid: vm.pid,
                    qmp_port: vm.qmp_port,
                    spice_port: vm.spice_port,
                },
            );
            i = i + 1;
        }
        out
    }

    /// Reattaches to the VMs an earlier session left running. Entry `i` of
    /// `persisted` is trusted only when its process is alive (`alive[i]`) and
    /// QMP on its port reports the same guest name (`reported[i]`); those are
    /// added (later entries of a name replacing earlier ones) and returned.
    pub fn reconcile(
        &mut self,
        persisted: &Vec<PersistedVm>,
        alive: &Vec<bool>,
        reported: &Vec<Option<String>>,
    ) -> (r: Vec<PersistedVm>)
        requires
            old(self).wf(),
            alive@.len() == persisted@.len(),
            reported@.len() == persisted@.len(),
        ensures
            final(self).wf(),
            final(self).view() == reconciled(
                old(self).view(),
                persisted@,
                keep_flags(persisted@, alive@, reported@),
            ),
            r@ == kept(persisted@, keep_flags(persisted@, alive@, reported@)),
    {
        let ghost start = self.view();
        let ghost keep = keep_flags(persisted@, alive@, reported@);
        let n = persisted.len();
        let mut out: Vec<PersistedVm> = Vec::new();
        let mut i: usize = 0;
        assert(persisted@.take(0) =~= Seq::<PersistedVm>::empty());
        assert(keep.take(0) =~= Seq::<bool>::empty());
        while i < n
            invariant
                n == persisted@.len(),
                alive@.len() == n,
                reported@.len() == n,
                keep == keep_flags(persisted@, alive@, reported@),
                i <= n,
                self.wf(),
                self.view() == reconciled(start, persisted@.take(i as int), keep.take(i as int)),
                out@ == kept(persisted@.take(i as int), keep.take(i as int)),
            decreases n - i,
        {
            let p = &persisted[i];
            let same_name = match &reported[i] {
                Some(rn) => str_eq(rn.as_str(), p.name.as_str()),
                None => false,
            };
            let survive = alive[i] && same_name;
            assert(survive == keep[i as int]);
            proof {
                assert(persisted@.take(i + 1).drop_last() =~= persisted@.take(i as int));
                assert(keep.take(i + 1).drop_last() =~= keep.take(i as int));
                assert(persisted@.take(i + 1).last() == persisted@[i as int]);
                assert(keep.take(i + 1).last() == keep[i as int]);
            }
            if survive {
                let vm = RunningVm {
                    pid: p.pid,
                    vnc_display: 0,
                    websocket_port: 0,
                    qmp_port: p.qmp_port,
                    spice_port: p.spice_port,
                    owned: false,
                };
                self.insert(p.name.clone(), vm);
                out.push(
                    PersistedVm {
                        name: p.name.clone(),
                        pid: p.pid,
                        qmp_port: p.qmp_port,
                        spice_port: p.spice_port,
                    },
                );
            }
            i = i + 1;
        }
        assert(persisted@.take(n as int) =~= persisted@);
        assert(keep.take(n as int) =~= keep);
        out
    }

    /// The QMP port of the VM named `name`, if it is running.
    pub fn qmp_port_if_running(&self, name: &str) -> (r: Option<u16>)
        requires
            self.wf(),
        ensures
            r == (if self.view().contains_key(name@) {
                Some(self.view()[name@].qmp_port)
            } else {
                None
            }),
    {
        match self.get(name) {
            Some(vm) => Some(vm.qmp_port),
            None => None,
        }
    }

    /// The QMP port of a running VM, or an error naming it when it is not running.
    pub fn running_qmp_port(&self, name: &str) -> (r: Result<u16, String>)
        requires
            self.wf(),
        ensures
            match r {
                Ok(p) => self.view().contains_key(name@) && p == self.view()[name@].qmp_port,
                Err(m) => !self.view().contains_key(name@) && m@ == not_running_text(name@),
            },
    {
        match self.get(name) {
            Some(vm) => Ok(vm.qmp_port),
            None => Err(not_running_message(name)),
        }
    }

    /// Refuses to start a VM that is already running.
    pub fn check_can_start(&self, name: &str) -> (r: Result<(), String>)
        requires
            self.wf(),
        ensures
            match r {
                Ok(()) => !self.view().contains_key(name@),
                Err(m) => self.view().contains_key(name@) && m@ == "'"@ + name@
                    + "' is already running"@,
            },
    {
        if self.contains(name) {
            let mut m = "'".to_owned();
            m.append(name);
            m.append("' is already running");
            Err(m)
        } else {
            Ok(())
        }
    }

    /// Refuses to delete a VM that is running.
    pub fn check_can_delete(&self, name: &str) -> (r: Result<(), String>)
        requires
            self.wf(),
        ensures
            match r {
                Ok(()) => !self.view().contains_key(name@),
                Err(m) => self.view().contains_key(name@) && m@
                    == "Stop the VM before deleting it"@,
            },
    {
        if self.contains(name) {
            Err("Stop the VM before deleting it".to_owned())
        } else {
            Ok(())
        }
    }

    /// Takes a running VM out of the registry so its process can be killed.
    pub fn take_for_kill(&mut self, name: &str) -> (r: Result<RunningVm, String>)
        requires
            old(self).wf(),
        ensures
            final(self).wf(),
            final(self).view() == old(self).view().remove(name@),
            match r {
                Ok(vm) => old(self).view().get(name@) == Some(vm),
                Err(m) => !old(self).view().contains_key(name@) && m@ == not_running_text(name@),
            },
    {
        match self.remove(name) {
            Some(vm) => Ok(vm),
            None => Err(not_running_message(name)),
        }
    }

    /// The SPICE address the external viewer connects to for the VM named
    /// `name`; an error when it is not running, or when it was reattached from
    /// a session that predates SPICE (port 0).
    pub fn spice_url(&self, name: &str) -> (r: Result<String, String>)
        requires
            self.wf(),
        ensures
            match r {
                Ok(u) => self.view().contains_key(name@) && self.view()[name@].spice_port != 0
                    && u@ == "spice://127.0.0.1:"@ + decimal(self.view()[name@].spice_port as nat),
                Err(m) => if self.view().contains_key(name@) {
                    self.view()[name@].spice_port == 0 && m@ == pre_spice_text()
                } else {
                    m@ == not_running_text(name@)
                },
            },
    {
        match self.get(name) {
            None => Err(not_running_message(name)),
            Some(vm) => {
                if vm.spice_port == 0 {
                    Err(pre_spice_message())
                } else {
                    let mut u = "spice://127.0.0.1:".to_owned();
                    push_decimal(&mut u, vm.spice_port as u64);
                    Ok(u)
                }
            },
        }
    }

    /// Each VM with whether it is running and, if so, the websocket port its
    /// display listens on.
    pub fn statuses(&self, configs: Vec<VmConfig>) -> (r: Vec<VmStatus>)
        requires
            self.wf(),
        ensures
            r@.len() == configs@.len(),
            forall|i: int|
                0 <= i < r@.len() ==> status_matches(#[trigger] r@[i], configs@[i], self.view()),
    {
        let ghost all = configs@;
        let n = configs.len();
        let mut rest = configs;
        let mut out: Vec<VmStatus> = Vec::new();
        let mut i: usize = 0;
        while i < n
            invariant
                self.wf(),
                n == all.len(),
                i <= n,
                rest@ == all.skip(i as int),
                out@.len() == i,
                forall|j: int| 0 <= j < i ==> status_matches(#[trigger] out@[j], all[j], self.view()),
            decreases n - i,
        {
            assert(rest@.len() > 0);
            let config = rest.remove(0);
            assert(config == all[i as int]);
            assert(rest@ =~= all.skip(i + 1));
            let vm = self.get(config.name.as_str());
            let (running, websocket_port) = match vm {
                Some(v) => (true, Some(v.websocket_port)),
                None => (false, None),
            };
            out.push(VmStatus { config, running, websocket_port });
            i = i + 1;
        }
        out
    }
}

/// `p` records the VM `vm` running under `name`.
pub open spec fn persisted_matches(p: PersistedVm, name: Seq<char>, vm: RunningVm) -> bool {
    &&& p.name@ == name
    &&& p.pid == vm.pid
    &&& p.qmp_port == vm.qmp_port
    &&& p.spice_port == vm.spice_port
}

/// A recorded VM is trusted when its process is alive and QMP reports its name.
pub open spec fn survives(p: PersistedVm, alive: bool, reported: Option<String>) -> bool {
    alive && match reported {
        Some(n) => n@ == p.name@,
        None => false,
    }
}

/// Which recorded VMs are trusted.
pub open spec fn keep_flags(
    ps: Seq<PersistedVm>,
    alive: Seq<bool>,
    reported: Seq<Option<String>>,
) -> Seq<bool> {
    Seq::new(ps.len(), |i: int| survives(ps[i], alive[i], reported[i]))
}

/// The registry entry of a reattached VM: its recorded PID and control ports;
/// the display ports are not recorded and read 0.
pub open spec fn reattached(p: PersistedVm) -> RunningVm {
    RunningVm {
        pid: p.pid,
        vnc_display: 0,
        websocket_port: 0,
        qmp_port: p.qmp_port,
        spice_port: p.spice_port,
        owned: false,
    }
}

/// `m` with the trusted recorded VMs added, in order.
pub open spec fn reconciled(
    m: Map<Seq<char>, RunningVm>,
    ps: Seq<PersistedVm>,
    keep: Seq<bool>,
) -> Map<Seq<char>, RunningVm>
    decreases ps.len(),
{
    if ps.len() == 0 || keep.len() != ps.len() {
        m
    } else {
        let before = reconciled(m, ps.drop_last(), keep.drop_last());
        if keep.last() {
            before.insert(ps.last().name@, reattached(ps.last()))
        } else {
            before
        }
    }
}

/// The trusted recorded VMs, in order.
pub open spec fn kept(ps: Seq<PersistedVm>, keep: Seq<bool>) -> Seq<PersistedVm>
    decreases ps.len(),
{
    if ps.len() == 0 || keep.len() != ps.len() {
        Seq::empty()
    } else {
        let before = kept(ps.drop_last(), keep.drop_last());
        if keep.last() {
            before.push(ps.last())
        } else {
            before
        }
    }
}

/// "'<name>' is not running".
pub open spec fn not_running_text(name: Seq<char>) -> Seq<char> {
    "'"@ + name + "' is not running"@
}

/// The error for a command on a VM that is not running.
pub fn not_running_message(name: &str) -> (r: String)
    ensures
        r@ == not_running_text(name@),
{
    let mut m = "'".to_owned();
    m.append(name);
    m.append("' is not running");
    m
}

/// The error for a viewer request on a VM reattached from before SPICE support.
pub open spec fn pre_spice_text() -> Seq<char> {
    "This VM was started before SPICE support \u{2014} stop and start it again to open it in virt-viewer."@
}

fn pre_spice_message() -> (r: String)
    ensures
        r@ == pre_spice_text(),
{
    "This VM was started before SPICE support \u{2014} stop and start it again to open it in virt-viewer.".to_owned()
}

/// Connection details the embedded viewer needs for a running VM.
#[derive(Clone, Debug, PartialEq, Eq)]
pub struct RunningInfo {
    pub name: String,
    pub websocket_port: u16,
    pub vnc_display: u16,
    pub qmp_port: u16,
    pub spice_port: u16,
    /// Whether the guest's vCPUs are paused.
    pub paused: bool,
}

/// The connection details of the VM `vm` running under `name`.
pub fn running_info(name: &str, vm: &RunningVm, paused: bool) -> (r: RunningInfo)
    ensures
        r.name@ == name@,
        r.websocket_port == vm.websocket_port,
        r.vnc_display == vm.vnc_display,
        r.qmp_port == vm.qmp_port,
        r.spice_port == vm.spice_port,
        r.paused == paused,
{
    RunningInfo {
        name: name.to_owned(),
        websocket_port: vm.websocket_port,
        vnc_display: vm.vnc_display,
        qmp_port: vm.qmp_port,
        spice_port: vm.spice_port,
        paused,
    }
}

/// A VM and whether it is running: what the VM list shows.
#[derive(Clone, Debug, PartialEq, Eq)]
pub struct VmStatus {
    pub config: VmConfig,
    pub running: bool,
    pub websocket_port: Option<u16>,
}

/// `s` shows `config` with its state in `running`.
pub open spec fn status_matches(s: VmStatus, config: VmConfig, running: Map<Seq<char>, RunningVm>) -> bool {
    &&& s.config == config
    &&& s.running == running.contains_key(config.name@)
    &&& s.websocket_port == (if running.contains_key(config.name@) {
        Some(running[config.name@].websocket_port)
    } else {
        None
    })
}

} // verus!
