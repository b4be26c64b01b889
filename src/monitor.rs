use crate::common::ProcessState;
use std::collections::HashMap;
use vstd::prelude::*;
use vstd::std_specs::hash::group_hash_axioms;

verus! {

broadcast use group_hash_axioms;

/// A registered background process: its id, a human name and its lifecycle state.
#[derive(Debug)]
pub struct Process {
    pub id: u64,
    pub name: String,
    pub state: ProcessState,
}

impl Process {
    pub fn new(id: u64, name: String, state: ProcessState) -> (p: Self)
        ensures
            p.id == id,
            p.name == name,
            p.state == state,
    {
        Process { id, name, state }
    }
}

/// The registry of background processes, keyed by process id.
#[derive(Debug)]
pub struct MonitorProcess {
    processes: HashMap<u64, Process>,
    ids: Vec<u64>,
}

impl View for MonitorProcess {
    type V = Map<u64, Process>;

    closed spec fn view(&self) -> Map<u64, Process> {
        self.processes@
    }
}

impl MonitorProcess {
    /// The ids list holds each registered id exactly once, and each entry is filed
    /// under its own id.
    pub closed spec fn wf(&self) -> bool {
        &&& self.ids@.no_duplicates()
        &&& forall|k: u64|
            #![trigger self.processes@.contains_key(k)]
            #![trigger self.ids@.contains(k)]
            self.processes@.contains_key(k) <==> self.ids@.contains(k)
        &&& forall|k: u64| #[trigger] self.processes@.contains_key(k) ==> self.processes@[k].id == k
    }

    /// An empty registry.
    pub fn new() -> (m: Self)
        ensures
            m.wf(),
            m@ == Map::<u64, Process>::empty(),
    {
        MonitorProcess { processes: HashMap::new(), ids: Vec::new() }
    }

    /// The number of registered processes.
    pub fn len(&self) -> (n: usize)
        requires
            self.wf(),
        ensures
            n == self@.len(),
    {
        proof {
            self.ids@.unique_seq_to_set();
            assert(self.ids@.to_set() =~= self@.dom());
        }
        self.ids.len()
    }

    /// Whether the registry is empty.
    pub fn is_empty(&self) -> (r: bool)
        requires
            self.wf(),
        ensures
            r == (self@ == Map::<u64, Process>::empty()),
    {
        let r = self.ids.len() == 0;
        proof {
            if r {
                assert forall|k: u64| !self@.contains_key(k) by {
                    assert(!self.ids@.contains(k));
                }
                assert(self@ =~= Map::<u64, Process>::empty());
            } else {
                assert(self.ids@.contains(self.ids@[0]));
                assert(self@.contains_key(self.ids@[0]));
            }
        }
        r
    }

    /// The state of process `id`, if it is registered.
    pub fn state_of(&self, id: u64) -> (s: Option<ProcessState>)
        requires
            self.wf(),
        ensures
            s == (if self@.contains_key(id) {
                Some(self@[id].state)
            } else {
                None
            }),
    {
        match self.processes.get(&id) {
            Some(p) => Some(p.state),
            None => None,
        }
    }

    /// Registers `process` under its id, replacing an entry with the same id.
    pub fn add_process(&mut self, process: Process)
        requires
            old(self).wf(),
        ensures
            final(self).wf(),
            final(self)@ == old(self)@.insert(process.id, process),
    {
        let id = process.id;
        if !self.processes.contains_key(&id) {
            proof {
                assert(!old(self).ids@.contains(id));
            }
            self.ids.push(id);
            proof {
                assert(self.ids@[self.ids@.len() - 1] == id);
            }
        }
        self.processes.insert(id, process);
        proof {
            assert(self.ids@.contains(id));
            assert forall|k: u64| k != id implies (self.ids@.contains(k) <==> old(self).ids@.contains(
                k,
            )) by {
                if old(self).ids@.contains(k) {
                    let i = choose|i: int| 0 <= i < old(self).ids@.len() && old(self).ids@[i] == k;
                    assert(self.ids@[i] == k);
                }
                if self.ids@.contains(k) {
                    let i = choose|i: int| 0 <= i < self.ids@.len() && self.ids@[i] == k;
                    assert(old(self).ids@[i] == k);
                }
            }
        }
    }

    /// Marks process `id` as finished, so that it is reaped; an unknown id is ignored.
    pub fn mark_finished(&mut self, id: u64)
        requires
            old(self).wf(),
        ensures
            final(self).wf(),
            old(self)@.contains_key(id) ==> final(self)@ == old(self)@.insert(
                id,
                Process { state: ProcessState::Off, ..old(self)@[id] },
            ),
            !old(self)@.contains_key(id) ==> final(self)@ == old(self)@,
    {
        match self.processes.remove(&id) {
            Some(p) => {
                let finished = Process { id: p.id, name: p.name, state: ProcessState::Off };
                self.processes.insert(id, finished);
                proof {
                    assert(self@ =~= old(self)@.insert(
                        id,
                        Process { state: ProcessState::Off, ..old(self)@[id] },
                    ));
                }
            },
            None => {},
        }
    }

    /// Removes every finished process and returns their ids, each once, for their
    /// threads to be joined.
    pub fn remove_inactive_processes(&mut self) -> (removed: Vec<u64>)
        requires
            old(self).wf(),
        ensures
            final(self).wf(),
            removed@.no_duplicates(),
            forall|k: u64|
                #[trigger] removed@.contains(k) <==> old(self)@.contains_key(k) && old(self)@[k].state
                    == ProcessState::Off,
            forall|k: u64|
                #[trigger] final(self)@.contains_key(k) <==> old(self)@.contains_key(k) && old(
                    self,
                )@[k].state == ProcessState::On,
            forall|k: u64| #[trigger] final(self)@.contains_key(k) ==> final(self)@[k] == old(self)@[k],
    {
        let ghost old_ids = self.ids@;
        let ghost old_map = self.processes@;
        let n = self.ids.len();
        let mut kept: Vec<u64> = Vec::new();
        let mut removed: Vec<u64> = Vec::new();
        let mut i: usize = 0;
        while i < n
            invariant
                n == old_ids.len(),
                old_ids == old(self).ids@,
                old_map == old(self).processes@,
                old(self).wf(),
                self.ids@ == old_ids,
                i <= n,
                kept@.no_duplicates(),
                removed@.no_duplicates(),
                forall|k: u64|
                    #[trigger] kept@.contains(k) <==> old_ids.subrange(0, i as int).contains(k)
                        && old_map.contains_key(k) && old_map[k].state == ProcessState::On,
                forall|k: u64|
                    #[trigger] removed@.contains(k) <==> old_ids.subrange(0, i as int).contains(k)
                        && old_map.contains_key(k) && old_map[k].state == ProcessState::Off,
                forall|k: u64|
                    #[trigger] self.processes@.contains_key(k) <==> old_map.contains_key(k) && !(
                    removed@.contains(k)),
                forall|k: u64| #[trigger] self.processes@.contains_key(k) ==> self.processes@[k] == old_map[k],
            decreases n - i,
        {
            let id = self.ids[i];
            proof {
                assert(old_ids.contains(id));
                assert(old_map.contains_key(id));
                assert(!old_ids.subrange(0, i as int).contains(id)) by {
                    if old_ids.subrange(0, i as int).contains(id) {
                        let j = choose|j: int| 0 <= j < i && old_ids.subrange(0, i as int)[j] == id;
                        assert(old_ids[j] == old_ids[i as int]);
                    }
                }
                assert(old_ids.subrange(0, i + 1) == old_ids.subrange(0, i as int).push(id));
            }
            let finished = match self.processes.get(&id) {
                Some(p) => p.state == ProcessState::Off,
                None => false,
            };
            let ghost kept0 = kept@;
            let ghost removed0 = removed@;
            let ghost map0 = self.processes@;
            proof {
                assert(!kept0.contains(id));
                assert(!removed0.contains(id));
                assert(map0.contains_key(id));
            }
            if finished {
                self.processes.remove(&id);
                removed.push(id);
                proof {
                    assert(kept@ == kept0);
                    assert(self.processes@ == map0.remove(id));
                    assert forall|k: u64| #[trigger] removed@.contains(k) <==> (removed0.contains(k)
                        || k == id) by {
                        if removed@.contains(k) && k != id {
                            let j = choose|j: int| 0 <= j < removed@.len() && removed@[j] == k;
                            assert(removed0[j] == k);
                        }
                        if removed0.contains(k) {
                            let j = choose|j: int| 0 <= j < removed0.len() && removed0[j] == k;
                            assert(removed@[j] == k);
                        }
                        if k == id {
                            assert(removed@[removed@.len() - 1] == id);
                        }
                    }
                }
            } else {
                kept.push(id);
                proof {
                    assert(removed@ == removed0);
                    assert forall|k: u64| #[trigger] kept@.contains(k) <==> (kept0.contains(k) || k
                        == id) by {
                        if kept@.contains(k) && k != id {
                            let j = choose|j: int| 0 <= j < kept@.len() && kept@[j] == k;
                            assert(kept0[j] == k);
                        }
                        if kept0.contains(k) {
                            let j = choose|j: int| 0 <= j < kept0.len() && kept0[j] == k;
                            assert(kept@[j] == k);
                        }
                        if k == id {
                            assert(kept@[kept@.len() - 1] == id);
                        }
                    }
                }
            }
            i = i + 1;
            proof {
                assert forall|k: u64| k != id implies (old_ids.subrange(0, i as int).contains(k)
                    <==> old_ids.subrange(0, i - 1).contains(k)) by {
                    let a = old_ids.subrange(0, i - 1);
                    assert(old_ids.subrange(0, i as int) == a.push(id));
                    if a.push(id).contains(k) {
                        let j = choose|j: int| 0 <= j < a.push(id).len() && a.push(id)[j] == k;
                        assert(a[j] == k);
                    }
                    if a.contains(k) {
                        let j = choose|j: int| 0 <= j < a.len() && a[j] == k;
                        assert(a.push(id)[j] == k);
                    }
                }
                assert(old_ids.subrange(0, i as int).contains(id)) by {
                    assert(old_ids.subrange(0, i as int)[i - 1] == id);
                }
            }
        }
        proof {
            assert(old_ids.subrange(0, n as int) == old_ids);
        }
        self.ids = kept;
        removed
    }

    /// Removes every process, whatever its state, and returns all their ids, each once,
    /// for their threads to be joined; the registry is then empty.
    pub fn join_and_remove_all(&mut self) -> (all: Vec<u64>)
        requires
            old(self).wf(),
        ensures
            final(self).wf(),
            final(self)@ == Map::<u64, Process>::empty(),
            all@.no_duplicates(),
            forall|k: u64| #[trigger] all@.contains(k) <==> old(self)@.contains_key(k),
    {
        let mut all: Vec<u64> = Vec::new();
        std::mem::swap(&mut all, &mut self.ids);
        self.processes.clear();
        all
    }
}

} // verus!
