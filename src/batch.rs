use vstd::prelude::*;

verus! {

/// A report waiting for its batch, with where its reply goes.
pub struct Pending<T> {
    /// The reporting device.
    pub device_id: String,
    /// The reporter's private reply destination.
    pub reply_to: String,
    /// The correlation identifier to send the reply under.
    pub correlation_id: String,
    /// The report itself.
    pub report: T,
}

/// Gathers one report per distinct device until the batch is complete.
pub struct BatchCollector<T> {
    /// Number of devices of a complete batch.
    pub num_agents: usize,
    /// The reports gathered so far, in order of first arrival.
    pub pending: Vec<Pending<T>>,
}

/// No two pending reports come from the same device.
pub open spec fn distinct_devices<T>(pending: Seq<Pending<T>>) -> bool {
    forall|a: int, b: int|
        0 <= a < b < pending.len() ==> (#[trigger] pending[a]).device_id@ != (#[trigger] pending[b]).device_id@
}

/// Index of the pending report of device `id`, or -1.
pub open spec fn slot_of<T>(pending: Seq<Pending<T>>, id: Seq<char>) -> int {
    if exists|k: int| 0 <= k < pending.len() && (#[trigger] pending[k]).device_id@ == id {
        choose|k: int| 0 <= k < pending.len() && (#[trigger] pending[k]).device_id@ == id
    } else {
        -1
    }
}

impl<T> BatchCollector<T> {
    pub open spec fn wf(&self) -> bool {
        distinct_devices(self.pending@)
    }

    pub fn new(num_agents: usize) -> (r: Self)
        ensures
            r.wf(),
            r.num_agents == num_agents,
            r.pending@.len() == 0,
    {
        BatchCollector { num_agents, pending: Vec::new() }
    }

    /// Takes in one delivery. One without a reply destination or a
    /// correlation identifier cannot be answered and is dropped. A second
    /// report of a device replaces its first, in its place; a report of a
    /// new device joins the end. Returns whether the report was kept.
    pub fn receive(
        &mut self,
        device_id: String,
        reply_to: Option<String>,
        correlation_id: Option<String>,
        report: T,
    ) -> (kept: bool)
        requires
            old(self).wf(),
        ensures
            final(self).wf(),
            final(self).num_agents == old(self).num_agents,
            kept == (reply_to is Some && correlation_id is Some),
            !kept ==> final(self).pending@ == old(self).pending@,
            kept ==> ({
                let p = Pending {
                    device_id,
                    reply_to: reply_to->Some_0,
                    correlation_id: correlation_id->Some_0,
                    report,
                };
                let k = slot_of(old(self).pending@, device_id@);
                if k >= 0 {
                    final(self).pending@ == old(self).pending@.update(k, p)
                } else {
                    final(self).pending@ == old(self).pending@.push(p)
                }
            }),
    {
        let (reply_to, correlation_id) = match (reply_to, correlation_id) {
            (Some(r), Some(c)) => (r, c),
            _ => {
                return false;
            },
        };
        let ghost before = self.pending@;
        let mut i: usize = 0;
        let mut found = false;
        while i < self.pending.len() && !found
            invariant
                self.pending@ == before,
                i <= before.len(),
                found ==> i < before.len() && before[i as int].device_id@ == device_id@,
                forall|m: int| 0 <= m < i ==> (#[trigger] before[m]).device_id@ != device_id@,
            decreases before.len() - i + if found { 0int } else { 1int },
        {
            if self.pending[i].device_id == device_id {
                found = true;
            } else {
                i = i + 1;
            }
        }
        if found {
            proof {
                let k = slot_of(before, device_id@);
                assert(before[i as int].device_id@ == device_id@);
                assert(0 <= k < before.len() && before[k].device_id@ == device_id@);
                if k != i as int {
                    if k < i {
                        assert(before[k].device_id@ != device_id@);
                    } else {
                        assert(before[i as int].device_id@ != before[k].device_id@);
                    }
                }
            }
            self.pending[i] = Pending { device_id, reply_to, correlation_id, report };
        } else {
            proof {
                assert(i == before.len());
                if exists|k: int| 0 <= k < before.len() && (#[trigger] before[k]).device_id@ == device_id@ {
                    let k = choose|k: int| 0 <= k < before.len() && (#[trigger] before[k]).device_id@ == device_id@;
                    assert(before[k].device_id@ != device_id@);
                }
            }
            self.pending.push(Pending { device_id, reply_to, correlation_id, report });
        }
        assert(distinct_devices(self.pending@)) by {
            assert forall|a: int, b: int| 0 <= a < b < self.pending@.len() implies (#[trigger] self.pending@[a]).device_id@
                != (#[trigger] self.pending@[b]).device_id@ by {
                if b == i as int {
                    assert(before[a].device_id@ != device_id@);
                } else if a == i as int {
                    assert(before[b].device_id@ != device_id@ || b >= before.len());
                } else {
                    assert(before[a].device_id@ != before[b].device_id@);
                }
            }
        }
        true
    }

    /// Hands over the whole batch once it holds `num_agents` reports, and
    /// starts an empty one; otherwise hands over nothing.
    pub fn take_batch(&mut self) -> (r: Option<Vec<Pending<T>>>)
        requires
            old(self).wf(),
        ensures
            final(self).wf(),
            final(self).num_agents == old(self).num_agents,
            old(self).pending@.len() == old(self).num_agents ==> (r matches Some(b) && b@
                == old(self).pending@ && final(self).pending@.len() == 0),
            old(self).pending@.len() != old(self).num_agents ==> (r is None && final(self).pending@
                == old(self).pending@),
    {
        if self.pending.len() != self.num_agents {
            return None;
        }
        let mut batch: Vec<Pending<T>> = Vec::new();
        std::mem::swap(&mut batch, &mut self.pending);
        Some(batch)
    }
}

} // verus!
