use vstd::prelude::*;

use crate::sparse_vec::SparseVec;

verus! {

/// The destination that a jump with several destinations shows in place of one.
pub const NO_SINGLE_DESTINATION: u16 = 0xDBAD;

/// What was seen of the jump instruction at one address.
pub struct JumpData {
    pub source: u16,
    pub dest: u16,
    pub instruction_name: &'static str,
    pub condition_name: &'static str,
    pub conditional: bool,
    pub jump_taken: bool,
    pub jump_skipped: bool,
    pub multiple_destinations: bool,
    pub destinations: Vec<u16>,
}

/// Whether `v` holds `x`.
fn vec_contains(v: &Vec<u16>, x: u16) -> (r: bool)
    ensures
        r == v@.contains(x),
{
    let mut i: usize = 0;
    while i < v.len()
        invariant
            i <= v@.len(),
            forall|j: int| 0 <= j < i ==> v@[j] != x,
        decreases v@.len() - i,
    {
        if v[i] == x {
            assert(v@[i as int] == x);
            return true;
        }
        i = i + 1;
    }
    false
}

/// The record `post` is `pre` after a jump to `new_dest`: a second
/// destination turns it into a record of several destinations, listing each
/// once and showing the placeholder destination.
pub open spec fn destinations_updated(pre: JumpData, post: JumpData, new_dest: u16) -> bool {
    &&& post.source == pre.source
    &&& post.conditional == pre.conditional
    &&& post.jump_taken == pre.jump_taken
    &&& post.jump_skipped == pre.jump_skipped
    &&& post.instruction_name == pre.instruction_name
    &&& post.condition_name == pre.condition_name
    &&& (!pre.multiple_destinations && new_dest == pre.dest ==> post.dest
        == pre.dest && !post.multiple_destinations && post.destinations@
        == pre.destinations@)
    &&& (pre.multiple_destinations || new_dest != pre.dest ==> {
        &&& post.multiple_destinations
        &&& post.dest == if pre.multiple_destinations {
            pre.dest
        } else {
            NO_SINGLE_DESTINATION
        }
        &&& post.destinations@.to_set() == (if pre.multiple_destinations {
            pre.destinations@.to_set()
        } else {
            pre.destinations@.to_set().insert(pre.dest)
        }).insert(new_dest)
    })
}

impl JumpData {
    /// The destinations seen are each listed once.
    pub open spec fn wf(&self) -> bool {
        self.destinations@.no_duplicates()
    }

    /// A conditional jump seen for the first time, taken or skipped.
    pub fn new_conditional(
        source: u16,
        dest: u16,
        instruction_name: &'static str,
        condition_name: &'static str,
        jump_taken: bool,
    ) -> (r: JumpData)
        ensures
            r.wf(),
            r.source == source && r.dest == dest,
            r.instruction_name == instruction_name && r.condition_name == condition_name,
            r.conditional,
            r.jump_taken == jump_taken && r.jump_skipped == !jump_taken,
            !r.multiple_destinations,
            r.destinations@.len() == 0,
    {
        JumpData {
            source,
            dest,
            instruction_name,
            condition_name,
            conditional: true,
            jump_taken,
            jump_skipped: !jump_taken,
            multiple_destinations: false,
            destinations: Vec::new(),
        }
    }

    /// An unconditional jump seen for the first time.
    pub fn new_not_conditional(source: u16, dest: u16, instruction_name: &'static str) -> (r: JumpData)
        ensures
            r.wf(),
            r.source == source && r.dest == dest,
            r.instruction_name == instruction_name && r.condition_name == "",
            !r.conditional,
            r.jump_taken && !r.jump_skipped,
            !r.multiple_destinations,
            r.destinations@.len() == 0,
    {
        JumpData {
            source,
            dest,
            instruction_name,
            condition_name: "",
            conditional: false,
            jump_taken: true,
            jump_skipped: false,
            multiple_destinations: false,
            destinations: Vec::new(),
        }
    }

    /// Records that the jump went to `new_dest`. A second destination turns
    /// the record into one of several destinations, listing each once.
    pub fn update_destinations(&mut self, new_dest: u16)
        requires
            old(self).wf(),
        ensures
            final(self).wf(),
            final(self).source == old(self).source,
            final(self).conditional == old(self).conditional,
            final(self).jump_taken == old(self).jump_taken,
            final(self).jump_skipped == old(self).jump_skipped,
            final(self).instruction_name == old(self).instruction_name,
            final(self).condition_name == old(self).condition_name,
            destinations_updated(*old(self), *final(self), new_dest),
    {
        if self.multiple_destinations || new_dest != self.dest {
            if !self.multiple_destinations {
                let d = self.dest;
                if !vec_contains(&self.destinations, d) {
                    self.destinations.push(d);
                    assert(self.destinations@.last() == d);
                }
                assert(self.destinations@.contains(d));
                self.dest = NO_SINGLE_DESTINATION;
                self.multiple_destinations = true;
            }
            let ghost mid = self.destinations@;
            if !vec_contains(&self.destinations, new_dest) {
                self.destinations.push(new_dest);
                assert(self.destinations@.last() == new_dest);
            }
            assert(self.destinations@.contains(new_dest));
            proof {
                let o = old(self).destinations@;
                let n = self.destinations@;
                assert(n == mid || n == mid.push(new_dest));
                assert forall|x: u16| mid.contains(x) implies n.contains(x) by {
                    let j = choose|j: int| 0 <= j < mid.len() && mid[j] == x;
                    assert(n[j] == x);
                }
                let expected = (if old(self).multiple_destinations {
                    o.to_set()
                } else {
                    o.to_set().insert(old(self).dest)
                }).insert(new_dest);
                assert(n.to_set() =~= expected) by {
                    assert forall|x: u16| n.to_set().contains(x) <==> expected.contains(x) by {
                        if o.contains(x) {
                            let j = choose|j: int| 0 <= j < o.len() && o[j] == x;
                            assert(mid[j] == x);
                        }
                        if n.contains(x) {
                            let j = choose|j: int| 0 <= j < n.len() && n[j] == x;
                            if j < mid.len() {
                                assert(mid[j] == x);
                                if j < o.len() {
                                    assert(o[j] == x);
                                }
                            }
                        }
                    }
                }
            }
        }
    }
}

/// Why a jump could not be recorded.
#[derive(Clone, Copy, Debug, PartialEq, Eq, Structural)]
pub enum MetricsError {
    /// A conditional jump at this address went somewhere else before.
    ConditionalWithMultipleDestinations(u16),
}

/// The jumps that the program has made, by the address of the jump.
pub struct DebugMetrics {
    pub jumps: SparseVec<u16, JumpData>,
}

impl DebugMetrics {
    pub open spec fn wf(&self) -> bool {
        &&& self.jumps.wf()
        &&& forall|i: int|
            0 <= i < self.jumps.keys().len() ==> (#[trigger] self.jumps.values()[i]).wf()
                && self.jumps.values()[i].source == self.jumps.keys()[i]
    }

    pub fn new() -> (r: DebugMetrics)
        ensures
            r.wf(),
            r.jumps.keys().len() == 0,
    {
        DebugMetrics { jumps: SparseVec::new() }
    }

    /// Records a conditional jump at `source` to `dest`, taken or skipped.
    /// A conditional jump seen before with another destination is an error.
    pub fn jump_conditional(
        &mut self,
        source: u16,
        dest: u16,
        instruction_name: &'static str,
        condition_name: &'static str,
        jump_taken: bool,
    ) -> (r: Result<(), MetricsError>)
        requires
            old(self).wf(),
        ensures
            final(self).wf(),
            forall|k: u16| k != source ==> (#[trigger] final(self).jumps.keys().contains(k)
                <==> old(self).jumps.keys().contains(k)),
            r is Ok ==> final(self).jumps.keys().contains(source),
            !old(self).jumps.keys().contains(source) ==> r is Ok && forall|i: int|
                0 <= i < final(self).jumps.keys().len() && final(self).jumps.keys()[i] == source
                    ==> {
                    let j = #[trigger] final(self).jumps.values()[i];
                    j.dest == dest && j.conditional && j.jump_taken == jump_taken && j.jump_skipped
                        == !jump_taken
                },
            forall|i: int|
                0 <= i < old(self).jumps.keys().len() && old(self).jumps.keys()[i] == source ==> {
                    let o = #[trigger] old(self).jumps.values()[i];
                    &&& (o.dest == dest <==> r is Ok)
                    &&& r is Err ==> r == Err::<(), MetricsError>(
                        MetricsError::ConditionalWithMultipleDestinations(source),
                    )
                    &&& r is Ok ==> forall|k: int|
                        0 <= k < final(self).jumps.keys().len() && final(self).jumps.keys()[k]
                            == source ==> {
                            let j = #[trigger] final(self).jumps.values()[k];
                            &&& j.dest == o.dest
                            &&& j.conditional == o.conditional
                            &&& j.jump_taken == (o.jump_taken || jump_taken)
                            &&& j.jump_skipped == (o.jump_skipped || !jump_taken)
                        }
                },
    {
        let ghost pre = self.jumps;
        proof {
            pre.lemma_lengths();
        }
        match self.jumps.remove(&source) {
            Some(mut jump) => {
                let ghost mid = self.jumps;
                proof {
                    let i = choose|i: int| 0 <= i < pre.keys().len() && pre.keys()[i] == source;
                    assert(pre.values()[i].wf() && pre.values()[i].source == source);
                }
                if jump.dest != dest {
                    self.jumps.insert(source, jump);
                    proof {
                        self.lemma_after_insert(pre, mid, source);
                    }
                    return Err(MetricsError::ConditionalWithMultipleDestinations(source));
                }
                if jump_taken {
                    jump.jump_taken = true;
                } else {
                    jump.jump_skipped = true;
                }
                self.jumps.insert(source, jump);
                proof {
                    self.lemma_after_insert(pre, mid, source);
                }
            },
            None => {
                let ghost mid = self.jumps;
                self.jumps.insert(
                    source,
                    JumpData::new_conditional(source, dest, instruction_name, condition_name, jump_taken),
                );
                proof {
                    self.lemma_after_insert(pre, mid, source);
                }
            },
        }
        Ok(())
    }

    /// The record keeps its link to its key after a remove and an insert of
    /// that key.
    proof fn lemma_after_insert(&self, pre: SparseVec<u16, JumpData>, mid: SparseVec<u16, JumpData>, source: u16)
        requires
            self.jumps.wf(),
            pre.wf(),
            forall|i: int| 0 <= i < pre.keys().len() ==> (#[trigger] pre.values()[i]).wf() && pre.values()[i].source == pre.keys()[i],
            forall|i: int| 0 <= i < self.jumps.keys().len() && self.jumps.keys()[i] == source ==> (#[trigger] self.jumps.values()[i]).wf() && self.jumps.values()[i].source == source,
            forall|i: int, j: int| 0 <= i < self.jumps.keys().len() && 0 <= j < mid.keys().len()
                && #[trigger] self.jumps.keys()[i] == #[trigger] mid.keys()[j] && mid.keys()[j] != source
                ==> self.jumps.values()[i] == mid.values()[j],
            forall|i: int, j: int| 0 <= i < mid.keys().len() && 0 <= j < pre.keys().len()
                && #[trigger] mid.keys()[i] == #[trigger] pre.keys()[j]
                ==> mid.values()[i] == pre.values()[j],
            forall|k: u16| k != source ==> (#[trigger] self.jumps.keys().contains(k) <==> mid.keys().contains(k)),
            forall|k: u16| k != source ==> (#[trigger] mid.keys().contains(k) <==> pre.keys().contains(k)),
        ensures
            self.wf(),
    {
        self.jumps.lemma_lengths();
        assert forall|i: int| 0 <= i < self.jumps.keys().len() implies (#[trigger] self.jumps.values()[i]).wf()
            && self.jumps.values()[i].source == self.jumps.keys()[i] by {
            let k = self.jumps.keys()[i];
            if k != source {
                assert(self.jumps.keys().contains(k));
                assert(mid.keys().contains(k));
                let m = choose|m: int| 0 <= m < mid.keys().len() && mid.keys()[m] == k;
                assert(pre.keys().contains(k));
                let j = choose|j: int| 0 <= j < pre.keys().len() && pre.keys()[j] == k;
                assert(self.jumps.values()[i] == mid.values()[m]);
                assert(mid.values()[m] == pre.values()[j]);
            }
        }
    }

    /// Records an unconditional jump at `source` to `dest`.
    pub fn jump_not_conditional(&mut self, source: u16, dest: u16, instruction_name: &'static str)
        requires
            old(self).wf(),
        ensures
            final(self).wf(),
            final(self).jumps.keys().contains(source),
            forall|k: u16| k != source ==> (#[trigger] final(self).jumps.keys().contains(k)
                <==> old(self).jumps.keys().contains(k)),
            !old(self).jumps.keys().contains(source) ==> forall|i: int|
                0 <= i < final(self).jumps.keys().len() && final(self).jumps.keys()[i] == source
                    ==> {
                    let j = #[trigger] final(self).jumps.values()[i];
                    j.dest == dest && !j.conditional && !j.multiple_destinations
                },
            forall|i: int, k: int|
                0 <= i < old(self).jumps.keys().len() && old(self).jumps.keys()[i] == source && 0 <= k
                    < final(self).jumps.keys().len() && final(self).jumps.keys()[k] == source
                    ==> destinations_updated(
                    #[trigger] old(self).jumps.values()[i],
                    #[trigger] final(self).jumps.values()[k],
                    dest,
                ),
    {
        let ghost pre = self.jumps;
        proof {
            pre.lemma_lengths();
        }
        match self.jumps.remove(&source) {
            Some(mut jump) => {
                let ghost mid = self.jumps;
                proof {
                    let i = choose|i: int| 0 <= i < pre.keys().len() && pre.keys()[i] == source;
                    assert(pre.values()[i].wf() && pre.values()[i].source == source);
                }
                jump.update_destinations(dest);
                self.jumps.insert(source, jump);
                proof {
                    self.lemma_after_insert(pre, mid, source);
                }
            },
            None => {
                let ghost mid = self.jumps;
                self.jumps.insert(source, JumpData::new_not_conditional(source, dest, instruction_name));
                proof {
                    self.lemma_after_insert(pre, mid, source);
                }
            },
        }
    }

    /// Forgets every jump.
    pub fn clear_jumps(&mut self)
        ensures
            final(self).wf(),
            final(self).jumps.keys().len() == 0,
    {
        self.jumps.clear();
    }
}

} // verus!
