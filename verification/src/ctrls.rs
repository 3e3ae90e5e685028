//! Controller-value memory: remembers the last value seen for each of a
//! fixed set of controller numbers, so a scene can restore them later.
//! Storing keys off the first matching controller number; restoring emits
//! the remembered (controller, value) pairs in controller order, skipping
//! slots that hold nothing.

use vstd::prelude::*;

verus! {

/// The pairs a memory emits when restored: for each slot in order, the
/// controller number with its remembered value, and nothing for an empty
/// slot.
pub open spec fn spec_restored(ctrls: Seq<u32>, values: Seq<Option<i32>>) -> Seq<(u32, i32)>
    recommends
        ctrls.len() == values.len(),
    decreases ctrls.len(),
{
    if ctrls.len() == 0 {
        Seq::empty()
    } else {
        let prefix = spec_restored(ctrls.drop_last(), values.drop_last());
        match values.last() {
            Some(v) => prefix.push((ctrls.last(), v)),
            None => prefix,
        }
    }
}

/// Memory for a fixed set of controller numbers, with one optional
/// remembered value per controller.
pub struct CtrlsMemory {
    /// The controller numbers this memory watches, in emit order.
    pub ctrls: Vec<u32>,
    /// One remembered value per controller, in the same order.
    pub values: Vec<Option<i32>>,
}

impl CtrlsMemory {
    /// Well-formedness: one value slot per controller.
    pub open spec fn wf(&self) -> bool {
        self.values@.len() == self.ctrls@.len()
    }

    /// A memory for the given controllers, every slot holding the initial
    /// value.
    pub fn new(ctrls: Vec<u32>, initial_value: Option<i32>) -> (r: Self)
        ensures
            r.wf(),
            r.ctrls@ == ctrls@,
            forall|i: int| 0 <= i < r.values@.len() ==> r.values@[i] == initial_value,
    {
        let mut values: Vec<Option<i32>> = Vec::new();
        let mut i: usize = 0;
        while i < ctrls.len()
            invariant
                i <= ctrls@.len(),
                values@.len() == i,
                forall|j: int| 0 <= j < i ==> values@[j] == initial_value,
            decreases ctrls@.len() - i,
        {
            values.push(initial_value);
            i = i + 1;
        }
        CtrlsMemory { ctrls, values }
    }

    /// Remember `value` for `ctrl`: the first slot watching that controller
    /// is overwritten; a controller this memory does not watch is ignored.
    pub fn store(&mut self, ctrl: u32, value: i32)
        requires
            old(self).wf(),
        ensures
            final(self).wf(),
            final(self).ctrls == old(self).ctrls,
            !old(self).ctrls@.contains(ctrl) ==> final(self).values == old(self).values,
            old(self).ctrls@.contains(ctrl) ==> exists|i: int|
                0 <= i < old(self).ctrls@.len() && old(self).ctrls@[i] == ctrl && (forall|j: int|
                    0 <= j < i ==> old(self).ctrls@[j] != ctrl) && final(self).values@ == old(
                    self,
                ).values@.update(i, Some(value)),
    {
        let mut i: usize = 0;
        while i < self.ctrls.len()
            invariant
                self.wf(),
                self.ctrls == old(self).ctrls,
                self.values == old(self).values,
                i <= self.ctrls@.len(),
                forall|j: int| 0 <= j < i ==> self.ctrls@[j] != ctrl,
            decreases self.ctrls@.len() - i,
        {
            if self.ctrls[i] == ctrl {
                let slot = vstd::std_specs::vec::vec_index_mut(&mut self.values, i);
                *slot = Some(value);
                proof {
                    assert(old(self).ctrls@.contains(ctrl)) by {
                        assert(old(self).ctrls@[i as int] == ctrl);
                    }
                    let w = i as int;
                    assert(0 <= w < old(self).ctrls@.len() && old(self).ctrls@[w] == ctrl && (
                    forall|j: int| 0 <= j < w ==> old(self).ctrls@[j] != ctrl) && self.values@
                        == old(self).values@.update(w, Some(value)));
                }
                return;
            }
            i = i + 1;
        }
        proof {
            assert(!old(self).ctrls@.contains(ctrl)) by {
                if old(self).ctrls@.contains(ctrl) {
                    let w = choose|w: int|
                        0 <= w < old(self).ctrls@.len() && old(self).ctrls@[w] == ctrl;
                    assert(self.ctrls@[w] != ctrl);
                }
            }
        }
    }

    /// The remembered (controller, value) pairs, in controller order,
    /// skipping empty slots.
    pub fn restore(&self) -> (r: Vec<(u32, i32)>)
        requires
            self.wf(),
        ensures
            r@ == spec_restored(self.ctrls@, self.values@),
    {
        let mut out: Vec<(u32, i32)> = Vec::new();
        let mut i: usize = 0;
        while i < self.ctrls.len()
            invariant
                self.wf(),
                i <= self.ctrls@.len(),
                out@ == spec_restored(self.ctrls@.take(i as int), self.values@.take(i as int)),
            decreases self.ctrls@.len() - i,
        {
            match self.values[i] {
                Some(v) => out.push((self.ctrls[i], v)),
                None => {},
            }
            proof {
                let c1 = self.ctrls@.take(i as int + 1);
                let v1 = self.values@.take(i as int + 1);
                assert(c1.drop_last() =~= self.ctrls@.take(i as int));
                assert(v1.drop_last() =~= self.values@.take(i as int));
                assert(c1.last() == self.ctrls@[i as int]);
                assert(v1.last() == self.values@[i as int]);
                assert(out@ == spec_restored(c1, v1));
            }
            i = i + 1;
        }
        proof {
            assert(self.ctrls@.take(self.ctrls@.len() as int) =~= self.ctrls@);
            assert(self.values@.take(self.ctrls@.len() as int) =~= self.values@);
        }
        out
    }
}

} // verus!
