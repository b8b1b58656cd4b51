use crate::types::{Input, KeyState};
use vstd::prelude::*;

verus! {

/// The current state of every input that has been seen.
///
/// An input that was never recorded counts as released.
pub struct InputTracker {
    entries: Vec<(Input, KeyState)>,
    states: Ghost<Map<Input, KeyState>>,
}

/// The state of `i` in a tracker's view.
pub open spec fn state_in(m: Map<Input, KeyState>, i: Input) -> KeyState {
    if m.contains_key(i) {
        m[i]
    } else {
        KeyState::Released
    }
}

impl View for InputTracker {
    type V = Map<Input, KeyState>;

    closed spec fn view(&self) -> Map<Input, KeyState> {
        self.states@
    }
}

impl InputTracker {
    pub closed spec fn wf(&self) -> bool {
        &&& forall|j: int|
            0 <= j < self.entries@.len() ==> #[trigger] self.states@.contains_key(
                self.entries@[j].0,
            ) && self.states@[self.entries@[j].0] == self.entries@[j].1
        &&& forall|i: Input|
            #[trigger] self.states@.contains_key(i) ==> exists|j: int|
                0 <= j < self.entries@.len() && self.entries@[j].0 == i
        &&& forall|j: int, k: int|
            0 <= j < k < self.entries@.len() ==> self.entries@[j].0 != self.entries@[k].0
    }

    pub fn new() -> (r: InputTracker)
        ensures
            r.wf(),
            r@ == Map::<Input, KeyState>::empty(),
    {
        InputTracker { entries: Vec::new(), states: Ghost(Map::empty()) }
    }

    /// Where `i` stands among the entries, if anywhere.
    fn position(&self, i: Input) -> (r: Option<usize>)
        requires
            self.wf(),
        ensures
            match r {
                Some(j) => j < self.entries@.len() && self.entries@[j as int].0 == i,
                None => !self@.contains_key(i),
            },
    {
        let mut j: usize = 0;
        while j < self.entries.len()
            invariant
                self.wf(),
                j <= self.entries@.len(),
                forall|k: int| 0 <= k < j ==> self.entries@[k].0 != i,
            decreases self.entries@.len() - j,
        {
            if self.entries[j].0 == i {
                return Some(j);
            }
            j = j + 1;
        }
        None
    }

    /// The state of `i`: released if it was never recorded.
    pub fn current(&self, i: Input) -> (r: KeyState)
        requires
            self.wf(),
        ensures
            r == state_in(self@, i),
    {
        match self.position(i) {
            Some(j) => self.entries[j].1,
            None => KeyState::Released,
        }
    }

    fn record(&mut self, i: Input, s: KeyState)
        requires
            old(self).wf(),
        ensures
            final(self).wf(),
            final(self)@ == old(self)@.insert(i, s),
    {
        let pos = self.position(i);
        match pos {
            Some(j) => {
                self.entries.set(j, (i, s));
            },
            None => {
                self.entries.push((i, s));
            },
        }
        self.states = Ghost(self.states@.insert(i, s));
        assert forall|k: Input| #[trigger] self.states@.contains_key(k) implies exists|j: int|
            0 <= j < self.entries@.len() && self.entries@[j].0 == k by {
            if k != i {
                let j = choose|j: int| 0 <= j < old(self).entries@.len() && old(self).entries@[j].0 == k;
                assert(self.entries@[j].0 == k);
            } else {
                match pos {
                    Some(j) => assert(self.entries@[j as int].0 == k),
                    None => assert(self.entries@[old(self).entries@.len() as int].0 == k),
                }
            }
        }
    }

    /// Marks `i` as held since `timestamp`, whatever its state was.
    pub fn record_press(&mut self, i: Input, timestamp: u64)
        requires
            old(self).wf(),
        ensures
            final(self).wf(),
            final(self)@ == old(self)@.insert(i, KeyState::Pressed(timestamp)),
    {
        self.record(i, KeyState::Pressed(timestamp));
    }

    /// Marks `i` as released.
    pub fn record_release(&mut self, i: Input)
        requires
            old(self).wf(),
        ensures
            final(self).wf(),
            final(self)@ == old(self)@.insert(i, KeyState::Released),
    {
        self.record(i, KeyState::Released);
    }
}

} // verus!
