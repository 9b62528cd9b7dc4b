//! The first layout of the round store: one ring that holds every round.

use vstd::prelude::*;

verus! {

/// One committed round.
#[derive(Clone, Copy, Debug, PartialEq, Eq, Structural)]
pub struct Transmission {
    pub answer: i128,
    pub timestamp: u32,
}

impl Default for Transmission {
    fn default() -> (r: Transmission)
        ensures
            r == (Transmission { answer: 0, timestamp: 0 }),
    {
        Transmission { answer: 0, timestamp: 0 }
    }
}

/// A ring of rounds. The cursor is where the next round goes.
#[derive(Clone, Debug)]
pub struct Transmissions {
    pub latest_round_id: u32,
    pub cursor: u32,
    pub transmissions: Vec<Transmission>,
}

/// The slot that lies `back` slots before `cursor` in a ring of `len` slots.
pub open spec fn slot_before(cursor: int, back: int, len: int) -> int {
    if cursor >= back {
        cursor - back
    } else {
        len - (back - cursor)
    }
}

impl Transmissions {
    /// The ring is not empty and the cursor points into it.
    pub open spec fn wf(&self) -> bool {
        &&& 0 < self.transmissions@.len() <= u32::MAX
        &&& self.cursor < self.transmissions@.len()
    }

    /// What a lookup of `round_id` gives: nothing for a round of the future
    /// or one that lies a ring's length or more behind the latest, whose slot
    /// was written over; else the slot that many before the cursor, unless
    /// its timestamp is 0.
    pub open spec fn spec_fetch_round(&self, round_id: u32) -> Option<Transmission> {
        let diff = self.latest_round_id - round_id;
        let len = self.transmissions@.len() as int;
        if self.latest_round_id < round_id || diff >= len {
            None
        } else {
            let found = self.transmissions@[slot_before(self.cursor as int, diff + 1, len)];
            if found.timestamp != 0 {
                Some(found)
            } else {
                None
            }
        }
    }

    /// An empty ring of `len` slots.
    pub fn new(len: usize) -> (r: Transmissions)
        requires
            0 < len <= u32::MAX,
        ensures
            r.wf(),
            r.latest_round_id == 0,
            r.cursor == 0,
            r.transmissions@ == Seq::new(len as nat, |i: int| Transmission { answer: 0, timestamp: 0 }),
    {
        let mut transmissions: Vec<Transmission> = Vec::new();
        let mut i: usize = 0;
        while i < len
            invariant
                0 <= i <= len,
                transmissions@ == Seq::new(i as nat, |j: int| Transmission { answer: 0, timestamp: 0 }),
            decreases len - i,
        {
            transmissions.push(Transmission { answer: 0, timestamp: 0 });
            proof {
                assert(transmissions@ =~= Seq::new(
                    (i + 1) as nat,
                    |j: int| Transmission { answer: 0, timestamp: 0 },
                ));
            }
            i += 1;
        }
        Transmissions { latest_round_id: 0, cursor: 0, transmissions }
    }

    /// Appends a round.
    pub fn store_round(&mut self, round: Transmission)
        requires
            old(self).wf(),
            old(self).latest_round_id < u32::MAX,
        ensures
            final(self).wf(),
            final(self).latest_round_id == old(self).latest_round_id + 1,
            final(self).transmissions@ == old(self).transmissions@.update(
                old(self).cursor as int,
                round,
            ),
            final(self).cursor == (old(self).cursor + 1) % (old(self).transmissions@.len() as int),
    {
        self.latest_round_id += 1;
        let cursor = self.cursor as usize;
        self.transmissions[cursor] = round;
        let len: u64 = self.transmissions.len() as u64;
        self.cursor = ((self.cursor as u64 + 1) % len) as u32;
    }

    /// Looks a round up by its id. A round of the future, one that the ring
    /// holds no more and one with a timestamp of 0 are not found.
    pub fn fetch_round(&self, round_id: u32) -> (r: Option<Transmission>)
        requires
            self.wf(),
        ensures
            r == self.spec_fetch_round(round_id),
    {
        if self.latest_round_id < round_id {
            return None;
        }
        let diff: u64 = (self.latest_round_id - round_id) as u64;
        let len: u64 = self.transmissions.len() as u64;
        // a round that far back was written over
        if diff >= len {
            return None;
        }
        // one more, since the cursor points past the newest round
        let diff: u64 = diff + 1;
        let cursor: u64 = self.cursor as u64;
        let index: u64 = if cursor >= diff {
            cursor - diff
        } else {
            len - (diff - cursor)
        };
        let transmission = self.transmissions[index as usize];
        if transmission.timestamp != 0 {
            Some(transmission)
        } else {
            None
        }
    }
}

/// The round stored last is the one found under the latest round id, if its
/// timestamp is not 0.
pub proof fn lemma_store_then_fetch(before: Transmissions, after: Transmissions, round: Transmission)
    requires
        before.wf(),
        after.latest_round_id == before.latest_round_id + 1,
        after.transmissions@ == before.transmissions@.update(before.cursor as int, round),
        after.cursor == (before.cursor + 1) % (before.transmissions@.len() as int),
    ensures
        after.spec_fetch_round(after.latest_round_id) == if round.timestamp != 0 {
            Some(round)
        } else {
            None::<Transmission>
        },
{
    let len = before.transmissions@.len() as int;
    let c = before.cursor as int;
    if c + 1 < len {
        vstd::arithmetic::div_mod::lemma_small_mod((c + 1) as nat, len as nat);
    } else {
        vstd::arithmetic::div_mod::lemma_mod_self_0(len);
    }
}

} // verus!
