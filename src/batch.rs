use vstd::prelude::*;
use crate::step::{IsFinished, MigrationStep};
use crate::weight::Weight;

verus! {

/// A step that walks the items `0 .. total` of a store, `batch` items per
/// call, each call charged `weight_per_call`. Its cursor is the index of the
/// next item, as four little-endian bytes.
#[derive(Clone, Copy, Debug, PartialEq, Eq, Structural)]
pub struct BatchMigration {
    pub version: u16,
    pub total: u32,
    pub batch: u32,
    pub weight_per_call: Weight,
    pub next: u32,
}

/// The four little-endian bytes of `n`.
pub open spec fn le_bytes(n: u32) -> Seq<u8> {
    seq![(n & 0xff) as u8, ((n >> 8u32) & 0xff) as u8, ((n >> 16u32) & 0xff) as u8, (n >> 24u32) as u8]
}

/// The integer whose little-endian bytes are `b0 b1 b2 b3`.
pub open spec fn le_value(b0: u8, b1: u8, b2: u8, b3: u8) -> u32 {
    (b0 as u32) | ((b1 as u32) << 8u32) | ((b2 as u32) << 16u32) | ((b3 as u32) << 24u32)
}

/// Where the next call leaves the walk that is at `next`.
pub open spec fn batch_next(next: u32, total: u32, batch: u32) -> u32 {
    if next < total && total - next > batch {
        (next + batch) as u32
    } else {
        total
    }
}

proof fn lemma_le_round_trip(n: u32)
    ensures
        le_value(le_bytes(n)[0], le_bytes(n)[1], le_bytes(n)[2], le_bytes(n)[3]) == n,
{
    let b0 = (n & 0xff) as u8;
    let b1 = ((n >> 8u32) & 0xff) as u8;
    let b2 = ((n >> 16u32) & 0xff) as u8;
    let b3 = (n >> 24u32) as u8;
    assert(((b0 as u32) | ((b1 as u32) << 8u32) | ((b2 as u32) << 16u32) | ((b3 as u32) << 24u32)) == n)
        by (bit_vector)
        requires
            b0 == (n & 0xff) as u8,
            b1 == ((n >> 8u32) & 0xff) as u8,
            b2 == ((n >> 16u32) & 0xff) as u8,
            b3 == (n >> 24u32) as u8,
    ;
}

impl BatchMigration {
    /// The default state of such a step: nothing walked yet.
    pub fn new(version: u16, total: u32, batch: u32, weight_per_call: Weight) -> (r: BatchMigration)
        ensures
            r == (BatchMigration { version, total, batch, weight_per_call, next: 0 }),
    {
        BatchMigration { version, total, batch, weight_per_call, next: 0 }
    }
}

impl MigrationStep for BatchMigration {
    open spec fn spec_version(&self) -> u16 {
        self.version
    }

    open spec fn spec_max_step_weight(&self) -> Weight {
        self.weight_per_call
    }

    open spec fn spec_max_encoded_len(&self) -> nat {
        4
    }

    open spec fn spec_step(&self) -> (bool, Weight, Self) {
        let n = batch_next(self.next, self.total, self.batch);
        (n == self.total, self.weight_per_call, BatchMigration { next: n, ..*self })
    }

    open spec fn spec_encode(&self) -> Seq<u8> {
        le_bytes(self.next)
    }

    open spec fn spec_decode(&self, bytes: Seq<u8>) -> Option<Self> {
        if bytes.len() == 4 {
            Some(BatchMigration { next: le_value(bytes[0], bytes[1], bytes[2], bytes[3]), ..*self })
        } else {
            None
        }
    }

    open spec fn spec_default(&self) -> Self {
        BatchMigration { next: 0, ..*self }
    }

    proof fn lemma_default(&self) {
    }

    proof fn lemma_step(&self) {
    }

    proof fn lemma_round_trip(&self, template: Self) {
        lemma_le_round_trip(self.next);
        assert(template.spec_decode(self.spec_encode()) == Some(*self));
    }

    proof fn lemma_decode(&self, bytes: Seq<u8>) {
    }

    fn default_state(&self) -> (r: Self) {
        BatchMigration { next: 0, ..*self }
    }

    fn version(&self) -> (r: u16) {
        self.version
    }

    fn max_step_weight(&self) -> (r: Weight) {
        self.weight_per_call
    }

    fn max_encoded_len(&self) -> (r: usize) {
        4
    }

    fn step(&mut self) -> (r: (IsFinished, Weight)) {
        let n: u32 = if self.next < self.total && self.total - self.next > self.batch {
            self.next + self.batch
        } else {
            self.total
        };
        self.next = n;
        let finished = if n == self.total { IsFinished::Yes } else { IsFinished::No };
        (finished, self.weight_per_call)
    }

    open spec fn spec_pre_upgrade(&self) -> Result<Seq<u8>, Seq<char>> {
        Ok(Seq::empty())
    }

    open spec fn spec_post_upgrade(&self, state: Seq<u8>) -> Result<(), Seq<char>> {
        Ok(())
    }

    fn pre_upgrade_step(&self) -> (r: Result<Vec<u8>, String>) {
        Ok(Vec::new())
    }

    fn post_upgrade_step(&self, state: Vec<u8>) -> (r: Result<(), String>) {
        Ok(())
    }

    fn encode(&self) -> (r: Vec<u8>) {
        let n = self.next;
        let mut v: Vec<u8> = Vec::new();
        v.push((n & 0xff) as u8);
        v.push(((n >> 8u32) & 0xff) as u8);
        v.push(((n >> 16u32) & 0xff) as u8);
        v.push((n >> 24u32) as u8);
        proof {
            assert(v@ =~= le_bytes(n));
        }
        v
    }

    fn decode(&self, bytes: &[u8]) -> (r: Option<Self>) {
        if bytes.len() == 4 {
            let next: u32 = (bytes[0] as u32) | ((bytes[1] as u32) << 8u32) | ((bytes[2] as u32) << 16u32)
                | ((bytes[3] as u32) << 24u32);
            Some(BatchMigration { next, ..*self })
        } else {
            None
        }
    }
}

} // verus!
