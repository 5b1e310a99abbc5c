//! The best times as they are kept between sessions: four bytes for each
//! puzzle, guarded by a checksum.

use crate::puzzle::PUZZLE_COUNT;
use vstd::bytes::{spec_u32_from_le_bytes, spec_u32_to_le_bytes, u32_from_le_bytes, u32_to_le_bytes};
use vstd::prelude::*;

verus! {

/// Where the times start in the save memory.
pub const TIMES_OFFSET: usize = 256;

/// How many bytes the times take in the save memory.
pub const TIMES_LEN: usize = 4 * PUZZLE_COUNT;

/// The two running sums of a checksum after one more byte.
pub open spec fn fletcher_add(sums: (u16, u16), byte: u8) -> (u16, u16) {
    let s1 = ((sums.0 + byte) % 255) as u16;
    (s1, ((sums.1 + s1) % 255) as u16)
}

/// The two running sums of a checksum after the bytes of `bytes`, in their
/// order.
pub open spec fn fletcher_add_many(sums: (u16, u16), bytes: Seq<u8>) -> (u16, u16)
    decreases bytes.len(),
{
    if bytes.len() == 0 {
        sums
    } else {
        fletcher_add(fletcher_add_many(sums, bytes.drop_last()), bytes.last())
    }
}

/// The checksum that two running sums stand for: the second above the
/// first.
pub open spec fn fletcher_finish(sums: (u16, u16)) -> u16 {
    sums.1 << 8 | sums.0
}

/// The checksum of `bytes`.
pub open spec fn checksum(bytes: Seq<u8>) -> u16 {
    fletcher_finish(fletcher_add_many((0, 0), bytes))
}

/// Adding bytes in two parts is adding them all.
pub proof fn lemma_fletcher_add_many_concat(sums: (u16, u16), front: Seq<u8>, back: Seq<u8>)
    ensures
        fletcher_add_many(sums, front + back) == fletcher_add_many(
            fletcher_add_many(sums, front),
            back,
        ),
    decreases back.len(),
{
    if back.len() == 0 {
        assert(front + back =~= front);
    } else {
        lemma_fletcher_add_many_concat(sums, front, back.drop_last());
        assert((front + back).drop_last() =~= front + back.drop_last());
    }
}

/// A running checksum: two sums, each kept below 255.
pub struct Fletcher {
    s1: u16,
    s2: u16,
}

impl View for Fletcher {
    type V = (u16, u16);

    closed spec fn view(&self) -> (u16, u16) {
        (self.s1, self.s2)
    }
}

impl Fletcher {
    /// Whether both sums are below 255.
    pub open spec fn wf(&self) -> bool {
        self@.0 < 255 && self@.1 < 255
    }

    /// The checksum of no bytes.
    pub fn new() -> (fletcher: Fletcher)
        ensures
            fletcher@ == (0u16, 0u16),
            fletcher.wf(),
    {
        Self { s1: 0, s2: 0 }
    }

    /// Takes one more byte into the checksum.
    pub fn add(&mut self, byte: u8)
        requires
            old(self).wf(),
        ensures
            final(self)@ == fletcher_add(old(self)@, byte),
            final(self).wf(),
    {
        self.s1 = (self.s1 + byte as u16) % 255;
        self.s2 = (self.s2 + self.s1) % 255;
    }

    /// Takes the bytes of `bytes` into the checksum, in their order.
    pub fn add_many(&mut self, bytes: &[u8])
        requires
            old(self).wf(),
        ensures
            final(self)@ == fletcher_add_many(old(self)@, bytes@),
            final(self).wf(),
    {
        let mut i: usize = 0;
        while i < bytes.len()
            invariant
                i <= bytes@.len(),
                self.wf(),
                self@ == fletcher_add_many(old(self)@, bytes@.take(i as int)),
            decreases bytes@.len() - i,
        {
            proof {
                assert(bytes@.take(i + 1).drop_last() =~= bytes@.take(i as int));
            }
            self.add(bytes[i]);
            i += 1;
        }
        proof {
            assert(bytes@.take(i as int) =~= bytes@);
        }
    }

    /// The checksum of the bytes taken in.
    pub fn finish(self) -> (sum: u16)
        ensures
            sum == fletcher_finish(self@),
    {
        self.s2 << 8 | self.s1
    }
}

/// The time that four saved bytes stand for: none where they are all zero.
pub open spec fn saved_time(bytes: Seq<u8>) -> Option<u32> {
    let time = spec_u32_from_le_bytes(bytes);
    if time > 0 {
        Some(time)
    } else {
        None
    }
}

/// The bytes that a time is saved as: those of zero where there is none.
pub open spec fn time_bytes(time: Option<u32>) -> Seq<u8> {
    spec_u32_to_le_bytes(
        match time {
            Some(time) => time,
            None => 0,
        },
    )
}

/// The bytes that the first `n` of `times` are saved as.
pub open spec fn times_bytes(times: Seq<Option<u32>>, n: int) -> Seq<u8>
    decreases n,
{
    if n <= 0 {
        Seq::empty()
    } else {
        times_bytes(times, n - 1) + time_bytes(times[n - 1])
    }
}

/// Where the time of puzzle `index` lies in the save memory.
pub fn time_offset(index: usize) -> (offset: usize)
    requires
        index < PUZZLE_COUNT,
    ensures
        offset == TIMES_OFFSET + index * 4,
{
    TIMES_OFFSET + index * 4
}

/// The best time of every puzzle, where it has one.
pub struct SaveData {
    pub times: [Option<u32>; PUZZLE_COUNT],
}

impl SaveData {
    /// Reads the times from the `TIMES_LEN` bytes of the save memory that
    /// hold them, and says whether `stored` is their checksum. Where it is
    /// not, the save memory is spoilt and no puzzle has a time.
    pub fn load(bytes: &[u8], stored: u16) -> (loaded: (SaveData, bool))
        requires
            bytes@.len() == TIMES_LEN,
        ensures
            loaded.1 == (checksum(bytes@) == stored),
            forall|index: int|
                0 <= index < PUZZLE_COUNT ==> loaded.0.times@[index] == if loaded.1 {
                    saved_time(bytes@.subrange(4 * index, 4 * index + 4))
                } else {
                    None
                },
    {
        let mut fletcher = Fletcher::new();
        let mut times: [Option<u32>; PUZZLE_COUNT] = [None;PUZZLE_COUNT];
        let mut index: usize = 0;
        while index < PUZZLE_COUNT
            invariant
                index <= PUZZLE_COUNT,
                bytes@.len() == TIMES_LEN,
                fletcher.wf(),
                fletcher@ == fletcher_add_many((0, 0), bytes@.take(4 * index)),
                forall|i: int|
                    0 <= i < index ==> times@[i] == saved_time(bytes@.subrange(4 * i, 4 * i + 4)),
            decreases PUZZLE_COUNT - index,
        {
            let entry = &bytes[index * 4..index * 4 + 4];
            proof {
                lemma_fletcher_add_many_concat((0, 0), bytes@.take(4 * index), entry@);
                assert(bytes@.take(4 * index) + entry@ =~= bytes@.take(4 * (index + 1)));
            }
            fletcher.add_many(entry);
            let time = u32_from_le_bytes(entry);
            times[index] = if time > 0 {
                Some(time)
            } else {
                None
            };
            index += 1;
        }
        proof {
            assert(bytes@.take(4 * index) =~= bytes@);
        }
        let expected_checksum = fletcher.finish();
        if expected_checksum == stored {
            (Self { times }, true)
        } else {
            (Self { times: [None;PUZZLE_COUNT] }, false)
        }
    }

    /// Records `time` as the time of puzzle `index` and returns the checksum
    /// of the times as they are saved from now on.
    pub fn save_time(&mut self, index: usize, time: u32) -> (sum: u16)
        requires
            index < PUZZLE_COUNT,
        ensures
            final(self).times@ == old(self).times@.update(index as int, Some(time)),
            sum == checksum(times_bytes(final(self).times@, PUZZLE_COUNT as int)),
    {
        self.times[index] = Some(time);
        let mut fletcher = Fletcher::new();
        let mut i: usize = 0;
        while i < PUZZLE_COUNT
            invariant
                i <= PUZZLE_COUNT,
                fletcher.wf(),
                fletcher@ == fletcher_add_many((0, 0), times_bytes(self.times@, i as int)),
            decreases PUZZLE_COUNT - i,
        {
            let time = match self.times[i] {
                Some(time) => time,
                None => 0,
            };
            let bytes = u32_to_le_bytes(time);
            proof {
                lemma_fletcher_add_many_concat((0, 0), times_bytes(self.times@, i as int), bytes@);
            }
            fletcher.add_many(bytes.as_slice());
            i += 1;
        }
        fletcher.finish()
    }
}

} // verus!
