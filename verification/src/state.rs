//! The player's input from frame to frame, and the game's random numbers.

use rand::{Rng, SeedableRng};
use rand_xoshiro::Xoroshiro128PlusPlus;
use vstd::prelude::*;

verus! {

#[verifier::external_type_specification]
#[verifier::external_body]
pub struct ExXoroshiro128PlusPlus(Xoroshiro128PlusPlus);

/// `SeedableRng::seed_from_u64` of `Xoroshiro128PlusPlus`: a generator made
/// from `seed`. Nothing is claimed of it.
#[verifier::external_body]
fn seeded(seed: u64) -> Xoroshiro128PlusPlus {
    Xoroshiro128PlusPlus::seed_from_u64(seed)
}

/// `Rng::random`: draws one `u32` from the generator. Nothing is claimed of
/// the number.
#[verifier::external_body]
fn random_u32(rng: &mut Xoroshiro128PlusPlus) -> u32 {
    rng.random()
}

/// `Rng::random_range` on `low..high`: a number of that range, as the
/// method's documentation has it. The call panics on an empty range, which
/// the precondition rules out.
#[verifier::external_body]
pub(crate) fn draw_range(rng: &mut Xoroshiro128PlusPlus, low: i32, high: i32) -> (number: i32)
    requires
        low < high,
    ensures
        low <= number < high,
{
    rng.random_range(low..high)
}

/// Which buttons of the pad a question about it comes out true for.
#[derive(Debug, Clone, Copy, PartialEq, Eq, Structural)]
pub struct Buttons {
    pub a: bool,
    pub b: bool,
    pub sta: bool,
    pub ll: bool,
    pub lr: bool,
    pub lu: bool,
    pub ld: bool,
}

/// The bits of the pad at which the four directions of its left cross lie.
pub const DPAD_OFFSETS: [u16; 4] = [8, 9, 10, 11];

/// The bit of the pad at which direction `i` lies.
pub open spec fn dpad_offset(i: int) -> u16 {
    DPAD_OFFSETS@[i]
}

/// Whether bit `offset` of `bits` is set.
pub open spec fn is_down(bits: u16, offset: u16) -> bool {
    (bits >> offset) & 1 == 1
}

/// Whether a direction that has been held for `frames` frames acts in this
/// one: in the first frame, and in every frame from the tenth on.
pub open spec fn fires(frames: u32) -> bool {
    frames == 1 || frames >= 10
}

/// The bit of direction `i`, where the direction acts, and no bit where it
/// does not.
pub open spec fn direction_bit(held: Seq<u32>, i: int) -> u16 {
    if fires(held[i]) {
        1u16 << dpad_offset(i)
    } else {
        0
    }
}

/// The bits of the directions that act in this frame.
pub open spec fn direction_bits(held: Seq<u32>) -> u16 {
    direction_bit(held, 0) | direction_bit(held, 1) | direction_bit(held, 2) | direction_bit(
        held,
        3,
    )
}

/// What a `GameState` holds, but for its random number generator.
pub struct GameStateView {
    pub curr_pressed: u16,
    pub prev_pressed: u16,
    pub curr_held: Seq<u32>,
}

/// The pad as it was read in this frame and in the one before, for how many
/// frames each direction has been held, and the random number generator.
pub struct GameState {
    curr_pressed: u16,
    prev_pressed: u16,
    curr_held: [u32; 4],
    rand: Xoroshiro128PlusPlus,
}

impl View for GameState {
    type V = GameStateView;

    closed spec fn view(&self) -> GameStateView {
        GameStateView {
            curr_pressed: self.curr_pressed,
            prev_pressed: self.prev_pressed,
            curr_held: self.curr_held@,
        }
    }
}

impl GameState {
    /// The random number generator as it stands. Nothing is known of what
    /// is inside it.
    pub closed spec fn generator(&self) -> Xoroshiro128PlusPlus {
        self.rand
    }

    /// A state in which no button has been pressed yet.
    pub fn new() -> (state: GameState)
        ensures
            state@.curr_pressed == 0,
            state@.prev_pressed == 0,
            state@.curr_held == seq![0u32, 0u32, 0u32, 0u32],
    {
        let state = Self { curr_pressed: 0, prev_pressed: 0, curr_held: [0;4], rand: seeded(0) };
        assert(state@.curr_held =~= seq![0u32, 0u32, 0u32, 0u32]);
        state
    }

    /// The pad as read in this frame.
    pub fn buttons_held(&self) -> (bits: u16)
        ensures
            bits == self@.curr_pressed,
    {
        self.curr_pressed
    }

    /// The buttons that are down in this frame and were not in the last.
    pub fn buttons_pressed(&self) -> (bits: u16)
        ensures
            bits == self@.curr_pressed & !self@.prev_pressed,
    {
        self.curr_pressed & !self.prev_pressed
    }

    /// For how many frames each direction has been down.
    pub fn frames_held(&self) -> (held: [u32; 4])
        ensures
            held@ == self@.curr_held,
    {
        self.curr_held
    }

    /// The directions that act in this frame: those pressed in it, and
    /// those held for ten frames or more.
    pub fn directions_held(&self) -> (bits: u16)
        ensures
            bits == direction_bits(self@.curr_held),
    {
        let ghost held = self@.curr_held;
        let mut bits: u16 = 0;
        let mut i: usize = 0;
        while i < 4
            invariant
                held == self@.curr_held,
                held.len() == 4,
                i <= 4,
                i == 0 ==> bits == 0,
                i == 1 ==> bits == direction_bit(held, 0),
                i == 2 ==> bits == direction_bit(held, 0) | direction_bit(held, 1),
                i == 3 ==> bits == direction_bit(held, 0) | direction_bit(held, 1) | direction_bit(
                    held,
                    2,
                ),
                i == 4 ==> bits == direction_bits(held),
            decreases 4 - i,
        {
            let counter = self.curr_held[i];
            let button_offset = DPAD_OFFSETS[i];
            proof {
                let before = bits;
                assert(before | 0 == before) by (bit_vector);
                let bit = 1u16 << button_offset;
                assert(0 | bit == bit) by (bit_vector);
            }
            if counter == 1 || counter >= 10 {
                bits |= 1 << button_offset;
            }
            i += 1;
        }
        bits
    }

    /// Takes in the pad as read in a new frame. A change of the pad stirs
    /// the random number generator, and every direction counts the frames
    /// for which it has been down.
    pub fn update(&mut self, pressed: u16)
        requires
            forall|i: int|
                0 <= i < 4 && is_down(pressed, dpad_offset(i)) ==> old(self)@.curr_held[i]
                    < u32::MAX,
        ensures
            final(self)@.prev_pressed == old(self)@.curr_pressed,
            final(self)@.curr_pressed == pressed,
            final(self)@.curr_held.len() == 4,
            forall|i: int|
                0 <= i < 4 ==> final(self)@.curr_held[i] == if is_down(pressed, dpad_offset(i)) {
                    old(self)@.curr_held[i] + 1
                } else {
                    0
                },
    {
        self.prev_pressed = self.curr_pressed;
        self.curr_pressed = pressed;
        if self.prev_pressed != self.curr_pressed {
            let _ = random_u32(&mut self.rand);
        }
        let raw_bits = pressed;
        let mut i: usize = 0;
        while i < 4
            invariant
                i <= 4,
                raw_bits == pressed,
                self.curr_held@.len() == 4,
                self.prev_pressed == old(self).curr_pressed,
                self.curr_pressed == pressed,
                forall|j: int|
                    0 <= j < 4 && is_down(pressed, dpad_offset(j)) ==> old(self)@.curr_held[j]
                        < u32::MAX,
                forall|j: int|
                    0 <= j < i ==> self.curr_held@[j] == if is_down(pressed, dpad_offset(j)) {
                        old(self)@.curr_held[j] + 1
                    } else {
                        0
                    },
                forall|j: int| i <= j < 4 ==> self.curr_held@[j] == old(self)@.curr_held[j],
            decreases 4 - i,
        {
            let button_offset = DPAD_OFFSETS[i];
            let down = (raw_bits >> button_offset) & 1 == 1;
            assert(button_offset == dpad_offset(i as int));
            assert(down == is_down(pressed, dpad_offset(i as int)));
            assert(self.curr_held@[i as int] == old(self)@.curr_held[i as int]);
            if down {
                self.curr_held[i] += 1;
            } else {
                self.curr_held[i] = 0;
            }
            i += 1;
        }
    }

    /// Hands out the random number generator of the state. The generator
    /// comes as it stands, the state keeps it as the caller leaves it, and
    /// nothing else of the state changes.
    pub fn rand(&mut self) -> (rng: &mut Xoroshiro128PlusPlus)
        ensures
            *rng == old(self).generator(),
            final(self).generator() == *final(rng),
            final(self)@ == old(self)@,
    {
        &mut self.rand
    }
}

} // verus!
