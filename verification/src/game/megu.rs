use crate::display::{World, WorldMode};
use crate::state::{draw_range, GameState};
use vstd::prelude::*;

verus! {

/// The background map that holds the mascot's pictures.
pub const BG: u8 = 5;

/// Where the three layers of one of the mascot's poses lie in the
/// background map, each as it looks to the left and to the right.
#[derive(Debug, Clone, Copy)]
pub struct Pose {
    pub back_l: (i16, i16),
    pub back_r: (i16, i16),
    pub mid_l: (i16, i16),
    pub mid_r: (i16, i16),
    pub front_l: (i16, i16),
    pub front_r: (i16, i16),
}

/// A layer of the mascot: a world 64 pixels wide that shows the map from
/// `map` on at `pos`.
pub open spec fn layer(pos: (i16, i16), gp: i16, map: (i16, i16), h: i16) -> World {
    World {
        bgm: WorldMode::Normal,
        lon: true,
        ron: true,
        bg_map_base: BG,
        gx: pos.0,
        gp,
        gy: pos.1,
        mx: map.0,
        my: map.1,
        w: 63,
        h,
    }
}

impl Pose {
    /// The three worlds of the pose, back to front.
    pub open spec fn worlds(&self, pos: (i16, i16), face_right: bool, jiggle: bool) -> Seq<World> {
        let back = if face_right {
            self.back_r
        } else {
            self.back_l
        };
        let mid = if face_right {
            self.mid_r
        } else {
            self.mid_l
        };
        let front = if face_right {
            self.front_r
        } else {
            self.front_l
        };
        let drop: int = if jiggle {
            15
        } else {
            16
        };
        seq![
            layer((pos.0, (pos.1 + 16) as i16), 2, back, 55),
            layer(pos, 0, mid, 79),
            layer((pos.0, (pos.1 + drop) as i16), -1i16, front, 63),
        ]
    }

    /// The three worlds that show the pose at `pos`, back to front, and the
    /// next world that is free when they take `next_world` and the two
    /// below it. The back lies behind the screen and the front before it;
    /// a jiggle lifts the front by one pixel.
    pub fn draw(&self, pos: (i16, i16), face_right: bool, jiggle: bool, next_world: usize) -> (out:
        ([World; 3], usize))
        requires
            pos.1 + 16 <= i16::MAX,
            next_world >= 3,
        ensures
            out.0@ == self.worlds(pos, face_right, jiggle),
            out.1 == next_world - 3,
    {
        let mut next_world = next_world;

        let back = if face_right {
            self.back_r
        } else {
            self.back_l
        };
        next_world -= 1;
        let back_world = World {
            bgm: WorldMode::Normal,
            lon: true,
            ron: true,
            bg_map_base: BG,
            gx: pos.0,
            gp: 2,
            gy: pos.1 + 16,
            mx: back.0,
            my: back.1,
            w: 63,
            h: 55,
        };

        let mid = if face_right {
            self.mid_r
        } else {
            self.mid_l
        };
        next_world -= 1;
        let mid_world = World {
            bgm: WorldMode::Normal,
            lon: true,
            ron: true,
            bg_map_base: BG,
            gx: pos.0,
            gp: 0,
            gy: pos.1,
            mx: mid.0,
            my: mid.1,
            w: 63,
            h: 79,
        };

        let front = if face_right {
            self.front_r
        } else {
            self.front_l
        };
        next_world -= 1;
        let front_world = World {
            bgm: WorldMode::Normal,
            lon: true,
            ron: true,
            bg_map_base: BG,
            gx: pos.0,
            gp: -1,
            gy: pos.1 + if jiggle {
                15
            } else {
                16
            },
            mx: front.0,
            my: front.1,
            w: 63,
            h: 63,
        };

        let worlds = [back_world, mid_world, front_world];
        assert(worlds@ =~= self.worlds(pos, face_right, jiggle));
        (worlds, next_world)
    }
}

/// What the mascot holds, as plain values.
pub struct MeguView {
    pub idle: Pose,
    pub celebrating_1: Pose,
    pub celebrating_2: Pose,
    pub pos: (i16, i16),
    pub face_right: bool,
    pub jiggle: bool,
    pub celebrate: Option<bool>,
    pub counter: u8,
}

impl MeguView {
    /// Whether the mascot stands where its layers fit the screen's
    /// coordinates, and its counter is within a round of sixteen frames.
    pub open spec fn wf(&self) -> bool {
        &&& self.pos.1 + 16 <= i16::MAX
        &&& self.counter < 16
    }

    /// The pose that the mascot is in.
    pub open spec fn pose(&self) -> Pose {
        match self.celebrate {
            Some(false) => self.celebrating_1,
            Some(true) => self.celebrating_2,
            None => self.idle,
        }
    }

    /// The mascot after a frame in which the counter has come to `counter`,
    /// a multiple of four, and the number `rand` was drawn. The mascot
    /// jiggles where it did not and 0 was drawn. At sixteen the round ends:
    /// the mascot turns right on a number under 4, a celebrating mascot
    /// takes its second pose on an even number, and the counter starts
    /// again.
    pub open spec fn swayed(&self, counter: u8, rand: i32) -> MeguView {
        let jiggle = !self.jiggle && rand == 0;
        if counter == 16 {
            MeguView {
                jiggle,
                face_right: rand < 4,
                celebrate: match self.celebrate {
                    Some(_) => Some(rand % 2 == 0),
                    None => None,
                },
                counter: 0,
                ..*self
            }
        } else {
            MeguView { jiggle, counter, ..*self }
        }
    }
}

/// The mascot that stands beside the puzzle: where it is, which way it
/// looks, and whether it celebrates.
pub struct Megu {
    idle: Pose,
    celebrating_1: Pose,
    celebrating_2: Pose,
    pos: (i16, i16),
    face_right: bool,
    jiggle: bool,
    celebrate: Option<bool>,
    counter: u8,
}

impl View for Megu {
    type V = MeguView;

    closed spec fn view(&self) -> MeguView {
        MeguView {
            idle: self.idle,
            celebrating_1: self.celebrating_1,
            celebrating_2: self.celebrating_2,
            pos: self.pos,
            face_right: self.face_right,
            jiggle: self.jiggle,
            celebrate: self.celebrate,
            counter: self.counter,
        }
    }
}

impl Megu {
    /// A mascot with the given poses, at the corner of the screen, looking
    /// left and at rest.
    pub fn new(idle: Pose, celebrating_1: Pose, celebrating_2: Pose) -> (megu: Megu)
        ensures
            megu@ == (MeguView {
                idle,
                celebrating_1,
                celebrating_2,
                pos: (0, 0),
                face_right: false,
                jiggle: false,
                celebrate: None,
                counter: 0,
            }),
            megu@.wf(),
    {
        Self {
            idle,
            celebrating_1,
            celebrating_2,
            pos: (0, 0),
            face_right: false,
            jiggle: false,
            celebrate: None,
            counter: 0,
        }
    }

    /// Puts the mascot with its middle at `center`, looking left and at
    /// rest.
    pub fn init(&mut self, center: (i16, i16))
        requires
            center.0 - 32 >= i16::MIN,
            center.1 - 40 >= i16::MIN,
        ensures
            final(self)@ == (MeguView {
                pos: ((center.0 - 32) as i16, (center.1 - 40) as i16),
                face_right: false,
                jiggle: false,
                celebrate: None,
                counter: 0,
                ..old(self)@
            }),
            final(self)@.wf(),
    {
        self.pos = (center.0 - 32, center.1 - 40);
        self.face_right = false;
        self.jiggle = false;
        self.celebrate = None;
        self.counter = 0;
    }

    /// The three worlds that show the mascot in its pose, back to front, and
    /// the next world that is free when they take `next_world` and the two
    /// below it.
    pub fn draw(&self, next_world: usize) -> (out: ([World; 3], usize))
        requires
            self@.wf(),
            next_world >= 3,
        ensures
            out.0@ == self@.pose().worlds(self@.pos, self@.face_right, self@.jiggle),
            out.1 == next_world - 3,
    {
        let pose = match self.celebrate {
            Some(false) => &self.celebrating_1,
            Some(true) => &self.celebrating_2,
            None => &self.idle,
        };
        pose.draw(self.pos, self.face_right, self.jiggle, next_world)
    }

    /// Moves the mascot on by one frame. Every fourth frame a number under
    /// 16 is drawn from the state's random number generator, and the mascot
    /// becomes what `sway` makes of it with that number.
    pub fn update(&mut self, state: &mut GameState)
        requires
            old(self)@.wf(),
        ensures
            final(self)@.wf(),
            final(state)@ == old(state)@,
            (old(self)@.counter + 1) % 4 != 0 ==> final(self)@ == (MeguView {
                counter: (old(self)@.counter + 1) as u8,
                ..old(self)@
            }),
            (old(self)@.counter + 1) % 4 == 0 ==> exists|rand: i32|
                0 <= rand < 16 && final(self)@ == #[trigger] old(self)@.swayed(
                    (old(self)@.counter + 1) as u8,
                    rand,
                ),
    {
        self.counter += 1;
        if self.counter % 4 == 0 {
            let rand = draw_range(state.rand(), 0, 16);
            let ghost counted = self@;
            self.sway(rand);
            assert(counted.swayed(counted.counter, rand) == old(self)@.swayed(
                counted.counter,
                rand,
            ));
        }
    }

    /// What a frame does to the mascot in which its counter has come to a
    /// multiple of four and the number `rand` was drawn.
    pub fn sway(&mut self, rand: i32)
        requires
            0 <= rand < 16,
            old(self)@.pos.1 + 16 <= i16::MAX,
            old(self)@.counter <= 16,
        ensures
            final(self)@ == old(self)@.swayed(old(self)@.counter, rand),
            final(self)@.wf(),
    {
        self.jiggle = !self.jiggle && rand == 0;
        if self.counter == 16 {
            self.face_right = rand < 4;
            self.celebrate = match self.celebrate {
                Some(_) => Some(rand % 2 == 0),
                None => None,
            };
            self.counter = 0;
        }
    }

    /// Makes the mascot celebrate, from its second pose on.
    pub fn win(&mut self)
        ensures
            final(self)@ == (MeguView {
                counter: 0,
                jiggle: false,
                celebrate: Some(true),
                ..old(self)@
            }),
    {
        self.counter = 0;
        self.jiggle = false;
        self.celebrate = Some(true);
    }
}

} // verus!
