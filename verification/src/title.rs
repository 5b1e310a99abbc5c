use crate::display::{World, WorldMode};
use crate::state::Buttons;
use vstd::prelude::*;

verus! {

/// The background map that holds the title screen.
pub const BG: u8 = 4;

/// The world that shows the title to the left eye.
pub open spec fn left_world() -> World {
    World {
        bgm: WorldMode::Normal,
        lon: true,
        ron: false,
        bg_map_base: BG,
        gx: 0,
        gp: 0,
        gy: 0,
        mx: 0,
        my: 0,
        w: 383,
        h: 223,
    }
}

/// The world that shows the title to the right eye.
pub open spec fn right_world() -> World {
    World {
        bgm: WorldMode::Normal,
        lon: false,
        ron: true,
        bg_map_base: BG,
        gx: 0,
        gp: 0,
        gy: 0,
        mx: 0,
        my: 224,
        w: 383,
        h: 223,
    }
}

/// The world that shows the call to press Start.
pub open spec fn start_world() -> World {
    World {
        bgm: WorldMode::Normal,
        lon: true,
        ron: true,
        bg_map_base: BG,
        gx: 128,
        gp: -4i16,
        gy: 168,
        mx: 0,
        my: 448,
        w: 127,
        h: 31,
    }
}

/// The title screen: a timer that makes the call to press Start blink.
pub struct Title {
    timer: u8,
}

impl View for Title {
    type V = u8;

    closed spec fn view(&self) -> u8 {
        self.timer
    }
}

impl Title {
    /// A title screen at the start of its blinking.
    pub fn new() -> (title: Title)
        ensures
            title@ == 0,
    {
        Self { timer: 0 }
    }

    /// The worlds that show the title, in the order in which they are to be
    /// written: one for each eye, and the call to press Start in the first
    /// 32 of every 64 frames.
    pub fn draw(&self) -> (worlds: Vec<World>)
        ensures
            worlds@ == if self@ / 32 == 0 {
                seq![left_world(), right_world(), start_world()]
            } else {
                seq![left_world(), right_world()]
            },
    {
        let mut worlds = Vec::new();
        worlds.push(
            World {
                bgm: WorldMode::Normal,
                lon: true,
                ron: false,
                bg_map_base: BG,
                gx: 0,
                gp: 0,
                gy: 0,
                mx: 0,
                my: 0,
                w: 383,
                h: 223,
            },
        );
        worlds.push(
            World {
                bgm: WorldMode::Normal,
                lon: false,
                ron: true,
                bg_map_base: BG,
                gx: 0,
                gp: 0,
                gy: 0,
                mx: 0,
                my: 224,
                w: 383,
                h: 223,
            },
        );
        if self.timer / 32 == 0 {
            worlds.push(
                World {
                    bgm: WorldMode::Normal,
                    lon: true,
                    ron: true,
                    bg_map_base: BG,
                    gx: 128,
                    gp: -4,
                    gy: 168,
                    mx: 0,
                    my: 448,
                    w: 127,
                    h: 31,
                },
            );
            assert(worlds@ =~= seq![left_world(), right_world(), start_world()]);
        } else {
            assert(worlds@ =~= seq![left_world(), right_world()]);
        }
        worlds
    }

    /// Moves the title screen on by one frame and says whether it is left:
    /// a press of Start leaves it, and any other frame moves the timer on,
    /// round from 63 to 0.
    pub fn update(&mut self, pressed: &Buttons) -> (leave: bool)
        requires
            old(self)@ < 64,
        ensures
            leave == pressed.sta,
            final(self)@ < 64,
            final(self)@ == if pressed.sta {
                old(self)@ as int
            } else {
                (old(self)@ + 1) % 64
            },
    {
        if pressed.sta {
            return true;
        }
        self.timer = (self.timer + 1) % 64;
        false
    }
}

} // verus!
