use crate::display::{World, WorldMode};
use crate::state::Buttons;
use vstd::prelude::*;

verus! {

/// The background map that holds the pause menu.
pub const BG: u8 = 3;

/// The entries of the pause menu, top to bottom.
#[derive(Debug, Clone, Copy, PartialEq, Eq, Structural)]
pub enum MenuItem {
    Continue,
    Restart,
    Quit,
}

impl MenuItem {
    /// The entry below this one, the first below the last.
    pub open spec fn spec_next(self) -> MenuItem {
        match self {
            Self::Continue => Self::Restart,
            Self::Restart => Self::Quit,
            Self::Quit => Self::Continue,
        }
    }

    /// The entry above this one, the last above the first.
    pub open spec fn spec_prev(self) -> MenuItem {
        match self {
            Self::Continue => Self::Quit,
            Self::Restart => Self::Continue,
            Self::Quit => Self::Restart,
        }
    }

    /// The entry's place in the menu, from 0.
    pub open spec fn index(self) -> int {
        match self {
            Self::Continue => 0,
            Self::Restart => 1,
            Self::Quit => 2,
        }
    }

    /// The entry below this one, the first below the last.
    pub fn next(self) -> (item: MenuItem)
        ensures
            item == self.spec_next(),
    {
        match self {
            Self::Continue => Self::Restart,
            Self::Restart => Self::Quit,
            Self::Quit => Self::Continue,
        }
    }

    /// The entry above this one, the last above the first.
    pub fn prev(self) -> (item: MenuItem)
        ensures
            item == self.spec_prev(),
    {
        match self {
            Self::Continue => Self::Quit,
            Self::Restart => Self::Continue,
            Self::Quit => Self::Restart,
        }
    }
}

/// Going down and then up the menu, or up and then down, ends where it
/// began, and three steps either way go round.
pub proof fn lemma_menu_item_cycle(item: MenuItem)
    ensures
        item.spec_next().spec_prev() == item,
        item.spec_prev().spec_next() == item,
        item.spec_next().spec_next().spec_next() == item,
        item.spec_prev().spec_prev().spec_prev() == item,
{
}

/// The world that shows the menu's frame.
pub open spec fn frame_world() -> World {
    World {
        bgm: WorldMode::Normal,
        lon: true,
        ron: true,
        bg_map_base: BG,
        gx: 140,
        gp: -4i16,
        gy: 78,
        mx: 0,
        my: 0,
        w: 191,
        h: 111,
    }
}

/// The world that shows the text of the entry at place `index`, `width`
/// pixels wide; the active entry stands out before the others.
pub open spec fn item_world(index: int, active: bool, width: i16) -> World {
    World {
        bgm: WorldMode::Normal,
        lon: true,
        ron: true,
        bg_map_base: BG,
        gx: 158,
        gp: if active {
            -6i16
        } else {
            -3i16
        },
        gy: (86 + index * 16) as i16,
        mx: 0,
        my: (256 + index * 16) as i16,
        w: (width - 1) as i16,
        h: 15,
    }
}

/// The pause menu: which of its entries is the active one.
pub struct PauseMenu {
    active: MenuItem,
}

impl View for PauseMenu {
    type V = MenuItem;

    closed spec fn view(&self) -> MenuItem {
        self.active
    }
}

impl PauseMenu {
    /// A menu with its first entry active.
    pub fn new() -> (menu: PauseMenu)
        ensures
            menu@ == MenuItem::Continue,
    {
        Self { active: MenuItem::Continue }
    }

    /// Makes the first entry the active one.
    pub fn init(&mut self)
        ensures
            final(self)@ == MenuItem::Continue,
    {
        self.active = MenuItem::Continue;
    }

    /// The four worlds that show the menu: its frame, then its entries top
    /// to bottom, each as wide as its text, which `widths` gives. Also the
    /// next world that is free when they take `next_world` and the three
    /// below it.
    pub fn draw(&self, next_world: usize, widths: [i16; 3]) -> (out: ([World; 4], usize))
        requires
            next_world >= 4,
            forall|i: int| 0 <= i < 3 ==> widths@[i] - 1 >= i16::MIN,
        ensures
            out.0@ == seq![
                frame_world(),
                item_world(0, self@ == MenuItem::Continue, widths@[0]),
                item_world(1, self@ == MenuItem::Restart, widths@[1]),
                item_world(2, self@ == MenuItem::Quit, widths@[2]),
            ],
            out.1 == next_world - 4,
    {
        let mut next_world = next_world;
        next_world -= 1;
        let frame = World {
            bgm: WorldMode::Normal,
            lon: true,
            ron: true,
            bg_map_base: BG,
            gx: 140,
            gp: -4,
            gy: 78,
            mx: 0,
            my: 0,
            w: 191,
            h: 111,
        };
        let mut worlds = [frame;4];
        let items = [MenuItem::Continue, MenuItem::Restart, MenuItem::Quit];
        let ghost first = next_world;
        let mut index: usize = 0;
        while index < 3
            invariant
                index <= 3,
                next_world + index == first,
                first >= 3,
                items@ == seq![MenuItem::Continue, MenuItem::Restart, MenuItem::Quit],
                forall|i: int| 0 <= i < 3 ==> widths@[i] - 1 >= i16::MIN,
                worlds@.len() == 4,
                worlds@[0] == frame_world(),
                forall|i: int|
                    0 <= i < index ==> worlds@[i + 1] == item_world(
                        i,
                        self@.index() == i,
                        widths@[i],
                    ),
            decreases 3 - index,
        {
            let item = items[index];
            let x: i16 = 158;
            let y: i16 = 86 + (index as i16 * 16);
            next_world -= 1;
            assert((item == self.active) == (self@.index() == index));
            worlds[index + 1] = World {
                bgm: WorldMode::Normal,
                lon: true,
                ron: true,
                bg_map_base: BG,
                gx: x,
                gp: if item == self.active {
                    -6
                } else {
                    -3
                },
                gy: y,
                mx: 0,
                my: 256 + (index as i16 * 16),
                w: widths[index] - 1,
                h: 15,
            };
            index += 1;
        }
        assert(worlds@ =~= seq![
            frame_world(),
            item_world(0, self@ == MenuItem::Continue, widths@[0]),
            item_world(1, self@ == MenuItem::Restart, widths@[1]),
            item_world(2, self@ == MenuItem::Quit, widths@[2]),
        ]) by {
            assert(worlds@[1] == item_world(0, self@.index() == 0, widths@[0]));
            assert(worlds@[2] == item_world(1, self@.index() == 1, widths@[1]));
            assert(worlds@[3] == item_world(2, self@.index() == 2, widths@[2]));
        }
        (worlds, next_world)
    }

    /// Moves the active entry with the directions that act, up before down.
    /// A press of A chooses the active entry; otherwise a press of B or of
    /// Start chooses to continue.
    pub fn update(&mut self, held: &Buttons, pressed: &Buttons) -> (choice: Option<MenuItem>)
        ensures
            final(self)@ == moved(old(self)@, *held),
            choice == if pressed.a {
                Some(final(self)@)
            } else if pressed.b || pressed.sta {
                Some(MenuItem::Continue)
            } else {
                None
            },
    {
        if held.lu {
            self.active = self.active.prev();
        }
        if held.ld {
            self.active = self.active.next();
        }
        if pressed.a {
            Some(self.active)
        } else if pressed.b || pressed.sta {
            Some(MenuItem::Continue)
        } else {
            None
        }
    }
}

/// The active entry after the directions in `held` have acted on it.
pub open spec fn moved(active: MenuItem, held: Buttons) -> MenuItem {
    let up = if held.lu {
        active.spec_prev()
    } else {
        active
    };
    if held.ld {
        up.spec_next()
    } else {
        up
    }
}

} // verus!
