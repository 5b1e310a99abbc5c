//! Which screen is shown, and how one screen fades into the next.

use vstd::prelude::*;

verus! {

/// The screens of the game.
#[derive(Debug, Clone, Copy, PartialEq, Eq, Structural)]
pub enum ActiveScreen {
    Title,
    Menu,
    Game,
}

/// A fade between two screens: out of the old screen towards darkness, with
/// the screen that follows, or into the new screen. The number is the
/// brightness, from 0 to 32.
#[derive(Debug, Clone, Copy, PartialEq, Eq, Structural)]
pub enum Transition {
    FadeOut(u8, ActiveScreen),
    FadeIn(u8),
}

/// The sets of characters that the screens are drawn with.
#[derive(Debug, Clone, Copy, PartialEq, Eq, Structural)]
pub enum CharSet {
    /// The characters of the title screen.
    Title,
    /// The characters of the menu and of the game.
    All,
}

/// What a frame of a fade asks of the code around it.
#[derive(Debug, Clone, Copy, PartialEq, Eq, Structural)]
pub struct FadeStep {
    /// The brightness to set.
    pub amount: u8,
    /// The characters to load, where the screen that is faded into needs
    /// others than those that are loaded.
    pub load: Option<CharSet>,
    /// The screen that is entered in this frame, at the darkest point of
    /// the fade.
    pub entered: Option<ActiveScreen>,
}

/// The three brightness levels of the display at the brightness `amount`
/// of a fade.
pub open spec fn spec_colors(amount: u8) -> (u8, u8, u8) {
    (amount, (amount * 2) as u8, amount)
}

/// The three brightness levels of the display at the brightness `amount`
/// of a fade.
pub fn colors(amount: u8) -> (levels: (u8, u8, u8))
    requires
        amount <= 32,
    ensures
        levels == spec_colors(amount),
{
    (amount, amount * 2, amount)
}

/// The characters that a screen is drawn with.
pub open spec fn spec_chardata(screen: ActiveScreen) -> CharSet {
    match screen {
        ActiveScreen::Title => CharSet::Title,
        _ => CharSet::All,
    }
}

/// The screen that follows when a screen is left: the menu after the title
/// and after a game, a game after the menu.
pub open spec fn spec_next(screen: ActiveScreen) -> ActiveScreen {
    match screen {
        ActiveScreen::Title => ActiveScreen::Menu,
        ActiveScreen::Menu => ActiveScreen::Game,
        ActiveScreen::Game => ActiveScreen::Menu,
    }
}

/// What the flow of screens holds, as plain values.
pub struct FlowView {
    pub active: ActiveScreen,
    pub transition: Option<Transition>,
    pub loaded_chardata: CharSet,
}

impl FlowView {
    /// Whether the brightness of a fade is on its way: under 32 while
    /// fading in, and from 1 to 31 while fading out.
    pub open spec fn wf(&self) -> bool {
        match self.transition {
            Some(Transition::FadeIn(amount)) => amount < 32,
            Some(Transition::FadeOut(amount, _)) => 0 < amount < 32,
            None => true,
        }
    }

    /// The flow after one frame of its fade. A fade into a screen grows
    /// brighter by one and ends at 32. A fade out of a screen grows darker
    /// by one, and at 0 the next screen is entered and faded into.
    pub open spec fn faded(&self) -> FlowView {
        match self.transition {
            Some(Transition::FadeIn(amount)) => FlowView {
                transition: if amount + 1 == 32 {
                    None
                } else {
                    Some(Transition::FadeIn((amount + 1) as u8))
                },
                ..*self
            },
            Some(Transition::FadeOut(amount, next)) => if amount - 1 == 0 {
                FlowView {
                    active: next,
                    transition: Some(Transition::FadeIn(0)),
                    loaded_chardata: spec_chardata(next),
                }
            } else {
                FlowView {
                    transition: Some(Transition::FadeOut((amount - 1) as u8, next)),
                    ..*self
                }
            },
            None => *self,
        }
    }

    /// What one frame of the fade asks of the code around the flow.
    pub open spec fn fade_step(&self) -> FadeStep {
        match self.transition {
            Some(Transition::FadeIn(amount)) => FadeStep {
                amount: (amount + 1) as u8,
                load: None,
                entered: None,
            },
            Some(Transition::FadeOut(amount, next)) => FadeStep {
                amount: (amount - 1) as u8,
                load: if amount - 1 == 0 && spec_chardata(next) != self.loaded_chardata {
                    Some(spec_chardata(next))
                } else {
                    None
                },
                entered: if amount - 1 == 0 {
                    Some(next)
                } else {
                    None
                },
            },
            None => FadeStep { amount: 32, load: None, entered: None },
        }
    }
}

/// The flow of screens: the screen that is shown, the fade that is under
/// way, and the characters that are loaded.
pub struct Flow {
    active: ActiveScreen,
    transition: Option<Transition>,
    loaded_chardata: CharSet,
}

impl View for Flow {
    type V = FlowView;

    closed spec fn view(&self) -> FlowView {
        FlowView {
            active: self.active,
            transition: self.transition,
            loaded_chardata: self.loaded_chardata,
        }
    }
}

impl Flow {
    /// The flow at the start: the title screen, about to fade in.
    pub fn new() -> (flow: Flow)
        ensures
            flow@ == (FlowView {
                active: ActiveScreen::Title,
                transition: Some(Transition::FadeIn(0)),
                loaded_chardata: CharSet::Title,
            }),
            flow@.wf(),
    {
        Self {
            active: ActiveScreen::Title,
            transition: Some(Transition::FadeIn(0)),
            loaded_chardata: CharSet::Title,
        }
    }

    /// The screen that is shown.
    pub fn active(&self) -> (screen: ActiveScreen)
        ensures
            screen == self@.active,
    {
        self.active
    }

    /// The fade that is under way. While there is one, the screen that is
    /// shown does not move on.
    pub fn transition(&self) -> (transition: Option<Transition>)
        ensures
            transition == self@.transition,
    {
        self.transition
    }

    /// Moves the fade that is under way on by one frame, and returns what
    /// the frame asks of the code around the flow. Without a fade nothing
    /// changes.
    pub fn fade(&mut self) -> (step: FadeStep)
        requires
            old(self)@.wf(),
        ensures
            final(self)@ == old(self)@.faded(),
            step == old(self)@.fade_step(),
            final(self)@.wf(),
    {
        match self.transition {
            Some(Transition::FadeIn(amount)) => {
                let amount = amount + 1;
                self.transition = if amount == 32 {
                    None
                } else {
                    Some(Transition::FadeIn(amount))
                };
                FadeStep { amount, load: None, entered: None }
            },
            Some(Transition::FadeOut(amount, next)) => {
                let amount = amount - 1;
                if amount == 0 {
                    let chardata = match next {
                        ActiveScreen::Title => CharSet::Title,
                        _ => CharSet::All,
                    };
                    let load = if chardata != self.loaded_chardata {
                        self.loaded_chardata = chardata;
                        Some(chardata)
                    } else {
                        None
                    };
                    self.active = next;
                    self.transition = Some(Transition::FadeIn(0));
                    FadeStep { amount, load, entered: Some(next) }
                } else {
                    self.transition = Some(Transition::FadeOut(amount, next));
                    FadeStep { amount, load: None, entered: None }
                }
            },
            None => FadeStep { amount: 32, load: None, entered: None },
        }
    }

    /// Leaves the screen that is shown: starts the fade out of it, towards
    /// the screen that follows it.
    pub fn leave(&mut self)
        ensures
            final(self)@ == (FlowView {
                transition: Some(Transition::FadeOut(31, spec_next(old(self)@.active))),
                ..old(self)@
            }),
            final(self)@.wf(),
    {
        let next = match self.active {
            ActiveScreen::Title => ActiveScreen::Menu,
            ActiveScreen::Menu => ActiveScreen::Game,
            ActiveScreen::Game => ActiveScreen::Menu,
        };
        self.transition = Some(Transition::FadeOut(31, next));
    }
}

/// A fade into a screen takes 32 frames from its start, and a fade out of
/// one takes 31: so many frames on, the fade has ended, or the next screen
/// has been entered.
pub proof fn lemma_fade_ends(flow: FlowView, frames: nat)
    requires
        flow.wf(),
    ensures
        flow.transition matches Some(Transition::FadeIn(amount)) ==> frames == 32 - amount
            ==> faded_by(flow, frames).transition.is_none(),
        flow.transition matches Some(Transition::FadeOut(amount, next)) ==> frames == amount
            ==> faded_by(flow, frames) == (FlowView {
            active: next,
            transition: Some(Transition::FadeIn(0)),
            loaded_chardata: spec_chardata(next),
        }),
    decreases frames,
{
    if frames > 0 {
        match flow.transition {
            Some(Transition::FadeIn(amount)) => {
                if frames == 32 - amount {
                    lemma_fade_ends(flow.faded(), (frames - 1) as nat);
                }
            },
            Some(Transition::FadeOut(amount, next)) => {
                if frames == amount {
                    lemma_fade_ends(flow.faded(), (frames - 1) as nat);
                }
            },
            None => {},
        }
    }
}

/// The flow after `frames` frames of its fade.
pub open spec fn faded_by(flow: FlowView, frames: nat) -> FlowView
    decreases frames,
{
    if frames == 0 {
        flow
    } else {
        faded_by(flow.faded(), (frames - 1) as nat)
    }
}

} // verus!
