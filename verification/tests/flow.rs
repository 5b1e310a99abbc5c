use virtual_picross::flow::{colors, ActiveScreen, CharSet, Flow, Transition};

#[test]
fn flow_starts_fading_into_the_title() {
    let flow = Flow::new();
    assert_eq!(flow.active(), ActiveScreen::Title);
    assert_eq!(flow.transition(), Some(Transition::FadeIn(0)));
}

#[test]
fn fade_in_takes_32_frames() {
    let mut flow = Flow::new();
    for amount in 1..=32 {
        assert!(flow.transition().is_some());
        let step = flow.fade();
        assert_eq!(step.amount, amount);
        assert!(step.load.is_none());
        assert!(step.entered.is_none());
    }
    assert!(flow.transition().is_none());
    assert_eq!(flow.active(), ActiveScreen::Title);
    let step = flow.fade();
    assert_eq!(step.amount, 32);
    assert!(flow.transition().is_none());
}

fn settle(flow: &mut Flow) {
    while flow.transition().is_some() {
        flow.fade();
    }
}

#[test]
fn leaving_fades_out_and_enters_the_next_screen() {
    let mut flow = Flow::new();
    settle(&mut flow);
    flow.leave();
    assert_eq!(flow.transition(), Some(Transition::FadeOut(31, ActiveScreen::Menu)));
    for amount in (1..=30).rev() {
        let step = flow.fade();
        assert_eq!(step.amount, amount);
        assert!(step.entered.is_none());
        assert!(step.load.is_none());
        assert_eq!(flow.active(), ActiveScreen::Title);
    }
    let step = flow.fade();
    assert_eq!(step.amount, 0);
    assert_eq!(step.entered, Some(ActiveScreen::Menu));
    assert_eq!(step.load, Some(CharSet::All));
    assert_eq!(flow.active(), ActiveScreen::Menu);
    assert_eq!(flow.transition(), Some(Transition::FadeIn(0)));
}

#[test]
fn screens_follow_each_other() {
    let mut flow = Flow::new();
    settle(&mut flow);
    let mut loads = Vec::new();
    let mut seen = Vec::new();
    for _ in 0..4 {
        flow.leave();
        while flow.transition().is_some() {
            let step = flow.fade();
            if let Some(screen) = step.entered {
                seen.push(screen);
                loads.push(step.load);
            }
        }
    }
    assert_eq!(
        seen,
        vec![ActiveScreen::Menu, ActiveScreen::Game, ActiveScreen::Menu, ActiveScreen::Game]
    );
    assert_eq!(loads, vec![Some(CharSet::All), None, None, None]);
}

#[test]
fn colors_of_a_fade() {
    assert_eq!(colors(0), (0, 0, 0));
    assert_eq!(colors(1), (1, 2, 1));
    assert_eq!(colors(32), (32, 64, 32));
}
