use virtual_picross::display::WorldMode;
use virtual_picross::game::megu::{Megu, Pose};
use virtual_picross::state::GameState;

const IDLE: Pose = Pose {
    back_l: (0, 0),
    back_r: (0, 80),
    mid_l: (64, 0),
    mid_r: (64, 80),
    front_l: (128, 0),
    front_r: (128, 0),
};

const CHEER_1: Pose = Pose {
    back_l: (0, 160),
    back_r: (0, 240),
    mid_l: (64, 160),
    mid_r: (64, 240),
    front_l: (128, 160),
    front_r: (128, 240),
};

const CHEER_2: Pose = Pose {
    back_l: (0, 320),
    back_r: (0, 400),
    mid_l: (64, 320),
    mid_r: (64, 400),
    front_l: (128, 320),
    front_r: (128, 400),
};

fn megu() -> Megu {
    Megu::new(IDLE, CHEER_1, CHEER_2)
}

#[test]
fn new_mascot_is_idle_at_the_corner() {
    let megu = megu();
    let (worlds, next) = megu.draw(31);
    assert_eq!(next, 28);
    assert_eq!((worlds[0].gx, worlds[0].gy), (0, 16));
    assert_eq!((worlds[1].gx, worlds[1].gy), (0, 0));
    assert_eq!((worlds[2].gx, worlds[2].gy), (0, 16));
    assert_eq!((worlds[0].mx, worlds[0].my), IDLE.back_l);
    assert_eq!((worlds[1].mx, worlds[1].my), IDLE.mid_l);
    assert_eq!((worlds[2].mx, worlds[2].my), IDLE.front_l);
}

#[test]
fn init_centres_the_mascot() {
    let mut megu = megu();
    megu.win();
    megu.init((100, 90));
    let (worlds, next) = megu.draw(10);
    assert_eq!(next, 7);
    assert_eq!((worlds[0].gx, worlds[0].gy), (68, 66));
    assert_eq!((worlds[1].gx, worlds[1].gy), (68, 50));
    assert_eq!((worlds[2].gx, worlds[2].gy), (68, 66));
    assert_eq!((worlds[1].mx, worlds[1].my), IDLE.mid_l);
}

#[test]
fn draw_layers_the_pose() {
    let megu = megu();
    let (worlds, _) = megu.draw(3);
    assert_eq!((worlds[0].gp, worlds[1].gp, worlds[2].gp), (2, 0, -1));
    assert_eq!((worlds[0].w, worlds[0].h), (63, 55));
    assert_eq!((worlds[1].w, worlds[1].h), (63, 79));
    assert_eq!((worlds[2].w, worlds[2].h), (63, 63));
    for world in worlds {
        assert_eq!(world.bgm, WorldMode::Normal);
        assert!(world.lon && world.ron);
        assert_eq!(world.bg_map_base, 5);
    }
}

#[test]
fn pose_draw_turns_and_jiggles() {
    let (worlds, next) = CHEER_1.draw((10, 20), true, true, 5);
    assert_eq!(next, 2);
    assert_eq!((worlds[0].mx, worlds[0].my), CHEER_1.back_r);
    assert_eq!((worlds[1].mx, worlds[1].my), CHEER_1.mid_r);
    assert_eq!((worlds[2].mx, worlds[2].my), CHEER_1.front_r);
    assert_eq!((worlds[0].gx, worlds[0].gy), (10, 36));
    assert_eq!((worlds[1].gx, worlds[1].gy), (10, 20));
    assert_eq!((worlds[2].gx, worlds[2].gy), (10, 35));
    let (worlds, _) = CHEER_1.draw((10, 20), false, false, 5);
    assert_eq!((worlds[2].mx, worlds[2].my), CHEER_1.front_l);
    assert_eq!(worlds[2].gy, 36);
}

#[test]
fn win_starts_the_celebration() {
    let mut megu = megu();
    megu.win();
    let (worlds, _) = megu.draw(31);
    assert_eq!((worlds[0].mx, worlds[0].my), CHEER_2.back_l);
    assert_eq!((worlds[2].mx, worlds[2].my), CHEER_2.front_l);
}

#[test]
fn sway_jiggles_on_zero() {
    let mut megu = megu();
    megu.sway(0);
    let (worlds, _) = megu.draw(31);
    assert_eq!(worlds[2].gy, 15);
    megu.sway(0);
    let (worlds, _) = megu.draw(31);
    assert_eq!(worlds[2].gy, 16);
    megu.sway(0);
    megu.sway(1);
    let (worlds, _) = megu.draw(31);
    assert_eq!(worlds[2].gy, 16);
    assert_eq!((worlds[0].mx, worlds[0].my), IDLE.back_l);
}

fn round(megu: &mut Megu, rand: i32) {
    let mut state = GameState::new();
    for _ in 0..15 {
        megu.update(&mut state);
    }
    megu.win();
    for _ in 0..15 {
        megu.update(&mut state);
    }
    megu.sway(rand);
}

#[test]
fn update_counts_frames_between_numbers() {
    let mut megu = megu();
    let mut state = GameState::new();
    for _ in 0..3 {
        megu.update(&mut state);
        let (worlds, _) = megu.draw(31);
        assert_eq!(worlds[2].gy, 16);
        assert_eq!((worlds[0].mx, worlds[0].my), IDLE.back_l);
    }
}

#[test]
fn update_draws_numbers_that_vary() {
    let mut megu = megu();
    megu.win();
    let mut state = GameState::new();
    let mut left = 0;
    let mut right = 0;
    let mut first = 0;
    let mut second = 0;
    for _ in 0..64 {
        for _ in 0..16 {
            megu.update(&mut state);
        }
        let (worlds, _) = megu.draw(31);
        let back = (worlds[0].mx, worlds[0].my);
        if back == CHEER_1.back_l {
            left += 1;
            first += 1;
        } else if back == CHEER_1.back_r {
            right += 1;
            first += 1;
        } else if back == CHEER_2.back_l {
            left += 1;
            second += 1;
        } else {
            assert_eq!(back, CHEER_2.back_r);
            right += 1;
            second += 1;
        }
    }
    assert!(left > 0 && right > 0);
    assert!(first > 0 && second > 0);
}

#[test]
fn an_idle_mascot_never_celebrates() {
    let mut megu = megu();
    let mut state = GameState::new();
    for _ in 0..160 {
        megu.update(&mut state);
        let (worlds, _) = megu.draw(31);
        let back = (worlds[0].mx, worlds[0].my);
        assert!(back == IDLE.back_l || back == IDLE.back_r);
    }
}
