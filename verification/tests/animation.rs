use my_library::{
    AnimationCycle, AnimationError, AnimationEvent, AnimationFrame, AnimationOption, Animations,
    PerFrameAnimation,
};

const LEVEL: &str = "Straight and Level";
const FLAPPING: &str = "Flapping";

fn level() -> PerFrameAnimation {
    PerFrameAnimation::new(vec![
        AnimationFrame::new(2, 500, vec![AnimationOption::NextFrame]),
        AnimationFrame::new(3, 500, vec![AnimationOption::GoToFrame(0)]),
    ])
    .unwrap()
}

fn flapping() -> PerFrameAnimation {
    PerFrameAnimation::new(vec![
        AnimationFrame::new(
            0,
            66,
            vec![AnimationOption::NextFrame, AnimationOption::PlaySound("flap".to_string())],
        ),
        AnimationFrame::new(1, 66, vec![AnimationOption::NextFrame]),
        AnimationFrame::new(2, 66, vec![AnimationOption::NextFrame]),
        AnimationFrame::new(3, 66, vec![AnimationOption::NextFrame]),
        AnimationFrame::new(2, 66, vec![AnimationOption::NextFrame]),
        AnimationFrame::new(1, 66, vec![AnimationOption::SwitchToAnimation(LEVEL.to_string())]),
    ])
    .unwrap()
}

fn catalog() -> Animations {
    Animations::new().with_animation(LEVEL, level()).with_animation(FLAPPING, flapping())
}

fn state(cycle: &AnimationCycle) -> (&str, usize, u128) {
    (cycle.animation().as_str(), cycle.frame(), cycle.elapsed_ms())
}

#[test]
fn a_new_cycle_starts_at_the_first_frame() {
    let cycle = AnimationCycle::new(LEVEL);
    assert_eq!(state(&cycle), (LEVEL, 0, 0));
    assert_eq!(cycle.sprite_index(&catalog()), Some(2));
}

#[test]
fn time_short_of_the_duration_stays_in_the_frame() {
    let catalog = catalog();
    let mut cycle = AnimationCycle::new(LEVEL);
    assert_eq!(cycle.advance(&catalog, 499), vec![]);
    assert_eq!(state(&cycle), (LEVEL, 0, 499));
    assert_eq!(cycle.advance(&catalog, 0), vec![]);
    assert_eq!(state(&cycle), (LEVEL, 0, 499));
}

#[test]
fn a_frame_is_left_when_its_duration_has_elapsed() {
    let catalog = catalog();
    let mut cycle = AnimationCycle::new(LEVEL);
    assert_eq!(cycle.advance(&catalog, 500), vec![]);
    assert_eq!(state(&cycle), (LEVEL, 1, 0));
    assert_eq!(cycle.sprite_index(&catalog), Some(3));
}

#[test]
fn two_frames_cycle_within_1500_ms() {
    let catalog = catalog();
    let mut cycle = AnimationCycle::new(LEVEL);
    assert_eq!(cycle.advance(&catalog, 1499), vec![]);
    assert_eq!(state(&cycle), (LEVEL, 0, 499));

    let mut cycle = AnimationCycle::new(LEVEL);
    let mut visits = [1, 0];
    for _ in 0..1499 {
        let before = cycle.frame();
        cycle.advance(&catalog, 1);
        if cycle.frame() != before {
            visits[cycle.frame()] += 1;
        }
    }
    assert_eq!(visits, [2, 1]);
    assert_eq!(state(&cycle), (LEVEL, 0, 499));
}

#[test]
fn the_third_duration_ends_at_1500_ms() {
    let catalog = catalog();
    let mut cycle = AnimationCycle::new(LEVEL);
    cycle.advance(&catalog, 1500);
    assert_eq!(state(&cycle), (LEVEL, 1, 0));

    let mut cycle = AnimationCycle::new(LEVEL);
    let mut frames = Vec::new();
    for _ in 0..3 {
        cycle.advance(&catalog, 500);
        frames.push(cycle.frame());
    }
    assert_eq!(frames, vec![1, 0, 1]);
}

#[test]
fn a_long_stall_is_caught_up_frame_by_frame() {
    let catalog = catalog();
    let mut cycle = AnimationCycle::new(LEVEL);
    cycle.advance(&catalog, 1_000_250);
    assert_eq!(state(&cycle), (LEVEL, 0, 250));
    cycle.advance(&catalog, 1_000_250);
    assert_eq!(state(&cycle), (LEVEL, 1, 0));
}

#[test]
fn a_forced_switch_discards_the_time_in_the_frame() {
    let catalog = catalog();
    let mut cycle = AnimationCycle::new(LEVEL);
    cycle.advance(&catalog, 700);
    assert_eq!(state(&cycle), (LEVEL, 1, 200));
    assert_eq!(cycle.switch(&catalog, FLAPPING), Ok(()));
    assert_eq!(state(&cycle), (FLAPPING, 0, 0));
    assert_eq!(cycle.sprite_index(&catalog), Some(0));
}

#[test]
fn a_forced_switch_to_the_current_animation_restarts_it() {
    let catalog = catalog();
    let mut cycle = AnimationCycle::new(LEVEL);
    cycle.advance(&catalog, 700);
    assert_eq!(cycle.switch(&catalog, LEVEL), Ok(()));
    assert_eq!(state(&cycle), (LEVEL, 0, 0));
}

#[test]
fn a_forced_switch_to_an_unknown_animation_is_refused() {
    let catalog = catalog();
    let mut cycle = AnimationCycle::new(LEVEL);
    cycle.advance(&catalog, 700);
    assert_eq!(cycle.switch(&catalog, "Diving"), Err(AnimationError::UnknownAnimation));
    assert_eq!(state(&cycle), (LEVEL, 1, 200));
}

#[test]
fn flapping_plays_its_sound_and_returns_to_level_flight() {
    let catalog = catalog();
    let mut cycle = AnimationCycle::new(FLAPPING);
    assert_eq!(
        cycle.advance(&catalog, 66),
        vec![AnimationEvent::PlaySound("flap".to_string())]
    );
    assert_eq!(state(&cycle), (FLAPPING, 1, 0));
    assert_eq!(cycle.advance(&catalog, 4 * 66 + 65), vec![]);
    assert_eq!(state(&cycle), (FLAPPING, 5, 65));
    assert_eq!(cycle.advance(&catalog, 1), vec![]);
    assert_eq!(state(&cycle), (LEVEL, 0, 0));
}

#[test]
fn a_switch_by_option_starts_the_new_animation_without_time() {
    let catalog = catalog();
    let mut cycle = AnimationCycle::new(FLAPPING);
    let events = cycle.advance(&catalog, 6 * 66 + 600);
    assert_eq!(events, vec![AnimationEvent::PlaySound("flap".to_string())]);
    assert_eq!(state(&cycle), (LEVEL, 0, 0));
}

#[test]
fn a_sound_is_asked_for_on_every_round_of_a_frame() {
    let chime = PerFrameAnimation::new(vec![AnimationFrame::new(
        7,
        100,
        vec![AnimationOption::PlaySound("chime".to_string()), AnimationOption::NextFrame],
    )])
    .unwrap();
    let catalog = Animations::new().with_animation("Chime", chime);
    let mut cycle = AnimationCycle::new("Chime");
    let events = cycle.advance(&catalog, 350);
    assert_eq!(
        events,
        vec![
            AnimationEvent::PlaySound("chime".to_string()),
            AnimationEvent::PlaySound("chime".to_string()),
            AnimationEvent::PlaySound("chime".to_string()),
        ]
    );
    assert_eq!(state(&cycle), ("Chime", 0, 50));
}

#[test]
fn the_frame_after_the_last_is_the_first() {
    let ring = PerFrameAnimation::new(vec![
        AnimationFrame::new(0, 10, vec![AnimationOption::NextFrame]),
        AnimationFrame::new(1, 20, vec![AnimationOption::NextFrame]),
        AnimationFrame::new(2, 30, vec![AnimationOption::NextFrame]),
    ])
    .unwrap();
    let catalog = Animations::new().with_animation("Ring", ring);
    let mut cycle = AnimationCycle::new("Ring");
    cycle.advance(&catalog, 10 + 20 + 29);
    assert_eq!(state(&cycle), ("Ring", 2, 29));
    cycle.advance(&catalog, 1);
    assert_eq!(state(&cycle), ("Ring", 0, 0));
    cycle.advance(&catalog, 75);
    assert_eq!(state(&cycle), ("Ring", 1, 5));
}

#[test]
fn a_frame_without_options_repeats() {
    let still = PerFrameAnimation::new(vec![AnimationFrame::new(4, 100, vec![])]).unwrap();
    let catalog = Animations::new().with_animation("Still", still);
    let mut cycle = AnimationCycle::new("Still");
    assert_eq!(cycle.advance(&catalog, 250), vec![]);
    assert_eq!(state(&cycle), ("Still", 0, 50));
}

#[test]
fn options_run_in_their_order_and_the_last_move_stands() {
    let frames = |options: Vec<AnimationOption>| {
        PerFrameAnimation::new(vec![
            AnimationFrame::new(0, 10, options),
            AnimationFrame::new(1, 10, vec![]),
            AnimationFrame::new(2, 10, vec![]),
        ])
        .unwrap()
    };
    let catalog = Animations::new()
        .with_animation(
            "A",
            frames(vec![AnimationOption::NextFrame, AnimationOption::GoToFrame(2)]),
        )
        .with_animation(
            "B",
            frames(vec![AnimationOption::GoToFrame(2), AnimationOption::NextFrame]),
        )
        .with_animation(
            "C",
            frames(vec![
                AnimationOption::NextFrame,
                AnimationOption::SwitchToAnimation("A".to_string()),
            ]),
        );
    let mut cycle = AnimationCycle::new("A");
    cycle.advance(&catalog, 10);
    assert_eq!(state(&cycle), ("A", 2, 0));
    let mut cycle = AnimationCycle::new("B");
    cycle.advance(&catalog, 10);
    assert_eq!(state(&cycle), ("B", 0, 0));
    let mut cycle = AnimationCycle::new("C");
    cycle.advance(&catalog, 19);
    assert_eq!(state(&cycle), ("A", 0, 0));
}

#[test]
fn options_after_a_switch_act_on_the_new_animation() {
    let long = PerFrameAnimation::new(vec![
        AnimationFrame::new(
            0,
            10,
            vec![
                AnimationOption::SwitchToAnimation("Short".to_string()),
                AnimationOption::NextFrame,
                AnimationOption::PlaySound("pop".to_string()),
                AnimationOption::GoToFrame(5),
            ],
        ),
        AnimationFrame::new(1, 10, vec![]),
        AnimationFrame::new(2, 10, vec![]),
        AnimationFrame::new(3, 10, vec![]),
        AnimationFrame::new(4, 10, vec![]),
        AnimationFrame::new(5, 10, vec![]),
    ])
    .unwrap();
    let short = PerFrameAnimation::new(vec![
        AnimationFrame::new(8, 10, vec![]),
        AnimationFrame::new(9, 10, vec![]),
        AnimationFrame::new(10, 10, vec![]),
    ])
    .unwrap();
    let catalog = Animations::new().with_animation("Long", long).with_animation("Short", short);
    let mut cycle = AnimationCycle::new("Long");
    let events = cycle.advance(&catalog, 35);
    assert_eq!(
        events,
        vec![
            AnimationEvent::PlaySound("pop".to_string()),
            AnimationEvent::Diagnostic(AnimationError::FrameIndexOutOfRange),
        ]
    );
    assert_eq!(state(&cycle), ("Short", 2, 0));
    assert_eq!(cycle.sprite_index(&catalog), Some(10));
}

#[test]
fn a_switch_by_option_to_an_unknown_animation_is_reported_and_skipped() {
    let catalog = Animations::new()
        .with_animation("Straignt and Level", level())
        .with_animation(FLAPPING, flapping());
    assert_eq!(catalog.validate(), Err(AnimationError::UnknownAnimation));
    let mut cycle = AnimationCycle::new(FLAPPING);
    let events = cycle.advance(&catalog, 6 * 66 + 10);
    assert_eq!(
        events,
        vec![
            AnimationEvent::PlaySound("flap".to_string()),
            AnimationEvent::Diagnostic(AnimationError::UnknownAnimation),
        ]
    );
    assert_eq!(state(&cycle), (FLAPPING, 5, 10));
    let events = cycle.advance(&catalog, 2 * 66);
    assert_eq!(
        events,
        vec![
            AnimationEvent::Diagnostic(AnimationError::UnknownAnimation),
            AnimationEvent::Diagnostic(AnimationError::UnknownAnimation),
        ]
    );
    assert_eq!(state(&cycle), (FLAPPING, 5, 10));
}

#[test]
fn a_cycle_of_an_unknown_animation_only_gathers_time() {
    let catalog = catalog();
    let mut cycle = AnimationCycle::new("Diving");
    assert_eq!(cycle.advance(&catalog, 5000), vec![]);
    assert_eq!(state(&cycle), ("Diving", 0, 5000));
    assert_eq!(cycle.sprite_index(&catalog), None);
    assert_eq!(cycle.advance(&catalog, u128::MAX), vec![]);
    assert_eq!(state(&cycle), ("Diving", 0, u128::MAX));
    assert_eq!(cycle.advance(&catalog, 1), vec![]);
    assert_eq!(state(&cycle), ("Diving", 0, u128::MAX));
}

#[test]
fn a_cycle_beyond_the_frames_of_its_animation_only_gathers_time() {
    let mut cycle = AnimationCycle::new(LEVEL);
    cycle.advance(&catalog(), 500);
    assert_eq!(state(&cycle), (LEVEL, 1, 0));
    let still = PerFrameAnimation::new(vec![AnimationFrame::new(4, 100, vec![])]).unwrap();
    let other = Animations::new().with_animation(LEVEL, still);
    assert_eq!(cycle.advance(&other, 1000), vec![]);
    assert_eq!(state(&cycle), (LEVEL, 1, 1000));
    assert_eq!(cycle.sprite_index(&other), None);
}

#[test]
fn an_animation_needs_a_frame() {
    assert_eq!(PerFrameAnimation::new(vec![]).unwrap_err(), AnimationError::EmptyAnimation);
}

#[test]
fn a_frame_needs_a_duration() {
    let made = PerFrameAnimation::new(vec![
        AnimationFrame::new(0, 10, vec![AnimationOption::NextFrame]),
        AnimationFrame::new(1, 0, vec![AnimationOption::NextFrame]),
    ]);
    assert_eq!(made.unwrap_err(), AnimationError::ZeroDuration);
}

#[test]
fn a_jump_needs_a_frame_to_land_on() {
    let made = PerFrameAnimation::new(vec![
        AnimationFrame::new(0, 10, vec![AnimationOption::NextFrame]),
        AnimationFrame::new(1, 10, vec![AnimationOption::GoToFrame(2)]),
    ]);
    assert_eq!(made.unwrap_err(), AnimationError::FrameIndexOutOfRange);
    let made = PerFrameAnimation::new(vec![
        AnimationFrame::new(0, 10, vec![AnimationOption::NextFrame]),
        AnimationFrame::new(1, 10, vec![AnimationOption::GoToFrame(1)]),
    ]);
    assert!(made.is_ok());
}

#[test]
fn a_missing_duration_is_reported_before_a_stray_jump() {
    let made = PerFrameAnimation::new(vec![
        AnimationFrame::new(0, 10, vec![AnimationOption::GoToFrame(9)]),
        AnimationFrame::new(1, 0, vec![]),
    ]);
    assert_eq!(made.unwrap_err(), AnimationError::ZeroDuration);
}

#[test]
fn an_animation_hands_out_its_frames() {
    let animation = level();
    let frames = animation.frames();
    assert_eq!(frames.len(), 2);
    assert_eq!(frames[0], AnimationFrame::new(2, 500, vec![AnimationOption::NextFrame]));
    assert_eq!(frames[1].sprite_index, 3);
    assert_eq!(frames[1].duration_ms, 500);
    assert_eq!(frames[1].options, vec![AnimationOption::GoToFrame(0)]);
}

#[test]
fn a_catalog_holds_animations_by_name() {
    let empty = Animations::new();
    assert_eq!(empty.len(), 0);
    assert!(!empty.contains(LEVEL));
    assert!(empty.get(LEVEL).is_none());
    assert_eq!(empty.validate(), Ok(()));

    let catalog = catalog();
    assert_eq!(catalog.len(), 2);
    assert!(catalog.contains(LEVEL));
    assert!(catalog.contains(FLAPPING));
    assert!(!catalog.contains("flapping"));
    assert_eq!(catalog.get(FLAPPING).unwrap().frames().len(), 6);
    assert_eq!(catalog.find(&LEVEL.to_string()).unwrap().frames().len(), 2);
    assert!(catalog.find(&"Diving".to_string()).is_none());
    assert_eq!(catalog.validate(), Ok(()));
}

#[test]
fn an_animation_added_under_a_used_name_replaces_the_old_one() {
    let still = PerFrameAnimation::new(vec![AnimationFrame::new(4, 100, vec![])]).unwrap();
    let catalog = catalog().with_animation(LEVEL, still);
    assert_eq!(catalog.len(), 2);
    assert_eq!(catalog.get(LEVEL).unwrap().frames().len(), 1);
    assert_eq!(catalog.get(FLAPPING).unwrap().frames().len(), 6);
    let mut cycle = AnimationCycle::new(LEVEL);
    cycle.advance(&catalog, 130);
    assert_eq!(state(&cycle), (LEVEL, 0, 30));
    assert_eq!(cycle.sprite_index(&catalog), Some(4));
}

#[test]
fn a_catalog_with_a_switch_into_nothing_fails_validation() {
    let lonely = Animations::new().with_animation(FLAPPING, flapping());
    assert_eq!(lonely.validate(), Err(AnimationError::UnknownAnimation));
    let complete = lonely.with_animation(LEVEL, level());
    assert_eq!(complete.validate(), Ok(()));
}

#[test]
fn an_advance_leaves_less_time_than_the_frame_lasts() {
    let catalog = catalog();
    for start in [LEVEL, FLAPPING] {
        for elapsed in [0u128, 1, 65, 66, 67, 395, 396, 397, 499, 500, 501, 999, 1000, 1001, 12345] {
            let mut cycle = AnimationCycle::new(start);
            cycle.advance(&catalog, elapsed);
            let animation = catalog.get(cycle.animation()).unwrap();
            let frame = &animation.frames()[cycle.frame()];
            assert!(cycle.elapsed_ms() < frame.duration_ms);
        }
    }
}

#[test]
fn a_validated_catalog_reports_no_unknown_animation() {
    let catalog = catalog();
    assert_eq!(catalog.validate(), Ok(()));
    let mut cycle = AnimationCycle::new(FLAPPING);
    for _ in 0..200 {
        for event in cycle.advance(&catalog, 37) {
            assert_ne!(event, AnimationEvent::Diagnostic(AnimationError::UnknownAnimation));
        }
        assert!(cycle.sprite_index(&catalog).is_some());
        if cycle.animation() == LEVEL && cycle.frame() == 1 {
            assert_eq!(cycle.switch(&catalog, FLAPPING), Ok(()));
        }
    }
}
