use cascade::animation::window_animation_millis;
use cascade::animation::AnimaitonState;
use cascade::animation::Animation;
use cascade::animation::AnimationConflict;
use cascade::animation::AnimationDriver;
use cascade::animation::AnimationPhase;
use cascade::animation::Progress;
use cascade::entities::AnimationStatus;
use cascade::entities::Command;
use cascade::geometry::Displacement;
use cascade::geometry::Point;

fn slide(window: u64, to: i32) -> AnimationDriver {
    AnimationDriver::WindowPosition { window, start: Point::new(0, 0), end: Point::new(to, 0) }
}

fn still(window: u64) -> Command {
    Command::SetTranslate { window, by: Displacement::new(0, 0) }
}

#[test]
fn duration_scales_with_distance() {
    assert_eq!(window_animation_millis(Point::new(0, 0), Point::new(0, 0)), 0);
    assert_eq!(window_animation_millis(Point::new(0, 0), Point::new(3, 4)), 75);
    assert_eq!(window_animation_millis(Point::new(0, 0), Point::new(1, 1)), 21);
    assert_eq!(window_animation_millis(Point::new(0, 0), Point::new(19, 0)), 285);
    assert_eq!(window_animation_millis(Point::new(5, 5), Point::new(5, -14)), 285);
}

#[test]
fn duration_is_capped() {
    assert_eq!(window_animation_millis(Point::new(0, 0), Point::new(20, 0)), 300);
    assert_eq!(window_animation_millis(Point::new(0, 0), Point::new(-1000, 3)), 300);
    assert_eq!(
        window_animation_millis(Point::new(i32::MIN, i32::MIN), Point::new(i32::MAX, i32::MAX)),
        300
    );
}

#[test]
fn window_drivers_conflict_on_the_same_window() {
    assert_eq!(slide(1, 100).is_conflict(&slide(1, 100)), AnimationConflict::Ignore);
    assert_eq!(slide(1, 100).is_conflict(&slide(1, 200)), AnimationConflict::Replace);
    assert_eq!(slide(1, 100).is_conflict(&slide(2, 100)), AnimationConflict::NoConflict);
    let callback = AnimationDriver::Callback { callback: 1 };
    assert_eq!(callback.is_conflict(&callback), AnimationConflict::NoConflict);
    assert_eq!(slide(1, 100).is_conflict(&callback), AnimationConflict::NoConflict);
}

#[test]
fn constructors_set_the_delay() {
    let immediate = Animation::immediate(1000, slide(1, 100));
    assert_eq!(immediate.delay, 0);
    assert_eq!(immediate.duration, 1000);
    assert_eq!(immediate.progress, None);
    let delayed = Animation::delayed(1000, 250, slide(1, 100));
    assert_eq!(delayed.delay, 250);
}

#[test]
fn frame_waits_runs_and_completes() {
    let animation = Animation::delayed(1000, 100, slide(7, 100));
    let mut commands = Vec::new();
    let waiting = animation.frame(5100, 5000, AnimationPhase::Waiting, &mut commands);
    assert_eq!(waiting, AnimationPhase::Waiting);
    assert!(commands.is_empty());

    let running = animation.frame(5350, 5000, AnimationPhase::Waiting, &mut commands);
    assert_eq!(running, AnimationPhase::Running);
    assert_eq!(
        commands,
        vec![
            Command::MoveTo { window: 7, top_left: Point::new(100, 0) },
            Command::SetTranslate { window: 7, by: Displacement::new(-75, 0) },
        ]
    );

    commands.clear();
    let later = animation.frame(5600, 5000, AnimationPhase::Running, &mut commands);
    assert_eq!(later, AnimationPhase::Running);
    assert_eq!(commands, vec![Command::SetTranslate { window: 7, by: Displacement::new(-50, 0) }]);

    commands.clear();
    let done = animation.frame(6100, 5000, AnimationPhase::Running, &mut commands);
    assert_eq!(done, AnimationPhase::Completed);
    assert_eq!(commands, vec![still(7)]);
}

#[test]
fn offset_rounds_towards_zero() {
    let animation = Animation::immediate(
        3,
        AnimationDriver::WindowPosition {
            window: 1,
            start: Point::new(10, -10),
            end: Point::new(0, 0),
        },
    );
    let mut commands = Vec::new();
    animation.frame(1, 0, AnimationPhase::Running, &mut commands);
    assert_eq!(commands, vec![Command::SetTranslate { window: 1, by: Displacement::new(6, -6) }]);
}

#[test]
fn frame_aborts_when_the_clock_goes_back() {
    let animation = Animation::immediate(1000, slide(7, 100));
    let mut commands = Vec::new();
    let phase = animation.frame(4999, 5000, AnimationPhase::Running, &mut commands);
    assert_eq!(phase, AnimationPhase::Error);
    assert_eq!(commands, vec![still(7)]);
}

#[test]
fn zero_duration_snaps() {
    let animation = Animation::immediate(0, slide(7, 100));
    let mut commands = Vec::new();
    let phase = animation.frame(5001, 5000, AnimationPhase::Waiting, &mut commands);
    assert_eq!(phase, AnimationPhase::Completed);
    assert_eq!(
        commands,
        vec![Command::MoveTo { window: 7, top_left: Point::new(100, 0) }, still(7)]
    );
}

#[test]
fn callback_driver_reports_steps() {
    let animation = Animation::immediate(1000, AnimationDriver::Callback { callback: 3 });
    let mut commands = Vec::new();
    animation.frame(5250, 5000, AnimationPhase::Waiting, &mut commands);
    animation.frame(7000, 5000, AnimationPhase::Running, &mut commands);
    animation.frame(4000, 5000, AnimationPhase::Running, &mut commands);
    assert_eq!(
        commands,
        vec![
            Command::StepCallback { callback: 3, elapsed: 250, duration: 1000 },
            Command::StepCallback { callback: 3, elapsed: 1000, duration: 1000 },
        ]
    );
}

#[test]
fn starting_replaces_or_ignores() {
    let mut state = AnimaitonState::new();
    let mut commands = Vec::new();
    state.start_animation(Animation::immediate(1000, slide(1, 100)), &mut commands);
    state.start_animation(Animation::immediate(1000, slide(2, 100)), &mut commands);
    assert!(commands.is_empty());
    assert_eq!(state.running_animations.len(), 2);

    state.start_animation(Animation::immediate(500, slide(1, 100)), &mut commands);
    assert!(commands.is_empty());
    assert_eq!(state.running_animations.len(), 2);
    assert_eq!(state.running_animations[0].duration, 1000);

    state.start_animation(Animation::immediate(500, slide(1, 300)), &mut commands);
    assert_eq!(commands, vec![still(1)]);
    assert_eq!(state.running_animations.len(), 2);
    assert_eq!(state.running_animations[0].driver, slide(2, 100));
    assert_eq!(state.running_animations[1].driver, slide(1, 300));
    assert_eq!(state.status(1), AnimationStatus::IsAnimating(Point::new(300, 0)));
    assert_eq!(state.status(3), AnimationStatus::Still);
}

#[test]
fn step_stamps_the_start_and_retires() {
    let mut state = AnimaitonState::new();
    let mut commands = Vec::new();
    state.start_animation(Animation::immediate(1000, slide(1, 100)), &mut commands);
    state.step(9000, &mut commands);
    assert!(commands.is_empty());
    assert_eq!(
        state.running_animations[0].progress,
        Some(Progress { start_time: 9000, phase: AnimationPhase::Waiting })
    );
    state.step(9500, &mut commands);
    assert_eq!(
        commands,
        vec![
            Command::MoveTo { window: 1, top_left: Point::new(100, 0) },
            Command::SetTranslate { window: 1, by: Displacement::new(-50, 0) },
        ]
    );
    assert_eq!(
        state.running_animations[0].progress,
        Some(Progress { start_time: 9000, phase: AnimationPhase::Running })
    );
    commands.clear();
    state.step(10_000, &mut commands);
    assert_eq!(commands, vec![still(1)]);
    assert!(state.running_animations.is_empty());
    assert_eq!(state.status(1), AnimationStatus::Still);
}
