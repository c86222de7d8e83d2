//! Animations: time-driven interpolation of window positions.
//!
//! Times are microseconds on one clock. An animation waits for its delay,
//! then runs for its duration; a driver turns the progress into commands.

use crate::entities::AnimationStatus;
use crate::entities::Command;
use crate::entities::Id;
use crate::geometry::Displacement;
use crate::geometry::Point;
use crate::geometry::clamp_i32;
use vstd::prelude::*;

verus! {

/// The duration in milliseconds per unit of distance.
pub const WINDOW_ANIMATION_SPEED: u64 = 15;

/// The longest a window animation takes, in milliseconds.
pub const MAX_WINDOW_ANIMATION_DURATION_MS: u64 = 300;

/// How a new animation relates to one that is running.
#[derive(Debug, PartialEq, Eq, Structural, Clone, Copy)]
pub enum AnimationConflict {
    /// Both run.
    NoConflict,
    /// The new one takes the place of the running one.
    Replace,
    /// The new one is dropped.
    Ignore,
}

/// What an animation drives.
#[derive(Debug, PartialEq, Eq, Structural, Clone, Copy)]
pub enum AnimationDriver {
    /// A window on its way from `start` to `end`.
    WindowPosition { window: Id, start: Point, end: Point },
    /// A callback outside the library, told of every step.
    Callback { callback: u64 },
}

/// Where an animation stands.
#[derive(Debug, PartialEq, Eq, Structural, Clone, Copy)]
pub enum AnimationPhase {
    Waiting,
    Running,
    Completed,
    Error,
}

/// What an animation keeps from the frames it saw.
#[derive(Debug, PartialEq, Eq, Structural, Clone, Copy)]
pub struct Progress {
    /// The time of the first frame.
    pub start_time: u64,
    /// The phase after the last frame.
    pub phase: AnimationPhase,
}

/// An animation with the frame it saw last.
#[derive(Debug, PartialEq, Eq, Structural, Clone, Copy)]
pub struct Animation {
    pub driver: AnimationDriver,
    /// Microseconds to wait before the first step.
    pub delay: u64,
    /// Microseconds from the first step to the last.
    pub duration: u64,
    /// `None` before the first frame.
    pub progress: Option<Progress>,
}

/// What one frame does to an animation.
pub struct FrameOutcome {
    pub phase: AnimationPhase,
    pub commands: Seq<Command>,
}

/// `n / d` rounded towards zero, for a positive `d`.
pub open spec fn trunc_div(n: int, d: int) -> int {
    if n >= 0 {
        n / d
    } else {
        -((-n) / d)
    }
}

/// The largest `r <= bound` with `r * r <= n`, and 0 if there is none.
pub open spec fn root_up_to(n: int, bound: int) -> int
    decreases bound,
{
    if bound <= 0 {
        0
    } else if bound * bound <= n {
        bound
    } else {
        root_up_to(n, bound - 1)
    }
}

/// The square of the distance between two points.
pub open spec fn distance_squared(a: Point, b: Point) -> int {
    (a.x - b.x) * (a.x - b.x) + (a.y - b.y) * (a.y - b.y)
}

/// The milliseconds that a window takes from `start` to `end`: 15 for each
/// unit of distance, rounded down, and 300 at most.
pub open spec fn spec_window_animation_millis(start: Point, end: Point) -> int {
    root_up_to(225 * distance_squared(start, end), 300)
}

/// A coordinate of the offset at which a window is drawn `elapsed` into an
/// animation of `duration`, when it started `gap` away from its target.
pub open spec fn remaining_offset(gap: int, elapsed: int, duration: int) -> i32 {
    clamp_i32(trunc_div(gap * (duration - elapsed), duration))
}

/// From the square of 300 on the capped root is 300.
pub proof fn lemma_root_of_large(n: int)
    requires
        n >= 90000,
    ensures
        root_up_to(n, 300) == 300,
{
    assert(300 * 300 == 90000) by (nonlinear_arith);
}

proof fn lemma_square_bounds(d: int)
    requires
        -20 < d < 20,
    ensures
        0 <= d * d < 400,
{
    assert(0 <= d * d < 400) by (nonlinear_arith)
        requires
            -20 < d < 20,
    ;
}

proof fn lemma_square_large(d: int)
    requires
        d <= -20 || d >= 20,
    ensures
        d * d >= 400,
{
    assert(d * d >= 400) by (nonlinear_arith)
        requires
            d <= -20 || d >= 20,
    ;
}

/// The milliseconds that a window takes from `start` to `end`.
pub fn window_animation_millis(start: Point, end: Point) -> (millis: u64)
    ensures
        millis == spec_window_animation_millis(start, end),
        millis <= MAX_WINDOW_ANIMATION_DURATION_MS,
{
    let dx: i64 = start.x as i64 - end.x as i64;
    let dy: i64 = start.y as i64 - end.y as i64;
    if dx <= -20 || dx >= 20 || dy <= -20 || dy >= 20 {
        proof {
            if dx <= -20 || dx >= 20 {
                lemma_square_large(dx as int);
                assert(dy * dy >= 0) by (nonlinear_arith);
            } else {
                lemma_square_large(dy as int);
                assert(dx * dx >= 0) by (nonlinear_arith);
            }
            lemma_root_of_large(225 * distance_squared(start, end));
        }
        return 300;
    }
    proof {
        lemma_square_bounds(dx as int);
        lemma_square_bounds(dy as int);
    }
    let n: i64 = 225 * (dx * dx + dy * dy);
    let mut r: i64 = 300;
    loop
        invariant
            0 <= r <= 300,
            root_up_to(n as int, 300) == root_up_to(n as int, r as int),
        ensures
            0 <= r <= 300,
            r == root_up_to(n as int, 300),
        decreases r,
    {
        if r == 0 {
            break ;
        }
        proof {
            assert(r * r <= 90000) by (nonlinear_arith)
                requires
                    0 <= r <= 300,
            ;
        }
        if r * r <= n {
            break ;
        }
        r = r - 1;
    }
    r as u64
}

impl AnimationDriver {
    /// How `self`, about to start, relates to the running `other`: two
    /// window animations conflict iff they move the same window; the new one
    /// is dropped if it leads to the same place and takes the other's place
    /// if not.
    pub open spec fn spec_is_conflict(self, other: AnimationDriver) -> AnimationConflict {
        match (self, other) {
            (
                AnimationDriver::WindowPosition { window, end, .. },
                AnimationDriver::WindowPosition { window: other_window, end: other_end, .. },
            ) => if window == other_window {
                if end == other_end {
                    AnimationConflict::Ignore
                } else {
                    AnimationConflict::Replace
                }
            } else {
                AnimationConflict::NoConflict
            },
            _ => AnimationConflict::NoConflict,
        }
    }

    /// The commands at the first frame past the delay.
    pub open spec fn started(self) -> Seq<Command> {
        match self {
            AnimationDriver::WindowPosition { window, end, .. } => seq![
                Command::MoveTo { window, top_left: end },
            ],
            AnimationDriver::Callback { .. } => Seq::empty(),
        }
    }

    /// The commands when the animation is given up.
    pub open spec fn aborted(self) -> Seq<Command> {
        match self {
            AnimationDriver::WindowPosition { window, .. } => seq![
                Command::SetTranslate { window, by: Displacement { dx: 0, dy: 0 } },
            ],
            AnimationDriver::Callback { .. } => Seq::empty(),
        }
    }

    /// The commands of a step, `elapsed` of `duration` microseconds into the
    /// animation, for `elapsed < duration`.
    pub open spec fn step(self, elapsed: u64, duration: u64) -> Seq<Command> {
        match self {
            AnimationDriver::WindowPosition { window, start, end } => seq![
                Command::SetTranslate {
                    window,
                    by: Displacement {
                        dx: remaining_offset(start.x - end.x, elapsed as int, duration as int),
                        dy: remaining_offset(start.y - end.y, elapsed as int, duration as int),
                    },
                },
            ],
            AnimationDriver::Callback { callback } => seq![
                Command::StepCallback { callback, elapsed, duration },
            ],
        }
    }

    /// The commands of the last step.
    pub open spec fn last_step(self, duration: u64) -> Seq<Command> {
        match self {
            AnimationDriver::WindowPosition { window, .. } => seq![
                Command::SetTranslate { window, by: Displacement { dx: 0, dy: 0 } },
            ],
            AnimationDriver::Callback { callback } => seq![
                Command::StepCallback { callback, elapsed: duration, duration },
            ],
        }
    }

    /// How this driver, about to start, relates to the running `other`.
    pub fn is_conflict(&self, other: &AnimationDriver) -> (conflict: AnimationConflict)
        ensures
            conflict == self.spec_is_conflict(*other),
    {
        match self {
            AnimationDriver::WindowPosition { window, end, .. } => match other {
                AnimationDriver::WindowPosition { window: other_window, end: other_end, .. } => {
                    if *window == *other_window {
                        if *end == *other_end {
                            AnimationConflict::Ignore
                        } else {
                            AnimationConflict::Replace
                        }
                    } else {
                        AnimationConflict::NoConflict
                    }
                },
                AnimationDriver::Callback { .. } => AnimationConflict::NoConflict,
            },
            AnimationDriver::Callback { .. } => AnimationConflict::NoConflict,
        }
    }
}

/// One coordinate of the offset of a running window animation.
fn offset_coordinate(gap: i64, elapsed: u64, duration: u64) -> (offset: i32)
    requires
        -0x1_0000_0000 <= gap <= 0x1_0000_0000,
        elapsed < duration,
    ensures
        offset == remaining_offset(gap as int, elapsed as int, duration as int),
{
    let left: i128 = duration as i128 - elapsed as i128;
    let d: i128 = duration as i128;
    proof {
        assert(-0x1_0000_0000 * 0x1_0000_0000_0000_0000 <= gap * left <= 0x1_0000_0000
            * 0x1_0000_0000_0000_0000) by (nonlinear_arith)
            requires
                -0x1_0000_0000 <= gap <= 0x1_0000_0000,
                0 < left <= 0x1_0000_0000_0000_0000,
        ;
    }
    let product: i128 = gap as i128 * left;
    let quotient: i128 = product / d;
    proof {
        let n = product as int;
        let m = if n >= 0 {
            n
        } else {
            -n
        };
        assert(0 <= m / (d as int) <= m) by (nonlinear_arith)
            requires
                m >= 0,
                d > 0,
        ;
    }
    if quotient < i32::MIN as i128 {
        i32::MIN
    } else if quotient > i32::MAX as i128 {
        i32::MAX
    } else {
        quotient as i32
    }
}

impl Animation {
    /// An animation that starts at its first frame.
    pub fn immediate(duration: u64, driver: AnimationDriver) -> (animation: Animation)
        ensures
            animation == (Animation { driver, delay: 0, duration, progress: None }),
    {
        Animation::delayed(duration, 0, driver)
    }

    /// An animation that starts `delay` microseconds after its first frame.
    pub fn delayed(duration: u64, delay: u64, driver: AnimationDriver) -> (animation: Animation)
        ensures
            animation == (Animation { driver, delay, duration, progress: None }),
    {
        Animation { driver, delay, duration, progress: None }
    }

    /// What the frame at `now` does to an animation that saw its first frame
    /// at `start_time` and was in `last_phase` after the frame before.
    pub open spec fn spec_frame(self, now: u64, start_time: u64, last_phase: AnimationPhase)
        -> FrameOutcome {
        if now < start_time {
            FrameOutcome { phase: AnimationPhase::Error, commands: self.driver.aborted() }
        } else if now - start_time <= self.delay {
            FrameOutcome { phase: AnimationPhase::Waiting, commands: Seq::empty() }
        } else {
            let begin = if last_phase == AnimationPhase::Waiting {
                self.driver.started()
            } else {
                Seq::empty()
            };
            let elapsed = (now - start_time - self.delay) as u64;
            if elapsed >= self.duration {
                FrameOutcome {
                    phase: AnimationPhase::Completed,
                    commands: begin + self.driver.last_step(self.duration),
                }
            } else {
                FrameOutcome {
                    phase: AnimationPhase::Running,
                    commands: begin + self.driver.step(elapsed, self.duration),
                }
            }
        }
    }

    /// Runs the frame at `now` and appends its commands to `commands`.
    pub fn frame(
        &self,
        now: u64,
        start_time: u64,
        last_phase: AnimationPhase,
        commands: &mut Vec<Command>,
    ) -> (phase: AnimationPhase)
        ensures
            phase == self.spec_frame(now, start_time, last_phase).phase,
            final(commands)@ == old(commands)@ + self.spec_frame(
                now,
                start_time,
                last_phase,
            ).commands,
    {
        let zero = Displacement { dx: 0, dy: 0 };
        if now < start_time {
            match self.driver {
                AnimationDriver::WindowPosition { window, .. } => {
                    commands.push(Command::SetTranslate { window, by: zero });
                },
                AnimationDriver::Callback { .. } => {},
            }
            assert(commands@ =~= old(commands)@ + self.driver.aborted());
            return AnimationPhase::Error;
        }
        let since_start: u64 = now - start_time;
        if since_start <= self.delay {
            assert(commands@ =~= old(commands)@ + Seq::<Command>::empty());
            return AnimationPhase::Waiting;
        }
        let ghost begin = if last_phase == AnimationPhase::Waiting {
            self.driver.started()
        } else {
            Seq::empty()
        };
        if last_phase == AnimationPhase::Waiting {
            match self.driver {
                AnimationDriver::WindowPosition { window, end, .. } => {
                    commands.push(Command::MoveTo { window, top_left: end });
                },
                AnimationDriver::Callback { .. } => {},
            }
        }
        assert(commands@ =~= old(commands)@ + begin);
        let elapsed: u64 = since_start - self.delay;
        if elapsed >= self.duration {
            match self.driver {
                AnimationDriver::WindowPosition { window, .. } => {
                    commands.push(Command::SetTranslate { window, by: zero });
                },
                AnimationDriver::Callback { callback } => {
                    commands.push(
                        Command::StepCallback {
                            callback,
                            elapsed: self.duration,
                            duration: self.duration,
                        },
                    );
                },
            }
            assert(commands@ =~= old(commands)@ + (begin + self.driver.last_step(self.duration)));
            return AnimationPhase::Completed;
        }
        match self.driver {
            AnimationDriver::WindowPosition { window, start, end } => {
                let dx = offset_coordinate(start.x as i64 - end.x as i64, elapsed, self.duration);
                let dy = offset_coordinate(start.y as i64 - end.y as i64, elapsed, self.duration);
                commands.push(Command::SetTranslate { window, by: Displacement { dx, dy } });
            },
            AnimationDriver::Callback { callback } => {
                commands.push(
                    Command::StepCallback { callback, elapsed, duration: self.duration },
                );
            },
        }
        assert(commands@ =~= old(commands)@ + (begin + self.driver.step(elapsed, self.duration)));
        AnimationPhase::Running
    }
}

/// What a scan over the running animations has gathered.
pub struct Scan {
    /// The animations that go on.
    pub kept: Seq<Animation>,
    /// The commands of the drivers.
    pub commands: Seq<Command>,
    /// A running animation makes the new one superfluous.
    pub ignore: bool,
}

/// The first `k` running animations as a new animation with the driver
/// `candidate` meets them: those it replaces are given up, with the commands
/// that this takes, the others go on.
pub open spec fn start_scan(animations: Seq<Animation>, candidate: AnimationDriver, k: int) -> Scan
    decreases k,
{
    if k <= 0 {
        Scan { kept: Seq::empty(), commands: Seq::empty(), ignore: false }
    } else {
        let before = start_scan(animations, candidate, k - 1);
        let running = animations[k - 1];
        match candidate.spec_is_conflict(running.driver) {
            AnimationConflict::NoConflict => Scan { kept: before.kept.push(running), ..before },
            AnimationConflict::Replace => Scan {
                commands: before.commands + running.driver.aborted(),
                ..before
            },
            AnimationConflict::Ignore => Scan {
                kept: before.kept.push(running),
                ignore: true,
                ..before
            },
        }
    }
}

/// The running animations after `animation` was started.
pub open spec fn after_start(animations: Seq<Animation>, animation: Animation) -> Seq<Animation> {
    let scan = start_scan(animations, animation.driver, animations.len() as int);
    if scan.ignore {
        scan.kept
    } else {
        scan.kept.push(animation)
    }
}

/// The commands that starting `animation` takes.
pub open spec fn start_commands(animations: Seq<Animation>, animation: Animation) -> Seq<Command> {
    start_scan(animations, animation.driver, animations.len() as int).commands
}

/// The first `k` running animations after the frame at `now`: each one runs
/// its frame; those that completed or failed are retired.
pub open spec fn frame_scan(animations: Seq<Animation>, now: u64, k: int) -> Scan
    decreases k,
{
    if k <= 0 {
        Scan { kept: Seq::empty(), commands: Seq::empty(), ignore: false }
    } else {
        let before = frame_scan(animations, now, k - 1);
        let running = animations[k - 1];
        let progress = match running.progress {
            Some(progress) => progress,
            None => Progress { start_time: now, phase: AnimationPhase::Waiting },
        };
        let outcome = running.spec_frame(now, progress.start_time, progress.phase);
        let commands = before.commands + outcome.commands;
        match outcome.phase {
            AnimationPhase::Completed | AnimationPhase::Error => Scan { commands, ..before },
            _ => Scan {
                kept: before.kept.push(
                    Animation {
                        progress: Some(
                            Progress { start_time: progress.start_time, phase: outcome.phase },
                        ),
                        ..running
                    },
                ),
                commands,
                ..before
            },
        }
    }
}

/// The running animations after the frame at `now`.
pub open spec fn after_frame(animations: Seq<Animation>, now: u64) -> Seq<Animation> {
    frame_scan(animations, now, animations.len() as int).kept
}

/// The commands of the frame at `now`.
pub open spec fn frame_commands(animations: Seq<Animation>, now: u64) -> Seq<Command> {
    frame_scan(animations, now, animations.len() as int).commands
}

/// The target of the first `k` running animations that move `window`.
pub open spec fn target_scan(animations: Seq<Animation>, window: Id, k: int) -> AnimationStatus
    decreases k,
{
    if k <= 0 {
        AnimationStatus::Still
    } else {
        match target_scan(animations, window, k - 1) {
            AnimationStatus::IsAnimating(to) => AnimationStatus::IsAnimating(to),
            AnimationStatus::Still => match animations[k - 1].driver {
                AnimationDriver::WindowPosition { window: moved, end, .. } => if moved == window {
                    AnimationStatus::IsAnimating(end)
                } else {
                    AnimationStatus::Still
                },
                AnimationDriver::Callback { .. } => AnimationStatus::Still,
            },
        }
    }
}

/// The set of animations in progress.
#[derive(Debug)]
pub struct AnimaitonState {
    pub running_animations: Vec<Animation>,
}

impl View for AnimaitonState {
    type V = Seq<Animation>;

    open spec fn view(&self) -> Seq<Animation> {
        self.running_animations@
    }
}

impl AnimaitonState {
    /// No animation.
    pub fn new() -> (state: AnimaitonState)
        ensures
            state@ == Seq::<Animation>::empty(),
    {
        AnimaitonState { running_animations: Vec::new() }
    }

    /// Whether `window` is on its way, and where to.
    pub fn status(&self, window: Id) -> (status: AnimationStatus)
        ensures
            status == target_scan(self@, window, self@.len() as int),
    {
        let n: usize = self.running_animations.len();
        let mut i: usize = 0;
        while i < n
            invariant
                n == self@.len(),
                i <= n,
                target_scan(self@, window, i as int) == AnimationStatus::Still,
            decreases n - i,
        {
            match self.running_animations[i].driver {
                AnimationDriver::WindowPosition { window: moved, end, .. } => {
                    if moved == window {
                        proof {
                            lemma_target_found(self@, window, i as int + 1, n as int);
                        }
                        return AnimationStatus::IsAnimating(end);
                    }
                },
                AnimationDriver::Callback { .. } => {},
            }
            i = i + 1;
        }
        AnimationStatus::Still
    }

    /// Starts `animation`, unless a running animation makes it superfluous,
    /// after giving up the running animations that it replaces. The commands
    /// that this takes are appended to `commands`.
    pub fn start_animation(&mut self, animation: Animation, commands: &mut Vec<Command>)
        ensures
            final(self)@ == after_start(old(self)@, animation),
            final(commands)@ == old(commands)@ + start_commands(old(self)@, animation),
    {
        let mut kept: Vec<Animation> = Vec::new();
        let mut ignore = false;
        let n: usize = self.running_animations.len();
        let mut i: usize = 0;
        while i < n
            invariant
                n == self@.len(),
                *self == *old(self),
                i <= n,
                kept@ == start_scan(self@, animation.driver, i as int).kept,
                ignore == start_scan(self@, animation.driver, i as int).ignore,
                commands@ == old(commands)@ + start_scan(self@, animation.driver, i as int).commands,
            decreases n - i,
        {
            let running = self.running_animations[i];
            let ghost before = start_scan(self@, animation.driver, i as int);
            match animation.driver.is_conflict(&running.driver) {
                AnimationConflict::NoConflict => {
                    kept.push(running);
                },
                AnimationConflict::Replace => {
                    match running.driver {
                        AnimationDriver::WindowPosition { window, .. } => {
                            commands.push(
                                Command::SetTranslate {
                                    window,
                                    by: Displacement { dx: 0, dy: 0 },
                                },
                            );
                        },
                        AnimationDriver::Callback { .. } => {},
                    }
                    assert(commands@ =~= old(commands)@ + (before.commands
                        + running.driver.aborted()));
                },
                AnimationConflict::Ignore => {
                    kept.push(running);
                    ignore = true;
                },
            }
            i = i + 1;
        }
        if !ignore {
            kept.push(animation);
        }
        self.running_animations = kept;
    }

    /// Runs the frame at `now` for every animation and retires those that
    /// completed or failed. The commands of the drivers are appended to
    /// `commands`.
    pub fn step(&mut self, now: u64, commands: &mut Vec<Command>)
        ensures
            final(self)@ == after_frame(old(self)@, now),
            final(commands)@ == old(commands)@ + frame_commands(old(self)@, now),
    {
        let mut kept: Vec<Animation> = Vec::new();
        let n: usize = self.running_animations.len();
        let mut i: usize = 0;
        assert(commands@ =~= old(commands)@ + frame_scan(self@, now, 0).commands);
        while i < n
            invariant
                n == self@.len(),
                *self == *old(self),
                i <= n,
                kept@ == frame_scan(self@, now, i as int).kept,
                commands@ == old(commands)@ + frame_scan(self@, now, i as int).commands,
            decreases n - i,
        {
            let running = self.running_animations[i];
            let ghost before = frame_scan(self@, now, i as int);
            let progress = match running.progress {
                Some(progress) => progress,
                None => Progress { start_time: now, phase: AnimationPhase::Waiting },
            };
            let phase = running.frame(now, progress.start_time, progress.phase, commands);
            assert(commands@ =~= old(commands)@ + (before.commands + running.spec_frame(
                now,
                progress.start_time,
                progress.phase,
            ).commands));
            match phase {
                AnimationPhase::Completed => {},
                AnimationPhase::Error => {},
                _ => {
                    kept.push(
                        Animation {
                            driver: running.driver,
                            delay: running.delay,
                            duration: running.duration,
                            progress: Some(Progress { start_time: progress.start_time, phase }),
                        },
                    );
                },
            }
            i = i + 1;
        }
        self.running_animations = kept;
    }
}

/// Once an animation of a window is found, later ones do not matter.
pub proof fn lemma_target_found(animations: Seq<Animation>, window: Id, k: int, n: int)
    requires
        0 < k <= n,
        target_scan(animations, window, k) != AnimationStatus::Still,
    ensures
        target_scan(animations, window, n) == target_scan(animations, window, k),
    decreases n - k,
{
    if k < n {
        lemma_target_found(animations, window, k, n - 1);
    }
}

} // verus!
