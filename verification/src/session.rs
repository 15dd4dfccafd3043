//! The scripted pointer session that runs before capturing: aim and click
//! twice, then repeat a drag-and-click round until it has run its rounds or
//! the hotkey cancels it.

use vstd::prelude::*;

verus! {

/// Width of the screen the virtual pointer spans, in pixels.
pub const SCREEN_W: i32 = 2560;

/// Height of the screen the virtual pointer spans, in pixels.
pub const SCREEN_H: i32 = 1440;

/// Most drag-and-click rounds a session runs.
pub const MAX_ROUNDS: u32 = 100;

/// Milliseconds to wait after each of the opening clicks.
pub const CLICK_PAUSE_MS: u64 = 180;

/// A point on the screen.
#[derive(Clone, Copy, Debug, PartialEq, Eq, Structural)]
pub struct Point {
    pub x: i32,
    pub y: i32,
}

/// Where the opening clicks land.
pub open spec fn aim_point() -> Point {
    Point { x: 1700, y: 900 }
}

/// Where each round's drag starts.
pub open spec fn drag_start() -> Point {
    Point { x: 1900, y: 550 }
}

/// Where each round's drag ends.
pub open spec fn drag_end() -> Point {
    Point { x: 1900, y: 450 }
}

/// Where each round clicks after its drag.
pub open spec fn round_click_point() -> Point {
    Point { x: 1700, y: 1000 }
}

/// What the session asks to be done next.
#[derive(Clone, Copy, Debug, PartialEq, Eq, Structural)]
pub enum Command {
    /// Move the pointer; a failure ends the program with that error.
    MoveTo(Point),
    /// Left click; a failure is ignored.
    Click,
    /// Wait this many milliseconds.
    Pause(u64),
    /// Drag from `drag_from` to `drag_to`, move to `then_click` and click
    /// there; raced against the hotkey, which abandons the round. A failed
    /// drag or move ends the program with that error; a failed click is
    /// ignored.
    Round { drag_from: Point, drag_to: Point, then_click: Point },
    /// The clicking is over (`cancelled`: the hotkey ended it); go on to
    /// capture.
    Capture { cancelled: bool },
}

/// What the hotkey says before a step.
#[derive(Clone, Copy, Debug, PartialEq, Eq, Structural)]
pub enum Signal {
    /// Not pressed.
    Idle,
    /// Pressed.
    Pressed,
    /// Pressed while the last round ran, which abandoned that round.
    RoundAbandoned,
}

/// Where the session stands.
#[derive(Clone, Copy, Debug, PartialEq, Eq, Structural)]
pub enum Stage {
    Aim,
    FirstClick,
    FirstPause,
    SecondClick,
    SecondPause,
    /// In the rounds, with this many already run.
    Rounds(u32),
    /// Over; `true` when the hotkey ended it.
    Done(bool),
}

/// One step of the session: from `stage`, given what the hotkey says, the
/// next stage and the command to carry out. The hotkey is consulted before
/// the second opening click and before each round; a round it abandoned
/// ends the session as cancelled, also after the last round.
pub open spec fn step(stage: Stage, signal: Signal) -> (Stage, Command) {
    match stage {
        Stage::Aim => (Stage::FirstClick, Command::MoveTo(aim_point())),
        Stage::FirstClick => (Stage::FirstPause, Command::Click),
        Stage::FirstPause => (Stage::SecondClick, Command::Pause(CLICK_PAUSE_MS)),
        Stage::SecondClick => if signal != Signal::Idle {
            (Stage::Done(true), Command::Capture { cancelled: true })
        } else {
            (Stage::SecondPause, Command::Click)
        },
        Stage::SecondPause => (Stage::Rounds(0), Command::Pause(CLICK_PAUSE_MS)),
        Stage::Rounds(n) => if signal == Signal::RoundAbandoned {
            (Stage::Done(true), Command::Capture { cancelled: true })
        } else if n >= MAX_ROUNDS {
            (Stage::Done(false), Command::Capture { cancelled: false })
        } else if signal == Signal::Pressed {
            (Stage::Done(true), Command::Capture { cancelled: true })
        } else {
            (
                Stage::Rounds((n + 1) as u32),
                Command::Round { drag_from: drag_start(), drag_to: drag_end(), then_click: round_click_point() },
            )
        },
        Stage::Done(c) => (Stage::Done(c), Command::Capture { cancelled: c }),
    }
}

/// The commands issued from `stage` when the hotkey says `inputs`, one
/// signal per step.
pub open spec fn run(stage: Stage, inputs: Seq<Signal>) -> Seq<Command>
    decreases inputs.len(),
{
    if inputs.len() == 0 {
        Seq::empty()
    } else {
        let (next, cmd) = step(stage, inputs[0]);
        seq![cmd] + run(next, inputs.drop_first())
    }
}

/// Number of rounds among `cmds`.
pub open spec fn count_rounds(cmds: Seq<Command>) -> nat
    decreases cmds.len(),
{
    if cmds.len() == 0 {
        0
    } else {
        (if cmds[0] is Round { 1nat } else { 0nat }) + count_rounds(cmds.drop_first())
    }
}

/// The point lies on the screen.
pub open spec fn on_screen(p: Point) -> bool {
    0 <= p.x < SCREEN_W && 0 <= p.y < SCREEN_H
}

/// Every point the command touches lies on the screen.
pub open spec fn command_on_screen(cmd: Command) -> bool {
    match cmd {
        Command::MoveTo(p) => on_screen(p),
        Command::Round { drag_from, drag_to, then_click } => {
            on_screen(drag_from) && on_screen(drag_to) && on_screen(then_click)
        },
        _ => true,
    }
}

/// The scripted pointer session.
#[derive(Clone, Copy, Debug)]
pub struct Session {
    pub stage: Stage,
}

impl Session {
    /// A session that has not started.
    pub fn new() -> (r: Session)
        ensures
            r.stage == Stage::Aim,
    {
        Session { stage: Stage::Aim }
    }

    /// Advance the session by one step (see [`step`]), given what the
    /// hotkey says.
    pub fn next(&mut self, signal: Signal) -> (cmd: Command)
        ensures
            (final(self).stage, cmd) == step(old(self).stage, signal),
    {
        let (stage, cmd) = match self.stage {
            Stage::Aim => (Stage::FirstClick, Command::MoveTo(Point { x: 1700, y: 900 })),
            Stage::FirstClick => (Stage::FirstPause, Command::Click),
            Stage::FirstPause => (Stage::SecondClick, Command::Pause(CLICK_PAUSE_MS)),
            Stage::SecondClick => {
                match signal {
                    Signal::Idle => (Stage::SecondPause, Command::Click),
                    _ => (Stage::Done(true), Command::Capture { cancelled: true }),
                }
            },
            Stage::SecondPause => (Stage::Rounds(0), Command::Pause(CLICK_PAUSE_MS)),
            Stage::Rounds(n) => {
                match signal {
                    Signal::RoundAbandoned => (Stage::Done(true), Command::Capture { cancelled: true }),
                    Signal::Pressed => {
                        if n >= MAX_ROUNDS {
                            (Stage::Done(false), Command::Capture { cancelled: false })
                        } else {
                            (Stage::Done(true), Command::Capture { cancelled: true })
                        }
                    },
                    Signal::Idle => {
                        if n >= MAX_ROUNDS {
                            (Stage::Done(false), Command::Capture { cancelled: false })
                        } else {
                            (
                                Stage::Rounds(n + 1),
                                Command::Round {
                                    drag_from: Point { x: 1900, y: 550 },
                                    drag_to: Point { x: 1900, y: 450 },
                                    then_click: Point { x: 1700, y: 1000 },
                                },
                            )
                        }
                    },
                }
            },
            Stage::Done(c) => (Stage::Done(c), Command::Capture { cancelled: c }),
        };
        self.stage = stage;
        cmd
    }
}

/// Rounds still available from `stage`.
pub open spec fn rounds_left(stage: Stage) -> nat {
    match stage {
        Stage::Rounds(n) => if n >= MAX_ROUNDS { 0 } else { (MAX_ROUNDS - n) as nat },
        Stage::Done(_) => 0,
        _ => MAX_ROUNDS as nat,
    }
}

proof fn lemma_run_len(stage: Stage, inputs: Seq<Signal>)
    ensures
        run(stage, inputs).len() == inputs.len(),
    decreases inputs.len(),
{
    if inputs.len() > 0 {
        lemma_run_len(step(stage, inputs[0]).0, inputs.drop_first());
    }
}

proof fn lemma_rounds_at_most_left(stage: Stage, inputs: Seq<Signal>)
    ensures
        count_rounds(run(stage, inputs)) <= rounds_left(stage),
    decreases inputs.len(),
{
    if inputs.len() > 0 {
        let (next, cmd) = step(stage, inputs[0]);
        lemma_rounds_at_most_left(next, inputs.drop_first());
        let r = run(stage, inputs);
        assert(r[0] == cmd);
        assert(r.drop_first() =~= run(next, inputs.drop_first()));
    }
}

/// A session runs at most `MAX_ROUNDS` drag-and-click rounds, whatever the
/// hotkey says.
pub proof fn lemma_session_rounds_bounded(inputs: Seq<Signal>)
    ensures
        count_rounds(run(Stage::Aim, inputs)) <= MAX_ROUNDS,
{
    lemma_rounds_at_most_left(Stage::Aim, inputs);
}

/// The hotkey is never pressed.
pub open spec fn all_idle(inputs: Seq<Signal>) -> bool {
    forall|k: int| 0 <= k < inputs.len() ==> #[trigger] inputs[k] == Signal::Idle
}

proof fn lemma_idle_rounds_all_run(n: u32, inputs: Seq<Signal>)
    requires
        n <= MAX_ROUNDS,
        all_idle(inputs),
        inputs.len() >= MAX_ROUNDS - n,
    ensures
        count_rounds(run(Stage::Rounds(n), inputs)) == MAX_ROUNDS - n,
    decreases inputs.len(),
{
    if inputs.len() > 0 {
        let (next, cmd) = step(Stage::Rounds(n), inputs[0]);
        let rest = inputs.drop_first();
        let r = run(Stage::Rounds(n), inputs);
        assert(r[0] == cmd);
        assert(r.drop_first() =~= run(next, rest));
        assert(inputs[0] == Signal::Idle);
        if n < MAX_ROUNDS {
            assert forall|k: int| 0 <= k < rest.len() implies #[trigger] rest[k] == Signal::Idle by {
                assert(rest[k] == inputs[k + 1]);
            }
            lemma_idle_rounds_all_run((n + 1) as u32, rest);
        } else {
            lemma_rounds_at_most_left(next, rest);
        }
    }
}

/// A session whose hotkey is never pressed aims, clicks twice with a pause
/// after each click, and then runs every one of its `MAX_ROUNDS` rounds.
pub proof fn lemma_idle_session_runs_all_rounds(inputs: Seq<Signal>)
    requires
        all_idle(inputs),
        inputs.len() >= MAX_ROUNDS + 5,
    ensures
        run(Stage::Aim, inputs).subrange(0, 5) == seq![
            Command::MoveTo(Point { x: 1700, y: 900 }),
            Command::Click,
            Command::Pause(180),
            Command::Click,
            Command::Pause(180),
        ],
        count_rounds(run(Stage::Aim, inputs)) == MAX_ROUNDS,
{
    let i1 = inputs.drop_first();
    let i2 = i1.drop_first();
    let i3 = i2.drop_first();
    let i4 = i3.drop_first();
    let i5 = i4.drop_first();
    assert(inputs[3] == Signal::Idle);
    assert(i3[0] == inputs[3]);
    assert forall|k: int| 0 <= k < i5.len() implies #[trigger] i5[k] == Signal::Idle by {
        assert(i5[k] == inputs[k + 5]);
    }
    lemma_idle_rounds_all_run(0, i5);
    let r5 = run(Stage::Rounds(0), i5);
    let r4 = run(Stage::SecondPause, i4);
    let r3 = run(Stage::SecondClick, i3);
    let r2 = run(Stage::FirstPause, i2);
    let r1 = run(Stage::FirstClick, i1);
    let r0 = run(Stage::Aim, inputs);
    assert(r4 == seq![Command::Pause(CLICK_PAUSE_MS)] + r5);
    assert(r3 == seq![Command::Click] + r4);
    assert(r2 == seq![Command::Pause(CLICK_PAUSE_MS)] + r3);
    assert(r1 == seq![Command::Click] + r2);
    assert(r0 == seq![Command::MoveTo(aim_point())] + r1);
    assert(r4.drop_first() =~= r5);
    assert(r3.drop_first() =~= r4);
    assert(r2.drop_first() =~= r3);
    assert(r1.drop_first() =~= r2);
    assert(r0.drop_first() =~= r1);
    assert(count_rounds(r4) == count_rounds(r5));
    assert(count_rounds(r3) == count_rounds(r4));
    assert(count_rounds(r2) == count_rounds(r3));
    assert(count_rounds(r1) == count_rounds(r2));
    assert(count_rounds(r0) == count_rounds(r1));
    assert(r0.subrange(0, 5) =~= seq![
        Command::MoveTo(aim_point()),
        Command::Click,
        Command::Pause(CLICK_PAUSE_MS),
        Command::Click,
        Command::Pause(CLICK_PAUSE_MS),
    ]);
}

/// A pressed hotkey before one of the rounds ends the clicking as
/// cancelled: no round is run.
pub proof fn lemma_pressed_before_round_cancels(n: u32)
    requires
        n < MAX_ROUNDS,
    ensures
        step(Stage::Rounds(n), Signal::Pressed) == (Stage::Done(true), Command::Capture { cancelled: true }),
{
}

/// A round abandoned to the hotkey ends the clicking as cancelled, whichever
/// round it was, the last one too.
pub proof fn lemma_abandoned_round_cancels(n: u32)
    ensures
        step(Stage::Rounds(n), Signal::RoundAbandoned) == (Stage::Done(true), Command::Capture { cancelled: true }),
{
}

/// A pressed hotkey before the second opening click skips it and ends the
/// clicking as cancelled.
pub proof fn lemma_pressed_skips_second_click(signal: Signal)
    requires
        signal != Signal::Idle,
    ensures
        step(Stage::SecondClick, signal) == (Stage::Done(true), Command::Capture { cancelled: true }),
{
}

/// After all rounds have run, the session ends uncancelled when the
/// hotkey did not abandon the last round.
pub proof fn lemma_all_rounds_done_uncancelled(n: u32, signal: Signal)
    requires
        n >= MAX_ROUNDS,
        signal != Signal::RoundAbandoned,
    ensures
        step(Stage::Rounds(n), signal) == (Stage::Done(false), Command::Capture { cancelled: false }),
{
}

/// The `j`-th command of a run is the step taken from the stage the run has
/// reached by then.
proof fn lemma_run_step(stage: Stage, inputs: Seq<Signal>, j: int)
    requires
        0 <= j < inputs.len(),
    ensures
        run(stage, inputs)[j] == step(reached(stage, inputs, j), inputs[j]).1,
    decreases j,
{
    lemma_run_len(step(stage, inputs[0]).0, inputs.drop_first());
    if j > 0 {
        lemma_run_step(step(stage, inputs[0]).0, inputs.drop_first(), j - 1);
    }
}

/// The stage a session starting at `stage` reaches after the first `j`
/// signals of `inputs`.
pub open spec fn reached(stage: Stage, inputs: Seq<Signal>, j: int) -> Stage
    decreases j,
{
    if j <= 0 || inputs.len() == 0 {
        stage
    } else {
        reached(step(stage, inputs[0]).0, inputs.drop_first(), j - 1)
    }
}

/// A round is only ever issued while the hotkey says it is not pressed.
pub proof fn lemma_round_only_when_idle(stage: Stage, inputs: Seq<Signal>, j: int)
    requires
        0 <= j < inputs.len(),
        run(stage, inputs)[j] is Round,
    ensures
        inputs[j] == Signal::Idle,
{
    lemma_run_step(stage, inputs, j);
}

/// Once the hotkey stays pressed, no further round is ever issued.
pub proof fn lemma_pressed_hotkey_stops_rounds(stage: Stage, inputs: Seq<Signal>, i: int, j: int)
    requires
        0 <= i <= j < inputs.len(),
        forall|k: int| i <= k < inputs.len() ==> #[trigger] inputs[k] != Signal::Idle,
    ensures
        !(run(stage, inputs)[j] is Round),
{
    if run(stage, inputs)[j] is Round {
        lemma_round_only_when_idle(stage, inputs, j);
        assert(inputs[j] != Signal::Idle);
    }
}

proof fn lemma_done_stays_captured(c: bool, inputs: Seq<Signal>, k: int)
    requires
        0 <= k < inputs.len(),
    ensures
        run(Stage::Done(c), inputs)[k] == (Command::Capture { cancelled: c }),
    decreases inputs.len(),
{
    lemma_run_len(Stage::Done(c), inputs.drop_first());
    if k > 0 {
        lemma_done_stays_captured(c, inputs.drop_first(), k - 1);
    }
}

/// Once the session has said to capture, it never issues a pointer
/// command again: every later command is the same capture.
pub proof fn lemma_capture_is_final(stage: Stage, inputs: Seq<Signal>, i: int, j: int)
    requires
        0 <= i < j < inputs.len(),
        run(stage, inputs)[i] is Capture,
    ensures
        run(stage, inputs)[j] == run(stage, inputs)[i],
    decreases i,
{
    let (next, cmd) = step(stage, inputs[0]);
    let rest = inputs.drop_first();
    lemma_run_len(next, rest);
    if i == 0 {
        assert(next is Done);
        let c = next->Done_0;
        assert(cmd == (Command::Capture { cancelled: c }));
        lemma_done_stays_captured(c, rest, j - 1);
        assert(run(stage, inputs)[j] == run(next, rest)[j - 1]);
    } else {
        assert(run(stage, inputs)[i] == run(next, rest)[i - 1]);
        assert(run(stage, inputs)[j] == run(next, rest)[j - 1]);
        lemma_capture_is_final(next, rest, i - 1, j - 1);
    }
}

/// Every round drags from (1900, 550) to (1900, 450) and then clicks at
/// (1700, 1000).
pub proof fn lemma_round_is_the_scripted_drag(stage: Stage, signal: Signal)
    requires
        step(stage, signal).1 is Round,
    ensures
        step(stage, signal).1 == (Command::Round {
            drag_from: Point { x: 1900, y: 550 },
            drag_to: Point { x: 1900, y: 450 },
            then_click: Point { x: 1700, y: 1000 },
        }),
{
}

/// Every point the session moves, drags or clicks at lies on the screen.
pub proof fn lemma_commands_on_screen(stage: Stage, signal: Signal)
    ensures
        command_on_screen(step(stage, signal).1),
{
}

} // verus!
