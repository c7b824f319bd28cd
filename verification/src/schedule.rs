//! The engine's main loop, as decisions on plain values.
//!
//! The loop loads textures if there is an asset server, runs the startup
//! systems once, then frame after frame: asks the window whether to close,
//! runs the update systems, and draws (inside the camera's 2D mode when a
//! camera resource exists). Each system list is taken out of the engine for
//! the time it runs and put back afterwards.
//!
//! `start` and `step` decide what the loop does next; the application
//! performs each action on the window and the engine and reports the outcome
//! as a `RunEvent`.

use vstd::prelude::*;

verus! {

/// What the loop asks the application to do next.
#[derive(Debug, Clone, Copy, PartialEq, Eq)]
pub enum RunAction {
    /// Load the asset server's textures.
    LoadTextures,
    /// Take the startup systems out of the engine; report how many.
    TakeStartups,
    /// Run the startup system at this position of the taken list.
    RunStartup(usize),
    /// Put the taken startup systems back.
    RestoreStartups,
    /// Ask the window whether it should close.
    PollWindow,
    /// Read the frame time and take the update systems; report how many.
    TakeUpdates,
    /// Run the update system at this position of the taken list.
    RunUpdate(usize),
    /// Put the taken update systems back.
    RestoreUpdates,
    /// Begin drawing the frame.
    BeginDrawing,
    /// Take the draw systems; report how many.
    TakeDraws,
    /// Look for a camera resource; report whether there is one.
    CheckCamera,
    /// Enter the camera's 2D mode.
    BeginCamera,
    /// Run the draw system at this position of the taken list.
    RunDraw(usize),
    /// Leave the camera's 2D mode.
    EndCamera,
    /// Put the taken draw systems back.
    RestoreDraws,
    /// Finish drawing the frame.
    EndDrawing,
    /// Leave the loop.
    Stop,
}

/// What the application reports after performing an action.
#[derive(Debug, Clone, Copy, PartialEq, Eq)]
pub enum RunEvent {
    /// The action is done.
    Done,
    /// A system list was taken; it holds this many systems.
    Taken(usize),
    /// The window was asked; whether it should close.
    WindowPolled(bool),
    /// The resources were searched; whether a camera exists.
    CameraChecked(bool),
}

/// Where the loop stands: the action it is waiting on, the length of the
/// system list it holds, and whether this frame draws through the camera.
#[derive(Debug, Clone, Copy, PartialEq, Eq)]
pub struct RunState {
    pub pending: RunAction,
    pub count: usize,
    pub camera: bool,
}

/// Whether `event` is the kind of report that `pending` calls for.
pub open spec fn spec_expects(pending: RunAction, event: RunEvent) -> bool {
    match pending {
        RunAction::TakeStartups | RunAction::TakeUpdates | RunAction::TakeDraws => event is Taken,
        RunAction::PollWindow => event is WindowPolled,
        RunAction::CheckCamera => event is CameraChecked,
        _ => event is Done,
    }
}

/// The loop's first action: load textures when there is an asset server,
/// else take the startup systems.
pub open spec fn spec_start(has_asset_server: bool) -> RunState {
    RunState {
        pending: if has_asset_server {
            RunAction::LoadTextures
        } else {
            RunAction::TakeStartups
        },
        count: 0,
        camera: false,
    }
}

/// The first action on a list of `count` systems: run the first one, or put
/// the list back (`after`) when it is empty.
pub open spec fn first_or(count: usize, run: RunAction, after: RunAction) -> RunAction {
    if count > 0 {
        run
    } else {
        after
    }
}

/// What the loop does after `state.pending` reported `event`.
pub open spec fn spec_step(state: RunState, event: RunEvent) -> RunState {
    let count = state.count;
    let camera = state.camera;
    match (state.pending, event) {
        (RunAction::LoadTextures, _) => RunState { pending: RunAction::TakeStartups, count, camera },
        (RunAction::TakeStartups, RunEvent::Taken(n)) => RunState {
            pending: first_or(n, RunAction::RunStartup(0), RunAction::RestoreStartups),
            count: n,
            camera,
        },
        (RunAction::RunStartup(i), _) => RunState {
            pending: if i + 1 < count {
                RunAction::RunStartup((i + 1) as usize)
            } else {
                RunAction::RestoreStartups
            },
            count,
            camera,
        },
        (RunAction::RestoreStartups, _) => RunState { pending: RunAction::PollWindow, count, camera },
        (RunAction::PollWindow, RunEvent::WindowPolled(close)) => RunState {
            pending: if close {
                RunAction::Stop
            } else {
                RunAction::TakeUpdates
            },
            count,
            camera,
        },
        (RunAction::TakeUpdates, RunEvent::Taken(n)) => RunState {
            pending: first_or(n, RunAction::RunUpdate(0), RunAction::RestoreUpdates),
            count: n,
            camera,
        },
        (RunAction::RunUpdate(i), _) => RunState {
            pending: if i + 1 < count {
                RunAction::RunUpdate((i + 1) as usize)
            } else {
                RunAction::RestoreUpdates
            },
            count,
            camera,
        },
        (RunAction::RestoreUpdates, _) => RunState { pending: RunAction::BeginDrawing, count, camera },
        (RunAction::BeginDrawing, _) => RunState { pending: RunAction::TakeDraws, count, camera },
        (RunAction::TakeDraws, RunEvent::Taken(n)) => RunState {
            pending: RunAction::CheckCamera,
            count: n,
            camera: false,
        },
        (RunAction::CheckCamera, RunEvent::CameraChecked(c)) => RunState {
            pending: if c {
                RunAction::BeginCamera
            } else {
                first_or(count, RunAction::RunDraw(0), RunAction::RestoreDraws)
            },
            count,
            camera: c,
        },
        (RunAction::BeginCamera, _) => RunState {
            pending: first_or(count, RunAction::RunDraw(0), RunAction::EndCamera),
            count,
            camera,
        },
        (RunAction::RunDraw(i), _) => RunState {
            pending: if i + 1 < count {
                RunAction::RunDraw((i + 1) as usize)
            } else if camera {
                RunAction::EndCamera
            } else {
                RunAction::RestoreDraws
            },
            count,
            camera,
        },
        (RunAction::EndCamera, _) => RunState { pending: RunAction::RestoreDraws, count, camera },
        (RunAction::RestoreDraws, _) => RunState { pending: RunAction::EndDrawing, count, camera },
        (RunAction::EndDrawing, _) => RunState { pending: RunAction::PollWindow, count, camera },
        _ => state,
    }
}

/// The loop's invariant: a system that it asks to run lies inside the list
/// that was taken.
pub open spec fn run_state_wf(state: RunState) -> bool {
    match state.pending {
        RunAction::RunStartup(i) | RunAction::RunUpdate(i) | RunAction::RunDraw(i) => i
            < state.count,
        _ => true,
    }
}


/// The actions that the loop asks for on `events`, one after each event.
pub open spec fn run_actions(state: RunState, events: Seq<RunEvent>) -> Seq<RunAction>
    decreases events.len(),
{
    if events.len() == 0 {
        Seq::empty()
    } else {
        let next = spec_step(state, events[0]);
        seq![next.pending] + run_actions(next, events.drop_first())
    }
}

/// The state that the loop reaches on `events`.
pub open spec fn run_final(state: RunState, events: Seq<RunEvent>) -> RunState
    decreases events.len(),
{
    if events.len() == 0 {
        state
    } else {
        run_final(spec_step(state, events[0]), events.drop_first())
    }
}

/// `n` reports of a finished action.
pub open spec fn dones(n: nat) -> Seq<RunEvent> {
    Seq::new(n, |k: int| RunEvent::Done)
}

/// The update systems `from..to`, run in order.
pub open spec fn updates_run(from: int, to: int) -> Seq<RunAction> {
    Seq::new((to - from) as nat, |k: int| RunAction::RunUpdate((from + k) as usize))
}

/// The draw systems `from..to`, run in order.
pub open spec fn draws_run(from: int, to: int) -> Seq<RunAction> {
    Seq::new((to - from) as nat, |k: int| RunAction::RunDraw((from + k) as usize))
}

/// The startup systems `from..to`, run in order.
pub open spec fn startups_run(from: int, to: int) -> Seq<RunAction> {
    Seq::new((to - from) as nat, |k: int| RunAction::RunStartup((from + k) as usize))
}

/// `s` when `b` holds, else nothing.
pub open spec fn when<A>(b: bool, s: Seq<A>) -> Seq<A> {
    if b {
        s
    } else {
        Seq::empty()
    }
}

/// What the loop asks for at position `i` of a taken list of `count`
/// startup systems: run system `i`, or put the list back once all have run.
pub open spec fn startup_at(count: usize, i: int) -> RunAction {
    if i < count {
        RunAction::RunStartup(i as usize)
    } else {
        RunAction::RestoreStartups
    }
}

/// The same for update systems.
pub open spec fn update_at(count: usize, i: int) -> RunAction {
    if i < count {
        RunAction::RunUpdate(i as usize)
    } else {
        RunAction::RestoreUpdates
    }
}

/// The same for draw systems, which close the camera's mode first when the
/// frame draws through a camera.
pub open spec fn draw_at(count: usize, camera: bool, i: int) -> RunAction {
    if i < count {
        RunAction::RunDraw(i as usize)
    } else if camera {
        RunAction::EndCamera
    } else {
        RunAction::RestoreDraws
    }
}

/// The reports of one frame in which the window stays open, `n` update
/// systems and `m` draw systems are taken, and a camera exists or not.
pub open spec fn frame_events(n: usize, m: usize, camera: bool) -> Seq<RunEvent> {
    seq![RunEvent::WindowPolled(false), RunEvent::Taken(n)] + dones(n as nat) + seq![
        RunEvent::Done,
        RunEvent::Done,
        RunEvent::Taken(m),
        RunEvent::CameraChecked(camera),
    ] + when(camera, seq![RunEvent::Done]) + dones(m as nat) + when(camera, seq![RunEvent::Done])
        + seq![RunEvent::Done, RunEvent::Done]
}

/// The actions of such a frame: every update system once, in order, then
/// every draw system once, in order, inside the camera's mode when there is
/// a camera, and then the window is asked again.
pub open spec fn frame_actions(n: usize, m: usize, camera: bool) -> Seq<RunAction> {
    seq![RunAction::TakeUpdates] + updates_run(0, n as int) + seq![
        RunAction::RestoreUpdates,
        RunAction::BeginDrawing,
        RunAction::TakeDraws,
        RunAction::CheckCamera,
    ] + when(camera, seq![RunAction::BeginCamera]) + draws_run(0, m as int) + when(
        camera,
        seq![RunAction::EndCamera],
    ) + seq![RunAction::RestoreDraws, RunAction::EndDrawing, RunAction::PollWindow]
}

/// Running the loop on `a` then on `b` is running it on `a + b`.
pub proof fn lemma_run_concat(state: RunState, a: Seq<RunEvent>, b: Seq<RunEvent>)
    ensures
        run_actions(state, a + b) == run_actions(state, a) + run_actions(run_final(state, a), b),
        run_final(state, a + b) == run_final(run_final(state, a), b),
    decreases a.len(),
{
    if a.len() == 0 {
        assert(a + b =~= b);
        assert(run_actions(state, a + b) =~= run_actions(state, a) + run_actions(
            run_final(state, a),
            b,
        ));
    } else {
        let next = spec_step(state, a[0]);
        assert((a + b).drop_first() =~= a.drop_first() + b);
        assert((a + b)[0] == a[0]);
        lemma_run_concat(next, a.drop_first(), b);
        assert(run_actions(state, a + b) =~= run_actions(state, a) + run_actions(
            run_final(state, a),
            b,
        ));
    }
}

/// One report from `state` asks for the pending action of the next state.
pub proof fn lemma_run_one(state: RunState, e: RunEvent)
    ensures
        run_actions(state, seq![e]) == seq![spec_step(state, e).pending],
        run_final(state, seq![e]) == spec_step(state, e),
{
    let rest = seq![e].drop_first();
    assert(rest =~= Seq::<RunEvent>::empty());
    let next = spec_step(state, e);
    assert(run_actions(next, rest) == Seq::<RunAction>::empty());
    assert(run_final(next, rest) == next);
    assert(run_actions(state, seq![e]) =~= seq![next.pending]);
}

/// `k + 1` reports of a finished action are one followed by `k`.
pub proof fn lemma_dones_split(k: nat)
    ensures
        dones(k + 1) == seq![RunEvent::Done] + dones(k),
{
    assert(dones(k + 1) =~= seq![RunEvent::Done] + dones(k));
}

/// From position `i` of the update systems, finishing each one runs the rest
/// in order and then puts the list back.
pub proof fn lemma_updates_from(state: RunState, i: int)
    requires
        0 <= i <= state.count,
        state.pending == update_at(state.count, i),
    ensures
        run_actions(state, dones((state.count - i) as nat)) == Seq::new(
            (state.count - i) as nat,
            |k: int| update_at(state.count, i + 1 + k),
        ),
        run_final(state, dones((state.count - i) as nat)) == (RunState {
            pending: RunAction::RestoreUpdates,
            ..state
        }),
    decreases state.count - i,
{
    let n = (state.count - i) as nat;
    if n == 0 {
        assert(run_actions(state, dones(0)) =~= Seq::new(0, |k: int| update_at(state.count, i + 1 + k)));
        assert(dones(0) =~= Seq::<RunEvent>::empty());
    } else {
        lemma_dones_split((n - 1) as nat);
        let next = spec_step(state, RunEvent::Done);
        assert(next.pending == update_at(state.count, i + 1));
        lemma_run_one(state, RunEvent::Done);
        lemma_run_concat(state, seq![RunEvent::Done], dones((n - 1) as nat));
        lemma_updates_from(next, i + 1);
        assert(run_actions(state, dones(n)) =~= Seq::new(n, |k: int| update_at(state.count, i + 1 + k)));
    }
}

/// The same for the draw systems.
pub proof fn lemma_draws_from(state: RunState, i: int)
    requires
        0 <= i <= state.count,
        state.pending == draw_at(state.count, state.camera, i),
    ensures
        run_actions(state, dones((state.count - i) as nat)) == Seq::new(
            (state.count - i) as nat,
            |k: int| draw_at(state.count, state.camera, i + 1 + k),
        ),
        run_final(state, dones((state.count - i) as nat)) == (RunState {
            pending: draw_at(state.count, state.camera, state.count as int),
            ..state
        }),
    decreases state.count - i,
{
    let n = (state.count - i) as nat;
    if n == 0 {
        assert(run_actions(state, dones(0)) =~= Seq::new(
            0,
            |k: int| draw_at(state.count, state.camera, i + 1 + k),
        ));
        assert(dones(0) =~= Seq::<RunEvent>::empty());
    } else {
        lemma_dones_split((n - 1) as nat);
        let next = spec_step(state, RunEvent::Done);
        assert(next.pending == draw_at(state.count, state.camera, i + 1));
        lemma_run_one(state, RunEvent::Done);
        lemma_run_concat(state, seq![RunEvent::Done], dones((n - 1) as nat));
        lemma_draws_from(next, i + 1);
        assert(run_actions(state, dones(n)) =~= Seq::new(
            n,
            |k: int| draw_at(state.count, state.camera, i + 1 + k),
        ));
    }
}

/// The same for the startup systems.
pub proof fn lemma_startups_from(state: RunState, i: int)
    requires
        0 <= i <= state.count,
        state.pending == startup_at(state.count, i),
    ensures
        run_actions(state, dones((state.count - i) as nat)) == Seq::new(
            (state.count - i) as nat,
            |k: int| startup_at(state.count, i + 1 + k),
        ),
        run_final(state, dones((state.count - i) as nat)) == (RunState {
            pending: RunAction::RestoreStartups,
            ..state
        }),
    decreases state.count - i,
{
    let n = (state.count - i) as nat;
    if n == 0 {
        assert(run_actions(state, dones(0)) =~= Seq::new(0, |k: int| startup_at(state.count, i + 1 + k)));
        assert(dones(0) =~= Seq::<RunEvent>::empty());
    } else {
        lemma_dones_split((n - 1) as nat);
        let next = spec_step(state, RunEvent::Done);
        assert(next.pending == startup_at(state.count, i + 1));
        lemma_run_one(state, RunEvent::Done);
        lemma_run_concat(state, seq![RunEvent::Done], dones((n - 1) as nat));
        lemma_startups_from(next, i + 1);
        assert(run_actions(state, dones(n)) =~= Seq::new(n, |k: int| startup_at(state.count, i + 1 + k)));
    }
}

/// Two reports from `state`.
pub proof fn lemma_run_two(state: RunState, e1: RunEvent, e2: RunEvent)
    ensures
        run_actions(state, seq![e1, e2]) == seq![
            spec_step(state, e1).pending,
            spec_step(spec_step(state, e1), e2).pending,
        ],
        run_final(state, seq![e1, e2]) == spec_step(spec_step(state, e1), e2),
{
    assert(seq![e1, e2] =~= seq![e1] + seq![e2]);
    lemma_run_concat(state, seq![e1], seq![e2]);
    lemma_run_one(state, e1);
    lemma_run_one(spec_step(state, e1), e2);
    assert(run_actions(state, seq![e1, e2]) =~= seq![
        spec_step(state, e1).pending,
        spec_step(spec_step(state, e1), e2).pending,
    ]);
}

/// No report leaves the loop where it is.
pub proof fn lemma_run_none(state: RunState)
    ensures
        run_actions(state, Seq::empty()) == Seq::<RunAction>::empty(),
        run_final(state, Seq::empty()) == state,
{
}

/// The positions of a list of update systems, from the first to the putting
/// back, are the systems in order and then the putting back.
pub proof fn lemma_update_positions(n: usize)
    ensures
        seq![update_at(n, 0)] + Seq::new(n as nat, |k: int| update_at(n, 1 + k)) == updates_run(
            0,
            n as int,
        ).push(RunAction::RestoreUpdates),
{
    assert(seq![update_at(n, 0)] + Seq::new(n as nat, |k: int| update_at(n, 1 + k)) =~= updates_run(
        0,
        n as int,
    ).push(RunAction::RestoreUpdates));
}

/// The same for draw systems.
pub proof fn lemma_draw_positions(m: usize, camera: bool)
    ensures
        seq![draw_at(m, camera, 0)] + Seq::new(m as nat, |k: int| draw_at(m, camera, 1 + k))
            == draws_run(0, m as int).push(draw_at(m, camera, m as int)),
{
    assert(seq![draw_at(m, camera, 0)] + Seq::new(m as nat, |k: int| draw_at(m, camera, 1 + k))
        =~= draws_run(0, m as int).push(draw_at(m, camera, m as int)));
}

/// The same for startup systems.
pub proof fn lemma_startup_positions(n: usize)
    ensures
        seq![startup_at(n, 0)] + Seq::new(n as nat, |k: int| startup_at(n, 1 + k)) == startups_run(
            0,
            n as int,
        ).push(RunAction::RestoreStartups),
{
    assert(seq![startup_at(n, 0)] + Seq::new(n as nat, |k: int| startup_at(n, 1 + k))
        =~= startups_run(0, n as int).push(RunAction::RestoreStartups));
}

/// The update half of a frame: the window stays open, the `n` update
/// systems are taken, run in order and put back.
pub proof fn lemma_frame_updates(state: RunState, n: usize)
    requires
        state.pending == RunAction::PollWindow,
    ensures
        run_actions(state, seq![RunEvent::WindowPolled(false), RunEvent::Taken(n)] + dones(n as nat))
            == seq![RunAction::TakeUpdates] + updates_run(0, n as int).push(
            RunAction::RestoreUpdates,
        ),
        run_final(state, seq![RunEvent::WindowPolled(false), RunEvent::Taken(n)] + dones(n as nat))
            == (RunState { pending: RunAction::RestoreUpdates, count: n, camera: state.camera }),
{
    let e_a = seq![RunEvent::WindowPolled(false), RunEvent::Taken(n)];
    lemma_run_two(state, RunEvent::WindowPolled(false), RunEvent::Taken(n));
    let s1 = run_final(state, e_a);
    assert(s1 == RunState { pending: update_at(n, 0), count: n, camera: state.camera });
    lemma_updates_from(s1, 0);
    assert(dones(n as nat) == dones((s1.count - 0) as nat));
    lemma_run_concat(state, e_a, dones(n as nat));
    lemma_update_positions(n);
    assert(seq![RunAction::TakeUpdates, update_at(n, 0)] + Seq::new(
        n as nat,
        |k: int| update_at(n, 1 + k),
    ) =~= seq![RunAction::TakeUpdates] + (seq![update_at(n, 0)] + Seq::new(
        n as nat,
        |k: int| update_at(n, 1 + k),
    )));
}

/// The start of drawing: drawing begins, the `m` draw systems are taken and
/// the camera is looked for, and its mode begins when there is one.
pub proof fn lemma_frame_draw_start(state: RunState, m: usize, camera: bool)
    requires
        state.pending == RunAction::RestoreUpdates,
    ensures
        run_actions(
            state,
            seq![RunEvent::Done, RunEvent::Done, RunEvent::Taken(m), RunEvent::CameraChecked(camera)]
                + when(camera, seq![RunEvent::Done]),
        ) == seq![RunAction::BeginDrawing, RunAction::TakeDraws, RunAction::CheckCamera] + when(
            camera,
            seq![RunAction::BeginCamera],
        ) + seq![draw_at(m, camera, 0)],
        run_final(
            state,
            seq![RunEvent::Done, RunEvent::Done, RunEvent::Taken(m), RunEvent::CameraChecked(camera)]
                + when(camera, seq![RunEvent::Done]),
        ) == (RunState { pending: draw_at(m, camera, 0), count: m, camera }),
{
    let e_c = seq![RunEvent::Done, RunEvent::Done, RunEvent::Taken(m), RunEvent::CameraChecked(camera)];
    let e_d = when(camera, seq![RunEvent::Done]);
    assert(e_c =~= seq![RunEvent::Done, RunEvent::Done] + seq![
        RunEvent::Taken(m),
        RunEvent::CameraChecked(camera),
    ]);
    lemma_run_two(state, RunEvent::Done, RunEvent::Done);
    let s2b = run_final(state, seq![RunEvent::Done, RunEvent::Done]);
    lemma_run_two(s2b, RunEvent::Taken(m), RunEvent::CameraChecked(camera));
    lemma_run_concat(
        state,
        seq![RunEvent::Done, RunEvent::Done],
        seq![RunEvent::Taken(m), RunEvent::CameraChecked(camera)],
    );
    let s3 = run_final(state, e_c);
    let x_pending = if camera {
        RunAction::BeginCamera
    } else {
        draw_at(m, false, 0)
    };
    assert(s3 == RunState { pending: x_pending, count: m, camera });
    if camera {
        lemma_run_one(s3, RunEvent::Done);
    } else {
        lemma_run_none(s3);
    }
    lemma_run_concat(state, e_c, e_d);
    if camera {
        assert(run_actions(state, e_c + e_d) =~= seq![
            RunAction::BeginDrawing,
            RunAction::TakeDraws,
            RunAction::CheckCamera,
        ] + when(camera, seq![RunAction::BeginCamera]) + seq![draw_at(m, camera, 0)]);
    } else {
        assert(run_actions(state, e_c + e_d) =~= seq![
            RunAction::BeginDrawing,
            RunAction::TakeDraws,
            RunAction::CheckCamera,
        ] + when(camera, seq![RunAction::BeginCamera]) + seq![draw_at(m, camera, 0)]);
    }
}

/// The end of drawing: the draw systems after the first run in order, the
/// camera's mode ends when there is a camera, the systems go back, drawing
/// ends and the window is asked again.
pub proof fn lemma_frame_draw_end(state: RunState, m: usize, camera: bool)
    requires
        state == (RunState { pending: draw_at(m, camera, 0), count: m, camera }),
    ensures
        run_actions(
            state,
            dones(m as nat) + when(camera, seq![RunEvent::Done]) + seq![RunEvent::Done, RunEvent::Done],
        ) == Seq::new(m as nat, |k: int| draw_at(m, camera, 1 + k)) + when(
            camera,
            seq![RunAction::RestoreDraws],
        ) + seq![RunAction::EndDrawing, RunAction::PollWindow],
        run_final(
            state,
            dones(m as nat) + when(camera, seq![RunEvent::Done]) + seq![RunEvent::Done, RunEvent::Done],
        ).pending == RunAction::PollWindow,
{
    let e_e = dones(m as nat);
    let e_f = when(camera, seq![RunEvent::Done]);
    let e_g = seq![RunEvent::Done, RunEvent::Done];
    lemma_draws_from(state, 0);
    assert(e_e == dones((state.count - 0) as nat));
    let s5 = run_final(state, e_e);
    assert(s5 == RunState { pending: draw_at(m, camera, m as int), count: m, camera });
    if camera {
        lemma_run_one(s5, RunEvent::Done);
    } else {
        lemma_run_none(s5);
    }
    lemma_run_concat(state, e_e, e_f);
    let s6 = run_final(state, e_e + e_f);
    assert(s6 == RunState { pending: RunAction::RestoreDraws, count: m, camera });
    lemma_run_two(s6, RunEvent::Done, RunEvent::Done);
    lemma_run_concat(state, e_e + e_f, e_g);
    if camera {
        assert(run_actions(s5, e_f) == seq![RunAction::RestoreDraws]);
    } else {
        assert(run_actions(s5, e_f) == Seq::<RunAction>::empty());
    }
    assert(run_actions(state, e_e + e_f + e_g) =~= Seq::new(
        m as nat,
        |k: int| draw_at(m, camera, 1 + k),
    ) + when(camera, seq![RunAction::RestoreDraws]) + seq![
        RunAction::EndDrawing,
        RunAction::PollWindow,
    ]);
}

/// A frame in which the window stays open runs every update system once, in
/// the order they were registered, then every draw system once, in order,
/// inside the camera's 2D mode when a camera exists, and then asks the
/// window again.
pub proof fn law_frame_order(state: RunState, n: usize, m: usize, camera: bool)
    requires
        state.pending == RunAction::PollWindow,
    ensures
        run_actions(state, frame_events(n, m, camera)) == frame_actions(n, m, camera),
        run_final(state, frame_events(n, m, camera)).pending == RunAction::PollWindow,
{
    let first = seq![RunEvent::WindowPolled(false), RunEvent::Taken(n)] + dones(n as nat);
    let middle = seq![
        RunEvent::Done,
        RunEvent::Done,
        RunEvent::Taken(m),
        RunEvent::CameraChecked(camera),
    ] + when(camera, seq![RunEvent::Done]);
    let last = dones(m as nat) + when(camera, seq![RunEvent::Done]) + seq![
        RunEvent::Done,
        RunEvent::Done,
    ];
    assert(frame_events(n, m, camera) =~= first + (middle + last));
    lemma_frame_updates(state, n);
    let s2 = run_final(state, first);
    lemma_frame_draw_start(s2, m, camera);
    let s4 = run_final(s2, middle);
    lemma_frame_draw_end(s4, m, camera);
    lemma_run_concat(s2, middle, last);
    lemma_run_concat(state, first, middle + last);
    lemma_frame_actions_shape(n, m, camera);
}

/// The actions of a frame, as the pieces of `law_frame_order` give them.
pub open spec fn frame_pieces(n: usize, m: usize, camera: bool) -> Seq<RunAction> {
    seq![RunAction::TakeUpdates] + updates_run(0, n as int).push(RunAction::RestoreUpdates) + (seq![
        RunAction::BeginDrawing,
        RunAction::TakeDraws,
        RunAction::CheckCamera,
    ] + when(camera, seq![RunAction::BeginCamera]) + seq![draw_at(m, camera, 0)] + (Seq::new(
        m as nat,
        |k: int| draw_at(m, camera, 1 + k),
    ) + when(camera, seq![RunAction::RestoreDraws]) + seq![
        RunAction::EndDrawing,
        RunAction::PollWindow,
    ]))
}

/// The pieces put together are the frame's actions.
pub proof fn lemma_frame_actions_shape(n: usize, m: usize, camera: bool)
    ensures
        frame_pieces(n, m, camera) == frame_actions(n, m, camera),
{
    lemma_draw_positions(m, camera);
    let d = seq![draw_at(m, camera, 0)] + Seq::new(m as nat, |k: int| draw_at(m, camera, 1 + k));
    assert(d == draws_run(0, m as int).push(draw_at(m, camera, m as int)));
    assert(frame_pieces(n, m, camera) =~= frame_actions(n, m, camera));
}

/// The reports of the loop's start: textures loaded when there is an asset
/// server, `k` startup systems taken, each finished, and put back.
pub open spec fn startup_events(has_asset_server: bool, k: usize) -> Seq<RunEvent> {
    when(has_asset_server, seq![RunEvent::Done]) + seq![RunEvent::Taken(k)] + dones(k as nat) + seq![
        RunEvent::Done,
    ]
}

/// The loop's start loads the textures first when there is an asset server,
/// runs every startup system once, in the order they were registered, puts
/// them back, and then asks the window whether to close.
pub proof fn law_startup_order(has_asset_server: bool, k: usize)
    ensures
        spec_start(has_asset_server).pending == (if has_asset_server {
            RunAction::LoadTextures
        } else {
            RunAction::TakeStartups
        }),
        run_actions(spec_start(has_asset_server), startup_events(has_asset_server, k)) == when(
            has_asset_server,
            seq![RunAction::TakeStartups],
        ) + startups_run(0, k as int) + seq![RunAction::RestoreStartups, RunAction::PollWindow],
        run_final(spec_start(has_asset_server), startup_events(has_asset_server, k)).pending
            == RunAction::PollWindow,
{
    let s0 = spec_start(has_asset_server);
    let e_a = when(has_asset_server, seq![RunEvent::Done]);
    if has_asset_server {
        lemma_run_one(s0, RunEvent::Done);
    } else {
        lemma_run_none(s0);
    }
    let s1 = run_final(s0, e_a);
    assert(s1.pending == RunAction::TakeStartups);
    lemma_run_one(s1, RunEvent::Taken(k));
    lemma_run_concat(s0, e_a, seq![RunEvent::Taken(k)]);
    let x2 = e_a + seq![RunEvent::Taken(k)];
    let s2 = run_final(s0, x2);
    assert(s2 == RunState { pending: startup_at(k, 0), count: k, camera: false });
    lemma_startups_from(s2, 0);
    assert(dones(k as nat) == dones((s2.count - 0) as nat));
    lemma_run_concat(s0, x2, dones(k as nat));
    let x3 = x2 + dones(k as nat);
    let s3 = run_final(s0, x3);
    lemma_run_one(s3, RunEvent::Done);
    lemma_run_concat(s0, x3, seq![RunEvent::Done]);
    lemma_startup_positions(k);
    let total = when(has_asset_server, seq![RunAction::TakeStartups]) + seq![startup_at(k, 0)] + Seq::new(
        k as nat,
        |j: int| startup_at(k, 1 + j),
    ) + seq![RunAction::PollWindow];
    if has_asset_server {
        assert(run_actions(s0, e_a) == seq![RunAction::TakeStartups]);
    } else {
        assert(run_actions(s0, e_a) == Seq::<RunAction>::empty());
    }
    assert(run_actions(s0, startup_events(has_asset_server, k)) == total);
    assert(total =~= when(has_asset_server, seq![RunAction::TakeStartups]) + startups_run(
        0,
        k as int,
    ) + seq![RunAction::RestoreStartups, RunAction::PollWindow]) by {
        let d = seq![startup_at(k, 0)] + Seq::new(k as nat, |j: int| startup_at(k, 1 + j));
        assert(d == startups_run(0, k as int).push(RunAction::RestoreStartups));
    }
}

/// A closed window stops the loop, and a stopped loop stays stopped.
pub proof fn law_stop(state: RunState, close: bool, event: RunEvent)
    requires
        state.pending == RunAction::PollWindow,
    ensures
        (spec_step(state, RunEvent::WindowPolled(close)).pending == RunAction::Stop) == close,
        spec_step(spec_step(state, RunEvent::WindowPolled(true)), event).pending == RunAction::Stop,
{
}

impl RunState {
    /// The loop's first state.
    pub fn start(has_asset_server: bool) -> (r: RunState)
        ensures
            r == spec_start(has_asset_server),
            run_state_wf(r),
    {
        RunState {
            pending: if has_asset_server {
                RunAction::LoadTextures
            } else {
                RunAction::TakeStartups
            },
            count: 0,
            camera: false,
        }
    }

    /// Whether `event` is the kind of report that the pending action calls
    /// for.
    pub fn expects(&self, event: &RunEvent) -> (r: bool)
        ensures
            r == spec_expects(self.pending, *event),
    {
        match self.pending {
            RunAction::TakeStartups | RunAction::TakeUpdates | RunAction::TakeDraws => {
                matches!(event, RunEvent::Taken(_))
            },
            RunAction::PollWindow => matches!(event, RunEvent::WindowPolled(_)),
            RunAction::CheckCamera => matches!(event, RunEvent::CameraChecked(_)),
            _ => matches!(event, RunEvent::Done),
        }
    }

    /// The state after the pending action reported `event`.
    pub fn step(self, event: RunEvent) -> (r: RunState)
        requires
            run_state_wf(self),
            spec_expects(self.pending, event),
        ensures
            r == spec_step(self, event),
            run_state_wf(r),
    {
        let count = self.count;
        let camera = self.camera;
        match (self.pending, event) {
            (RunAction::LoadTextures, _) => RunState { pending: RunAction::TakeStartups, count, camera },
            (RunAction::TakeStartups, RunEvent::Taken(n)) => RunState {
                pending: if n > 0 {
                    RunAction::RunStartup(0)
                } else {
                    RunAction::RestoreStartups
                },
                count: n,
                camera,
            },
            (RunAction::RunStartup(i), _) => RunState {
                pending: if i + 1 < count {
                    RunAction::RunStartup(i + 1)
                } else {
                    RunAction::RestoreStartups
                },
                count,
                camera,
            },
            (RunAction::RestoreStartups, _) => RunState { pending: RunAction::PollWindow, count, camera },
            (RunAction::PollWindow, RunEvent::WindowPolled(close)) => RunState {
                pending: if close {
                    RunAction::Stop
                } else {
                    RunAction::TakeUpdates
                },
                count,
                camera,
            },
            (RunAction::TakeUpdates, RunEvent::Taken(n)) => RunState {
                pending: if n > 0 {
                    RunAction::RunUpdate(0)
                } else {
                    RunAction::RestoreUpdates
                },
                count: n,
                camera,
            },
            (RunAction::RunUpdate(i), _) => RunState {
                pending: if i + 1 < count {
                    RunAction::RunUpdate(i + 1)
                } else {
                    RunAction::RestoreUpdates
                },
                count,
                camera,
            },
            (RunAction::RestoreUpdates, _) => RunState { pending: RunAction::BeginDrawing, count, camera },
            (RunAction::BeginDrawing, _) => RunState { pending: RunAction::TakeDraws, count, camera },
            (RunAction::TakeDraws, RunEvent::Taken(n)) => RunState {
                pending: RunAction::CheckCamera,
                count: n,
                camera: false,
            },
            (RunAction::CheckCamera, RunEvent::CameraChecked(c)) => RunState {
                pending: if c {
                    RunAction::BeginCamera
                } else if count > 0 {
                    RunAction::RunDraw(0)
                } else {
                    RunAction::RestoreDraws
                },
                count,
                camera: c,
            },
            (RunAction::BeginCamera, _) => RunState {
                pending: if count > 0 {
                    RunAction::RunDraw(0)
                } else {
                    RunAction::EndCamera
                },
                count,
                camera,
            },
            (RunAction::RunDraw(i), _) => RunState {
                pending: if i + 1 < count {
                    RunAction::RunDraw(i + 1)
                } else if camera {
                    RunAction::EndCamera
                } else {
                    RunAction::RestoreDraws
                },
                count,
                camera,
            },
            (RunAction::EndCamera, _) => RunState { pending: RunAction::RestoreDraws, count, camera },
            (RunAction::RestoreDraws, _) => RunState { pending: RunAction::EndDrawing, count, camera },
            (RunAction::EndDrawing, _) => RunState { pending: RunAction::PollWindow, count, camera },
            _ => self,
        }
    }
}

} // verus!
