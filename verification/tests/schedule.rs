use orbita::schedule::{RunAction, RunEvent, RunState};

fn drive(mut s: RunState, events: &[RunEvent]) -> (RunState, Vec<RunAction>) {
    let mut actions = Vec::new();
    for e in events {
        assert!(s.expects(e));
        s = s.step(*e);
        actions.push(s.pending);
    }
    (s, actions)
}

#[test]
fn start_with_assets_loads_textures_first() {
    let s = RunState::start(true);
    assert_eq!(s.pending, RunAction::LoadTextures);
    let (s, actions) = drive(s, &[RunEvent::Done, RunEvent::Taken(2), RunEvent::Done, RunEvent::Done, RunEvent::Done]);
    assert_eq!(
        actions,
        vec![
            RunAction::TakeStartups,
            RunAction::RunStartup(0),
            RunAction::RunStartup(1),
            RunAction::RestoreStartups,
            RunAction::PollWindow,
        ]
    );
    assert_eq!(s.pending, RunAction::PollWindow);
}

#[test]
fn start_without_assets_and_no_startups() {
    let s = RunState::start(false);
    assert_eq!(s.pending, RunAction::TakeStartups);
    let (_, actions) = drive(s, &[RunEvent::Taken(0), RunEvent::Done]);
    assert_eq!(actions, vec![RunAction::RestoreStartups, RunAction::PollWindow]);
}

#[test]
fn frame_with_camera() {
    let (s, _) = drive(RunState::start(false), &[RunEvent::Taken(0), RunEvent::Done]);
    let (s, actions) = drive(
        s,
        &[
            RunEvent::WindowPolled(false),
            RunEvent::Taken(2),
            RunEvent::Done,
            RunEvent::Done,
            RunEvent::Done,
            RunEvent::Done,
            RunEvent::Taken(1),
            RunEvent::CameraChecked(true),
            RunEvent::Done,
            RunEvent::Done,
            RunEvent::Done,
            RunEvent::Done,
            RunEvent::Done,
        ],
    );
    assert_eq!(
        actions,
        vec![
            RunAction::TakeUpdates,
            RunAction::RunUpdate(0),
            RunAction::RunUpdate(1),
            RunAction::RestoreUpdates,
            RunAction::BeginDrawing,
            RunAction::TakeDraws,
            RunAction::CheckCamera,
            RunAction::BeginCamera,
            RunAction::RunDraw(0),
            RunAction::EndCamera,
            RunAction::RestoreDraws,
            RunAction::EndDrawing,
            RunAction::PollWindow,
        ]
    );
    assert_eq!(s.pending, RunAction::PollWindow);
}

#[test]
fn frame_without_camera_or_systems() {
    let (s, _) = drive(RunState::start(false), &[RunEvent::Taken(0), RunEvent::Done]);
    let (_, actions) = drive(
        s,
        &[
            RunEvent::WindowPolled(false),
            RunEvent::Taken(0),
            RunEvent::Done,
            RunEvent::Done,
            RunEvent::Taken(0),
            RunEvent::CameraChecked(false),
            RunEvent::Done,
            RunEvent::Done,
        ],
    );
    assert_eq!(
        actions,
        vec![
            RunAction::TakeUpdates,
            RunAction::RestoreUpdates,
            RunAction::BeginDrawing,
            RunAction::TakeDraws,
            RunAction::CheckCamera,
            RunAction::RestoreDraws,
            RunAction::EndDrawing,
            RunAction::PollWindow,
        ]
    );
}

#[test]
fn closing_the_window_stops_for_good() {
    let (s, _) = drive(RunState::start(false), &[RunEvent::Taken(0), RunEvent::Done]);
    assert!(!s.expects(&RunEvent::Done));
    let s = s.step(RunEvent::WindowPolled(true));
    assert_eq!(s.pending, RunAction::Stop);
    let s = s.step(RunEvent::Done);
    assert_eq!(s.pending, RunAction::Stop);
}
