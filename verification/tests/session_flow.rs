use wav_recorder::session::{
    first_action, get_action, run_command, Action, Command, CommandRun, Key, Session,
};

fn strings(names: &[&str]) -> Vec<String> {
    names.iter().map(|n| n.to_string()).collect()
}

#[test]
fn key_table_maps_each_command_key() {
    assert!(matches!(get_action(Key::Char('q')), Some(Action::StopAndQuit)));
    assert!(matches!(get_action(Key::Char('Q')), Some(Action::CancelAndQuit)));
    assert!(matches!(get_action(Key::Char(' ')), Some(Action::StartAnotherRecording)));
    assert!(matches!(get_action(Key::Backspace), Some(Action::RestartRecording)));
    assert!(get_action(Key::Char('x')).is_none());
    assert!(get_action(Key::Char('r')).is_none());
    assert!(get_action(Key::Other).is_none());
}

#[test]
fn first_recognized_key_decides() {
    let keys = vec![Key::Char('z'), Key::Other, Key::Char(' '), Key::Char('q')];
    assert!(matches!(first_action(&keys), Some(Action::StartAnotherRecording)));
    let unrecognized = vec![Key::Char('a'), Key::Other];
    assert!(first_action(&unrecognized).is_none());
    let empty: Vec<Key> = Vec::new();
    assert!(first_action(&empty).is_none());
}

#[test]
fn three_takes_then_stop_keep_all_three_files() {
    let mut session = Session::new(Vec::new());
    session.begin_take();
    session.apply_action(Action::StartAnotherRecording);
    session.begin_take();
    session.apply_action(Action::StartAnotherRecording);
    session.begin_take();
    session.apply_action(Action::StopAndQuit);
    assert!(session.is_finished());
    assert_eq!(
        session.dir().as_slice(),
        strings(&["recording-1.wav", "recording-2.wav", "recording-3.wav"]).as_slice()
    );
}

#[test]
fn cancelled_first_take_leaves_no_files() {
    let mut session = Session::new(Vec::new());
    session.begin_take();
    session.apply_action(Action::CancelAndQuit);
    assert!(session.is_finished());
    assert!(session.dir().is_empty());
}

#[test]
fn restart_deletes_and_next_take_reuses_the_number() {
    let mut session = Session::new(Vec::new());
    session.begin_take();
    assert_eq!(session.current().as_deref(), Some("recording-1.wav"));
    session.apply_action(Action::RestartRecording);
    assert!(!session.is_finished());
    assert!(session.dir().is_empty());
    session.begin_take();
    assert_eq!(session.current().as_deref(), Some("recording-1.wav"));
}

#[test]
fn existing_take_and_clutter_allocate_take_two() {
    let mut session = Session::new(strings(&["recording-1.wav", "notes.txt", "take.mp3"]));
    session.begin_take();
    assert_eq!(session.current().as_deref(), Some("recording-2.wav"));
    session.apply_action(Action::StopAndQuit);
    assert_eq!(
        session.dir().as_slice(),
        strings(&["recording-1.wav", "notes.txt", "take.mp3", "recording-2.wav"]).as_slice()
    );
}

#[test]
fn session_logs_starts_and_deletions() {
    let mut session = Session::new(Vec::new());
    session.begin_take();
    session.apply_action(Action::RestartRecording);
    session.begin_take();
    session.apply_action(Action::StopAndQuit);
    assert_eq!(
        session.messages().as_slice(),
        strings(&[
            "Started new recording recording-1.wav",
            "Deleting recording-1.wav",
            "Started new recording recording-1.wav",
        ])
        .as_slice()
    );
}

#[test]
fn start_command_opens_a_session_over_the_directory() {
    let run = run_command(Command::Start, strings(&["recording-4.wav"]));
    match run {
        CommandRun::Interactive(mut session) => {
            assert!(!session.is_finished());
            assert!(session.current().is_none());
            session.begin_take();
            assert_eq!(session.current().as_deref(), Some("recording-5.wav"));
        },
        CommandRun::ListDevices => panic!("start must open a session"),
    }
}

#[test]
fn devices_command_asks_for_the_device_list() {
    assert!(matches!(run_command(Command::Devices, Vec::new()), CommandRun::ListDevices));
}
