//! The interactive session: which key ends a take, what the supervisor
//! must then do with the just-recorded file, and the session state machine
//! that sequences takes over a working directory.

use crate::filename::{
    determine_filename, lemma_allocated_name_fresh, matches_recording, max_recording_number,
    name_views, recording_name, recording_number,
};
use vstd::prelude::*;
use vstd::string::StringExecFns;

verus! {

/// The user-chosen outcome that ends one take.
#[derive(Clone, Copy, Debug, PartialEq, Eq, Structural)]
pub enum Action {
    StopAndQuit,
    /// Stop and delete the current recording.
    CancelAndQuit,
    /// Stop and delete the current recording, and start a new recording.
    RestartRecording,
    StartAnotherRecording,
}

/// A key press as the session logic sees it: the input boundary reduces
/// every raw key event to one of these.
#[derive(Clone, Copy, Debug, PartialEq, Eq, Structural)]
pub enum Key {
    Char(char),
    Backspace,
    Other,
}

/// The fixed key table of the interaction loop.
pub open spec fn action_for_key(key: Key) -> Option<Action> {
    match key {
        Key::Char(c) => {
            if c == 'q' {
                Some(Action::StopAndQuit)
            } else if c == 'Q' {
                Some(Action::CancelAndQuit)
            } else if c == ' ' {
                Some(Action::StartAnotherRecording)
            } else {
                None
            }
        },
        Key::Backspace => Some(Action::RestartRecording),
        Key::Other => None,
    }
}

/// Maps one key press to the action it requests, if any: `q` stops and
/// quits, `Q` cancels and quits, space starts another recording,
/// backspace restarts the current one; every other key is ignored.
pub fn get_action(key: Key) -> (r: Option<Action>)
    ensures
        r == action_for_key(key),
{
    match key {
        Key::Char(c) => {
            if c == 'q' {
                Some(Action::StopAndQuit)
            } else if c == 'Q' {
                Some(Action::CancelAndQuit)
            } else if c == ' ' {
                Some(Action::StartAnotherRecording)
            } else {
                None
            }
        },
        Key::Backspace => Some(Action::RestartRecording),
        Key::Other => None,
    }
}

/// The first recognized key of a burst decides; later keys cannot
/// override it, and unrecognized keys are skipped without effect.
pub open spec fn spec_first_action(keys: Seq<Key>) -> Option<Action>
    decreases keys.len(),
{
    if keys.len() == 0 {
        None
    } else {
        match action_for_key(keys.first()) {
            Some(a) => Some(a),
            None => spec_first_action(keys.drop_first()),
        }
    }
}

/// The interaction loop's outcome over a burst of key presses: each key is
/// considered independently against the fixed table, and the first one
/// that maps to an action ends the loop.
pub fn first_action(keys: &Vec<Key>) -> (r: Option<Action>)
    ensures
        r == spec_first_action(keys@),
{
    let mut i: usize = 0;
    proof {
        assert(keys@.subrange(0, keys@.len() as int) =~= keys@);
    }
    while i < keys.len()
        invariant
            i <= keys@.len(),
            spec_first_action(keys@) == spec_first_action(keys@.subrange(i as int, keys@.len() as int)),
        decreases keys@.len() - i,
    {
        let key = keys[i];
        proof {
            let tail = keys@.subrange(i as int, keys@.len() as int);
            assert(tail.first() == keys@[i as int]);
            assert(tail.drop_first() =~= keys@.subrange(i + 1, keys@.len() as int));
        }
        match get_action(key) {
            Some(action) => {
                return Some(action);
            },
            None => {},
        }
        i = i + 1;
    }
    proof {
        assert(keys@.subrange(keys@.len() as int, keys@.len() as int) =~= Seq::<Key>::empty());
    }
    None
}

/// The message logged when a take starts.
pub open spec fn started_message(name: Seq<char>) -> Seq<char> {
    "Started new recording "@ + name
}

/// The message logged before a take's file is deleted.
pub open spec fn deleting_message(name: Seq<char>) -> Seq<char> {
    "Deleting "@ + name
}

/// What a session is at any moment: the working directory's entries, the
/// append-only message log, the take in progress if any, and whether the
/// session has ended.
pub struct SessionView {
    pub dir: Seq<Seq<char>>,
    pub messages: Seq<Seq<char>>,
    pub current: Option<Seq<char>>,
    pub finished: bool,
}

/// The session supervisor's state over one interactive sitting: it owns a
/// model of the working directory and sequences takes over it, one at a
/// time. The unverified rim mirrors every directory change it reports.
pub struct Session {
    dir: Vec<String>,
    messages: Vec<String>,
    current: Option<String>,
    finished: bool,
}

impl View for Session {
    type V = SessionView;

    closed spec fn view(&self) -> SessionView {
        SessionView {
            dir: name_views(self.dir@),
            messages: self.messages@.map_values(|s: String| s@),
            current: match self.current {
                Option::Some(f) => Option::Some(f@),
                Option::None => Option::None,
            },
            finished: self.finished,
        }
    }
}

impl Session {
    /// While a take is in progress its file is the directory's youngest
    /// entry, and no other entry carries its name.
    pub open spec fn wf(&self) -> bool {
        match self@.current {
            Some(name) => {
                &&& self@.dir.len() > 0
                &&& self@.dir.last() == name
                &&& forall|i: int| 0 <= i < self@.dir.len() - 1 ==> self@.dir[i] != name
            },
            None => true,
        }
    }

    /// Opens a session over a working-directory listing, with no take in
    /// progress and an empty message log.
    pub fn new(dir: Vec<String>) -> (s: Session)
        ensures
            s.wf(),
            s@.dir == name_views(dir@),
            s@.messages == Seq::<Seq<char>>::empty(),
            s@.current is None,
            !s@.finished,
    {
        let s = Session { dir, messages: Vec::new(), current: None, finished: false };
        proof {
            assert(s@.messages =~= Seq::<Seq<char>>::empty());
        }
        s
    }

    /// Starts one take: allocates the next take-file name over the
    /// directory, logs it, and records the file's creation. The allocated
    /// name is fresh, so the new entry shadows no existing one.
    pub fn begin_take(&mut self)
        requires
            old(self).wf(),
            !old(self)@.finished,
            old(self)@.current is None,
            forall|i: int| 0 <= i < old(self)@.dir.len() ==> (matches_recording(
                #[trigger] old(self)@.dir[i],
            ) ==> recording_number(old(self)@.dir[i]) < u64::MAX),
        ensures
            final(self).wf(),
            ({
                let name = recording_name(max_recording_number(old(self)@.dir) + 1);
                &&& final(self)@.dir == old(self)@.dir.push(name)
                &&& final(self)@.current == Some(name)
                &&& final(self)@.messages == old(self)@.messages.push(started_message(name))
                &&& final(self)@.finished == old(self)@.finished
            }),
    {
        proof {
            assert forall|i: int| 0 <= i < self.dir@.len() implies (matches_recording(
                #[trigger] self.dir@[i]@,
            ) ==> recording_number(self.dir@[i]@) < u64::MAX) by {
                assert(self@.dir[i] == self.dir@[i]@);
            }
        }
        let filename = determine_filename(&self.dir);
        let ghost name = filename@;
        let ghost old_views = name_views(self.dir@);
        let mut msg = String::from_str("Started new recording ");
        msg.append(filename.as_str());
        self.messages.push(msg);
        let entry = filename.clone();
        self.dir.push(entry);
        self.current = Some(filename);
        proof {
            assert(self@.dir =~= old_views.push(name));
            assert(self@.messages =~= old(self)@.messages.push(started_message(name)));
            assert forall|i: int| 0 <= i < self@.dir.len() - 1 implies self@.dir[i] != name by {
                assert(self@.dir[i] == old_views[i]);
                lemma_allocated_name_fresh(old_views, i);
            }
        }
    }

    /// Ends the current take by the user's action: the file of a stopped
    /// or continued take stays in the directory, the file of a cancelled
    /// or restarted take is deleted and logged, and only the two quitting
    /// actions end the session.
    pub fn apply_action(&mut self, action: Action)
        requires
            old(self).wf(),
            !old(self)@.finished,
            old(self)@.current is Some,
        ensures
            final(self).wf(),
            final(self)@.current is None,
            final(self)@.finished == (action is StopAndQuit || action is CancelAndQuit),
            ({
                let before = old(self)@;
                let after = final(self)@;
                let name = before.current->Some_0;
                let kept = action is StopAndQuit || action is StartAnotherRecording;
                &&& (after.dir.contains(name) <==> kept)
                &&& (kept ==> after.dir == before.dir && after.messages == before.messages)
                &&& (!kept ==> after.dir == before.dir.drop_last() && after.messages
                    == before.messages.push(deleting_message(name)))
            }),
    {
        let ghost name = old(self)@.current->Some_0;
        let filename: String = match &self.current {
            Some(f) => f.clone(),
            None => String::new(),
        };
        self.current = None;
        let delete = match action {
            Action::StopAndQuit => {
                self.finished = true;
                false
            },
            Action::StartAnotherRecording => false,
            Action::CancelAndQuit => {
                self.finished = true;
                true
            },
            Action::RestartRecording => true,
        };
        if delete {
            let mut msg = String::from_str("Deleting ");
            msg.append(filename.as_str());
            self.messages.push(msg);
            self.dir.pop();
            proof {
                assert(self@.dir =~= old(self)@.dir.drop_last());
                assert(self@.messages =~= old(self)@.messages.push(deleting_message(name)));
                assert forall|i: int| 0 <= i < self@.dir.len() implies self@.dir[i] != name by {
                    assert(old(self)@.dir[i] == self@.dir[i]);
                }
            }
        } else {
            proof {
                assert(self@.dir =~= old(self)@.dir);
                assert(self@.messages =~= old(self)@.messages);
                assert(self@.dir.last() == name);
            }
        }
    }

    /// The working directory's entries as the session knows them.
    pub fn dir(&self) -> (r: &Vec<String>)
        ensures
            name_views(r@) == self@.dir,
    {
        &self.dir
    }

    /// The append-only log of status messages.
    pub fn messages(&self) -> (r: &Vec<String>)
        ensures
            r@.map_values(|s: String| s@) == self@.messages,
    {
        &self.messages
    }

    /// The file name of the take in progress, if one is.
    pub fn current(&self) -> (r: &Option<String>)
        ensures
            r is Some <==> self@.current is Some,
            r matches Some(f) ==> self@.current == Some(f@),
    {
        &self.current
    }

    pub fn is_finished(&self) -> (r: bool)
        ensures
            r == self@.finished,
    {
        self.finished
    }
}

/// One parsed command-line invocation.
#[derive(Clone, Copy, Debug, PartialEq, Eq, Structural)]
pub enum Command {
    /// Start an interactive recording session.
    Start,
    /// List the available input devices.
    Devices,
}

/// What a dispatched command asks the unverified rim to run.
pub enum CommandRun {
    Interactive(Session),
    ListDevices,
}

/// Dispatches one invocation: `start` opens an interactive session over
/// the given working-directory listing, `devices` asks for the device
/// list.
pub fn run_command(command: Command, dir: Vec<String>) -> (r: CommandRun)
    ensures
        command is Start ==> (r matches CommandRun::Interactive(s) && s.wf() && s@.dir
            == name_views(dir@) && s@.messages == Seq::<Seq<char>>::empty() && s@.current is None
            && !s@.finished),
        command is Devices ==> r is ListDevices,
{
    match command {
        Command::Start => CommandRun::Interactive(Session::new(dir)),
        Command::Devices => CommandRun::ListDevices,
    }
}

} // verus!
