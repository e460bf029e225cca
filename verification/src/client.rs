//! The client of a multiplexer session in control mode, as a state machine: commands wait
//! in a bounded queue until they are written, one whole line each and in the order in
//! which they came, and the lines that the multiplexer sends back gather in one text.
//! Whoever owns the subprocess writes what `next_write` hands out and reports what it reads.

use vstd::prelude::*;
use vstd::string::StringExecFns;
use crate::command::{
    capture_command, decimal, detach_command, kill_session_command, list_sessions_command,
    list_windows_command, new_session_command, new_window_command, rename_window_command,
    select_window_command, send_keys_command, set_option_command, split_command,
    with_argument, with_arguments, SplitType,
};
use crate::records::{restore_commands, session_commands};
use crate::strings::texts;

verus! {

/// The most commands that wait to be written at one time.
pub const QUEUE_CAPACITY: usize = 32;

/// Why a command was not taken.
#[derive(Clone, Copy, Debug, PartialEq, Eq, Structural)]
pub enum SessionError {
    /// The session has ended: nothing more will be written.
    ChannelClosed,
    /// The queue is full. The command has not been taken and nothing was lost: it can be
    /// offered again once a waiting command has been written.
    QueueFull,
}

/// A command as it is written: its text and a line feed.
pub open spec fn line_of(command: Seq<char>) -> Seq<char> {
    command.push('\n')
}

/// The name of the multiplexer's program.
pub const PROGRAM: &'static str = "tmux";

/// The client as the model sees it.
pub struct ClientView {
    pub session_name: Seq<char>,
    /// What the multiplexer has sent, in the order in which it came.
    pub output: Seq<char>,
    /// The commands that wait to be written, the oldest first.
    pub queue: Seq<Seq<char>>,
    pub closed: bool,
}

impl ClientView {
    /// The queue is within its capacity.
    pub open spec fn wf(self) -> bool {
        self.queue.len() <= QUEUE_CAPACITY
    }

    /// The client of a session that has just been opened.
    pub open spec fn opened(session_name: Seq<char>) -> ClientView {
        ClientView { session_name, output: Seq::empty(), queue: Seq::empty(), closed: false }
    }

    /// What becomes of a command that is offered: the outcome, and the client afterwards. A
    /// closed client refuses it, a full queue puts it off, and otherwise it joins the
    /// queue at its end. A command that is not taken leaves the client as it was.
    pub open spec fn send(self, command: Seq<char>) -> (ClientView, Result<(), SessionError>) {
        if self.closed {
            (self, Err(SessionError::ChannelClosed))
        } else if self.queue.len() >= QUEUE_CAPACITY {
            (self, Err(SessionError::QueueFull))
        } else {
            (ClientView { queue: self.queue.push(command), ..self }, Ok(()))
        }
    }

    /// What becomes of several commands offered one after the other, up to the first that
    /// is not taken: those before it have joined the queue, those after it are not offered.
    pub open spec fn send_all(self, commands: Seq<Seq<char>>) -> (
        ClientView,
        Result<(), SessionError>,
    )
        decreases commands.len(),
    {
        if commands.len() == 0 {
            (self, Ok(()))
        } else {
            let (before, outcome) = self.send_all(commands.drop_last());
            if outcome is Ok {
                before.send(commands.last())
            } else {
                (before, outcome)
            }
        }
    }

    /// Whether there is a line to write: a command waits, and the session has not ended.
    pub open spec fn writes(self) -> bool {
        !self.closed && self.queue.len() > 0
    }

    /// The client after its oldest waiting command has been handed out for writing.
    pub open spec fn written(self) -> ClientView {
        ClientView { queue: self.queue.drop_first(), ..self }
    }

    /// The lines that are still to be written, in the order in which they will be.
    pub open spec fn lines(self) -> Seq<Seq<char>> {
        Seq::new(self.queue.len(), |i: int| line_of(self.queue[i]))
    }
}

/// The client of one multiplexer session.
pub struct TemuxClient {
    session_name: String,
    output: String,
    queue: Vec<String>,
    closed: bool,
}

impl View for TemuxClient {
    type V = ClientView;

    closed spec fn view(&self) -> ClientView {
        ClientView {
            session_name: self.session_name@,
            output: self.output@,
            queue: texts(self.queue@),
            closed: self.closed,
        }
    }
}

impl TemuxClient {
    /// The client's state is one that the model calls well-formed.
    pub closed spec fn wf(&self) -> bool {
        self@.wf()
    }

    /// A well-formed client shows a well-formed state.
    pub proof fn lemma_wf(&self)
        requires
            self.wf(),
        ensures
            self@.wf(),
    {
    }

    /// The client of a session that has just been opened: nothing waits and nothing has
    /// been received.
    pub fn new(session_name: &str) -> (client: TemuxClient)
        ensures
            client.wf(),
            client@ == ClientView::opened(session_name@),
    {
        let client = TemuxClient {
            session_name: session_name.to_owned(),
            output: String::new(),
            queue: Vec::new(),
            closed: false,
        };
        assert(client@.queue =~= Seq::<Seq<char>>::empty());
        client
    }

    /// The name of the session.
    pub fn session_name(&self) -> (name: &String)
        ensures
            name@ == self@.session_name,
    {
        &self.session_name
    }

    /// Everything that the multiplexer has sent so far.
    pub fn output(&self) -> (output: &String)
        ensures
            output@ == self@.output,
    {
        &self.output
    }

    /// Whether the session has ended.
    pub fn is_closed(&self) -> (closed: bool)
        ensures
            closed == self@.closed,
    {
        self.closed
    }

    /// The number of commands that wait to be written.
    pub fn pending(&self) -> (count: usize)
        ensures
            count == self@.queue.len(),
    {
        self.queue.len()
    }

    /// The arguments with which the multiplexer is started for this session: control mode,
    /// and a session of this name that is attached to if it exists and created if not.
    pub fn spawn_arguments(&self) -> (arguments: Vec<String>)
        ensures
            texts(arguments@) == seq![
                "-C"@,
                "new-session"@,
                "-A"@,
                "-s"@,
                self@.session_name,
            ],
    {
        let mut arguments: Vec<String> = Vec::new();
        arguments.push("-C".to_owned());
        arguments.push("new-session".to_owned());
        arguments.push("-A".to_owned());
        arguments.push("-s".to_owned());
        arguments.push(self.session_name.clone());
        assert(texts(arguments@) =~= seq![
            "-C"@,
            "new-session"@,
            "-A"@,
            "-s"@,
            self@.session_name,
        ]);
        arguments
    }

    /// Offers a command for writing.
    pub fn send_command(&mut self, command: &str) -> (outcome: Result<(), SessionError>)
        requires
            old(self).wf(),
        ensures
            final(self).wf(),
            (final(self)@, outcome) == old(self)@.send(command@),
    {
        if self.closed {
            Err(SessionError::ChannelClosed)
        } else if self.queue.len() >= QUEUE_CAPACITY {
            Err(SessionError::QueueFull)
        } else {
            self.queue.push(command.to_owned());
            assert(self@.queue =~= old(self)@.queue.push(command@));
            Ok(())
        }
    }

    /// Hands out the oldest waiting command as the line to write. Nothing is handed out
    /// where no command waits, nor once the session has ended: what waited then is never
    /// written.
    pub fn next_write(&mut self) -> (line: Option<String>)
        requires
            old(self).wf(),
        ensures
            final(self).wf(),
            !old(self)@.writes() ==> line is None && final(self)@ == old(self)@,
            old(self)@.writes() ==> line is Some && line->0@ == line_of(old(self)@.queue[0])
                && final(self)@ == old(self)@.written(),
    {
        if self.closed || self.queue.len() == 0 {
            None
        } else {
            let mut line = self.queue.remove(0);
            line.push('\n');
            assert(self@.queue =~= old(self)@.queue.drop_first());
            Some(line)
        }
    }

    /// Takes in a piece of what the multiplexer has sent, as it came.
    pub fn receive(&mut self, text: &str)
        requires
            old(self).wf(),
        ensures
            final(self).wf(),
            final(self)@ == (ClientView { output: old(self)@.output + text@, ..old(self)@ }),
    {
        self.output.append(text);
    }

    /// Ends the session: from now on no command is taken.
    pub fn close(&mut self)
        requires
            old(self).wf(),
        ensures
            final(self).wf(),
            final(self)@ == (ClientView { closed: true, ..old(self)@ }),
    {
        self.closed = true;
    }

    /// Offers the command that creates a detached session of the given name.
    pub fn create_session(&mut self, session_name: &str) -> (outcome: Result<(), SessionError>)
        requires
            old(self).wf(),
        ensures
            final(self).wf(),
            (final(self)@, outcome) == old(self)@.send(
                with_argument("new-session -d -s "@, session_name@),
            ),
    {
        let command = new_session_command(session_name);
        self.send_command(command.as_str())
    }

    /// Offers the command that creates a window of the given name.
    pub fn create_window(&mut self, window_name: &str) -> (outcome: Result<(), SessionError>)
        requires
            old(self).wf(),
        ensures
            final(self).wf(),
            (final(self)@, outcome) == old(self)@.send(
                with_argument("new-window -n "@, window_name@),
            ),
    {
        let command = new_window_command(window_name);
        self.send_command(command.as_str())
    }

    /// Offers the command that splits the current pane.
    pub fn create_split(&mut self, split_type: SplitType) -> (outcome: Result<(), SessionError>)
        requires
            old(self).wf(),
        ensures
            final(self).wf(),
            (final(self)@, outcome) == old(self)@.send(
                match split_type {
                    SplitType::Horizontal => "split-window -h"@,
                    SplitType::Vertical => "split-window -v"@,
                },
            ),
    {
        let command = split_command(split_type);
        self.send_command(command.as_str())
    }

    /// Offers the command that ends the session of the given name.
    pub fn kill_session(&mut self, session_name: &str) -> (outcome: Result<(), SessionError>)
        requires
            old(self).wf(),
        ensures
            final(self).wf(),
            (final(self)@, outcome) == old(self)@.send(
                with_argument("kill-session -t "@, session_name@),
            ),
    {
        let command = kill_session_command(session_name);
        self.send_command(command.as_str())
    }

    /// Offers the command that detaches the client.
    pub fn detach_client(&mut self) -> (outcome: Result<(), SessionError>)
        requires
            old(self).wf(),
        ensures
            final(self).wf(),
            (final(self)@, outcome) == old(self)@.send("detach-client"@),
    {
        let command = detach_command();
        self.send_command(command.as_str())
    }

    /// Offers the command whose answer describes the windows of this session, one line for
    /// each. Once the answer has had time to arrive, `output` holds what is to be saved.
    pub fn save_session(&mut self) -> (outcome: Result<(), SessionError>)
        requires
            old(self).wf(),
        ensures
            final(self).wf(),
            (final(self)@, outcome) == old(self)@.send(
                with_argument(
                    "list-windows -F \"#{window_index} #{window_name} #{window_layout}\" -t "@,
                    old(self)@.session_name,
                ),
            ),
    {
        let command = capture_command(self.session_name.as_str());
        self.send_command(command.as_str())
    }

    /// Offers, for each record of a saved session, the command that creates its window
    /// and the command that gives it its layout, in the order of the records, and stops at
    /// the first command that is not taken. Lines that are no records are passed over.
    pub fn load_session(&mut self, config: &str) -> (outcome: Result<(), SessionError>)
        requires
            old(self).wf(),
        ensures
            final(self).wf(),
            (final(self)@, outcome) == old(self)@.send_all(session_commands(config@)),
    {
        let commands = restore_commands(config);
        let mut i: usize = 0;
        while i < commands.len()
            invariant
                i <= commands.len(),
                self.wf(),
                texts(commands@) == session_commands(config@),
                (self@, Ok::<(), SessionError>(())) == old(self)@.send_all(
                    texts(commands@).take(i as int),
                ),
            decreases commands.len() - i,
        {
            proof {
                assert(texts(commands@).take(i + 1).drop_last() =~= texts(commands@).take(
                    i as int,
                ));
            }
            match self.send_command(commands[i].as_str()) {
                Ok(()) => {},
                Err(error) => {
                    proof {
                        lemma_send_all_stops(
                            old(self)@,
                            texts(commands@).take(i + 1),
                            texts(commands@),
                        );
                    }
                    return Err(error);
                },
            }
            i += 1;
        }
        proof {
            assert(texts(commands@).take(i as int) =~= texts(commands@));
        }
        Ok(())
    }

    /// Offers the command that makes the window of the given index the current one.
    pub fn select_window(&mut self, window_index: usize) -> (outcome: Result<(), SessionError>)
        requires
            old(self).wf(),
        ensures
            final(self).wf(),
            (final(self)@, outcome) == old(self)@.send(
                with_argument("select-window -t "@, decimal(window_index as nat)),
            ),
    {
        let command = select_window_command(window_index);
        self.send_command(command.as_str())
    }

    /// Offers the command that renames the window of the given index.
    pub fn rename_window(&mut self, window_index: usize, new_name: &str) -> (outcome: Result<
        (),
        SessionError,
    >)
        requires
            old(self).wf(),
        ensures
            final(self).wf(),
            (final(self)@, outcome) == old(self)@.send(
                with_arguments("rename-window -t "@, decimal(window_index as nat), new_name@),
            ),
    {
        let command = rename_window_command(window_index, new_name);
        self.send_command(command.as_str())
    }

    /// Offers the command that lists the windows.
    pub fn list_windows(&mut self) -> (outcome: Result<(), SessionError>)
        requires
            old(self).wf(),
        ensures
            final(self).wf(),
            (final(self)@, outcome) == old(self)@.send("list-windows"@),
    {
        let command = list_windows_command();
        self.send_command(command.as_str())
    }

    /// Offers the command that lists the sessions.
    pub fn list_sessions(&mut self) -> (outcome: Result<(), SessionError>)
        requires
            old(self).wf(),
        ensures
            final(self).wf(),
            (final(self)@, outcome) == old(self)@.send("list-sessions"@),
    {
        let command = list_sessions_command();
        self.send_command(command.as_str())
    }

    /// Offers the command that sends keys to a target pane.
    pub fn send_keys(&mut self, target: &str, keys: &str) -> (outcome: Result<(), SessionError>)
        requires
            old(self).wf(),
        ensures
            final(self).wf(),
            (final(self)@, outcome) == old(self)@.send(
                with_arguments("send-keys -t "@, target@, keys@),
            ),
    {
        let command = send_keys_command(target, keys);
        self.send_command(command.as_str())
    }

    /// Offers the command that sets an option to a value.
    pub fn set_option(&mut self, option: &str, value: &str) -> (outcome: Result<(), SessionError>)
        requires
            old(self).wf(),
        ensures
            final(self).wf(),
            (final(self)@, outcome) == old(self)@.send(
                with_arguments("set-option "@, option@, value@),
            ),
    {
        let command = set_option_command(option, value);
        self.send_command(command.as_str())
    }
}

/// Once a command of a run has not been taken, the rest of the run is not offered: the
/// outcome of the whole run is that of its beginning up to that command.
pub proof fn lemma_send_all_stops(
    client: ClientView,
    beginning: Seq<Seq<char>>,
    commands: Seq<Seq<char>>,
)
    requires
        beginning.len() <= commands.len(),
        beginning == commands.take(beginning.len() as int),
        client.send_all(beginning).1 is Err,
    ensures
        client.send_all(commands) == client.send_all(beginning),
    decreases commands.len(),
{
    if beginning.len() < commands.len() {
        assert(commands.drop_last().take(beginning.len() as int) =~= beginning);
        lemma_send_all_stops(client, beginning, commands.drop_last());
    } else {
        assert(beginning =~= commands);
    }
}

/// Commands leave in the order in which they came, each as one whole line. While the
/// queue has room for all of a run of commands, every one of them is taken, and the lines
/// still to be written are those that were, followed by one line for each command of the
/// run, in the run's order.
pub proof fn lemma_first_in_first_out(client: ClientView, commands: Seq<Seq<char>>)
    requires
        client.wf(),
        !client.closed,
        client.queue.len() + commands.len() <= QUEUE_CAPACITY,
    ensures
        client.send_all(commands).1 is Ok,
        client.send_all(commands).0.wf(),
        client.send_all(commands).0 == (ClientView {
            queue: client.queue + commands,
            ..client
        }),
        client.send_all(commands).0.lines() == client.lines() + Seq::new(
            commands.len(),
            |i: int| line_of(commands[i]),
        ),
    decreases commands.len(),
{
    if commands.len() == 0 {
        assert(client.queue + commands =~= client.queue);
    } else {
        lemma_first_in_first_out(client, commands.drop_last());
        assert(client.queue + commands =~= (client.queue + commands.drop_last()).push(
            commands.last(),
        ));
    }
    assert(client.send_all(commands).0.lines() =~= client.lines() + Seq::new(
        commands.len(),
        |i: int| line_of(commands[i]),
    ));
}

/// Each write takes the first of the lines still to be written and leaves the others, in
/// their order.
pub proof fn lemma_write_takes_first(client: ClientView)
    requires
        client.writes(),
    ensures
        client.lines()[0] == line_of(client.queue[0]),
        client.written().lines() == client.lines().drop_first(),
{
    assert(client.written().lines() =~= client.lines().drop_first());
}

/// A full queue loses nothing. A command offered to it is put off, and the client stays as
/// it was; once one waiting command has been written, the same command is taken and
/// stands last in the queue.
pub proof fn lemma_full_queue_puts_off(client: ClientView, command: Seq<char>)
    requires
        client.wf(),
        !client.closed,
        client.queue.len() == QUEUE_CAPACITY,
    ensures
        client.send(command) == (client, Err::<(), SessionError>(SessionError::QueueFull)),
        client.writes(),
        client.written().send(command).1 is Ok,
        client.written().send(command).0.queue == client.queue.drop_first().push(command),
{
}

} // verus!
