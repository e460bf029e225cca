//! The command lines of the multiplexer's control mode: each is a fixed word, its flags and
//! its arguments, separated by single spaces.

use vstd::prelude::*;
use vstd::string::StringExecFns;

verus! {

/// How a pane is divided when a new split is opened.
#[derive(Clone, Copy, Debug, PartialEq, Eq, Structural)]
pub enum SplitType {
    Horizontal,
    Vertical,
}

/// The character of a decimal digit.
pub open spec fn digit_char(digit: nat) -> char
    recommends
        digit < 10,
{
    (0x30 + digit) as u8 as char
}

/// A number written in decimal, without sign and without leading zeros.
pub open spec fn decimal(n: nat) -> Seq<char>
    decreases n,
{
    if n < 10 {
        seq![digit_char(n)]
    } else {
        decimal(n / 10).push(digit_char(n % 10))
    }
}

/// The text of a command made of a fixed beginning and one argument.
pub open spec fn with_argument(head: Seq<char>, argument: Seq<char>) -> Seq<char> {
    head + argument
}

/// The text of a command made of a fixed beginning and two arguments, a space between them.
pub open spec fn with_arguments(head: Seq<char>, first: Seq<char>, second: Seq<char>) -> Seq<
    char,
> {
    head + first + seq![' '] + second
}

/// Appends a number in decimal to a text.
pub fn push_decimal(text: &mut String, n: usize)
    ensures
        final(text)@ == old(text)@ + decimal(n as nat),
    decreases n,
{
    if n >= 10 {
        push_decimal(text, n / 10);
    }
    let digit: u8 = (n % 10) as u8;
    text.push((0x30 + digit) as char);
    proof {
        if n >= 10 {
            assert(text@ =~= old(text)@ + decimal(n as nat));
        } else {
            assert(text@ =~= old(text)@ + decimal(n as nat));
        }
    }
}

/// A command made of a fixed beginning and one argument.
fn command_with(head: &str, argument: &str) -> (command: String)
    ensures
        command@ == with_argument(head@, argument@),
{
    let mut command = head.to_owned();
    command.append(argument);
    command
}

/// A command made of a fixed beginning and two arguments.
fn command_with_two(head: &str, first: &str, second: &str) -> (command: String)
    ensures
        command@ == with_arguments(head@, first@, second@),
{
    let mut command = head.to_owned();
    command.append(first);
    command.push(' ');
    command.append(second);
    command
}

/// The command that creates a detached session of the given name.
pub fn new_session_command(session_name: &str) -> (command: String)
    ensures
        command@ == with_argument("new-session -d -s "@, session_name@),
{
    command_with("new-session -d -s ", session_name)
}

/// The command that creates a window of the given name.
pub fn new_window_command(window_name: &str) -> (command: String)
    ensures
        command@ == with_argument("new-window -n "@, window_name@),
{
    command_with("new-window -n ", window_name)
}

/// The command that splits the current pane: `-h` side by side, `-v` one above the other.
pub fn split_command(split_type: SplitType) -> (command: String)
    ensures
        command@ == (match split_type {
            SplitType::Horizontal => "split-window -h"@,
            SplitType::Vertical => "split-window -v"@,
        }),
{
    match split_type {
        SplitType::Horizontal => "split-window -h".to_owned(),
        SplitType::Vertical => "split-window -v".to_owned(),
    }
}

/// The command that ends the session of the given name.
pub fn kill_session_command(session_name: &str) -> (command: String)
    ensures
        command@ == with_argument("kill-session -t "@, session_name@),
{
    command_with("kill-session -t ", session_name)
}

/// The command that detaches the client.
pub fn detach_command() -> (command: String)
    ensures
        command@ == "detach-client"@,
{
    "detach-client".to_owned()
}

/// The command that lists the windows of a session, one line for each: its index, its name
/// and its layout.
pub fn capture_command(session_name: &str) -> (command: String)
    ensures
        command@ == with_argument(
            "list-windows -F \"#{window_index} #{window_name} #{window_layout}\" -t "@,
            session_name@,
        ),
{
    command_with(
        "list-windows -F \"#{window_index} #{window_name} #{window_layout}\" -t ",
        session_name,
    )
}

/// The command that gives the current window the given layout.
pub fn select_layout_command(layout: &str) -> (command: String)
    ensures
        command@ == with_argument("select-layout "@, layout@),
{
    command_with("select-layout ", layout)
}

/// The command that makes the window of the given index the current one.
pub fn select_window_command(window_index: usize) -> (command: String)
    ensures
        command@ == with_argument("select-window -t "@, decimal(window_index as nat)),
{
    let mut command = "select-window -t ".to_owned();
    push_decimal(&mut command, window_index);
    command
}

/// The command that renames the window of the given index.
pub fn rename_window_command(window_index: usize, new_name: &str) -> (command: String)
    ensures
        command@ == with_arguments(
            "rename-window -t "@,
            decimal(window_index as nat),
            new_name@,
        ),
{
    let mut command = "rename-window -t ".to_owned();
    push_decimal(&mut command, window_index);
    command.push(' ');
    command.append(new_name);
    command
}

/// The command that lists the windows.
pub fn list_windows_command() -> (command: String)
    ensures
        command@ == "list-windows"@,
{
    "list-windows".to_owned()
}

/// The command that lists the sessions.
pub fn list_sessions_command() -> (command: String)
    ensures
        command@ == "list-sessions"@,
{
    "list-sessions".to_owned()
}

/// The command that sends keys to a target pane.
pub fn send_keys_command(target: &str, keys: &str) -> (command: String)
    ensures
        command@ == with_arguments("send-keys -t "@, target@, keys@),
{
    command_with_two("send-keys -t ", target, keys)
}

/// The command that sets an option to a value.
pub fn set_option_command(option: &str, value: &str) -> (command: String)
    ensures
        command@ == with_arguments("set-option "@, option@, value@),
{
    command_with_two("set-option ", option, value)
}

} // verus!
