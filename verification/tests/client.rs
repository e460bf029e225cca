use remux::client::{SessionError, TemuxClient, PROGRAM, QUEUE_CAPACITY};
use remux::command::SplitType;

fn drain(client: &mut TemuxClient) -> Vec<String> {
    let mut lines = Vec::new();
    while let Some(line) = client.next_write() {
        lines.push(line);
    }
    lines
}

#[test]
fn a_new_client_is_open_and_idle() {
    let mut client = TemuxClient::new("session0");
    assert_eq!(client.session_name(), "session0");
    assert_eq!(client.output(), "");
    assert!(!client.is_closed());
    assert_eq!(client.pending(), 0);
    assert_eq!(client.next_write(), None);
}

#[test]
fn the_multiplexer_is_started_in_control_mode() {
    assert_eq!(PROGRAM, "tmux");
    let client = TemuxClient::new("work");
    assert_eq!(client.spawn_arguments(), vec!["-C", "new-session", "-A", "-s", "work"]);
}

#[test]
fn commands_leave_in_the_order_in_which_they_came() {
    let mut client = TemuxClient::new("s");
    assert_eq!(client.send_command("a"), Ok(()));
    assert_eq!(client.send_command("b"), Ok(()));
    assert_eq!(client.send_command("c"), Ok(()));
    assert_eq!(client.pending(), 3);
    assert_eq!(client.next_write(), Some("a\n".to_string()));
    assert_eq!(client.next_write(), Some("b\n".to_string()));
    assert_eq!(client.send_command("d"), Ok(()));
    assert_eq!(client.next_write(), Some("c\n".to_string()));
    assert_eq!(client.next_write(), Some("d\n".to_string()));
    assert_eq!(client.next_write(), None);
    assert_eq!(client.pending(), 0);
}

#[test]
fn each_command_is_one_whole_line() {
    let mut client = TemuxClient::new("s");
    client.send_command("send-keys -t %1 ls Enter").unwrap();
    client.send_command("").unwrap();
    assert_eq!(drain(&mut client), vec!["send-keys -t %1 ls Enter\n", "\n"]);
}

#[test]
fn a_full_queue_puts_a_command_off_without_losing_any() {
    let mut client = TemuxClient::new("s");
    assert_eq!(QUEUE_CAPACITY, 32);
    for i in 0..32 {
        assert_eq!(client.send_command(&format!("c{}", i)), Ok(()));
    }
    assert_eq!(client.pending(), 32);
    assert_eq!(client.send_command("late"), Err(SessionError::QueueFull));
    assert_eq!(client.pending(), 32);
    assert_eq!(client.next_write(), Some("c0\n".to_string()));
    assert_eq!(client.send_command("late"), Ok(()));
    assert_eq!(client.send_command("later"), Err(SessionError::QueueFull));
    let lines = drain(&mut client);
    assert_eq!(lines.len(), 32);
    assert_eq!(lines[0], "c1\n");
    assert_eq!(lines[30], "c31\n");
    assert_eq!(lines[31], "late\n");
}

#[test]
fn a_closed_client_takes_no_command() {
    let mut client = TemuxClient::new("s");
    client.send_command("before").unwrap();
    client.close();
    assert!(client.is_closed());
    assert_eq!(client.send_command("after"), Err(SessionError::ChannelClosed));
    assert_eq!(client.create_window("w"), Err(SessionError::ChannelClosed));
    assert_eq!(client.pending(), 1);
    client.close();
    assert!(client.is_closed());
}

#[test]
fn a_closed_client_writes_nothing_more() {
    let mut client = TemuxClient::new("s");
    client.send_command("first").unwrap();
    client.send_command("second").unwrap();
    assert_eq!(client.next_write(), Some("first\n".to_string()));
    client.close();
    assert_eq!(client.next_write(), None);
    assert_eq!(client.pending(), 1);
}

#[test]
fn a_closed_client_with_a_full_queue_reports_the_closing() {
    let mut client = TemuxClient::new("s");
    for _ in 0..32 {
        client.send_command("x").unwrap();
    }
    client.close();
    assert_eq!(client.send_command("y"), Err(SessionError::ChannelClosed));
}

#[test]
fn output_gathers_in_the_order_received() {
    let mut client = TemuxClient::new("s");
    client.receive("%begin 1 2 0\n");
    client.receive("0: bash\n");
    client.receive("");
    client.receive("%end 1 2 0\n");
    assert_eq!(client.output(), "%begin 1 2 0\n0: bash\n%end 1 2 0\n");
    client.close();
    client.receive("late\n");
    assert_eq!(client.output(), "%begin 1 2 0\n0: bash\n%end 1 2 0\nlate\n");
}

#[test]
fn convenience_operations_offer_their_commands() {
    let mut client = TemuxClient::new("main");
    client.create_session("work").unwrap();
    client.create_window("logs").unwrap();
    client.create_split(SplitType::Horizontal).unwrap();
    client.create_split(SplitType::Vertical).unwrap();
    client.kill_session("old").unwrap();
    client.detach_client().unwrap();
    client.select_window(2).unwrap();
    client.rename_window(10, "build").unwrap();
    client.list_windows().unwrap();
    client.list_sessions().unwrap();
    client.send_keys("%3", "q").unwrap();
    client.set_option("mouse", "on").unwrap();
    assert_eq!(
        drain(&mut client),
        vec![
            "new-session -d -s work\n",
            "new-window -n logs\n",
            "split-window -h\n",
            "split-window -v\n",
            "kill-session -t old\n",
            "detach-client\n",
            "select-window -t 2\n",
            "rename-window -t 10 build\n",
            "list-windows\n",
            "list-sessions\n",
            "send-keys -t %3 q\n",
            "set-option mouse on\n",
        ]
    );
}

#[test]
fn saving_asks_for_the_windows_of_the_session() {
    let mut client = TemuxClient::new("session0");
    assert_eq!(client.save_session(), Ok(()));
    assert_eq!(
        drain(&mut client),
        vec!["list-windows -F \"#{window_index} #{window_name} #{window_layout}\" -t session0\n"]
    );
}

#[test]
fn loading_offers_two_commands_for_each_record() {
    let mut client = TemuxClient::new("s");
    assert_eq!(client.load_session("0 editor tiled\nbroken line\n1 shell wide\n"), Ok(()));
    assert_eq!(
        drain(&mut client),
        vec![
            "new-window -n editor\n",
            "select-layout tiled\n",
            "new-window -n shell\n",
            "select-layout wide\n",
        ]
    );
}

#[test]
fn loading_what_was_saved_restores_every_window() {
    let mut client = TemuxClient::new("s");
    client.save_session().unwrap();
    drain(&mut client);
    client.receive("0 editor c3f1,80x24,0,0,0\n");
    client.receive("1 shell c3f2,80x24,0,0,1\n");
    let saved = client.output().clone();
    let mut restored = TemuxClient::new("s");
    assert_eq!(restored.load_session(&saved), Ok(()));
    assert_eq!(
        drain(&mut restored),
        vec![
            "new-window -n editor\n",
            "select-layout c3f1,80x24,0,0,0\n",
            "new-window -n shell\n",
            "select-layout c3f2,80x24,0,0,1\n",
        ]
    );
}

#[test]
fn loading_stops_at_the_first_command_that_is_not_taken() {
    let mut client = TemuxClient::new("s");
    for _ in 0..29 {
        client.send_command("x").unwrap();
    }
    assert_eq!(
        client.load_session("0 a b\n1 c d\n2 e f\n"),
        Err(SessionError::QueueFull)
    );
    let lines = drain(&mut client);
    assert_eq!(lines.len(), 32);
    assert_eq!(lines[29], "new-window -n a\n");
    assert_eq!(lines[30], "select-layout b\n");
    assert_eq!(lines[31], "new-window -n c\n");
}

#[test]
fn loading_into_a_closed_client_fails_at_once() {
    let mut client = TemuxClient::new("s");
    client.close();
    assert_eq!(client.load_session("0 a b\n"), Err(SessionError::ChannelClosed));
    assert_eq!(client.pending(), 0);
    assert_eq!(client.load_session("no records\n"), Ok(()));
}
