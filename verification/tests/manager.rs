use remux::manager::SessionManager;

fn sorted(mut names: Vec<String>) -> Vec<String> {
    names.sort();
    names
}

#[test]
fn a_new_manager_has_no_sessions() {
    let manager = SessionManager::new();
    assert_eq!(manager.list_sessions(), Vec::<String>::new());
    assert_eq!(
        manager.send_command("any", "list-windows"),
        Err("Session 'any' not found".to_string())
    );
}

#[test]
fn added_sessions_are_listed_once_each() {
    let mut manager = SessionManager::new();
    manager.add_session("one");
    manager.add_session("two");
    manager.add_session("one");
    manager.add_session("three");
    assert_eq!(sorted(manager.list_sessions()), vec!["one", "three", "two"]);
}

#[test]
fn commands_are_accepted_for_open_sessions_only() {
    let mut manager = SessionManager::new();
    manager.add_session("one");
    assert_eq!(manager.send_command("one", "list-windows"), Ok(()));
    assert_eq!(
        manager.send_command("two", "list-windows"),
        Err("Session 'two' not found".to_string())
    );
    assert_eq!(manager.send_command("", "x"), Err("Session '' not found".to_string()));
}

#[test]
fn removing_closes_a_session_by_name() {
    let mut manager = SessionManager::new();
    manager.add_session("one");
    manager.add_session("two");
    manager.add_session("three");
    assert_eq!(manager.remove_session("two"), Ok(()));
    assert_eq!(sorted(manager.list_sessions()), vec!["one", "three"]);
    assert_eq!(
        manager.remove_session("two"),
        Err("Session 'two' not found".to_string())
    );
    assert_eq!(sorted(manager.list_sessions()), vec!["one", "three"]);
    assert_eq!(
        manager.send_command("two", "x"),
        Err("Session 'two' not found".to_string())
    );
    assert_eq!(manager.remove_session("one"), Ok(()));
    assert_eq!(manager.remove_session("three"), Ok(()));
    assert_eq!(manager.list_sessions(), Vec::<String>::new());
}
