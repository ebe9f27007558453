use webshell::protocol::TransferData;
use webshell::server::{on_timeout_message, Server, ShellAction};

fn msg(command: &str, value: &str, args: &[&str]) -> TransferData {
    TransferData {
        command: command.to_string(),
        value: value.to_string(),
        args: args.iter().map(|a| a.to_string()).collect(),
    }
}

fn list(ids: &[&str]) -> ShellAction {
    ShellAction::Send(msg("process", "list", ids))
}

#[test]
fn new_shells_are_spawned_and_listed() {
    let mut s = Server::new();
    let acts = s.on_message(&msg("process", "new", &["a", "b"]), 0);
    assert_eq!(
        acts,
        vec![ShellAction::Spawn("a".to_string()), ShellAction::Spawn("b".to_string()), list(&["a", "b"])]
    );
    assert_eq!(s.list_processes(), vec!["a".to_string(), "b".to_string()]);
}

#[test]
fn new_with_a_known_id_replaces_without_duplicating() {
    let mut s = Server::new();
    s.on_message(&msg("process", "new", &["a"]), 0);
    let acts = s.on_message(&msg("process", "new", &["a", "a"]), 0);
    assert_eq!(
        acts,
        vec![ShellAction::Spawn("a".to_string()), ShellAction::Spawn("a".to_string()), list(&["a"])]
    );
    assert_eq!(s.list_processes(), vec!["a".to_string()]);
}

#[test]
fn kill_removes_known_shells_only() {
    let mut s = Server::new();
    s.on_message(&msg("process", "new", &["a", "b"]), 0);
    let acts = s.on_message(&msg("process", "kill", &["a", "c", "a"]), 0);
    assert_eq!(acts, vec![ShellAction::Kill("a".to_string()), list(&["b"])]);
    assert!(!s.has_shell("a"));
    assert!(s.has_shell("b"));
}

#[test]
fn kill_undoes_new() {
    let mut s = Server::new();
    s.on_message(&msg("process", "new", &["x"]), 0);
    s.on_message(&msg("process", "new", &["y", "z"]), 0);
    s.on_message(&msg("process", "kill", &["y", "z"]), 0);
    assert_eq!(s.list_processes(), vec!["x".to_string()]);
}

#[test]
fn list_reply_names_the_registry() {
    let mut s = Server::new();
    assert_eq!(s.on_message(&msg("process", "list", &[]), 0), vec![list(&[])]);
    s.on_message(&msg("process", "new", &["one"]), 0);
    assert_eq!(s.on_message(&msg("process", "list", &["ignored"]), 0), vec![list(&["one"])]);
    assert_eq!(s.process_list_message(), msg("process", "list", &["one"]));
}

#[test]
fn resize_one_or_all_shells() {
    let mut s = Server::new();
    s.on_message(&msg("process", "new", &["a", "b"]), 0);
    assert_eq!(
        s.on_message(&msg("process", "resize", &["b", " 40 ", "120\n"]), 0),
        vec![ShellAction::Resize { id: "b".to_string(), cols: 120, rows: 40 }]
    );
    assert_eq!(
        s.on_message(&msg("process", "resize", &["", "24", "80"]), 0),
        vec![
            ShellAction::Resize { id: "a".to_string(), cols: 80, rows: 24 },
            ShellAction::Resize { id: "b".to_string(), cols: 80, rows: 24 },
        ]
    );
}

#[test]
fn resize_needs_three_arguments_and_numbers() {
    let mut s = Server::new();
    s.on_message(&msg("process", "new", &["a"]), 0);
    assert_eq!(s.on_message(&msg("process", "resize", &["a", "24"]), 0), vec![]);
    assert_eq!(s.on_message(&msg("process", "resize", &["a", "x", "80"]), 0), vec![]);
    assert_eq!(s.on_message(&msg("process", "resize", &["a", "24", "70000"]), 0), vec![]);
    assert_eq!(s.on_message(&msg("process", "resize", &["nope", "24", "80"]), 0), vec![]);
}

#[test]
fn exec_types_joined_arguments_into_a_known_shell() {
    let mut s = Server::new();
    s.on_message(&msg("process", "new", &["a"]), 0);
    assert_eq!(
        s.on_message(&msg("exec", "a", &["ls", "-la\n"]), 0),
        vec![ShellAction::Write { id: "a".to_string(), input: "ls -la\n".to_string() }]
    );
    assert_eq!(s.on_message(&msg("exec", "b", &["ls"]), 0), vec![]);
}

#[test]
fn ping_is_answered_with_both_times() {
    let mut s = Server::new();
    assert_eq!(
        s.on_message(&msg("ping", "conn-1", &["1700000000000"]), 1700000000123),
        vec![ShellAction::Send(msg("ping", "conn-1", &["1700000000000", "1700000000123"]))]
    );
    assert_eq!(Server::handle_ping(&msg("ping", "v", &["+7"]), -3), Some(msg("ping", "v", &["7", "-3"])));
    assert_eq!(Server::handle_ping(&msg("ping", "v", &["soon"]), 1), None);
    assert_eq!(Server::handle_ping(&msg("ping", "v", &[]), 1), None);
}

#[test]
fn only_answerable_pings_need_the_clock() {
    assert!(Server::needs_clock(&msg("ping", "v", &["-15"])));
    assert!(!Server::needs_clock(&msg("ping", "v", &["soon"])));
    assert!(!Server::needs_clock(&msg("ping", "v", &[])));
    assert!(!Server::needs_clock(&msg("process", "list", &["1"])));
}

#[test]
fn unknown_commands_do_nothing() {
    let mut s = Server::new();
    s.on_message(&msg("process", "new", &["a"]), 0);
    assert_eq!(s.on_message(&msg("fs", "list", &["/"]), 0), vec![]);
    assert_eq!(s.on_message(&msg("process", "restart", &["a"]), 0), vec![]);
    assert_eq!(s.list_processes(), vec!["a".to_string()]);
}

#[test]
fn close_kills_every_shell() {
    let mut s = Server::new();
    s.on_message(&msg("process", "new", &["a", "b"]), 0);
    assert_eq!(s.on_close(), vec![ShellAction::Kill("a".to_string()), ShellAction::Kill("b".to_string())]);
    assert_eq!(Server::new().on_close(), vec![]);
}

#[test]
fn shell_output_becomes_an_exec_message() {
    assert_eq!(
        on_timeout_message("a", &vec![], &b"$ ls\r\n".to_vec()),
        Some(msg("exec", "a", &["", "$ ls\r\n"]))
    );
    assert_eq!(
        on_timeout_message("a", &"é".as_bytes().to_vec(), &vec![0xff, 0xfe]),
        Some(msg("exec", "a", &["é", ""]))
    );
    assert_eq!(on_timeout_message("a", &vec![], &vec![]), None);
    assert_eq!(on_timeout_message("a", &vec![0xc3], &vec![]), None);
}
