use fzh::request::{import_refused, parse_request, Request};

fn request(args: &[&str]) -> Request {
    let args: Vec<String> = args.iter().map(|arg| arg.to_string()).collect();
    parse_request(&args)
}

#[test]
fn add_takes_the_command() {
    assert!(matches!(request(&["fzh", "add", "0:ls"]), Request::Add(command) if command == "0:ls"));
    assert!(matches!(request(&["fzh", "add"]), Request::Add(command) if command.is_empty()));
}

#[test]
fn search_takes_two_texts() {
    match request(&["fzh", "search", "/dev/fd/3", "git"]) {
        Request::Search {
            fd_path,
            initial_input,
        } => {
            assert_eq!(fd_path, "/dev/fd/3");
            assert_eq!(initial_input, "git");
        }
        _ => panic!(),
    }
    match request(&["fzh", "search"]) {
        Request::Search {
            fd_path,
            initial_input,
        } => {
            assert_eq!(fd_path, "");
            assert_eq!(initial_input, "");
        }
        _ => panic!(),
    }
}

#[test]
fn import_wants_a_supported_shell() {
    assert!(matches!(
        request(&["fzh", "import", "zsh"]),
        Request::Import { path: None }
    ));
    assert!(matches!(
        request(&["fzh", "import", "zsh", "history"]),
        Request::Import { path: Some(path) } if path == "history"
    ));
    assert!(matches!(request(&["fzh", "import"]), Request::UnsupportedShell));
    assert!(matches!(
        request(&["fzh", "import", "bash", "history"]),
        Request::UnsupportedShell
    ));
}

#[test]
fn init_wants_a_supported_shell() {
    assert!(matches!(request(&["fzh", "init", "zsh"]), Request::Init));
    assert!(matches!(request(&["fzh", "init", "fish"]), Request::UnsupportedShell));
}

#[test]
fn other_requests() {
    assert!(matches!(request(&["fzh", "delete_index"]), Request::DeleteIndex));
    assert!(matches!(request(&["fzh", "ADD", "0:ls"]), Request::Help));
    assert!(matches!(request(&["fzh", "help"]), Request::Help));
    assert!(matches!(request(&["fzh"]), Request::Help));
    assert!(matches!(request(&[]), Request::Help));
}

#[test]
fn import_is_refused_where_there_is_nothing() {
    assert!(!import_refused(true));
    assert!(import_refused(false));
}
