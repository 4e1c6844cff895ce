use c3_extension::server::{language_server_command, server_binary_name, Command};

#[test]
fn looks_up_c3lsp() {
    assert_eq!(server_binary_name(), "c3lsp");
}

#[test]
fn found_executable_is_the_command() {
    let command = language_server_command(Some("/usr/local/bin/c3lsp".to_string()));
    assert_eq!(
        command,
        Ok(Command { command: "/usr/local/bin/c3lsp".to_string(), args: vec![], env: vec![] })
    );
}

#[test]
fn found_path_is_kept_as_it_is() {
    for path in ["c3lsp", "", "C:\\tools\\c3lsp.exe", "/opt/größe/c3lsp"] {
        let command = language_server_command(Some(path.to_string())).expect("a command");
        assert_eq!(command.command, path);
        assert!(command.args.is_empty());
        assert!(command.env.is_empty());
    }
}

#[test]
fn missing_executable_is_reported() {
    let failure = language_server_command(None);
    assert_eq!(failure, Err("c3lsp must be in your path".to_string()));
    assert!(!failure.unwrap_err().is_empty());
}
