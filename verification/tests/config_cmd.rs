use doclib::commands::config_cmd::{
    choose_editor, command_parts, first_line, is_remote_assignment, prepare_stores, stores_line,
    with_stores_line,
};
use doclib::config::ConfigError;

#[test]
fn recognises_a_real_assignment() {
    assert!(is_remote_assignment("stores = [\"/home/you/library\"]"));
    assert!(is_remote_assignment("remotes = [\"gdrive:doclib\"]"));
    assert!(is_remote_assignment("remote = \"gdrive:doclib\""));
    assert!(is_remote_assignment("remote=\"x\""));
    assert!(is_remote_assignment("  remote  =  \"x\""));
}

#[test]
fn ignores_commented_examples_and_other_keys() {
    // The header documents `remote = "gdrive:doclib"` inside a comment;
    // rewriting that line instead of the real one would silently do nothing.
    assert!(!is_remote_assignment("#     remote = \"gdrive:doclib\""));
    assert!(!is_remote_assignment("# remote"));
    assert!(!is_remote_assignment("remote_path = \"x\""));
    assert!(!is_remote_assignment("cache_max_bytes = 1"));
}

#[test]
fn only_the_first_assignment_is_rewritten() {
    let text = "# stores = [\"example\"]\nstores = [\"/old\"]\ncache_max_bytes = 0\nremote = \"/x\"\n";
    let out = with_stores_line(text, "stores = [\"/new\"]");
    assert_eq!(
        out,
        "# stores = [\"example\"]\nstores = [\"/new\"]\ncache_max_bytes = 0\nremote = \"/x\"\n"
    );
}

#[test]
fn a_missing_assignment_is_added_at_the_end() {
    let out = with_stores_line("cache_max_bytes = 0\r\n\n[openers]", "stores = []");
    assert_eq!(out, "cache_max_bytes = 0\n\n[openers]\nstores = []\n");
    assert_eq!(with_stores_line("", "stores = []"), "stores = []\n");
}

#[test]
fn the_stores_line_is_toml() {
    let line = stores_line(&vec!["/a".to_string(), "/b c".to_string()]);
    assert!(line.starts_with("stores = ["), "got {line}");
    assert!(line.contains("\"/a\""), "got {line}");
    assert!(line.contains("\"/b c\""), "got {line}");
    assert!(line.ends_with(']'), "got {line}");
}

#[test]
fn requested_stores_are_expanded_and_checked() {
    let ok = prepare_stores(&vec!["~/lib".to_string(), "/mnt/usb".to_string()], Some("/home/you"))
        .unwrap();
    assert_eq!(ok, vec!["/home/you/lib".to_string(), "/mnt/usb".to_string()]);
    let err = prepare_stores(&vec!["/a".to_string(), "gdrive:x".to_string()], Some("/h"));
    assert!(matches!(err, Err(ConfigError::RcloneRemote { .. })));
}

#[test]
fn first_line_of_an_error() {
    assert_eq!(first_line("one\ntwo"), "one");
    assert_eq!(first_line(""), "unavailable");
}

#[test]
fn the_editor_falls_back_in_order() {
    assert_eq!(choose_editor(Some("code --wait"), Some("nano")), "code --wait");
    assert_eq!(choose_editor(Some("  "), Some("nano")), "nano");
    assert_eq!(choose_editor(None, Some("")), "vi");
}

#[test]
fn a_command_splits_into_program_and_arguments() {
    let (program, args) = command_parts("  emacs  -nw ", "vi");
    assert_eq!(program, "emacs");
    assert_eq!(args, vec!["-nw".to_string()]);
    let (program, args) = command_parts("   ", "xdg-open");
    assert_eq!(program, "xdg-open");
    assert!(args.is_empty());
}
