use xmake_analysis::builder::XmakeCommandBuilder;
use xmake_analysis::command::{XmakeCommand, XmakeCommandType, XmakeOutput};
use xmake_analysis::error::XmakeError;
use xmake_analysis::formatter::{apply_styles, FormatterContext, XmakeFormatter};
use xmake_analysis::env::{check_match_word, env_check_match_word};
use xmake_analysis::workspace::{Workspace, WorkspaceId};
use xmake_analysis::wrapper::XmakeWrapper;

#[test]
fn test_command_type_words() {
    assert_eq!(XmakeCommandType::Build.as_str(), "build");
    assert_eq!(XmakeCommandType::Clean.as_str(), "clean");
    assert_eq!(XmakeCommandType::Config.as_str(), "config");
    assert_eq!(XmakeCommandType::Install.as_str(), "install");
    assert_eq!(XmakeCommandType::Create.as_str(), "create");
    assert_eq!(XmakeCommandType::Run.as_str(), "run");
    assert_eq!(XmakeCommandType::Version.as_str(), "--version");
    assert_eq!(XmakeCommandType::Help.as_str(), "--help");
    assert_eq!(XmakeCommandType::Show.as_str(), "show");
    assert_eq!(XmakeCommandType::Package.as_str(), "require");
    assert_eq!(XmakeCommandType::Test.as_str(), "test");
    assert_eq!(XmakeCommandType::Custom("lock".to_string()).as_str(), "lock");
}

#[test]
fn test_command_build_args_prepends_word() {
    let cmd = XmakeCommand::new(XmakeCommandType::Build).arg("--verbose").arg("demo");
    let args = cmd.build_args();
    assert_eq!(args, vec!["build".to_string(), "--verbose".to_string(), "demo".to_string()]);
}

#[test]
fn test_command_env_replaces_value() {
    let cmd = XmakeCommand::new(XmakeCommandType::Config)
        .env("CC", "gcc")
        .env("LD", "lld")
        .env("CC", "clang");
    assert_eq!(cmd.env_vars.len(), 2);
    assert_eq!(cmd.env_vars[0], ("CC".to_string(), "clang".to_string()));
    assert_eq!(cmd.env_vars[1], ("LD".to_string(), "lld".to_string()));
}

#[test]
fn test_command_inherit_env_toggle() {
    let cmd = XmakeCommand::new(XmakeCommandType::Run);
    assert!(cmd.inherit_env);
    let cmd = cmd.inherit_env(false);
    assert!(!cmd.inherit_env);
}

#[test]
fn test_output_success_follows_status() {
    let ok = XmakeOutput::new(0, "done".to_string(), String::new());
    assert!(ok.is_success());
    assert_eq!(ok.output_text(), "done");

    let bad = XmakeOutput::new(2, String::new(), "boom".to_string());
    assert!(!bad.is_success());
    assert_eq!(bad.output_text(), "boom");
}

#[test]
fn test_builder_composes_command() {
    let wrapper = XmakeWrapper::new();
    let builder = XmakeCommandBuilder::new(wrapper)
        .command_type(XmakeCommandType::Test)
        .arg("--group")
        .arg("fast")
        .env("XMAKE_COLORTERM", "nocolor");
    let args = builder.command.build_args();
    assert_eq!(args, vec!["test".to_string(), "--group".to_string(), "fast".to_string()]);
    assert_eq!(
        builder.command.env_vars,
        vec![("XMAKE_COLORTERM".to_string(), "nocolor".to_string())]
    );
}

#[test]
fn test_wrapper_convenience_builders() {
    let wrapper = XmakeWrapper::with_path("/opt/xmake/bin/xmake").with_working_dir("/tmp/proj");
    assert_eq!(wrapper.xmake_env, "/opt/xmake/bin/xmake");
    assert_eq!(wrapper.working_dir, Some("/tmp/proj".to_string()));
    assert!(matches!(wrapper.build().command.command_type, XmakeCommandType::Build));
    assert!(matches!(wrapper.clean().command.command_type, XmakeCommandType::Clean));
    assert!(matches!(wrapper.version().command.command_type, XmakeCommandType::Version));
    assert!(matches!(wrapper.package().command.command_type, XmakeCommandType::Package));
    let custom = wrapper.custom("watch");
    match &custom.command.command_type {
        XmakeCommandType::Custom(w) => assert_eq!(w, "watch"),
        _ => panic!("expected a custom command"),
    }
}

#[test]
fn test_error_messages_exact() {
    let e = XmakeError::ExecutionFailed {
        command: "xmake build".to_string(),
        status_code: -1,
        stdout: String::new(),
        stderr: "link failed".to_string(),
    };
    assert_eq!(
        e.message(),
        "Command 'xmake build' failed with status code -1: link failed"
    );
    let t = XmakeError::Timeout { command: "xmake test".to_string(), timeout_secs: 300 };
    assert_eq!(t.message(), "Command 'xmake test' timed out after 300 seconds");
    let nf = XmakeError::XmakeNotFound;
    assert_eq!(
        nf.message(),
        "xmake command not found. Please ensure xmake is installed and in PATH"
    );
    let v = XmakeError::VersionParseError { version_str: "garbage".to_string() };
    assert_eq!(v.message(), "Failed to parse xmake version from string: garbage");
    let io = XmakeError::IoError { message: "broken pipe".to_string() };
    assert_eq!(io.message(), "IO error: broken pipe");
    let wd = XmakeError::InvalidWorkingDirectory { path: "/missing".to_string() };
    assert_eq!(wd.message(), "Invalid working directory: /missing");
    let o = XmakeError::Other { message: "odd".to_string() };
    assert_eq!(o.message(), "Error: odd");
}

#[test]
fn test_workspace_id_partitions() {
    assert!(WorkspaceId { id: 0 }.is_std());
    assert!(WorkspaceId { id: 1 }.is_main());
    assert!(WorkspaceId { id: 2 }.is_library());
    assert!(WorkspaceId { id: 59999 }.is_library());
    assert!(!WorkspaceId { id: 60000 }.is_library());
    assert!(WorkspaceId { id: 60000 }.is_test());
    assert!(WorkspaceId { id: 65000 }.is_import());
    assert!(WorkspaceId { id: 65001 }.is_include());
    assert_eq!(WorkspaceId { id: 0 }.display_name(), "std");
    assert_eq!(WorkspaceId { id: 1 }.display_name(), "main");
    assert_eq!(WorkspaceId { id: 60000 }.display_name(), "test");
    assert_eq!(WorkspaceId { id: 65000 }.display_name(), "import");
    assert_eq!(WorkspaceId { id: 65001 }.display_name(), "include");
    assert_eq!(WorkspaceId { id: 42 }.display_name(), "lib41");
    let w = Workspace::new("/repo".to_string(), WorkspaceId { id: 1 });
    assert_eq!(w.root, "/repo");
    assert!(WorkspaceId { id: 3 } < WorkspaceId { id: 4 });
}

#[test]
fn test_formatter_reset_whitespace() {
    let mut ctx = FormatterContext::new();
    ctx.text = vec!['l', 'o', 'c', 'a', 'l', ' ', ' ', ' '];
    ctx.reset_whitespace();
    assert_eq!(ctx.formatted_text(), "local");

    let mut formatter = XmakeFormatter::new();
    formatter.context.text = vec!['x', ' '];
    apply_styles(&mut formatter);
    assert_eq!(formatter.get_formatted_text(), "x");
}

#[test]
fn test_env_match_word_rules() {
    assert!(env_check_match_word("(", "anything"));
    assert!(env_check_match_word(",", "anything"));
    assert!(env_check_match_word("", "anything"));
    assert!(env_check_match_word("tgt", "target"));
    assert!(!env_check_match_word("xyz", "target"));
    assert!(check_match_word("tr", "target"));
    assert!(!check_match_word("rt", "target"));
    assert!(!check_match_word("tq", "target"));
}
