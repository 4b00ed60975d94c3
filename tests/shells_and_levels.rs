use frum::log::LogLevel;
use frum::shell::{shells_as_string, Bash, Fish, PowerShell, WindowsCommand, Zsh};

#[test]
fn lists_shells() {
    assert_eq!(shells_as_string(), "* bash\n* zsh\n* fish\n* powershell");
}

#[test]
fn bash_and_zsh_lines() {
    assert_eq!(Bash.set_env_var("FRUM_DIR", "/home/me/.frum"), "export FRUM_DIR=\"/home/me/.frum\"");
    assert_eq!(Zsh.path("/tmp/frum_1/bin"), "export PATH=\"/tmp/frum_1/bin\":$PATH");
    assert_eq!(Bash.set_env_var("X", "a\"b"), "export X=\"a\\\"b\"");
    assert!(Bash.use_on_cd().contains("frum --log-level quiet local"));
    assert!(Zsh.use_on_cd().starts_with("autoload -U add-zsh-hook\n"));
}

#[test]
fn fish_lines() {
    assert_eq!(Fish.path("/p"), "set -gx PATH \"/p\" $PATH;");
    assert_eq!(Fish.set_env_var("A", "b"), "set -gx A \"b\";");
    assert!(Fish.use_on_cd().ends_with("    frum local\nend\n"));
}

#[test]
fn powershell_and_cmd_lines() {
    assert_eq!(PowerShell.set_env_var("A", "b"), "$env:A = \"b\"");
    assert!(PowerShell.use_on_cd().contains("& frum local"));
    assert_eq!(WindowsCommand.set_env_var("A", "b"), "SET A=b");
    assert_eq!(WindowsCommand.path("C:\\x;C:\\y"), "SET PATH=C:\\x;C:\\y");
}

#[test]
fn log_levels_by_name() {
    assert_eq!(LogLevel::from_str("quiet"), Ok(LogLevel::Quiet));
    assert_eq!(LogLevel::from_str("info"), Ok(LogLevel::Info));
    assert_eq!(LogLevel::from_str("all"), Ok(LogLevel::Info));
    assert_eq!(LogLevel::from_str("error"), Ok(LogLevel::Error));
    assert_eq!(LogLevel::from_str("loud"), Err("I don't know the log level of \"loud\"".to_string()));
    assert_eq!(LogLevel::Quiet.as_str(), "quiet");
    assert_eq!(LogLevel::Error.as_str(), "error");
    assert_eq!(LogLevel::Info.as_str(), "info");
}
