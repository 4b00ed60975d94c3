use frum::commands::completions::{customize_completions, CompletionShell};

#[test]
fn zsh_script_completes_versions() {
    let script = "#compdef frum\n(local)\n'::version:_files' \\\n(install)\n'::configure_opts -- Options passed to ./configure:_files' \\\n'::version:_files' \\\n(global)\n':version:_files' \\\n(uninstall)\n':version:_files' \\\nend\n";
    let expected = "#compdef frum\n(local)\nif [ \"$(frum completions --list)\" != '' ]; then\n    local_args='::version:_values 'version' $(frum completions --list)'\nelse\n    local_args='--version[Prints version information]'\nfi\n\"${local_args}\" \\\n(install)\n'::version:_values 'version' $(frum install -l)' \\\n(global)\n':version:_values 'version' $(frum completions --list)' \\\n(uninstall)\n':version:_values 'version' $(frum completions --list)' \\\nend\n";
    assert_eq!(customize_completions(script, CompletionShell::Zsh), expected);
}

#[test]
fn zsh_lines_outside_subcommands_stay() {
    let script = "':version:_files' \\\nx\n";
    assert_eq!(customize_completions(script, CompletionShell::Zsh), script);
}

#[test]
fn bash_script_completes_versions() {
    let script = "        frum__local)\n            opts=\" -h -V  --help --version  <version> \"\n        frum__install)\n            opts=\" -l -h -V  --list --help --version  <version> \"\n        frum__versions)\n            opts=\" -h -V  --help --version  \"\n";
    let expected = "        frum__local)\n            opts=\" -h -V  --help --version  $(frum completions --list) \"\n        frum__install)\n            opts=\" -l -h -V  --list --help --version  $(frum install -l) \"\n        frum__versions)\n            opts=\" -h -V  --help --version  \"\n";
    assert_eq!(customize_completions(script, CompletionShell::Bash), expected);
}

#[test]
fn text_after_last_newline_is_dropped() {
    assert_eq!(customize_completions("a\nb", CompletionShell::Bash), "a\n");
    assert_eq!(customize_completions("a\nb", CompletionShell::Zsh), "a\n");
    assert_eq!(customize_completions("a\nb", CompletionShell::Other), "a\nb");
}
