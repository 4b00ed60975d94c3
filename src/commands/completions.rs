//! Shell completion scripts: the generated script is rewritten so that the
//! version arguments complete with installed or downloadable versions.
use vstd::prelude::*;
use vstd::string::*;
use crate::remote_ruby_index::{char_index, find_char};
use crate::text::{chars_of, is_white_space, is_white_space_char, text_eq};

verus! {

/// The shells whose generated script is rewritten; any other is printed as
/// it is.
#[derive(Debug, Clone, Copy, PartialEq, Eq, Structural)]
pub enum CompletionShell {
    Zsh,
    Bash,
    Other,
}

/// The subcommand whose part of the script a line belongs to.
#[derive(Debug, Clone, Copy, PartialEq, Eq, Structural)]
pub enum FrumCommand {
    Install,
    Uninstall,
    Local,
    Global,
    Other,
}

/// The start of the options line that bash completion writes for `local`,
/// `global` and `uninstall`.
pub open spec fn use_opts() -> Seq<char> {
    "opts=\" -h -V  --help --version  "@
}

/// The start of the options line that bash completion writes for `install`.
pub open spec fn install_opts() -> Seq<char> {
    "opts=\" -l -h -V  --list --help --version  "@
}

pub open spec fn ends_with(s: Seq<char>, suffix: Seq<char>) -> bool {
    suffix.len() <= s.len() && s.subrange(s.len() - suffix.len(), s.len() as int) == suffix
}

pub open spec fn zsh_state(line: Seq<char>, prev: FrumCommand) -> FrumCommand {
    if line == "(local)"@ {
        FrumCommand::Local
    } else if line == "(global)"@ {
        FrumCommand::Global
    } else if line == "(install)"@ {
        FrumCommand::Install
    } else if line == "(uninstall)"@ {
        FrumCommand::Uninstall
    } else {
        prev
    }
}

pub open spec fn bash_state(line: Seq<char>, prev: FrumCommand) -> FrumCommand {
    if ends_with(line, "frum__local)"@) {
        FrumCommand::Local
    } else if ends_with(line, "frum__global)"@) {
        FrumCommand::Global
    } else if ends_with(line, "frum__install)"@) {
        FrumCommand::Install
    } else if ends_with(line, "frum__uninstall)"@) {
        FrumCommand::Uninstall
    } else {
        prev
    }
}

pub open spec fn zsh_local_header() -> Seq<char> {
    "(local)\nif [ \"$(frum completions --list)\" != '' ]; then\n    local_args='::version:_values 'version' $(frum completions --list)'\nelse\n    local_args='--version[Prints version information]'\nfi"@
}

/// What a zsh line becomes in the part of `state`; `None` drops it.
pub open spec fn zsh_line(state: FrumCommand, line: Seq<char>) -> Option<Seq<char>> {
    match state {
        FrumCommand::Local => if line == "(local)"@ {
            Some(zsh_local_header())
        } else if line == "'::version:_files' \\"@ {
            Some("\"${local_args}\" \\"@)
        } else {
            Some(line)
        },
        FrumCommand::Global | FrumCommand::Uninstall => if line == "':version:_files' \\"@ {
            Some("':version:_values 'version' $(frum completions --list)' \\"@)
        } else {
            Some(line)
        },
        FrumCommand::Install => if line == "'::configure_opts -- Options passed to ./configure:_files' \\"@ {
            None
        } else if line == "'::version:_files' \\"@ {
            Some("'::version:_values 'version' $(frum install -l)' \\"@)
        } else {
            Some(line)
        },
        FrumCommand::Other => Some(line),
    }
}

/// `pattern` occurs in `line` at `k`, right after a white-space character.
pub open spec fn occurs_after_space(line: Seq<char>, pattern: Seq<char>, k: int) -> bool {
    1 <= k && k + pattern.len() <= line.len() && is_white_space(line[k - 1]) && line.subrange(
        k,
        k + pattern.len(),
    ) == pattern
}

/// The first `k` at or after `from` where `pattern` occurs right after a
/// white-space character, or the length of `line` where there is none.
pub open spec fn first_occurrence(line: Seq<char>, pattern: Seq<char>, from: int) -> int
    decreases line.len() - from,
{
    if from >= line.len() {
        line.len() as int
    } else if occurs_after_space(line, pattern, from) {
        from
    } else {
        first_occurrence(line, pattern, from + 1)
    }
}

/// The start of the run of white space that ends at `k`.
pub open spec fn space_run_start(line: Seq<char>, k: int) -> int
    decreases k,
{
    if k <= 0 || !is_white_space(line[k - 1]) {
        k
    } else {
        space_run_start(line, k - 1)
    }
}

/// A bash options line rewritten to complete versions with the output of
/// `source`: the white space before the options is kept, the rest of the
/// line replaced.
pub open spec fn bash_rewrite(line: Seq<char>, opts: Seq<char>, source: Seq<char>) -> Seq<char> {
    let k = first_occurrence(line, opts + "<version> "@, 0);
    if k >= line.len() {
        line
    } else {
        line.subrange(space_run_start(line, k), k) + opts + source
    }
}

pub open spec fn bash_line(state: FrumCommand, line: Seq<char>) -> Seq<char> {
    match state {
        FrumCommand::Install => bash_rewrite(line, install_opts(), "$(frum install -l) \""@),
        FrumCommand::Other => line,
        _ => bash_rewrite(line, use_opts(), "$(frum completions --list) \""@),
    }
}

/// The rewritten script from position `p` of `t` on, in the part of
/// `state`: each line that ends with a newline is rewritten and ended with a
/// newline; what follows the last newline is dropped.
pub open spec fn rewrite_from(t: Seq<char>, p: int, state: FrumCommand, shell: CompletionShell) -> Seq<char>
    decreases t.len() - p,
{
    let e = char_index(t, '\n', p);
    if p < 0 || p > t.len() || e >= t.len() || e < p {
        seq![]
    } else {
        let line = t.subrange(p, e);
        if shell == CompletionShell::Zsh {
            let st = zsh_state(line, state);
            match zsh_line(st, line) {
                Some(out) => out + seq!['\n'] + rewrite_from(t, e + 1, st, shell),
                None => rewrite_from(t, e + 1, st, shell),
            }
        } else {
            let st = bash_state(line, state);
            bash_line(st, line) + seq!['\n'] + rewrite_from(t, e + 1, st, shell)
        }
    }
}

/// What `customize_completions` gives for a generated script.
pub open spec fn customized(script: Seq<char>, shell: CompletionShell) -> Seq<char> {
    if shell == CompletionShell::Other {
        script
    } else {
        rewrite_from(script, 0, FrumCommand::Other, shell)
    }
}

fn ends_with_text(s: &str, suffix: &str) -> (r: bool)
    ensures
        r == ends_with(s@, suffix@),
{
    let n = s.unicode_len();
    let m = suffix.unicode_len();
    if m > n {
        return false;
    }
    text_eq(s.substring_char(n - m, n), suffix)
}

fn zsh_state_of(line: &str, prev: FrumCommand) -> (r: FrumCommand)
    ensures
        r == zsh_state(line@, prev),
{
    if text_eq(line, "(local)") {
        FrumCommand::Local
    } else if text_eq(line, "(global)") {
        FrumCommand::Global
    } else if text_eq(line, "(install)") {
        FrumCommand::Install
    } else if text_eq(line, "(uninstall)") {
        FrumCommand::Uninstall
    } else {
        prev
    }
}

fn bash_state_of(line: &str, prev: FrumCommand) -> (r: FrumCommand)
    ensures
        r == bash_state(line@, prev),
{
    if ends_with_text(line, "frum__local)") {
        FrumCommand::Local
    } else if ends_with_text(line, "frum__global)") {
        FrumCommand::Global
    } else if ends_with_text(line, "frum__install)") {
        FrumCommand::Install
    } else if ends_with_text(line, "frum__uninstall)") {
        FrumCommand::Uninstall
    } else {
        prev
    }
}

pub open spec fn option_text(r: Option<String>) -> Option<Seq<char>> {
    match r {
        Some(s) => Some(s@),
        None => None,
    }
}

fn zsh_line_of(state: FrumCommand, line: &str) -> (r: Option<String>)
    ensures
        option_text(r) == zsh_line(state, line@),
{
    match state {
        FrumCommand::Local => if text_eq(line, "(local)") {
            Some(
                String::from_str(
                    "(local)\nif [ \"$(frum completions --list)\" != '' ]; then\n    local_args='::version:_values 'version' $(frum completions --list)'\nelse\n    local_args='--version[Prints version information]'\nfi",
                ),
            )
        } else if text_eq(line, "'::version:_files' \\") {
            Some(String::from_str("\"${local_args}\" \\"))
        } else {
            Some(String::from_str(line))
        },
        FrumCommand::Global | FrumCommand::Uninstall => if text_eq(line, "':version:_files' \\") {
            Some(String::from_str("':version:_values 'version' $(frum completions --list)' \\"))
        } else {
            Some(String::from_str(line))
        },
        FrumCommand::Install => if text_eq(
            line,
            "'::configure_opts -- Options passed to ./configure:_files' \\",
        ) {
            None
        } else if text_eq(line, "'::version:_files' \\") {
            Some(String::from_str("'::version:_values 'version' $(frum install -l)' \\"))
        } else {
            Some(String::from_str(line))
        },
        FrumCommand::Other => Some(String::from_str(line)),
    }
}

fn occurs_after_space_at(line: &Vec<char>, pattern: &Vec<char>, k: usize) -> (r: bool)
    ensures
        r == occurs_after_space(line@, pattern@, k as int),
{
    if k < 1 || k > line.len() || pattern.len() > line.len() - k {
        return false;
    }
    if !is_white_space_char(line[k - 1]) {
        return false;
    }
    let mut i: usize = 0;
    let lim = line.len();
    while i < pattern.len()
        invariant
            lim == line@.len(),
            i <= pattern@.len(),
            k + pattern@.len() <= line@.len(),
            1 <= k,
            is_white_space(line@[k - 1]),
            line@.subrange(k as int, k + i) == pattern@.subrange(0, i as int),
        decreases pattern@.len() - i,
    {
        if line[k + i] != pattern[i] {
            assert(line@.subrange(k as int, k + pattern@.len())[i as int] == line@[k + i]);
            return false;
        }
        assert(line@.subrange(k as int, k + i + 1) =~= line@.subrange(k as int, k + i).push(line@[k + i]));
        assert(pattern@.subrange(0, i + 1) =~= pattern@.subrange(0, i as int).push(pattern@[i as int]));
        i += 1;
    }
    assert(pattern@.subrange(0, i as int) =~= pattern@);
    true
}

fn bash_rewrite_of(line: &str, opts: &str, source: &str) -> (r: String)
    ensures
        r@ == bash_rewrite(line@, opts@, source@),
{
    let chars = chars_of(line);
    let mut pat = String::from_str(opts);
    pat.append("<version> ");
    let pattern = chars_of(pat.as_str());
    let n = chars.len();
    let mut k: usize = 0;
    while k < n && !occurs_after_space_at(&chars, &pattern, k)
        invariant
            k <= n,
            n == line@.len(),
            chars@ == line@,
            pattern@ == opts@ + "<version> "@,
            first_occurrence(line@, pattern@, 0) == first_occurrence(line@, pattern@, k as int),
        decreases n - k,
    {
        k += 1;
    }
    if k >= n {
        return String::from_str(line);
    }
    let mut j: usize = k;
    while j > 0 && is_white_space_char(chars[j - 1])
        invariant
            j <= k,
            k < n,
            n == line@.len(),
            chars@ == line@,
            space_run_start(line@, k as int) == space_run_start(line@, j as int),
        decreases j,
    {
        j -= 1;
    }
    let mut out = String::from_str(line.substring_char(j, k));
    out.append(opts);
    out.append(source);
    out
}

fn bash_line_of(state: FrumCommand, line: &str) -> (r: String)
    ensures
        r@ == bash_line(state, line@),
{
    match state {
        FrumCommand::Install => bash_rewrite_of(line, "opts=\" -l -h -V  --list --help --version  ", "$(frum install -l) \""),
        FrumCommand::Other => String::from_str(line),
        _ => bash_rewrite_of(line, "opts=\" -h -V  --help --version  ", "$(frum completions --list) \""),
    }
}

/// Rewrites a generated completion script so that version arguments
/// complete with installed versions (`frum completions --list`) or, for
/// `install`, downloadable ones (`frum install -l`); for zsh the
/// `configure` options argument of `install` is dropped. Scripts of other
/// shells are returned as they are.
pub fn customize_completions(script: &str, shell: CompletionShell) -> (r: String)
    ensures
        r@ == customized(script@, shell),
{
    if shell == CompletionShell::Other {
        return String::from_str(script);
    }
    let t = chars_of(script);
    let mut out = String::new();
    let mut p: usize = 0;
    let mut state = FrumCommand::Other;
    proof {
        reveal_strlit("\n");
    }
    loop
        invariant_except_break
            customized(script@, shell) == out@ + rewrite_from(t@, p as int, state, shell),
        invariant
            t@ == script@,
            p <= t@.len(),
            shell != CompletionShell::Other,
        ensures
            customized(script@, shell) == out@,
        decreases t@.len() - p,
    {
        let e = find_char(&t, '\n', p);
        if e >= t.len() {
            break;
        }
        let line = script.substring_char(p, e);
        let ghost before = out@;
        proof {
            reveal_strlit("\n");
        }
        if shell == CompletionShell::Zsh {
            let st = zsh_state_of(line, state);
            match zsh_line_of(st, line) {
                Some(s) => {
                    out.append(s.as_str());
                    out.append("\n");
                },
                None => {},
            }
            state = st;
        } else {
            let st = bash_state_of(line, state);
            let s = bash_line_of(st, line);
            out.append(s.as_str());
            out.append("\n");
            state = st;
        }
        p = e + 1;
    }
    out
}

} // verus!
