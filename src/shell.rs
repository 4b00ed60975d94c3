//! What each supported shell needs written to put a directory on its path,
//! set a variable, and switch versions when the directory changes.
use vstd::prelude::*;
use vstd::string::*;
use crate::text::{debug_quoted, debug_text_of};

verus! {

/// The shells that can be set up, by name.
pub open spec fn available_shells() -> Seq<Seq<char>> {
    seq!["bash"@, "zsh"@, "fish"@, "powershell"@]
}

/// Items as a list, one `* item` per line.
pub open spec fn bullet_list(items: Seq<Seq<char>>) -> Seq<char>
    decreases items.len(),
{
    if items.len() == 0 {
        seq![]
    } else if items.len() == 1 {
        "* "@ + items[0]
    } else {
        bullet_list(items.drop_last()) + "\n* "@ + items.last()
    }
}

/// The list of supported shells, for an error message.
pub fn shells_as_string() -> (r: String)
    ensures
        r@ == bullet_list(available_shells()),
{
    let mut out = String::from_str("* ");
    out.append("bash");
    out.append("\n* ");
    out.append("zsh");
    out.append("\n* ");
    out.append("fish");
    out.append("\n* ");
    out.append("powershell");
    proof {
        let s = available_shells();
        let s1 = seq!["bash"@];
        let s2 = seq!["bash"@, "zsh"@];
        let s3 = seq!["bash"@, "zsh"@, "fish"@];
        assert(s.drop_last() =~= s3);
        assert(s3.drop_last() =~= s2);
        assert(s2.drop_last() =~= s1);
        assert(bullet_list(s1) == "* "@ + "bash"@);
        assert(bullet_list(s2) == bullet_list(s1) + "\n* "@ + "zsh"@);
        assert(bullet_list(s3) == bullet_list(s2) + "\n* "@ + "fish"@);
        assert(bullet_list(s) == bullet_list(s3) + "\n* "@ + "powershell"@);
        assert(out@ =~= "* "@ + "bash"@ + "\n* "@ + "zsh"@ + "\n* "@ + "fish"@ + "\n* "@
            + "powershell"@);
    }
    out
}

/// `export NAME="value"` with the value quoted as Rust's `{:?}` does, for
/// bash and zsh.
pub open spec fn export_line(name: Seq<char>, value: Seq<char>) -> Seq<char> {
    "export "@ + name + "="@ + debug_text_of(value)
}

/// `export PATH="dir":$PATH`, for bash and zsh.
pub open spec fn export_path_line(path: Seq<char>) -> Seq<char> {
    "export PATH="@ + debug_text_of(path) + ":$PATH"@
}

fn export_line_of(name: &str, value: &str) -> (r: String)
    ensures
        r@ == export_line(name@, value@),
{
    let mut out = String::from_str("export ");
    out.append(name);
    out.append("=");
    let q = debug_quoted(value);
    out.append(q.as_str());
    out
}

fn export_path_of(path: &str) -> (r: String)
    ensures
        r@ == export_path_line(path@),
{
    let mut out = String::from_str("export PATH=");
    let q = debug_quoted(path);
    out.append(q.as_str());
    out.append(":$PATH");
    out
}

pub open spec fn bash_cd_hook() -> Seq<char> {
    "__frumcd() {\n    \\cd \"$@\" || return $?\n    frum --log-level quiet local\n}\n\nalias cd=__frumcd\n"@
}

pub open spec fn zsh_cd_hook() -> Seq<char> {
    "autoload -U add-zsh-hook\n_frum_autoload_hook () {\n    frum --log-level quiet local\n}\n\nadd-zsh-hook chpwd _frum_autoload_hook \\\n    && _frum_autoload_hook\n"@
}

pub open spec fn fish_cd_hook() -> Seq<char> {
    "function _frum_autoload_hook --on-variable PWD --description 'Change Ruby version on directory change'\n    status --is-command-substitution; and return\n    frum local\nend\n"@
}

pub open spec fn powershell_cd_hook() -> Seq<char> {
    "function Set-LocationWithFrum { param($path); Set-Location $path; If (Test-Path .ruby-version) { & frum local } }\nSet-Alias cd_with_frum Set-LocationWithFrum -Force\nRemove-Item alias:\\cd\nNew-Alias cd Set-LocationWithFrum\n"@
}

/// The Bourne Again shell.
#[derive(Debug, Clone, Copy)]
pub struct Bash;

/// The Z shell.
#[derive(Debug, Clone, Copy)]
pub struct Zsh;

/// The friendly interactive shell.
#[derive(Debug, Clone, Copy)]
pub struct Fish;

/// PowerShell.
#[derive(Debug, Clone, Copy)]
pub struct PowerShell;

/// The Windows command prompt.
#[derive(Debug, Clone, Copy)]
pub struct WindowsCommand;

impl Bash {
    pub fn path(&self, path: &str) -> (r: String)
        ensures
            r@ == export_path_line(path@),
    {
        export_path_of(path)
    }

    pub fn set_env_var(&self, name: &str, value: &str) -> (r: String)
        ensures
            r@ == export_line(name@, value@),
    {
        export_line_of(name, value)
    }

    /// Wraps `cd` so that each change of directory selects the version.
    pub fn use_on_cd(&self) -> (r: String)
        ensures
            r@ == bash_cd_hook(),
    {
        String::from_str(
            "__frumcd() {\n    \\cd \"$@\" || return $?\n    frum --log-level quiet local\n}\n\nalias cd=__frumcd\n",
        )
    }
}

impl Zsh {
    pub fn path(&self, path: &str) -> (r: String)
        ensures
            r@ == export_path_line(path@),
    {
        export_path_of(path)
    }

    pub fn set_env_var(&self, name: &str, value: &str) -> (r: String)
        ensures
            r@ == export_line(name@, value@),
    {
        export_line_of(name, value)
    }

    /// Adds a `chpwd` hook that selects the version.
    pub fn use_on_cd(&self) -> (r: String)
        ensures
            r@ == zsh_cd_hook(),
    {
        String::from_str(
            "autoload -U add-zsh-hook\n_frum_autoload_hook () {\n    frum --log-level quiet local\n}\n\nadd-zsh-hook chpwd _frum_autoload_hook \\\n    && _frum_autoload_hook\n",
        )
    }
}

impl Fish {
    /// `set -gx PATH "dir" $PATH;`
    pub fn path(&self, path: &str) -> (r: String)
        ensures
            r@ == "set -gx PATH "@ + debug_text_of(path@) + " $PATH;"@,
    {
        let mut out = String::from_str("set -gx PATH ");
        let q = debug_quoted(path);
        out.append(q.as_str());
        out.append(" $PATH;");
        out
    }

    /// `set -gx NAME "value";`
    pub fn set_env_var(&self, name: &str, value: &str) -> (r: String)
        ensures
            r@ == "set -gx "@ + name@ + " "@ + debug_text_of(value@) + ";"@,
    {
        let mut out = String::from_str("set -gx ");
        out.append(name);
        out.append(" ");
        let q = debug_quoted(value);
        out.append(q.as_str());
        out.append(";");
        out
    }

    /// A function run on each change of `PWD` that selects the version.
    pub fn use_on_cd(&self) -> (r: String)
        ensures
            r@ == fish_cd_hook(),
    {
        String::from_str(
            "function _frum_autoload_hook --on-variable PWD --description 'Change Ruby version on directory change'\n    status --is-command-substitution; and return\n    frum local\nend\n",
        )
    }
}

impl PowerShell {
    /// `$env:NAME = "value"`
    pub fn set_env_var(&self, name: &str, value: &str) -> (r: String)
        ensures
            r@ == "$env:"@ + name@ + " = \""@ + value@ + "\""@,
    {
        let mut out = String::from_str("$env:");
        out.append(name);
        out.append(" = \"");
        out.append(value);
        out.append("\"");
        out
    }

    /// Replaces `cd` with a function that selects the version where a pin
    /// file is present.
    pub fn use_on_cd(&self) -> (r: String)
        ensures
            r@ == powershell_cd_hook(),
    {
        String::from_str(
            "function Set-LocationWithFrum { param($path); Set-Location $path; If (Test-Path .ruby-version) { & frum local } }\nSet-Alias cd_with_frum Set-LocationWithFrum -Force\nRemove-Item alias:\\cd\nNew-Alias cd Set-LocationWithFrum\n",
        )
    }
}

impl WindowsCommand {
    /// `SET NAME=value`
    pub fn set_env_var(&self, name: &str, value: &str) -> (r: String)
        ensures
            r@ == "SET "@ + name@ + "="@ + value@,
    {
        let mut out = String::from_str("SET ");
        out.append(name);
        out.append("=");
        out.append(value);
        out
    }

    /// `SET PATH=value`, with the full new search path.
    pub fn path(&self, new_path: &str) -> (r: String)
        ensures
            r@ == "SET PATH="@ + new_path@,
    {
        let mut out = String::from_str("SET PATH=");
        out.append(new_path);
        out
    }
}

} // verus!
