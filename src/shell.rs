//! The user's shell and the command lines run through it.
use vstd::prelude::*;

use crate::paths::{file_name, file_name_of};
use crate::text::{chars_of, has_prefix, opt_text, owned, starts_with, str_eq, string_views};

verus! {

/// A zsh login shell and its rc file.
#[derive(Debug, Clone, PartialEq, Eq)]
pub struct ZshShell {
    pub shell_path: String,
    pub zshrc_path: String,
}

/// A bash login shell and its rc file.
#[derive(Debug, Clone, PartialEq, Eq)]
pub struct BashShell {
    pub shell_path: String,
    pub bashrc_path: String,
}

/// PowerShell, with a bash to fall back on for bash commands.
#[derive(Debug, Clone, PartialEq, Eq)]
pub struct PowerShellConfig {
    /// Executable name or path, such as `pwsh` or `powershell.exe`.
    pub exe: String,
    /// A bash executable, in case a bash command line comes in.
    pub bash_exe_fallback: Option<String>,
}

/// The user's shell.
#[derive(Debug, Clone, PartialEq, Eq)]
pub enum Shell {
    Zsh(ZshShell),
    Bash(BashShell),
    PowerShell(PowerShellConfig),
    Unknown,
}

/// Whether any word of `words` holds a nul character.
pub open spec fn has_nul(words: Seq<Seq<char>>) -> bool {
    exists|i: int, j: int| 0 <= i < words.len() && 0 <= j < words[i].len() && words[i][j] == '\0'
}

/// The single string, words quoted where needed and separated by spaces,
/// that `shlex::try_join` makes of `words`.
pub uninterp spec fn shell_join(words: Seq<Seq<char>>) -> Seq<char>;

/// Relies on `shlex::try_join`: it fails exactly when a word holds a nul
/// byte, and otherwise returns the quoted words joined by spaces.
#[verifier::external_body]
fn try_join(words: &Vec<String>) -> (r: Option<String>)
    ensures
        r is None <==> has_nul(string_views(words@)),
        r matches Some(s) ==> s@ == shell_join(string_views(words@)),
{
    shlex::try_join(words.iter().map(|s| s.as_str())).ok()
}

/// The words of `words` joined into one shell command line, if no word holds
/// a nul character.
pub open spec fn joined_words(words: Seq<Seq<char>>) -> Option<Seq<char>> {
    if has_nul(words) {
        None
    } else {
        Some(shell_join(words))
    }
}

/// The script of a `bash -lc <script>` command.
pub open spec fn bash_lc_script(command: Seq<Seq<char>>) -> Option<Seq<char>> {
    if command.len() == 3 && command[0] == "bash"@ && command[1] == "-lc"@ {
        Some(command[2])
    } else {
        None
    }
}

/// The script of a `bash -lc <script>` command, if `command` is one.
pub fn strip_bash_lc(command: &Vec<String>) -> (r: Option<String>)
    ensures
        opt_text(r) == bash_lc_script(string_views(command@)),
{
    if command.len() == 3 && str_eq(command[0].as_str(), "bash") && str_eq(
        command[1].as_str(),
        "-lc",
    ) {
        Some(command[2].clone())
    } else {
        None
    }
}

/// The model of an optional list of strings.
pub open spec fn opt_words(r: Option<Vec<String>>) -> Option<Seq<Seq<char>>> {
    match r {
        Some(v) => Some(string_views(v@)),
        None => None,
    }
}

/// The command line run through a login shell with an rc file: the script
/// of a `bash -lc` command or else the joined words, prefixed by sourcing the
/// rc file when that file exists.
pub open spec fn rc_invocation(
    command: Seq<Seq<char>>,
    shell_path: Seq<char>,
    rc_path: Seq<char>,
    rc_exists: bool,
) -> Option<Seq<Seq<char>>> {
    let joined = match bash_lc_script(command) {
        Some(s) => Some(s),
        None => joined_words(command),
    };
    match joined {
        None => None,
        Some(j) => Some(
            seq![
                shell_path,
                "-lc"@,
                if rc_exists {
                    "source "@ + rc_path + " && ("@ + j + ")"@
                } else {
                    j
                },
            ],
        ),
    }
}

/// Whether some word of `words` holds a line feed or a carriage return.
pub open spec fn has_line_break(words: Seq<Seq<char>>) -> bool {
    exists|i: int, j: int|
        0 <= i < words.len() && 0 <= j < words[i].len() && (words[i][j] == '\n' || words[i][j]
            == '\r')
}

/// The command line run through PowerShell.
pub open spec fn powershell_invocation(
    command: Seq<Seq<char>>,
    exe: Seq<char>,
    bash_fallback: Option<Seq<char>>,
) -> Option<Seq<Seq<char>>> {
    match bash_lc_script(command) {
        Some(script) => match bash_fallback {
            Some(bash) => Some(seq![bash, "-lc"@, script]),
            None => Some(seq![exe, "-NoProfile"@, "-Command"@, script]),
        },
        None => if command.len() > 0 && command[0] == exe {
            Some(command)
        } else if has_line_break(command) {
            Some(command)
        } else {
            match joined_words(command) {
                Some(arg) => Some(seq![exe, "-NoProfile"@, "-Command"@, arg]),
                None => None,
            }
        },
    }
}

impl Shell {
    /// The command line that runs `command` through this shell.
    pub open spec fn invocation(&self, command: Seq<Seq<char>>, rc_exists: bool) -> Option<
        Seq<Seq<char>>,
    > {
        match self {
            Shell::Zsh(z) => rc_invocation(command, z.shell_path@, z.zshrc_path@, rc_exists),
            Shell::Bash(b) => rc_invocation(command, b.shell_path@, b.bashrc_path@, rc_exists),
            Shell::PowerShell(ps) => powershell_invocation(
                command,
                ps.exe@,
                opt_text(ps.bash_exe_fallback),
            ),
            Shell::Unknown => None,
        }
    }

    /// The shell's name: the file name of a zsh or bash executable, the
    /// PowerShell executable as configured.
    pub open spec fn name_of(&self) -> Option<Seq<char>> {
        match self {
            Shell::Zsh(z) => file_name_of(z.shell_path@),
            Shell::Bash(b) => file_name_of(b.shell_path@),
            Shell::PowerShell(ps) => Some(ps.exe@),
            Shell::Unknown => None,
        }
    }

    /// The command line that runs `command` through this shell; `rc_exists`
    /// tells whether the shell's rc file exists. `None` when there is no
    /// known shell or the words cannot be quoted.
    pub fn format_default_shell_invocation(&self, command: Vec<String>, rc_exists: bool) -> (r:
        Option<Vec<String>>)
        ensures
            opt_words(r) == self.invocation(string_views(command@), rc_exists),
    {
        match self {
            Shell::Zsh(z) => format_shell_invocation_with_rc(
                &command,
                z.shell_path.as_str(),
                z.zshrc_path.as_str(),
                rc_exists,
            ),
            Shell::Bash(b) => format_shell_invocation_with_rc(
                &command,
                b.shell_path.as_str(),
                b.bashrc_path.as_str(),
                rc_exists,
            ),
            Shell::PowerShell(ps) => {
                if let Some(script) = strip_bash_lc(&command) {
                    return match &ps.bash_exe_fallback {
                        Some(bash) => Some(words3(bash.as_str(), "-lc", script.as_str())),
                        None => Some(
                            words4(ps.exe.as_str(), "-NoProfile", "-Command", script.as_str()),
                        ),
                    };
                }
                if command.len() > 0 && str_eq(command[0].as_str(), ps.exe.as_str()) {
                    return Some(command);
                }
                if any_line_break(&command) {
                    return Some(command);
                }
                match try_join(&command) {
                    Some(arg) => Some(words4(ps.exe.as_str(), "-NoProfile", "-Command", arg.as_str())),
                    None => None,
                }
            },
            Shell::Unknown => None,
        }
    }

    /// The shell's name, if it has one.
    pub fn name(&self) -> (r: Option<String>)
        ensures
            opt_text(r) == self.name_of(),
    {
        match self {
            Shell::Zsh(z) => file_name(z.shell_path.as_str()),
            Shell::Bash(b) => file_name(b.shell_path.as_str()),
            Shell::PowerShell(ps) => Some(ps.exe.clone()),
            Shell::Unknown => None,
        }
    }
}

fn words3(a: &str, b: &str, c: &str) -> (r: Vec<String>)
    ensures
        string_views(r@) == seq![a@, b@, c@],
{
    let mut v: Vec<String> = Vec::new();
    v.push(owned(a));
    v.push(owned(b));
    v.push(owned(c));
    assert(string_views(v@) =~= seq![a@, b@, c@]);
    v
}

fn words4(a: &str, b: &str, c: &str, d: &str) -> (r: Vec<String>)
    ensures
        string_views(r@) == seq![a@, b@, c@, d@],
{
    let mut v: Vec<String> = Vec::new();
    v.push(owned(a));
    v.push(owned(b));
    v.push(owned(c));
    v.push(owned(d));
    assert(string_views(v@) =~= seq![a@, b@, c@, d@]);
    v
}

/// Whether some word holds a line feed or a carriage return.
fn any_line_break(words: &Vec<String>) -> (r: bool)
    ensures
        r == has_line_break(string_views(words@)),
{
    let ghost ws = string_views(words@);
    let mut i: usize = 0;
    while i < words.len()
        invariant
            ws == string_views(words@),
            i <= words@.len(),
            forall|k: int, j: int|
                0 <= k < i && 0 <= j < ws[k].len() ==> ws[k][j] != '\n' && ws[k][j] != '\r',
        decreases words.len() - i,
    {
        let cs = chars_of(words[i].as_str());
        let mut j: usize = 0;
        while j < cs.len()
            invariant
                ws == string_views(words@),
                i < words@.len(),
                cs@ == ws[i as int],
                j <= cs@.len(),
                forall|k: int, m: int|
                    0 <= k < i && 0 <= m < ws[k].len() ==> ws[k][m] != '\n' && ws[k][m] != '\r',
                forall|m: int| 0 <= m < j ==> cs@[m] != '\n' && cs@[m] != '\r',
            decreases cs.len() - j,
        {
            if cs[j] == '\n' || cs[j] == '\r' {
                assert(ws[i as int][j as int] == cs@[j as int]);
                return true;
            }
            j += 1;
        }
        i += 1;
    }
    false
}

fn format_shell_invocation_with_rc(
    command: &Vec<String>,
    shell_path: &str,
    rc_path: &str,
    rc_exists: bool,
) -> (r: Option<Vec<String>>)
    ensures
        opt_words(r) == rc_invocation(string_views(command@), shell_path@, rc_path@, rc_exists),
{
    let joined = match strip_bash_lc(command) {
        Some(s) => s,
        None => match try_join(command) {
            Some(j) => j,
            None => return None,
        },
    };
    let rc_command = if rc_exists {
        let mut s = owned("source ");
        s.append(rc_path);
        s.append(" && (");
        s.append(joined.as_str());
        s.append(")");
        s
    } else {
        joined
    };
    Some(words3(shell_path, "-lc", rc_command.as_str()))
}

/// Whether a program path names a POSIX shell: its file name (or the path
/// itself, when it has none) is `bash`, `sh` or `zsh`.
pub open spec fn is_shell_wrapper(shell: Seq<char>) -> bool {
    let name = match file_name_of(shell) {
        Some(n) => n,
        None => shell,
    };
    name == "bash"@ || name == "sh"@ || name == "zsh"@
}

/// Whether `shell` names a POSIX shell.
pub fn looks_like_shell_wrapper(shell: &str) -> (r: bool)
    ensures
        r == is_shell_wrapper(shell@),
{
    let name = match file_name(shell) {
        Some(n) => n,
        None => owned(shell),
    };
    str_eq(name.as_str(), "bash") || str_eq(name.as_str(), "sh") || str_eq(name.as_str(), "zsh")
}

/// The index and text of the script in a `<shell> -lc <script>` or
/// `<shell> -c <script>` command.
pub open spec fn shell_script(command: Seq<Seq<char>>) -> Option<(nat, Seq<char>)> {
    if command.len() == 3 && is_shell_wrapper(command[0]) && (command[1] == "-lc"@ || command[1]
        == "-c"@) {
        Some((2, command[2]))
    } else {
        None
    }
}

/// The index and text of the script of a shell-wrapped command.
pub fn extract_shell_script(command: &Vec<String>) -> (r: Option<(usize, &str)>)
    ensures
        match r {
            Some((i, s)) => shell_script(string_views(command@)) == Some((i as nat, s@)),
            None => shell_script(string_views(command@)) is None,
        },
{
    if command.len() == 3 && looks_like_shell_wrapper(command[0].as_str()) && (str_eq(
        command[1].as_str(),
        "-lc",
    ) || str_eq(command[1].as_str(), "-c")) {
        Some((2, command[2].as_str()))
    } else {
        None
    }
}

/// The first index of `x` in `s`, if any.
pub open spec fn index_of(s: Seq<Seq<char>>, x: Seq<char>) -> Option<nat>
    decreases s.len(),
{
    if s.len() == 0 {
        None
    } else if s[0] == x {
        Some(0)
    } else {
        match index_of(s.drop_first(), x) {
            Some(i) => Some(i + 1),
            None => None,
        }
    }
}

/// The tokens after the first `&&`, when some follow it.
pub open spec fn after_first_command(tokens: Seq<Seq<char>>) -> Option<Seq<Seq<char>>> {
    match index_of(tokens, "&&"@) {
        Some(i) => if i + 1 < tokens.len() {
            Some(tokens.skip(i + 1int))
        } else {
            None
        },
        None => None,
    }
}

/// The tokens after the first `&&`, when some follow it.
pub fn tokens_after_first_command(tokens: &Vec<String>) -> (r: Option<Vec<String>>)
    ensures
        opt_words(r) == after_first_command(string_views(tokens@)),
{
    let ghost ts = string_views(tokens@);
    let mut idx: usize = 0;
    assert(ts.skip(0) =~= ts);
    while idx < tokens.len() && !str_eq(tokens[idx].as_str(), "&&")
        invariant
            ts == string_views(tokens@),
            idx <= tokens@.len(),
            index_of(ts, "&&"@) == match index_of(ts.skip(idx as int), "&&"@) {
                Some(j) => Some((j + idx) as nat),
                None => None::<nat>,
            },
        decreases tokens.len() - idx,
    {
        assert(ts.skip(idx as int).drop_first() =~= ts.skip(idx + 1));
        idx += 1;
    }
    if idx == tokens.len() {
        return None;
    }
    assert(ts.skip(idx as int)[0] == ts[idx as int]);
    let rest_start = idx + 1;
    if rest_start >= tokens.len() {
        return None;
    }
    let rest = copy_words(tokens, rest_start);
    assert(string_views(rest@) =~= ts.skip(rest_start as int));
    Some(rest)
}

/// Copies of `words[start..]`.
fn copy_words(words: &Vec<String>, start: usize) -> (r: Vec<String>)
    requires
        start <= words@.len(),
    ensures
        r@.len() == words@.len() - start,
        forall|k: int| 0 <= k < r@.len() ==> #[trigger] r@[k]@ == words@[start + k]@,
{
    let mut out: Vec<String> = Vec::new();
    let mut i: usize = start;
    while i < words.len()
        invariant
            start <= i <= words@.len(),
            out@.len() == i - start,
            forall|k: int| 0 <= k < out@.len() ==> #[trigger] out@[k]@ == words@[start + k]@,
        decreases words.len() - i,
    {
        out.push(words[i].clone());
        i += 1;
    }
    out
}

/// The working directory and remaining command of `cd <dir> && <command>`,
/// unless the remaining command starts with another `cd`.
pub open spec fn cd_prefix(command: Seq<Seq<char>>) -> Option<(Seq<char>, Seq<Seq<char>>)> {
    if command.len() >= 4 && command[0] == "cd"@ && command[2] == "&&"@ && !starts_with(
        command[3],
        "cd"@,
    ) {
        Some((command[1], command.skip(3)))
    } else {
        None
    }
}

/// Splits `cd <dir> && <command>` into the directory and the command.
pub fn split_cd_prefix_from_tokens(command: &Vec<String>) -> (r: Option<(String, Vec<String>)>)
    ensures
        match r {
            Some((dir, rest)) => cd_prefix(string_views(command@)) == Some(
                (dir@, string_views(rest@)),
            ),
            None => cd_prefix(string_views(command@)) is None,
        },
{
    if command.len() < 4 {
        return None;
    }
    if !str_eq(command[0].as_str(), "cd") {
        return None;
    }
    if !str_eq(command[2].as_str(), "&&") {
        return None;
    }
    let first = chars_of(command[3].as_str());
    if has_prefix(first.as_slice(), "cd") {
        return None;
    }
    let workdir = command[1].clone();
    let remainder = copy_words(command, 3);
    assert(string_views(remainder@) =~= string_views(command@).skip(3));
    Some((workdir, remainder))
}

/// The shell of a user account with login shell `shell_path` and home
/// directory `home`: zsh or bash with the rc file in the home directory,
/// otherwise unknown.
pub open spec fn account_shell_view(shell_path: Seq<char>, home: Seq<char>) -> Option<
    (bool, Seq<char>, Seq<char>),
> {
    if ends_with(shell_path, "/zsh"@) {
        Some((true, shell_path, home + "/.zshrc"@))
    } else if ends_with(shell_path, "/bash"@) {
        Some((false, shell_path, home + "/.bashrc"@))
    } else {
        None
    }
}

/// Whether `s` ends with `suffix`.
pub open spec fn ends_with(s: Seq<char>, suffix: Seq<char>) -> bool {
    suffix.len() <= s.len() && s.skip(s.len() - suffix.len()) == suffix
}

/// Whether `cs` ends with `suffix`.
fn has_suffix(cs: &[char], suffix: &str) -> (r: bool)
    ensures
        r == ends_with(cs@, suffix@),
{
    let p = chars_of(suffix);
    if p.len() > cs.len() {
        return false;
    }
    let off = cs.len() - p.len();
    let mut i: usize = 0;
    while i < p.len()
        invariant
            p@ == suffix@,
            off + p@.len() == cs@.len(),
            cs@.len() <= usize::MAX,
            i <= p@.len(),
            forall|j: int| 0 <= j < i ==> cs@[off + j] == p@[j],
        decreases p.len() - i,
    {
        if cs[off + i] != p[i] {
            assert(cs@.skip(off as int)[i as int] != p@[i as int]);
            return false;
        }
        i += 1;
    }
    assert(cs@.skip(off as int) =~= p@);
    true
}

/// The shell of a user account, from its login shell and home directory.
pub fn shell_for_account(shell_path: String, home: &str) -> (r: Shell)
    ensures
        match account_shell_view(shell_path@, home@) {
            Some((true, p, rc)) => r matches Shell::Zsh(z) && z.shell_path@ == p && z.zshrc_path@ == rc,
            Some((false, p, rc)) => r matches Shell::Bash(b) && b.shell_path@ == p
                && b.bashrc_path@ == rc,
            None => r is Unknown,
        },
{
    let cs = chars_of(shell_path.as_str());
    if has_suffix(cs.as_slice(), "/zsh") {
        let mut rc = owned(home);
        rc.append("/.zshrc");
        Shell::Zsh(ZshShell { shell_path, zshrc_path: rc })
    } else if has_suffix(cs.as_slice(), "/bash") {
        let mut rc = owned(home);
        rc.append("/.bashrc");
        Shell::Bash(BashShell { shell_path, bashrc_path: rc })
    } else {
        Shell::Unknown
    }
}

} // verus!
