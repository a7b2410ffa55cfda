//! Custom agents defined by Markdown files with an optional frontmatter
//! header.
use vstd::multiset::Multiset;
use vstd::prelude::*;

use crate::paths::{join_path, joined_path};
use crate::text::{
    ascii_lower, chars_of, opt_text, owned, range_is, str_eq, string_of_range, sub_chars,
    to_ascii_lower, trim, trim_bounds,
};

verus! {

/// Configuration for a custom agent loaded from a Markdown file.
#[derive(Debug, Clone)]
pub struct CustomAgent {
    /// The agent name (the file name without its extension).
    pub name: String,
    /// Full path to the Markdown file.
    pub path: String,
    /// The agent's system prompt (the Markdown body without frontmatter).
    pub instructions: String,
    /// Optional description shown in the UI.
    pub description: Option<String>,
    /// Optional model override for this agent.
    pub model: Option<String>,
    /// Optional sandbox policy name (read-only when absent).
    pub sandbox: Option<String>,
}

/// The number of characters before the first line feed of `s` (all of them
/// when there is none).
pub open spec fn line_len(s: Seq<char>) -> nat
    decreases s.len(),
{
    if s.len() == 0 || s[0] == '\n' {
        0
    } else {
        1 + line_len(s.drop_first())
    }
}

/// The length of the first segment of `s` when it is cut after each line
/// feed: its line and the line feed that ends it, if any.
pub open spec fn segment_len(s: Seq<char>) -> nat {
    if line_len(s) < s.len() {
        line_len(s) + 1
    } else {
        s.len()
    }
}

pub proof fn lemma_line_len(s: Seq<char>)
    ensures
        line_len(s) <= s.len(),
        forall|i: int| 0 <= i < line_len(s) ==> #[trigger] s[i] != '\n',
        line_len(s) < s.len() ==> s[line_len(s) as int] == '\n',
    decreases s.len(),
{
    if s.len() > 0 && s[0] != '\n' {
        lemma_line_len(s.drop_first());
        assert forall|i: int| 0 <= i < line_len(s) implies #[trigger] s[i] != '\n' by {
            if i > 0 {
                assert(s[i] == s.drop_first()[i - 1]);
            }
        }
    }
}

/// `s` without the carriage returns and line feeds at its end.
pub open spec fn strip_line_end(s: Seq<char>) -> Seq<char>
    decreases s.len(),
{
    if s.len() > 0 && (s.last() == '\r' || s.last() == '\n') {
        strip_line_end(s.drop_last())
    } else {
        s
    }
}

/// The index of the first colon of `s`, if any.
pub open spec fn colon_index(s: Seq<char>) -> Option<nat>
    decreases s.len(),
{
    if s.len() == 0 {
        None
    } else if s[0] == ':' {
        Some(0)
    } else {
        match colon_index(s.drop_first()) {
            Some(i) => Some(i + 1),
            None => None,
        }
    }
}

/// `v` without one pair of matching double or single quotes around it.
pub open spec fn unquote(v: Seq<char>) -> Seq<char> {
    if v.len() >= 2 && ((v[0] == '"' && v.last() == '"') || (v[0] == '\'' && v.last() == '\'')) {
        v.subrange(1, v.len() - 1)
    } else {
        v
    }
}

/// The header fields read so far: description, model and sandbox.
pub type Header = (Option<Seq<char>>, Option<Seq<char>>, Option<Seq<char>>);

/// The header after one trimmed header line: a `key: value` line with a
/// known key (in any case) sets that field; blank lines, comments and other
/// lines change nothing.
pub open spec fn apply_header_line(h: Header, t: Seq<char>) -> Header {
    if t.len() == 0 || t[0] == '#' {
        h
    } else {
        match colon_index(t) {
            None => h,
            Some(i) => {
                let key = ascii_lower(trim(t.take(i as int)));
                let val = unquote(trim(t.skip(i + 1int)));
                if key == "description"@ {
                    (Some(val), h.1, h.2)
                } else if key == "model"@ {
                    (h.0, Some(val), h.2)
                } else if key == "sandbox"@ {
                    (h.0, h.1, Some(val))
                } else {
                    h
                }
            },
        }
    }
}

/// The trimmed text of the first line of `s`.
pub open spec fn first_line(s: Seq<char>) -> Seq<char> {
    trim(strip_line_end(s.take(segment_len(s) as int)))
}

/// Reads header lines from `rest` up to the closing `---` line: the header
/// and the number of characters up to and including that line, or nothing
/// when no line closes the header.
pub open spec fn scan_header(rest: Seq<char>, h: Header) -> Option<(Header, nat)>
    decreases rest.len(),
{
    if rest.len() == 0 {
        None
    } else {
        proof {
            lemma_line_len(rest);
        }
        let n = segment_len(rest);
        let t = first_line(rest);
        if t == "---"@ {
            Some((h, n))
        } else {
            match scan_header(rest.skip(n as int), apply_header_line(h, t)) {
                Some((h2, c)) => Some((h2, n + c)),
                None => None,
            }
        }
    }
}

/// The description, model, sandbox and body of an agent file: with a
/// frontmatter header (a first line `---`, `key: value` lines and a closing
/// `---` line) the fields it sets and the text after it; otherwise no fields
/// and the whole text.
pub open spec fn frontmatter(content: Seq<char>) -> (
    Option<Seq<char>>,
    Option<Seq<char>>,
    Option<Seq<char>>,
    Seq<char>,
) {
    if content.len() == 0 {
        (None, None, None, Seq::empty())
    } else if first_line(content) != "---"@ {
        (None, None, None, content)
    } else {
        let n = segment_len(content);
        match scan_header(content.skip(n as int), (None, None, None)) {
            None => (None, None, None, content),
            Some((h, c)) => (h.0, h.1, h.2, content.skip((n + c) as int)),
        }
    }
}

/// The model of a header held in strings.
pub open spec fn header_view(h: (Option<String>, Option<String>, Option<String>)) -> Header {
    (opt_text(h.0), opt_text(h.1), opt_text(h.2))
}

/// `scan_header`'s result with `k` more characters counted.
pub open spec fn shifted(o: Option<(Header, nat)>, k: nat) -> Option<(Header, nat)> {
    match o {
        Some((h, c)) => Some((h, c + k)),
        None => None,
    }
}

/// The end of the segment of `cs` that starts at `start`.
fn segment_end(cs: &[char], start: usize) -> (e: usize)
    requires
        start <= cs@.len(),
    ensures
        e == start + segment_len(cs@.skip(start as int)),
{
    let mut i: usize = start;
    while i < cs.len() && cs[i] != '\n'
        invariant
            start <= i <= cs@.len(),
            line_len(cs@.skip(start as int)) == (i - start) + line_len(cs@.skip(i as int)),
        decreases cs.len() - i,
    {
        assert(cs@.skip(i as int).drop_first() =~= cs@.skip(i + 1));
        i += 1;
    }
    assert(i < cs@.len() ==> cs@.skip(i as int)[0] == cs@[i as int]);
    assert(line_len(cs@.skip(i as int)) == 0);
    if i < cs.len() {
        i + 1
    } else {
        i
    }
}

/// The trimmed text of `cs[start..end]` without its line end.
fn line_text(cs: &[char], start: usize, end: usize) -> (r: Vec<char>)
    requires
        start <= end <= cs@.len(),
    ensures
        r@ == trim(strip_line_end(cs@.subrange(start as int, end as int))),
{
    let mut e: usize = end;
    while e > start && (cs[e - 1] == '\r' || cs[e - 1] == '\n')
        invariant
            start <= e <= end,
            end <= cs@.len(),
            strip_line_end(cs@.subrange(start as int, end as int)) == strip_line_end(
                cs@.subrange(start as int, e as int),
            ),
        decreases e,
    {
        assert(cs@.subrange(start as int, e as int).drop_last() =~= cs@.subrange(
            start as int,
            e - 1,
        ));
        e -= 1;
    }
    let line = sub_chars(cs, start, e);
    let (a, b) = trim_bounds(line.as_slice());
    sub_chars(line.as_slice(), a, b)
}

/// The index of the first colon of `t`, if any.
fn find_colon(t: &[char]) -> (r: Option<usize>)
    ensures
        match r {
            Some(i) => colon_index(t@) == Some(i as nat) && i < t@.len(),
            None => colon_index(t@) is None,
        },
{
    let mut i: usize = 0;
    assert(t@.skip(0) =~= t@);
    while i < t.len()
        invariant
            i <= t@.len(),
            colon_index(t@) == match colon_index(t@.skip(i as int)) {
                Some(j) => Some((j + i) as nat),
                None => None::<nat>,
            },
        decreases t.len() - i,
    {
        assert(t@.skip(i as int).drop_first() =~= t@.skip(i + 1));
        if t[i] == ':' {
            return Some(i);
        }
        i += 1;
    }
    None
}

/// `v` without one pair of matching quotes around it.
fn unquote_text(v: &[char]) -> (r: String)
    ensures
        r@ == unquote(v@),
{
    let n = v.len();
    if n >= 2 && ((v[0] == '"' && v[n - 1] == '"') || (v[0] == '\'' && v[n - 1] == '\'')) {
        string_of_range(v, 1, n - 1)
    } else {
        string_of_range(v, 0, n)
    }
}

/// The header after one trimmed header line.
fn apply_line(h: (Option<String>, Option<String>, Option<String>), t: &[char]) -> (r: (
    Option<String>,
    Option<String>,
    Option<String>,
))
    ensures
        header_view(r) == apply_header_line(header_view(h), t@),
{
    if t.len() == 0 || t[0] == '#' {
        return h;
    }
    let i = match find_colon(t) {
        Some(i) => i,
        None => return h,
    };
    let k = sub_chars(t, 0, i);
    let (ka, kb) = trim_bounds(k.as_slice());
    let key_text = string_of_range(k.as_slice(), ka, kb);
    let key = to_ascii_lower(key_text.as_str());
    let v = sub_chars(t, i + 1, t.len());
    let (va, vb) = trim_bounds(v.as_slice());
    let trimmed = sub_chars(v.as_slice(), va, vb);
    let val = unquote_text(trimmed.as_slice());
    proof {
        assert(t@.take(i as int) =~= k@);
        assert(t@.skip(i + 1) =~= v@);
    }
    if str_eq(key.as_str(), "description") {
        (Some(val), h.1, h.2)
    } else if str_eq(key.as_str(), "model") {
        (h.0, Some(val), h.2)
    } else if str_eq(key.as_str(), "sandbox") {
        (h.0, h.1, Some(val))
    } else {
        h
    }
}

/// Splits an agent file into its frontmatter fields and its body: the
/// description, the model and the sandbox that the header sets, and the text
/// after the header. A file without a complete header yields no fields and
/// its whole text.
pub fn parse_agent_frontmatter(content: &str) -> (r: (
    Option<String>,
    Option<String>,
    Option<String>,
    String,
))
    ensures
        (opt_text(r.0), opt_text(r.1), opt_text(r.2), r.3@) == frontmatter(content@),
{
    let cs = chars_of(content);
    if cs.len() == 0 {
        return (None, None, None, String::new());
    }
    let n = segment_end(cs.as_slice(), 0);
    let first = line_text(cs.as_slice(), 0, n);
    proof {
        assert(cs@.skip(0) =~= cs@);
        assert(cs@.take(segment_len(cs@) as int) =~= cs@.subrange(0, n as int));
    }
    if !range_is(first.as_slice(), 0, first.len(), "---") {
        assert(first@.subrange(0, first@.len() as int) =~= first@);
        return (None, None, None, owned(content));
    }
    assert(first@.subrange(0, first@.len() as int) =~= first@);
    assert(first_line(cs@) == "---"@);
    let mut h: (Option<String>, Option<String>, Option<String>) = (None, None, None);
    let mut pos: usize = n;
    while pos < cs.len()
        invariant
            cs@ == content@,
            cs@.len() > 0,
            n == segment_len(cs@),
            first_line(cs@) == "---"@,
            n <= pos <= cs@.len(),
            scan_header(cs@.skip(n as int), (None, None, None)) == shifted(
                scan_header(cs@.skip(pos as int), header_view(h)),
                (pos - n) as nat,
            ),
        decreases cs.len() - pos,
    {
        let e = segment_end(cs.as_slice(), pos);
        let t = line_text(cs.as_slice(), pos, e);
        let ghost rest = cs@.skip(pos as int);
        proof {
            lemma_line_len(rest);
            assert(rest.take(segment_len(rest) as int) =~= cs@.subrange(pos as int, e as int));
            assert(rest.skip(segment_len(rest) as int) =~= cs@.skip(e as int));
        }
        if range_is(t.as_slice(), 0, t.len(), "---") {
            assert(t@.subrange(0, t@.len() as int) =~= t@);
            let body = string_of_range(cs.as_slice(), e, cs.len());
            assert(cs@.subrange(e as int, cs@.len() as int) =~= cs@.skip(e as int));
            return (h.0, h.1, h.2, body);
        }
        assert(t@.subrange(0, t@.len() as int) =~= t@);
        h = apply_line(h, t.as_slice());
        pos = e;
    }
    assert(cs@.skip(pos as int).len() == 0);
    (None, None, None, owned(content))
}

/// The agents directory inside a Codex home directory, `<home>/agents`, or
/// `None` when no home directory is known.
pub fn default_agents_dir(codex_home: Option<&str>) -> (r: Option<String>)
    ensures
        match codex_home {
            Some(h) => r matches Some(d) && d@ == joined_path(h@, "agents"@),
            None => r is None,
        },
{
    match codex_home {
        Some(h) => Some(join_path(h, "agents")),
        None => None,
    }
}

/// Whether a file extension marks a Markdown file (`md`, in any case).
pub fn is_markdown_extension(ext: &str) -> (r: bool)
    ensures
        r == (ascii_lower(ext@) == "md"@),
{
    let lower = to_ascii_lower(ext);
    str_eq(lower.as_str(), "md")
}

/// Whether `name` is one of `names`.
pub fn is_excluded(name: &str, names: &Vec<String>) -> (r: bool)
    ensures
        r == (exists|i: int| 0 <= i < names@.len() && names@[i]@ == name@),
{
    let mut i: usize = 0;
    while i < names.len()
        invariant
            i <= names@.len(),
            forall|j: int| 0 <= j < i ==> names@[j]@ != name@,
        decreases names.len() - i,
    {
        if str_eq(names[i].as_str(), name) {
            return true;
        }
        i += 1;
    }
    false
}

/// The agent defined by the file at `path`, named `name`, with text
/// `content`: its frontmatter fields, and its body as instructions.
pub fn agent_from_file(name: String, path: String, content: &str) -> (r: CustomAgent)
    ensures
        r.name == name,
        r.path == path,
        (opt_text(r.description), opt_text(r.model), opt_text(r.sandbox), r.instructions@)
            == frontmatter(content@),
{
    let (description, model, sandbox, body) = parse_agent_frontmatter(content);
    CustomAgent { name, path, instructions: body, description, model, sandbox }
}

/// A sandbox policy for the commands an agent runs.
#[derive(Debug, Clone, PartialEq, Eq)]
pub enum SandboxPolicy {
    /// Read anything, write nothing.
    ReadOnly,
    /// Write inside the workspace (and the listed roots).
    WorkspaceWrite {
        writable_roots: Vec<String>,
        network_access: bool,
        exclude_tmpdir_env_var: bool,
        exclude_slash_tmp: bool,
    },
    /// No restrictions at all.
    DangerFullAccess,
}

/// A session task that runs a custom agent: its name, its instructions, its
/// model override and the sandbox its commands run in.
#[derive(Debug, Clone)]
pub struct CustomAgentTask {
    pub agent_name: String,
    pub instructions: String,
    pub model: Option<String>,
    pub sandbox_policy: SandboxPolicy,
}

impl CustomAgentTask {
    /// A task for the given agent.
    pub fn new(
        agent_name: String,
        instructions: String,
        model: Option<String>,
        sandbox_policy: SandboxPolicy,
    ) -> (r: Self)
        ensures
            r.agent_name == agent_name,
            r.instructions == instructions,
            r.model == model,
            r.sandbox_policy == sandbox_policy,
    {
        CustomAgentTask { agent_name, instructions, model, sandbox_policy }
    }
}

/// The kinds of sandbox policy, by name.
pub enum PolicyKind {
    ReadOnly,
    WorkspaceWrite,
    DangerFullAccess,
}

/// The policy kind that `s` names, ignoring surrounding white space and case.
pub open spec fn policy_kind(s: Seq<char>) -> Option<PolicyKind> {
    let k = ascii_lower(trim(s));
    if k == "read-only"@ {
        Some(PolicyKind::ReadOnly)
    } else if k == "workspace-write"@ {
        Some(PolicyKind::WorkspaceWrite)
    } else if k == "danger-full-access"@ {
        Some(PolicyKind::DangerFullAccess)
    } else {
        None
    }
}

/// Parses a sandbox policy name: `read-only`, `workspace-write` (with no
/// extra roots, no network, temporary directories writable) or
/// `danger-full-access`; `None` for any other name.
pub fn parse_sandbox_policy(s: &str) -> (r: Option<SandboxPolicy>)
    ensures
        match policy_kind(s@) {
            Some(PolicyKind::ReadOnly) => r matches Some(SandboxPolicy::ReadOnly),
            Some(PolicyKind::WorkspaceWrite) => r matches Some(
                SandboxPolicy::WorkspaceWrite {
                    writable_roots,
                    network_access,
                    exclude_tmpdir_env_var,
                    exclude_slash_tmp,
                },
            ) && writable_roots@.len() == 0 && !network_access && !exclude_tmpdir_env_var
                && !exclude_slash_tmp,
            Some(PolicyKind::DangerFullAccess) => r matches Some(SandboxPolicy::DangerFullAccess),
            None => r is None,
        },
{
    let cs = chars_of(s);
    let (a, b) = trim_bounds(cs.as_slice());
    let t = string_of_range(cs.as_slice(), a, b);
    let k = to_ascii_lower(t.as_str());
    if str_eq(k.as_str(), "read-only") {
        Some(SandboxPolicy::ReadOnly)
    } else if str_eq(k.as_str(), "workspace-write") {
        Some(
            SandboxPolicy::WorkspaceWrite {
                writable_roots: Vec::new(),
                network_access: false,
                exclude_tmpdir_env_var: false,
                exclude_slash_tmp: false,
            },
        )
    } else if str_eq(k.as_str(), "danger-full-access") {
        Some(SandboxPolicy::DangerFullAccess)
    } else {
        None
    }
}

/// Whether `a` comes no later than `b` in the order of `str`'s `cmp`:
/// lexicographic by character code (which for UTF-8 is the byte order).
pub open spec fn name_le(a: Seq<char>, b: Seq<char>) -> bool
    decreases a.len(),
{
    if a.len() == 0 {
        true
    } else if b.len() == 0 {
        false
    } else if (a[0] as u32) != (b[0] as u32) {
        (a[0] as u32) < (b[0] as u32)
    } else {
        name_le(a.drop_first(), b.drop_first())
    }
}

pub proof fn lemma_name_le_total(a: Seq<char>, b: Seq<char>)
    ensures
        name_le(a, b) || name_le(b, a),
    decreases a.len(),
{
    if a.len() > 0 && b.len() > 0 && (a[0] as u32) == (b[0] as u32) {
        lemma_name_le_total(a.drop_first(), b.drop_first());
    }
}

pub proof fn lemma_name_le_transitive(a: Seq<char>, b: Seq<char>, c: Seq<char>)
    requires
        name_le(a, b),
        name_le(b, c),
    ensures
        name_le(a, c),
    decreases a.len(),
{
    if a.len() > 0 && b.len() > 0 && c.len() > 0 && (a[0] as u32) == (b[0] as u32) && (b[0] as u32)
        == (c[0] as u32) {
        lemma_name_le_transitive(a.drop_first(), b.drop_first(), c.drop_first());
    }
}

/// Whether `a` comes no later than `b`.
fn names_in_order(a: &str, b: &str) -> (r: bool)
    ensures
        r == name_le(a@, b@),
{
    let x = chars_of(a);
    let y = chars_of(b);
    let mut i: usize = 0;
    assert(x@.skip(0) =~= x@);
    assert(y@.skip(0) =~= y@);
    while i < x.len() && i < y.len() && (x[i] as u32) == (y[i] as u32)
        invariant
            x@ == a@,
            y@ == b@,
            i <= x@.len(),
            i <= y@.len(),
            name_le(a@, b@) == name_le(x@.skip(i as int), y@.skip(i as int)),
        decreases x.len() - i,
    {
        assert(x@.skip(i as int).drop_first() =~= x@.skip(i + 1));
        assert(y@.skip(i as int).drop_first() =~= y@.skip(i + 1));
        i += 1;
    }
    if i == x.len() {
        true
    } else if i == y.len() {
        false
    } else {
        assert(x@.skip(i as int)[0] == x@[i as int]);
        assert(y@.skip(i as int)[0] == y@[i as int]);
        (x[i] as u32) < (y[i] as u32)
    }
}

/// Whether the agents are in order of name.
pub open spec fn sorted_by_name(s: Seq<CustomAgent>) -> bool {
    forall|i: int, j: int| 0 <= i < j < s.len() ==> name_le(s[i].name@, s[j].name@)
}

/// The same agents, in order of name.
pub fn sort_by_name(agents: Vec<CustomAgent>) -> (r: Vec<CustomAgent>)
    ensures
        r@.to_multiset() == agents@.to_multiset(),
        sorted_by_name(r@),
{
    broadcast use vstd::seq_lib::group_to_multiset_ensures;

    let mut rest = agents;
    let mut out: Vec<CustomAgent> = Vec::new();
    let ghost orig = rest@;
    while rest.len() > 0
        invariant
            out@.to_multiset().add(rest@.to_multiset()) == orig.to_multiset(),
            sorted_by_name(out@),
        decreases rest.len(),
    {
        let ghost before = rest@;
        let a = rest.remove(0);
        assert(before.remove(0) == rest@);
        let mut p: usize = 0;
        while p < out.len() && names_in_order(out[p].name.as_str(), a.name.as_str())
            invariant
                p <= out@.len(),
                forall|k: int| 0 <= k < p ==> name_le(#[trigger] out@[k].name@, a.name@),
            decreases out.len() - p,
        {
            p += 1;
        }
        proof {
            if p < out@.len() {
                lemma_name_le_total(a.name@, out@[p as int].name@);
                assert forall|k: int| p <= k < out@.len() implies name_le(
                    a.name@,
                    #[trigger] out@[k].name@,
                ) by {
                    if k > p {
                        lemma_name_le_transitive(a.name@, out@[p as int].name@, out@[k].name@);
                    }
                }
            }
        }
        let ghost old_out = out@;
        let ghost item = a;
        out.insert(p, a);
        proof {
            assert(out@ == old_out.insert(p as int, item));
            vstd::seq_lib::to_multiset_insert(old_out, p as int, item);
            vstd::seq_lib::to_multiset_remove(before, 0);
            assert(before[0] == item);
            assert(before.contains(item));
            vstd::seq_lib::to_multiset_contains(before, item);
            assert(out@.to_multiset().add(rest@.to_multiset()) =~= old_out.to_multiset().add(
                before.to_multiset(),
            ));
            assert forall|i: int, j: int| 0 <= i < j < out@.len() implies name_le(
                out@[i].name@,
                out@[j].name@,
            ) by {
                if i < p && j == p {
                } else if i < p && j > p {
                    assert(out@[j] == old_out[j - 1]);
                } else if i == p && j > p {
                    assert(out@[j] == old_out[j - 1]);
                } else if i > p {
                    assert(out@[i] == old_out[i - 1]);
                    assert(out@[j] == old_out[j - 1]);
                }
            }
        }
    }
    proof {
        assert(rest@.to_multiset() =~= Multiset::empty());
        assert(out@.to_multiset().add(Multiset::empty()) =~= out@.to_multiset());
    }
    out
}

} // verus!
