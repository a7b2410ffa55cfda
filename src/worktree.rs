//! Git worktrees kept per conversation under `<repo>/codex/`.
use vstd::prelude::*;

use crate::agents::{lemma_line_len, segment_len};
use crate::paths::{join_path, joined_path};
use crate::text::{chars_of, has_prefix, starts_with, string_of_range, string_views};

verus! {

/// A linked git worktree: the repository it belongs to and its checkout.
pub struct WorktreeHandle {
    repo_root: String,
    path: String,
}

impl View for WorktreeHandle {
    /// The repository root and the checkout path.
    type V = (Seq<char>, Seq<char>);

    closed spec fn view(&self) -> (Seq<char>, Seq<char>) {
        (self.repo_root@, self.path@)
    }
}

impl WorktreeHandle {
    /// A handle on the worktree at `path` of the repository at `repo_root`.
    pub fn new(repo_root: String, path: String) -> (r: Self)
        ensures
            r@ == (repo_root@, path@),
    {
        WorktreeHandle { repo_root, path }
    }

    /// The root of the repository the worktree belongs to.
    pub fn repo_root(&self) -> (r: &str)
        ensures
            r@ == self@.0,
    {
        self.repo_root.as_str()
    }

    /// Absolute path to the worktree checkout on disk.
    pub fn path(&self) -> (r: &str)
        ensures
            r@ == self@.1,
    {
        self.path.as_str()
    }
}

/// Where the worktree of a conversation lives: `<repo_root>/codex/<id>`.
pub fn worktree_path(repo_root: &str, conversation_id: &str) -> (r: String)
    ensures
        r@ == joined_path(joined_path(repo_root@, "codex"@), conversation_id@),
{
    let dir = join_path(repo_root, "codex");
    join_path(dir.as_str(), conversation_id)
}

/// A line of text without its line ending (`\n` or `\r\n`).
pub open spec fn without_line_end(seg: Seq<char>) -> Seq<char> {
    if seg.len() > 0 && seg.last() == '\n' {
        let l = seg.drop_last();
        if l.len() > 0 && l.last() == '\r' {
            l.drop_last()
        } else {
            l
        }
    } else {
        seg
    }
}

/// The lines of `s`, as `str::lines` splits them.
pub open spec fn lines_of(s: Seq<char>) -> Seq<Seq<char>>
    decreases s.len(),
{
    if s.len() == 0 {
        Seq::empty()
    } else {
        proof {
            lemma_line_len(s);
        }
        let n = segment_len(s);
        seq![without_line_end(s.take(n as int))] + lines_of(s.skip(n as int))
    }
}

/// The paths named by `worktree <path>` lines.
pub open spec fn listed_paths(lines: Seq<Seq<char>>) -> Seq<Seq<char>>
    decreases lines.len(),
{
    if lines.len() == 0 {
        Seq::empty()
    } else {
        (if starts_with(lines[0], "worktree "@) {
            seq![lines[0].skip(9)]
        } else {
            Seq::empty()
        }) + listed_paths(lines.drop_first())
    }
}

/// The worktree paths listed in the output of `git worktree list
/// --porcelain`, in order.
pub fn listed_worktrees(porcelain: &str) -> (r: Vec<String>)
    ensures
        string_views(r@) == listed_paths(lines_of(porcelain@)),
{
    let cs = chars_of(porcelain);
    let mut out: Vec<String> = Vec::new();
    let mut pos: usize = 0;
    proof {
        reveal_strlit("worktree ");
        assert(cs@.skip(0) =~= cs@);
    }
    while pos < cs.len()
        invariant
            cs@ == porcelain@,
            pos <= cs@.len(),
            listed_paths(lines_of(porcelain@)) == string_views(out@) + listed_paths(
                lines_of(cs@.skip(pos as int)),
            ),
        decreases cs.len() - pos,
    {
        let ghost rest = cs@.skip(pos as int);
        let mut e: usize = pos;
        while e < cs.len() && cs[e] != '\n'
            invariant
                pos <= e <= cs@.len(),
                rest == cs@.skip(pos as int),
                crate::agents::line_len(rest) == (e - pos) + crate::agents::line_len(
                    cs@.skip(e as int),
                ),
            decreases cs.len() - e,
        {
            assert(cs@.skip(e as int).drop_first() =~= cs@.skip(e + 1));
            e += 1;
        }
        assert(e < cs@.len() ==> cs@.skip(e as int)[0] == cs@[e as int]);
        let next = if e < cs.len() {
            e + 1
        } else {
            e
        };
        let mut end = if e < cs.len() {
            e
        } else {
            cs.len()
        };
        if e < cs.len() && end > pos && cs[end - 1] == '\r' {
            end = end - 1;
        }
        proof {
            lemma_line_len(rest);
            let seg = rest.take(segment_len(rest) as int);
            assert(seg =~= cs@.subrange(pos as int, next as int));
            if e < cs@.len() {
                assert(seg.drop_last() =~= cs@.subrange(pos as int, e as int));
                if e > pos && cs@[e - 1] == '\r' {
                    assert(seg.drop_last().drop_last() =~= cs@.subrange(pos as int, e - 1));
                }
            }
            assert(without_line_end(seg) =~= cs@.subrange(pos as int, end as int));
            assert(rest.skip(segment_len(rest) as int) =~= cs@.skip(next as int));
            let ls = lines_of(rest);
            assert(ls[0] == without_line_end(seg));
            assert(ls.drop_first() =~= lines_of(cs@.skip(next as int)));
        }
        let line = crate::text::sub_chars(cs.as_slice(), pos, end);
        if has_prefix(line.as_slice(), "worktree ") {
            proof {
                reveal_strlit("worktree ");
            }
            let p = string_of_range(line.as_slice(), 9, line.len());
            proof {
                assert(line@.subrange(9, line@.len() as int) =~= line@.skip(9));
            }
            let ghost before = out@;
            out.push(p);
            assert(string_views(out@) =~= string_views(before) + seq![p@]);
        } else {
            let ghost before = out@;
            assert(string_views(out@) =~= string_views(before) + Seq::<Seq<char>>::empty());
        }
        pos = next;
    }
    assert(cs@.skip(pos as int).len() == 0);
    assert(string_views(out@) + Seq::<Seq<char>>::empty() =~= string_views(out@));
    out
}

} // verus!
