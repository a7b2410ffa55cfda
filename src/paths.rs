//! Unix path rules: the last component of a path and joining two paths.
use vstd::prelude::*;

use crate::text::{chars_of, owned, string_of_range};

verus! {

/// The number of characters after the last `/` of `p`.
pub open spec fn tail_len(p: Seq<char>) -> nat
    decreases p.len(),
{
    if p.len() == 0 || p.last() == '/' {
        0
    } else {
        1 + tail_len(p.drop_last())
    }
}

pub proof fn lemma_tail_len(p: Seq<char>)
    ensures
        tail_len(p) <= p.len(),
        tail_len(p) < p.len() ==> p[p.len() - tail_len(p) - 1] == '/',
    decreases p.len(),
{
    if p.len() > 0 && p.last() != '/' {
        lemma_tail_len(p.drop_last());
        if tail_len(p) < p.len() {
            assert(p.drop_last()[p.len() - tail_len(p) - 1] == p[p.len() - tail_len(p) - 1]);
        }
    }
}

/// The final component of a path, as `Path::file_name` gives it on Unix:
/// trailing separators and `.` components are skipped, and a path that ends
/// in `..` or has no component has no file name.
pub open spec fn file_name_of(p: Seq<char>) -> Option<Seq<char>>
    decreases p.len(),
{
    if p.len() == 0 {
        None
    } else if p.last() == '/' {
        file_name_of(p.drop_last())
    } else {
        proof {
            lemma_tail_len(p);
        }
        let n = tail_len(p);
        let seg = p.skip(p.len() - n);
        if seg == "."@ {
            file_name_of(p.take(p.len() - n))
        } else if seg == ".."@ {
            None
        } else {
            Some(seg)
        }
    }
}

/// The final component of a path, if it has one.
pub fn file_name(path: &str) -> (r: Option<String>)
    ensures
        match r {
            Some(n) => file_name_of(path@) == Some(n@),
            None => file_name_of(path@) is None,
        },
{
    let cs = chars_of(path);
    let mut end: usize = cs.len();
    assert(cs@.take(end as int) =~= cs@);
    loop
        invariant
            end <= cs@.len(),
            cs@ == path@,
            file_name_of(path@) == file_name_of(cs@.take(end as int)),
        decreases end,
    {
        if end == 0 {
            return None;
        }
        let ghost p = cs@.take(end as int);
        if cs[end - 1] == '/' {
            assert(p.drop_last() =~= cs@.take(end - 1));
            end -= 1;
        } else {
            let mut start: usize = end;
            while start > 0 && cs[start - 1] != '/'
                invariant
                    start <= end <= cs@.len(),
                    p == cs@.take(end as int),
                    tail_len(p) == (end - start) + tail_len(cs@.take(start as int)),
                decreases start,
            {
                assert(cs@.take(start as int).drop_last() =~= cs@.take(start - 1));
                start -= 1;
            }
            assert(tail_len(cs@.take(start as int)) == 0);
            assert(p.skip(p.len() - tail_len(p)) =~= cs@.subrange(start as int, end as int));
            let is_dot = end - start == 1 && cs[start] == '.';
            let is_dotdot = end - start == 2 && cs[start] == '.' && cs[start + 1] == '.';
            proof {
                reveal_strlit(".");
                reveal_strlit("..");
                let seg = cs@.subrange(start as int, end as int);
                if is_dot {
                    assert(seg =~= "."@);
                } else {
                    assert(seg.len() != 1 || seg[0] != '.');
                }
                if is_dotdot {
                    assert(seg =~= ".."@);
                } else {
                    assert(seg.len() != 2 || seg[0] != '.' || seg[1] != '.');
                }
            }
            if is_dot {
                assert(p.take(p.len() - tail_len(p)) =~= cs@.take(start as int));
                end = start;
            } else if is_dotdot {
                return None;
            } else {
                return Some(string_of_range(cs.as_slice(), start, end));
            }
        }
    }
}

/// `part` joined onto `base`, as `Path::join` does on Unix: an absolute
/// `part` replaces `base`, and otherwise a separator is put between them
/// unless `base` is empty or already ends with one.
pub open spec fn joined_path(base: Seq<char>, part: Seq<char>) -> Seq<char> {
    if part.len() > 0 && part[0] == '/' {
        part
    } else if base.len() == 0 || base.last() == '/' {
        base + part
    } else {
        base + "/"@ + part
    }
}

/// `part` joined onto `base`.
pub fn join_path(base: &str, part: &str) -> (r: String)
    ensures
        r@ == joined_path(base@, part@),
{
    let p = chars_of(part);
    if p.len() > 0 && p[0] == '/' {
        return owned(part);
    }
    let b = chars_of(base);
    let mut out = owned(base);
    if !(b.len() == 0 || b[b.len() - 1] == '/') {
        out.append("/");
    }
    out.append(part);
    out
}

} // verus!
