//! What is made of the answers of Git.

use vstd::prelude::*;
use crate::text::{
    chars_of, starts_with, string_of_range, trim, trim_bounds, trimmed,
    occurs_at,
};

verus! {

/// The rules for reading what Git prints.
#[derive(Clone, Copy, Debug)]
pub struct GitUtils;

/// The part of `absolute` below the directory `root`: nothing where they
/// are the same; what follows `root` and a slash where `absolute` starts
/// so; `None` where `absolute` is not below `root`.
pub open spec fn path_below(root: Seq<char>, absolute: Seq<char>) -> Option<Seq<char>> {
    if absolute == root {
        Some(Seq::empty())
    } else if !occurs_at(absolute, root, 0) {
        None
    } else if root.len() > 0 && root.last() == '/' {
        Some(absolute.skip(root.len() as int))
    } else if absolute.len() > root.len() && absolute[root.len() as int] == '/' {
        Some(absolute.skip(root.len() as int + 1))
    } else {
        None
    }
}

/// The path of a file as memories name it: below the root of the
/// repository where the root and the absolute path are known and the file
/// lies below the root; else as it was given.
pub open spec fn relative_path(
    given: Seq<char>,
    root: Option<Seq<char>>,
    absolute: Option<Seq<char>>,
) -> Seq<char> {
    match (root, absolute) {
        (Some(r), Some(a)) => match path_below(r, a) {
            Some(rest) => rest,
            None => given,
        },
        _ => given,
    }
}

/// The lines among the first `n` characters of `s` that hold more than
/// white space, each trimmed, and the line that the `n`-th character is
/// still part of.
pub open spec fn lines_scanned(s: Seq<char>, n: int) -> (Seq<Seq<char>>, Seq<char>)
    decreases n,
{
    if n <= 0 {
        (Seq::empty(), Seq::empty())
    } else {
        let (done, open) = lines_scanned(s, n - 1);
        if s[n - 1] == '\n' {
            if trimmed(open).len() > 0 {
                (done.push(trimmed(open)), Seq::empty())
            } else {
                (done, Seq::empty())
            }
        } else {
            (done, open.push(s[n - 1]))
        }
    }
}

/// The lines of `s` that hold more than white space, each trimmed.
pub open spec fn filled_lines(s: Seq<char>) -> Seq<Seq<char>> {
    let (done, open) = lines_scanned(s, s.len() as int);
    if trimmed(open).len() > 0 {
        done.push(trimmed(open))
    } else {
        done
    }
}

impl GitUtils {
    /// The commit that `git rev-parse HEAD` named: what it printed,
    /// trimmed, where it succeeded.
    pub fn commit_from_output(success: bool, stdout: &str) -> (r: Option<String>)
        ensures
            match r {
                Some(c) => success && c@ == trimmed(stdout@),
                None => !success,
            },
    {
        if success {
            Some(trim(stdout))
        } else {
            None
        }
    }

    /// The files that `git diff --name-only HEAD` named: the lines that it
    /// printed, trimmed, without the empty ones; none where it failed.
    pub fn files_from_output(success: bool, stdout: &str) -> (r: Vec<String>)
        ensures
            success ==> crate::text::views(r@) == filled_lines(stdout@),
            !success ==> r@.len() == 0,
    {
        let mut out: Vec<String> = Vec::new();
        if !success {
            return out;
        }
        let all = chars_of(stdout);
        let mut line: Vec<char> = Vec::new();
        let mut i: usize = 0;
        assert(crate::text::views(out@) =~= Seq::empty());
        while i < all.len()
            invariant
                i <= all.len(),
                all@ == stdout@,
                crate::text::views(out@) == lines_scanned(all@, i as int).0,
                line@ == lines_scanned(all@, i as int).1,
            decreases all.len() - i,
        {
            if all[i] == '\n' {
                let (from, to) = trim_bounds(&line);
                if to > from {
                    let ghost prev = crate::text::views(out@);
                    out.push(string_of_range(&line, from, to));
                    assert(crate::text::views(out@) =~= prev.push(trimmed(line@)));
                }
                line = Vec::new();
            } else {
                line.push(all[i]);
            }
            i += 1;
        }
        let (from, to) = trim_bounds(&line);
        if to > from {
            let ghost prev = crate::text::views(out@);
            out.push(string_of_range(&line, from, to));
            assert(crate::text::views(out@) =~= prev.push(trimmed(line@)));
        }
        out
    }

    /// The path of a file as memories name it. `repo_root` is the root of
    /// the repository, where Git named one; `absolute` is the canonical
    /// path of the file, where it has one.
    pub fn get_relative_path(file_path: &str, repo_root: Option<&str>, absolute: Option<&str>) -> (r:
        Option<String>)
        ensures
            r is Some,
            r->0@ == relative_path(
                file_path@,
                crate::storage::text_of(repo_root),
                crate::storage::text_of(absolute),
            ),
    {
        match (repo_root, absolute) {
            (Some(root), Some(abs)) => {
                let r = chars_of(root);
                let a = chars_of(abs);
                if crate::text::same_chars(&r, &a) {
                    assert(r@.subrange(0, 0) =~= Seq::empty());
                    return Some(string_of_range(&r, 0, 0));
                }
                if !starts_with(&a, &r) {
                    return Some(file_path.to_owned());
                }
                if r.len() > 0 && r[r.len() - 1] == '/' {
                    assert(a@.subrange(r.len() as int, a.len() as int) =~= a@.skip(r.len() as int));
                    return Some(string_of_range(&a, r.len(), a.len()));
                }
                if a.len() > r.len() && a[r.len()] == '/' {
                    assert(a@.subrange(r.len() + 1, a.len() as int) =~= a@.skip(r.len() + 1));
                    return Some(string_of_range(&a, r.len() + 1, a.len()));
                }
                Some(file_path.to_owned())
            },
            _ => Some(file_path.to_owned()),
        }
    }
}

} // verus!
