//! The index resolver's decision logic: pattern-token cleaning, the
//! directory-traversal defense, the glob-pattern expansion policy, and the
//! validation of glob results. The filesystem itself (stat and glob) is an
//! external collaborator; it reports plain facts (`is_dir`, `is_file`, the
//! matched paths) and this module decides, so every decision is verified
//! for whatever the filesystem answers.

use vstd::prelude::*;
use vstd::string::StrSliceExecFns;
use vstd::string::StringExecFns;
use crate::text::{
    contains_char, contains_dot_dot, has_char, has_dot_dot, trim_char, trim_char_end,
    trim_char_start, trim_end_spec, trim_spec, trim_start_spec,
};

verus! {

/// An index pattern token, unwrapped: all surrounding double quotes, then
/// commas, then leading `(` and trailing `)` are stripped.
pub open spec fn clean_pattern_spec(t: Seq<char>) -> Seq<char> {
    trim_end_spec(trim_start_spec(trim_spec(trim_spec(t, '"'), ','), '('), ')')
}

pub fn clean_pattern_token(token: &str) -> (r: String)
    ensures
        r@ == clean_pattern_spec(token@),
{
    let t1 = trim_char(token, '"');
    let t2 = trim_char(t1, ',');
    let t3 = trim_char_start(t2, '(');
    let t4 = trim_char_end(t3, ')');
    String::from_str(t4)
}

/// The traversal defense: a pattern holding `..`, starting with a path
/// separator, or holding a backslash is rejected before any filesystem
/// access.
pub open spec fn pattern_is_unsafe(p: Seq<char>) -> bool {
    has_dot_dot(p) || (p.len() > 0 && p[0] == '/') || has_char(p, '\\')
}

pub fn is_unsafe_pattern(pattern: &str) -> (r: bool)
    ensures
        r == pattern_is_unsafe(pattern@),
{
    if contains_dot_dot(pattern) {
        return true;
    }
    let n: usize = pattern.unicode_len();
    if n > 0 && pattern.get_char(0) == '/' {
        return true;
    }
    contains_char(pattern, '\\')
}

pub open spec fn has_suffix(s: Seq<char>, suffix: Seq<char>) -> bool {
    s.len() >= suffix.len() && s.subrange(s.len() - suffix.len(), s.len() as int) == suffix
}

pub open spec fn has_prefix(s: Seq<char>, prefix: Seq<char>) -> bool {
    s.len() >= prefix.len() && s.subrange(0, prefix.len() as int) == prefix
}

pub fn ends_with_str(s: &str, suffix: &str) -> (r: bool)
    ensures
        r == has_suffix(s@, suffix@),
{
    let n: usize = s.unicode_len();
    let m: usize = suffix.unicode_len();
    if m > n {
        return false;
    }
    let mut i: usize = 0;
    while i < m
        invariant
            n == s@.len(),
            m == suffix@.len(),
            m <= n,
            i <= m,
            forall|j: int| 0 <= j < i ==> s@[n - m + j] == suffix@[j],
        decreases m - i,
    {
        if s.get_char(n - m + i) != suffix.get_char(i) {
            proof {
                assert(s@.subrange(n - m, n as int)[i as int] != suffix@[i as int]);
            }
            return false;
        }
        i += 1;
    }
    proof {
        assert(s@.subrange(n - m, n as int) =~= suffix@);
    }
    true
}

pub fn starts_with_str(s: &str, prefix: &str) -> (r: bool)
    ensures
        r == has_prefix(s@, prefix@),
{
    let n: usize = s.unicode_len();
    let m: usize = prefix.unicode_len();
    if m > n {
        return false;
    }
    let mut i: usize = 0;
    while i < m
        invariant
            n == s@.len(),
            m == prefix@.len(),
            m <= n,
            i <= m,
            forall|j: int| 0 <= j < i ==> s@[j] == prefix@[j],
        decreases m - i,
    {
        if s.get_char(i) != prefix.get_char(i) {
            proof {
                assert(s@.subrange(0, m as int)[i as int] != prefix@[i as int]);
            }
            return false;
        }
        i += 1;
    }
    proof {
        assert(s@.subrange(0, m as int) =~= prefix@);
    }
    true
}

/// One path segment joined under `base`, as `PathBuf::push` does with a
/// relative segment: a separator is inserted only where `base` is
/// non-empty and does not already end with one.
pub open spec fn join_seg(base: Seq<char>, seg: Seq<char>) -> Seq<char> {
    if base.len() == 0 {
        seg
    } else if base[base.len() - 1] == '/' {
        base + seg
    } else {
        base + "/"@ + seg
    }
}

/// Appends one relative path segment, inserting a separator as
/// `PathBuf::push` would.
pub fn push_segment(path: &mut String, seg: &str)
    ensures
        final(path)@ == join_seg(old(path)@, seg@),
{
    let n: usize = path.as_str().unicode_len();
    if n == 0 {
        path.append(seg);
        proof {
            assert(path@ =~= seg@);
        }
    } else if path.as_str().get_char(n - 1) == '/' {
        path.append(seg);
    } else {
        path.append("/");
        path.append(seg);
    }
}

/// The glob pattern for one sanitized index pattern, joined under the
/// index root. First match wins: a pattern ending in `/*` matches data
/// files one level below it; a joined path that is a directory, or a
/// pattern ending in `/`, is searched recursively; a joined path that is
/// an existing file is used verbatim; anything else is searched
/// recursively. `joined_is_dir` and `joined_is_file` are the filesystem's
/// answers about the joined path.
pub open spec fn adjusted_pattern_spec(
    root: Seq<char>,
    pattern: Seq<char>,
    joined_is_dir: bool,
    joined_is_file: bool,
) -> Seq<char> {
    let joined = join_seg(root, pattern);
    if has_suffix(pattern, "/*"@) {
        join_seg(joined, "*.parquet"@)
    } else if joined_is_dir || has_suffix(pattern, "/"@) {
        join_seg(join_seg(joined, "**"@), "*.parquet"@)
    } else if joined_is_file {
        joined
    } else {
        join_seg(join_seg(joined, "**"@), "*.parquet"@)
    }
}

/// Joins `pattern` under `root` and applies the expansion policy.
pub fn adjusted_glob_pattern(
    root: &str,
    pattern: &str,
    joined_is_dir: bool,
    joined_is_file: bool,
) -> (r: String)
    ensures
        r@ == adjusted_pattern_spec(root@, pattern@, joined_is_dir, joined_is_file),
{
    let mut joined = String::from_str(root);
    push_segment(&mut joined, pattern);
    if ends_with_str(pattern, "/*") {
        push_segment(&mut joined, "*.parquet");
        return joined;
    }
    if joined_is_dir || ends_with_str(pattern, "/") {
        push_segment(&mut joined, "**");
        push_segment(&mut joined, "*.parquet");
        return joined;
    }
    if joined_is_file {
        return joined;
    }
    push_segment(&mut joined, "**");
    push_segment(&mut joined, "*.parquet");
    joined
}

/// The whole pattern decision for one index pattern: `None` exactly for a
/// pattern the traversal defense rejects, otherwise the glob pattern to
/// expand. The query is never failed by an unsafe pattern; it is skipped.
pub fn sanitized_glob_pattern(
    root: &str,
    pattern: &str,
    joined_is_dir: bool,
    joined_is_file: bool,
) -> (r: Option<String>)
    ensures
        pattern_is_unsafe(pattern@) <==> r is None,
        r matches Some(g) ==> g@ == adjusted_pattern_spec(
            root@,
            pattern@,
            joined_is_dir,
            joined_is_file,
        ),
{
    if is_unsafe_pattern(pattern) {
        None
    } else {
        Some(adjusted_glob_pattern(root, pattern, joined_is_dir, joined_is_file))
    }
}

/// Whether `path` lies strictly inside `root`: the root, then a path
/// separator, then at least one more character.
pub open spec fn within_root(path: Seq<char>, root: Seq<char>) -> bool {
    path.len() > root.len() && has_prefix(path, root) && path[root.len() as int] == '/'
}

/// Whether the file named by `path` carries the expected data extension:
/// it ends in `.parquet` with a non-empty file name stem before it.
pub open spec fn has_parquet_extension(path: Seq<char>) -> bool {
    has_suffix(path, ".parquet"@) && path.len() > ".parquet"@.len() && path[path.len()
        - ".parquet"@.len() - 1] != '/'
}

/// The re-verification of one glob result: it is kept only if the
/// filesystem reports it a regular file, it is nested under `root`, and it
/// carries the expected extension. Anything else is skipped, never
/// included.
pub fn accept_result_path(path: &str, root: &str, is_file: bool) -> (r: bool)
    ensures
        r == (is_file && within_root(path@, root@) && has_parquet_extension(path@)),
{
    if !is_file {
        return false;
    }
    let n: usize = path.unicode_len();
    let m: usize = root.unicode_len();
    if !(n > m && starts_with_str(path, root) && path.get_char(m) == '/') {
        return false;
    }
    proof {
        reveal_strlit(".parquet");
    }
    if !ends_with_str(path, ".parquet") {
        return false;
    }
    if !(n > 8) {
        return false;
    }
    let keep = path.get_char(n - 9) != '/';
    keep
}

} // verus!
