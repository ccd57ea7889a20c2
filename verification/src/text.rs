//! Character-level string helpers shared by the lexer, parser, translator
//! and index resolver: verified equality, classification and trimming on
//! `&str`, plus the quoting/escaping used for string literals.

use vstd::prelude::*;
use vstd::string::StrSliceExecFns;

verus! {

/// Relies on String::push: appends exactly one character at the end.
#[verifier::external_body]
pub fn push_char(s: &mut String, c: char)
    ensures
        final(s)@ == old(s)@.push(c),
{
    s.push(c);
}

pub open spec fn is_digit_char(c: char) -> bool {
    '0' as u32 <= c as u32 && c as u32 <= '9' as u32
}

pub open spec fn is_ident_start_char(c: char) -> bool {
    ('a' as u32 <= c as u32 && c as u32 <= 'z' as u32)
    || ('A' as u32 <= c as u32 && c as u32 <= 'Z' as u32)
    || c == '_'
}

pub open spec fn is_ident_char(c: char) -> bool {
    is_ident_start_char(c) || is_digit_char(c)
}

/// Identifier syntax: a letter or underscore, then letters, digits or
/// underscores.
pub open spec fn valid_ident(s: Seq<char>) -> bool {
    &&& s.len() > 0
    &&& is_ident_start_char(s[0])
    &&& forall|i: int| 1 <= i < s.len() ==> is_ident_char(#[trigger] s[i])
}

pub open spec fn all_digits(s: Seq<char>) -> bool {
    forall|i: int| 0 <= i < s.len() ==> is_digit_char(#[trigger] s[i])
}

pub open spec fn has_char(s: Seq<char>, c: char) -> bool {
    exists|i: int| 0 <= i < s.len() && s[i] == c
}

pub open spec fn has_dot_dot(s: Seq<char>) -> bool {
    exists|i: int| 0 <= i && i + 1 < s.len() && #[trigger] s[i] == '.' && s[i + 1] == '.'
}

pub fn str_eq(a: &str, b: &str) -> (r: bool)
    ensures
        r == (a@ == b@),
{
    let alen: usize = a.unicode_len();
    let blen: usize = b.unicode_len();
    if alen != blen {
        return false;
    }
    let mut i: usize = 0;
    while i < alen
        invariant
            alen == a@.len(),
            alen == b@.len(),
            i <= alen,
            forall|j: int| 0 <= j < i ==> a@[j] == b@[j],
        decreases alen - i,
    {
        if a.get_char(i) != b.get_char(i) {
            return false;
        }
        i += 1;
    }
    proof {
        assert(a@ =~= b@);
    }
    true
}

pub fn is_valid_identifier(s: &str) -> (r: bool)
    ensures
        r == valid_ident(s@),
{
    let n: usize = s.unicode_len();
    if n == 0 {
        return false;
    }
    let c0 = s.get_char(0);
    let u0 = c0 as u32;
    let start_ok = (97 <= u0 && u0 <= 122) || (65 <= u0 && u0 <= 90) || c0 == '_';
    if !start_ok {
        return false;
    }
    let mut i: usize = 1;
    while i < n
        invariant
            n == s@.len(),
            1 <= i <= n,
            is_ident_start_char(s@[0]),
            forall|j: int| 1 <= j < i ==> is_ident_char(#[trigger] s@[j]),
        decreases n - i,
    {
        let c = s.get_char(i);
        let u = c as u32;
        let ok = (97 <= u && u <= 122) || (65 <= u && u <= 90) || c == '_' || (48 <= u && u <= 57);
        if !ok {
            return false;
        }
        i += 1;
    }
    true
}

pub fn is_all_digits(s: &str) -> (r: bool)
    ensures
        r == all_digits(s@),
{
    let n: usize = s.unicode_len();
    let mut i: usize = 0;
    while i < n
        invariant
            n == s@.len(),
            i <= n,
            forall|j: int| 0 <= j < i ==> is_digit_char(#[trigger] s@[j]),
        decreases n - i,
    {
        let c = s.get_char(i);
        let u = c as u32;
        if !(48 <= u && u <= 57) {
            return false;
        }
        i += 1;
    }
    true
}

pub fn contains_char(s: &str, c: char) -> (r: bool)
    ensures
        r == has_char(s@, c),
{
    let n: usize = s.unicode_len();
    let mut i: usize = 0;
    while i < n
        invariant
            n == s@.len(),
            i <= n,
            forall|j: int| 0 <= j < i ==> s@[j] != c,
        decreases n - i,
    {
        if s.get_char(i) == c {
            return true;
        }
        i += 1;
    }
    false
}

pub fn contains_dot_dot(s: &str) -> (r: bool)
    ensures
        r == has_dot_dot(s@),
{
    let n: usize = s.unicode_len();
    if n < 2 {
        return false;
    }
    let mut i: usize = 0;
    while i < n - 1
        invariant
            2 <= n == s@.len(),
            i <= n,
            forall|j: int| 0 <= j && j + 1 < i + 1 ==> !(#[trigger] s@[j] == '.' && s@[j + 1] == '.'),
        decreases n - i,
    {
        if s.get_char(i) == '.' && s.get_char(i + 1) == '.' {
            return true;
        }
        i += 1;
    }
    false
}

/// One escaped character of a single-quoted literal: a quote gains a
/// backslash, everything else passes through.
pub open spec fn escaped_char(c: char) -> Seq<char> {
    if c == '\'' {
        seq!['\\', '\'']
    } else {
        seq![c]
    }
}

pub open spec fn escape_quotes(s: Seq<char>) -> Seq<char>
    decreases s.len(),
{
    if s.len() == 0 {
        Seq::empty()
    } else {
        escaped_char(s[0]) + escape_quotes(s.subrange(1, s.len() as int))
    }
}

/// A string literal as the target filter language writes it: single-quoted,
/// with inner single quotes backslash-escaped.
pub open spec fn quoted_literal(s: Seq<char>) -> Seq<char> {
    seq!['\''] + escape_quotes(s) + seq!['\'']
}

proof fn lemma_escape_quotes_snoc(t: Seq<char>, c: char)
    ensures
        escape_quotes(t.push(c)) == escape_quotes(t) + escaped_char(c),
    decreases t.len(),
{
    if t.len() == 0 {
        let p = t.push(c);
        assert(p.subrange(1, p.len() as int) =~= Seq::<char>::empty());
        assert(escape_quotes(p) == escaped_char(c) + escape_quotes(Seq::<char>::empty()));
        assert(escaped_char(c) + Seq::<char>::empty() =~= escaped_char(c));
        assert(escape_quotes(t) + escaped_char(c) =~= escaped_char(c));
    } else {
        lemma_escape_quotes_snoc(t.subrange(1, t.len() as int), c);
        assert(t.push(c).subrange(1, t.push(c).len() as int) =~= t.subrange(1, t.len() as int).push(c));
        assert(escape_quotes(t.push(c)) =~= escape_quotes(t) + escaped_char(c));
    }
}

pub fn quote_string_literal(s: &str) -> (r: String)
    ensures
        r@ == quoted_literal(s@),
{
    let mut out = String::new();
    push_char(&mut out, '\'');
    let n: usize = s.unicode_len();
    let mut i: usize = 0;
    while i < n
        invariant
            n == s@.len(),
            i <= n,
            out@ == seq!['\''] + escape_quotes(s@.take(i as int)),
        decreases n - i,
    {
        let c = s.get_char(i);
        proof {
            lemma_escape_quotes_snoc(s@.take(i as int), s@[i as int]);
            assert(s@.take(i + 1) =~= s@.take(i as int).push(s@[i as int]));
        }
        if c == '\'' {
            push_char(&mut out, '\\');
            push_char(&mut out, '\'');
        } else {
            push_char(&mut out, c);
        }
        proof {
            assert(out@ =~= seq!['\''] + escape_quotes(s@.take(i + 1)));
        }
        i += 1;
    }
    push_char(&mut out, '\'');
    proof {
        assert(s@.take(n as int) =~= s@);
        assert(out@ =~= quoted_literal(s@));
    }
    out
}

/// The suffix of `s` after stripping every leading `c`.
pub open spec fn trim_start_spec(s: Seq<char>, c: char) -> Seq<char>
    decreases s.len(),
{
    if s.len() > 0 && s[0] == c {
        trim_start_spec(s.subrange(1, s.len() as int), c)
    } else {
        s
    }
}

/// The prefix of `s` after stripping every trailing `c`.
pub open spec fn trim_end_spec(s: Seq<char>, c: char) -> Seq<char>
    decreases s.len(),
{
    if s.len() > 0 && s[s.len() - 1] == c {
        trim_end_spec(s.subrange(0, s.len() - 1), c)
    } else {
        s
    }
}

/// `s` with every leading and trailing `c` stripped.
pub open spec fn trim_spec(s: Seq<char>, c: char) -> Seq<char> {
    trim_end_spec(trim_start_spec(s, c), c)
}

proof fn lemma_trim_start_index(s: Seq<char>, c: char, k: int)
    requires
        0 <= k <= s.len(),
        forall|j: int| 0 <= j < k ==> s[j] == c,
        k == s.len() || s[k] != c,
    ensures
        trim_start_spec(s, c) == s.subrange(k, s.len() as int),
    decreases k,
{
    if k == 0 {
        assert(s.subrange(0, s.len() as int) =~= s);
    } else {
        let t = s.subrange(1, s.len() as int);
        lemma_trim_start_index(t, c, k - 1);
        assert(t.subrange(k - 1, t.len() as int) =~= s.subrange(k, s.len() as int));
    }
}

proof fn lemma_trim_end_index(s: Seq<char>, c: char, k: int)
    requires
        0 <= k <= s.len(),
        forall|j: int| k <= j < s.len() ==> s[j] == c,
        k == 0 || s[k - 1] != c,
    ensures
        trim_end_spec(s, c) == s.subrange(0, k),
    decreases s.len() - k,
{
    if k == s.len() {
        assert(s.subrange(0, s.len() as int) =~= s);
    } else {
        let t = s.subrange(0, s.len() - 1);
        lemma_trim_end_index(t, c, k);
        assert(t.subrange(0, k) =~= s.subrange(0, k));
    }
}

/// `s` with all leading and trailing copies of `c` removed, as
/// `str::trim_matches` does.
pub fn trim_char<'a>(s: &'a str, c: char) -> (r: &'a str)
    ensures
        r@ == trim_spec(s@, c),
{
    let n: usize = s.unicode_len();
    let mut lo: usize = 0;
    while lo < n && s.get_char(lo) == c
        invariant
            n == s@.len(),
            lo <= n,
            forall|j: int| 0 <= j < lo ==> s@[j] == c,
        decreases n - lo,
    {
        lo += 1;
    }
    let mut hi: usize = n;
    while hi > lo && s.get_char(hi - 1) == c
        invariant
            n == s@.len(),
            lo <= hi <= n,
            forall|j: int| hi <= j < n ==> s@[j] == c,
        decreases hi,
    {
        hi -= 1;
    }
    proof {
        lemma_trim_start_index(s@, c, lo as int);
        let t = s@.subrange(lo as int, n as int);
        if hi == lo {
            lemma_trim_end_index(t, c, 0);
        } else {
            lemma_trim_end_index(t, c, hi - lo);
        }
        assert(t.subrange(0, hi - lo) =~= s@.subrange(lo as int, hi as int));
    }
    s.substring_char(lo, hi)
}

/// `s` with all leading copies of `c` removed, as `str::trim_start_matches`.
pub fn trim_char_start<'a>(s: &'a str, c: char) -> (r: &'a str)
    ensures
        r@ == trim_start_spec(s@, c),
{
    let n: usize = s.unicode_len();
    let mut lo: usize = 0;
    while lo < n && s.get_char(lo) == c
        invariant
            n == s@.len(),
            lo <= n,
            forall|j: int| 0 <= j < lo ==> s@[j] == c,
        decreases n - lo,
    {
        lo += 1;
    }
    proof {
        lemma_trim_start_index(s@, c, lo as int);
    }
    s.substring_char(lo, n)
}

/// `s` with all trailing copies of `c` removed, as `str::trim_end_matches`.
pub fn trim_char_end<'a>(s: &'a str, c: char) -> (r: &'a str)
    ensures
        r@ == trim_end_spec(s@, c),
{
    let n: usize = s.unicode_len();
    let mut hi: usize = n;
    while hi > 0 && s.get_char(hi - 1) == c
        invariant
            n == s@.len(),
            hi <= n,
            forall|j: int| hi <= j < n ==> s@[j] == c,
        decreases hi,
    {
        hi -= 1;
    }
    proof {
        lemma_trim_end_index(s@, c, hi as int);
    }
    s.substring_char(0, hi)
}

} // verus!
