//! Checks on statement text: the forbidden-namespace check and the test for
//! statements that return rows.
use vstd::prelude::*;
use crate::error::Error;

verus! {

broadcast use vstd::string::axiom_spec_iter;

/// The prefix of the storage extension's internal namespace.
pub open spec fn internal_namespace() -> Seq<char> {
    "powersync_core"@
}

/// `pat` occurs in `s` starting at index `i`.
pub open spec fn occurs_at(s: Seq<char>, pat: Seq<char>, i: int) -> bool {
    0 <= i && i + pat.len() <= s.len() && s.subrange(i, i + pat.len()) == pat
}

/// `pat` occurs somewhere in `s`.
pub open spec fn contains(s: Seq<char>, pat: Seq<char>) -> bool {
    exists|i: int| occurs_at(s, pat, i)
}

/// The white-space characters that statement text may start with: those of
/// Unicode's `White_Space` property.
pub open spec fn is_space(c: char) -> bool {
    ('\u{9}' <= c && c <= '\u{d}') || c == ' ' || c == '\u{85}' || c == '\u{a0}' || c
        == '\u{1680}' || ('\u{2000}' <= c && c <= '\u{200a}') || c == '\u{2028}' || c
        == '\u{2029}' || c == '\u{202f}' || c == '\u{205f}' || c == '\u{3000}'
}

/// `s` without its leading white space.
pub open spec fn trim_start(s: Seq<char>) -> Seq<char>
    decreases s.len(),
{
    if s.len() > 0 && is_space(s[0]) {
        trim_start(s.drop_first())
    } else {
        s
    }
}

/// `c` equals `k`, or `k` is an upper-case ASCII letter and `c` its lower case.
pub open spec fn same_letter(c: char, k: char) -> bool {
    c == k || ('A' <= k && k <= 'Z' && c as u32 == k as u32 + 32)
}

/// `s` starts with the upper-case keyword `kw`, ignoring ASCII case.
pub open spec fn starts_with_keyword(s: Seq<char>, kw: Seq<char>) -> bool {
    kw.len() <= s.len() && forall|i: int| 0 <= i < kw.len() ==> same_letter(#[trigger] s[i], kw[i])
}

/// A statement that returns rows: after leading white space it starts with
/// `SELECT` or `PRAGMA`, in any ASCII case.
pub open spec fn is_query_sql(s: Seq<char>) -> bool {
    starts_with_keyword(trim_start(s), "SELECT"@) || starts_with_keyword(trim_start(s), "PRAGMA"@)
}

/// The characters of a string slice, in order.
pub fn chars_of(s: &str) -> (r: Vec<char>)
    ensures
        r@ == s@,
{
    let mut out: Vec<char> = Vec::new();
    for c in it: s.chars()
        invariant
            it.seq() == s@,
            out@ == it.seq().take(it.index() as int),
    {
        out.push(c);
    }
    assert(out@ == s@.take(s@.len() as int));
    out
}

/// Whether `pat` occurs in `s`.
pub fn contains_chars(s: &Vec<char>, pat: &Vec<char>) -> (r: bool)
    ensures
        r == contains(s@, pat@),
{
    let slen: usize = s.len();
    let plen: usize = pat.len();
    if plen == 0 {
        assert(s@.subrange(0, 0) =~= pat@);
        assert(occurs_at(s@, pat@, 0));
        return true;
    }
    if plen > slen {
        assert forall|i: int| !occurs_at(s@, pat@, i) by {}
        return false;
    }
    let last: usize = slen - plen;
    let mut i: usize = 0;
    while i <= last
        invariant
            slen == s@.len(),
            plen == pat@.len(),
            plen > 0,
            last + plen == slen,
            i <= last + 1,
            forall|k: int| 0 <= k < i ==> !occurs_at(s@, pat@, k),
        decreases last + 1 - i,
    {
        let mut j: usize = 0;
        let mut same: bool = true;
        while j < plen && same
            invariant
                slen == s@.len(),
                plen == pat@.len(),
                i <= last,
                last + plen == slen,
                j <= plen,
                same ==> forall|m: int| 0 <= m < j ==> s@[i + m] == pat@[m],
                !same ==> !occurs_at(s@, pat@, i as int),
            decreases plen - j,
        {
            assert(i + j < slen);
            if s[i + j] != pat[j] {
                same = false;
                assert(s@.subrange(i as int, i + pat@.len())[j as int] != pat@[j as int]);
            }
            j = j + 1;
        }
        if same {
            assert(s@.subrange(i as int, i + pat@.len()) =~= pat@);
            assert(occurs_at(s@, pat@, i as int));
            return true;
        }
        i = i + 1;
    }
    assert forall|k: int| !occurs_at(s@, pat@, k) by {}
    false
}

/// Rejects statement text that names the extension's internal namespace.
/// Only the statement template is looked at; bound values are data and never
/// pass through here.
pub fn validate_sql(sql: &str) -> (r: Result<(), Error>)
    ensures
        r is Ok <==> !contains(sql@, internal_namespace()),
        r is Err ==> r->Err_0 is ForbiddenSql && r->Err_0->ForbiddenSql_0@
            == "SQL must not reference powersync_core"@,
{
    let text = chars_of(sql);
    let pat = chars_of("powersync_core");
    if contains_chars(&text, &pat) {
        return Err(Error::ForbiddenSql(String::from_str("SQL must not reference powersync_core")));
    }
    Ok(())
}

proof fn lemma_trim_start_at(s: Seq<char>, i: int)
    requires
        0 <= i <= s.len(),
        forall|k: int| 0 <= k < i ==> is_space(#[trigger] s[k]),
        i < s.len() ==> !is_space(s[i]),
    ensures
        trim_start(s) == s.subrange(i, s.len() as int),
    decreases i,
{
    if i == 0 {
        assert(s.subrange(0, s.len() as int) =~= s);
    } else {
        let t = s.drop_first();
        assert forall|k: int| 0 <= k < i - 1 implies is_space(#[trigger] t[k]) by {
            assert(t[k] == s[k + 1]);
        }
        lemma_trim_start_at(t, i - 1);
        assert(t.subrange(i - 1, t.len() as int) =~= s.subrange(i, s.len() as int));
    }
}

fn is_space_char(c: char) -> (r: bool)
    ensures
        r == is_space(c),
{
    ('\u{9}' <= c && c <= '\u{d}') || c == ' ' || c == '\u{85}' || c == '\u{a0}' || c == '\u{1680}'
        || ('\u{2000}' <= c && c <= '\u{200a}') || c == '\u{2028}' || c == '\u{2029}' || c
        == '\u{202f}' || c == '\u{205f}' || c == '\u{3000}'
}

fn keyword_at(s: &Vec<char>, from: usize, kw: &Vec<char>) -> (r: bool)
    requires
        from <= s@.len(),
        forall|i: int| 0 <= i < kw@.len() ==> 'A' <= #[trigger] kw@[i] <= 'Z',
    ensures
        r == starts_with_keyword(s@.subrange(from as int, s@.len() as int), kw@),
{
    let ghost t = s@.subrange(from as int, s@.len() as int);
    if kw.len() > s.len() - from {
        return false;
    }
    let n: usize = kw.len();
    let mut j: usize = 0;
    while j < n
        invariant
            n == kw@.len(),
            s@.len() <= usize::MAX,
            from + kw@.len() <= s@.len(),
            t == s@.subrange(from as int, s@.len() as int),
            j <= kw@.len(),
            forall|i: int| 0 <= i < kw@.len() ==> 'A' <= #[trigger] kw@[i] <= 'Z',
            forall|m: int| 0 <= m < j ==> same_letter(#[trigger] t[m], kw@[m]),
        decreases kw@.len() - j,
    {
        let c = s[from + j];
        let k = kw[j];
        assert(t[j as int] == c);
        if !(c == k || (c as u32) == (k as u32) + 32) {
            return false;
        }
        j = j + 1;
    }
    true
}

/// Whether a statement returns rows, so that executing it must hand them
/// back: after leading white space it begins with `SELECT` or `PRAGMA`,
/// in any ASCII case.
pub fn is_query(sql: &str) -> (r: bool)
    ensures
        r == is_query_sql(sql@),
{
    let s = chars_of(sql);
    let mut i: usize = 0;
    while i < s.len() && is_space_char(s[i])
        invariant
            i <= s@.len(),
            forall|k: int| 0 <= k < i ==> is_space(#[trigger] s@[k]),
        decreases s@.len() - i,
    {
        i = i + 1;
    }
    proof {
        lemma_trim_start_at(s@, i as int);
        reveal_strlit("SELECT");
        reveal_strlit("PRAGMA");
    }
    let select = chars_of("SELECT");
    let pragma = chars_of("PRAGMA");
    keyword_at(&s, i, &select) || keyword_at(&s, i, &pragma)
}

} // verus!
