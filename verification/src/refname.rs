//! Names as reference text: escaping, qualification, and reading back the
//! last segment.
use crate::ast::{QnV, QualifiedName};
use crate::text::{chars_of, slice_chars, string_of};
use vstd::prelude::*;

verus! {

pub open spec fn starts_name(c: char) -> bool {
    ('a' <= c && c <= 'z') || ('A' <= c && c <= 'Z') || c == '_'
}

pub open spec fn continues_name(c: char) -> bool {
    starts_name(c) || ('0' <= c && c <= '9')
}

/// A name that is written without quotes: a letter or underscore, followed
/// by letters, digits and underscores.
pub open spec fn basic_name(s: Seq<char>) -> bool {
    &&& s.len() > 0
    &&& starts_name(s[0])
    &&& forall|i: int| 0 <= i < s.len() ==> continues_name(#[trigger] s[i])
}

/// A character inside quotes.
pub open spec fn escaped_char(c: char) -> Seq<char> {
    if c == '\'' {
        seq!['\\', '\'']
    } else if c == '\\' {
        seq!['\\', '\\']
    } else if c == '\n' {
        seq!['\\', 'n']
    } else if c == '\r' {
        seq!['\\', 'r']
    } else if c == '\t' {
        seq!['\\', 't']
    } else {
        seq![c]
    }
}

pub open spec fn escaped_chars(s: Seq<char>) -> Seq<char>
    decreases s.len(),
{
    if s.len() == 0 {
        Seq::empty()
    } else {
        escaped_chars(s.drop_last()) + escaped_char(s.last())
    }
}

/// The escaped form of a name: the name itself where it is basic, quoted
/// with its special characters escaped otherwise.
#[verifier::opaque]
pub open spec fn escaped(s: Seq<char>) -> Seq<char> {
    if basic_name(s) {
        s
    } else {
        (seq!['\''] + escaped_chars(s)).push('\'')
    }
}

fn char_starts_name(c: char) -> (r: bool)
    ensures
        r == starts_name(c),
{
    ('a' <= c && c <= 'z') || ('A' <= c && c <= 'Z') || c == '_'
}

fn is_basic(s: &Vec<char>) -> (r: bool)
    ensures
        r == basic_name(s@),
{
    if s.len() == 0 || !char_starts_name(s[0]) {
        return false;
    }
    let n: usize = s.len();
    let mut i: usize = 0;
    while i < n
        invariant
            n == s@.len(),
            i <= n,
            forall|j: int| 0 <= j < i ==> continues_name(#[trigger] s@[j]),
        decreases n - i,
    {
        let c: char = s[i];
        if !(char_starts_name(c) || ('0' <= c && c <= '9')) {
            return false;
        }
        i += 1;
    }
    true
}

fn push_escaped_char(out: &mut String, c: char)
    ensures
        final(out)@ == old(out)@ + escaped_char(c),
{
    if c == '\'' {
        out.push('\\');
        out.push('\'');
    } else if c == '\\' {
        out.push('\\');
        out.push('\\');
    } else if c == '\n' {
        out.push('\\');
        out.push('n');
    } else if c == '\r' {
        out.push('\\');
        out.push('r');
    } else if c == '\t' {
        out.push('\\');
        out.push('t');
    } else {
        out.push(c);
    }
    assert(out@ =~= old(out)@ + escaped_char(c));
}

/// Appends a text.
pub fn push_text(out: &mut String, s: &str)
    ensures
        final(out)@ == old(out)@ + s@,
{
    let cs: Vec<char> = chars_of(s);
    let n: usize = cs.len();
    let mut i: usize = 0;
    assert(out@ =~= old(out)@ + cs@.take(0));
    while i < n
        invariant
            n == cs@.len(),
            i <= n,
            out@ == old(out)@ + cs@.take(i as int),
        decreases n - i,
    {
        out.push(cs[i]);
        assert(cs@.take(i + 1) =~= cs@.take(i as int).push(cs@[i as int]));
        assert(out@ =~= old(out)@ + cs@.take(i + 1));
        i += 1;
    }
    assert(cs@.take(n as int) =~= cs@);
}

pub fn push_escaped(out: &mut String, s: &str)
    ensures
        final(out)@ == old(out)@ + escaped(s@),
{
    proof {
        reveal(escaped);
    }
    let cs: Vec<char> = chars_of(s);
    if is_basic(&cs) {
        push_text(out, s);
        return;
    }
    out.push('\'');
    let ghost start = out@;
    let n: usize = cs.len();
    let mut i: usize = 0;
    assert(cs@.take(0) =~= Seq::<char>::empty());
    assert(out@ =~= start + escaped_chars(cs@.take(0)));
    while i < n
        invariant
            n == cs@.len(),
            i <= n,
            out@ == start + escaped_chars(cs@.take(i as int)),
        decreases n - i,
    {
        push_escaped_char(out, cs[i]);
        assert(cs@.take(i + 1).drop_last() =~= cs@.take(i as int));
        assert(cs@.take(i + 1).last() == cs@[i as int]);
        assert(out@ =~= start + escaped_chars(cs@.take(i + 1)));
        i += 1;
    }
    assert(cs@.take(n as int) =~= cs@);
    out.push('\'');
    assert(out@ =~= old(out)@ + escaped(s@));
}

pub fn escape_name(s: &str) -> (r: String)
    ensures
        r@ == escaped(s@),
{
    let mut out: String = String::new();
    push_escaped(&mut out, s);
    assert(out@ =~= escaped(s@));
    out
}

/// The escaped segments from `k` on, each after a separator.
pub open spec fn tail_segments(qn: QnV, k: int) -> Seq<char>
    decreases qn.segments.len() - k,
{
    if k < 0 || k >= qn.segments.len() {
        Seq::empty()
    } else {
        "::"@ + escaped(qn.segments[k].value) + tail_segments(qn, k + 1)
    }
}

/// The reference text of a qualified name: its escaped segments joined by
/// `::`, after `$::` where it is global.
#[verifier::opaque]
pub open spec fn ref_text(qn: QnV) -> Seq<char> {
    (if qn.is_global {
        "$::"@
    } else {
        ""@
    }) + (if qn.segments.len() == 0 {
        Seq::empty()
    } else {
        escaped(qn.segments[0].value) + tail_segments(qn, 1)
    })
}

pub fn ref_string(qn: &QualifiedName) -> (r: String)
    ensures
        r@ == ref_text(qn@),
{
    proof {
        reveal(ref_text);
    }
    let mut out: String = if qn.is_global {
        "$::".to_owned()
    } else {
        "".to_owned()
    };
    let n: usize = qn.segments.len();
    if n == 0 {
        assert(out@ =~= ref_text(qn@));
        return out;
    }
    push_escaped(&mut out, qn.segments[0].value.as_str());
    let mut k: usize = 1;
    assert(out@ + tail_segments(qn@, 1) =~= ref_text(qn@));
    while k < n
        invariant
            n == qn.segments@.len(),
            1 <= k <= n,
            out@ + tail_segments(qn@, k as int) == ref_text(qn@),
        decreases n - k,
    {
        let ghost before = out@;
        push_text(&mut out, "::");
        push_escaped(&mut out, qn.segments[k].value.as_str());
        assert(before + tail_segments(qn@, k as int) =~= out@ + tail_segments(qn@, k + 1));
        k += 1;
    }
    assert(out@ + tail_segments(qn@, n as int) =~= out@);
    out
}

/// Whether a separator stands at `i`.
pub open spec fn separator_at(s: Seq<char>, i: int) -> bool {
    0 <= i && i + 1 < s.len() && s[i] == ':' && s[i + 1] == ':'
}

/// What follows the last separator at or before `i`, the whole text where
/// there is none.
pub open spec fn after_separator(s: Seq<char>, i: int) -> Seq<char>
    decreases i + 1,
{
    if i < 0 {
        s
    } else if separator_at(s, i) {
        s.skip(i + 2)
    } else {
        after_separator(s, i - 1)
    }
}

/// The last segment of a reference text.
#[verifier::opaque]
pub open spec fn last_segment(s: Seq<char>) -> Seq<char> {
    after_separator(s, s.len() - 1)
}

pub fn last_segment_of(s: &str) -> (r: String)
    ensures
        r@ == last_segment(s@),
{
    proof {
        reveal(last_segment);
    }
    let cs: Vec<char> = chars_of(s);
    let n: usize = cs.len();
    let mut i: usize = n;
    while i > 0
        invariant
            n == cs@.len(),
            i <= n,
            cs@ == s@,
            after_separator(cs@, n - 1) == after_separator(cs@, i - 1),
            last_segment(s@) == after_separator(cs@, n - 1),
        decreases i,
    {
        i -= 1;
        if i + 1 < n && cs[i] == ':' && cs[i + 1] == ':' {
            let rest: Vec<char> = slice_chars(&cs, i + 2, n);
            assert(rest@ =~= cs@.skip(i + 2));
            return string_of(&rest);
        }
    }
    string_of(&cs)
}

/// A basic name is its own reference text.
pub proof fn law_basic_names_stand_for_themselves(qn: QnV)
    requires
        !qn.is_global,
        qn.segments.len() == 1,
        basic_name(qn.segments[0].value),
    ensures
        ref_text(qn) == qn.segments[0].value,
{
    reveal(ref_text);
    reveal(escaped);
    reveal_strlit("");
    assert(tail_segments(qn, 1) =~= Seq::<char>::empty());
    assert(ref_text(qn) =~= qn.segments[0].value);
}

} // verus!
