//! Normalization of comment and documentation bodies.
use crate::text::{
    chars_of, find_char, index_of, is_white_space, same_chars, skip_white, slice_chars, string_of,
    trim_start, white_space,
};
use vstd::prelude::*;

verus! {

/// The first position from `k` on where `/*` stands, or the length.
pub open spec fn find_open(s: Seq<char>, k: int) -> int
    decreases s.len() - k,
{
    if 0 <= k < s.len() - 1 {
        if s[k] == '/' && s[k + 1] == '*' {
            k
        } else {
            find_open(s, k + 1)
        }
    } else {
        s.len() as int
    }
}

/// The text without its first `/*`.
pub open spec fn without_open(s: Seq<char>) -> Seq<char> {
    let p = find_open(s, 0);
    if p < s.len() {
        s.subrange(0, p) + s.subrange(p + 2, s.len() as int)
    } else {
        s
    }
}

/// The text without the `*/` it may end with.
pub open spec fn without_close(s: Seq<char>) -> Seq<char> {
    if s.len() >= 2 && s[s.len() - 2] == '*' && s[s.len() - 1] == '/' {
        s.subrange(0, s.len() - 2)
    } else {
        s
    }
}

/// The line without the carriage return it may end with.
pub open spec fn without_cr(line: Seq<char>) -> Seq<char> {
    if line.len() >= 1 && line[line.len() - 1] == '\r' {
        line.subrange(0, line.len() - 1)
    } else {
        line
    }
}

/// The line without its indentation, `*` margin and the one space after it.
pub open spec fn without_margin(line: Seq<char>) -> Seq<char> {
    let t = trim_start(line);
    if t.len() >= 2 && t[0] == '*' && t[1] == ' ' {
        t.subrange(2, t.len() as int)
    } else if t.len() >= 1 && t[0] == '*' {
        t.subrange(1, t.len() as int)
    } else {
        t
    }
}

/// The lines from `from` on, each without its margin, joined again.
pub open spec fn margin_lines(s: Seq<char>, from: int) -> Seq<char>
    decreases s.len() - from,
{
    let end = find_char(s, '\n', from);
    if 0 <= from <= end < s.len() {
        without_margin(without_cr(s.subrange(from, end))).push('\n') + margin_lines(s, end + 1)
    } else if 0 <= from <= s.len() {
        without_margin(without_cr(s.subrange(from, s.len() as int)))
    } else {
        Seq::empty()
    }
}

/// One pass over a body: drop the delimiters and leading white space, and
/// the margin of every line when there are several.
#[verifier::opaque]
pub open spec fn comment_body_once(body: Seq<char>) -> Seq<char> {
    let s = without_close(trim_start(without_open(body)));
    if find_char(s, '\n', 0) < s.len() {
        margin_lines(s, 0)
    } else {
        without_cr(s)
    }
}

/// The pass repeated until it changes nothing, at most `n` times.
pub open spec fn settled(body: Seq<char>, n: nat) -> Seq<char>
    decreases n,
{
    if n == 0 || comment_body_once(body) == body {
        body
    } else {
        settled(comment_body_once(body), (n - 1) as nat)
    }
}

/// The normalized body of a comment: the pass repeated until it changes
/// nothing. Every pass that changes a body shortens it.
#[verifier::opaque]
pub open spec fn comment_body(body: Seq<char>) -> Seq<char> {
    settled(body, body.len())
}

proof fn lemma_trim_start(s: Seq<char>)
    ensures
        trim_start(s).len() <= s.len(),
        trim_start(s).len() == s.len() ==> trim_start(s) == s,
    decreases s.len(),
{
    if s.len() > 0 && white_space(s[0]) {
        lemma_trim_start(s.drop_first());
    }
}

proof fn lemma_without_margin(line: Seq<char>)
    ensures
        without_margin(line).len() <= line.len(),
        without_margin(line).len() == line.len() ==> without_margin(line) == line,
{
    lemma_trim_start(line);
}

proof fn lemma_margin_lines(s: Seq<char>, from: int)
    requires
        0 <= from <= s.len(),
    ensures
        margin_lines(s, from).len() <= s.len() - from,
        margin_lines(s, from).len() == s.len() - from ==> margin_lines(s, from) == s.subrange(
            from,
            s.len() as int,
        ),
    decreases s.len() - from,
{
    lemma_find_char(s, '\n', from);
    let end = find_char(s, '\n', from);
    if end < s.len() {
        let line = s.subrange(from, end);
        lemma_without_margin(without_cr(line));
        lemma_margin_lines(s, end + 1);
        let rest = margin_lines(s, end + 1);
        if margin_lines(s, from).len() == s.len() - from {
            assert(without_margin(without_cr(line)) == line);
            assert(line.push('\n') + rest =~= s.subrange(from, s.len() as int));
        }
    } else {
        lemma_without_margin(without_cr(s.subrange(from, s.len() as int)));
    }
}

proof fn lemma_find_char(s: Seq<char>, c: char, k: int)
    requires
        0 <= k <= s.len(),
    ensures
        k <= find_char(s, c, k) <= s.len(),
        find_char(s, c, k) < s.len() ==> s[find_char(s, c, k)] == c,
    decreases s.len() - k,
{
    if k < s.len() && s[k] != c {
        lemma_find_char(s, c, k + 1);
    }
}

proof fn lemma_find_open(s: Seq<char>, k: int)
    requires
        0 <= k <= s.len(),
    ensures
        k <= find_open(s, k) <= s.len(),
        find_open(s, k) < s.len() ==> find_open(s, k) + 2 <= s.len(),
    decreases s.len() - k,
{
    if k < s.len() {
        lemma_find_open(s, k + 1);
    }
}

proof fn lemma_pass_shortens(body: Seq<char>)
    ensures
        comment_body_once(body).len() <= body.len(),
        comment_body_once(body).len() == body.len() ==> comment_body_once(body) == body,
{
    reveal(comment_body_once);
    lemma_find_open(body, 0);
    let a = without_open(body);
    lemma_trim_start(a);
    let s = without_close(trim_start(a));
    lemma_margin_lines(s, 0);
    assert(s.subrange(0, s.len() as int) =~= s);
}

proof fn lemma_settled(body: Seq<char>, n: nat)
    requires
        body.len() <= n,
    ensures
        comment_body_once(settled(body, n)) == settled(body, n),
    decreases n,
{
    lemma_pass_shortens(body);
    if n > 0 && comment_body_once(body) != body {
        lemma_settled(comment_body_once(body), (n - 1) as nat);
    }
}

fn locate_open(v: &Vec<char>) -> (r: usize)
    ensures
        r == find_open(v@, 0),
        r < v@.len() ==> r + 2 <= v@.len(),
        r <= v@.len(),
{
    let n: usize = v.len();
    let mut i: usize = 0;
    while i < n && i + 1 < n
        invariant
            i <= n,
            n == v@.len(),
            find_open(v@, i as int) == find_open(v@, 0),
        decreases n - i,
    {
        if v[i] == '/' && v[i + 1] == '*' {
            return i;
        }
        i += 1;
    }
    n
}

fn append_line(out: &mut Vec<char>, v: &Vec<char>, from: usize, to: usize)
    requires
        from <= to <= v@.len(),
    ensures
        final(out)@ == old(out)@ + without_margin(without_cr(v@.subrange(from as int, to as int))),
{
    let mut line = slice_chars(v, from, to);
    let ghost raw = line@;
    if line.len() >= 1 && line[line.len() - 1] == '\r' {
        let n: usize = line.len() - 1;
        line.truncate(n);
    }
    assert(line@ =~= without_cr(raw));
    let start: usize = skip_white(&line, 0);
    assert(line@.subrange(0, line@.len() as int) =~= line@);
    let ghost t = trim_start(line@);
    assert(t =~= line@.subrange(start as int, line@.len() as int));
    let mut at: usize = start;
    if start < line.len() && line[start] == '*' {
        at = start + 1;
        if at < line.len() && line[at] == ' ' {
            at = at + 1;
            assert(t[0] == '*' && t[1] == ' ');
        }
        assert(t[0] == '*');
    }
    assert(line@.subrange(at as int, line@.len() as int) =~= without_margin(line@)) by {
        assert(t.len() == line@.len() - start);
        if t.len() >= 2 {
            assert(t[1] == line@[start + 1]);
        }
        if t.len() >= 1 {
            assert(t[0] == line@[start as int]);
        }
    }
    let ghost before = out@;
    let mut i: usize = at;
    while i < line.len()
        invariant
            at <= i <= line@.len(),
            out@ =~= before + line@.subrange(at as int, i as int),
        decreases line@.len() - i,
    {
        out.push(line[i]);
        i += 1;
        assert(line@.subrange(at as int, i as int) =~= line@.subrange(at as int, i - 1).push(
            line@[i - 1],
        ));
    }
}

fn body_once(v: &Vec<char>) -> (r: Vec<char>)
    ensures
        r@ == comment_body_once(v@),
{
    proof {
        reveal(comment_body_once);
    }
    let p: usize = locate_open(v);
    let mut s: Vec<char> = Vec::new();
    if p < v.len() {
        s = slice_chars(v, 0, p);
        let mut rest = slice_chars(v, p + 2, v.len());
        s.append(&mut rest);
    } else {
        s = slice_chars(v, 0, v.len());
    }
    assert(s@ =~= without_open(v@));
    let start: usize = skip_white(&s, 0);
    assert(s@.subrange(0, s@.len() as int) =~= s@);
    let mut t = slice_chars(&s, start, s.len());
    assert(t@ =~= trim_start(without_open(v@)));
    let ghost u = t@;
    let n: usize = t.len();
    if n >= 2 && t[n - 2] == '*' && t[n - 1] == '/' {
        t.truncate(n - 2);
    }
    assert(t@ =~= without_close(u));
    let first: usize = index_of(&t, '\n', 0);
    if first >= t.len() {
        let m: usize = t.len();
        let ghost w = t@;
        if m >= 1 && t[m - 1] == '\r' {
            t.truncate(m - 1);
        }
        assert(t@ =~= without_cr(w));
        return t;
    }
    let mut out: Vec<char> = Vec::new();
    let mut from: usize = 0;
    let mut end: usize = first;
    while end < t.len()
        invariant
            from <= end <= t@.len(),
            end == find_char(t@, '\n', from as int),
            out@ + margin_lines(t@, from as int) =~= margin_lines(t@, 0),
        decreases t@.len() - from,
    {
        proof {
            reveal(comment_body_once);
        }
        let ghost before = out@;
        append_line(&mut out, &t, from, end);
        out.push('\n');
        assert(margin_lines(t@, from as int) == without_margin(
            without_cr(t@.subrange(from as int, end as int)),
        ).push('\n') + margin_lines(t@, end + 1));
        from = end + 1;
        end = index_of(&t, '\n', from);
    }
    append_line(&mut out, &t, from, t.len());
    assert(out@ =~= margin_lines(t@, 0));
    out
}

/// Comment and documentation body normalization: delimiters, leading white
/// space and margins are dropped, repeatedly until nothing changes.
pub fn process_comment_body(body: &str) -> (r: String)
    ensures
        r@ == comment_body(body@),
        comment_body_once(r@) == r@,
{
    proof {
        reveal(comment_body);
        lemma_settled(body@, body@.len());
    }
    let mut cur = chars_of(body);
    let mut left: usize = cur.len();
    while left > 0
        invariant
            settled(cur@, left as nat) == comment_body(body@),
        ensures
            cur@ == comment_body(body@),
        decreases left,
    {
        proof {
            reveal(comment_body);
        }
        let next = body_once(&cur);
        if same_chars(&next, &cur) {
            break;
        }
        cur = next;
        left -= 1;
    }
    string_of(&cur)
}

/// Normalizing is done once for all: a normalized body is one that the pass
/// does not change, and normalizing it again gives it back.
pub proof fn law_normal_bodies_stay(body: Seq<char>)
    ensures
        comment_body_once(comment_body(body)) == comment_body(body),
        comment_body(comment_body(body)) == comment_body(body),
{
    reveal(comment_body);
    lemma_settled(body, body.len());
}

/// The text without its trailing white space.
pub open spec fn trim_end(s: Seq<char>) -> Seq<char>
    decreases s.len(),
{
    if s.len() > 0 && white_space(s.last()) {
        trim_end(s.drop_last())
    } else {
        s
    }
}

/// A line without the `*` of a block comment's gutter and one space after it.
pub open spec fn without_gutter(t: Seq<char>) -> Seq<char> {
    if t.len() > 0 && t[0] == '*' {
        if t.len() > 1 && t[1] == ' ' {
            t.skip(2)
        } else {
            t.skip(1)
        }
    } else {
        t
    }
}

/// A line as it is shown.
pub open spec fn shown_line(line: Seq<char>) -> Seq<char> {
    trim_end(without_gutter(trim_start(line)))
}

/// The lines from `from` on as they are shown.
pub open spec fn shown_lines(s: Seq<char>, from: int) -> Seq<char>
    decreases s.len() - from,
    when 0 <= from <= s.len()
{
    let e = find_char(s, '\n', from);
    if from <= e < s.len() {
        shown_line(s.subrange(from, e)) + seq!['\n'] + shown_lines(s, e + 1)
    } else {
        shown_line(s.skip(from))
    }
}

/// A body as it is shown outside its source.
#[verifier::opaque]
pub open spec fn display_text(body: Seq<char>) -> Seq<char> {
    trim_end(trim_start(shown_lines(body, 0)))
}

fn cut_end(v: &Vec<char>, from: usize, to: usize) -> (r: usize)
    requires
        from <= to <= v@.len(),
    ensures
        from <= r <= to,
        v@.subrange(from as int, r as int) == trim_end(v@.subrange(from as int, to as int)),
{
    let mut i: usize = to;
    while i > from && is_white_space(v[i - 1])
        invariant
            from <= i <= to <= v@.len(),
            trim_end(v@.subrange(from as int, i as int)) == trim_end(
                v@.subrange(from as int, to as int),
            ),
        decreases i,
    {
        assert(v@.subrange(from as int, i as int).drop_last() =~= v@.subrange(from as int, i - 1));
        i -= 1;
    }
    i
}

fn push_range(out: &mut Vec<char>, v: &Vec<char>, from: usize, to: usize)
    requires
        from <= to <= v@.len(),
    ensures
        final(out)@ == old(out)@ + v@.subrange(from as int, to as int),
{
    let ghost start = out@;
    let mut i: usize = from;
    assert(out@ =~= start + v@.subrange(from as int, from as int));
    while i < to
        invariant
            from <= i <= to <= v@.len(),
            out@ == start + v@.subrange(from as int, i as int),
        decreases to - i,
    {
        out.push(v[i]);
        assert(v@.subrange(from as int, i + 1) =~= v@.subrange(from as int, i as int).push(v@[i as int]));
        assert(out@ =~= start + v@.subrange(from as int, i + 1));
        i += 1;
    }
}

fn show_line(out: &mut Vec<char>, v: &Vec<char>, from: usize, to: usize)
    requires
        from <= to <= v@.len(),
    ensures
        final(out)@ == old(out)@ + shown_line(v@.subrange(from as int, to as int)),
{
    let line: Vec<char> = slice_chars(v, from, to);
    let mut a: usize = skip_white(&line, 0);
    let n: usize = line.len();
    assert(line@.subrange(0, n as int) =~= line@);
    let ghost t = trim_start(line@);
    if a < n && line[a] == '*' {
        if a + 1 < n && line[a + 1] == ' ' {
            a += 2;
        } else {
            a += 1;
        }
    }
    assert(line@.subrange(a as int, n as int) =~= without_gutter(t));
    let b: usize = cut_end(&line, a, n);
    push_range(out, &line, a, b);
}

/// A comment or documentation body as it is shown outside its source: each
/// line without its leading white space and the `*` of the gutter, the whole
/// without blank edges.
pub fn doc_display_text(body: &str) -> (r: String)
    ensures
        r@ == display_text(body@),
{
    proof {
        reveal(display_text);
    }
    let v: Vec<char> = chars_of(body);
    let mut out: Vec<char> = Vec::new();
    let mut from: usize = 0;
    let n: usize = v.len();
    let ghost whole = shown_lines(body@, 0);
    assert(out@ + whole =~= whole);
    let mut open: bool = true;
    while open
        invariant
            v@ == body@,
            n == v@.len(),
            from <= n,
            open ==> out@ + shown_lines(body@, from as int) == whole,
            !open ==> out@ == whole,
        decreases n - from, if open { 1int } else { 0int },
    {
        let e: usize = index_of(&v, '\n', from);
        let ghost before = out@;
        if e < n {
            show_line(&mut out, &v, from, e);
            out.push('\n');
            let ghost line = shown_line(body@.subrange(from as int, e as int));
            let ghost rest = shown_lines(body@, e + 1);
            assert(before + (line + seq!['\n'] + rest) =~= out@ + rest);
            from = e + 1;
        } else {
            show_line(&mut out, &v, from, n);
            assert(body@.skip(from as int) =~= body@.subrange(from as int, n as int));
            open = false;
        }
    }
    let a: usize = skip_white(&out, 0);
    assert(out@.subrange(0, out@.len() as int) =~= out@);
    let b: usize = cut_end(&out, a, out.len());
    let shown: Vec<char> = slice_chars(&out, a, b);
    string_of(&shown)
}

} // verus!
