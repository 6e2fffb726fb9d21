//! Building blocks for rendering values as text.

use vstd::prelude::*;

verus! {

/// The decimal digit character for `d`, which is below ten.
pub open spec fn digit_char(d: nat) -> char {
    if d == 0 { '0' }
    else if d == 1 { '1' }
    else if d == 2 { '2' }
    else if d == 3 { '3' }
    else if d == 4 { '4' }
    else if d == 5 { '5' }
    else if d == 6 { '6' }
    else if d == 7 { '7' }
    else if d == 8 { '8' }
    else { '9' }
}

/// The decimal notation of a natural number, without leading zeros.
pub open spec fn decimal(n: nat) -> Seq<char>
    decreases n,
{
    if n < 10 {
        seq![digit_char(n)]
    } else {
        decimal(n / 10) + seq![digit_char(n % 10)]
    }
}

/// The decimal notation of an integer, with a leading `-` when negative.
pub open spec fn signed_decimal(i: int) -> Seq<char> {
    if i < 0 {
        seq!['-'] + decimal((-i) as nat)
    } else {
        decimal(i as nat)
    }
}

/// The parts joined with `sep` between each two neighbours.
pub open spec fn join(parts: Seq<Seq<char>>, sep: Seq<char>) -> Seq<char>
    decreases parts.len(),
{
    if parts.len() == 0 {
        Seq::empty()
    } else if parts.len() == 1 {
        parts[0]
    } else {
        join(parts.drop_last(), sep) + sep + parts.last()
    }
}

/// `s` repeated `n` times.
pub open spec fn repeat(s: Seq<char>, n: nat) -> Seq<char>
    decreases n,
{
    if n == 0 {
        Seq::empty()
    } else {
        repeat(s, (n - 1) as nat) + s
    }
}

/// What std's `Debug` formatting makes of a string: the string in double
/// quotes, with quotes, backslashes and unprintable characters escaped.
pub uninterp spec fn debug_text(s: Seq<char>) -> Seq<char>;

/// Renders `s` as std's `{:?}` does (`<str as Debug>::fmt`).
#[verifier::external_body]
pub fn debug_quoted(s: &str) -> (r: String)
    ensures
        r@ == debug_text(s@),
{
    format!("{:?}", s)
}

/// A fresh string holding the characters of `s`.
pub fn text_of(s: &str) -> (r: String)
    ensures
        r@ == s@,
{
    String::from_str(s)
}

fn digit_str(d: u64) -> (r: &'static str)
    requires
        d < 10,
    ensures
        r@ == seq![digit_char(d as nat)],
{
    proof {
        reveal_strlit("0");
        reveal_strlit("1");
        reveal_strlit("2");
        reveal_strlit("3");
        reveal_strlit("4");
        reveal_strlit("5");
        reveal_strlit("6");
        reveal_strlit("7");
        reveal_strlit("8");
        reveal_strlit("9");
    }
    if d == 0 { "0" }
    else if d == 1 { "1" }
    else if d == 2 { "2" }
    else if d == 3 { "3" }
    else if d == 4 { "4" }
    else if d == 5 { "5" }
    else if d == 6 { "6" }
    else if d == 7 { "7" }
    else if d == 8 { "8" }
    else { "9" }
}

/// The decimal notation of `n`.
pub fn u64_text(n: u64) -> (r: String)
    ensures
        r@ == decimal(n as nat),
    decreases n,
{
    if n < 10 {
        text_of(digit_str(n))
    } else {
        let mut s = u64_text(n / 10);
        s.append(digit_str(n % 10));
        s
    }
}

/// The decimal notation of `n`.
pub fn usize_text(n: usize) -> (r: String)
    ensures
        r@ == decimal(n as nat),
{
    u64_text(n as u64)
}

/// The decimal notation of `i`, with a leading `-` when negative.
pub fn i64_text(i: i64) -> (r: String)
    ensures
        r@ == signed_decimal(i as int),
{
    if i < 0 {
        let magnitude: u64 = if i == i64::MIN {
            0x8000_0000_0000_0000u64
        } else {
            (-i) as u64
        };
        let mut s = text_of("-");
        proof {
            reveal_strlit("-");
        }
        let digits = u64_text(magnitude);
        s.append(digits.as_str());
        s
    } else {
        u64_text(i as u64)
    }
}

/// Extends `acc` with `sep` followed by `part`, or with `part` alone when
/// `first` holds: one step of joining a list.
pub fn push_joined(acc: &mut String, part: &str, sep: &str, first: bool)
    ensures
        final(acc)@ == if first { old(acc)@ + part@ } else { old(acc)@ + sep@ + part@ },
{
    if !first {
        acc.append(sep);
    }
    acc.append(part);
}

/// Joining one more part onto a non-empty list adds the separator and the
/// part at the end.
pub proof fn lemma_join_push(parts: Seq<Seq<char>>, sep: Seq<char>, p: Seq<char>)
    ensures
        join(parts.push(p), sep) == if parts.len() == 0 { p } else { join(parts, sep) + sep + p },
{
    assert(parts.push(p).drop_last() =~= parts);
    if parts.len() == 0 {
        assert(parts.push(p)[0] == p);
    }
}

/// `s` repeated `n` times.
pub fn repeat_text(s: &str, n: usize) -> (r: String)
    ensures
        r@ == repeat(s@, n as nat),
{
    let mut out = String::new();
    let mut i: usize = 0;
    while i < n
        invariant
            i <= n,
            out@ == repeat(s@, i as nat),
        decreases n - i,
    {
        out.append(s);
        i = i + 1;
    }
    out
}

/// Whether `s` holds no newline character.
pub open spec fn no_newline(s: Seq<char>) -> bool {
    forall|i: int| 0 <= i < s.len() ==> s[i] != '\n'
}

/// `s` with a tab put before each of its lines, where `at_start` says
/// whether `s` begins a line: a tab goes before the first character when it
/// does, and before each character that follows a newline.
pub open spec fn tab_lines_from(s: Seq<char>, at_start: bool) -> Seq<char>
    decreases s.len(),
{
    if s.len() == 0 {
        Seq::empty()
    } else {
        (if at_start { seq!['\t'] } else { Seq::<char>::empty() }) + seq![s[0]] + tab_lines_from(
            s.drop_first(),
            s[0] == '\n',
        )
    }
}

/// `s` with a tab put before each of its lines.
pub open spec fn tab_lines(s: Seq<char>) -> Seq<char> {
    tab_lines_from(s, true)
}

/// Whether the text that follows `s` begins a line, when `s` itself begins
/// one exactly if `at_start` holds.
pub open spec fn ends_line(s: Seq<char>, at_start: bool) -> bool {
    if s.len() == 0 {
        at_start
    } else {
        s.last() == '\n'
    }
}

/// Tabbing the lines of two texts one after the other is tabbing each,
/// the second starting where the first ends.
pub proof fn lemma_tab_lines_append(a: Seq<char>, b: Seq<char>, at_start: bool)
    ensures
        tab_lines_from(a + b, at_start) == tab_lines_from(a, at_start) + tab_lines_from(b, ends_line(a, at_start)),
    decreases a.len(),
{
    if a.len() == 0 {
        assert(a + b =~= b);
    } else {
        let rest = a.drop_first();
        assert((a + b).drop_first() =~= rest + b);
        assert((a + b)[0] == a[0]);
        lemma_tab_lines_append(rest, b, a[0] == '\n');
        if rest.len() > 0 {
            assert(rest.last() == a.last());
        }
        let pre = (if at_start { seq!['\t'] } else { Seq::<char>::empty() }) + seq![a[0]];
        assert(pre + (tab_lines_from(rest, a[0] == '\n') + tab_lines_from(b, ends_line(a, at_start))) =~= pre
            + tab_lines_from(rest, a[0] == '\n') + tab_lines_from(b, ends_line(a, at_start)));
    }
}

/// A text without newlines gains at most one tab, at its front.
pub proof fn lemma_tab_lines_plain(w: Seq<char>, at_start: bool)
    requires
        no_newline(w),
    ensures
        tab_lines_from(w, at_start) == (if at_start && w.len() > 0 { seq!['\t'] } else { Seq::<char>::empty() }) + w,
    decreases w.len(),
{
    if w.len() > 0 {
        let rest = w.drop_first();
        assert(w[0] != '\n');
        lemma_tab_lines_plain(rest, false);
        assert(tab_lines_from(rest, false) =~= rest);
        if at_start {
            assert(seq!['\t'] + seq![w[0]] + rest =~= seq!['\t'] + w);
        } else {
            assert(Seq::<char>::empty() + seq![w[0]] + rest =~= w);
        }
    } else {
        assert(Seq::<char>::empty() + w =~= w);
    }
}

/// A line of text ended by a newline gains one tab at its front.
pub proof fn lemma_tab_line(w: Seq<char>)
    requires
        no_newline(w),
    ensures
        tab_lines(w + "\n"@) == seq!['\t'] + w + "\n"@,
{
    reveal_strlit("\n");
    lemma_tab_lines_append(w, "\n"@, true);
    lemma_tab_lines_plain(w, true);
    let nl = "\n"@;
    assert(nl.drop_first() =~= Seq::<char>::empty());
    if w.len() == 0 {
        assert(tab_lines_from(nl, true) =~= seq!['\t'] + nl);
        assert(w + nl =~= nl);
        assert(seq!['\t'] + w + nl =~= seq!['\t'] + nl);
        assert(Seq::<char>::empty() + w =~= w);
    } else {
        assert(tab_lines_from(nl.drop_first(), true) =~= Seq::<char>::empty());
        assert(tab_lines_from(nl, false) =~= nl);
    }
}

/// Tabs repeated once more are one more tab in front.
pub proof fn lemma_repeat_tab_front(n: nat)
    ensures
        repeat("\t"@, n + 1) == seq!['\t'] + repeat("\t"@, n),
        no_newline(repeat("\t"@, n)),
    decreases n,
{
    reveal_strlit("\t");
    if n == 0 {
        assert(repeat("\t"@, 0) =~= Seq::<char>::empty());
        assert(repeat("\t"@, 1) =~= Seq::<char>::empty() + "\t"@);
        assert(seq!['\t'] + Seq::<char>::empty() =~= "\t"@);
    } else {
        lemma_repeat_tab_front((n - 1) as nat);
        assert(repeat("\t"@, n + 1) == repeat("\t"@, n) + "\t"@);
        assert(repeat("\t"@, n) == repeat("\t"@, (n - 1) as nat) + "\t"@);
        assert(seq!['\t'] + repeat("\t"@, (n - 1) as nat) + "\t"@ =~= seq!['\t'] + (repeat("\t"@, (n - 1) as nat) + "\t"@));
        let r = repeat("\t"@, n);
        assert forall|i: int| 0 <= i < r.len() implies r[i] != '\n' by {
            let q = repeat("\t"@, (n - 1) as nat);
            if i < q.len() {
                assert(r[i] == q[i]);
            } else {
                assert(r[i] == "\t"@[i - q.len()]);
            }
        }
    }
}

} // verus!
