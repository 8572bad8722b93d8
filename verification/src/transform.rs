//! The byte transformations: end marker, caret and meta notation, visible
//! tabs, and the decimal rendering of a line number.
//!
//! Each transformation is a total function on byte sequences and knows
//! nothing of the others; the formatter decides which to apply and in what
//! order.

use vstd::prelude::*;

verus! {

pub const TAB: u8 = 9;

pub const LINE_FEED: u8 = 10;

pub const SPACE: u8 = 32;

pub const DOLLAR: u8 = 36;

pub const DASH: u8 = 45;

pub const ZERO: u8 = 48;

pub const QUESTION_MARK: u8 = 63;

pub const CAPITAL_M: u8 = 77;

pub const CARET: u8 = 94;

pub const DELETE: u8 = 127;

/// Whether the sequence ends in a line feed, its terminator.
pub open spec fn is_terminated(line: Seq<u8>) -> bool {
    line.len() > 0 && line.last() == LINE_FEED
}

/// The line with `$` put immediately before its terminator. A line without a
/// terminator is left as it is.
pub open spec fn end_marked(line: Seq<u8>) -> Seq<u8> {
    if is_terminated(line) {
        line.drop_last().push(DOLLAR).push(LINE_FEED)
    } else {
        line
    }
}

/// Caret and meta notation of one byte. Control bytes become `^` and the byte
/// plus 64, delete becomes `^?`, and a byte with the high bit set becomes `M-`
/// and what stands for the byte without that bit. Line feed, tab and
/// printable ASCII stand for themselves.
pub open spec fn caret_notation(c: u8) -> Seq<u8> {
    if c < 32 && c != LINE_FEED && c != TAB {
        seq![CARET, (c + 64) as u8]
    } else if c == DELETE {
        seq![CARET, QUESTION_MARK]
    } else if c > 127 {
        let low = (c - 128) as u8;
        if low < 32 && low != LINE_FEED {
            seq![CAPITAL_M, DASH, CARET, (low + 64) as u8]
        } else if low == DELETE {
            seq![CAPITAL_M, DASH, CARET, QUESTION_MARK]
        } else {
            seq![CAPITAL_M, DASH, low]
        }
    } else {
        seq![c]
    }
}

/// A tab becomes `^I`; every other byte stands for itself.
pub open spec fn tab_notation(c: u8) -> Seq<u8> {
    if c == TAB {
        seq![CARET, 73u8]
    } else {
        seq![c]
    }
}

/// The line with every byte in caret and meta notation.
pub open spec fn non_printing_escaped(line: Seq<u8>) -> Seq<u8> {
    line.flat_map(|c: u8| caret_notation(c))
}

/// The line with every tab shown as `^I`.
pub open spec fn tabs_escaped(line: Seq<u8>) -> Seq<u8> {
    line.flat_map(|c: u8| tab_notation(c))
}

/// The decimal digits of `n` in ASCII, most significant first.
pub open spec fn decimal(n: nat) -> Seq<u8>
    decreases n,
{
    if n < 10 {
        seq![(ZERO + n) as u8]
    } else {
        decimal(n / 10).push((ZERO + n % 10) as u8)
    }
}

/// Mapping byte by byte and concatenating commutes with appending a byte.
pub proof fn lemma_flat_map_push(line: Seq<u8>, c: u8, f: spec_fn(u8) -> Seq<u8>)
    ensures
        line.push(c).flat_map(f) == line.flat_map(f) + f(c),
{
    assert(line.push(c).map_values(f) =~= line.map_values(f).push(f(c)));
    line.map_values(f).lemma_flatten_push(f(c));
}

/// Where every byte of a line stands for itself, so does the line.
pub proof fn lemma_flat_map_identity(line: Seq<u8>, f: spec_fn(u8) -> Seq<u8>)
    requires
        forall|i: int| 0 <= i < line.len() ==> f(#[trigger] line[i]) == seq![line[i]],
    ensures
        line.flat_map(f) == line,
    decreases line.len(),
{
    if line.len() == 0 {
        assert(line.map_values(f) =~= Seq::empty());
        assert(line.flat_map(f) =~= line);
    } else {
        lemma_flat_map_identity(line.drop_last(), f);
        lemma_flat_map_push(line.drop_last(), line.last(), f);
        assert(line.drop_last().push(line.last()) =~= line);
        assert(line.drop_last() + seq![line.last()] =~= line);
    }
}

/// Printable ASCII: the bytes from space to tilde.
pub open spec fn is_printable(c: u8) -> bool {
    32 <= c < 127
}

/// Caret and meta notation leaves a line of printable ASCII and line feeds
/// as it is.
pub proof fn lemma_printable_line_unchanged(line: Seq<u8>)
    requires
        forall|i: int| 0 <= i < line.len() ==> is_printable(#[trigger] line[i]) || line[i] == LINE_FEED,
    ensures
        non_printing_escaped(line) == line,
{
    lemma_flat_map_identity(line, |c: u8| caret_notation(c));
}

/// A line without tabs is left as it is where tabs are shown.
pub proof fn lemma_tabless_line_unchanged(line: Seq<u8>)
    requires
        forall|i: int| 0 <= i < line.len() ==> #[trigger] line[i] != TAB,
    ensures
        tabs_escaped(line) == line,
{
    lemma_flat_map_identity(line, |c: u8| tab_notation(c));
}

/// The end marker of a terminated line is exactly one `$`, immediately
/// before the terminator: the line grows by one byte, the bytes before the
/// terminator stay as they are, and the terminator stays last.
pub proof fn lemma_end_marker_placement(line: Seq<u8>)
    requires
        is_terminated(line),
    ensures
        end_marked(line).len() == line.len() + 1,
        end_marked(line) == line.insert(line.len() - 1, DOLLAR),
        end_marked(line).take(line.len() - 1) == line.take(line.len() - 1),
        end_marked(line)[line.len() - 1] == DOLLAR,
        end_marked(line)[line.len() as int] == LINE_FEED,
{
    assert(end_marked(line) =~= line.insert(line.len() - 1, DOLLAR));
    assert(end_marked(line).take(line.len() - 1) =~= line.take(line.len() - 1));
}

/// Puts `$` immediately before the terminating line feed, if there is one.
pub fn insert_end_marker(line: &mut Vec<u8>)
    ensures
        final(line)@ == end_marked(old(line)@),
{
    let n: usize = line.len();
    if n > 0 && line[n - 1] == LINE_FEED {
        line.insert(n - 1, DOLLAR);
        assert(line@ =~= end_marked(old(line)@));
    }
}

/// Rewrites the line in caret and meta notation.
pub fn escape_non_printing(line: &[u8]) -> (escaped: Vec<u8>)
    ensures
        escaped@ == non_printing_escaped(line@),
{
    let mut escaped: Vec<u8> = Vec::new();
    let mut i: usize = 0;
    assert(line@.take(0).map_values(|c: u8| caret_notation(c)) =~= Seq::empty());
    while i < line.len()
        invariant
            i <= line.len(),
            escaped@ == non_printing_escaped(line@.take(i as int)),
        decreases line.len() - i,
    {
        let c: u8 = line[i];
        proof {
            assert(line@.take(i + 1) =~= line@.take(i as int).push(c));
            lemma_flat_map_push(line@.take(i as int), c, |c: u8| caret_notation(c));
        }
        if c < 32 && c != LINE_FEED && c != TAB {
            escaped.push(CARET);
            escaped.push(c + 64);
        } else if c == DELETE {
            escaped.push(CARET);
            escaped.push(QUESTION_MARK);
        } else if c > 127 {
            let low: u8 = c - 128;
            escaped.push(CAPITAL_M);
            escaped.push(DASH);
            if low < 32 && low != LINE_FEED {
                escaped.push(CARET);
                escaped.push(low + 64);
            } else if low == DELETE {
                escaped.push(CARET);
                escaped.push(QUESTION_MARK);
            } else {
                escaped.push(low);
            }
        } else {
            escaped.push(c);
        }
        assert(escaped@ =~= non_printing_escaped(line@.take(i as int)) + caret_notation(c));
        i += 1;
    }
    assert(line@.take(i as int) =~= line@);
    escaped
}

/// Rewrites every tab of the line as `^I`.
pub fn escape_tabs(line: &[u8]) -> (escaped: Vec<u8>)
    ensures
        escaped@ == tabs_escaped(line@),
{
    let mut escaped: Vec<u8> = Vec::new();
    let mut i: usize = 0;
    assert(line@.take(0).map_values(|c: u8| tab_notation(c)) =~= Seq::empty());
    while i < line.len()
        invariant
            i <= line.len(),
            escaped@ == tabs_escaped(line@.take(i as int)),
        decreases line.len() - i,
    {
        let c: u8 = line[i];
        proof {
            assert(line@.take(i + 1) =~= line@.take(i as int).push(c));
            lemma_flat_map_push(line@.take(i as int), c, |c: u8| tab_notation(c));
        }
        if c == TAB {
            escaped.push(CARET);
            escaped.push(73);
        } else {
            escaped.push(c);
        }
        assert(escaped@ =~= tabs_escaped(line@.take(i as int)) + tab_notation(c));
        i += 1;
    }
    assert(line@.take(i as int) =~= line@);
    escaped
}

/// Appends the decimal digits of `n` to `out`.
pub fn push_decimal(out: &mut Vec<u8>, n: u64)
    ensures
        final(out)@ == old(out)@ + decimal(n as nat),
    decreases n,
{
    if n >= 10 {
        push_decimal(out, n / 10);
    }
    out.push(ZERO + (n % 10) as u8);
    assert(out@ =~= old(out)@ + decimal(n as nat));
}

} // verus!
