//! The line formatter: one raw line in, the bytes to display out, with the
//! counters that are carried from line to line and from source to source.

use vstd::prelude::*;
use crate::options::{Flags, Options};
use crate::transform::{
    caret_notation, decimal, end_marked, escape_non_printing, escape_tabs, insert_end_marker,
    is_terminated, lemma_flat_map_push, non_printing_escaped, push_decimal, tab_notation,
    tabs_escaped, DOLLAR, LINE_FEED, SPACE,
};

verus! {

/// The counters of a run, as mathematical integers.
pub struct Counters {
    /// The number that the next numbered line gets.
    pub line_number: nat,
    /// How many blank lines have been seen in a row.
    pub consecutive_blank_count: nat,
}

/// The counters of a run. One value is threaded through every line of every
/// source; nothing resets it between sources.
#[derive(Clone, Copy, Debug, PartialEq, Eq, Structural)]
pub struct FormatterState {
    /// The number that the next numbered line gets.
    pub line_number: u64,
    /// How many blank lines have been seen in a row; kept only while blank
    /// lines are squeezed.
    pub consecutive_blank_count: u64,
}

impl View for FormatterState {
    type V = Counters;

    open spec fn view(&self) -> Counters {
        Counters {
            line_number: self.line_number as nat,
            consecutive_blank_count: self.consecutive_blank_count as nat,
        }
    }
}

impl Counters {
    /// The counters at the start of a run.
    pub open spec fn initial() -> Counters {
        Counters { line_number: 1, consecutive_blank_count: 0 }
    }
}

impl FormatterState {
    /// The state at the start of a run: the first numbered line gets 1.
    pub fn new() -> (state: FormatterState)
        ensures
            state@ == Counters::initial(),
    {
        FormatterState { line_number: 1, consecutive_blank_count: 0 }
    }

    /// Whether the counters can take the line: a counter that the line
    /// moves on must not stand at the largest `u64`.
    pub fn has_room_for(&self, options: &Options, line: &[u8]) -> (room: bool)
        ensures
            room == has_room(*options, self@, line@),
    {
        let blank: bool = line.len() == 1 && line[0] == LINE_FEED;
        let squeezed: bool = options.squeeze_blank && blank;
        let discarded: bool = squeezed && self.consecutive_blank_count >= 1;
        let numbered: bool = !discarded && (options.number || (options.number_nonblank && !blank));
        (!numbered || self.line_number < u64::MAX) && (!squeezed || self.consecutive_blank_count
            < u64::MAX)
    }
}

/// A line is blank when the terminator is all it holds.
pub open spec fn is_blank(line: Seq<u8>) -> bool {
    line.len() == 1 && line[0] == LINE_FEED
}

/// Whether the line is dropped: blank lines are squeezed and this one
/// follows another blank line.
pub open spec fn is_discarded(options: Options, counters: Counters, line: Seq<u8>) -> bool {
    options.squeeze_blank && is_blank(line) && counters.consecutive_blank_count + 1 > 1
}

/// Whether the line is emitted with a number in front.
pub open spec fn is_numbered(options: Options, counters: Counters, line: Seq<u8>) -> bool {
    !is_discarded(options, counters, line) && (options.number || (options.number_nonblank
        && !is_blank(line)))
}

/// The line after the byte transformations that are in force: the end marker
/// first, then caret and meta notation, then visible tabs.
pub open spec fn displayed(options: Options, line: Seq<u8>) -> Seq<u8> {
    let marked = if options.show_ends {
        end_marked(line)
    } else {
        line
    };
    let escaped = if options.show_non_printing {
        non_printing_escaped(marked)
    } else {
        marked
    };
    if options.show_tabs {
        tabs_escaped(escaped)
    } else {
        escaped
    }
}

/// The bytes emitted for one line: nothing for a discarded line; otherwise
/// the displayed line, behind its number and a space where it is numbered.
pub open spec fn emitted(options: Options, counters: Counters, line: Seq<u8>) -> Seq<u8> {
    if is_discarded(options, counters, line) {
        Seq::empty()
    } else if is_numbered(options, counters, line) {
        decimal(counters.line_number).push(SPACE) + displayed(options, line)
    } else {
        displayed(options, line)
    }
}

/// The counters after one line. While blank lines are squeezed, a blank line
/// adds one to the count of blank lines and any other line resets it; a line
/// that is emitted with a number moves the line number on by one.
pub open spec fn advanced(options: Options, counters: Counters, line: Seq<u8>) -> Counters {
    Counters {
        line_number: if is_numbered(options, counters, line) {
            counters.line_number + 1
        } else {
            counters.line_number
        },
        consecutive_blank_count: if !options.squeeze_blank {
            counters.consecutive_blank_count
        } else if is_blank(line) {
            counters.consecutive_blank_count + 1
        } else {
            0
        },
    }
}

/// Whether the counters can take the line without leaving the range of `u64`.
pub open spec fn has_room(options: Options, counters: Counters, line: Seq<u8>) -> bool {
    &&& is_numbered(options, counters, line) ==> counters.line_number < u64::MAX
    &&& options.squeeze_blank && is_blank(line) ==> counters.consecutive_blank_count < u64::MAX
}

/// The options with the end marker switched on.
pub open spec fn with_show_ends(options: Options) -> Options {
    Options { show_ends: true, ..options }
}

/// The options with the end marker switched off.
pub open spec fn without_show_ends(options: Options) -> Options {
    Options { show_ends: false, ..options }
}

/// With no option in force a line is emitted as it is and the counters stay.
pub proof fn lemma_inactive_is_identity(options: Options, counters: Counters, line: Seq<u8>)
    requires
        !options.is_active(),
    ensures
        emitted(options, counters, line) == line,
        advanced(options, counters, line) == counters,
{
}

/// Switching the end marker on changes what is displayed for a terminated
/// line in one way only: a `$` stands immediately before the terminator.
/// The transformations that follow leave the marker where it is.
pub proof fn lemma_show_ends_displayed(options: Options, line: Seq<u8>)
    requires
        is_terminated(line),
    ensures
        is_terminated(displayed(without_show_ends(options), line)),
        displayed(with_show_ends(options), line) == displayed(
            without_show_ends(options),
            line,
        ).drop_last().push(DOLLAR).push(LINE_FEED),
        displayed(with_show_ends(options), line).len() == displayed(
            without_show_ends(options),
            line,
        ).len() + 1,
{
    let body = line.drop_last();
    let caret = |c: u8| caret_notation(c);
    let tab = |c: u8| tab_notation(c);
    assert(body.push(LINE_FEED) =~= line);
    // The first stage: caret and meta notation, where it is in force.
    let plain = if options.show_non_printing {
        non_printing_escaped(line)
    } else {
        line
    };
    let marked = if options.show_non_printing {
        non_printing_escaped(end_marked(line))
    } else {
        end_marked(line)
    };
    let stem = if options.show_non_printing {
        non_printing_escaped(body)
    } else {
        body
    };
    lemma_flat_map_push(body, LINE_FEED, caret);
    lemma_flat_map_push(body, DOLLAR, caret);
    lemma_flat_map_push(body.push(DOLLAR), LINE_FEED, caret);
    assert(plain =~= stem.push(LINE_FEED));
    assert(marked =~= stem.push(DOLLAR).push(LINE_FEED));
    // The second stage: visible tabs, where they are in force.
    lemma_flat_map_push(stem, LINE_FEED, tab);
    lemma_flat_map_push(stem, DOLLAR, tab);
    lemma_flat_map_push(stem.push(DOLLAR), LINE_FEED, tab);
    let shown = if options.show_tabs {
        tabs_escaped(stem)
    } else {
        stem
    };
    assert(displayed(without_show_ends(options), line) =~= shown.push(LINE_FEED));
    assert(displayed(with_show_ends(options), line) =~= shown.push(DOLLAR).push(LINE_FEED));
    assert(shown.push(LINE_FEED).drop_last() =~= shown);
}

/// Switching the end marker on adds exactly one byte to what is emitted for
/// a terminated line that is not discarded: a `$` immediately before the
/// terminator. The number in front and the counters are not touched.
pub proof fn lemma_show_ends_emitted(options: Options, counters: Counters, line: Seq<u8>)
    requires
        is_terminated(line),
        !is_discarded(options, counters, line),
    ensures
        emitted(with_show_ends(options), counters, line) == emitted(
            without_show_ends(options),
            counters,
            line,
        ).drop_last().push(DOLLAR).push(LINE_FEED),
        emitted(with_show_ends(options), counters, line).len() == emitted(
            without_show_ends(options),
            counters,
            line,
        ).len() + 1,
        advanced(with_show_ends(options), counters, line) == advanced(
            without_show_ends(options),
            counters,
            line,
        ),
{
    lemma_show_ends_displayed(options, line);
    let plain = displayed(without_show_ends(options), line);
    let marked = displayed(with_show_ends(options), line);
    if is_numbered(options, counters, line) {
        let number = decimal(counters.line_number).push(SPACE);
        assert((number + plain).drop_last().push(DOLLAR).push(LINE_FEED) =~= number + marked);
    }
}

/// Numbering of non-blank lines wins over plain numbering: the flags with
/// both modes on resolve to the same options as with plain numbering off,
/// and under those options a line is numbered exactly when it is emitted
/// and not blank.
pub proof fn lemma_number_nonblank_wins(flags: Flags, counters: Counters, line: Seq<u8>)
    requires
        flags.number_nonblank,
    ensures
        flags.resolved() == (Flags { number: false, ..flags }).resolved(),
        flags.resolved() == (Flags { number: true, ..flags }).resolved(),
        is_blank(line) ==> !is_numbered(flags.resolved(), counters, line),
        !is_blank(line) ==> is_numbered(flags.resolved(), counters, line),
{
}

/// Formats one line in place and moves the counters on.
///
/// The line is first tested for squeezing, which may discard it; then it gets
/// its end marker, its caret and meta notation and its visible tabs, in that
/// order; its number comes last, so that no transformation touches it. With
/// no option in force the line and the state are left as they are.
///
/// A counter that the line moves on must have room for the step; see
/// `FormatterState::has_room_for`.
pub fn format_buffer(line: &mut Vec<u8>, options: &Options, state: &mut FormatterState)
    requires
        has_room(*options, old(state)@, old(line)@),
    ensures
        final(line)@ == emitted(*options, old(state)@, old(line)@),
        final(state)@ == advanced(*options, old(state)@, old(line)@),
        !options.is_active() ==> final(line)@ == old(line)@ && *final(state) == *old(state),
{
    let blank: bool = line.len() == 1 && line[0] == LINE_FEED;
    if options.squeeze_blank {
        if blank {
            state.consecutive_blank_count = state.consecutive_blank_count + 1;
            if state.consecutive_blank_count > 1 {
                line.clear();
                return ;
            }
        } else {
            state.consecutive_blank_count = 0;
        }
    }
    if options.show_ends {
        insert_end_marker(line);
    }
    if options.show_non_printing {
        let escaped: Vec<u8> = escape_non_printing(line.as_slice());
        *line = escaped;
    }
    if options.show_tabs {
        let escaped: Vec<u8> = escape_tabs(line.as_slice());
        *line = escaped;
    }
    if options.number || (options.number_nonblank && !blank) {
        let mut numbered: Vec<u8> = Vec::new();
        push_decimal(&mut numbered, state.line_number);
        numbered.push(SPACE);
        numbered.append(line);
        *line = numbered;
        state.line_number = state.line_number + 1;
    }
}

} // verus!
