//! A run as a fold over lines: the counters are carried from each line to
//! the next, and what is emitted is the concatenation of what each line
//! gives. The lines of all sources of a run form one such sequence.

use vstd::prelude::*;
use crate::formatter::{
    advanced, displayed, emitted, has_room, is_blank, is_discarded, is_numbered, Counters,
};
use crate::options::Options;
use crate::transform::{decimal, SPACE};

verus! {

/// The counters after the lines have gone through the formatter in order.
pub open spec fn run_counters(options: Options, counters: Counters, lines: Seq<Seq<u8>>) -> Counters
    decreases lines.len(),
{
    if lines.len() == 0 {
        counters
    } else {
        advanced(options, run_counters(options, counters, lines.drop_last()), lines.last())
    }
}

/// Everything emitted for the lines, in order.
pub open spec fn run_output(options: Options, counters: Counters, lines: Seq<Seq<u8>>) -> Seq<u8>
    decreases lines.len(),
{
    if lines.len() == 0 {
        Seq::empty()
    } else {
        run_output(options, counters, lines.drop_last()) + emitted(
            options,
            run_counters(options, counters, lines.drop_last()),
            lines.last(),
        )
    }
}

/// Whether the counters stay within `u64` at every line of the run.
pub open spec fn run_has_room(options: Options, counters: Counters, lines: Seq<Seq<u8>>) -> bool {
    forall|k: int|
        0 <= k < lines.len() ==> has_room(
            options,
            run_counters(options, counters, #[trigger] lines.take(k)),
            lines[k],
        )
}

/// The numbers that the run puts in front of lines, in the order in which
/// they are emitted.
pub open spec fn line_numbers(options: Options, counters: Counters, lines: Seq<Seq<u8>>) -> Seq<nat>
    decreases lines.len(),
{
    if lines.len() == 0 {
        Seq::empty()
    } else {
        let before = lines.drop_last();
        let reached = run_counters(options, counters, before);
        if is_numbered(options, reached, lines.last()) {
            line_numbers(options, counters, before).push(reached.line_number)
        } else {
            line_numbers(options, counters, before)
        }
    }
}

/// The lines that the run does not discard, in order.
pub open spec fn kept_lines(options: Options, counters: Counters, lines: Seq<Seq<u8>>) -> Seq<Seq<u8>>
    decreases lines.len(),
{
    if lines.len() == 0 {
        Seq::empty()
    } else {
        let before = lines.drop_last();
        let reached = run_counters(options, counters, before);
        if is_discarded(options, reached, lines.last()) {
            kept_lines(options, counters, before)
        } else {
            kept_lines(options, counters, before).push(lines.last())
        }
    }
}

/// The options with the squeezing of blank lines switched off.
pub open spec fn without_squeeze(options: Options) -> Options {
    Options { squeeze_blank: false, ..options }
}

/// A run over the lines of one source and then over those of the next, with
/// the counters handed on, is one run over all the lines: nothing is reset
/// where one source ends and the next begins.
pub proof fn lemma_run_concat(
    options: Options,
    counters: Counters,
    first: Seq<Seq<u8>>,
    second: Seq<Seq<u8>>,
)
    ensures
        run_counters(options, counters, first + second) == run_counters(
            options,
            run_counters(options, counters, first),
            second,
        ),
        run_output(options, counters, first + second) == run_output(options, counters, first)
            + run_output(options, run_counters(options, counters, first), second),
        line_numbers(options, counters, first + second) == line_numbers(options, counters, first)
            + line_numbers(options, run_counters(options, counters, first), second),
    decreases second.len(),
{
    let handed = run_counters(options, counters, first);
    if second.len() == 0 {
        assert(first + second =~= first);
        assert(run_output(options, counters, first) + run_output(options, handed, second)
            =~= run_output(options, counters, first));
        assert(line_numbers(options, counters, first) + line_numbers(options, handed, second)
            =~= line_numbers(options, counters, first));
    } else {
        lemma_run_concat(options, counters, first, second.drop_last());
        assert((first + second).drop_last() =~= first + second.drop_last());
        assert((first + second).last() == second.last());
        assert(run_output(options, counters, first + second) =~= run_output(
            options,
            counters,
            first,
        ) + run_output(options, handed, second));
        assert(line_numbers(options, counters, first + second) =~= line_numbers(
            options,
            counters,
            first,
        ) + line_numbers(options, handed, second));
    }
}

/// The numbers that a run emits count up by one from the line number it
/// starts with, and the line number it ends with is the next one. A run from
/// the initial counters therefore emits 1, 2, 3 and so on, over all its
/// sources.
pub proof fn lemma_line_numbers_consecutive(
    options: Options,
    counters: Counters,
    lines: Seq<Seq<u8>>,
)
    ensures
        forall|k: int|
            0 <= k < line_numbers(options, counters, lines).len() ==> #[trigger] line_numbers(
                options,
                counters,
                lines,
            )[k] == counters.line_number + k,
        run_counters(options, counters, lines).line_number == counters.line_number + line_numbers(
            options,
            counters,
            lines,
        ).len(),
    decreases lines.len(),
{
    if lines.len() > 0 {
        lemma_line_numbers_consecutive(options, counters, lines.drop_last());
    }
}

/// A line that is emitted with a number gets the line number that the run
/// started with plus the count of the numbered lines before it: no number is
/// left out and none is used twice.
pub proof fn lemma_line_number_at(
    options: Options,
    counters: Counters,
    lines: Seq<Seq<u8>>,
    i: int,
)
    requires
        0 <= i < lines.len(),
        is_numbered(options, run_counters(options, counters, lines.take(i)), lines[i]),
    ensures
        emitted(options, run_counters(options, counters, lines.take(i)), lines[i]) == decimal(
            counters.line_number + line_numbers(options, counters, lines.take(i)).len(),
        ).push(SPACE) + displayed(options, lines[i]),
{
    lemma_line_numbers_consecutive(options, counters, lines.take(i));
}

/// While blank lines are squeezed, no two lines that are emitted one after
/// the other are both blank; and where the line emitted last is blank, the
/// count of blank lines stands at one or more, so that a blank line that
/// follows is discarded.
pub proof fn lemma_squeeze_blank_bound(options: Options, counters: Counters, lines: Seq<Seq<u8>>)
    requires
        options.squeeze_blank,
    ensures
        forall|i: int, j: int|
            0 <= i && j == i + 1 && j < kept_lines(options, counters, lines).len() ==> !(is_blank(
                #[trigger] kept_lines(options, counters, lines)[i],
            ) && is_blank(#[trigger] kept_lines(options, counters, lines)[j])),
        kept_lines(options, counters, lines).len() > 0 && is_blank(
            kept_lines(options, counters, lines).last(),
        ) ==> run_counters(options, counters, lines).consecutive_blank_count >= 1,
    decreases lines.len(),
{
    if lines.len() > 0 {
        lemma_squeeze_blank_bound(options, counters, lines.drop_last());
    }
}

/// What a run emits is what the same run without squeezing emits for the
/// lines that are kept: squeezing only takes lines away.
pub proof fn lemma_squeeze_only_removes(options: Options, counters: Counters, lines: Seq<Seq<u8>>)
    ensures
        run_output(options, counters, lines) == run_output(
            without_squeeze(options),
            counters,
            kept_lines(options, counters, lines),
        ),
        run_counters(options, counters, lines).line_number == run_counters(
            without_squeeze(options),
            counters,
            kept_lines(options, counters, lines),
        ).line_number,
        run_counters(
            without_squeeze(options),
            counters,
            kept_lines(options, counters, lines),
        ).consecutive_blank_count == counters.consecutive_blank_count,
    decreases lines.len(),
{
    if lines.len() > 0 {
        let before = lines.drop_last();
        lemma_squeeze_only_removes(options, counters, before);
        let reached = run_counters(options, counters, before);
        if !is_discarded(options, reached, lines.last()) {
            let kept = kept_lines(options, counters, lines);
            assert(kept.drop_last() =~= kept_lines(options, counters, before));
            assert(kept.last() == lines.last());
        }
    }
}

/// With no option in force a run emits its lines as they are and leaves the
/// counters alone.
pub proof fn lemma_inactive_run(options: Options, counters: Counters, lines: Seq<Seq<u8>>)
    requires
        !options.is_active(),
    ensures
        run_output(options, counters, lines) == lines.flatten(),
        run_counters(options, counters, lines) == counters,
    decreases lines.len(),
{
    if lines.len() == 0 {
        assert(lines.flatten() =~= Seq::<u8>::empty());
    } else {
        lemma_inactive_run(options, counters, lines.drop_last());
        lines.drop_last().lemma_flatten_push(lines.last());
        assert(lines.drop_last().push(lines.last()) =~= lines);
    }
}

/// The counters of a run grow by at most one for each line.
pub proof fn lemma_counters_bounded(options: Options, counters: Counters, lines: Seq<Seq<u8>>)
    ensures
        run_counters(options, counters, lines).line_number <= counters.line_number + lines.len(),
        run_counters(options, counters, lines).consecutive_blank_count
            <= counters.consecutive_blank_count + lines.len(),
    decreases lines.len(),
{
    if lines.len() > 0 {
        lemma_counters_bounded(options, counters, lines.drop_last());
    }
}

/// A run has room where both counters could take one step for every line.
pub proof fn lemma_short_run_has_room(options: Options, counters: Counters, lines: Seq<Seq<u8>>)
    requires
        counters.line_number + lines.len() <= u64::MAX,
        counters.consecutive_blank_count + lines.len() <= u64::MAX,
    ensures
        run_has_room(options, counters, lines),
{
    assert forall|k: int| 0 <= k < lines.len() implies has_room(
        options,
        run_counters(options, counters, #[trigger] lines.take(k)),
        lines[k],
    ) by {
        lemma_counters_bounded(options, counters, lines.take(k));
    }
}

} // verus!
