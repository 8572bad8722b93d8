//! A source as a whole: cutting its bytes into lines and running the line
//! formatter over them, with the counters carried through.

use vstd::prelude::*;
use vstd::slice::slice_to_vec;
use crate::formatter::{format_buffer, Counters, FormatterState};
use crate::run::{
    lemma_inactive_run, lemma_short_run_has_room, run_counters, run_has_room, run_output,
};
use crate::options::Options;
use crate::transform::{is_terminated, LINE_FEED};

verus! {

/// The lines of a source: its bytes, cut after every line feed. Read byte by
/// byte, each byte joins the line that is still open, or opens a new line
/// where the one before is terminated. Only the last line can lack a
/// terminator.
pub open spec fn lines_of(bytes: Seq<u8>) -> Seq<Seq<u8>>
    decreases bytes.len(),
{
    if bytes.len() == 0 {
        Seq::empty()
    } else {
        let before = lines_of(bytes.drop_last());
        if before.len() > 0 && !is_terminated(before.last()) {
            before.drop_last().push(before.last().push(bytes.last()))
        } else {
            before.push(seq![bytes.last()])
        }
    }
}

/// The byte sequences that the vectors hold.
pub open spec fn views(lines: Seq<Vec<u8>>) -> Seq<Seq<u8>> {
    lines.map_values(|line: Vec<u8>| line@)
}

/// A line as a source gives it: not empty, and with no line feed before its
/// last byte.
pub open spec fn is_line(line: Seq<u8>) -> bool {
    line.len() > 0 && forall|j: int| 0 <= j < line.len() - 1 ==> line[j] != LINE_FEED
}

/// Cutting a source into lines loses nothing and adds nothing: the lines,
/// put end to end, are the source.
pub proof fn lemma_lines_rejoin(bytes: Seq<u8>)
    ensures
        lines_of(bytes).flatten() == bytes,
    decreases bytes.len(),
{
    if bytes.len() == 0 {
        assert(lines_of(bytes).flatten() =~= bytes);
    } else {
        let before = lines_of(bytes.drop_last());
        lemma_lines_rejoin(bytes.drop_last());
        assert(bytes.drop_last().push(bytes.last()) =~= bytes);
        if before.len() > 0 && !is_terminated(before.last()) {
            let closed = before.drop_last();
            assert(closed.push(before.last()) =~= before);
            closed.lemma_flatten_push(before.last());
            closed.lemma_flatten_push(before.last().push(bytes.last()));
            assert(closed.flatten() + before.last().push(bytes.last()) =~= (closed.flatten()
                + before.last()).push(bytes.last()));
        } else {
            before.lemma_flatten_push(seq![bytes.last()]);
            assert(before.flatten() + seq![bytes.last()] =~= before.flatten().push(bytes.last()));
        }
    }
}

/// Every line of a source is a line, every line but the last is terminated,
/// the last is terminated exactly when the source is, and there are no more
/// lines than bytes.
pub proof fn lemma_lines_shape(bytes: Seq<u8>)
    ensures
        forall|k: int| 0 <= k < lines_of(bytes).len() ==> is_line(#[trigger] lines_of(bytes)[k]),
        forall|k: int|
            0 <= k < lines_of(bytes).len() - 1 ==> is_terminated(#[trigger] lines_of(bytes)[k]),
        lines_of(bytes).len() > 0 ==> (is_terminated(lines_of(bytes).last()) <==> is_terminated(
            bytes,
        )),
        lines_of(bytes).len() <= bytes.len(),
        bytes.len() > 0 ==> lines_of(bytes).len() > 0,
    decreases bytes.len(),
{
    if bytes.len() > 0 {
        lemma_lines_shape(bytes.drop_last());
    }
}

/// A source has room where both counters could take one step for every
/// byte of it.
pub proof fn lemma_source_has_room(options: Options, counters: Counters, bytes: Seq<u8>)
    requires
        counters.line_number + bytes.len() <= u64::MAX,
        counters.consecutive_blank_count + bytes.len() <= u64::MAX,
    ensures
        run_has_room(options, counters, lines_of(bytes)),
{
    lemma_lines_shape(bytes);
    lemma_short_run_has_room(options, counters, lines_of(bytes));
}

/// Cuts the bytes of a source into lines, each with its terminator.
pub fn split_lines(input: &[u8]) -> (lines: Vec<Vec<u8>>)
    ensures
        views(lines@) == lines_of(input@),
{
    let mut lines: Vec<Vec<u8>> = Vec::new();
    let mut open: Vec<u8> = Vec::new();
    let mut i: usize = 0;
    assert(views(lines@) =~= Seq::empty());
    while i < input.len()
        invariant
            i <= input.len(),
            lines_of(input@.take(i as int)) == if open@.len() == 0 {
                views(lines@)
            } else {
                views(lines@).push(open@)
            },
            open@.len() > 0 ==> !is_terminated(open@),
            lines@.len() > 0 ==> is_terminated(views(lines@).last()),
        decreases input.len() - i,
    {
        let byte: u8 = input[i];
        let ghost done = views(lines@);
        let ghost joined = open@.push(byte);
        proof {
            let upto = input@.take(i + 1);
            assert(upto.drop_last() =~= input@.take(i as int));
            assert(upto.last() == byte);
            if open@.len() > 0 {
                assert(done.push(open@).drop_last() =~= done);
                assert(done.push(open@).last() == open@);
            } else {
                assert(joined =~= seq![byte]);
            }
            assert(lines_of(upto) == done.push(joined));
        }
        open.push(byte);
        if byte == LINE_FEED {
            lines.push(open);
            open = Vec::new();
            assert(views(lines@) =~= done.push(joined));
        }
        i += 1;
    }
    assert(input@.take(i as int) =~= input@);
    if open.len() > 0 {
        let ghost done = views(lines@);
        let ghost last = open@;
        lines.push(open);
        assert(views(lines@) =~= done.push(last));
    }
    lines
}

/// Formats the lines in order, with the counters carried from each to the
/// next, and returns everything emitted. The counters must have room at
/// every line.
pub fn format_lines(lines: &Vec<Vec<u8>>, options: &Options, state: &mut FormatterState) -> (output:
    Vec<u8>)
    requires
        run_has_room(*options, old(state)@, views(lines@)),
    ensures
        output@ == run_output(*options, old(state)@, views(lines@)),
        final(state)@ == run_counters(*options, old(state)@, views(lines@)),
{
    let mut output: Vec<u8> = Vec::new();
    let mut k: usize = 0;
    while k < lines.len()
        invariant
            k <= lines.len(),
            run_has_room(*options, old(state)@, views(lines@)),
            output@ == run_output(*options, old(state)@, views(lines@).take(k as int)),
            state@ == run_counters(*options, old(state)@, views(lines@).take(k as int)),
        decreases lines.len() - k,
    {
        let mut line: Vec<u8> = lines[k].clone();
        proof {
            let all = views(lines@);
            assert(all.take(k + 1).drop_last() =~= all.take(k as int));
            assert(all.take(k + 1).last() == all[k as int]);
            assert(line@ == all[k as int]);
        }
        format_buffer(&mut line, options, state);
        output.append(&mut line);
        k += 1;
    }
    assert(views(lines@).take(k as int) =~= views(lines@));
    output
}

/// Formats a whole source: its bytes are cut into lines and every line goes
/// through the formatter. With no option in force the formatter is passed
/// by and the bytes are copied as they are, which is what the formatter
/// would have given. The counters must have room at every line; they have
/// where each could take one step for every byte of the source.
pub fn format_source(input: &[u8], options: &Options, state: &mut FormatterState) -> (output: Vec<u8>)
    requires
        run_has_room(*options, old(state)@, lines_of(input@)),
    ensures
        output@ == run_output(*options, old(state)@, lines_of(input@)),
        final(state)@ == run_counters(*options, old(state)@, lines_of(input@)),
        !options.is_active() ==> output@ == input@ && *final(state) == *old(state),
{
    proof {
        if !options.is_active() {
            lemma_lines_rejoin(input@);
            lemma_inactive_run(*options, state@, lines_of(input@));
        }
    }
    if !options.needs_formatting() {
        return slice_to_vec(input);
    }
    let lines: Vec<Vec<u8>> = split_lines(input);
    format_lines(&lines, options, state)
}

} // verus!
