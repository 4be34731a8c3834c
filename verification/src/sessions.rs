//! The console loops over a whole input: what they report and hand on when their
//! rounds are run one after another until one of them says to stop.
use crate::console::{
    child_input_read_round, child_input_write_round, command_handler2_round,
    command_handler_round, ChunkRead, ChunkWrite, Flow, LineRead, NextLine, Report,
};
use vstd::prelude::*;

verus! {

/// The reports of the loop that echoes lines read into a buffer, over successive
/// reads, and the flow it stops with (`Continue` when the reads run out first).
pub open spec fn command_handler_session(reads: Seq<LineRead>) -> (Seq<Report>, Flow)
    decreases reads.len(),
{
    if reads.len() == 0 {
        (Seq::empty(), Flow::Continue)
    } else {
        let (report, flow) = command_handler_round(reads[0]);
        if flow is Continue {
            let (rest, end) = command_handler_session(reads.drop_first());
            (seq![report] + rest, end)
        } else {
            (seq![report], flow)
        }
    }
}

/// The reports of the loop that echoes lines one by one, over successive results,
/// and the flow it stops with (`Continue` when the results run out first).
pub open spec fn command_handler2_session(nexts: Seq<NextLine>) -> (Seq<Report>, Flow)
    decreases nexts.len(),
{
    if nexts.len() == 0 {
        (Seq::empty(), Flow::Continue)
    } else {
        let (report, flow) = command_handler2_round(nexts[0]);
        if flow is Continue {
            let (rest, end) = command_handler2_session(nexts.drop_first());
            (seq![report] + rest, end)
        } else {
            (seq![report], flow)
        }
    }
}

/// Reads of the lines `raw`, each `counts[i]` bytes long, into a buffer.
pub open spec fn buffered_reads(counts: Seq<usize>, raw: Seq<String>) -> Seq<LineRead> {
    Seq::new(raw.len(), |i: int| LineRead::Read { count: counts[i], line: raw[i] })
}

/// The lines `lines` handed over one by one.
pub open spec fn line_results(lines: Seq<String>) -> Seq<NextLine> {
    lines.map_values(|l: String| NextLine::Line(l))
}

/// The echo of each of `lines`, in order.
pub open spec fn typed(lines: Seq<String>) -> Seq<Report> {
    lines.map_values(|l: String| Report::Typed(l))
}

/// The loop that echoes lines read into a buffer reports each non-empty read, in
/// order, and then how the input ended, and stops as that last round says.
pub proof fn lemma_command_handler_echoes(counts: Seq<usize>, raw: Seq<String>, end: LineRead)
    requires
        counts.len() == raw.len(),
        forall|i: int| 0 <= i < counts.len() ==> counts[i] > 0,
        !(command_handler_round(end).1 is Continue),
    ensures
        command_handler_session(buffered_reads(counts, raw).push(end)) == (
            typed(raw).push(command_handler_round(end).0),
            command_handler_round(end).1,
        ),
    decreases raw.len(),
{
    let reads = buffered_reads(counts, raw).push(end);
    if raw.len() == 0 {
        assert(reads =~= seq![end]);
        assert(typed(raw).push(command_handler_round(end).0) =~= seq![
            command_handler_round(end).0,
        ]);
    } else {
        let rest_counts = counts.drop_first();
        let rest_raw = raw.drop_first();
        lemma_command_handler_echoes(rest_counts, rest_raw, end);
        assert(reads.drop_first() =~= buffered_reads(rest_counts, rest_raw).push(end));
        assert(reads[0] == LineRead::Read { count: counts[0], line: raw[0] });
        assert(typed(raw).push(command_handler_round(end).0) =~= seq![Report::Typed(raw[0])]
            + typed(rest_raw).push(command_handler_round(end).0));
    }
}

/// The loop that echoes lines one by one reports each line, in order, and then how
/// the input ended, and stops as that last round says.
pub proof fn lemma_command_handler2_echoes(lines: Seq<String>, end: NextLine)
    requires
        !(end is Line),
    ensures
        command_handler2_session(line_results(lines).push(end)) == (
            typed(lines).push(command_handler2_round(end).0),
            command_handler2_round(end).1,
        ),
    decreases lines.len(),
{
    let nexts = line_results(lines).push(end);
    if lines.len() == 0 {
        assert(nexts =~= seq![end]);
        assert(typed(lines).push(command_handler2_round(end).0) =~= seq![
            command_handler2_round(end).0,
        ]);
    } else {
        let rest = lines.drop_first();
        lemma_command_handler2_echoes(rest, end);
        assert(nexts.drop_first() =~= line_results(rest).push(end));
        assert(nexts[0] == NextLine::Line(lines[0]));
        assert(typed(lines).push(command_handler2_round(end).0) =~= seq![Report::Typed(lines[0])]
            + typed(rest).push(command_handler2_round(end).0));
    }
}

/// On the same input the two echo loops report the same number of lines, in the
/// same order (the first shows each line as read, the second as handed over), then
/// the same last report: `EOF` at the end of input, or the read error. At the end of
/// input both succeed; on a read error the first still succeeds and the second
/// hands the error on.
pub proof fn lemma_echo_handlers_agree(
    counts: Seq<usize>,
    raw: Seq<String>,
    lines: Seq<String>,
    failure: Option<String>,
    rest: String,
)
    requires
        counts.len() == raw.len(),
        lines.len() == raw.len(),
        forall|i: int| 0 <= i < counts.len() ==> counts[i] > 0,
    ensures
        ({
            let end1 = match failure {
                None => LineRead::Read { count: 0, line: rest },
                Some(e) => LineRead::Failed(e),
            };
            let end2 = match failure {
                None => NextLine::End,
                Some(e) => NextLine::Failed(e),
            };
            let last = match failure {
                None => Report::Eof,
                Some(e) => Report::ReadFailed(e),
            };
            let (r1, f1) = command_handler_session(buffered_reads(counts, raw).push(end1));
            let (r2, f2) = command_handler2_session(line_results(lines).push(end2));
            &&& r1.len() == r2.len() == raw.len() + 1
            &&& forall|i: int| 0 <= i < raw.len() ==> r1[i] == Report::Typed(raw[i]) && r2[i]
                == Report::Typed(lines[i])
            &&& r1.last() == last && r2.last() == last
            &&& f1 is Finish
            &&& f2 == if failure is None {
                Flow::Finish
            } else {
                Flow::Fail
            }
        }),
{
    let end1 = match failure {
        None => LineRead::Read { count: 0, line: rest },
        Some(e) => LineRead::Failed(e),
    };
    let end2 = match failure {
        None => NextLine::End,
        Some(e) => NextLine::Failed(e),
    };
    lemma_command_handler_echoes(counts, raw, end1);
    lemma_command_handler2_echoes(lines, end2);
}

/// The bytes the pump hands to the child, round after round, over successive reads
/// into a buffer and the writes that follow them; the pump stops at the end of
/// input, at a failed read, or after a failed write.
pub open spec fn child_input_forwarded(rounds: Seq<(ChunkRead, Seq<u8>, ChunkWrite)>) -> Seq<u8>
    decreases rounds.len(),
{
    if rounds.len() == 0 {
        Seq::empty()
    } else {
        match child_input_read_round(rounds[0].0, rounds[0].1).1 {
            None => Seq::empty(),
            Some(bytes) => if child_input_write_round(rounds[0].2).1 is Continue {
                bytes + child_input_forwarded(rounds.drop_first())
            } else {
                bytes
            },
        }
    }
}

/// The bytes standard input delivered over successive reads, up to its end or a
/// failed read.
pub open spec fn input_read(rounds: Seq<(ChunkRead, Seq<u8>, ChunkWrite)>) -> Seq<u8>
    decreases rounds.len(),
{
    if rounds.len() == 0 {
        Seq::empty()
    } else {
        match rounds[0].0 {
            ChunkRead::Read(count) => if count == 0 {
                Seq::empty()
            } else {
                rounds[0].1.take(count as int) + input_read(rounds.drop_first())
            },
            ChunkRead::Failed(_) => Seq::empty(),
        }
    }
}

/// While every write to the child succeeds, the bytes the pump hands to the child
/// are exactly the bytes read from standard input, in order.
pub proof fn lemma_child_input_forwards_everything(
    rounds: Seq<(ChunkRead, Seq<u8>, ChunkWrite)>,
)
    requires
        forall|i: int| 0 <= i < rounds.len() ==> #[trigger] rounds[i].2 is Written,
    ensures
        child_input_forwarded(rounds) == input_read(rounds),
    decreases rounds.len(),
{
    if rounds.len() > 0 {
        let rest = rounds.drop_first();
        assert forall|i: int| 0 <= i < rest.len() implies #[trigger] rest[i].2 is Written by {
            assert(rest[i] == rounds[i + 1]);
        }
        lemma_child_input_forwards_everything(rest);
        assert(rounds[0].2 is Written);
    }
}

/// A failed write ends the pump: after a chunk whose write fails nothing more is
/// handed to the child, whatever the later reads and writes would be.
pub proof fn lemma_failed_write_ends_pump(rounds: Seq<(ChunkRead, Seq<u8>, ChunkWrite)>)
    requires
        rounds.len() > 0,
        rounds[0].2 is Failed,
        rounds[0].0 matches ChunkRead::Read(count) && 0 < count <= rounds[0].1.len(),
    ensures
        child_input_forwarded(rounds) == rounds[0].1.take(
            match rounds[0].0 {
                ChunkRead::Read(count) => count as int,
                ChunkRead::Failed(_) => 0,
            },
        ),
{
}

} // verus!
