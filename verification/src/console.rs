//! The decisions of the console tools that echo standard input and pump it through a
//! child process: each step takes what the last read or write gave and says what to
//! report and whether to go on. Reading, writing and printing are left to the caller.
use vstd::prelude::*;

verus! {

/// A message for the console.
#[derive(Debug, PartialEq, Eq)]
pub enum Report {
    /// "EOF", on standard output.
    Eof,
    /// "You typed: >{line}<", on standard output.
    Typed(String),
    /// "Error reading line: {reason}", on standard error.
    ReadFailed(String),
    /// "read {count} bytes", on standard output.
    ReadBytes(usize),
    /// "Sent to child: >{text}<", on standard output.
    Sent(String),
    /// "Failed to write to child stdin: {reason}", on standard error.
    WriteFailed(String),
    /// "Child output: {line}", on standard output.
    ChildOutput(String),
}

/// What to do after a step.
#[derive(Debug, PartialEq, Eq)]
pub enum Flow {
    /// Read again.
    Continue,
    /// Stop, with success.
    Finish,
    /// Stop, handing the read error on to the caller.
    Fail,
}

/// What reading one line into a buffer gave: the number of bytes read and the
/// buffer, or the reason it failed.
pub enum LineRead {
    Read { count: usize, line: String },
    Failed(String),
}

/// What asking for the next line gave.
pub enum NextLine {
    Line(String),
    End,
    Failed(String),
}

/// What reading a chunk of bytes gave: how many bytes, or the reason it failed.
pub enum ChunkRead {
    Read(usize),
    Failed(String),
}

/// What writing a chunk to the child gave: the chunk as text, or the reason it failed.
pub enum ChunkWrite {
    Written(String),
    Failed(String),
}

/// One round of echoing lines read into a buffer: zero bytes is the end of input,
/// anything else is echoed, and a failed read is reported and ends the loop, which
/// still succeeds.
pub open spec fn command_handler_round(read: LineRead) -> (Report, Flow) {
    match read {
        LineRead::Read { count, line } => if count == 0 {
            (Report::Eof, Flow::Finish)
        } else {
            (Report::Typed(line), Flow::Continue)
        },
        LineRead::Failed(reason) => (Report::ReadFailed(reason), Flow::Finish),
    }
}

/// Decides one round of the loop that echoes lines read into a buffer.
pub fn command_handler_step(read: LineRead) -> (r: (Report, Flow))
    ensures
        r == command_handler_round(read),
        match read {
            LineRead::Read { count, line } => if count == 0 {
                r == (Report::Eof, Flow::Finish)
            } else {
                r == (Report::Typed(line), Flow::Continue)
            },
            LineRead::Failed(reason) => r == (Report::ReadFailed(reason), Flow::Finish),
        },
{
    match read {
        LineRead::Read { count, line } => if count == 0 {
            (Report::Eof, Flow::Finish)
        } else {
            (Report::Typed(line), Flow::Continue)
        },
        LineRead::Failed(reason) => (Report::ReadFailed(reason), Flow::Finish),
    }
}

/// One round of echoing lines one by one: a line is echoed, the end of input ends
/// the loop with success, and a failed read is reported and handed on.
pub open spec fn command_handler2_round(next: NextLine) -> (Report, Flow) {
    match next {
        NextLine::Line(line) => (Report::Typed(line), Flow::Continue),
        NextLine::End => (Report::Eof, Flow::Finish),
        NextLine::Failed(reason) => (Report::ReadFailed(reason), Flow::Fail),
    }
}

/// Decides one round of the loop that echoes lines one by one.
pub fn command_handler2_step(next: NextLine) -> (r: (Report, Flow))
    ensures
        r == command_handler2_round(next),
        match next {
            NextLine::Line(line) => r == (Report::Typed(line), Flow::Continue),
            NextLine::End => r == (Report::Eof, Flow::Finish),
            NextLine::Failed(reason) => r == (Report::ReadFailed(reason), Flow::Fail),
        },
{
    match next {
        NextLine::Line(line) => (Report::Typed(line), Flow::Continue),
        NextLine::End => (Report::Eof, Flow::Finish),
        NextLine::Failed(reason) => (Report::ReadFailed(reason), Flow::Fail),
    }
}

/// The first `count` bytes of `buffer`.
fn prefix(buffer: &[u8], count: usize) -> (bytes: Vec<u8>)
    requires
        count <= buffer@.len(),
    ensures
        bytes@ == buffer@.take(count as int),
{
    let mut bytes: Vec<u8> = Vec::new();
    let mut i: usize = 0;
    while i < count
        invariant
            i <= count <= buffer@.len(),
            bytes@ == buffer@.take(i as int),
        decreases count - i,
    {
        bytes.push(buffer[i]);
        i = i + 1;
        proof {
            assert(bytes@ =~= buffer@.take(i as int));
        }
    }
    bytes
}

/// After reading a chunk of standard input into `buffer` for the child: zero bytes
/// ends the pump, a failed read is reported and ends it, and otherwise the bytes
/// read, the first `count` of the buffer, are to be written to the child.
pub open spec fn child_input_read_round(read: ChunkRead, buffer: Seq<u8>) -> (
    Report,
    Option<Seq<u8>>,
) {
    match read {
        ChunkRead::Read(count) => if count == 0 {
            (Report::Eof, None)
        } else {
            (Report::ReadBytes(count), Some(buffer.take(count as int)))
        },
        ChunkRead::Failed(reason) => (Report::ReadFailed(reason), None),
    }
}

/// The mathematical value of the bytes to forward, if any.
pub open spec fn forward_view(bytes: Option<Vec<u8>>) -> Option<Seq<u8>> {
    match bytes {
        Some(b) => Some(b@),
        None => None,
    }
}

/// Decides one round of pumping standard input into the child.
pub fn child_input_read_step(read: ChunkRead, buffer: &[u8]) -> (r: (Report, Option<Vec<u8>>))
    requires
        read matches ChunkRead::Read(count) ==> count <= buffer@.len(),
    ensures
        r.0 == child_input_read_round(read, buffer@).0,
        forward_view(r.1) == child_input_read_round(read, buffer@).1,
        match read {
            ChunkRead::Read(count) => if count == 0 {
                r.0 == Report::Eof && r.1 is None
            } else {
                &&& r.0 == Report::ReadBytes(count)
                &&& r.1 matches Some(bytes) && bytes@ == buffer@.take(count as int)
            },
            ChunkRead::Failed(reason) => r.0 == Report::ReadFailed(reason) && r.1 is None,
        },
{
    match read {
        ChunkRead::Read(count) => if count == 0 {
            (Report::Eof, None)
        } else {
            (Report::ReadBytes(count), Some(prefix(buffer, count)))
        },
        ChunkRead::Failed(reason) => (Report::ReadFailed(reason), None),
    }
}

/// After writing a chunk to the child: a written chunk is reported and the pump
/// reads on; a failed write is reported and ends it.
pub open spec fn child_input_write_round(written: ChunkWrite) -> (Report, Flow) {
    match written {
        ChunkWrite::Written(text) => (Report::Sent(text), Flow::Continue),
        ChunkWrite::Failed(reason) => (Report::WriteFailed(reason), Flow::Finish),
    }
}

/// Decides what follows a write to the child.
pub fn child_input_write_step(written: ChunkWrite) -> (r: (Report, Flow))
    ensures
        r == child_input_write_round(written),
        match written {
            ChunkWrite::Written(text) => r == (Report::Sent(text), Flow::Continue),
            ChunkWrite::Failed(reason) => r == (Report::WriteFailed(reason), Flow::Finish),
        },
{
    match written {
        ChunkWrite::Written(text) => (Report::Sent(text), Flow::Continue),
        ChunkWrite::Failed(reason) => (Report::WriteFailed(reason), Flow::Finish),
    }
}

/// One line of the child's output: a line is reported and the reader goes on; the
/// end of the output, or a failure, ends it silently.
pub fn child_output_step(next: NextLine) -> (r: Option<Report>)
    ensures
        match next {
            NextLine::Line(line) => r == Some(Report::ChildOutput(line)),
            _ => r is None,
        },
{
    match next {
        NextLine::Line(line) => Some(Report::ChildOutput(line)),
        _ => None,
    }
}

/// Reading no bytes is the end of input: it is reported as such and nothing is
/// forwarded, whatever the buffer still holds from earlier reads.
pub proof fn lemma_zero_read_is_end_of_input(buffer: Seq<u8>, other: Seq<u8>)
    ensures
        child_input_read_round(ChunkRead::Read(0), buffer) == (Report::Eof, None::<Seq<u8>>),
        child_input_read_round(ChunkRead::Read(0), buffer) == child_input_read_round(
            ChunkRead::Read(0),
            other,
        ),
{
}

/// A chunk of `count` bytes forwards the first `count` bytes of the buffer, and the
/// number reported is the number of bytes forwarded; it depends on how many bytes
/// were read, not on what they are.
pub proof fn lemma_read_report_counts_forwarded_bytes(
    count: usize,
    buffer: Seq<u8>,
    other: Seq<u8>,
)
    requires
        0 < count <= buffer.len(),
    ensures
        child_input_read_round(ChunkRead::Read(count), buffer).1 matches Some(bytes) && bytes
            == buffer.take(count as int) && child_input_read_round(ChunkRead::Read(count), buffer).0
            == Report::ReadBytes(bytes.len() as usize),
        child_input_read_round(ChunkRead::Read(count), buffer).0 == child_input_read_round(
            ChunkRead::Read(count),
            other,
        ).0,
{
}

/// A failed read is reported with its reason and forwards nothing.
pub proof fn lemma_failed_read_forwards_nothing(reason: String, buffer: Seq<u8>)
    ensures
        child_input_read_round(ChunkRead::Failed(reason), buffer) == (
            Report::ReadFailed(reason),
            None::<Seq<u8>>,
        ),
{
}

/// A written chunk is reported as sent, with the text that was written, and the
/// pump reads on; a failed write is reported with its reason and always ends the
/// pump, whatever the reason says. Neither is ever reported as output of the child.
pub proof fn lemma_write_outcomes(text: String, reason: String)
    ensures
        child_input_write_round(ChunkWrite::Written(text)) == (Report::Sent(text), Flow::Continue),
        child_input_write_round(ChunkWrite::Failed(reason)) == (
            Report::WriteFailed(reason),
            Flow::Finish,
        ),
        !(child_input_write_round(ChunkWrite::Written(text)).0 is ChildOutput),
        !(child_input_write_round(ChunkWrite::Failed(reason)).0 is ChildOutput),
{
}

} // verus!
