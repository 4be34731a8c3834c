use web_xml::console::{
    child_input_read_step, child_input_write_step, child_output_step, command_handler2_step,
    command_handler_step, ChunkRead, ChunkWrite, Flow, LineRead, NextLine, Report,
};

#[test]
fn read_line_of_zero_bytes_ends_the_echo() {
    let r = command_handler_step(LineRead::Read { count: 0, line: String::new() });
    assert_eq!(r, (Report::Eof, Flow::Finish));
}

#[test]
fn read_line_is_echoed_with_its_newline() {
    let r = command_handler_step(LineRead::Read { count: 6, line: "hello\n".to_string() });
    assert_eq!(r, (Report::Typed("hello\n".to_string()), Flow::Continue));
}

#[test]
fn read_line_failure_ends_the_echo_with_success() {
    let r = command_handler_step(LineRead::Failed("broken pipe".to_string()));
    assert_eq!(r, (Report::ReadFailed("broken pipe".to_string()), Flow::Finish));
}

#[test]
fn next_line_is_echoed() {
    let r = command_handler2_step(NextLine::Line("abc".to_string()));
    assert_eq!(r, (Report::Typed("abc".to_string()), Flow::Continue));
}

#[test]
fn end_of_lines_finishes() {
    assert_eq!(command_handler2_step(NextLine::End), (Report::Eof, Flow::Finish));
}

#[test]
fn next_line_failure_is_handed_on() {
    let r = command_handler2_step(NextLine::Failed("bad utf-8".to_string()));
    assert_eq!(r, (Report::ReadFailed("bad utf-8".to_string()), Flow::Fail));
}

#[test]
fn chunk_read_is_forwarded_as_the_bytes_read() {
    let buffer = *b"hello world, and the rest of the buffer";
    assert_eq!(
        child_input_read_step(ChunkRead::Read(5), &buffer),
        (Report::ReadBytes(5), Some(b"hello".to_vec()))
    );
}

#[test]
fn empty_chunk_read_stops_the_pump() {
    assert_eq!(child_input_read_step(ChunkRead::Read(0), &[0u8; 256]), (Report::Eof, None));
}

#[test]
fn failed_chunk_read_stops_the_pump() {
    let r = child_input_read_step(ChunkRead::Failed("gone".to_string()), &[0u8; 256]);
    assert_eq!(r, (Report::ReadFailed("gone".to_string()), None));
}

#[test]
fn written_chunk_is_reported() {
    let r = child_input_write_step(ChunkWrite::Written("abc".to_string()));
    assert_eq!(r, (Report::Sent("abc".to_string()), Flow::Continue));
}

#[test]
fn failed_chunk_write_stops_the_pump() {
    let r = child_input_write_step(ChunkWrite::Failed("closed".to_string()));
    assert_eq!(r, (Report::WriteFailed("closed".to_string()), Flow::Finish));
}

#[test]
fn child_output_lines_are_reported_until_the_end() {
    assert_eq!(
        child_output_step(NextLine::Line("ABC".to_string())),
        Some(Report::ChildOutput("ABC".to_string()))
    );
    assert_eq!(child_output_step(NextLine::End), None);
    assert_eq!(child_output_step(NextLine::Failed("x".to_string())), None);
}

#[test]
fn both_echo_loops_agree_on_the_same_input() {
    let raw = ["one\n", "two\n"];
    let mut first = Vec::new();
    for line in raw.iter() {
        let (report, flow) = command_handler_step(LineRead::Read {
            count: line.len(),
            line: line.to_string(),
        });
        assert_eq!(flow, Flow::Continue);
        first.push(report);
    }
    let (last, flow) = command_handler_step(LineRead::Read { count: 0, line: String::new() });
    assert_eq!(flow, Flow::Finish);
    first.push(last);
    let mut second = Vec::new();
    for line in ["one", "two"].iter() {
        let (report, flow) = command_handler2_step(NextLine::Line(line.to_string()));
        assert_eq!(flow, Flow::Continue);
        second.push(report);
    }
    let (last, flow) = command_handler2_step(NextLine::End);
    assert_eq!(flow, Flow::Finish);
    second.push(last);
    assert_eq!(first.len(), second.len());
    assert_eq!(first[2], Report::Eof);
    assert_eq!(second[2], Report::Eof);
    assert_eq!(first[0], Report::Typed("one\n".to_string()));
    assert_eq!(second[0], Report::Typed("one".to_string()));
}

#[test]
fn pumped_bytes_add_up_to_the_input() {
    let input = b"hello, child process";
    let mut forwarded = Vec::new();
    for chunk in input.chunks(6) {
        let mut buffer = [0u8; 256];
        buffer[..chunk.len()].copy_from_slice(chunk);
        let (_, bytes) = child_input_read_step(ChunkRead::Read(chunk.len()), &buffer);
        let bytes = bytes.unwrap();
        forwarded.extend_from_slice(&bytes);
        let (_, flow) = child_input_write_step(ChunkWrite::Written(String::new()));
        assert_eq!(flow, Flow::Continue);
    }
    let (_, none) = child_input_read_step(ChunkRead::Read(0), &[0u8; 256]);
    assert_eq!(none, None);
    assert_eq!(forwarded, input.to_vec());
}
