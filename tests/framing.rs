use log_server::connection::{encode_frame, writer_step, Outbound, ReadEvent, Reader, WriterStep};
use log_server::framing::take_messages;

fn bytes(s: &str) -> Vec<u8> {
    s.as_bytes().to_vec()
}

#[test]
fn take_messages_splits_complete_frames() {
    let (rest, frames) = take_messages(bytes("a\nbc\nrest"));
    assert_eq!(frames, vec![bytes("a"), bytes("bc")]);
    assert_eq!(rest, bytes("rest"));
}

#[test]
fn take_messages_on_empty_input() {
    let (rest, frames) = take_messages(Vec::new());
    assert!(frames.is_empty());
    assert!(rest.is_empty());
}

#[test]
fn take_messages_with_trailing_newline_keeps_nothing() {
    let (rest, frames) = take_messages(bytes("x\n"));
    assert_eq!(frames, vec![bytes("x")]);
    assert!(rest.is_empty());
}

#[test]
fn take_messages_keeps_empty_frames() {
    let (rest, frames) = take_messages(bytes("\n\n"));
    assert_eq!(frames, vec![Vec::<u8>::new(), Vec::<u8>::new()]);
    assert!(rest.is_empty());
}

#[test]
fn take_messages_without_newline_holds_everything() {
    let (rest, frames) = take_messages(bytes("no end yet"));
    assert!(frames.is_empty());
    assert_eq!(rest, bytes("no end yet"));
}

#[test]
fn framing_round_trip_over_every_split() {
    let stream = "Ping\n{\"ReadLogs\":1}\n\nClearLogs\npartial";
    let data = bytes(stream);
    let expected = vec!["Ping", "{\"ReadLogs\":1}", "", "ClearLogs"];
    for i in 0..=data.len() {
        for j in i..=data.len() {
            let mut reader = Reader::new(3);
            let mut frames: Vec<String> = Vec::new();
            for chunk in [&data[..i], &data[i..j], &data[j..]] {
                if chunk.is_empty() {
                    continue;
                }
                let outcome = reader.on_read(ReadEvent::Data(chunk.to_vec()));
                assert!(!outcome.disconnect);
                frames.extend(outcome.frames);
            }
            assert_eq!(frames, expected);
            assert_eq!(reader.buffer, bytes("partial"));
            assert!(reader.open);
        }
    }
}

#[test]
fn reader_reassembles_a_character_split_across_reads() {
    let data = bytes("caf\u{e9}\n");
    let mut reader = Reader::new(1);
    let first = reader.on_read(ReadEvent::Data(data[..4].to_vec()));
    assert!(first.frames.is_empty());
    assert!(!first.disconnect);
    let second = reader.on_read(ReadEvent::Data(data[4..].to_vec()));
    assert_eq!(second.frames, vec!["caf\u{e9}".to_string()]);
    assert!(!second.disconnect);
}

#[test]
fn reader_end_of_stream_disconnects_once() {
    let mut reader = Reader::new(7);
    let outcome = reader.on_read(ReadEvent::Data(bytes("Ping\n")));
    assert_eq!(outcome.frames, vec!["Ping".to_string()]);
    let end = reader.on_read(ReadEvent::Data(Vec::new()));
    assert!(end.disconnect);
    assert!(!reader.open);
    assert_eq!(reader.client_id, 7);
    let after = reader.on_read(ReadEvent::End);
    assert!(!after.disconnect);
    let late = reader.on_read(ReadEvent::Data(bytes("Ping\n")));
    assert!(!late.disconnect);
    assert!(late.frames.is_empty());
}

#[test]
fn reader_failed_read_disconnects() {
    let mut reader = Reader::new(2);
    assert!(reader.on_read(ReadEvent::Failed).disconnect);
    assert!(!reader.on_read(ReadEvent::Failed).disconnect);
}

#[test]
fn reader_end_event_disconnects() {
    let mut reader = Reader::new(2);
    assert!(reader.on_read(ReadEvent::End).disconnect);
}

#[test]
fn reader_stops_at_a_frame_that_is_not_text() {
    let mut reader = Reader::new(4);
    let mut data = bytes("Ping\n");
    data.push(0xff);
    data.extend(bytes("\nRecompile\n"));
    let outcome = reader.on_read(ReadEvent::Data(data));
    assert_eq!(outcome.frames, vec!["Ping".to_string()]);
    assert!(outcome.disconnect);
    assert!(!reader.open);
}

#[test]
fn writer_appends_one_newline() {
    assert_eq!(encode_frame("pong"), bytes("pong\n"));
    assert_eq!(encode_frame(""), bytes("\n"));
    match writer_step(Outbound::Line("[]".to_string())) {
        WriterStep::Write(b) => assert_eq!(b, bytes("[]\n")),
        WriterStep::Shutdown => panic!("a line must be written"),
    }
}

#[test]
fn writer_close_shuts_down_without_writing() {
    assert!(matches!(writer_step(Outbound::Close), WriterStep::Shutdown));
}

#[test]
fn written_frames_read_back() {
    let mut data = encode_frame("first");
    data.extend(encode_frame("second"));
    let (rest, frames) = take_messages(data);
    assert_eq!(frames, vec![bytes("first"), bytes("second")]);
    assert!(rest.is_empty());
}
