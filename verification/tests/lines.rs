use zephyr_provision::lines::LineAssembler;
use zephyr_provision::process::{LogEvent, StreamKind};

fn out(text: &[u8]) -> LogEvent {
    LogEvent { stream: StreamKind::Stdout, text: text.to_vec() }
}

#[test]
fn complete_lines_keep_their_terminators() {
    let mut assembler = LineAssembler::new();
    let events = assembler.feed(StreamKind::Stdout, b"one\ntwo\r\nthr");
    assert_eq!(events, vec![out(b"one\n"), out(b"two\r\n")]);
    let events = assembler.feed(StreamKind::Stdout, b"ee\n");
    assert_eq!(events, vec![out(b"three\n")]);
    assert_eq!(assembler.finish(StreamKind::Stdout), None);
}

#[test]
fn unterminated_tail_is_handed_out_when_the_stream_closes() {
    let mut assembler = LineAssembler::new();
    assert_eq!(assembler.feed(StreamKind::Stderr, b"no newline"), vec![]);
    assert_eq!(
        assembler.finish(StreamKind::Stderr),
        Some(LogEvent { stream: StreamKind::Stderr, text: b"no newline".to_vec() })
    );
    assert_eq!(assembler.finish(StreamKind::Stderr), None);
}

#[test]
fn the_cut_between_chunks_does_not_matter() {
    let data: &[u8] = b"alpha\nbeta\n\ngamma";
    let mut whole = LineAssembler::new();
    let mut expected = whole.feed(StreamKind::Stdout, data);
    expected.extend(whole.finish(StreamKind::Stdout));
    assert_eq!(expected, vec![out(b"alpha\n"), out(b"beta\n"), out(b"\n"), out(b"gamma")]);
    for cut in 0..=data.len() {
        let mut parts = LineAssembler::new();
        let mut got = parts.feed(StreamKind::Stdout, &data[..cut]);
        got.extend(parts.feed(StreamKind::Stdout, &data[cut..]));
        got.extend(parts.finish(StreamKind::Stdout));
        assert_eq!(got, expected);
    }
}

#[test]
fn an_empty_chunk_changes_nothing() {
    let mut assembler = LineAssembler::new();
    assert_eq!(assembler.feed(StreamKind::Stdout, b""), vec![]);
    assert_eq!(assembler.feed(StreamKind::Stdout, b"x"), vec![]);
    assert_eq!(assembler.feed(StreamKind::Stdout, b""), vec![]);
    assert_eq!(assembler.feed(StreamKind::Stdout, b"\n"), vec![out(b"x\n")]);
}

#[test]
fn a_carriage_return_alone_does_not_end_a_line() {
    let mut assembler = LineAssembler::new();
    assert_eq!(assembler.feed(StreamKind::Stdout, b"10%\r20%\r"), vec![]);
    assert_eq!(assembler.feed(StreamKind::Stdout, b"done\n"), vec![out(b"10%\r20%\rdone\n")]);
}
