use pty_sessions::events::{closed_event_name, output_event_name, Event};
use pty_sessions::forward::{ForwardState, Forwarder, ReadOutcome, CHUNK_SIZE};

const ID: &str = "3f2b8c1e-5a4d-4e6f-9a7b-0c1d2e3f4a5b";

fn output(text: &str) -> Option<Event> {
    Some(Event::Output {
        name: format!("terminal-output-{}", ID),
        text: text.to_string(),
    })
}

fn closed() -> Option<Event> {
    Some(Event::Closed { name: format!("terminal-closed-{}", ID) })
}

#[test]
fn event_names_hold_the_identifier() {
    assert_eq!(output_event_name("abc"), "terminal-output-abc");
    assert_eq!(closed_event_name("abc"), "terminal-closed-abc");
    assert_eq!(output_event_name(""), "terminal-output-");
    assert_eq!(closed_event_name(""), "terminal-closed-");
}

#[test]
fn event_names_of_different_sessions_differ() {
    assert_ne!(output_event_name("a"), output_event_name("b"));
    assert_ne!(closed_event_name("a"), closed_event_name("b"));
    assert_ne!(output_event_name("a"), closed_event_name("a"));
}

#[test]
fn task_starts_reading_a_chunk() {
    let task = Forwarder::new(ID);
    assert_eq!(task.state(), ForwardState::Reading);
    assert_eq!(task.next_read(), Some(4096));
    assert_eq!(CHUNK_SIZE, 4096);
}

#[test]
fn data_is_forwarded_as_text() {
    let mut task = Forwarder::new(ID);
    assert_eq!(task.step(ReadOutcome::Data(b"hello\r\n".to_vec())), output("hello\r\n"));
    assert_eq!(task.state(), ForwardState::Reading);
    assert_eq!(task.step(ReadOutcome::Data("héllo ✓".as_bytes().to_vec())), output("héllo ✓"));
    assert_eq!(task.next_read(), Some(4096));
}

#[test]
fn invalid_bytes_become_replacement_characters() {
    let mut task = Forwarder::new(ID);
    assert_eq!(task.step(ReadOutcome::Data(vec![0x66, 0xff, 0x6f])), output("f\u{FFFD}o"));
    assert_eq!(task.step(ReadOutcome::Data(vec![0x80])), output("\u{FFFD}"));
}

#[test]
fn character_split_across_chunks_is_replaced() {
    let bytes = "é".as_bytes();
    let mut task = Forwarder::new(ID);
    assert_eq!(task.step(ReadOutcome::Data(vec![b'a', bytes[0]])), output("a\u{FFFD}"));
    assert_eq!(task.step(ReadOutcome::Data(vec![bytes[1], b'b'])), output("\u{FFFD}b"));
}

#[test]
fn end_of_stream_closes_once() {
    let mut task = Forwarder::new(ID);
    assert_eq!(task.step(ReadOutcome::Data(b"bye".to_vec())), output("bye"));
    assert_eq!(task.step(ReadOutcome::Data(Vec::new())), closed());
    assert_eq!(task.state(), ForwardState::Terminated);
    assert_eq!(task.next_read(), None);
    assert_eq!(task.step(ReadOutcome::Data(b"late".to_vec())), None);
    assert_eq!(task.step(ReadOutcome::Data(Vec::new())), None);
    assert_eq!(task.step(ReadOutcome::Failed), None);
    assert_eq!(task.state(), ForwardState::Terminated);
}

#[test]
fn read_error_closes_once() {
    let mut task = Forwarder::new(ID);
    assert_eq!(task.step(ReadOutcome::Failed), closed());
    assert_eq!(task.state(), ForwardState::Terminated);
    assert_eq!(task.step(ReadOutcome::Failed), None);
    assert_eq!(task.step(ReadOutcome::Data(b"x".to_vec())), None);
}

#[test]
fn immediate_exit_gives_exactly_one_closed_event() {
    let mut task = Forwarder::new(ID);
    let reads = vec![
        ReadOutcome::Data(Vec::new()),
        ReadOutcome::Data(b"ignored".to_vec()),
        ReadOutcome::Failed,
        ReadOutcome::Data(Vec::new()),
    ];
    let mut events: Vec<Event> = Vec::new();
    for read in reads {
        if let Some(event) = task.step(read) {
            events.push(event);
        }
    }
    assert_eq!(events, vec![Event::Closed { name: format!("terminal-closed-{}", ID) }]);
}

#[test]
fn output_keeps_the_order_of_reads() {
    let mut task = Forwarder::new(ID);
    let mut texts: Vec<String> = Vec::new();
    for n in 0..10 {
        let chunk = format!("line {}\n", n);
        match task.step(ReadOutcome::Data(chunk.clone().into_bytes())) {
            Some(Event::Output { name, text }) => {
                assert_eq!(name, format!("terminal-output-{}", ID));
                texts.push(text);
            }
            other => panic!("no output event: {:?}", other),
        }
    }
    let expected: Vec<String> = (0..10).map(|n| format!("line {}\n", n)).collect();
    assert_eq!(texts, expected);
}

#[test]
fn full_chunk_is_forwarded_whole() {
    let mut task = Forwarder::new(ID);
    let chunk = vec![b'x'; CHUNK_SIZE];
    assert_eq!(task.step(ReadOutcome::Data(chunk)), output(&"x".repeat(4096)));
}

#[test]
fn tasks_of_two_sessions_use_their_own_channels() {
    let mut first = Forwarder::new("one");
    let mut second = Forwarder::new("two");
    assert_eq!(
        first.step(ReadOutcome::Data(b"1".to_vec())),
        Some(Event::Output { name: "terminal-output-one".to_string(), text: "1".to_string() })
    );
    assert_eq!(
        second.step(ReadOutcome::Data(b"2".to_vec())),
        Some(Event::Output { name: "terminal-output-two".to_string(), text: "2".to_string() })
    );
    assert_eq!(
        first.step(ReadOutcome::Failed),
        Some(Event::Closed { name: "terminal-closed-one".to_string() })
    );
    assert_eq!(second.state(), ForwardState::Reading);
    assert_eq!(
        second.step(ReadOutcome::Data(Vec::new())),
        Some(Event::Closed { name: "terminal-closed-two".to_string() })
    );
}
