use starttls_io::executor::{Action, Awaiting, ErrorKind, Event, ExecError, Executor, Mode};
use starttls_io::starttls::StartTlsProvider;
use starttls_io::stream::StreamState;
use starttls_io::{PrepareStartTls, Stream};
use std::collections::VecDeque;

/// A mock transport: chunks that the plaintext and the encrypted channel
/// deliver, and a record of every request served.
struct Mock {
    plain: VecDeque<Vec<u8>>,
    tls: VecDeque<Vec<u8>>,
    encrypted: bool,
    trace: Vec<String>,
    max_write: usize,
    fail_on_request: Option<usize>,
}

impl Mock {
    fn new(plain: &[&[u8]], tls: &[&[u8]]) -> Mock {
        Mock {
            plain: plain.iter().map(|c| c.to_vec()).collect(),
            tls: tls.iter().map(|c| c.to_vec()).collect(),
            encrypted: false,
            trace: Vec::new(),
            max_write: usize::MAX,
            fail_on_request: None,
        }
    }

    fn run(&mut self, exec: &mut Executor) -> Action {
        let mut event = Event::Start;
        let mut requests = 0usize;
        loop {
            let action = exec.advance(event);
            if self.fail_on_request == Some(requests) {
                if !matches!(action, Action::Done | Action::Halt(_)) {
                    self.trace.push("fail".to_string());
                    event = Event::Failed;
                    requests += 1;
                    continue;
                }
            }
            requests += 1;
            event = match action {
                Action::Open(host, port) => {
                    self.trace.push(format!("open {host}:{port}"));
                    Event::Opened
                }
                Action::Upgrade(host) => {
                    self.trace.push(format!("upgrade {host}"));
                    self.encrypted = true;
                    Event::Upgraded
                }
                Action::Send(bytes) => {
                    let n = bytes.len().min(self.max_write);
                    let side = if self.encrypted { "tls" } else { "tcp" };
                    self.trace
                        .push(format!("send {side} {}", String::from_utf8_lossy(&bytes[..n])));
                    Event::Sent(n)
                }
                Action::Receive => {
                    let queue = if self.encrypted { &mut self.tls } else { &mut self.plain };
                    Event::Received(queue.pop_front().unwrap_or_default())
                }
                Action::Close => {
                    self.trace.push("close".to_string());
                    Event::Closed
                }
                other => return other,
            };
        }
    }
}

fn imap_executor() -> Executor {
    Executor::new(StartTlsProvider::new("mail.example.org", 143).imap())
}

#[test]
fn imap_script_sends_commands_around_the_upgrade() {
    let mut exec = imap_executor();
    let mut mock = Mock::new(
        &[b"* OK\r\n", b"A1 OK\r\n"],
        &[b"* CAPABILITY IMAP4rev1\r\n"],
    );
    assert_eq!(mock.run(&mut exec), Action::Done);
    assert_eq!(
        mock.trace,
        vec![
            "open mail.example.org:143",
            "send tcp A1 STARTTLS\r\n",
            "upgrade mail.example.org",
            "send tls A2 CAPABILITY\r\n",
            "close",
        ]
    );
    assert_eq!(exec.lines(), &vec![b"* CAPABILITY IMAP4rev1\r\n".to_vec()]);
    assert_eq!(exec.begun(), 8);
    assert_eq!(exec.mode(), Mode::Closed);
    assert_eq!(exec.error(), None);
}

#[test]
fn read_ahead_before_upgrade_is_never_read_after_it() {
    let mut exec = imap_executor();
    let mut mock = Mock::new(
        &[b"* OK\r\n", b"A1 OK\r\n* CAPABILITY INJECTED\r\n"],
        &[b"* CAPABILITY IMAP4rev1\r\n"],
    );
    assert_eq!(mock.run(&mut exec), Action::Done);
    assert_eq!(exec.lines(), &vec![b"* CAPABILITY IMAP4rev1\r\n".to_vec()]);
}

#[test]
fn greeting_and_ack_in_one_chunk() {
    let mut exec = imap_executor();
    let mut mock = Mock::new(&[b"* OK\r\nA1 OK\r\n"], &[b"* CAPA", b"BILITY\r\n"]);
    assert_eq!(mock.run(&mut exec), Action::Done);
    assert_eq!(exec.lines(), &vec![b"* CAPABILITY\r\n".to_vec()]);
    assert_eq!(mock.trace[1], "send tcp A1 STARTTLS\r\n");
}

#[test]
fn partial_writes_are_resumed() {
    let mut exec = imap_executor();
    let mut mock = Mock::new(&[b"* OK\r\n", b"A1 OK\r\n"], &[b"* CAPABILITY\r\n"]);
    mock.max_write = 4;
    assert_eq!(mock.run(&mut exec), Action::Done);
    assert_eq!(
        &mock.trace[1..5],
        &["send tcp A1 S", "send tcp TART", "send tcp TLS\r", "send tcp \n"]
    );
}

#[test]
fn end_of_stream_ends_the_line() {
    let mut exec = imap_executor();
    let mut mock = Mock::new(&[b"* OK\r\n", b"A1 OK\r\n"], &[b"* PARTIAL"]);
    assert_eq!(mock.run(&mut exec), Action::Done);
    assert_eq!(exec.lines(), &vec![b"* PARTIAL".to_vec()]);
}

#[test]
fn failure_halts_before_the_next_effect() {
    let mut exec = imap_executor();
    let mut mock = Mock::new(&[b"* OK\r\n", b"A1 OK\r\n"], &[]);
    // requests: open, receive, send, receive, upgrade
    mock.fail_on_request = Some(2);
    let halt = mock.run(&mut exec);
    let err = ExecError { effect_index: 2, kind: ErrorKind::Io };
    assert_eq!(halt, Action::Halt(err));
    assert_eq!(exec.begun(), 3);
    assert_eq!(exec.error(), Some(err));
    assert_eq!(exec.advance(Event::Start), Action::Halt(err));
    assert_eq!(exec.advance(Event::Opened), Action::Halt(err));
    assert_eq!(exec.begun(), 3);
    assert!(!mock.trace.iter().any(|t| t.starts_with("upgrade")));
}

#[test]
fn failed_open_is_a_connect_error() {
    let mut exec = imap_executor();
    assert_eq!(
        exec.advance(Event::Start),
        Action::Open("mail.example.org".to_string(), 143)
    );
    assert_eq!(exec.awaiting(), Awaiting::Open);
    assert_eq!(
        exec.advance(Event::Failed),
        Action::Halt(ExecError { effect_index: 0, kind: ErrorKind::Connect })
    );
    assert_eq!(exec.begun(), 1);
}

#[test]
fn failed_upgrade_is_an_upgrade_error() {
    let mut exec = imap_executor();
    let mut mock = Mock::new(&[b"* OK\r\n", b"A1 OK\r\n"], &[]);
    mock.fail_on_request = Some(4);
    assert_eq!(
        mock.run(&mut exec),
        Action::Halt(ExecError { effect_index: 4, kind: ErrorKind::Upgrade })
    );
}

#[test]
fn upgrade_without_a_channel_is_a_protocol_error() {
    let mut script = StreamState::new();
    script.upgrade("mail.example.org");
    let mut exec = Executor::new(script);
    assert_eq!(
        exec.advance(Event::Start),
        Action::Halt(ExecError { effect_index: 0, kind: ErrorKind::ProtocolState })
    );
}

#[test]
fn unexpected_event_is_a_protocol_error() {
    let mut exec = imap_executor();
    assert!(matches!(exec.advance(Event::Start), Action::Open(_, _)));
    assert_eq!(
        exec.advance(Event::Sent(3)),
        Action::Halt(ExecError { effect_index: 0, kind: ErrorKind::ProtocolState })
    );
}

#[test]
fn zero_byte_write_is_an_io_error() {
    let mut script = StreamState::new();
    script.connect("h", 25);
    script.write_line("NOOP");
    let mut exec = Executor::new(script);
    assert!(matches!(exec.advance(Event::Start), Action::Open(_, _)));
    assert_eq!(exec.advance(Event::Opened), Action::Send(b"NOOP\r\n".to_vec()));
    assert_eq!(
        exec.advance(Event::Sent(0)),
        Action::Halt(ExecError { effect_index: 1, kind: ErrorKind::Io })
    );
}

#[test]
fn disconnect_without_a_channel_is_a_no_op() {
    let mut script = StreamState::new();
    script.disconnect();
    script.disconnect();
    let mut exec = Executor::new(script);
    assert_eq!(exec.advance(Event::Start), Action::Done);
    assert_eq!(exec.begun(), 2);
}

#[test]
fn empty_script_is_done_at_once() {
    let mut exec = Executor::new(StreamState::new());
    assert_eq!(exec.advance(Event::Start), Action::Done);
    assert_eq!(exec.advance(Event::Start), Action::Done);
}

#[test]
fn second_connect_on_live_channel_is_a_protocol_error() {
    let mut script = StreamState::new();
    script.connect("h", 143);
    script.connect("h", 143);
    let mut exec = Executor::new(script);
    assert!(matches!(exec.advance(Event::Start), Action::Open(_, _)));
    assert_eq!(
        exec.advance(Event::Opened),
        Action::Halt(ExecError { effect_index: 1, kind: ErrorKind::ProtocolState })
    );
}

#[test]
fn prepare_sends_command_between_two_lines() {
    let mut p = PrepareStartTls::new(Stream::new(()), "STARTTLS\r\n");
    let (_stream, mut exec) = p.begin().ok().unwrap();
    assert_eq!(exec.mode(), Mode::Plain);
    assert_eq!(exec.advance(Event::Start), Action::Receive);
    assert_eq!(
        exec.advance(Event::Received(b"220 ready\r\n".to_vec())),
        Action::Send(b"STARTTLS\r\n".to_vec())
    );
    assert_eq!(exec.advance(Event::Sent(10)), Action::Receive);
    assert_eq!(
        exec.advance(Event::Received(b"220 go ahead\r\nleftover".to_vec())),
        Action::Done
    );
    assert_eq!(exec.mode(), Mode::Plain);
}

#[test]
fn smtp_script_runs_in_order() {
    let mut exec = Executor::new(StartTlsProvider::new("smtp.example.org", 587).smtp("me"));
    let mut mock = Mock::new(
        &[b"220 hi\r\n", b"250 hello\r\n", b"220 go\r\n"],
        &[b"250 ok\r\n"],
    );
    assert_eq!(mock.run(&mut exec), Action::Done);
    assert_eq!(
        mock.trace,
        vec![
            "open smtp.example.org:587",
            "send tcp HELO me\r\n",
            "send tcp STARTTLS\r\n",
            "upgrade smtp.example.org",
            "send tls NOOP\r\n",
            "close",
        ]
    );
    assert!(exec.lines().is_empty());
    assert_eq!(exec.begun(), 10);
}

#[test]
fn disconnect_on_live_channel_closes_it() {
    let mut script = StreamState::new();
    script.connect("h", 143);
    script.disconnect();
    script.disconnect();
    let mut exec = Executor::new(script);
    assert_eq!(exec.advance(Event::Start), Action::Open("h".to_string(), 143));
    assert_eq!(exec.advance(Event::Opened), Action::Close);
    assert_eq!(exec.advance(Event::Closed), Action::Done);
    assert_eq!(exec.mode(), Mode::Closed);
}

#[test]
fn read_ahead_on_the_same_channel_serves_the_next_line() {
    let mut script = StreamState::new();
    script.connect("h", 143);
    script.read_line();
    script.read_line();
    script.read_line();
    let mut exec = Executor::new(script);
    assert!(matches!(exec.advance(Event::Start), Action::Open(_, _)));
    assert_eq!(exec.advance(Event::Opened), Action::Receive);
    assert_eq!(exec.advance(Event::Received(b"one\r\ntwo\r\nthr".to_vec())), Action::Receive);
    assert_eq!(exec.advance(Event::Received(b"ee\r\n".to_vec())), Action::Done);
    assert_eq!(
        exec.lines(),
        &vec![b"one\r\n".to_vec(), b"two\r\n".to_vec(), b"three\r\n".to_vec()]
    );
}

#[test]
fn prepare_halts_on_failed_greeting_before_any_write() {
    let mut p = PrepareStartTls::imap(Stream::new(()));
    let (_stream, mut exec) = p.begin().ok().unwrap();
    assert_eq!(exec.advance(Event::Start), Action::Receive);
    assert_eq!(
        exec.advance(Event::Failed),
        Action::Halt(ExecError { effect_index: 0, kind: ErrorKind::Io })
    );
    assert_eq!(exec.begun(), 1);
}

#[test]
fn complete_write_ends_the_effect() {
    let mut script = StreamState::new();
    script.connect("h", 143);
    script.write_line("A1 NOOP");
    script.read_line();
    let mut exec = Executor::new(script);
    assert!(matches!(exec.advance(Event::Start), Action::Open(_, _)));
    assert_eq!(exec.advance(Event::Opened), Action::Send(b"A1 NOOP\r\n".to_vec()));
    assert_eq!(exec.advance(Event::Sent(9)), Action::Receive);
    assert_eq!(exec.begun(), 3);
}
