use starttls_io::imap::{ImapEffect, ImapSafeTls, ImapState};
use starttls_io::line_reader::LineReader;
use starttls_io::socket::{InternalState, SocketEffect, SocketState};
use starttls_io::starttls::StartTlsProvider;
use starttls_io::stream::{terminated_line, StreamEffect, StreamState};
use starttls_io::{PrepareError, PrepareStartTls, Stream};

fn drain(mut s: StreamState) -> Vec<StreamEffect> {
    let mut out = Vec::new();
    while let Some(e) = s.next() {
        out.push(e);
    }
    out
}

#[test]
fn imap_starttls_script() {
    let effects = drain(StartTlsProvider::new("mail.example.org", 143).imap());
    assert_eq!(
        effects,
        vec![
            StreamEffect::Connect("mail.example.org".to_string(), 143),
            StreamEffect::DiscardLine,
            StreamEffect::WriteLine("A1 STARTTLS\r\n".to_string()),
            StreamEffect::DiscardLine,
            StreamEffect::Upgrade("mail.example.org".to_string()),
            StreamEffect::WriteLine("A2 CAPABILITY\r\n".to_string()),
            StreamEffect::ReadLine,
            StreamEffect::Disconnect,
        ]
    );
}

#[test]
fn smtp_starttls_script() {
    let effects = drain(StartTlsProvider::new("smtp.example.org", 587).smtp("client.example"));
    assert_eq!(
        effects,
        vec![
            StreamEffect::Connect("smtp.example.org".to_string(), 587),
            StreamEffect::DiscardLine,
            StreamEffect::WriteLine("HELO client.example\r\n".to_string()),
            StreamEffect::DiscardLine,
            StreamEffect::WriteLine("STARTTLS\r\n".to_string()),
            StreamEffect::DiscardLine,
            StreamEffect::Upgrade("smtp.example.org".to_string()),
            StreamEffect::WriteLine("NOOP\r\n".to_string()),
            StreamEffect::DiscardLine,
            StreamEffect::Disconnect,
        ]
    );
}

#[test]
fn builder_keeps_append_order() {
    let mut s = StreamState::default();
    s.read_line();
    s.write_line("x");
    s.connect("h", 1);
    s.discard_line();
    assert_eq!(s.len(), 4);
    assert_eq!(
        drain(s),
        vec![
            StreamEffect::ReadLine,
            StreamEffect::WriteLine("x\r\n".to_string()),
            StreamEffect::Connect("h".to_string(), 1),
            StreamEffect::DiscardLine,
        ]
    );
}

#[test]
fn exhausted_script_stays_exhausted() {
    let mut s = StreamState::new();
    s.disconnect();
    assert_eq!(s.next(), Some(StreamEffect::Disconnect));
    assert_eq!(s.next(), None);
    assert_eq!(s.next(), None);
    assert_eq!(s.len(), 0);
}

#[test]
fn terminator_is_appended() {
    assert_eq!(terminated_line("A1 NOOP"), "A1 NOOP\r\n");
    assert_eq!(terminated_line(""), "\r\n");
}

#[test]
fn double_disconnect_emits_one_effect() {
    let mut s = SocketState::new();
    s.connect("h", 143);
    s.disconnect();
    s.disconnect();
    assert!(!s.is_connected());
    assert_eq!(s.next(), Some(SocketEffect::Connect("h".to_string(), 143)));
    assert_eq!(s.next(), Some(SocketEffect::Disconnect));
    assert_eq!(s.next(), None);
}

#[test]
fn double_connect_emits_one_effect() {
    let mut s = SocketState::default();
    s.connect("h", 143);
    s.connect("other", 993);
    assert!(s.is_connected());
    assert_eq!(s.next(), Some(SocketEffect::Connect("h".to_string(), 143)));
    assert_eq!(s.next(), None);
}

#[test]
fn disconnect_before_connect_emits_nothing() {
    let mut s = SocketState::new();
    s.disconnect();
    assert_eq!(s.next(), None);
    s.connect("h", 1);
    s.disconnect();
    s.connect("h", 2);
    assert_eq!(s.next(), Some(SocketEffect::Connect("h".to_string(), 1)));
    assert_eq!(s.next(), Some(SocketEffect::Disconnect));
    assert_eq!(s.next(), Some(SocketEffect::Connect("h".to_string(), 2)));
}

#[test]
fn imap_safe_tls_script() {
    let mut s = ImapSafeTls::start("imap.example.org", 143);
    let mut effects = Vec::new();
    while let Some(e) = s.next() {
        effects.push(e);
    }
    assert_eq!(
        effects,
        vec![
            ImapEffect::ConnectPlain("imap.example.org".to_string(), 143),
            ImapEffect::ReadLine,
            ImapEffect::WriteLine("A1 STARTTLS\r\n".to_string()),
            ImapEffect::ReadLine,
            ImapEffect::ConnectTls("imap.example.org".to_string()),
            ImapEffect::WriteLine("A2 CAPABILITY\r\n".to_string()),
            ImapEffect::ReadLine,
            ImapEffect::Disconnect,
        ]
    );
}

#[test]
fn imap_script_as_stream_script() {
    let mut s = ImapState::default();
    s.connect_plain("h", 143);
    s.connect_tls("h");
    s.write_line("A NOOP");
    s.read_line();
    s.disconnect();
    assert_eq!(
        drain(s.into_stream_state()),
        vec![
            StreamEffect::Connect("h".to_string(), 143),
            StreamEffect::Upgrade("h".to_string()),
            StreamEffect::WriteLine("A NOOP\r\n".to_string()),
            StreamEffect::ReadLine,
            StreamEffect::Disconnect,
        ]
    );
}

#[test]
fn line_reader_splits_lines() {
    let mut r = LineReader::new();
    r.fill(&b"a\r\nbc".to_vec());
    assert_eq!(r.take_line(), Some(b"a\r\n".to_vec()));
    assert_eq!(r.take_line(), None);
    assert_eq!(r.len(), 2);
    r.fill(&b"\n\n".to_vec());
    assert_eq!(r.take_line(), Some(b"bc\n".to_vec()));
    assert_eq!(r.take_line(), Some(b"\n".to_vec()));
    assert_eq!(r.take_rest(), Vec::<u8>::new());
    r.fill(&b"xyz".to_vec());
    r.clear();
    assert_eq!(r.len(), 0);
}

#[test]
fn prepare_is_one_shot() {
    let mut p = PrepareStartTls::imap(Stream::new(7u8));
    let (stream, exec) = p.begin().ok().unwrap();
    assert_eq!(stream.into_inner(), 7u8);
    assert_eq!(exec.begun(), 0);
    assert!(matches!(p.begin(), Err(PrepareError::AlreadyConsumed)));
}

#[test]
fn stream_gives_back_its_channel() {
    let mut s = Stream::new(vec![1u8]);
    s.get_mut().push(2);
    assert_eq!(s.into_inner(), vec![1u8, 2]);
}

#[test]
fn internal_state_gates_transitions() {
    let mut s = InternalState::Disconnected;
    assert!(s.can_connect());
    assert!(!s.can_disconnect());
    s.set(InternalState::Connected);
    assert_eq!(s, InternalState::Connected);
    assert!(!s.can_connect());
    assert!(s.can_disconnect());
}
