//! A plain IMAP script builder and its STARTTLS negotiation.
use crate::stream::{StreamEffect, StreamEffectView, StreamState, crlf, terminated_line};
use std::collections::VecDeque;
use vstd::prelude::*;

verus! {

/// One effect of an IMAP script.
#[derive(Clone, Debug, PartialEq, Eq)]
pub enum ImapEffect {
    ConnectPlain(String, u16),
    ConnectTls(String),
    Disconnect,
    ReadLine,
    WriteLine(String),
}

/// The mathematical value of an `ImapEffect`.
pub enum ImapEffectView {
    ConnectPlain(Seq<char>, u16),
    ConnectTls(Seq<char>),
    Disconnect,
    ReadLine,
    WriteLine(Seq<char>),
}

impl View for ImapEffect {
    type V = ImapEffectView;

    open spec fn view(&self) -> ImapEffectView {
        match self {
            ImapEffect::ConnectPlain(h, p) => ImapEffectView::ConnectPlain(h@, *p),
            ImapEffect::ConnectTls(h) => ImapEffectView::ConnectTls(h@),
            ImapEffect::Disconnect => ImapEffectView::Disconnect,
            ImapEffect::ReadLine => ImapEffectView::ReadLine,
            ImapEffect::WriteLine(l) => ImapEffectView::WriteLine(l@),
        }
    }
}

/// The stream effect that performs an IMAP effect: a TLS connect upgrades
/// the plaintext channel in place.
pub open spec fn as_stream_effect(e: ImapEffectView) -> StreamEffectView {
    match e {
        ImapEffectView::ConnectPlain(h, p) => StreamEffectView::Connect(h, p),
        ImapEffectView::ConnectTls(h) => StreamEffectView::Upgrade(h),
        ImapEffectView::Disconnect => StreamEffectView::Disconnect,
        ImapEffectView::ReadLine => StreamEffectView::ReadLine,
        ImapEffectView::WriteLine(l) => StreamEffectView::WriteLine(l),
    }
}

/// The IMAP negotiation of `ImapSafeTls::start`.
pub open spec fn safe_tls_script(host: Seq<char>, port: u16) -> Seq<ImapEffectView> {
    seq![
        ImapEffectView::ConnectPlain(host, port),
        ImapEffectView::ReadLine,
        ImapEffectView::WriteLine("A1 STARTTLS"@ + crlf()),
        ImapEffectView::ReadLine,
        ImapEffectView::ConnectTls(host),
        ImapEffectView::WriteLine("A2 CAPABILITY"@ + crlf()),
        ImapEffectView::ReadLine,
        ImapEffectView::Disconnect,
    ]
}

/// An IMAP script: the effects still to be performed, front first.
#[derive(Clone, Debug)]
pub struct ImapState {
    effects: VecDeque<ImapEffect>,
}

impl View for ImapState {
    type V = Seq<ImapEffectView>;

    closed spec fn view(&self) -> Seq<ImapEffectView> {
        self.effects@.map_values(|e: ImapEffect| e@)
    }
}

impl ImapState {
    /// An empty script.
    pub fn new() -> (r: Self)
        ensures
            r@ == Seq::<ImapEffectView>::empty(),
    {
        let r = ImapState { effects: VecDeque::new() };
        assert(r@ =~= Seq::<ImapEffectView>::empty());
        r
    }

    fn push(&mut self, effect: ImapEffect)
        ensures
            final(self)@ == old(self)@.push(effect@),
    {
        self.effects.push_back(effect);
        assert(final(self)@ =~= old(self)@.push(effect@));
    }

    /// Appends the opening of a plaintext channel to `host:port`.
    pub fn connect_plain(&mut self, host: &str, port: u16)
        ensures
            final(self)@ == old(self)@.push(ImapEffectView::ConnectPlain(host@, port)),
    {
        self.push(ImapEffect::ConnectPlain(host.to_owned(), port));
    }

    /// Appends the switch of the channel to TLS for `host`.
    pub fn connect_tls(&mut self, host: &str)
        ensures
            final(self)@ == old(self)@.push(ImapEffectView::ConnectTls(host@)),
    {
        self.push(ImapEffect::ConnectTls(host.to_owned()));
    }

    /// Appends the reading of one line.
    pub fn read_line(&mut self)
        ensures
            final(self)@ == old(self)@.push(ImapEffectView::ReadLine),
    {
        self.push(ImapEffect::ReadLine);
    }

    /// Appends the writing of `line` followed by the line terminator.
    pub fn write_line(&mut self, line: &str)
        ensures
            final(self)@ == old(self)@.push(ImapEffectView::WriteLine(line@ + crlf())),
    {
        let l = terminated_line(line);
        self.push(ImapEffect::WriteLine(l));
    }

    /// Appends the closing of the channel.
    pub fn disconnect(&mut self)
        ensures
            final(self)@ == old(self)@.push(ImapEffectView::Disconnect),
    {
        self.push(ImapEffect::Disconnect);
    }

    /// Takes the first effect still to be performed, or `None` once the script is exhausted.
    pub fn next(&mut self) -> (r: Option<ImapEffect>)
        ensures
            old(self)@.len() == 0 ==> r is None && final(self)@ == old(self)@,
            old(self)@.len() > 0 ==> r is Some && r->0@ == old(self)@[0] && final(self)@
                == old(self)@.drop_first(),
    {
        let r = self.effects.pop_front();
        proof {
            if old(self)@.len() > 0 {
                assert(self@ =~= old(self)@.drop_first());
            }
        }
        r
    }

    /// The same script as stream effects, in the same order, for the executor.
    pub fn into_stream_state(self) -> (r: StreamState)
        ensures
            r@ == self@.map_values(|e: ImapEffectView| as_stream_effect(e)),
    {
        let ghost all = self@;
        let mut this = self;
        let mut out = StreamState::new();
        loop
            invariant
                all == self@,
                out@ + this@.map_values(|e: ImapEffectView| as_stream_effect(e))
                    == all.map_values(|e: ImapEffectView| as_stream_effect(e)),
            decreases this@.len(),
        {
            let ghost before = this@;
            match this.next() {
                None => {
                    assert(out@ =~= all.map_values(|e: ImapEffectView| as_stream_effect(e)));
                    return out;
                },
                Some(effect) => {
                    let s = match effect {
                        ImapEffect::ConnectPlain(h, p) => StreamEffect::Connect(h, p),
                        ImapEffect::ConnectTls(h) => StreamEffect::Upgrade(h),
                        ImapEffect::Disconnect => StreamEffect::Disconnect,
                        ImapEffect::ReadLine => StreamEffect::ReadLine,
                        ImapEffect::WriteLine(l) => StreamEffect::WriteLine(l),
                    };
                    out.push_effect(s);
                    assert(before.map_values(|e: ImapEffectView| as_stream_effect(e)) =~= seq![
                        as_stream_effect(before[0]),
                    ] + this@.map_values(|e: ImapEffectView| as_stream_effect(e)));
                    assert(out@ + this@.map_values(|e: ImapEffectView| as_stream_effect(e))
                        =~= all.map_values(|e: ImapEffectView| as_stream_effect(e)));
                },
            }
        }
    }
}

impl Default for ImapState {
    fn default() -> (r: Self)
        ensures
            r@ == Seq::<ImapEffectView>::empty(),
    {
        ImapState::new()
    }
}

/// Builds the IMAP STARTTLS negotiation.
pub struct ImapSafeTls;

impl ImapSafeTls {
    /// The negotiation script for the server at `host:port`.
    pub fn start(host: &str, port: u16) -> (r: ImapState)
        ensures
            r@ == safe_tls_script(host@, port),
    {
        let mut state = ImapState::new();
        state.connect_plain(host, port);
        state.read_line();
        state.write_line("A1 STARTTLS");
        state.read_line();
        state.connect_tls(host);
        state.write_line("A2 CAPABILITY");
        state.read_line();
        state.disconnect();
        assert(state@ =~= safe_tls_script(host@, port));
        state
    }
}

/// A marker for running the IMAP STARTTLS negotiation over tokio and rustls.
/// It has no methods: the runner is `start_imap_safe_tls` in the application
/// crate, which runs [`ImapSafeTls::start`] through the executor.
pub struct TokioImapSafeTls;

} // verus!
