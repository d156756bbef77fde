//! Protocol scripts for connections that begin in plaintext and are upgraded
//! in place to an encrypted transport (the STARTTLS pattern), and a verified
//! executor that drives such a script without letting bytes cross the
//! upgrade boundary.
use vstd::prelude::*;

pub mod executor;
pub mod imap;
pub mod line_reader;
pub mod socket;
pub mod starttls;
pub mod stream;

use crate::executor::{Executor, Mode, Awaiting};
use crate::stream::{StreamEffectView, StreamState};

verus! {

/// A byte channel, blocking or suspension-based, owned exclusively.
pub struct Stream<S>(S);

impl<S> Stream<S> {
    /// The channel held.
    pub closed spec fn inner(&self) -> S {
        self.0
    }

    /// Takes ownership of `stream`.
    pub fn new(stream: S) -> (r: Self)
        ensures
            r.inner() == stream,
    {
        Stream(stream)
    }

    /// The channel, for reading and writing.
    pub fn get_mut(&mut self) -> (r: &mut S)
        ensures
            *r == old(self).inner(),
            final(self).inner() == *final(r),
    {
        &mut self.0
    }

    /// Gives the channel back.
    pub fn into_inner(self) -> (r: S)
        ensures
            r == self.inner(),
    {
        self.0
    }
}

/// Why a STARTTLS preparation could not begin.
#[derive(Clone, Copy, Debug, PartialEq, Eq, Structural)]
pub enum PrepareError {
    /// The stream was already handed out by an earlier preparation.
    AlreadyConsumed,
}

/// The plaintext part of a STARTTLS negotiation on an open stream: skip the
/// greeting, send the STARTTLS command as it is, skip its answer.
pub open spec fn prepare_script(command: Seq<char>) -> Seq<StreamEffectView> {
    seq![
        StreamEffectView::DiscardLine,
        StreamEffectView::WriteLine(command),
        StreamEffectView::DiscardLine,
    ]
}

/// A one-shot preparation of an open plaintext stream for its upgrade.
pub struct PrepareStartTls<S> {
    stream: Option<Stream<S>>,
    starttls_command: String,
}

impl<S> PrepareStartTls<S> {
    /// Whether the stream is still held.
    pub closed spec fn holds_stream(&self) -> bool {
        self.stream is Some
    }

    /// The stream held, until it is handed out.
    pub closed spec fn held_stream(&self) -> Option<Stream<S>> {
        self.stream
    }

    /// The command that asks the server to upgrade, line terminator included.
    pub closed spec fn command(&self) -> Seq<char> {
        self.starttls_command@
    }

    /// A preparation of `stream` that sends `starttls_command` as it is.
    pub fn new(stream: Stream<S>, starttls_command: &str) -> (r: Self)
        ensures
            r.holds_stream(),
            r.held_stream() == Some(stream),
            r.command() == starttls_command@,
    {
        PrepareStartTls { stream: Some(stream), starttls_command: starttls_command.to_owned() }
    }

    /// A preparation of `stream` for IMAP, which sends `A1 STARTTLS`.
    pub fn imap(stream: Stream<S>) -> (r: Self)
        ensures
            r.holds_stream(),
            r.held_stream() == Some(stream),
            r.command() == "A1 STARTTLS\r\n"@,
    {
        PrepareStartTls::new(stream, "A1 STARTTLS\r\n")
    }

    /// Hands out the stream with the executor of the preparation script, on
    /// the first call only; a later call fails and changes nothing.
    ///
    /// When the executor is done, the stream is ready for the upgrade:
    /// dropping the executor drops whatever it read ahead.
    pub fn begin(&mut self) -> (r: Result<(Stream<S>, Executor), PrepareError>)
        ensures
            old(self).holds_stream() <==> r is Ok,
            final(self).command() == old(self).command(),
            !final(self).holds_stream(),
            final(self).held_stream() is None,
            r is Ok ==> old(self).held_stream() == Some(r->Ok_0.0),
            r matches Ok((_, e)) ==> e.wf() && e.script() == prepare_script(old(self).command())
                && e.log().len() == 0 && e.spec_mode() == Mode::Plain && e.spec_awaiting()
                == Awaiting::Nothing && e.spec_halted() is None,
            r is Ok ==> r->Ok_0.1.buffered().len() == 0 && r->Ok_0.1.epoch_input().len() == 0
                && r->Ok_0.1.served().len() == 0 && r->Ok_0.1.kept_lines().len() == 0,
            r is Err ==> r == Err::<(Stream<S>, Executor), PrepareError>(
                PrepareError::AlreadyConsumed,
            ),
    {
        match self.stream.take() {
            None => Err(PrepareError::AlreadyConsumed),
            Some(stream) => {
                let mut script = StreamState::new();
                script.discard_line();
                script.push_effect(crate::stream::StreamEffect::WriteLine(
                    self.starttls_command.clone(),
                ));
                script.discard_line();
                let e = Executor::on_plain_channel(script);
                proof {
                    assert(e.script() =~= prepare_script(old(self).command()));
                    crate::executor::lemma_reads_from_live_channel(&e);
                    assert(e.epoch_consumed().len() + e.buffered().len() == e.epoch_input().len());
                    assert(e.buffered().len() == 0);
                    assert(e.served().len() == 0);
                    assert(e.kept_lines().len() == 0);
                }
                Ok((stream, e))
            },
        }
    }
}

} // verus!
