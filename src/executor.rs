//! The upgrade-safe executor: a state machine that interprets a stream script.
//!
//! It never touches a channel itself. Each call of [`Executor::advance`] takes
//! the outcome of the last requested action and returns the next action; the
//! caller performs it on the real transport. The executor owns the line
//! buffer of the live channel and drops it when the channel is upgraded, so no
//! byte read in plaintext can be handed out as if it came from the encrypted
//! channel.
use crate::line_reader::{LF, LineReader, is_complete_line, no_line_end};
use crate::stream::{StreamEffect, StreamEffectView, StreamState};
use vstd::prelude::*;
use vstd::slice::slice_to_vec;
use vstd::utf8::encode_utf8;

verus! {

/// Which channel is live.
#[derive(Clone, Copy, Debug, PartialEq, Eq, Structural)]
pub enum Mode {
    Closed,
    Plain,
    Encrypted,
}

/// Why a script was halted.
#[derive(Clone, Copy, Debug, PartialEq, Eq, Structural)]
pub enum ErrorKind {
    /// The plaintext channel could not be opened.
    Connect,
    /// A read, write, flush or close failed on an established channel.
    Io,
    /// The encrypted channel could not be established.
    Upgrade,
    /// The script or the caller broke the order of the protocol: an effect on
    /// a channel that is not there, or an outcome that answers no request.
    ProtocolState,
}

/// A typed failure: which effect failed, counted from zero, and why.
#[derive(Clone, Copy, Debug, PartialEq, Eq, Structural)]
pub struct ExecError {
    pub effect_index: usize,
    pub kind: ErrorKind,
}

/// What the caller is asked to do next.
#[derive(Debug, PartialEq, Eq)]
pub enum Action {
    /// Open a plaintext channel to `host:port`.
    Open(String, u16),
    /// Hand the plaintext channel, with nothing buffered, to the TLS upgrade for `host`.
    Upgrade(String),
    /// Write these bytes to the live channel; report how many were written.
    Send(Vec<u8>),
    /// Read from the live channel; report the bytes read (none at end of stream).
    Receive,
    /// Flush and close the live channel.
    Close,
    /// The script ran to its end.
    Done,
    /// The script stopped on an error; no further effect runs.
    Halt(ExecError),
}

/// The outcome of the last action, as the caller observed it.
#[derive(Debug, PartialEq, Eq)]
pub enum Event {
    /// Nothing was requested yet: begin the script.
    Start,
    Opened,
    Upgraded,
    Sent(usize),
    Received(Vec<u8>),
    Closed,
    /// The requested action failed.
    Failed,
}

/// The request the executor waits on.
#[derive(Clone, Copy, Debug, PartialEq, Eq, Structural)]
pub enum Awaiting {
    Nothing,
    Open,
    Upgrade,
    Send,
    /// A line is wanted; `true` when it is kept (read), `false` when dropped.
    Line(bool),
    Close,
}

/// `s` ends `t`.
pub open spec fn is_suffix(s: Seq<u8>, t: Seq<u8>) -> bool {
    s.len() <= t.len() && t.subrange(t.len() - s.len(), t.len() as int) == s
}

/// The bytes that a `WriteLine` effect puts on the wire.
pub open spec fn wire_bytes(e: StreamEffectView) -> Seq<u8> {
    match e {
        StreamEffectView::WriteLine(l) => encode_utf8(l),
        _ => Seq::empty(),
    }
}

/// The bytes of `lines`, one after another.
pub open spec fn concat(lines: Seq<Seq<u8>>) -> Seq<u8>
    decreases lines.len(),
{
    if lines.len() == 0 {
        Seq::empty()
    } else {
        concat(lines.drop_last()) + lines.last()
    }
}

/// The lines kept by `ReadLine` effects, given what each finished effect of
/// `log` handed out (`served`, front first).
pub open spec fn kept_of(log: Seq<StreamEffectView>, served: Seq<Seq<u8>>) -> Seq<Seq<u8>>
    decreases served.len(),
{
    if served.len() == 0 {
        Seq::empty()
    } else {
        let n = served.len() - 1;
        let before = kept_of(log, served.drop_last());
        if log[n] is ReadLine {
            before.push(served[n])
        } else {
            before
        }
    }
}

/// Effect `e` may finish handing out `line`, in the mode `m` that holds when
/// it finishes, answered by an outcome of the request `by` (`Nothing` when
/// it finished without a request). A connect, an upgrade and a non-empty
/// write finish only when their request is answered; a disconnect finishes
/// only with no channel live; a line read hands out a complete line, or
/// what was left when the channel reported end of stream (`end_of_stream`).
pub open spec fn finish_fits(
    e: StreamEffectView,
    line: Seq<u8>,
    end_of_stream: bool,
    m: Mode,
    by: Awaiting,
) -> bool {
    match e {
        StreamEffectView::Connect(_, _) => by == Awaiting::Open && line.len() == 0,
        StreamEffectView::Upgrade(_) => by == Awaiting::Upgrade && line.len() == 0,
        StreamEffectView::WriteLine(l) => line.len() == 0 && (by == Awaiting::Send
            || encode_utf8(l).len() == 0),
        StreamEffectView::Disconnect => line.len() == 0 && m == Mode::Closed,
        _ => is_complete_line(line) || (end_of_stream && by is Line),
    }
}

/// The channel state in which an effect can run: a connect needs no live
/// channel, an upgrade a plaintext one, line reads and writes a live one.
pub open spec fn fits_mode(e: StreamEffectView, m: Mode) -> bool {
    match e {
        StreamEffectView::Connect(_, _) => m == Mode::Closed,
        StreamEffectView::Upgrade(_) => m == Mode::Plain,
        StreamEffectView::Disconnect => true,
        _ => m != Mode::Closed,
    }
}

/// `event` answers the request `a`, with `pending` bytes left to write.
pub open spec fn answers(a: Awaiting, pending: nat, event: Event) -> bool {
    match (a, event) {
        (Awaiting::Nothing, Event::Start) => true,
        (Awaiting::Nothing, _) => false,
        (_, Event::Failed) => true,
        (Awaiting::Open, Event::Opened) => true,
        (Awaiting::Upgrade, Event::Upgraded) => true,
        (Awaiting::Send, Event::Sent(n)) => n <= pending,
        (Awaiting::Line(_), Event::Received(_)) => true,
        (Awaiting::Close, Event::Closed) => true,
        _ => false,
    }
}

/// The live channel after `event` answered the request `a` made in mode `m`.
pub open spec fn next_mode(a: Awaiting, m: Mode, event: Event) -> Mode {
    match (a, event) {
        (Awaiting::Open, Event::Opened) => Mode::Plain,
        (Awaiting::Upgrade, Event::Upgraded) => Mode::Encrypted,
        (Awaiting::Close, Event::Closed) => Mode::Closed,
        _ => m,
    }
}

/// The error kind that a failed request reports.
pub open spec fn failure_kind(a: Awaiting) -> ErrorKind {
    match a {
        Awaiting::Open => ErrorKind::Connect,
        Awaiting::Upgrade => ErrorKind::Upgrade,
        _ => ErrorKind::Io,
    }
}

/// The bytes that `event` delivers to a reader waiting in state `a`.
pub open spec fn delivered(a: Awaiting, event: Event) -> Seq<u8> {
    match (a, event) {
        (Awaiting::Line(_), Event::Received(b)) => b@,
        _ => Seq::empty(),
    }
}

/// Interprets one stream script against one transport.
///
/// Holds the effects not begun yet, the request waited on, which channel is
/// live, the line buffer of that channel, the bytes of the line being
/// written, the lines kept so far, and the error that halted the script.
pub struct Executor {
    pending: StreamState,
    awaiting: Awaiting,
    mode: Mode,
    reader: LineReader,
    outbox: Vec<u8>,
    lines: Vec<Vec<u8>>,
    halted: Option<ExecError>,
    started: usize,
    script: Ghost<Seq<StreamEffectView>>,
    log: Ghost<Seq<StreamEffectView>>,
    epoch: Ghost<nat>,
    epoch_input: Ghost<Seq<u8>>,
    epoch_consumed: Ghost<Seq<u8>>,
    kept_epoch: Ghost<Seq<nat>>,
    kept_at: Ghost<Seq<int>>,
    served: Ghost<Seq<Seq<u8>>>,
}

impl Executor {
    /// The whole script, as it was handed over.
    pub closed spec fn script(&self) -> Seq<StreamEffectView> {
        self.script@
    }

    /// The effects begun so far, in the order they were begun.
    pub closed spec fn log(&self) -> Seq<StreamEffectView> {
        self.log@
    }

    /// The effects not begun yet.
    pub closed spec fn pending(&self) -> Seq<StreamEffectView> {
        self.pending@
    }

    /// The request waited on.
    pub closed spec fn spec_awaiting(&self) -> Awaiting {
        self.awaiting
    }

    /// Which channel is live.
    pub closed spec fn spec_mode(&self) -> Mode {
        self.mode
    }

    /// The error that halted the script, if any.
    pub closed spec fn spec_halted(&self) -> Option<ExecError> {
        self.halted
    }

    /// The bytes held by the reader of the live channel.
    pub closed spec fn buffered(&self) -> Seq<u8> {
        self.reader@
    }

    /// The bytes still to be written for the line being written.
    pub closed spec fn outbox(&self) -> Seq<u8> {
        self.outbox@
    }

    /// The lines kept by `ReadLine` effects, in order.
    pub closed spec fn kept_lines(&self) -> Seq<Seq<u8>> {
        self.lines@.map_values(|l: Vec<u8>| l@)
    }

    /// Counts the channels established so far: each open and each upgrade starts a new one.
    pub closed spec fn epoch(&self) -> nat {
        self.epoch@
    }

    /// All bytes delivered by the live channel.
    pub closed spec fn epoch_input(&self) -> Seq<u8> {
        self.epoch_input@
    }

    /// The bytes of the live channel already handed out as lines.
    pub closed spec fn epoch_consumed(&self) -> Seq<u8> {
        self.epoch_consumed@
    }

    /// What each finished effect handed out, in script order: the line for
    /// a line read, nothing for the other effects.
    pub closed spec fn served(&self) -> Seq<Seq<u8>> {
        self.served@
    }

    /// For each kept line, the channel (counted as by `epoch`) it was read from.
    pub closed spec fn kept_epoch(&self) -> Seq<nat> {
        self.kept_epoch@
    }

    /// `self` went on from `before`: earlier kept lines stay as they were, and
    /// each line kept since was read on a channel no older than `before`'s.
    pub open spec fn kept_extends(&self, before: &Executor) -> bool {
        let n = before.kept_lines().len();
        &&& n <= self.kept_lines().len()
        &&& n <= self.kept_epoch().len()
        &&& self.kept_lines().subrange(0, n as int) == before.kept_lines()
        &&& self.kept_epoch().subrange(0, n as int) == before.kept_epoch()
        &&& forall|i: int|
            n <= i < self.kept_epoch().len() ==> before.epoch() <= #[trigger] self.kept_epoch()[i]
    }

    /// Each kept line is tagged with its channel; the lines of the live
    /// channel stand, at their offsets, in what that channel handed out.
    pub closed spec fn kept_wf(&self) -> bool {
        &&& self.kept_epoch@.len() == self.lines@.len()
        &&& self.kept_at@.len() == self.lines@.len()
        &&& forall|i: int|
            0 <= i < self.lines@.len() ==> #[trigger] self.kept_epoch@[i] <= self.epoch@
        &&& forall|i: int|
            0 <= i < self.lines@.len() && #[trigger] self.kept_epoch@[i] == self.epoch@ ==> {
                let k = self.kept_at@[i];
                let l = self.lines@[i]@;
                &&& 0 <= k
                &&& k + l.len() <= self.epoch_consumed@.len()
                &&& self.epoch_consumed@.subrange(k, k + l.len()) == l
            }
    }

    /// The index of the effect in progress, or of the last one begun.
    pub open spec fn current_index(&self) -> int {
        if self.log().len() > 0 {
            self.log().len() - 1
        } else {
            0
        }
    }

    /// The executor's invariant: begun and pending effects make up the
    /// script, the buffer is what the live channel delivered and was not
    /// handed out, and each request waited on belongs to the last effect begun.
    pub closed spec fn wf(&self) -> bool {
        &&& self.core_wf()
        &&& self.awaiting == Awaiting::Nothing && self.halted is None ==> self.served@.len()
            == self.log@.len()
    }

    /// The invariant, also while an effect is being begun.
    pub closed spec fn core_wf(&self) -> bool {
        &&& self.kept_wf()
        &&& self.served@.len() <= self.log@.len() <= self.served@.len() + 1
        &&& self.awaiting != Awaiting::Nothing ==> self.served@.len() + 1 == self.log@.len()
        &&& self.kept_lines() == kept_of(self.log@, self.served@)
        &&& self.log@ + self.pending@ == self.script@
        &&& self.started == self.log@.len()
        &&& self.script@.len() <= usize::MAX
        &&& self.epoch_consumed@ + self.reader@ == self.epoch_input@
        &&& self.mode == Mode::Closed ==> self.reader@.len() == 0
        &&& self.halted is Some ==> self.awaiting == Awaiting::Nothing
        &&& self.halted is Some ==> self.halted->0.effect_index == self.current_index()
        &&& self.awaiting != Awaiting::Nothing ==> self.log@.len() > 0
        &&& self.awaiting == Awaiting::Open ==> self.log@.last() is Connect && self.mode
            == Mode::Closed
        &&& self.awaiting == Awaiting::Upgrade ==> self.log@.last() is Upgrade && self.mode
            == Mode::Plain && self.reader@.len() == 0 && self.epoch_input@.len() == 0
        &&& self.awaiting == Awaiting::Send ==> self.log@.last() is WriteLine && self.mode
            != Mode::Closed && self.outbox@.len() > 0 && is_suffix(
            self.outbox@,
            wire_bytes(self.log@.last()),
        )
        &&& self.awaiting == Awaiting::Line(true) ==> self.log@.last() is ReadLine && self.mode
            != Mode::Closed && no_line_end(self.reader@)
        &&& self.awaiting == Awaiting::Line(false) ==> self.log@.last() is DiscardLine
            && self.mode != Mode::Closed && no_line_end(self.reader@)
        &&& self.awaiting == Awaiting::Close ==> self.log@.last() is Disconnect && self.mode
            != Mode::Closed
    }
}


impl Executor {
    /// `a` is what the executor asks for in this state.
    pub open spec fn asks(&self, a: &Action) -> bool {
        &&& (a is Done || a is Halt || self.log().len() > 0)
        &&& (a is Halt || self.spec_halted() is None)
        &&& (a is Done ==> self.served().len() == self.log().len())
        &&& (a is Done || a is Halt || self.served().len() + 1 == self.log().len())
        &&& match a {
            Action::Open(h, p) => self.spec_awaiting() == Awaiting::Open && self.log().last()
                == StreamEffectView::Connect(h@, *p) && self.spec_mode() == Mode::Closed
                && self.buffered().len() == 0,
            Action::Upgrade(h) => self.spec_awaiting() == Awaiting::Upgrade && self.log().last()
                == StreamEffectView::Upgrade(h@) && self.buffered().len() == 0 && self.spec_mode()
                == Mode::Plain,
            Action::Send(b) => self.spec_awaiting() == Awaiting::Send && self.spec_mode()
                != Mode::Closed && b@ == self.outbox()
                && b@.len() > 0 && self.log().last() is WriteLine && is_suffix(
                b@,
                wire_bytes(self.log().last()),
            ),
            Action::Receive => self.spec_awaiting() is Line && self.spec_mode() != Mode::Closed
                && no_line_end(self.buffered())
                && (self.spec_awaiting() == Awaiting::Line(true) ==> self.log().last()
                is ReadLine) && (self.spec_awaiting() == Awaiting::Line(false) ==> self.log().last()
                is DiscardLine),
            Action::Close => self.spec_awaiting() == Awaiting::Close && self.spec_mode()
                != Mode::Closed && self.log().last() is Disconnect,
            Action::Done => self.spec_awaiting() == Awaiting::Nothing && self.spec_halted() is None
                && self.log() == self.script(),
            Action::Halt(err) => self.spec_awaiting() == Awaiting::Nothing && self.spec_halted()
                == Some(*err),
        }
    }

    /// An executor that has begun nothing of `script`.
    pub fn new(script: StreamState) -> (r: Self)
        ensures
            r.wf(),
            r.script() == script@,
            r.log() == Seq::<StreamEffectView>::empty(),
            r.spec_awaiting() == Awaiting::Nothing,
            r.spec_mode() == Mode::Closed,
            r.spec_halted() is None,
            r.kept_lines() == Seq::<Seq<u8>>::empty(),
            r.epoch_input() == Seq::<u8>::empty(),
            r.served() == Seq::<Seq<u8>>::empty(),
    {
        let _n = script.len();
        let ghost s = script@;
        let r = Executor {
            pending: script,
            awaiting: Awaiting::Nothing,
            mode: Mode::Closed,
            reader: LineReader::new(),
            outbox: Vec::new(),
            lines: Vec::new(),
            halted: None,
            started: 0,
            script: Ghost(s),
            log: Ghost(Seq::empty()),
            epoch: Ghost(0),
            epoch_input: Ghost(Seq::empty()),
            epoch_consumed: Ghost(Seq::empty()),
            kept_epoch: Ghost(Seq::empty()),
            kept_at: Ghost(Seq::empty()),
            served: Ghost(Seq::empty()),
        };
        assert(r.log@ + r.pending@ =~= r.script@);
        assert(r.epoch_consumed@ + r.reader@ =~= r.epoch_input@);
        assert(r.kept_lines() =~= Seq::<Seq<u8>>::empty());
        r
    }

    /// An executor for `script` on a plaintext channel that is already open.
    pub fn on_plain_channel(script: StreamState) -> (r: Self)
        ensures
            r.wf(),
            r.script() == script@,
            r.log() == Seq::<StreamEffectView>::empty(),
            r.spec_awaiting() == Awaiting::Nothing,
            r.spec_mode() == Mode::Plain,
            r.spec_halted() is None,
            r.kept_lines() == Seq::<Seq<u8>>::empty(),
            r.epoch_input() == Seq::<u8>::empty(),
            r.served() == Seq::<Seq<u8>>::empty(),
    {
        let mut r = Executor::new(script);
        r.mode = Mode::Plain;
        r
    }

    /// Stops the script with an error of `kind` on the current effect.
    fn halt(&mut self, kind: ErrorKind) -> (r: Action)
        requires
            old(self).log@ + old(self).pending@ == old(self).script@,
            old(self).started == old(self).log@.len(),
            old(self).script@.len() <= usize::MAX,
            old(self).epoch_consumed@ + old(self).reader@ == old(self).epoch_input@,
            old(self).mode == Mode::Closed ==> old(self).reader@.len() == 0,
            old(self).halted is None,
            old(self).kept_wf(),
            old(self).served@.len() <= old(self).log@.len() <= old(self).served@.len() + 1,
            old(self).kept_lines() == kept_of(old(self).log@, old(self).served@),
        ensures
            final(self).wf(),
            final(self).kept_extends(old(self)),
            final(self).spec_mode() == old(self).spec_mode(),
            final(self).outbox() == old(self).outbox(),
            r == Action::Halt(ExecError { effect_index: old(self).current_index() as usize, kind }),
            final(self).asks(&r),
            final(self).log() == old(self).log(),
            final(self).script() == old(self).script(),
            final(self).pending() == old(self).pending(),
            final(self).epoch() == old(self).epoch(),
            final(self).epoch_input() == old(self).epoch_input(),
            final(self).kept_lines() == old(self).kept_lines(),
            final(self).served == old(self).served,
            final(self).reader == old(self).reader,
    {
        let index: usize = if self.started > 0 {
            self.started - 1
        } else {
            0
        };
        let err = ExecError { effect_index: index, kind };
        self.halted = Some(err);
        self.awaiting = Awaiting::Nothing;
        proof {
            lemma_kept_extends_refl(self);
        }
        Action::Halt(err)
    }

    /// Records that `line` was handed out by the live channel, and keeps it when `keep`.
    fn record_line(&mut self, line: Vec<u8>, keep: bool)
        requires
            old(self).kept_wf(),
            old(self).served@.len() + 1 == old(self).log@.len(),
            keep <==> old(self).log@.last() is ReadLine,
            old(self).kept_lines() == kept_of(old(self).log@, old(self).served@),
        ensures
            final(self).served@ == old(self).served@.push(line@),
            final(self).kept_lines() == kept_of(final(self).log@, final(self).served@),
            final(self).kept_wf(),
            final(self).kept_extends(old(self)),
            final(self).epoch_consumed@ == old(self).epoch_consumed@ + line@,
            keep ==> final(self).kept_lines() == old(self).kept_lines().push(line@),
            !keep ==> final(self).lines == old(self).lines,
            final(self).reader == old(self).reader,
            final(self).epoch == old(self).epoch,
            final(self).epoch_input == old(self).epoch_input,
            final(self).pending == old(self).pending,
            final(self).awaiting == old(self).awaiting,
            final(self).mode == old(self).mode,
            final(self).outbox == old(self).outbox,
            final(self).halted == old(self).halted,
            final(self).started == old(self).started,
            final(self).script == old(self).script,
            final(self).log == old(self).log,
    {
        let ghost c0 = self.epoch_consumed@;
        let ghost l = line@;
        let ghost sv = self.served@;
        self.epoch_consumed = Ghost(c0 + l);
        self.served = Ghost(sv.push(l));
        assert(sv.push(l).drop_last() =~= sv);
        if keep {
            self.kept_epoch = Ghost(self.kept_epoch@.push(self.epoch@));
            self.kept_at = Ghost(self.kept_at@.push(c0.len() as int));
            self.lines.push(line);
            assert(self.kept_lines() =~= old(self).kept_lines().push(l));
        } else {
            assert(self.kept_lines() =~= old(self).kept_lines());
        }
        assert forall|i: int|
            0 <= i < self.lines@.len() && #[trigger] self.kept_epoch@[i] == self.epoch@ implies {
                let k = self.kept_at@[i];
                let m = self.lines@[i]@;
                &&& 0 <= k
                &&& k + m.len() <= self.epoch_consumed@.len()
                &&& self.epoch_consumed@.subrange(k, k + m.len()) == m
            } by {
            if i < old(self).lines@.len() {
                let k = self.kept_at@[i];
                let m = self.lines@[i]@;
                assert(self.lines@[i] == old(self).lines@[i]);
                assert((c0 + l).subrange(k, k + m.len()) =~= c0.subrange(k, k + m.len()));
            } else {
                assert((c0 + l).subrange(c0.len() as int, (c0.len() + l.len()) as int) =~= l);
            }
        }
        assert(self.kept_lines().subrange(0, old(self).kept_lines().len() as int)
            =~= old(self).kept_lines());
        assert(self.kept_epoch().subrange(0, old(self).kept_lines().len() as int)
            =~= old(self).kept_epoch());
    }

    /// Records that the last effect begun finished handing out nothing.
    fn finish_quiet(&mut self)
        requires
            old(self).served@.len() + 1 == old(self).log@.len(),
            !(old(self).log@.last() is ReadLine),
            old(self).kept_lines() == kept_of(old(self).log@, old(self).served@),
        ensures
            final(self).served@ == old(self).served@.push(Seq::<u8>::empty()),
            final(self).kept_lines() == kept_of(final(self).log@, final(self).served@),
            final(self).reader == old(self).reader,
            final(self).epoch == old(self).epoch,
            final(self).epoch_input == old(self).epoch_input,
            final(self).epoch_consumed == old(self).epoch_consumed,
            final(self).kept_epoch == old(self).kept_epoch,
            final(self).kept_at == old(self).kept_at,
            final(self).pending == old(self).pending,
            final(self).awaiting == old(self).awaiting,
            final(self).mode == old(self).mode,
            final(self).outbox == old(self).outbox,
            final(self).lines == old(self).lines,
            final(self).halted == old(self).halted,
            final(self).started == old(self).started,
            final(self).script == old(self).script,
            final(self).log == old(self).log,
    {
        let ghost sv = self.served@;
        self.served = Ghost(sv.push(Seq::empty()));
        assert(sv.push(Seq::<u8>::empty()).drop_last() =~= sv);
    }

    /// Drops the buffer of the live channel and starts counting a new channel's input.
    fn new_epoch(&mut self)
        requires
            old(self).kept_wf(),
        ensures
            final(self).kept_wf(),
            final(self).kept_extends(old(self)),
            final(self).kept_epoch == old(self).kept_epoch,
            final(self).kept_at == old(self).kept_at,
            final(self).reader@ == Seq::<u8>::empty(),
            final(self).epoch@ == old(self).epoch@ + 1,
            final(self).epoch_input@ == Seq::<u8>::empty(),
            final(self).epoch_consumed@ == Seq::<u8>::empty(),
            final(self).pending == old(self).pending,
            final(self).awaiting == old(self).awaiting,
            final(self).mode == old(self).mode,
            final(self).outbox == old(self).outbox,
            final(self).lines == old(self).lines,
            final(self).halted == old(self).halted,
            final(self).started == old(self).started,
            final(self).script == old(self).script,
            final(self).log == old(self).log,
            final(self).served == old(self).served,
    {
        proof {
            lemma_kept_extends_refl(old(self));
        }
        self.reader.clear();
        self.epoch = Ghost(self.epoch@ + 1);
        self.epoch_input = Ghost(Seq::empty());
        self.epoch_consumed = Ghost(Seq::empty());
    }
}


impl Executor {
    /// Begins `effect`, the last one logged: performs it at once when it needs
    /// no I/O, else returns the request for it.
    fn begin(&mut self, effect: StreamEffect) -> (r: Option<Action>)
        requires
            old(self).core_wf(),
            old(self).served@.len() + 1 == old(self).log@.len(),
            old(self).awaiting == Awaiting::Nothing,
            old(self).halted is None,
            old(self).log@.len() > 0,
            old(self).log@.last() == effect@,
        ensures
            final(self).wf(),
            final(self).script() == old(self).script(),
            final(self).log() == old(self).log(),
            final(self).pending() == old(self).pending(),
            final(self).kept_extends(old(self)),
            old(self).epoch() <= final(self).epoch(),
            final(self).mode == old(self).mode,
            r matches Some(Action::Send(b)) ==> b@ == wire_bytes(effect@),
            r is None ==> final(self).awaiting == Awaiting::Nothing && final(self).halted is None,
            r is None ==> final(self).served@ == old(self).served@.push(final(self).served@.last())
                && old(self).reader@ == final(self).served@.last() + final(self).reader@
                && final(self).epoch == old(self).epoch && finish_fits(
                effect@,
                final(self).served@.last(),
                false,
                final(self).mode,
                Awaiting::Nothing,
            ),
            r is Some ==> final(self).served == old(self).served && (final(self).epoch
                == old(self).epoch ==> final(self).reader@ == old(self).reader@),
            r is Some ==> final(self).asks(&r->0) && !(r->0 is Done),
            r matches Some(Action::Halt(err)) ==> err.kind == ErrorKind::ProtocolState
                && !fits_mode(
                effect@,
                final(self).spec_mode(),
            ),
            final(self).epoch() == old(self).epoch() ==> final(self).epoch_input()
                == old(self).epoch_input(),
            final(self).epoch() != old(self).epoch() ==> final(self).epoch() > old(self).epoch()
                && final(self).epoch_input() == Seq::<u8>::empty(),
    {
        proof {
            lemma_kept_extends_refl(self);
        }
        match effect {
            StreamEffect::Connect(host, port) => {
                if self.mode != Mode::Closed {
                    return Some(self.halt(ErrorKind::ProtocolState));
                }
                self.new_epoch();
                self.awaiting = Awaiting::Open;
                Some(Action::Open(host, port))
            },
            StreamEffect::Upgrade(host) => {
                if self.mode != Mode::Plain {
                    return Some(self.halt(ErrorKind::ProtocolState));
                }
                // Read-ahead of the plaintext reader is dropped here, never replayed.
                self.new_epoch();
                self.awaiting = Awaiting::Upgrade;
                Some(Action::Upgrade(host))
            },
            StreamEffect::DiscardLine => {
                if self.mode == Mode::Closed {
                    return Some(self.halt(ErrorKind::ProtocolState));
                }
                match self.reader.take_line() {
                    Some(line) => {
                        self.record_line(line, false);
                        assert(self.epoch_consumed@ + self.reader@ =~= self.epoch_input@);
                        None
                    },
                    None => {
                        self.awaiting = Awaiting::Line(false);
                        Some(Action::Receive)
                    },
                }
            },
            StreamEffect::ReadLine => {
                if self.mode == Mode::Closed {
                    return Some(self.halt(ErrorKind::ProtocolState));
                }
                match self.reader.take_line() {
                    Some(line) => {
                        self.record_line(line, true);
                        assert(self.epoch_consumed@ + self.reader@ =~= self.epoch_input@);
                        None
                    },
                    None => {
                        self.awaiting = Awaiting::Line(true);
                        Some(Action::Receive)
                    },
                }
            },
            StreamEffect::WriteLine(text) => {
                if self.mode == Mode::Closed {
                    return Some(self.halt(ErrorKind::ProtocolState));
                }
                let bytes = slice_to_vec(text.as_str().as_bytes());
                if bytes.len() == 0 {
                    self.finish_quiet();
                    assert(self.reader@ =~= Seq::<u8>::empty() + self.reader@);
                    return None;
                }
                let copy = slice_to_vec(text.as_str().as_bytes());
                proof {
                    let w = wire_bytes(self.log@.last());
                    assert(w == bytes@);
                    assert(w.subrange(w.len() - bytes@.len(), w.len() as int) =~= bytes@);
                }
                self.outbox = bytes;
                self.awaiting = Awaiting::Send;
                Some(Action::Send(copy))
            },
            StreamEffect::Disconnect => {
                if self.mode == Mode::Closed {
                    self.finish_quiet();
                    assert(self.reader@ =~= Seq::<u8>::empty() + self.reader@);
                    None
                } else {
                    self.awaiting = Awaiting::Close;
                    Some(Action::Close)
                }
            },
        }
    }
}


impl Executor {
    /// Takes the outcome of the request waited on; returns `None` once the
    /// effect in progress is complete, else the next request for it.
    fn apply(&mut self, event: Event) -> (r: Option<Action>)
        requires
            old(self).wf(),
            old(self).halted is None,
        ensures
            final(self).wf(),
            final(self).script() == old(self).script(),
            final(self).log() == old(self).log(),
            final(self).pending() == old(self).pending(),
            final(self).kept_extends(old(self)),
            final(self).mode == next_mode(old(self).awaiting, old(self).mode, event),
            old(self).epoch() <= final(self).epoch(),
            r is None ==> final(self).awaiting == Awaiting::Nothing && final(self).halted is None,
            r is None && old(self).awaiting == Awaiting::Nothing ==> event == Event::Start
                && final(self).served == old(self).served && final(self).reader == old(self).reader && final(self).epoch
                == old(self).epoch,
            r is None && old(self).awaiting != Awaiting::Nothing ==> final(self).served@ == old(self).served@.push(final(self).served@.last()) && finish_fits(
                old(self).log@.last(),
                final(self).served@.last(),
                event is Received && event->Received_0@.len() == 0,
                final(self).mode,
                old(self).awaiting,
            ) && (final(self).epoch == old(self).epoch ==> old(self).reader@ + delivered(
                old(self).awaiting,
                event,
            ) == final(self).served@.last() + final(self).reader@) && (final(self).epoch
                != old(self).epoch ==> final(self).served@.last().len() == 0
                && final(self).reader@.len() == 0),
            r is Some ==> final(self).served == old(self).served && (final(self).epoch
                == old(self).epoch ==> final(self).reader@ == old(self).reader@ + delivered(
                old(self).awaiting,
                event,
            )),
            r is Some ==> final(self).asks(&r->0) && !(r->0 is Done),
            old(self).awaiting != Awaiting::Nothing && event is Failed ==> r == Some(
                Action::Halt(
                    ExecError {
                        effect_index: old(self).current_index() as usize,
                        kind: failure_kind(old(self).awaiting),
                    },
                ),
            ),
            final(self).epoch() == old(self).epoch() ==> final(self).epoch_input()
                == old(self).epoch_input() + delivered(old(self).awaiting, event),
            final(self).epoch() != old(self).epoch() ==> final(self).epoch() > old(self).epoch()
                && final(self).epoch_input() == Seq::<u8>::empty(),
            r matches Some(Action::Halt(err)) ==> (event is Failed && err.kind == failure_kind(
                old(self).awaiting,
            )) || (event == Event::Sent(0) && err.kind == ErrorKind::Io) || (err.kind
                == ErrorKind::ProtocolState && !answers(
                old(self).awaiting,
                old(self).outbox@.len(),
                event,
            )),
            event matches Event::Sent(n) ==> (old(self).awaiting == Awaiting::Send && n
                == old(self).outbox@.len() ==> r is None),
            event matches Event::Sent(n) ==> (old(self).awaiting == Awaiting::Send && 0 < n
                < old(self).outbox@.len() ==> r is Some && r->0 is Send && r->0->Send_0@
                == old(self).outbox@.subrange(n as int, old(self).outbox@.len() as int)),
    {
        proof {
            lemma_kept_extends_refl(self);
        }
        let awaiting = self.awaiting;
        match (awaiting, event) {
            (Awaiting::Nothing, Event::Start) => None,
            (Awaiting::Nothing, _) => Some(self.halt(ErrorKind::ProtocolState)),
            (Awaiting::Open, Event::Failed) => Some(self.halt(ErrorKind::Connect)),
            (Awaiting::Upgrade, Event::Failed) => Some(self.halt(ErrorKind::Upgrade)),
            (_, Event::Failed) => Some(self.halt(ErrorKind::Io)),
            (Awaiting::Open, Event::Opened) => {
                self.mode = Mode::Plain;
                self.awaiting = Awaiting::Nothing;
                self.finish_quiet();
                assert(self.reader@ =~= Seq::<u8>::empty() + self.reader@);
                None
            },
            (Awaiting::Upgrade, Event::Upgraded) => {
                self.mode = Mode::Encrypted;
                self.awaiting = Awaiting::Nothing;
                self.finish_quiet();
                assert(self.reader@ =~= Seq::<u8>::empty() + self.reader@);
                None
            },
            (Awaiting::Send, Event::Sent(n)) => {
                if n == 0 {
                    return Some(self.halt(ErrorKind::Io));
                }
                if n > self.outbox.len() {
                    return Some(self.halt(ErrorKind::ProtocolState));
                }
                let ghost o = self.outbox@;
                let rest = self.outbox.split_off(n);
                self.outbox = rest;
                proof {
                    let w = wire_bytes(self.log@.last());
                    assert(w.subrange(w.len() - rest@.len(), w.len() as int) =~= o.subrange(
                        n as int,
                        o.len() as int,
                    ));
                }
                if self.outbox.len() == 0 {
                    self.awaiting = Awaiting::Nothing;
                    self.finish_quiet();
                    assert(self.reader@ =~= Seq::<u8>::empty() + self.reader@);
                    None
                } else {
                    let copy = slice_to_vec(self.outbox.as_slice());
                    Some(Action::Send(copy))
                }
            },
            (Awaiting::Line(keep), Event::Received(bytes)) => {
                if bytes.len() == 0 {
                    // End of stream: what is buffered is the last, unterminated line.
                    let line = self.reader.take_rest();
                    self.record_line(line, keep);
                    self.awaiting = Awaiting::Nothing;
                    assert(bytes@ =~= Seq::<u8>::empty());
                    assert(self.epoch_input@ =~= old(self).epoch_input@ + bytes@);
                    return None;
                }
                self.reader.fill(&bytes);
                self.epoch_input = Ghost(self.epoch_input@ + bytes@);
                assert(self.epoch_consumed@ + self.reader@ =~= self.epoch_input@);
                match self.reader.take_line() {
                    Some(line) => {
                        proof {
                            let all = old(self).reader@ + bytes@;
                            assert(line@.is_prefix_of(all)) by {
                                assert(all.subrange(0, line@.len() as int) =~= line@);
                            }
                            assert(all[line@.len() - 1] == LF);
                        }
                        self.record_line(line, keep);
                        assert(self.epoch_consumed@ + self.reader@ =~= self.epoch_input@);
                        self.awaiting = Awaiting::Nothing;
                        None
                    },
                    None => Some(Action::Receive),
                }
            },
            (Awaiting::Close, Event::Closed) => {
                self.mode = Mode::Closed;
                self.awaiting = Awaiting::Nothing;
                self.finish_quiet();
                self.new_epoch();
                None
            },
            (_, _) => Some(self.halt(ErrorKind::ProtocolState)),
        }
    }

    /// Takes the outcome of the last request and returns the next one.
    ///
    /// Effects run strictly in script order, one at a time. A failed request
    /// halts the script on the effect that made it: no later effect begins,
    /// and every later call returns the same `Halt`.
    pub fn advance(&mut self, event: Event) -> (r: Action)
        requires
            old(self).wf(),
        ensures
            final(self).wf(),
            final(self).script() == old(self).script(),
            // effects begin in script order
            old(self).log().len() <= final(self).log().len(),
            final(self).log().len() <= final(self).script().len(),
            final(self).log() == final(self).script().subrange(0, final(self).log().len() as int),
            final(self).spec_mode() == next_mode(
                old(self).spec_awaiting(),
                old(self).spec_mode(),
                event,
            ),
            final(self).asks(&r),
            // each effect finished in this call finished as it should, and handed
            // out the front of what was buffered and delivered
            old(self).served().len() <= final(self).served().len(),
            final(self).served().len() <= final(self).log().len() <= final(self).served().len() + 1,
            final(self).served().subrange(0, old(self).served().len() as int) == old(self).served(),
            forall|i: int|
                old(self).served().len() <= i < final(self).served().len() ==> finish_fits(
                    #[trigger] final(self).log()[i],
                    final(self).served()[i],
                    i == old(self).served().len() && event is Received && event->Received_0@.len()
                        == 0,
                    final(self).spec_mode(),
                    if i == old(self).served().len() {
                        old(self).spec_awaiting()
                    } else {
                        Awaiting::Nothing
                    },
                ),
            concat(
                final(self).served().subrange(
                    old(self).served().len() as int,
                    final(self).served().len() as int,
                ),
            ).is_prefix_of(old(self).buffered() + delivered(old(self).spec_awaiting(), event)),
            final(self).epoch() == old(self).epoch() ==> concat(
                final(self).served().subrange(
                    old(self).served().len() as int,
                    final(self).served().len() as int,
                ),
            ) + final(self).buffered() == old(self).buffered() + delivered(
                old(self).spec_awaiting(),
                event,
            ),
            final(self).kept_lines() == kept_of(final(self).log(), final(self).served()),
            // a halted script stays halted
            old(self).spec_halted() is Some ==> r == Action::Halt(old(self).spec_halted()->0)
                && final(self).log() == old(self).log(),
            // a failed request halts on the effect that made it
            old(self).spec_halted() is None && old(self).spec_awaiting() != Awaiting::Nothing
                && event is Failed ==> final(self).log() == old(self).log() && final(self).served()
                == old(self).served() && r == Action::Halt(
                ExecError {
                    effect_index: old(self).current_index() as usize,
                    kind: failure_kind(old(self).spec_awaiting()),
                },
            ),
            // and nothing else halts but a zero-byte write or a broken protocol order
            r matches Action::Halt(err) ==> old(self).spec_halted() is None ==> {
                ||| event is Failed && err.kind == failure_kind(old(self).spec_awaiting())
                ||| event == Event::Sent(0) && err.kind == ErrorKind::Io
                ||| err.kind == ErrorKind::ProtocolState && !answers(
                    old(self).spec_awaiting(),
                    old(self).outbox().len(),
                    event,
                )
                ||| err.kind == ErrorKind::ProtocolState
                    && old(self).log().len() < final(self).log().len()
                    && !fits_mode(final(self).log().last(), final(self).spec_mode())
            },
            // a new line is written whole; a partial write resumes where it stopped
            r matches Action::Send(b) ==> old(self).log().len() < final(self).log().len() ==> b@
                == wire_bytes(final(self).log().last()),
            event matches Event::Sent(n) ==> (old(self).spec_halted() is None
                && old(self).spec_awaiting() == Awaiting::Send && n == old(self).outbox().len()
                ==> final(self).served().len() > old(self).served().len()),
            event matches Event::Sent(n) ==> (old(self).spec_halted() is None
                && old(self).spec_awaiting() == Awaiting::Send && 0 < n < old(self).outbox().len()
                ==> r is Send && final(self).log() == old(self).log() && final(self).outbox()
                == old(self).outbox().subrange(n as int, old(self).outbox().len() as int)),
            // the live channel's input grows only by what it delivered; a new channel starts empty
            final(self).kept_extends(old(self)),
            old(self).epoch() <= final(self).epoch(),
            final(self).epoch() == old(self).epoch() ==> final(self).epoch_input()
                == old(self).epoch_input() + delivered(old(self).spec_awaiting(), event),
            final(self).epoch() != old(self).epoch()
                ==> final(self).epoch_input() == Seq::<u8>::empty(),
    {
        if let Some(err) = self.halted {
            proof {
                lemma_kept_extends_refl(self);
            }
            assert(self.epoch_input@ =~= old(self).epoch_input@ + delivered(
                old(self).awaiting,
                event,
            ));
            return Action::Halt(err);
        }
        let ghost a0 = self.awaiting;
        let ghost ev = event;
        if let Some(a) = self.apply(event) {
            return a;
        }
        let ghost n0 = old(self).served@.len() as int;
        let ghost whole = old(self).reader@ + delivered(a0, ev);
        proof {
            if a0 == Awaiting::Nothing {
                assert(self.served@.subrange(n0, self.served@.len() as int) =~= Seq::<
                    Seq<u8>,
                >::empty());
                assert(whole =~= Seq::<u8>::empty() + self.reader@);
            } else {
                let x = self.served@.last();
                assert(self.served@.subrange(n0, self.served@.len() as int) =~= Seq::<
                    Seq<u8>,
                >::empty().push(x));
                lemma_concat_push(Seq::empty(), x);
                assert(Seq::<u8>::empty() + x =~= x);
                if self.epoch@ == old(self).epoch@ {
                    assert(whole.subrange(0, x.len() as int) =~= x);
                } else {
                    assert(x =~= Seq::<u8>::empty());
                }
            }
            assert(self.served@.subrange(0, n0) =~= old(self).served@);
        }
        loop
            invariant
                self.wf(),
                self.awaiting == Awaiting::Nothing,
                self.halted is None,
                old(self).halted is None,
                a0 == old(self).awaiting,
                ev == event,
                a0 == Awaiting::Nothing ==> ev == Event::Start,
                a0 != Awaiting::Nothing ==> self.served@.len() > n0,
                n0 == old(self).served@.len(),
                whole == old(self).reader@ + delivered(a0, ev),
                !(a0 != Awaiting::Nothing && ev is Failed),
                !(a0 == Awaiting::Send && ev is Sent && 0 < ev->Sent_0 < old(self).outbox@.len()),
                self.script@ == old(self).script@,
                old(self).log@.len() <= self.log@.len(),
                self.mode == next_mode(a0, old(self).mode, ev),
                n0 <= self.served@.len(),
                self.served@.subrange(0, n0) == old(self).served@,
                forall|i: int|
                    n0 <= i < self.served@.len() ==> finish_fits(
                        #[trigger] self.log@[i],
                        self.served@[i],
                        i == n0 && ev is Received && ev->Received_0@.len() == 0,
                        self.mode,
                        if i == n0 {
                            a0
                        } else {
                            Awaiting::Nothing
                        },
                    ),
                concat(self.served@.subrange(n0, self.served@.len() as int)).is_prefix_of(whole),
                self.epoch@ == old(self).epoch@ ==> concat(
                    self.served@.subrange(n0, self.served@.len() as int),
                ) + self.reader@ == whole,
                self.epoch@ != old(self).epoch@ ==> self.reader@.len() == 0,
                self.kept_extends(old(self)),
                old(self).epoch@ <= self.epoch@,
                self.epoch@ == old(self).epoch@ ==> self.epoch_input@ == old(self).epoch_input@
                    + delivered(a0, ev),
                self.epoch@ != old(self).epoch@ ==> self.epoch@ > old(self).epoch@
                    && self.epoch_input@ == Seq::<u8>::empty(),
            decreases self.pending@.len(),
        {
            match self.pending.next() {
                None => {
                    assert(self.log@ =~= self.script@);
                    return Action::Done;
                },
                Some(effect) => {
                    proof {
                        lemma_kept_of_log_push(self.log@, effect@, self.served@);
                    }
                    self.log = Ghost(self.log@.push(effect@));
                    self.started = self.started + 1;
                    assert(self.log@ + self.pending@ =~= self.script@);
                    let ghost mid = *self;
                    let r = self.begin(effect);
                    proof {
                        lemma_kept_extends_trans(old(self), &mid, self);
                        let len = mid.served@.len() as int;
                        let before = mid.served@.subrange(n0, len);
                        if r is None {
                            let x = self.served@.last();
                            assert(self.served@.subrange(n0, len + 1) =~= before.push(x));
                            lemma_concat_push(before, x);
                            assert(self.served@.subrange(0, n0) =~= mid.served@.subrange(0, n0));
                            if self.epoch@ == old(self).epoch@ {
                                assert(concat(before) + x + self.reader@ =~= concat(before) + (x
                                    + self.reader@));
                                assert(whole.subrange(0, (concat(before).len() + x.len()) as int)
                                    =~= concat(before) + x);
                            } else {
                                assert(x =~= Seq::<u8>::empty());
                                assert(concat(before) + x =~= concat(before));
                            }
                        }
                    }
                    if let Some(a) = r {
                        return a;
                    }
                },
            }
        }
    }
}


impl Executor {
    /// Which channel is live.
    pub fn mode(&self) -> (r: Mode)
        ensures
            r == self.spec_mode(),
    {
        self.mode
    }

    /// The request the executor waits on.
    pub fn awaiting(&self) -> (r: Awaiting)
        ensures
            r == self.spec_awaiting(),
    {
        self.awaiting
    }

    /// The error that halted the script, if it was halted.
    pub fn error(&self) -> (r: Option<ExecError>)
        ensures
            r == self.spec_halted(),
    {
        self.halted
    }

    /// The number of effects begun so far.
    pub fn begun(&self) -> (r: usize)
        requires
            self.wf(),
        ensures
            r == self.log().len(),
    {
        self.started
    }

    /// The lines kept by `ReadLine` effects, in order.
    pub fn lines(&self) -> (r: &Vec<Vec<u8>>)
        ensures
            r@.map_values(|l: Vec<u8>| l@) == self.kept_lines(),
    {
        &self.lines
    }
}

proof fn lemma_kept_of_log_push(log: Seq<StreamEffectView>, e: StreamEffectView, served: Seq<Seq<u8>>)
    requires
        served.len() <= log.len(),
    ensures
        kept_of(log.push(e), served) == kept_of(log, served),
    decreases served.len(),
{
    if served.len() > 0 {
        lemma_kept_of_log_push(log, e, served.drop_last());
    }
}

proof fn lemma_concat_push(lines: Seq<Seq<u8>>, l: Seq<u8>)
    ensures
        concat(lines.push(l)) == concat(lines) + l,
{
    assert(lines.push(l).drop_last() =~= lines);
}

proof fn lemma_kept_extends_refl(e: &Executor)
    requires
        e.kept_wf(),
    ensures
        e.kept_extends(e),
{
    assert(e.kept_lines().subrange(0, e.kept_lines().len() as int) =~= e.kept_lines());
    assert(e.kept_epoch().subrange(0, e.kept_lines().len() as int) =~= e.kept_epoch());
}

proof fn lemma_kept_extends_trans(a: &Executor, b: &Executor, c: &Executor)
    requires
        b.kept_extends(a),
        c.kept_extends(b),
        a.epoch() <= b.epoch(),
    ensures
        c.kept_extends(a),
{
    let n = a.kept_lines().len() as int;
    let m = b.kept_lines().len() as int;
    assert(c.kept_lines().subrange(0, n) =~= c.kept_lines().subrange(0, m).subrange(0, n));
    assert(c.kept_epoch().subrange(0, n) =~= c.kept_epoch().subrange(0, m).subrange(0, n));
    assert forall|i: int| n <= i < c.kept_epoch().len() implies a.epoch()
        <= #[trigger] c.kept_epoch()[i] by {
        if i < m {
            assert(c.kept_epoch()[i] == c.kept_epoch().subrange(0, m)[i]);
            assert(b.kept_epoch()[i] >= a.epoch());
        }
    }
}

/// Effects are begun in exactly the order in which the script lists them:
/// what has begun is a prefix of the script and the rest is still pending.
pub proof fn lemma_script_order(e: &Executor)
    requires
        e.wf(),
    ensures
        e.log().len() <= e.script().len(),
        e.log() == e.script().subrange(0, e.log().len() as int),
        e.pending() == e.script().subrange(e.log().len() as int, e.script().len() as int),
{
    assert(e.log() =~= e.script().subrange(0, e.log().len() as int));
    assert(e.pending() =~= e.script().subrange(e.log().len() as int, e.script().len() as int));
}

/// The upgrade starts from nothing: while it is requested the reader holds no
/// byte and no input of the new channel has been counted, so everything the
/// reader hands out afterwards arrived after the upgrade.
pub proof fn lemma_upgrade_boundary(e: &Executor)
    requires
        e.wf(),
        e.spec_awaiting() == Awaiting::Upgrade,
    ensures
        e.buffered() == Seq::<u8>::empty(),
        e.epoch_input() == Seq::<u8>::empty(),
        e.epoch_consumed() == Seq::<u8>::empty(),
{
    assert(e.buffered() =~= Seq::<u8>::empty());
    assert(e.epoch_input() =~= Seq::<u8>::empty());
    assert(e.epoch_consumed() =~= Seq::<u8>::empty());
}

/// Every byte handed out as a line, and every byte still buffered, came from
/// the live channel, in the order it arrived.
pub proof fn lemma_reads_from_live_channel(e: &Executor)
    requires
        e.wf(),
    ensures
        e.epoch_consumed() + e.buffered() == e.epoch_input(),
        e.spec_mode() == Mode::Closed ==> e.buffered().len() == 0,
{
}

/// A line kept from the live channel is made of bytes that this channel
/// delivered. Each open and each upgrade starts a new channel whose input is
/// empty, so no byte read in plaintext is ever part of a line kept after the
/// upgrade.
pub proof fn lemma_kept_line_from_live_channel(e: &Executor, i: int)
    requires
        e.wf(),
        0 <= i < e.kept_lines().len(),
        e.kept_epoch()[i] == e.epoch(),
    ensures
        exists|k: int|
            0 <= k && k + e.kept_lines()[i].len() <= e.epoch_input().len()
                && #[trigger] e.epoch_input().subrange(k, k + e.kept_lines()[i].len())
                == e.kept_lines()[i],
{
    let k = e.kept_at@[i];
    let l = e.lines@[i]@;
    assert(e.kept_lines()[i] == l);
    assert(e.epoch_input().subrange(k, k + l.len()) =~= e.epoch_consumed@.subrange(k, k + l.len()));
}

/// A halted script stopped on its last begun effect: the failing effect is
/// the last one begun, and nothing waits on a request.
pub proof fn lemma_failure_halts(e: &Executor)
    requires
        e.wf(),
        e.spec_halted() is Some,
    ensures
        e.spec_halted()->0.effect_index == e.current_index(),
        e.spec_awaiting() == Awaiting::Nothing,
{
}

} // verus!
