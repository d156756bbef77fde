//! The effect sequence of a STARTTLS-capable stream: an ordered, inert list of
//! network actions built without any I/O.
use std::collections::VecDeque;
use vstd::prelude::*;
use vstd::string::StringExecFns;

verus! {

/// The line terminator appended to every written line.
pub open spec fn crlf() -> Seq<char> {
    seq!['\r', '\n']
}

/// One network action of a stream script.
#[derive(Clone, Debug, PartialEq, Eq)]
pub enum StreamEffect {
    Connect(String, u16),
    Upgrade(String),
    DiscardLine,
    ReadLine,
    WriteLine(String),
    Disconnect,
}

/// The mathematical value of a `StreamEffect`: strings seen as sequences of characters.
pub enum StreamEffectView {
    Connect(Seq<char>, u16),
    Upgrade(Seq<char>),
    DiscardLine,
    ReadLine,
    WriteLine(Seq<char>),
    Disconnect,
}

impl View for StreamEffect {
    type V = StreamEffectView;

    open spec fn view(&self) -> StreamEffectView {
        match self {
            StreamEffect::Connect(h, p) => StreamEffectView::Connect(h@, *p),
            StreamEffect::Upgrade(h) => StreamEffectView::Upgrade(h@),
            StreamEffect::DiscardLine => StreamEffectView::DiscardLine,
            StreamEffect::ReadLine => StreamEffectView::ReadLine,
            StreamEffect::WriteLine(l) => StreamEffectView::WriteLine(l@),
            StreamEffect::Disconnect => StreamEffectView::Disconnect,
        }
    }
}

/// A script: the effects still to be performed, front first.
#[derive(Clone, Debug)]
pub struct StreamState {
    effects: VecDeque<StreamEffect>,
}

/// Builds `text` followed by the line terminator.
pub fn terminated_line(text: &str) -> (r: String)
    ensures
        r@ == text@ + crlf(),
{
    let mut line = text.to_owned();
    proof {
        reveal_strlit("\r\n");
    }
    line.append("\r\n");
    line
}

impl View for StreamState {
    type V = Seq<StreamEffectView>;

    closed spec fn view(&self) -> Seq<StreamEffectView> {
        self.effects@.map_values(|e: StreamEffect| e@)
    }
}

impl StreamState {
    /// An empty script.
    pub fn new() -> (r: Self)
        ensures
            r@ == Seq::<StreamEffectView>::empty(),
    {
        let r = StreamState { effects: VecDeque::new() };
        assert(r@ =~= Seq::<StreamEffectView>::empty());
        r
    }

    /// Appends `effect` as it is.
    pub fn push_effect(&mut self, effect: StreamEffect)
        ensures
            final(self)@ == old(self)@.push(effect@),
    {
        self.effects.push_back(effect);
        assert(final(self)@ =~= old(self)@.push(effect@));
    }

    /// Appends the opening of a plaintext channel to `host:port`.
    pub fn connect(&mut self, host: &str, port: u16)
        ensures
            final(self)@ == old(self)@.push(StreamEffectView::Connect(host@, port)),
    {
        self.push_effect(StreamEffect::Connect(host.to_owned(), port));
    }

    /// Appends the in-place upgrade of the live channel to an encrypted one for `host`.
    pub fn upgrade(&mut self, host: &str)
        ensures
            final(self)@ == old(self)@.push(StreamEffectView::Upgrade(host@)),
    {
        self.push_effect(StreamEffect::Upgrade(host.to_owned()));
    }

    /// Appends the reading and dropping of one line.
    pub fn discard_line(&mut self)
        ensures
            final(self)@ == old(self)@.push(StreamEffectView::DiscardLine),
    {
        self.push_effect(StreamEffect::DiscardLine);
    }

    /// Appends the reading of one line.
    pub fn read_line(&mut self)
        ensures
            final(self)@ == old(self)@.push(StreamEffectView::ReadLine),
    {
        self.push_effect(StreamEffect::ReadLine);
    }

    /// Appends the writing of `line` followed by the line terminator.
    pub fn write_line(&mut self, line: &str)
        ensures
            final(self)@ == old(self)@.push(StreamEffectView::WriteLine(line@ + crlf())),
    {
        let l = terminated_line(line);
        self.push_effect(StreamEffect::WriteLine(l));
    }

    /// Appends the flushing and closing of the live channel.
    pub fn disconnect(&mut self)
        ensures
            final(self)@ == old(self)@.push(StreamEffectView::Disconnect),
    {
        self.push_effect(StreamEffect::Disconnect);
    }

    /// The number of effects still to be performed.
    pub fn len(&self) -> (r: usize)
        ensures
            r == self@.len(),
    {
        self.effects.len()
    }

    /// Takes the first effect still to be performed, or `None` once the script is exhausted.
    pub fn next(&mut self) -> (r: Option<StreamEffect>)
        ensures
            next_step(old(self)@, opt_view(r), final(self)@),
    {
        let r = self.effects.pop_front();
        proof {
            if old(self)@.len() > 0 {
                assert(self@ =~= old(self)@.drop_first());
            }
        }
        r
    }
}

impl Default for StreamState {
    fn default() -> (r: Self)
        ensures
            r@ == Seq::<StreamEffectView>::empty(),
    {
        StreamState::new()
    }
}

/// A marker for running stream scripts over tokio and rustls. It has no
/// methods: the runner is `run_stream_script` in the application crate,
/// which performs the requests of [`crate::executor::Executor`].
pub struct TokioRustlsStreamIo;

/// The value of an effect that may be missing.
pub open spec fn opt_view(r: Option<StreamEffect>) -> Option<StreamEffectView> {
    match r {
        Some(e) => Some(e@),
        None => None,
    }
}

/// What taking the first effect does: an exhausted script yields nothing and
/// stays as it is; otherwise the first effect leaves the script.
pub open spec fn next_step(
    before: Seq<StreamEffectView>,
    got: Option<StreamEffectView>,
    after: Seq<StreamEffectView>,
) -> bool {
    if before.len() == 0 {
        got is None && after == before
    } else {
        got == Some(before[0]) && after == before.drop_first()
    }
}

/// Exhaustion is final: taking twice from an exhausted script yields
/// nothing either time and leaves it exhausted.
pub proof fn lemma_exhausted_stays_exhausted(
    a: Seq<StreamEffectView>,
    g1: Option<StreamEffectView>,
    b: Seq<StreamEffectView>,
    g2: Option<StreamEffectView>,
    c: Seq<StreamEffectView>,
)
    requires
        a.len() == 0,
        next_step(a, g1, b),
        next_step(b, g2, c),
    ensures
        g1 is None,
        g2 is None,
        c.len() == 0,
{
}

} // verus!
