//! A connection lifecycle guard: a script builder that emits a connect or a
//! disconnect effect only when the connection is in the matching state.
use std::collections::VecDeque;
use vstd::prelude::*;

verus! {

/// One effect of a guarded socket script.
#[derive(Clone, Debug, PartialEq, Eq)]
pub enum SocketEffect {
    Connect(String, u16),
    Disconnect,
}

/// The mathematical value of a `SocketEffect`.
pub enum SocketEffectView {
    Connect(Seq<char>, u16),
    Disconnect,
}

impl View for SocketEffect {
    type V = SocketEffectView;

    open spec fn view(&self) -> SocketEffectView {
        match self {
            SocketEffect::Connect(h, p) => SocketEffectView::Connect(h@, *p),
            SocketEffect::Disconnect => SocketEffectView::Disconnect,
        }
    }
}

/// The two states of a logical connection.
#[derive(Clone, Copy, Debug, PartialEq, Eq, Structural)]
pub enum InternalState {
    Connected,
    Disconnected,
}

impl InternalState {
    /// A connect is allowed only from `Disconnected`.
    pub fn can_connect(&self) -> (r: bool)
        ensures
            r == (*self == InternalState::Disconnected),
    {
        *self == InternalState::Disconnected
    }

    /// A disconnect is allowed only from `Connected`.
    pub fn can_disconnect(&self) -> (r: bool)
        ensures
            r == (*self == InternalState::Connected),
    {
        *self == InternalState::Connected
    }

    /// Switches to `state`.
    pub fn set(&mut self, state: Self)
        ensures
            *final(self) == state,
    {
        if *self != state {
            *self = state;
        }
    }
}

/// The guard's state and the effects it emitted.
pub struct SocketStateView {
    pub connected: bool,
    pub effects: Seq<SocketEffectView>,
}

/// What `connect(host, port)` does: from the disconnected state it emits one
/// `Connect` and switches; otherwise it changes nothing.
pub open spec fn connect_step(
    before: SocketStateView,
    host: Seq<char>,
    port: u16,
    after: SocketStateView,
) -> bool {
    if !before.connected {
        after == (SocketStateView {
            connected: true,
            effects: before.effects.push(SocketEffectView::Connect(host, port)),
        })
    } else {
        after == before
    }
}

/// What `disconnect()` does: from the connected state it emits one
/// `Disconnect` and switches; otherwise it changes nothing.
pub open spec fn disconnect_step(before: SocketStateView, after: SocketStateView) -> bool {
    if before.connected {
        after == (SocketStateView {
            connected: false,
            effects: before.effects.push(SocketEffectView::Disconnect),
        })
    } else {
        after == before
    }
}

/// A guarded socket script.
#[derive(Clone, Debug)]
pub struct SocketState {
    state: InternalState,
    effects: VecDeque<SocketEffect>,
}

impl View for SocketState {
    type V = SocketStateView;

    closed spec fn view(&self) -> SocketStateView {
        SocketStateView {
            connected: self.state == InternalState::Connected,
            effects: self.effects@.map_values(|e: SocketEffect| e@),
        }
    }
}

impl SocketState {
    /// A disconnected guard that emitted nothing.
    pub fn new() -> (r: Self)
        ensures
            r@ == (SocketStateView { connected: false, effects: Seq::empty() }),
    {
        let r = SocketState { state: InternalState::Disconnected, effects: VecDeque::new() };
        assert(r@.effects =~= Seq::<SocketEffectView>::empty());
        r
    }

    /// Emits `Connect(host, port)` unless a connection is already live.
    pub fn connect(&mut self, host: &str, port: u16)
        ensures
            connect_step(old(self)@, host@, port, final(self)@),
    {
        if self.state.can_connect() {
            self.state.set(InternalState::Connected);
            let effect = SocketEffect::Connect(host.to_owned(), port);
            self.effects.push_back(effect);
            assert(self@.effects =~= old(self)@.effects.push(effect@));
        }
    }

    /// Emits `Disconnect` unless no connection is live.
    pub fn disconnect(&mut self)
        ensures
            disconnect_step(old(self)@, final(self)@),
    {
        if self.state.can_disconnect() {
            self.state.set(InternalState::Disconnected);
            self.effects.push_back(SocketEffect::Disconnect);
            assert(self@.effects =~= old(self)@.effects.push(SocketEffectView::Disconnect));
        }
    }

    /// Whether a connection is live.
    pub fn is_connected(&self) -> (r: bool)
        ensures
            r == self@.connected,
    {
        self.state == InternalState::Connected
    }

    /// Takes the first emitted effect, or `None` once all were taken.
    pub fn next(&mut self) -> (r: Option<SocketEffect>)
        ensures
            final(self)@.connected == old(self)@.connected,
            old(self)@.effects.len() == 0 ==> r is None && final(self)@ == old(self)@,
            old(self)@.effects.len() > 0 ==> r is Some && r->0@ == old(self)@.effects[0]
                && final(self)@.effects == old(self)@.effects.drop_first(),
    {
        let r = self.effects.pop_front();
        proof {
            if old(self)@.effects.len() > 0 {
                assert(self@.effects =~= old(self)@.effects.drop_first());
            }
        }
        r
    }
}

impl Default for SocketState {
    fn default() -> (r: Self)
        ensures
            r@ == (SocketStateView { connected: false, effects: Seq::empty() }),
    {
        SocketState::new()
    }
}

/// Disconnecting twice with no connect between emits at most one
/// `Disconnect`: the second call changes nothing.
pub proof fn lemma_disconnect_twice(a: SocketStateView, b: SocketStateView, c: SocketStateView)
    requires
        disconnect_step(a, b),
        disconnect_step(b, c),
    ensures
        c == b,
        c.effects.len() <= a.effects.len() + 1,
        !c.connected,
{
}

/// Connecting twice with no disconnect between emits at most one
/// `Connect`: the second call changes nothing.
pub proof fn lemma_connect_twice(
    a: SocketStateView,
    h1: Seq<char>,
    p1: u16,
    b: SocketStateView,
    h2: Seq<char>,
    p2: u16,
    c: SocketStateView,
)
    requires
        connect_step(a, h1, p1, b),
        connect_step(b, h2, p2, c),
    ensures
        c == b,
        c.effects.len() <= a.effects.len() + 1,
        c.connected,
{
}

} // verus!
