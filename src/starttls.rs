//! Ready-made STARTTLS negotiation scripts for IMAP and SMTP.
use crate::stream::{StreamEffectView, StreamState, crlf};
use vstd::prelude::*;
use vstd::string::StringExecFns;

verus! {

/// The IMAP negotiation: greeting, `A1 STARTTLS`, its answer, the upgrade,
/// then `A2 CAPABILITY` on the encrypted channel, one line read, and disconnect.
pub open spec fn imap_script(host: Seq<char>, port: u16) -> Seq<StreamEffectView> {
    seq![
        StreamEffectView::Connect(host, port),
        StreamEffectView::DiscardLine,
        StreamEffectView::WriteLine("A1 STARTTLS"@ + crlf()),
        StreamEffectView::DiscardLine,
        StreamEffectView::Upgrade(host),
        StreamEffectView::WriteLine("A2 CAPABILITY"@ + crlf()),
        StreamEffectView::ReadLine,
        StreamEffectView::Disconnect,
    ]
}

/// The SMTP negotiation: greeting, `HELO <name>`, `STARTTLS`, the upgrade,
/// then `NOOP` on the encrypted channel, and disconnect; each command's
/// answer line is read and dropped.
pub open spec fn smtp_script(host: Seq<char>, port: u16, helo: Seq<char>) -> Seq<
    StreamEffectView,
> {
    seq![
        StreamEffectView::Connect(host, port),
        StreamEffectView::DiscardLine,
        StreamEffectView::WriteLine("HELO "@ + helo + crlf()),
        StreamEffectView::DiscardLine,
        StreamEffectView::WriteLine("STARTTLS"@ + crlf()),
        StreamEffectView::DiscardLine,
        StreamEffectView::Upgrade(host),
        StreamEffectView::WriteLine("NOOP"@ + crlf()),
        StreamEffectView::DiscardLine,
        StreamEffectView::Disconnect,
    ]
}

/// Builds STARTTLS scripts for one server.
#[derive(Clone, Debug)]
pub struct StartTlsProvider {
    host: String,
    port: u16,
}

impl StartTlsProvider {
    pub closed spec fn spec_host(&self) -> Seq<char> {
        self.host@
    }

    pub closed spec fn spec_port(&self) -> u16 {
        self.port
    }

    /// A provider for the server at `host:port`.
    pub fn new(host: &str, port: u16) -> (r: Self)
        ensures
            r.spec_host() == host@,
            r.spec_port() == port,
    {
        StartTlsProvider { host: host.to_owned(), port }
    }

    /// The IMAP STARTTLS script for this server.
    pub fn imap(&self) -> (r: StreamState)
        ensures
            r@ == imap_script(self.spec_host(), self.spec_port()),
    {
        let mut state = StreamState::new();
        state.connect(self.host.as_str(), self.port);
        state.discard_line();
        state.write_line("A1 STARTTLS");
        state.discard_line();
        state.upgrade(self.host.as_str());
        state.write_line("A2 CAPABILITY");
        state.read_line();
        state.disconnect();
        assert(state@ =~= imap_script(self.spec_host(), self.spec_port()));
        state
    }

    /// The SMTP STARTTLS script for this server, greeting it as `helo`.
    pub fn smtp(&self, helo: &str) -> (r: StreamState)
        ensures
            r@ == smtp_script(self.spec_host(), self.spec_port(), helo@),
    {
        let mut state = StreamState::new();
        state.connect(self.host.as_str(), self.port);
        state.discard_line();
        let mut greeting = "HELO ".to_owned();
        greeting.append(helo);
        state.write_line(greeting.as_str());
        state.discard_line();
        state.write_line("STARTTLS");
        state.discard_line();
        state.upgrade(self.host.as_str());
        state.write_line("NOOP");
        state.discard_line();
        state.disconnect();
        assert(state@ =~= smtp_script(self.spec_host(), self.spec_port(), helo@));
        state
    }
}

} // verus!
