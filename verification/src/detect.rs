//! Deciding, from the first bytes of an accepted connection, whether it is TLS
//! meant for the local workload, TLS meant for somebody else, or no TLS.
//!
//! The decisions are a state machine without I/O. Whoever holds the socket
//! performs the `Action` that the machine asks for and reports the `Event`
//! that came of it, until the action is one that ends the detection.

use crate::client_hello::{lemma_decided_prefix, parse_sni, sni_of, Sni};
use crate::name::{copy_bytes, lower, name_accepts, same_bytes, ClientId, LocalId, ServerId};
use vstd::prelude::*;

verus! {

/// How many bytes are peeked at first. A ClientHello sent by another proxy is
/// well below this.
pub const PEEK_CAPACITY: usize = 512;

/// How many bytes are read at most while waiting for a ClientHello to become
/// complete.
pub const BUFFER_CAPACITY: usize = 8192;

/// An application protocol that the TLS handshake settled on.
#[derive(Debug, PartialEq, Eq, Hash)]
pub struct NegotiatedProtocol(pub Vec<u8>);

impl Clone for NegotiatedProtocol {
    /// The same protocol once more.
    fn clone(&self) -> (copy: Self)
        ensures
            copy.0@ == self.0@,
    {
        NegotiatedProtocol(copy_bytes(self.0.as_slice()))
    }
}

/// How TLS was found on a connection that the server accepted.
#[derive(Debug, PartialEq, Eq, Hash)]
pub enum ServerTls {
    /// TLS was terminated here.
    Established { client_id: Option<ClientId>, negotiated_protocol: Option<NegotiatedProtocol> },
    /// The ClientHello names another server: the bytes are passed on untouched.
    Passthru { sni: ServerId },
}

/// Why a connection is served without TLS.
#[derive(Copy, Clone, Debug, PartialEq, Eq, Hash, Structural)]
pub enum NoServerTls {
    /// Identity is administratively disabled.
    Disabled,
    /// The connection comes over the loopback interface.
    Loopback,
    /// The port is excluded from TLS.
    PortSkipped,
    /// No ClientHello was detected.
    NoClientHello,
}

impl NoServerTls {
    /// The reason in one word, as it is reported.
    pub fn as_str(&self) -> (text: &'static str)
        ensures
            text@ == (match *self {
                NoServerTls::Disabled => "disabled"@,
                NoServerTls::Loopback => "loopback"@,
                NoServerTls::PortSkipped => "port_skipped"@,
                NoServerTls::NoClientHello => "no_tls_from_remote"@,
            }),
    {
        match self {
            NoServerTls::Disabled => "disabled",
            NoServerTls::Loopback => "loopback",
            NoServerTls::PortSkipped => "port_skipped",
            NoServerTls::NoClientHello => "no_tls_from_remote",
        }
    }
}

/// Whether TLS was found on an accepted connection, and how, or why not.
#[derive(Debug, PartialEq, Eq, Hash)]
pub enum ConditionalServerTls {
    Tls(ServerTls),
    NoTls(NoServerTls),
}

/// The detection ran out of time.
#[derive(Copy, Clone, Debug, PartialEq, Eq, Structural)]
pub struct DetectTimeout;

impl DetectTimeout {
    /// What the failure is called.
    pub fn as_str(&self) -> (text: &'static str)
        ensures
            text@ == "TLS detection timeout"@,
    {
        "TLS detection timeout"
    }
}

/// `ServerTls` over plain values.
pub enum ServerTlsView {
    Established { client_id: Option<Seq<u8>>, negotiated_protocol: Option<Seq<u8>> },
    Passthru { sni: Seq<u8> },
}

/// `ConditionalServerTls` over plain values.
pub enum ConditionalView {
    Tls(ServerTlsView),
    NoTls(NoServerTls),
}

impl View for ServerTls {
    type V = ServerTlsView;

    open spec fn view(&self) -> ServerTlsView {
        match *self {
            ServerTls::Established { client_id, negotiated_protocol } => ServerTlsView::Established {
                client_id: match client_id {
                    Some(id) => Some(id.0@),
                    None => None,
                },
                negotiated_protocol: match negotiated_protocol {
                    Some(p) => Some(p.0@),
                    None => None,
                },
            },
            ServerTls::Passthru { sni } => ServerTlsView::Passthru { sni: sni.0@ },
        }
    }
}

impl View for ConditionalServerTls {
    type V = ConditionalView;

    open spec fn view(&self) -> ConditionalView {
        match *self {
            ConditionalServerTls::Tls(tls) => ConditionalView::Tls(tls@),
            ConditionalServerTls::NoTls(why) => ConditionalView::NoTls(why),
        }
    }
}

impl Clone for ServerTls {
    /// The same finding once more.
    fn clone(&self) -> (copy: Self)
        ensures
            copy@ == self@,
    {
        match self {
            ServerTls::Established { client_id, negotiated_protocol } => {
                let client_id = match client_id {
                    Some(id) => Some(id.clone()),
                    None => None,
                };
                let negotiated_protocol = match negotiated_protocol {
                    Some(protocol) => Some(protocol.clone()),
                    None => None,
                };
                ServerTls::Established { client_id, negotiated_protocol }
            },
            ServerTls::Passthru { sni } => ServerTls::Passthru { sni: sni.clone() },
        }
    }
}

impl Clone for ConditionalServerTls {
    /// The same finding once more.
    fn clone(&self) -> (copy: Self)
        ensures
            copy@ == self@,
    {
        match self {
            ConditionalServerTls::Tls(tls) => ConditionalServerTls::Tls(tls.clone()),
            ConditionalServerTls::NoTls(why) => ConditionalServerTls::NoTls(*why),
        }
    }
}

/// What is known of a connection that is accepted while the local workload
/// has no identity: it is served without TLS, because identity is disabled,
/// and nothing is looked at.
pub fn without_identity() -> (tls: ConditionalServerTls)
    ensures
        tls@ == ConditionalView::NoTls(NoServerTls::Disabled),
{
    ConditionalServerTls::NoTls(NoServerTls::Disabled)
}

/// Where a detection stands.
#[derive(Copy, Clone, Debug, PartialEq, Eq, Structural)]
pub enum State {
    /// Nothing has been seen yet; a peek is awaited.
    Start,
    /// The peek did not hold a whole ClientHello; the first read is awaited.
    PeekedSmall,
    /// Bytes were read and kept, and they do not decide yet; more are awaited.
    BufferedRead,
    /// The ClientHello names the local workload: TLS is terminated here.
    Terminate,
    /// The ClientHello names another server.
    Passthrough,
    /// No ClientHello was found.
    Plain,
    /// The time ran out before anything was decided.
    Failed,
}

/// What happened on the socket, or to the clock.
#[derive(Debug)]
pub enum Event {
    /// A peek showed these bytes without taking them off the socket.
    Peeked(Vec<u8>),
    /// A read took these bytes off the socket; none means that the peer has
    /// finished sending.
    Read(Vec<u8>),
    /// The time allowed for detection is over.
    TimedOut,
}

/// What is to be done next.
#[derive(Debug)]
pub enum Action {
    /// Peek at up to `capacity` bytes and report them as `Event::Peeked`.
    Peek { capacity: usize },
    /// Read up to `capacity` bytes and report them as `Event::Read`.
    Read { capacity: usize },
    /// Run the TLS handshake on the stream that starts with `prefix` and goes
    /// on with what the socket still holds.
    Terminate { prefix: Vec<u8> },
    /// Hand the stream that starts with `prefix` and goes on with what the
    /// socket still holds to the inner service, described by `tls`.
    Forward { tls: ConditionalServerTls, prefix: Vec<u8> },
    /// Give the connection up.
    Fail(DetectTimeout),
    /// The detection has ended before; there is nothing to do.
    Done,
}

/// `Event` over plain values.
pub enum EventView {
    Peeked(Seq<u8>),
    Read(Seq<u8>),
    TimedOut,
}

/// `Action` over plain values.
pub enum ActionView {
    Peek { capacity: int },
    Read { capacity: int },
    Terminate { prefix: Seq<u8> },
    Forward { tls: ConditionalView, prefix: Seq<u8> },
    Fail,
    Done,
}

impl View for Event {
    type V = EventView;

    open spec fn view(&self) -> EventView {
        match *self {
            Event::Peeked(bytes) => EventView::Peeked(bytes@),
            Event::Read(bytes) => EventView::Read(bytes@),
            Event::TimedOut => EventView::TimedOut,
        }
    }
}

impl View for Action {
    type V = ActionView;

    open spec fn view(&self) -> ActionView {
        match *self {
            Action::Peek { capacity } => ActionView::Peek { capacity: capacity as int },
            Action::Read { capacity } => ActionView::Read { capacity: capacity as int },
            Action::Terminate { prefix } => ActionView::Terminate { prefix: prefix@ },
            Action::Forward { tls, prefix } => ActionView::Forward { tls: tls@, prefix: prefix@ },
            Action::Fail(_) => ActionView::Fail,
            Action::Done => ActionView::Done,
        }
    }
}

/// What the bytes seen so far say to the workload `local`.
pub enum Verdict {
    /// They do not decide yet.
    More,
    /// A ClientHello for the local workload.
    Terminate,
    /// A ClientHello for the server of this name.
    Passthru(Seq<u8>),
    /// No ClientHello that names a server.
    Plain,
}

/// The verdict on `input`: a ClientHello counts only if its server name is a
/// usable name, and it is the local workload's if that name, in lower case, is
/// `local`.
pub open spec fn verdict(local: Seq<u8>, input: Seq<u8>) -> Verdict {
    match sni_of(input) {
        Sni::Incomplete => Verdict::More,
        Sni::NoMatch => Verdict::Plain,
        Sni::HostName(h) => if !name_accepts(h) {
            Verdict::Plain
        } else if lower(h) == local {
            Verdict::Terminate
        } else {
            Verdict::Passthru(lower(h))
        },
    }
}

/// A detection over plain values: the local workload's name, the state, and
/// the bytes that were read off the socket and are still held.
pub struct DetectView {
    pub local: Seq<u8>,
    pub state: State,
    pub buffer: Seq<u8>,
}

/// Whether the detection has ended.
pub open spec fn is_final(state: State) -> bool {
    state is Terminate || state is Passthrough || state is Plain || state is Failed
}

/// A detection that has seen nothing.
pub open spec fn initial(local: Seq<u8>) -> DetectView {
    DetectView { local, state: State::Start, buffer: Seq::empty() }
}

/// How many bytes may still be read when `held` are held.
pub open spec fn room(held: Seq<u8>) -> int {
    if held.len() < BUFFER_CAPACITY {
        BUFFER_CAPACITY - held.len()
    } else {
        0
    }
}

/// The action that a detection is waiting to hear of.
pub open spec fn awaited(d: DetectView) -> ActionView {
    match d.state {
        State::Start => ActionView::Peek { capacity: PEEK_CAPACITY as int },
        State::PeekedSmall | State::BufferedRead => ActionView::Read { capacity: room(d.buffer) },
        _ => ActionView::Done,
    }
}

/// The end of a detection whose bytes have decided: the state, and the action
/// that hands on `held`, the bytes that were taken off the socket.
pub open spec fn conclude(d: DetectView, v: Verdict, held: Seq<u8>) -> (DetectView, ActionView) {
    match v {
        Verdict::Terminate => (
            DetectView { state: State::Terminate, buffer: Seq::empty(), ..d },
            ActionView::Terminate { prefix: held },
        ),
        Verdict::Passthru(sni) => (
            DetectView { state: State::Passthrough, buffer: Seq::empty(), ..d },
            ActionView::Forward {
                tls: ConditionalView::Tls(ServerTlsView::Passthru { sni }),
                prefix: held,
            },
        ),
        _ => (
            DetectView { state: State::Plain, buffer: Seq::empty(), ..d },
            ActionView::Forward {
                tls: ConditionalView::NoTls(NoServerTls::NoClientHello),
                prefix: held,
            },
        ),
    }
}

/// One step of the detection: the state after `event`, and what to do next.
///
/// - Once ended, a detection stays as it is.
/// - Time running out ends a detection that has not ended, with a failure.
/// - The first peek decides without taking anything off the socket, or leaves
///   the decision to the bytes that will be read. A later peek is answered
///   with the read that is awaited.
/// - Bytes that were read are kept. They decide together with those read
///   before; if they do not, and fewer than `BUFFER_CAPACITY` bytes are held,
///   more are asked for. With that many held, or when the peer has finished
///   sending, the connection is taken for plain text. Whatever ends the
///   detection hands on all the bytes that were read.
pub open spec fn next(d: DetectView, event: EventView) -> (DetectView, ActionView) {
    if is_final(d.state) {
        (d, ActionView::Done)
    } else {
        match event {
            EventView::TimedOut => (
                DetectView { state: State::Failed, buffer: Seq::empty(), ..d },
                ActionView::Fail,
            ),
            EventView::Peeked(bytes) => if d.state is Start {
                match verdict(d.local, bytes) {
                    Verdict::More => (
                        DetectView { state: State::PeekedSmall, ..d },
                        ActionView::Read { capacity: room(d.buffer) },
                    ),
                    v => conclude(d, v, d.buffer),
                }
            } else {
                (d, awaited(d))
            },
            EventView::Read(bytes) => if bytes.len() == 0 {
                conclude(d, Verdict::Plain, d.buffer)
            } else {
                let held = d.buffer + bytes;
                match verdict(d.local, held) {
                    Verdict::More => if held.len() >= BUFFER_CAPACITY {
                        conclude(d, Verdict::Plain, held)
                    } else {
                        (
                            DetectView { state: State::BufferedRead, buffer: held, ..d },
                            ActionView::Read { capacity: room(held) },
                        )
                    },
                    v => conclude(d, v, held),
                }
            },
        }
    }
}

/// What holds of a detection at every step: nothing is held before the first
/// read or after the end, and what is held while reading does not decide and
/// is short of `BUFFER_CAPACITY`.
pub open spec fn consistent(d: DetectView) -> bool {
    match d.state {
        State::BufferedRead => {
            &&& 0 < d.buffer.len() < BUFFER_CAPACITY
            &&& verdict(d.local, d.buffer) is More
        },
        _ => d.buffer.len() == 0,
    }
}

/// How a detection ended, apart from the bytes that it hands on.
pub enum Outcome {
    /// TLS is terminated here.
    Terminated,
    /// The connection is handed to the inner service with this description.
    Forwarded(ConditionalView),
}

/// The outcome that an action stands for, if it ends the detection with one.
pub open spec fn outcome(action: ActionView) -> Option<Outcome> {
    match action {
        ActionView::Terminate { prefix } => Some(Outcome::Terminated),
        ActionView::Forward { tls, prefix } => Some(Outcome::Forwarded(tls)),
        _ => None,
    }
}

/// The bytes that an action hands on, if it ends the detection with an
/// outcome.
pub open spec fn handed(action: ActionView) -> Option<Seq<u8>> {
    match action {
        ActionView::Terminate { prefix } => Some(prefix),
        ActionView::Forward { tls, prefix } => Some(prefix),
        _ => None,
    }
}

/// The outcome that a verdict leads to.
pub open spec fn outcome_of(v: Verdict) -> Option<Outcome> {
    match v {
        Verdict::More => None,
        Verdict::Terminate => Some(Outcome::Terminated),
        Verdict::Passthru(sni) => Some(
            Outcome::Forwarded(ConditionalView::Tls(ServerTlsView::Passthru { sni })),
        ),
        Verdict::Plain => Some(
            Outcome::Forwarded(ConditionalView::NoTls(NoServerTls::NoClientHello)),
        ),
    }
}

/// The bytes that an event took off the socket.
pub open spec fn taken(event: EventView) -> Seq<u8> {
    match event {
        EventView::Read(bytes) => bytes,
        _ => Seq::empty(),
    }
}

/// The detection after `events`, in their order, and its last action. Events
/// that come after the end are not looked at.
pub open spec fn run(d: DetectView, events: Seq<EventView>) -> (DetectView, ActionView)
    decreases events.len(),
{
    if events.len() == 0 {
        (d, awaited(d))
    } else {
        let (d1, a1) = next(d, events[0]);
        if is_final(d1.state) {
            (d1, a1)
        } else {
            run(d1, events.skip(1))
        }
    }
}

/// The bytes that `events` took off the socket up to the end of the detection.
pub open spec fn consumed(d: DetectView, events: Seq<EventView>) -> Seq<u8>
    decreases events.len(),
{
    if events.len() == 0 {
        Seq::empty()
    } else {
        let d1 = next(d, events[0]).0;
        if is_final(d1.state) {
            taken(events[0])
        } else {
            taken(events[0]) + consumed(d1, events.skip(1))
        }
    }
}

/// The chunks one after the other.
pub open spec fn joined(chunks: Seq<Seq<u8>>) -> Seq<u8>
    decreases chunks.len(),
{
    if chunks.len() == 0 {
        Seq::empty()
    } else {
        chunks[0] + joined(chunks.skip(1))
    }
}

/// One read for each chunk.
pub open spec fn reads(chunks: Seq<Seq<u8>>) -> Seq<EventView> {
    Seq::new(chunks.len(), |i: int| EventView::Read(chunks[i]))
}

/// A peek that shows `peeked`, followed by one read for each chunk.
pub open spec fn delivery(peeked: Seq<u8>, chunks: Seq<Seq<u8>>) -> Seq<EventView> {
    seq![EventView::Peeked(peeked)] + reads(chunks)
}

/// A detection that has not ended fails as soon as the time runs out,
/// wherever it stands.
pub proof fn lemma_timeout_fails(d: DetectView)
    requires
        !is_final(d.state),
    ensures
        next(d, EventView::TimedOut).0.state is Failed,
        next(d, EventView::TimedOut).1 is Fail,
{
}

/// A detection that has ended stays as it is, whatever happens.
pub proof fn lemma_final_is_final(d: DetectView, event: EventView)
    requires
        is_final(d.state),
    ensures
        next(d, event) == (d, ActionView::Done),
{
}

/// A new detection is consistent, and every step keeps it so.
pub proof fn lemma_steps_are_consistent(d: DetectView, event: EventView)
    ensures
        consistent(initial(d.local)),
        consistent(d) ==> consistent(next(d, event).0),
{
}

/// Nothing is lost and nothing comes twice: one step either ends the detection
/// and hands on what was held together with what the event took off the
/// socket, or goes on holding exactly that.
pub proof fn lemma_step_keeps_bytes(d: DetectView, event: EventView)
    requires
        !is_final(d.state),
        !(event is TimedOut),
    ensures
        ({
            let (d1, a1) = next(d, event);
            if is_final(d1.state) {
                handed(a1) == Some(d.buffer + taken(event))
            } else {
                d1.buffer == d.buffer + taken(event) && a1 == awaited(d1)
            }
        }),
{
    assert(d.buffer + Seq::<u8>::empty() =~= d.buffer);
}

/// Nothing is lost and nothing comes twice over a whole run: a detection that
/// ends with an outcome hands on, in their order, what it held and all that
/// was taken off the socket; one that has not ended holds exactly that.
pub proof fn lemma_run_keeps_bytes(d: DetectView, events: Seq<EventView>)
    requires
        !is_final(d.state),
    ensures
        ({
            let (d2, a2) = run(d, events);
            &&& handed(a2) is Some ==> handed(a2) == Some(d.buffer + consumed(d, events))
            &&& is_final(d2.state) && !(d2.state is Failed) ==> handed(a2) is Some
            &&& !is_final(d2.state) ==> d2.buffer == d.buffer + consumed(d, events) && a2
                == awaited(d2)
        }),
    decreases events.len(),
{
    if events.len() == 0 {
        assert(d.buffer + Seq::<u8>::empty() =~= d.buffer);
    } else {
        let (d1, a1) = next(d, events[0]);
        if events[0] is TimedOut {
        } else {
            lemma_step_keeps_bytes(d, events[0]);
            if !is_final(d1.state) {
                lemma_run_keeps_bytes(d1, events.skip(1));
                assert((d.buffer + taken(events[0])) + consumed(d1, events.skip(1)) =~= d.buffer
                    + (taken(events[0]) + consumed(d1, events.skip(1))));
            }
        }
    }
}

/// Two beginnings of one stream, of which the shorter decides, get the same
/// verdict.
pub proof fn lemma_verdict_of_prefix(local: Seq<u8>, short: Seq<u8>, long: Seq<u8>)
    requires
        short.is_prefix_of(long),
        !(verdict(local, short) is More),
    ensures
        verdict(local, long) == verdict(local, short),
{
    lemma_decided_prefix(short, long);
}

/// However the bytes of a stream arrive in reads, a detection that is reading
/// ends as the stream's beginning decides, once all of that beginning has
/// arrived.
///
/// `stream` is what the peer sends; its first `n` bytes decide, and `n` is at
/// most `BUFFER_CAPACITY`. The detection holds a beginning of the stream that
/// does not decide, and the chunks, none of them empty, continue it at least
/// up to `n`.
pub proof fn lemma_reads_decide_alike(
    d: DetectView,
    stream: Seq<u8>,
    n: int,
    chunks: Seq<Seq<u8>>,
)
    requires
        d.state is PeekedSmall || d.state is BufferedRead,
        verdict(d.local, d.buffer) is More,
        0 <= n <= stream.len(),
        n <= BUFFER_CAPACITY,
        !(verdict(d.local, stream.take(n)) is More),
        forall|i: int| 0 <= i < chunks.len() ==> (#[trigger] chunks[i]).len() > 0,
        (d.buffer + joined(chunks)).is_prefix_of(stream),
        d.buffer.len() + joined(chunks).len() >= n,
    ensures
        is_final(run(d, reads(chunks)).0.state),
        outcome(run(d, reads(chunks)).1) == outcome_of(verdict(d.local, stream.take(n))),
    decreases chunks.len(),
{
    let decisive = stream.take(n);
    assert(decisive.is_prefix_of(stream));
    if d.buffer.len() >= n {
        assert(decisive.is_prefix_of(d.buffer));
        lemma_verdict_of_prefix(d.local, decisive, d.buffer);
    }
    assert(chunks.len() > 0);
    let held = d.buffer + chunks[0];
    assert(held.is_prefix_of(d.buffer + joined(chunks))) by {
        assert(d.buffer + joined(chunks) =~= held + joined(chunks.skip(1)));
    }
    assert(held.is_prefix_of(stream));
    assert(reads(chunks)[0] == EventView::Read(chunks[0]));
    let (d1, a1) = next(d, reads(chunks)[0]);
    if verdict(d.local, held) is More {
        if held.len() >= n {
            assert(decisive.is_prefix_of(held));
            lemma_verdict_of_prefix(d.local, decisive, held);
        }
        assert(d1.state is BufferedRead && d1.buffer == held);
        assert(reads(chunks).skip(1) =~= reads(chunks.skip(1)));
        assert(d.buffer + joined(chunks) =~= held + joined(chunks.skip(1)));
        lemma_reads_decide_alike(d1, stream, n, chunks.skip(1));
    } else {
        if held.len() <= n {
            assert(held.is_prefix_of(decisive));
            lemma_verdict_of_prefix(d.local, held, decisive);
        } else {
            assert(decisive.is_prefix_of(held));
            lemma_verdict_of_prefix(d.local, decisive, held);
        }
    }
}

/// However the bytes of a stream arrive, a new detection ends as the stream's
/// beginning decides: the outcome does not depend on how the stream was cut
/// into a peek and reads.
///
/// `stream` is what the peer sends; its first `n` bytes decide, and `n` is at
/// most `BUFFER_CAPACITY`. The peek shows a beginning of the stream. The
/// chunks, none of them empty, are a beginning of the stream too, of at least
/// `n` bytes.
pub proof fn lemma_delivery_decides_alike(
    local: Seq<u8>,
    stream: Seq<u8>,
    n: int,
    peeked: Seq<u8>,
    chunks: Seq<Seq<u8>>,
)
    requires
        0 <= n <= stream.len(),
        n <= BUFFER_CAPACITY,
        !(verdict(local, stream.take(n)) is More),
        peeked.is_prefix_of(stream),
        forall|i: int| 0 <= i < chunks.len() ==> (#[trigger] chunks[i]).len() > 0,
        joined(chunks).is_prefix_of(stream),
        joined(chunks).len() >= n,
    ensures
        is_final(run(initial(local), delivery(peeked, chunks)).0.state),
        outcome(run(initial(local), delivery(peeked, chunks)).1) == outcome_of(
            verdict(local, stream.take(n)),
        ),
{
    let d = initial(local);
    let events = delivery(peeked, chunks);
    let decisive = stream.take(n);
    assert(decisive.is_prefix_of(stream));
    assert(events[0] == EventView::Peeked(peeked));
    let (d1, a1) = next(d, events[0]);
    if verdict(local, peeked) is More {
        assert(events.skip(1) =~= reads(chunks));
        assert(d1.buffer + joined(chunks) =~= joined(chunks));
        assert(sni_of(d1.buffer) is Incomplete);
        lemma_reads_decide_alike(d1, stream, n, chunks);
    } else {
        if peeked.len() <= n {
            assert(peeked.is_prefix_of(decisive));
            lemma_verdict_of_prefix(local, peeked, decisive);
        } else {
            assert(decisive.is_prefix_of(peeked));
            lemma_verdict_of_prefix(local, decisive, peeked);
        }
    }
}

/// What reads take off the socket is a beginning of what they were cut from.
pub proof fn lemma_reads_consume_in_order(d: DetectView, chunks: Seq<Seq<u8>>)
    ensures
        consumed(d, reads(chunks)).is_prefix_of(joined(chunks)),
    decreases chunks.len(),
{
    if chunks.len() > 0 {
        let events = reads(chunks);
        assert(events[0] == EventView::Read(chunks[0]));
        let d1 = next(d, events[0]).0;
        if !is_final(d1.state) {
            assert(events.skip(1) =~= reads(chunks.skip(1)));
            lemma_reads_consume_in_order(d1, chunks.skip(1));
            let rest = consumed(d1, reads(chunks.skip(1)));
            assert((chunks[0] + rest).is_prefix_of(chunks[0] + joined(chunks.skip(1)))) by {
                assert forall|k: int| 0 <= k < (chunks[0] + rest).len() implies (chunks[0]
                    + rest)[k] == (chunks[0] + joined(chunks.skip(1)))[k] by {
                    if k >= chunks[0].len() {
                        assert(rest[k - chunks[0].len()] == joined(chunks.skip(1))[k
                            - chunks[0].len()]);
                    }
                }
            }
        }
    }
}

/// A peek takes nothing off the socket: what a delivery consumes is a
/// beginning of what its reads were cut from.
pub proof fn lemma_delivery_consumes_in_order(
    local: Seq<u8>,
    peeked: Seq<u8>,
    chunks: Seq<Seq<u8>>,
)
    ensures
        consumed(initial(local), delivery(peeked, chunks)).is_prefix_of(joined(chunks)),
{
    let d = initial(local);
    let events = delivery(peeked, chunks);
    assert(events[0] == EventView::Peeked(peeked));
    let d1 = next(d, events[0]).0;
    if !is_final(d1.state) {
        assert(events.skip(1) =~= reads(chunks));
        lemma_reads_consume_in_order(d1, chunks);
        assert(Seq::<u8>::empty() + consumed(d1, reads(chunks)) =~= consumed(d1, reads(chunks)));
    }
}

/// Two chunks joined are the first followed by the second.
pub proof fn lemma_joined_pair(first: Seq<u8>, second: Seq<u8>)
    ensures
        joined(seq![first, second]) == first + second,
{
    let chunks = seq![first, second];
    assert(chunks.skip(1) =~= seq![second]);
    assert(seq![second].skip(1) =~= Seq::<Seq<u8>>::empty());
    assert(joined(Seq::<Seq<u8>>::empty()) =~= Seq::<u8>::empty());
    assert(joined(seq![second]) =~= second + joined(seq![second].skip(1)));
    assert(joined(seq![second]) =~= second);
    assert(joined(chunks) =~= first + joined(chunks.skip(1)));
}

/// A ClientHello that arrives in two pieces is classified as one that arrives
/// whole, and the bytes handed on are those that were taken off the socket.
///
/// Whole, the ClientHello is seen by the peek. In two pieces, the peek sees
/// the first, which the first read then takes, and the second read takes the
/// rest.
pub proof fn lemma_split_hello(local: Seq<u8>, hello: Seq<u8>, cut: int)
    requires
        0 < cut < hello.len(),
        hello.len() <= PEEK_CAPACITY,
        !(verdict(local, hello) is More),
    ensures
        ({
            let whole = run(initial(local), seq![EventView::Peeked(hello)]);
            let events = delivery(hello.take(cut), seq![hello.take(cut), hello.skip(cut)]);
            let split = run(initial(local), events);
            &&& outcome(whole.1) == outcome_of(verdict(local, hello))
            &&& outcome(split.1) == outcome(whole.1)
            &&& handed(whole.1) == Some(Seq::<u8>::empty())
            &&& handed(split.1) == Some(consumed(initial(local), events))
            &&& consumed(initial(local), events).is_prefix_of(hello)
        }),
{
    let d = initial(local);
    let first = hello.take(cut);
    let second = hello.skip(cut);
    let chunks = seq![first, second];
    let events = delivery(first, chunks);
    let alone = seq![EventView::Peeked(hello)];
    assert(alone[0] == EventView::Peeked(hello));
    assert(is_final(next(d, alone[0]).0.state));
    assert(hello.take(hello.len() as int) =~= hello);
    lemma_joined_pair(first, second);
    assert(first + second =~= hello);
    lemma_delivery_decides_alike(local, hello, hello.len() as int, first, chunks);
    lemma_run_keeps_bytes(d, events);
    assert(d.buffer + consumed(d, events) =~= consumed(d, events));
    lemma_delivery_consumes_in_order(local, first, chunks);
}

/// What the bytes seen so far say to a workload.
enum Judged {
    More,
    Terminate,
    Passthru(ServerId),
    Plain,
}

impl Judged {
    spec fn as_verdict(self) -> Verdict {
        match self {
            Judged::More => Verdict::More,
            Judged::Terminate => Verdict::Terminate,
            Judged::Passthru(sni) => Verdict::Passthru(sni.0@),
            Judged::Plain => Verdict::Plain,
        }
    }
}

/// Judges `input` for the workload `local`.
fn judge(local: &LocalId, input: &[u8]) -> (judged: Judged)
    ensures
        judged.as_verdict() == verdict(local.0@, input@),
{
    match parse_sni(input) {
        Err(_) => Judged::More,
        Ok(None) => Judged::Plain,
        Ok(Some(sni)) => {
            if same_bytes(sni.0.as_bytes(), local.0.as_bytes()) {
                Judged::Terminate
            } else {
                Judged::Passthru(sni)
            }
        },
    }
}

/// The detection on one accepted connection.
#[derive(Debug)]
pub struct Detect {
    local: LocalId,
    state: State,
    buffer: Vec<u8>,
}

impl View for Detect {
    type V = DetectView;

    closed spec fn view(&self) -> DetectView {
        DetectView { local: self.local.0@, state: self.state, buffer: self.buffer@ }
    }
}

/// Computes `room`.
fn room_for(held: &Vec<u8>) -> (capacity: usize)
    ensures
        capacity == room(held@),
{
    if held.len() < BUFFER_CAPACITY {
        BUFFER_CAPACITY - held.len()
    } else {
        0
    }
}

impl Detect {
    /// A detection for the workload `local` that has seen nothing.
    pub fn new(local: LocalId) -> (d: Detect)
        ensures
            d@ == initial(local.0@),
    {
        Detect { local, state: State::Start, buffer: Vec::new() }
    }

    /// Where the detection stands.
    pub fn state(&self) -> (state: State)
        ensures
            state == self@.state,
    {
        self.state
    }

    /// The action that the detection is waiting to hear of.
    pub fn awaited(&self) -> (action: Action)
        ensures
            action@ == awaited(self@),
    {
        match self.state {
            State::Start => Action::Peek { capacity: PEEK_CAPACITY },
            State::PeekedSmall | State::BufferedRead => Action::Read {
                capacity: room_for(&self.buffer),
            },
            _ => Action::Done,
        }
    }

    /// Ends the detection on what was `judged`, handing on the bytes held.
    fn conclude(&mut self, judged: Judged, held: Vec<u8>) -> (action: Action)
        requires
            !(judged is More),
        ensures
            (final(self)@, action@) == conclude(old(self)@, judged.as_verdict(), held@),
    {
        self.buffer = Vec::new();
        match judged {
            Judged::Terminate => {
                self.state = State::Terminate;
                Action::Terminate { prefix: held }
            },
            Judged::Passthru(sni) => {
                self.state = State::Passthrough;
                Action::Forward {
                    tls: ConditionalServerTls::Tls(ServerTls::Passthru { sni }),
                    prefix: held,
                }
            },
            _ => {
                self.state = State::Plain;
                Action::Forward {
                    tls: ConditionalServerTls::NoTls(NoServerTls::NoClientHello),
                    prefix: held,
                }
            },
        }
    }

    /// Takes one step: moves to the state that follows on `event` and says
    /// what to do next.
    pub fn step(&mut self, event: Event) -> (action: Action)
        ensures
            (final(self)@, action@) == next(old(self)@, event@),
    {
        match self.state {
            State::Terminate | State::Passthrough | State::Plain | State::Failed => {
                return Action::Done;
            },
            _ => {},
        }
        match event {
            Event::TimedOut => {
                self.state = State::Failed;
                self.buffer = Vec::new();
                Action::Fail(DetectTimeout)
            },
            Event::Peeked(bytes) => {
                match self.state {
                    State::Start => {},
                    _ => {
                        return self.awaited();
                    },
                }
                match judge(&self.local, bytes.as_slice()) {
                    Judged::More => {
                        self.state = State::PeekedSmall;
                        Action::Read { capacity: room_for(&self.buffer) }
                    },
                    judged => {
                        let mut held: Vec<u8> = Vec::new();
                        std::mem::swap(&mut held, &mut self.buffer);
                        self.conclude(judged, held)
                    },
                }
            },
            Event::Read(bytes) => {
                let mut held: Vec<u8> = Vec::new();
                std::mem::swap(&mut held, &mut self.buffer);
                if bytes.len() == 0 {
                    return self.conclude(Judged::Plain, held);
                }
                let mut bytes = bytes;
                held.append(&mut bytes);
                match judge(&self.local, held.as_slice()) {
                    Judged::More => {
                        if held.len() >= BUFFER_CAPACITY {
                            self.conclude(Judged::Plain, held)
                        } else {
                            let capacity = room_for(&held);
                            self.state = State::BufferedRead;
                            self.buffer = held;
                            Action::Read { capacity }
                        }
                    },
                    judged => self.conclude(judged, held),
                }
            },
        }
    }
}

} // verus!
