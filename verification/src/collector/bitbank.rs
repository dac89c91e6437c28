//! The venue-B adapter (Bitbank-style Socket.IO protocol).
//!
//! Frames are text packets whose first characters name the packet kind: an
//! open packet starts the handshake and is answered with one bare connect
//! packet, the namespace acknowledgement triggers the join-room request, a
//! keep-alive ping must be answered with one pong, and event packets wrap
//! ticker payloads whose ask, bid and last prices arrive as decimal strings.

use vstd::prelude::*;
use vstd::string::StrSliceExecFns;
use crate::json::{jfield, jitem, jparse, jtext, jtext_of_field, json_as_str, json_get, json_get_index, json_parse};
use crate::num::Price;
use crate::parse::{parse_price, spec_parse_price};
use crate::store::{price_written, Exchange, MarketStore, SymbolData};
use crate::text::{contains_str, spec_contains};

verus! {

/// The packet kinds of the venue's text framing, told apart by the leading
/// characters.
#[derive(Clone, Copy, Debug, PartialEq, Eq, Structural)]
pub enum PacketKind {
    Open,
    NamespaceAck,
    Ping,
    Event,
    Other,
}

/// The handshake states of one connection.
#[derive(Clone, Copy, Debug, PartialEq, Eq, Structural)]
pub enum SessionState {
    AwaitingOpen,
    AwaitingNamespace,
    Streaming,
}

/// The packets the adapter sends back.
#[derive(Clone, Copy, Debug, PartialEq, Eq, Structural)]
pub enum Outbound {
    Connect,
    Pong,
    JoinRoom,
}

/// How a frame's text classifies: `0…` opens, `40…` acknowledges the
/// namespace, `2…` pings, `42…` carries an event, anything else is ignored.
pub open spec fn spec_classify(s: Seq<char>) -> PacketKind {
    if s.len() >= 1 && s[0] == '0' {
        PacketKind::Open
    } else if s.len() >= 2 && s[0] == '4' && s[1] == '0' {
        PacketKind::NamespaceAck
    } else if s.len() >= 1 && s[0] == '2' {
        PacketKind::Ping
    } else if s.len() >= 2 && s[0] == '4' && s[1] == '2' {
        PacketKind::Event
    } else {
        PacketKind::Other
    }
}

/// Classifies a frame's text by its leading characters.
pub fn classify_packet(text: &str) -> (k: PacketKind)
    ensures
        k == spec_classify(text@),
{
    let len = text.unicode_len();
    if len == 0 {
        return PacketKind::Other;
    }
    let c0 = text.get_char(0);
    if c0 == '0' {
        PacketKind::Open
    } else if c0 == '4' && len >= 2 {
        let c1 = text.get_char(1);
        if c1 == '0' {
            PacketKind::NamespaceAck
        } else if c1 == '2' {
            PacketKind::Event
        } else {
            PacketKind::Other
        }
    } else if c0 == '2' {
        PacketKind::Ping
    } else {
        PacketKind::Other
    }
}

/// The handshake transition: an open packet in the initial state is answered
/// with exactly one connect packet, the namespace acknowledgement with the
/// join-room request, and a ping always with exactly one pong; everything
/// else sends nothing and keeps the state.
pub open spec fn spec_step(state: SessionState, kind: PacketKind) -> (
    SessionState,
    Seq<Outbound>,
) {
    match kind {
        PacketKind::Open => if state == SessionState::AwaitingOpen {
            (SessionState::AwaitingNamespace, seq![Outbound::Connect])
        } else {
            (state, Seq::empty())
        },
        PacketKind::NamespaceAck => if state == SessionState::AwaitingNamespace {
            (SessionState::Streaming, seq![Outbound::JoinRoom])
        } else {
            (state, Seq::empty())
        },
        PacketKind::Ping => (state, seq![Outbound::Pong]),
        PacketKind::Event => (state, Seq::empty()),
        PacketKind::Other => (state, Seq::empty()),
    }
}

/// One handshake step, executable.
pub fn session_step(state: SessionState, kind: PacketKind) -> (r: (SessionState, Vec<Outbound>))
    ensures
        r.0 == spec_step(state, kind).0,
        r.1@ == spec_step(state, kind).1,
{
    let mut out: Vec<Outbound> = Vec::new();
    let next = match kind {
        PacketKind::Open => {
            if state == SessionState::AwaitingOpen {
                out.push(Outbound::Connect);
                SessionState::AwaitingNamespace
            } else {
                state
            }
        },
        PacketKind::NamespaceAck => {
            if state == SessionState::AwaitingNamespace {
                out.push(Outbound::JoinRoom);
                SessionState::Streaming
            } else {
                state
            }
        },
        PacketKind::Ping => {
            out.push(Outbound::Pong);
            state
        },
        PacketKind::Event => state,
        PacketKind::Other => state,
    };
    proof {
        assert(out@ =~= spec_step(state, kind).1);
    }
    (next, out)
}

/// The wire text of an outbound packet.
pub fn outbound_text(o: &Outbound) -> (r: &'static str)
    ensures
        *o == Outbound::Connect ==> r@ == "40"@,
        *o == Outbound::Pong ==> r@ == "3"@,
        *o == Outbound::JoinRoom ==> r@ == "42[\"join-room\",\"ticker_btc_jpy\"]"@,
{
    match o {
        Outbound::Connect => "40",
        Outbound::Pong => "3",
        Outbound::JoinRoom => "42[\"join-room\",\"ticker_btc_jpy\"]",
    }
}

/// The ticker fields an event payload decodes to: the room name and the
/// `sell`, `buy` and `last` price strings of its data object, else nothing.
pub open spec fn spec_bb_ticker(payload: serde_json::Value) -> Option<
    (Seq<char>, Seq<char>, Seq<char>, Seq<char>),
> {
    let data = match jfield(payload, "message"@) {
        Some(m) => jfield(m, "data"@),
        None => None,
    };
    match (jtext_of_field(payload, "room_name"@), data) {
        (Some(room), Some(d)) => match (jtext_of_field(d, "sell"@), jtext_of_field(d, "buy"@), jtext_of_field(
            d,
            "last"@,
        )) {
            (Some(sell), Some(buy), Some(last)) => Some((room, sell, buy, last)),
            _ => None,
        },
        _ => None,
    }
}

/// The ticker fields an event packet's text decodes to: the packet body
/// after the two framing characters must be a `message` event array whose
/// payload carries a full ticker, else nothing.
pub open spec fn spec_bb_event(text: Seq<char>) -> Option<
    (Seq<char>, Seq<char>, Seq<char>, Seq<char>),
> {
    match jparse(text.skip(2)) {
        Some(v) => if (match jitem(v, 0) {
            Some(e) => jtext(e),
            None => None,
        }) == Some("message"@) {
            match jitem(v, 1) {
                Some(p) => spec_bb_ticker(p),
                None => None,
            }
        } else {
            None
        },
        None => None,
    }
}

/// The store change one decoded ticker owes: the write of the parsed prices
/// under the one subscribed market when the room names it and all three
/// strings parse; no change otherwise.  The venue quotes ask under `sell`
/// and bid under `buy`.
pub open spec fn bb_ticker_post(
    before: Map<(Exchange, Seq<char>), SymbolData>,
    after: Map<(Exchange, Seq<char>), SymbolData>,
    room: Seq<char>,
    sell: Seq<char>,
    buy: Seq<char>,
    last: Seq<char>,
) -> bool {
    let ask = spec_parse_price(sell);
    let bid = spec_parse_price(buy);
    let lst = spec_parse_price(last);
    if spec_contains(room, "btc_jpy"@) && ask is Some && bid is Some && lst is Some {
        price_written(
            before,
            after,
            Exchange::Bitbank,
            "BTC"@,
            bid->Some_0,
            ask->Some_0,
            lst->Some_0,
        )
    } else {
        after == before
    }
}

/// Stores one decoded ticker: the room name must name the one subscribed
/// market and all three price strings must parse, else the frame is dropped.
/// The venue quotes ask under `sell` and bid under `buy`.
pub fn bitbank_apply_ticker(
    room: &str,
    sell: &str,
    buy: &str,
    last: &str,
    store: &mut MarketStore,
)
    requires
        old(store).inv(),
    ensures
        final(store).inv(),
        bb_ticker_post(old(store)@, final(store)@, room@, sell@, buy@, last@),
{
    if !contains_str(room, "btc_jpy") {
        return ;
    }
    match (parse_price(sell), parse_price(buy), parse_price(last)) {
        (Some(ask), Some(bid), Some(lst)) => {
            store.update_market_data(Exchange::Bitbank, "BTC", bid, ask, lst);
            proof {
                assert(price_written(
                    old(store)@,
                    store@,
                    Exchange::Bitbank,
                    "BTC"@,
                    bid,
                    ask,
                    lst,
                ));
            }
        },
        _ => {},
    }
}

/// Handles a decoded event payload: routes its ticker data to the store.
fn process_data(payload: &serde_json::Value, store: &mut MarketStore)
    requires
        old(store).inv(),
    ensures
        final(store).inv(),
        match spec_bb_ticker(*payload) {
            Some(f) => bb_ticker_post(old(store)@, final(store)@, f.0, f.1, f.2, f.3),
            None => final(store)@ == old(store)@,
        },
{
    let room = match json_get(payload, "room_name") {
        Some(v) => match json_as_str(v) {
            Some(s) => s,
            None => {
                return ;
            },
        },
        None => {
            return ;
        },
    };
    let data = match json_get(payload, "message") {
        Some(m) => match json_get(m, "data") {
            Some(d) => d,
            None => {
                return ;
            },
        },
        None => {
            return ;
        },
    };
    let sell = match json_get(data, "sell") {
        Some(v) => match json_as_str(v) {
            Some(s) => s,
            None => {
                return ;
            },
        },
        None => {
            return ;
        },
    };
    let buy = match json_get(data, "buy") {
        Some(v) => match json_as_str(v) {
            Some(s) => s,
            None => {
                return ;
            },
        },
        None => {
            return ;
        },
    };
    let last = match json_get(data, "last") {
        Some(v) => match json_as_str(v) {
            Some(s) => s,
            None => {
                return ;
            },
        },
        None => {
            return ;
        },
    };
    bitbank_apply_ticker(room, sell, buy, last, store);
}

/// Handles one incoming frame: advances the handshake, returning the packets
/// to send back, and routes an event frame's ticker payload to the store.
pub fn bitbank_handle_text(state: SessionState, text: &str, store: &mut MarketStore) -> (r: (
    SessionState,
    Vec<Outbound>,
))
    requires
        old(store).inv(),
    ensures
        final(store).inv(),
        r.0 == spec_step(state, spec_classify(text@)).0,
        r.1@ == spec_step(state, spec_classify(text@)).1,
        if spec_classify(text@) == PacketKind::Event {
            match spec_bb_event(text@) {
                Some(f) => bb_ticker_post(old(store)@, final(store)@, f.0, f.1, f.2, f.3),
                None => final(store)@ == old(store)@,
            }
        } else {
            final(store)@ == old(store)@
        },
{
    let kind = classify_packet(text);
    if kind == PacketKind::Event {
        let len = text.unicode_len();
        let body = text.substring_char(2, len);
        proof {
            assert(body@ =~= text@.skip(2));
        }
        match json_parse(body) {
            Some(v) => {
                let event_name = match json_get_index(&v, 0) {
                    Some(e) => json_as_str(e),
                    None => None,
                };
                match event_name {
                    Some(name) => {
                        if crate::text::str_eq_str(name, "message") {
                            match json_get_index(&v, 1) {
                                Some(payload) => {
                                    process_data(payload, store);
                                },
                                None => {},
                            }
                        }
                    },
                    None => {},
                }
            },
            None => {},
        }
    }
    session_step(state, kind)
}

/// How often an outbound packet occurs in a sent sequence.
pub open spec fn count_out(outs: Seq<Outbound>, o: Outbound) -> int
    decreases outs.len(),
{
    if outs.len() == 0 {
        0
    } else {
        (if outs[0] == o {
            1int
        } else {
            0int
        }) + count_out(outs.drop_first(), o)
    }
}

/// How often a packet kind occurs in a received sequence.
pub open spec fn count_kind(kinds: Seq<PacketKind>, k: PacketKind) -> int
    decreases kinds.len(),
{
    if kinds.len() == 0 {
        0
    } else {
        (if kinds[0] == k {
            1int
        } else {
            0int
        }) + count_kind(kinds.drop_first(), k)
    }
}

/// The state and sent packets after a whole sequence of received frames.
pub open spec fn run_steps(state: SessionState, kinds: Seq<PacketKind>) -> (
    SessionState,
    Seq<Outbound>,
)
    decreases kinds.len(),
{
    if kinds.len() == 0 {
        (state, Seq::empty())
    } else {
        let first = spec_step(state, kinds[0]);
        let rest = run_steps(first.0, kinds.drop_first());
        (rest.0, first.1 + rest.1)
    }
}

/// Counting distributes over concatenation of sent sequences.
proof fn lemma_count_out_concat(a: Seq<Outbound>, b: Seq<Outbound>, o: Outbound)
    ensures
        count_out(a + b, o) == count_out(a, o) + count_out(b, o),
    decreases a.len(),
{
    if a.len() == 0 {
        assert(a + b =~= b);
    } else {
        assert((a + b).drop_first() =~= a.drop_first() + b);
        assert((a + b)[0] == a[0]);
        lemma_count_out_concat(a.drop_first(), b, o);
    }
}

/// The index of the first occurrence of a packet in a sent sequence
/// (meaningful when the packet occurs at all).
pub open spec fn first_index_of(outs: Seq<Outbound>, o: Outbound) -> int
    decreases outs.len(),
{
    if outs.len() == 0 {
        0
    } else if outs[0] == o {
        0
    } else {
        1 + first_index_of(outs.drop_first(), o)
    }
}

/// How often a packet occurs in a sequence of at most one packet.
proof fn lemma_count_short(a: Seq<Outbound>, o: Outbound)
    requires
        a.len() <= 1,
    ensures
        count_out(a, o) == if a.len() == 1 && a[0] == o {
            1int
        } else {
            0int
        },
{
    if a.len() == 0 {
        assert(count_out(a, o) == 0);
    } else {
        let e = a.drop_first();
        assert(e.len() == 0);
        assert(count_out(e, o) == 0);
        assert(count_out(a, o) == (if a[0] == o {
            1int
        } else {
            0int
        }) + count_out(e, o));
    }
}

/// The handshake discipline of a whole run, by start state: past the initial
/// state a run never sends a connect; in all, at most one connect and one
/// join-room are sent; a run from the initial state sends any join-room only
/// after a connect; and every ping is answered with exactly one pong.
proof fn lemma_run_discipline(state: SessionState, kinds: Seq<PacketKind>)
    ensures
        ({
            let r = run_steps(state, kinds);
            &&& count_out(r.1, Outbound::Pong) == count_kind(kinds, PacketKind::Ping)
            &&& (state == SessionState::Streaming ==> count_out(r.1, Outbound::Connect) == 0
                && count_out(r.1, Outbound::JoinRoom) == 0)
            &&& (state == SessionState::AwaitingNamespace ==> count_out(r.1, Outbound::Connect)
                == 0 && count_out(r.1, Outbound::JoinRoom) <= 1)
            &&& (state == SessionState::AwaitingOpen ==> count_out(r.1, Outbound::Connect) <= 1
                && count_out(r.1, Outbound::JoinRoom) <= 1 && (count_out(r.1, Outbound::JoinRoom)
                > 0 ==> count_out(r.1, Outbound::Connect) == 1 && first_index_of(
                r.1,
                Outbound::Connect,
            ) < first_index_of(r.1, Outbound::JoinRoom)))
        }),
    decreases kinds.len(),
{
    let r = run_steps(state, kinds);
    if kinds.len() == 0 {
    } else {
        let first = spec_step(state, kinds[0]);
        let rest = run_steps(first.0, kinds.drop_first());
        lemma_run_discipline(first.0, kinds.drop_first());
        lemma_count_out_concat(first.1, rest.1, Outbound::Pong);
        lemma_count_out_concat(first.1, rest.1, Outbound::Connect);
        lemma_count_out_concat(first.1, rest.1, Outbound::JoinRoom);
        lemma_count_short(first.1, Outbound::Pong);
        lemma_count_short(first.1, Outbound::Connect);
        lemma_count_short(first.1, Outbound::JoinRoom);
        if state == SessionState::AwaitingOpen && count_out(r.1, Outbound::JoinRoom) > 0 {
            if kinds[0] == PacketKind::Open {
                // The connect packet stands first; any join-room comes later.
                assert(r.1[0] == Outbound::Connect);
                assert(first_index_of(r.1, Outbound::Connect) == 0);
                assert(r.1.drop_first() =~= rest.1);
                lemma_first_index_nonneg(rest.1, Outbound::JoinRoom);
                assert(first_index_of(r.1, Outbound::JoinRoom) == 1 + first_index_of(
                    rest.1,
                    Outbound::JoinRoom,
                ));
            } else {
                // The state is unchanged; the first output is at most one pong,
                // so both first occurrences shift by the same offset.
                assert(first.0 == state);
                if kinds[0] == PacketKind::Ping {
                    assert(r.1[0] == Outbound::Pong);
                    assert(r.1.drop_first() =~= rest.1);
                    assert(first_index_of(r.1, Outbound::Connect) == 1 + first_index_of(
                        rest.1,
                        Outbound::Connect,
                    ));
                    assert(first_index_of(r.1, Outbound::JoinRoom) == 1 + first_index_of(
                        rest.1,
                        Outbound::JoinRoom,
                    ));
                } else {
                    assert(r.1 =~= rest.1);
                }
            }
        }
    }
}

/// A first-occurrence index is never negative.
proof fn lemma_first_index_nonneg(outs: Seq<Outbound>, o: Outbound)
    ensures
        first_index_of(outs, o) >= 0,
    decreases outs.len(),
{
    if outs.len() > 0 && outs[0] != o {
        lemma_first_index_nonneg(outs.drop_first(), o);
    }
}

/// Where a packet first occurs: at its first-occurrence index, with no
/// earlier occurrence.
pub proof fn lemma_first_index_spec(outs: Seq<Outbound>, o: Outbound)
    requires
        count_out(outs, o) > 0,
    ensures
        0 <= first_index_of(outs, o) < outs.len(),
        outs[first_index_of(outs, o)] == o,
        forall|k: int| 0 <= k < first_index_of(outs, o) ==> outs[k] != o,
    decreases outs.len(),
{
    if outs[0] != o {
        lemma_first_index_spec(outs.drop_first(), o);
        assert(forall|k: int|
            1 <= k < first_index_of(outs, o) ==> outs[k] == outs.drop_first()[k - 1]);
    }
}

/// The handshake protocol as seen on the wire, from a fresh connection: at
/// most one bare connect packet is ever sent; once any join-room packet is
/// sent, exactly one connect packet was sent, and the first connect stands
/// strictly before the first join-room; and every keep-alive ping is
/// answered with exactly one pong.
pub proof fn lemma_handshake_protocol(kinds: Seq<PacketKind>)
    ensures
        ({
            let r = run_steps(SessionState::AwaitingOpen, kinds);
            &&& count_out(r.1, Outbound::Connect) <= 1
            &&& (count_out(r.1, Outbound::JoinRoom) > 0 ==> count_out(r.1, Outbound::Connect)
                == 1 && first_index_of(r.1, Outbound::Connect) < first_index_of(
                r.1,
                Outbound::JoinRoom,
            ))
            &&& count_out(r.1, Outbound::Pong) == count_kind(kinds, PacketKind::Ping)
        }),
{
    lemma_run_discipline(SessionState::AwaitingOpen, kinds);
}

} // verus!
