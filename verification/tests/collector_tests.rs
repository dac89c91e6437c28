use funding_rate::collector::bitbank::{
    bitbank_apply_ticker, bitbank_handle_text, classify_packet, outbound_text, session_step,
    Outbound, PacketKind, SessionState,
};
use funding_rate::collector::gmo::{
    gmo_apply_ticker, gmo_handle_text, gmo_subscribe_payload, gmo_subscription_payloads,
    leveraged_symbol,
};
use funding_rate::collector::hyperliquid::{
    handle_message, hl_apply_book, hl_subscription_payloads, parse_bid_ask, spot_coin_string,
    subscribe_ctx_payload, subscribe_l2_payload, SpotMap,
};
use funding_rate::collector::kraken::{kraken_handle_text, kraken_store_fx, kraken_subscribe_payload};
use funding_rate::json::json_parse;
use funding_rate::num::Price;
use funding_rate::store::{Exchange, MarketStore};

fn price(units: i64) -> Price {
    Price::from_units(units)
}

#[test]
fn spot_map_lookups() {
    let map = SpotMap::defaults();
    assert_eq!(map.spot_id("BTC"), Some(142));
    assert_eq!(map.spot_id("ETH"), Some(151));
    assert_eq!(map.spot_id("SOL"), Some(156));
    assert_eq!(map.spot_id("HYPE"), Some(107));
    assert_eq!(map.spot_id("DOGE"), None);
    assert_eq!(map.spot_name(142).as_deref(), Some("BTC"));
    assert_eq!(map.spot_name(9), None);
}

#[test]
fn spot_map_from_pairs_resolves() {
    let map = SpotMap::from_pairs(vec![("X".to_string(), 3)]);
    assert_eq!(map.resolve_spot_coin("@3").as_deref(), Some("X"));
    assert_eq!(map.resolve_spot_coin("@4"), None);
    assert_eq!(map.resolve_spot_coin("X"), None);
    assert_eq!(map.resolve_spot_coin("@"), None);
    assert_eq!(map.resolve_spot_coin("@3x"), None);
}

#[test]
fn spot_coin_wire_text() {
    assert_eq!(spot_coin_string(142), "@142");
    assert_eq!(spot_coin_string(0), "@0");
}

#[test]
fn book_frame_for_mapped_spot_id_lands_under_spot_suffix() {
    // An order-book frame for identifier "@3" with best bid "100.5" and ask
    // "100.6", with asset "X" mapped to id 3, must land under "X_SPOT".
    let mut store = MarketStore::new();
    let map = SpotMap::from_pairs(vec![("X".to_string(), 3)]);
    let text = "{\"channel\":\"l2Book\",\"data\":{\"coin\":\"@3\",\
                 \"levels\":[[{\"px\":\"100.5\"}],[{\"px\":\"100.6\"}]]}}";
    handle_message(text, &mut store, &map);
    let d = store.get_symbol_data(Exchange::Hyperliquid, "X_SPOT").unwrap();
    assert_eq!(d.bid.raw, 100_500_000);
    assert_eq!(d.ask.raw, 100_600_000);
    assert_eq!(d.last_price.raw, 100_550_000);
}

#[test]
fn book_frame_for_bare_coin_is_the_derivative_leg() {
    let mut store = MarketStore::new();
    let map = SpotMap::defaults();
    let text = "{\"channel\":\"l2Book\",\"data\":{\"coin\":\"BTC\",\
                 \"levels\":[[{\"px\":\"50000\"}],[{\"px\":\"50001\"}]]}}";
    handle_message(text, &mut store, &map);
    let d = store.get_symbol_data(Exchange::Hyperliquid, "BTC").unwrap();
    assert_eq!(d.bid, price(50_000));
    assert_eq!(d.ask, price(50_001));
    assert!(store.get_symbol_data(Exchange::Hyperliquid, "BTC_SPOT").is_none());
}

#[test]
fn book_frame_for_unmapped_spot_id_falls_back_to_raw_name() {
    // An unmapped marked identifier falls back to the raw identifier as the
    // asset name, so its data lands under the raw id with the spot suffix.
    let mut store = MarketStore::new();
    let map = SpotMap::defaults();
    let text = "{\"channel\":\"l2Book\",\"data\":{\"coin\":\"@99\",\
                 \"levels\":[[{\"px\":\"1\"}],[{\"px\":\"2\"}]]}}";
    handle_message(text, &mut store, &map);
    let d = store.get_symbol_data(Exchange::Hyperliquid, "@99_SPOT").unwrap();
    assert_eq!(d.bid, Price::from_units(1));
    assert_eq!(d.ask, Price::from_units(2));
    assert!(store.get_symbol_data(Exchange::Hyperliquid, "@99").is_none());
}

#[test]
fn context_frame_stores_funding() {
    let mut store = MarketStore::new();
    let map = SpotMap::defaults();
    let text = "{\"channel\":\"activeAssetCtx\",\"data\":{\"coin\":\"BTC\",\
                 \"ctx\":{\"funding\":\"0.0000125\"}}}";
    handle_message(text, &mut store, &map);
    let d = store.get_symbol_data(Exchange::Hyperliquid, "BTC").unwrap();
    assert_eq!(d.funding_rate.raw, 12_500);
}

#[test]
fn malformed_frames_change_nothing() {
    let mut store = MarketStore::new();
    let map = SpotMap::defaults();
    handle_message("not json", &mut store, &map);
    handle_message("{\"channel\":\"other\"}", &mut store, &map);
    handle_message("{\"channel\":\"l2Book\",\"data\":{\"coin\":\"BTC\",\"levels\":[[],[]]}}", &mut store, &map);
    handle_message(
        "{\"channel\":\"l2Book\",\"data\":{\"coin\":\"BTC\",\
         \"levels\":[[{\"px\":\"oops\"}],[{\"px\":\"1\"}]]}}",
        &mut store,
        &map,
    );
    assert!(store.get_symbol_data(Exchange::Hyperliquid, "BTC").is_none());
}

#[test]
fn parse_bid_ask_reads_book_top() {
    let v = json_parse("{\"coin\":\"BTC\",\"levels\":[[{\"px\":\"9.5\"}],[{\"px\":\"9.7\"}]]}")
        .unwrap();
    let (bid, ask) = parse_bid_ask(&v).unwrap();
    assert_eq!(bid.raw, 9_500_000);
    assert_eq!(ask.raw, 9_700_000);
}

#[test]
fn direct_book_routing() {
    let mut store = MarketStore::new();
    let map = SpotMap::from_pairs(vec![("X".to_string(), 3)]);
    hl_apply_book("@3", price(100), price(101), &map, &mut store);
    let d = store.get_symbol_data(Exchange::Hyperliquid, "X_SPOT").unwrap();
    assert_eq!(d.bid, price(100));
    assert_eq!(d.last_price.raw, 100_500_000);
    // Unmapped marked identifiers route to the raw-name fallback key.
    hl_apply_book("@4", price(7), price(8), &map, &mut store);
    let f = store.get_symbol_data(Exchange::Hyperliquid, "@4_SPOT").unwrap();
    assert_eq!(f.ask, price(8));
}

#[test]
fn hyperliquid_subscription_payloads() {
    assert_eq!(
        subscribe_l2_payload("BTC"),
        "{\"method\":\"subscribe\",\"subscription\":{\"type\":\"l2Book\",\"coin\":\"BTC\"}}"
    );
    assert_eq!(
        subscribe_ctx_payload("ETH"),
        "{\"method\":\"subscribe\",\"subscription\":{\"type\":\"activeAssetCtx\",\"coin\":\"ETH\"}}"
    );
}

#[test]
fn hyperliquid_subscription_sequence() {
    // Per symbol in order: book, context, then the spot book only when the
    // table maps the symbol.
    let map = SpotMap::from_pairs(vec![("BTC".to_string(), 142)]);
    let symbols = vec!["BTC".to_string(), "ETH".to_string()];
    let seq = hl_subscription_payloads(&symbols, &map);
    assert_eq!(
        seq,
        vec![
            subscribe_l2_payload("BTC"),
            subscribe_ctx_payload("BTC"),
            subscribe_l2_payload("@142"),
            subscribe_l2_payload("ETH"),
            subscribe_ctx_payload("ETH"),
        ]
    );
}

#[test]
fn gmo_subscription_sequence() {
    // The foreign-exchange ticker first, then the bare and suffixed form of
    // each symbol in order.
    let symbols = vec!["BTC".to_string(), "ETH".to_string()];
    let seq = gmo_subscription_payloads(&symbols);
    assert_eq!(
        seq,
        vec![
            gmo_subscribe_payload("USD_JPY"),
            gmo_subscribe_payload("BTC"),
            gmo_subscribe_payload("BTC_JPY"),
            gmo_subscribe_payload("ETH"),
            gmo_subscribe_payload("ETH_JPY"),
        ]
    );
}

#[test]
fn packet_classification() {
    assert_eq!(classify_packet("0{\"sid\":\"abc\"}"), PacketKind::Open);
    assert_eq!(classify_packet("40{\"sid\":\"abc\"}"), PacketKind::NamespaceAck);
    assert_eq!(classify_packet("40"), PacketKind::NamespaceAck);
    assert_eq!(classify_packet("2"), PacketKind::Ping);
    assert_eq!(classify_packet("2probe"), PacketKind::Ping);
    assert_eq!(classify_packet("42[\"message\",{}]"), PacketKind::Event);
    assert_eq!(classify_packet("3"), PacketKind::Other);
    assert_eq!(classify_packet(""), PacketKind::Other);
    assert_eq!(classify_packet("41"), PacketKind::Other);
}

#[test]
fn open_packet_answered_with_one_connect_before_any_join() {
    // From a fresh connection: the open packet yields exactly one bare
    // connect packet and no join; the namespace acknowledgement then yields
    // the join-room request.
    let mut store = MarketStore::new();
    let (s1, out1) = bitbank_handle_text(SessionState::AwaitingOpen, "0{\"sid\":\"x\"}", &mut store);
    assert_eq!(out1, vec![Outbound::Connect]);
    assert_eq!(outbound_text(&out1[0]), "40");
    assert_eq!(s1, SessionState::AwaitingNamespace);
    let (s2, out2) = bitbank_handle_text(s1, "40{\"sid\":\"y\"}", &mut store);
    assert_eq!(out2, vec![Outbound::JoinRoom]);
    assert_eq!(outbound_text(&out2[0]), "42[\"join-room\",\"ticker_btc_jpy\"]");
    assert_eq!(s2, SessionState::Streaming);
    // A second open packet once past the initial state sends nothing more.
    let (s3, out3) = bitbank_handle_text(s2, "0{\"sid\":\"z\"}", &mut store);
    assert!(out3.is_empty());
    assert_eq!(s3, SessionState::Streaming);
}

#[test]
fn ping_always_answered_with_one_pong() {
    let mut store = MarketStore::new();
    for state in [
        SessionState::AwaitingOpen,
        SessionState::AwaitingNamespace,
        SessionState::Streaming,
    ] {
        let (next, out) = bitbank_handle_text(state, "2", &mut store);
        assert_eq!(out, vec![Outbound::Pong]);
        assert_eq!(outbound_text(&out[0]), "3");
        assert_eq!(next, state);
    }
}

#[test]
fn session_step_ignores_stray_acknowledgement() {
    let (next, out) = session_step(SessionState::AwaitingOpen, PacketKind::NamespaceAck);
    assert_eq!(next, SessionState::AwaitingOpen);
    assert!(out.is_empty());
}

#[test]
fn ticker_event_reaches_the_store() {
    let mut store = MarketStore::new();
    let text = "42[\"message\",{\"room_name\":\"ticker_btc_jpy\",\
                \"message\":{\"data\":{\"sell\":\"16100000\",\"buy\":\"16000000\",\
                \"last\":\"16050000\"}}}]";
    let (state, out) = bitbank_handle_text(SessionState::Streaming, text, &mut store);
    assert_eq!(state, SessionState::Streaming);
    assert!(out.is_empty());
    let d = store.get_symbol_data(Exchange::Bitbank, "BTC").unwrap();
    assert_eq!(d.ask, price(16_100_000));
    assert_eq!(d.bid, price(16_000_000));
    assert_eq!(d.last_price, price(16_050_000));
}

#[test]
fn unknown_room_is_dropped() {
    let mut store = MarketStore::new();
    bitbank_apply_ticker("ticker_eth_jpy", "1", "2", "3", &mut store);
    assert!(store.get_symbol_data(Exchange::Bitbank, "BTC").is_none());
    bitbank_apply_ticker("ticker_btc_jpy", "oops", "2", "3", &mut store);
    assert!(store.get_symbol_data(Exchange::Bitbank, "BTC").is_none());
}

#[test]
fn gmo_symbol_routing() {
    let mut store = MarketStore::new();
    gmo_apply_ticker("BTC_JPY", "100", "101", &mut store);
    gmo_apply_ticker("BTC", "102", "103", &mut store);
    gmo_apply_ticker("USD_JPY", "150", "150.5", &mut store);
    let lev = store.get_symbol_data(Exchange::Gmo, "BTC").unwrap();
    assert_eq!(lev.bid, price(100));
    assert_eq!(lev.ask, price(101));
    assert_eq!(lev.last_price.raw, 100_500_000);
    let spot = store.get_symbol_data(Exchange::Gmo, "BTC_SPOT").unwrap();
    assert_eq!(spot.bid, price(102));
    let fx = store.get_symbol_data(Exchange::Gmo, "USD_JPY").unwrap();
    assert_eq!(fx.bid, price(150));
    assert_eq!(fx.last_price.raw, 150_250_000);
}

#[test]
fn gmo_ticker_frame_end_to_end() {
    let mut store = MarketStore::new();
    let text = "{\"channel\":\"ticker\",\"symbol\":\"BTC_JPY\",\"bid\":\"100\",\"ask\":\"101\"}";
    gmo_handle_text(text, &mut store);
    assert!(store.get_symbol_data(Exchange::Gmo, "BTC").is_some());
    // A frame missing a price field is dropped, not defaulted.
    let mut other = MarketStore::new();
    gmo_handle_text("{\"channel\":\"ticker\",\"symbol\":\"ETH_JPY\",\"bid\":\"100\"}", &mut other);
    assert!(other.get_symbol_data(Exchange::Gmo, "ETH").is_none());
}

#[test]
fn gmo_payloads() {
    assert_eq!(
        gmo_subscribe_payload("BTC"),
        "{\"command\":\"subscribe\",\"channel\":\"ticker\",\"symbol\":\"BTC\"}"
    );
    assert_eq!(leveraged_symbol("BTC"), "BTC_JPY");
}

#[test]
fn kraken_array_frame_sets_fx() {
    let mut store = MarketStore::new();
    let text = "[340,{\"a\":[\"150.6\",\"1\",\"1.0\"],\"b\":[\"150.4\",\"1\",\"1.0\"],\
                \"c\":[\"150.5\",\"0.1\"]},\"ticker\",\"USD/JPY\"]";
    kraken_handle_text(text, &mut store);
    let d = store.get_symbol_data(Exchange::Kraken, "USD_JPY").unwrap();
    assert_eq!(d.bid.raw, 150_500_000);
    assert_eq!(d.ask.raw, 150_500_000);
    assert_eq!(d.last_price.raw, 150_500_000);
    assert_eq!(store.get_fx_rate("USD_JPY").unwrap().raw, 150_500_000);
}

#[test]
fn kraken_events_are_ignored() {
    let mut store = MarketStore::new();
    kraken_handle_text("{\"event\":\"heartbeat\"}", &mut store);
    kraken_handle_text("{\"event\":\"systemStatus\",\"status\":\"online\"}", &mut store);
    kraken_handle_text("[340,{\"c\":[]},\"ticker\",\"USD/JPY\"]", &mut store);
    assert!(store.get_fx_rate("USD_JPY").is_none());
}

#[test]
fn kraken_store_fx_parses_exactly() {
    let mut store = MarketStore::new();
    kraken_store_fx("149.987", &mut store);
    assert_eq!(store.get_fx_rate("USD_JPY").unwrap().raw, 149_987_000);
    kraken_store_fx("oops", &mut store);
    assert_eq!(store.get_fx_rate("USD_JPY").unwrap().raw, 149_987_000);
}

#[test]
fn kraken_payload() {
    assert_eq!(
        kraken_subscribe_payload(),
        "{\"event\":\"subscribe\",\"pair\":[\"USD/JPY\"],\"subscription\":{\"name\":\"ticker\"}}"
    );
}
