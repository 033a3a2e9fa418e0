use tastyworks::decimal::DecimalErrorKind;
use tastyworks::streamer::{
    Client, FeedFrame, FeedValue, HandshakeStep, Incoming, Phase, StreamError,
};

fn reply(message_type: Option<&str>) -> Incoming {
    Incoming {
        message_type: message_type.map(String::from),
        state: None,
        channel: None,
        data: None,
    }
}

fn auth(state: &str) -> Incoming {
    Incoming {
        message_type: Some("AUTH_STATE".to_string()),
        state: Some(state.to_string()),
        channel: None,
        data: None,
    }
}

fn channel_opened(channel: i32) -> Incoming {
    Incoming {
        message_type: Some("CHANNEL_OPENED".to_string()),
        state: None,
        channel: Some(channel),
        data: None,
    }
}

fn frame(event_type: &str, values: Vec<FeedValue>) -> Incoming {
    Incoming {
        message_type: Some("FEED_DATA".to_string()),
        state: None,
        channel: Some(3),
        data: Some(FeedFrame {
            event_type: Some(event_type.to_string()),
            values: Some(values),
        }),
    }
}

fn text(s: &str) -> FeedValue {
    FeedValue::Text(s.to_string())
}

fn number(s: &str) -> FeedValue {
    FeedValue::Number(s.to_string())
}

fn authorized() -> Client {
    let mut client = Client::new("wss://feed.example".to_string(), "t0k3n".to_string());
    assert_eq!(
        client.transport_opened(),
        r#"{"type":"SETUP","channel":0,"keepaliveTimeout":60,"acceptKeepaliveTimeout":60,"version":"0.1-js/1.0.0"}"#
    );
    assert_eq!(
        client.setup_reply(&reply(Some("SETUP"))).unwrap(),
        r#"{"type":"AUTH","channel":0,"token":"t0k3n"}"#
    );
    client.auth_reply(&auth("AUTHORIZED")).unwrap();
    assert_eq!(client.phase(), Phase::Authorized);
    client
}

fn with_channel() -> Client {
    let mut client = authorized();
    assert!(client.needs_channel());
    assert_eq!(
        client.request_channel().unwrap(),
        r#"{"type":"CHANNEL_REQUEST","channel":1,"service":"FEED","parameters":{"contract":"AUTO"}}"#
    );
    client.channel_reply(&channel_opened(3)).unwrap();
    assert_eq!(client.feed_channel(), Some(3));
    assert!(!client.needs_channel());
    client
}

fn strings(items: &[&str]) -> Vec<String> {
    items.iter().map(|s| s.to_string()).collect()
}

#[test]
fn handshake_reaches_authorized() {
    let client = with_channel();
    assert_eq!(client.phase(), Phase::Authorized);
    assert_eq!(client.base_url(), "wss://feed.example");
}

#[test]
fn wrong_setup_reply_fails() {
    let mut client = Client::new("u".to_string(), "t".to_string());
    client.transport_opened();
    let err = client.setup_reply(&reply(Some("AUTH_STATE"))).unwrap_err();
    assert!(matches!(err, StreamError::HandshakeDecodeFailure(HandshakeStep::Setup)));
    assert_eq!(client.phase(), Phase::Failed);

    let mut client = Client::new("u".to_string(), "t".to_string());
    client.transport_opened();
    let err = client.setup_reply(&reply(None)).unwrap_err();
    assert!(matches!(err, StreamError::HandshakeDecodeFailure(HandshakeStep::Setup)));
}

#[test]
fn rejected_token_fails() {
    let mut client = Client::new("u".to_string(), "t".to_string());
    client.transport_opened();
    client.setup_reply(&reply(Some("SETUP"))).unwrap();
    let err = client.auth_reply(&auth("UNAUTHORIZED")).unwrap_err();
    assert!(matches!(err, StreamError::AuthenticationRejected));
    assert_eq!(client.phase(), Phase::Failed);

    let mut client = Client::new("u".to_string(), "t".to_string());
    client.transport_opened();
    client.setup_reply(&reply(Some("SETUP"))).unwrap();
    let err = client.auth_reply(&reply(Some("AUTH_STATE"))).unwrap_err();
    assert!(matches!(err, StreamError::HandshakeDecodeFailure(HandshakeStep::Auth)));
}

#[test]
fn bad_channel_reply_fails() {
    let mut client = authorized();
    client.request_channel().unwrap();
    let err = client.channel_reply(&reply(Some("CHANNEL_OPENED"))).unwrap_err();
    assert!(matches!(err, StreamError::HandshakeDecodeFailure(HandshakeStep::ChannelOpen)));
    assert_eq!(client.phase(), Phase::Failed);
}

#[test]
fn steps_out_of_order_are_refused() {
    let mut client = Client::new("u".to_string(), "t".to_string());
    assert!(matches!(
        client.setup_reply(&reply(Some("SETUP"))),
        Err(StreamError::OutOfOrder)
    ));
    assert!(matches!(client.auth_reply(&auth("AUTHORIZED")), Err(StreamError::OutOfOrder)));
    assert!(matches!(client.request_channel(), Err(StreamError::OutOfOrder)));
    assert_eq!(client.phase(), Phase::Disconnected);
    let mut client = authorized();
    assert!(matches!(
        client.add_subscription("Quote", &strings(&["bidPrice"]), &strings(&["SPY"])),
        Err(StreamError::OutOfOrder)
    ));
}

#[test]
fn operations_before_connect_are_refused() {
    let mut client = Client::new("u".to_string(), "t".to_string());
    assert!(matches!(
        client.add_subscription("Quote", &strings(&["bidPrice"]), &strings(&["SPY"])),
        Err(StreamError::ConnectionNotEstablished)
    ));
    assert!(matches!(
        client.poll_subscriptions(&vec![]),
        Err(StreamError::ConnectionNotEstablished)
    ));
}

#[test]
fn first_subscription_declares_fields() {
    let mut client = with_channel();
    let msgs = client
        .add_subscription("Quote", &strings(&["eventSymbol", "bidPrice"]), &strings(&["SPY", "QQQ"]))
        .unwrap();
    assert_eq!(
        msgs,
        vec![
            r#"{"type":"FEED_SETUP","channel":3,"acceptAggregationPeriod":10,"acceptDataFormat":"COMPACT","acceptEventFields":{"Quote":["eventSymbol","bidPrice"]}}"#.to_string(),
            r#"{"type":"FEED_SUBSCRIPTION","channel":3,"add":[{"type":"Quote","symbol":"SPY"},{"type":"Quote","symbol":"QQQ"}]}"#.to_string(),
        ]
    );
    let again = client
        .add_subscription("Quote", &strings(&["askPrice"]), &strings(&["IWM"]))
        .unwrap();
    assert_eq!(
        again,
        vec![r#"{"type":"FEED_SUBSCRIPTION","channel":3,"add":[{"type":"Quote","symbol":"IWM"}]}"#.to_string()]
    );
    assert_eq!(
        client.subscription_fields().fields("Quote").unwrap(),
        strings(&["eventSymbol", "bidPrice"])
    );
    assert_eq!(client.subscription_fields().field_index("Quote", "bidPrice"), Some(1));
    assert_eq!(client.subscription_fields().field_index("Quote", "askPrice"), None);
    assert_eq!(client.subscription_fields().field_index("Trade", "bidPrice"), None);
}

#[test]
fn subscription_batches_of_five_hundred() {
    let mut client = with_channel();
    let symbols: Vec<String> = (0..1200).map(|i| format!("S{}", i)).collect();
    let msgs = client
        .add_subscription("Trade", &strings(&["eventSymbol", "price"]), &symbols)
        .unwrap();
    assert_eq!(msgs.len(), 4);
    assert!(msgs[0].contains("FEED_SETUP"));
    let subs = &msgs[1..];
    let sizes: Vec<usize> = subs.iter().map(|m| m.matches("\"symbol\":").count()).collect();
    assert_eq!(sizes, vec![500, 500, 200]);
    for (k, m) in subs.iter().enumerate() {
        assert!(m.starts_with(r#"{"type":"FEED_SUBSCRIPTION","channel":3,"add":["#));
        let first = 500 * k;
        let last = (500 * (k + 1)).min(1200) - 1;
        assert!(m.contains(&format!("\"symbol\":\"S{}\"}}", first)));
        assert!(m.contains(&format!("\"symbol\":\"S{}\"}}", last)));
        if first > 0 {
            assert!(!m.contains(&format!("\"symbol\":\"S{}\"}}", first - 1)));
        }
        if last + 1 < 1200 {
            assert!(!m.contains(&format!("\"symbol\":\"S{}\"}}", last + 1)));
        }
    }
}

#[test]
fn no_symbols_send_no_subscription() {
    let mut client = with_channel();
    let msgs = client
        .add_subscription("Trade", &strings(&["price"]), &[])
        .unwrap();
    assert_eq!(msgs.len(), 1);
}

#[test]
fn empty_poll_sends_one_keepalive() {
    let client = with_channel();
    let poll = client.poll_subscriptions(&vec![]).unwrap();
    assert!(poll.data.is_empty());
    assert_eq!(poll.keepalive, r#"{"type":"KEEPALIVE","channel":0}"#);
}

#[test]
fn undeclared_event_type_is_an_error() {
    let mut client = with_channel();
    client
        .add_subscription("Quote", &strings(&["eventSymbol", "bidPrice"]), &strings(&["SPY"]))
        .unwrap();
    let msgs = vec![
        frame("Quote", vec![text("SPY"), number("1.5")]),
        frame("Trade", vec![text("SPY"), number("2")]),
    ];
    match client.poll_subscriptions(&msgs) {
        Err(StreamError::MissingSchema(name)) => assert_eq!(name, "Trade"),
        _ => panic!("expected a missing schema"),
    }
}

#[test]
fn poll_splits_frames_by_event_type() {
    let mut client = with_channel();
    client
        .add_subscription("Quote", &strings(&["eventSymbol", "bidPrice"]), &strings(&["SPY", "QQQ"]))
        .unwrap();
    client
        .add_subscription("Trade", &strings(&["eventSymbol", "price", "size"]), &strings(&["SPY"]))
        .unwrap();
    let msgs = vec![
        frame("Quote", vec![text("SPY"), number("410.25"), text("QQQ"), text("NaN")]),
        reply(Some("KEEPALIVE")),
        Incoming {
            message_type: Some("FEED_DATA".to_string()),
            state: None,
            channel: Some(3),
            data: Some(FeedFrame { event_type: None, values: Some(vec![]) }),
        },
        frame("Trade", vec![text("SPY"), number("410.5"), number("100")]),
        frame("Quote", vec![text("SPY"), number("410.3")]),
    ];
    let poll = client.poll_subscriptions(&msgs).unwrap();
    assert_eq!(poll.data.len(), 2);
    assert_eq!(poll.keepalive, r#"{"type":"KEEPALIVE","channel":0}"#);
    let quote = &poll.data[0];
    assert_eq!(quote.event_type(), "Quote");
    assert_eq!(quote.fields(), &strings(&["eventSymbol", "bidPrice"]));
    assert_eq!(quote.values().len(), 6);
    let prices: Vec<Option<i64>> = quote
        .iter_field("bidPrice")
        .unwrap()
        .iter()
        .map(|v| v.to_price().unwrap().map(|d| d.units()))
        .collect();
    assert_eq!(prices, vec![Some(4_102_500), None, Some(4_103_000)]);
    assert!(quote.iter_field("askPrice").is_none());
    let trade = &poll.data[1];
    assert_eq!(trade.event_type(), "Trade");
    let sizes = trade.iter_field("size").unwrap();
    assert_eq!(sizes.len(), 1);
    assert_eq!(sizes[0].to_price().unwrap().unwrap().to_string(), "100");
}

#[test]
fn price_of_values() {
    assert_eq!(number("17.55").to_price().unwrap().unwrap().units(), 175_500);
    assert!(text("NaN").to_price().unwrap().is_none());
    assert!(FeedValue::Null.to_price().unwrap().is_none());
    let e = number("1.000001").to_price().unwrap_err();
    assert_eq!(e.kind, DecimalErrorKind::Fraction);
    assert_eq!(e.text, "000001");
}

#[test]
fn disconnect_is_idempotent() {
    let mut client = with_channel();
    client.disconnect();
    client.disconnect();
    assert_eq!(client.phase(), Phase::Disconnected);
    assert_eq!(client.feed_channel(), None);
    assert!(!client.subscription_fields().contains("Quote"));
}
