use trading_terminal::stream::{
    BarWire, MarketDataEnvelope, OrderWire, StreamUpdate, TradeUpdateWire, TradingEnvelope,
    convert_trade_update, process_market_data_message, process_message,
};

fn order_wire(qty: Option<&str>) -> OrderWire {
    OrderWire {
        id: "ord-1".to_string(),
        symbol: "AAPL".to_string(),
        side: "buy".to_string(),
        qty: qty.map(|q| q.to_string()),
        filled_qty: "10".to_string(),
        order_type: "limit".to_string(),
        limit_price: Some("187.50".to_string()),
        status: "new".to_string(),
        created_at: "2024-01-01T09:30:00Z".to_string(),
    }
}

#[test]
fn control_envelopes_decode_to_nothing() {
    assert!(process_message(&TradingEnvelope::Listening).is_none());
    assert!(process_message(&TradingEnvelope::Connected).is_none());
    assert!(process_message(&TradingEnvelope::Authorization).is_none());
}

#[test]
fn unknown_envelope_decodes_to_nothing() {
    assert!(process_message(&TradingEnvelope::Unknown).is_none());
}

#[test]
fn error_envelope_composes_code_and_message() {
    let r = process_message(&TradingEnvelope::Error {
        code: "402".to_string(),
        msg: "auth failed".to_string(),
    });
    match r {
        Some(StreamUpdate::Error(m)) => assert_eq!(m, "[402] auth failed"),
        other => panic!("expected an error update, got {:?}", other),
    }
}

#[test]
fn trade_update_converts_field_by_field() {
    let envelope = TradingEnvelope::TradeUpdate(TradeUpdateWire {
        event: "fill".to_string(),
        order: order_wire(Some("25")),
    });
    match process_message(&envelope) {
        Some(StreamUpdate::TradeUpdate(o)) => {
            assert_eq!(o.id, "ord-1");
            assert_eq!(o.symbol, "AAPL");
            assert_eq!(o.side, "buy");
            assert_eq!(o.qty, "25");
            assert_eq!(o.order_type, "limit");
            assert_eq!(o.limit_price.as_deref(), Some("187.50"));
            assert_eq!(o.status, "new");
            assert_eq!(o.created_at, "2024-01-01T09:30:00Z");
            assert_eq!(o.event, "fill");
        },
        other => panic!("expected a trade update, got {:?}", other),
    }
}

#[test]
fn missing_working_qty_falls_back_to_filled() {
    let o = convert_trade_update(&TradeUpdateWire {
        event: "fill".to_string(),
        order: order_wire(None),
    });
    assert_eq!(o.qty, "10");
}

#[test]
fn account_update_moves_the_three_fields() {
    let r = process_message(&TradingEnvelope::AccountUpdate {
        buying_power: "50000".to_string(),
        cash: "25000.50".to_string(),
        total_portfolio_value: "75000".to_string(),
    });
    match r {
        Some(StreamUpdate::AccountUpdate(a)) => {
            assert_eq!(a.buying_power, "50000");
            assert_eq!(a.cash, "25000.50");
            assert_eq!(a.portfolio_value, "75000");
        },
        other => panic!("expected an account update, got {:?}", other),
    }
}

#[test]
fn bar_envelope_becomes_a_bar_update() {
    let r = process_market_data_message(&MarketDataEnvelope::Bar(BarWire {
        symbol: "AAPL".to_string(),
        timestamp: "2024-01-01T10:00:00Z".to_string(),
        open: "10".to_string(),
        high: "11".to_string(),
        low: "9".to_string(),
        close: "10.5".to_string(),
        volume: "100".to_string(),
        trade_count: 42,
        vwap: "10.2".to_string(),
    }));
    match r {
        Some(StreamUpdate::BarUpdate(b)) => {
            assert_eq!(b.symbol, "AAPL");
            assert_eq!(b.timestamp, "2024-01-01T10:00:00Z");
            assert_eq!(b.open, "10");
            assert_eq!(b.high, "11");
            assert_eq!(b.low, "9");
            assert_eq!(b.close, "10.5");
            assert_eq!(b.volume, "100");
            assert_eq!(b.trade_count, Some(42));
            assert_eq!(b.vwap.as_deref(), Some("10.2"));
        },
        other => panic!("expected a bar update, got {:?}", other),
    }
}

#[test]
fn unhandled_market_data_decodes_to_nothing() {
    assert!(process_market_data_message(&MarketDataEnvelope::Trade).is_none());
    assert!(process_market_data_message(&MarketDataEnvelope::Quote).is_none());
    assert!(process_market_data_message(&MarketDataEnvelope::Subscription).is_none());
}

#[test]
fn market_data_error_is_prefixed() {
    let r = process_market_data_message(&MarketDataEnvelope::Error("bad feed".to_string()));
    match r {
        Some(StreamUpdate::Error(m)) => assert_eq!(m, "Market Data Error: bad feed"),
        other => panic!("expected an error update, got {:?}", other),
    }
}
