//! Stream update vocabulary and the wire message decoders.
//!
//! Each of the two streaming connections hands the application decoded
//! envelopes; the decoders below turn an envelope into at most one
//! [`StreamUpdate`]. Control frames, subscription acks, handshake
//! confirmations and unknown envelopes carry nothing for the consumer and
//! decode to `None`; a wire error envelope decodes to [`StreamUpdate::Error`]
//! without ending the stream.

use vstd::prelude::*;

verus! {

/// Message types that can be sent from the stream workers to the consumer.
#[derive(Clone, Debug)]
pub enum StreamUpdate {
    Connected,
    Disconnected,
    TradeUpdate(OrderUpdate),
    AccountUpdate(AccountInfo),
    BarUpdate(BarUpdate),
    MarketDataConnected,
    MarketDataDisconnected,
    Error(String),
}

/// Order update information from trade events.
#[derive(Clone, Debug)]
pub struct OrderUpdate {
    pub id: String,
    pub symbol: String,
    pub side: String,
    pub qty: String,
    pub order_type: String,
    pub limit_price: Option<String>,
    pub status: String,
    pub created_at: String,
    pub event: String,
}

/// Account information from account updates.
#[derive(Clone, Debug)]
pub struct AccountInfo {
    pub buying_power: String,
    pub cash: String,
    pub portfolio_value: String,
}

/// Bar update information from the market data stream.
#[derive(Clone, Debug)]
pub struct BarUpdate {
    pub symbol: String,
    pub timestamp: String,
    pub open: String,
    pub high: String,
    pub low: String,
    pub close: String,
    pub volume: String,
    pub trade_count: Option<u64>,
    pub vwap: Option<String>,
}

/// The order carried by a trading-stream trade update, as plain values.
#[derive(Clone, Debug)]
pub struct OrderWire {
    pub id: String,
    pub symbol: String,
    pub side: String,
    /// Working quantity; cleared on fully-filled terminal events.
    pub qty: Option<String>,
    pub filled_qty: String,
    pub order_type: String,
    pub limit_price: Option<String>,
    pub status: String,
    /// Creation timestamp, already rendered as RFC3339.
    pub created_at: String,
}

/// One trade update of the trading stream, as plain values.
#[derive(Clone, Debug)]
pub struct TradeUpdateWire {
    /// Name of the originating lifecycle event.
    pub event: String,
    pub order: OrderWire,
}

/// One decoded envelope of the trading stream, holding the fields the
/// decoder reads.
#[derive(Clone, Debug)]
pub enum TradingEnvelope {
    TradeUpdate(TradeUpdateWire),
    AccountUpdate { buying_power: String, cash: String, total_portfolio_value: String },
    /// Subscription ack.
    Listening,
    /// Connection handshake confirmation.
    Connected,
    /// Auth handshake confirmation.
    Authorization,
    /// Wire-level error envelope with the provider's code and message.
    Error { code: String, msg: String },
    /// An envelope shape the decoder does not know.
    Unknown,
}

/// One bar tick of the market data stream, as plain values.
#[derive(Clone, Debug)]
pub struct BarWire {
    pub symbol: String,
    /// Tick timestamp, already rendered as RFC3339.
    pub timestamp: String,
    pub open: String,
    pub high: String,
    pub low: String,
    pub close: String,
    pub volume: String,
    pub trade_count: u64,
    pub vwap: String,
}

/// One decoded envelope of the market data stream.
#[derive(Clone, Debug)]
pub enum MarketDataEnvelope {
    Bar(BarWire),
    /// Trade ticks are not handled.
    Trade,
    /// Quote ticks are not handled.
    Quote,
    /// Subscription confirmation.
    Subscription,
    /// Wire-level error envelope, already rendered as text.
    Error(String),
}

/// The [`OrderUpdate`] `o` is the field-by-field conversion of `t`, with the
/// quantity taken from the working quantity and falling back to the filled
/// quantity when the former is absent.
pub open spec fn is_converted_trade(o: OrderUpdate, t: TradeUpdateWire) -> bool {
    &&& o.id@ == t.order.id@
    &&& o.symbol@ == t.order.symbol@
    &&& o.side@ == t.order.side@
    &&& (match t.order.qty {
        Some(q) => o.qty@ == q@,
        None => o.qty@ == t.order.filled_qty@,
    })
    &&& o.order_type@ == t.order.order_type@
    &&& (o.limit_price is Some <==> t.order.limit_price is Some)
    &&& (t.order.limit_price matches Some(p) ==> o.limit_price->0@ == p@)
    &&& o.status@ == t.order.status@
    &&& o.created_at@ == t.order.created_at@
    &&& o.event@ == t.event@
}

/// Converts a trade update to an [`OrderUpdate`].
pub fn convert_trade_update(trade: &TradeUpdateWire) -> (o: OrderUpdate)
    ensures
        is_converted_trade(o, *trade),
{
    let qty = match &trade.order.qty {
        Some(q) => q.clone(),
        None => trade.order.filled_qty.clone(),
    };
    OrderUpdate {
        id: trade.order.id.clone(),
        symbol: trade.order.symbol.clone(),
        side: trade.order.side.clone(),
        qty,
        order_type: trade.order.order_type.clone(),
        limit_price: trade.order.limit_price.clone(),
        status: trade.order.status.clone(),
        created_at: trade.order.created_at.clone(),
        event: trade.event.clone(),
    }
}

/// Processes one trading-stream envelope into at most one [`StreamUpdate`].
/// Decoding is total: an unknown or control envelope yields `None`, never an
/// error, and a wire error envelope yields [`StreamUpdate::Error`] carrying
/// `[code] msg`.
pub fn process_message(message: &TradingEnvelope) -> (r: Option<StreamUpdate>)
    ensures
        r is None <==> (message matches TradingEnvelope::Listening || message
            matches TradingEnvelope::Connected || message matches TradingEnvelope::Authorization
            || message matches TradingEnvelope::Unknown),
        message matches TradingEnvelope::TradeUpdate(t) ==> r matches Some(u) && u matches
            StreamUpdate::TradeUpdate(o) && is_converted_trade(o, *t),
        message matches TradingEnvelope::AccountUpdate {
            buying_power,
            cash,
            total_portfolio_value,
        } ==> r matches Some(u) && u matches StreamUpdate::AccountUpdate(a) && a.buying_power@
            == buying_power@ && a.cash@ == cash@ && a.portfolio_value@
            == total_portfolio_value@,
        message matches TradingEnvelope::Error { code, msg } ==> r matches Some(u) && u matches
            StreamUpdate::Error(m) && m@ == "["@ + code@ + "] "@ + msg@,
{
    match message {
        TradingEnvelope::TradeUpdate(trade) => Some(
            StreamUpdate::TradeUpdate(convert_trade_update(trade)),
        ),
        TradingEnvelope::AccountUpdate { buying_power, cash, total_portfolio_value } => Some(
            StreamUpdate::AccountUpdate(
                AccountInfo {
                    buying_power: buying_power.clone(),
                    cash: cash.clone(),
                    portfolio_value: total_portfolio_value.clone(),
                },
            ),
        ),
        TradingEnvelope::Listening => None,
        TradingEnvelope::Connected => None,
        TradingEnvelope::Authorization => None,
        TradingEnvelope::Error { code, msg } => {
            let mut m = String::from_str("[");
            m.append(code.as_str());
            m.append("] ");
            m.append(msg.as_str());
            Some(StreamUpdate::Error(m))
        },
        TradingEnvelope::Unknown => None,
    }
}

/// The [`BarUpdate`] `u` carries the fields of the bar tick `b`, with the
/// optional accumulators always present on the wire.
pub open spec fn is_converted_bar(u: BarUpdate, b: BarWire) -> bool {
    &&& u.symbol@ == b.symbol@
    &&& u.timestamp@ == b.timestamp@
    &&& u.open@ == b.open@
    &&& u.high@ == b.high@
    &&& u.low@ == b.low@
    &&& u.close@ == b.close@
    &&& u.volume@ == b.volume@
    &&& u.trade_count == Some(b.trade_count)
    &&& u.vwap matches Some(v) && v@ == b.vwap@
}

/// Processes one market-data envelope into at most one [`StreamUpdate`].
/// Decoding is total: trade and quote ticks and subscription confirmations
/// yield `None`; an error envelope yields [`StreamUpdate::Error`].
pub fn process_market_data_message(message: &MarketDataEnvelope) -> (r: Option<StreamUpdate>)
    ensures
        r is None <==> (message matches MarketDataEnvelope::Trade || message
            matches MarketDataEnvelope::Quote || message matches MarketDataEnvelope::Subscription),
        message matches MarketDataEnvelope::Bar(b) ==> r matches Some(u) && u matches
            StreamUpdate::BarUpdate(bu) && is_converted_bar(bu, *b),
        message matches MarketDataEnvelope::Error(e) ==> r matches Some(u) && u matches
            StreamUpdate::Error(m) && m@ == "Market Data Error: "@ + e@,
{
    match message {
        MarketDataEnvelope::Bar(bar) => Some(
            StreamUpdate::BarUpdate(
                BarUpdate {
                    symbol: bar.symbol.clone(),
                    timestamp: bar.timestamp.clone(),
                    open: bar.open.clone(),
                    high: bar.high.clone(),
                    low: bar.low.clone(),
                    close: bar.close.clone(),
                    volume: bar.volume.clone(),
                    trade_count: Some(bar.trade_count),
                    vwap: Some(bar.vwap.clone()),
                },
            ),
        ),
        MarketDataEnvelope::Trade => None,
        MarketDataEnvelope::Quote => None,
        MarketDataEnvelope::Subscription => None,
        MarketDataEnvelope::Error(error) => {
            let mut m = String::from_str("Market Data Error: ");
            m.append(error.as_str());
            Some(StreamUpdate::Error(m))
        },
    }
}

} // verus!
