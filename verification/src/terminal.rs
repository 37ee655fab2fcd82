//! Terminal state and the stream update dispatcher.
//!
//! The consumer side of the event bus: one drain loop receives
//! [`StreamUpdate`] values from both supervisors and applies them here, the
//! single writer of the chart, order and account state.

use crate::account::{
    Account, money_updated, orders_updated, same_but_money, same_but_orders,
};
use crate::chart::{Chart, FoldOutcome, chart_bars_post};
use crate::stream::StreamUpdate;
use vstd::prelude::*;

verus! {

/// The lowercase-to-uppercase mapping of a string, as std's Unicode case
/// mapping defines it. Known only through [`to_uppercase`].
pub uninterp spec fn upper_of(s: Seq<char>) -> Seq<char>;

/// Relies on str::to_uppercase: the Unicode uppercase mapping of the
/// string, a function of its characters alone.
#[verifier::external_body]
fn to_uppercase(s: &str) -> (r: String)
    ensures
        r@ == upper_of(s@),
{
    s.to_uppercase()
}

/// Whole terminal state, as the drain loop mutates it.
pub struct TradingTerminal {
    pub chart: Chart,
    pub account: Account,
    pub stream_connected: bool,
    pub stream_status: String,
}

impl TradingTerminal {
    pub open spec fn wf(self) -> bool {
        self.chart.wf()
    }

    pub fn new(symbol: String, timeframe: String) -> (t: Self)
        ensures
            t.wf(),
            t.chart.symbol@ == symbol@,
            t.chart.series.timeframe@ == timeframe@,
            t.chart.series.candles@.len() == 0,
            !t.stream_connected,
            t.stream_status@ == "Disconnected"@,
    {
        TradingTerminal {
            chart: Chart::new(symbol, timeframe),
            account: Account::new(),
            stream_connected: false,
            stream_status: String::from_str("Disconnected"),
        }
    }

    /// Appends typed text to the symbol input, if it has focus.
    pub fn handle_input(&mut self, text: &str)
        ensures
            final(self).chart.symbol_input@ == (if old(self).chart.input_focused {
                old(self).chart.symbol_input@ + text@
            } else {
                old(self).chart.symbol_input@
            }),
            final(self).chart == (Chart {
                symbol_input: final(self).chart.symbol_input,
                ..old(self).chart
            }),
            final(self).account == old(self).account,
            final(self).stream_connected == old(self).stream_connected,
            final(self).stream_status == old(self).stream_status,
    {
        if !self.chart.input_focused {
            return;
        }
        self.chart.symbol_input.append(text);
    }

    /// Removes the last character of the symbol input, if it has focus.
    pub fn handle_backspace(&mut self)
        ensures
            final(self).chart.symbol_input@ == (if old(self).chart.input_focused && old(self).chart.symbol_input@.len() > 0 {
                old(self).chart.symbol_input@.drop_last()
            } else {
                old(self).chart.symbol_input@
            }),
            final(self).chart == (Chart {
                symbol_input: final(self).chart.symbol_input,
                ..old(self).chart
            }),
            final(self).account == old(self).account,
            final(self).stream_connected == old(self).stream_connected,
            final(self).stream_status == old(self).stream_status,
    {
        if !self.chart.input_focused {
            return;
        }
        let n = self.chart.symbol_input.as_str().unicode_len();
        if n > 0 {
            let shorter = self.chart.symbol_input.as_str().substring_char(0, n - 1).to_owned();
            proof {
                assert(shorter@ =~= old(self).chart.symbol_input@.drop_last());
            }
            self.chart.symbol_input = shorter;
        }
    }

    /// Takes a non-empty symbol input as the new displayed symbol, in upper
    /// case, and drops input focus. Yields whether a fresh historical fetch
    /// (and a rebuilt series) is owed — a caller-side concern.
    pub fn submit_symbol(&mut self) -> (fetch: bool)
        ensures
            fetch == (old(self).chart.symbol_input@.len() > 0),
            fetch ==> final(self).chart.symbol@ == upper_of(old(self).chart.symbol_input@) && !final(self).chart.input_focused && final(self).chart == (Chart {
                symbol: final(self).chart.symbol,
                input_focused: false,
                ..old(self).chart
            }),
            !fetch ==> final(self).chart == old(self).chart,
            final(self).account == old(self).account,
            final(self).stream_connected == old(self).stream_connected,
            final(self).stream_status == old(self).stream_status,
    {
        if self.chart.symbol_input.as_str().unicode_len() == 0 {
            return false;
        }
        self.chart.symbol = to_uppercase(self.chart.symbol_input.as_str());
        self.chart.input_focused = false;
        true
    }

    /// Applies one stream update from the event bus: lifecycle updates set
    /// the status fields, order and account updates mutate the account, and
    /// a bar update is folded into the chart (yielding its fold outcome).
    pub fn handle_stream_update(&mut self, update: StreamUpdate) -> (r: Option<FoldOutcome>)
        requires
            old(self).wf(),
        ensures
            final(self).wf(),
            match update {
                StreamUpdate::Connected => {
                    &&& final(self).stream_connected
                    &&& final(self).stream_status@ == "Connected"@
                    &&& final(self).chart == old(self).chart
                    &&& final(self).account == old(self).account
                    &&& r is None
                },
                StreamUpdate::Disconnected => {
                    &&& !final(self).stream_connected
                    &&& final(self).stream_status@ == "Disconnected"@
                    &&& final(self).chart == old(self).chart
                    &&& final(self).account == old(self).account
                    &&& r is None
                },
                StreamUpdate::TradeUpdate(u) => {
                    &&& same_but_orders(final(self).account, old(self).account)
                    &&& orders_updated(old(self).account.orders@, final(self).account.orders@, u)
                    &&& final(self).chart == old(self).chart
                    &&& final(self).stream_connected == old(self).stream_connected
                    &&& final(self).stream_status == old(self).stream_status
                    &&& r is None
                },
                StreamUpdate::AccountUpdate(a) => {
                    &&& same_but_money(final(self).account, old(self).account)
                    &&& money_updated(old(self).account, final(self).account, a)
                    &&& final(self).chart == old(self).chart
                    &&& final(self).stream_connected == old(self).stream_connected
                    &&& final(self).stream_status == old(self).stream_status
                    &&& r is None
                },
                StreamUpdate::BarUpdate(b) => {
                    &&& r matches Some(outcome) && chart_bars_post(
                        old(self).chart,
                        final(self).chart,
                        b,
                        outcome,
                    )
                    &&& final(self).account == old(self).account
                    &&& final(self).stream_connected == old(self).stream_connected
                    &&& final(self).stream_status == old(self).stream_status
                },
                StreamUpdate::MarketDataConnected => {
                    &&& final(self).chart == (Chart {
                        market_data_connected: true,
                        ..old(self).chart
                    })
                    &&& final(self).account == old(self).account
                    &&& final(self).stream_connected == old(self).stream_connected
                    &&& final(self).stream_status == old(self).stream_status
                    &&& r is None
                },
                StreamUpdate::MarketDataDisconnected => {
                    &&& final(self).chart == (Chart {
                        market_data_connected: false,
                        ..old(self).chart
                    })
                    &&& final(self).account == old(self).account
                    &&& final(self).stream_connected == old(self).stream_connected
                    &&& final(self).stream_status == old(self).stream_status
                    &&& r is None
                },
                StreamUpdate::Error(e) => {
                    &&& final(self).stream_status@ == "Error: "@ + e@
                    &&& final(self).stream_connected == old(self).stream_connected
                    &&& final(self).chart == old(self).chart
                    &&& final(self).account == old(self).account
                    &&& r is None
                },
            },
    {
        match update {
            StreamUpdate::Connected => {
                self.stream_connected = true;
                self.stream_status = String::from_str("Connected");
                None
            },
            StreamUpdate::Disconnected => {
                self.stream_connected = false;
                self.stream_status = String::from_str("Disconnected");
                None
            },
            StreamUpdate::TradeUpdate(order_update) => {
                self.account.update_order_from_stream(&order_update);
                None
            },
            StreamUpdate::AccountUpdate(account_info) => {
                self.account.update_from_stream(&account_info);
                None
            },
            StreamUpdate::BarUpdate(bar_update) => {
                let outcome = self.chart.update_bars_from_stream(&bar_update);
                Some(outcome)
            },
            StreamUpdate::MarketDataConnected => {
                self.chart.market_data_connected = true;
                None
            },
            StreamUpdate::MarketDataDisconnected => {
                self.chart.market_data_connected = false;
                None
            },
            StreamUpdate::Error(error) => {
                let mut m = String::from_str("Error: ");
                m.append(error.as_str());
                self.stream_status = m;
                None
            },
        }
    }
}

} // verus!
