//! Account state: balances, positions and the active order list.
//!
//! Order updates from the trading stream drive the order list: an update in
//! a terminal lifecycle state removes the order; otherwise the update
//! replaces the matching order, or is appended as a new one. Account
//! snapshots are partial: a money field that fails to parse is left at its
//! previous value rather than defaulted.

use crate::decimal::{parse_price, spec_parse_price};
use crate::stream::{AccountInfo, OrderUpdate};
use crate::timeframe::str_eq;
use vstd::prelude::*;

verus! {

/// Position information.
#[derive(Clone, Debug)]
pub struct Position {
    pub symbol: String,
    pub qty: String,
    pub avg_entry_price: String,
    pub current_price: String,
    pub market_value: String,
    pub unrealized_pl: String,
    pub unrealized_plpc: String,
}

/// Order information.
#[derive(Clone, Debug)]
pub struct Order {
    pub id: String,
    pub symbol: String,
    pub side: String,
    pub qty: String,
    pub order_type: String,
    pub limit_price: Option<String>,
    pub status: String,
    pub created_at: String,
}

/// Footer tab selection.
#[derive(Clone, Copy, PartialEq, Eq, Structural, Debug)]
pub enum FooterTab {
    Account,
    Positions,
    Orders,
}

/// Side of an order to submit.
#[derive(Clone, Copy, PartialEq, Eq, Structural, Debug)]
pub enum OrderSide {
    Buy,
    Sell,
}

/// Kind of an order to submit.
#[derive(Clone, Copy, PartialEq, Eq, Structural, Debug)]
pub enum OrderType {
    Market,
    Limit,
}

/// How long a submitted order stays working.
#[derive(Clone, Copy, PartialEq, Eq, Structural, Debug)]
pub enum TimeInForce {
    Day,
    Gtc,
}

/// An order lifecycle status after which the order leaves the active list.
pub open spec fn spec_is_terminal_status(s: Seq<char>) -> bool {
    s == "filled"@ || s == "canceled"@ || s == "expired"@ || s == "rejected"@
}

/// Classifies an order lifecycle status string as terminal: such an order is
/// removed from the active list rather than kept or updated.
pub fn is_terminal_status(status: &str) -> (r: bool)
    ensures
        r == spec_is_terminal_status(status@),
{
    str_eq(status, "filled") || str_eq(status, "canceled") || str_eq(status, "expired") || str_eq(
        status,
        "rejected",
    )
}

/// Index of the first order with the given id, if one is listed.
pub open spec fn spec_find_order(s: Seq<Order>, id: Seq<char>) -> Option<int>
    decreases s.len(),
{
    if s.len() == 0 {
        None
    } else if s[0].id@ == id {
        Some(0)
    } else {
        match spec_find_order(s.drop_first(), id) {
            Some(i) => Some(i + 1),
            None => None,
        }
    }
}

/// `spec_find_order` yields exactly the first matching index.
proof fn lemma_find_order_at(s: Seq<Order>, id: Seq<char>, i: int)
    requires
        0 <= i <= s.len(),
        forall|j: int| 0 <= j < i ==> (#[trigger] s[j]).id@ != id,
        i == s.len() || s[i].id@ == id,
    ensures
        spec_find_order(s, id) == if i == s.len() {
            None::<int>
        } else {
            Some(i)
        },
    decreases s.len(),
{
    if s.len() == 0 {
    } else if s[0].id@ == id {
        assert(i == 0);
    } else {
        assert(i > 0);
        let t = s.drop_first();
        assert(forall|j: int| 0 <= j < i - 1 ==> t[j] == #[trigger] s[j + 1]);
        assert(i - 1 == t.len() || t[i - 1].id@ == id);
        lemma_find_order_at(t, id, i - 1);
    }
}

/// Finds the first listed order with the given id.
pub fn find_order(orders: &Vec<Order>, id: &String) -> (r: Option<usize>)
    ensures
        r matches Some(i) ==> i < orders@.len() && spec_find_order(orders@, id@) == Some(i as int),
        r is None ==> spec_find_order(orders@, id@) is None,
{
    let n = orders.len();
    let mut i: usize = 0;
    while i < n
        invariant
            i <= n == orders@.len(),
            forall|j: int| 0 <= j < i ==> (#[trigger] orders@[j]).id@ != id@,
        decreases n - i,
    {
        if str_eq(orders[i].id.as_str(), id.as_str()) {
            proof {
                lemma_find_order_at(orders@, id@, i as int);
            }
            return Some(i);
        }
        i = i + 1;
    }
    proof {
        lemma_find_order_at(orders@, id@, n as int);
    }
    None
}

/// The listed order `o` carries the fields of the update `u`; the stored id
/// is `e`'s (updates are matched by id, so it equals `u`'s in content).
pub open spec fn is_refreshed_order(o: Order, e: Order, u: OrderUpdate) -> bool {
    &&& o.id == e.id
    &&& o.symbol == u.symbol
    &&& o.side == u.side
    &&& o.qty == u.qty
    &&& o.order_type == u.order_type
    &&& o.limit_price == u.limit_price
    &&& o.status == u.status
    &&& o.created_at == u.created_at
}

/// The listed order `o` is freshly built from the update `u`.
pub open spec fn is_order_from_update(o: Order, u: OrderUpdate) -> bool {
    &&& o.id == u.id
    &&& o.symbol == u.symbol
    &&& o.side == u.side
    &&& o.qty == u.qty
    &&& o.order_type == u.order_type
    &&& o.limit_price == u.limit_price
    &&& o.status == u.status
    &&& o.created_at == u.created_at
}

/// How one stream order update changes the active order list: a terminal
/// status removes the first matching order (or does nothing when none is
/// listed); any other status replaces the matching order's fields, or
/// appends the order as new when none matches.
pub open spec fn orders_updated(s_old: Seq<Order>, s_new: Seq<Order>, u: OrderUpdate) -> bool {
    if spec_is_terminal_status(u.status@) {
        match spec_find_order(s_old, u.id@) {
            Some(i) => s_new == s_old.remove(i),
            None => s_new == s_old,
        }
    } else {
        match spec_find_order(s_old, u.id@) {
            Some(i) => {
                &&& s_new == s_old.update(i, s_new[i])
                &&& is_refreshed_order(s_new[i], s_old[i], u)
            },
            None => {
                &&& s_new == s_old.push(s_new.last())
                &&& is_order_from_update(s_new.last(), u)
            },
        }
    }
}

/// Account state: balances, positions, active orders, and the order form.
pub struct Account {
    pub account_number: Option<String>,
    pub account_status: Option<String>,
    /// Money fields are fixed-point values scaled by
    /// [`crate::decimal::PRICE_SCALE`]; unset until a snapshot parses.
    pub buying_power: Option<i64>,
    pub cash: Option<i64>,
    pub portfolio_value: Option<i64>,
    pub equity: Option<i64>,
    pub account_loading: bool,
    pub positions: Vec<Position>,
    pub positions_loading: bool,
    pub orders: Vec<Order>,
    pub orders_loading: bool,
    pub active_footer_tab: FooterTab,
    pub order_side: OrderSide,
    pub order_type: OrderType,
    pub order_quantity: String,
    pub order_limit_price: String,
    pub order_time_in_force: TimeInForce,
    pub order_submitting: bool,
    pub order_message: Option<String>,
    pub quantity_focused: bool,
    pub price_focused: bool,
}

/// The two accounts agree on everything but the active order list.
pub open spec fn same_but_orders(a: Account, b: Account) -> bool {
    &&& a.account_number == b.account_number
    &&& a.account_status == b.account_status
    &&& a.buying_power == b.buying_power
    &&& a.cash == b.cash
    &&& a.portfolio_value == b.portfolio_value
    &&& a.equity == b.equity
    &&& a.account_loading == b.account_loading
    &&& a.positions == b.positions
    &&& a.positions_loading == b.positions_loading
    &&& a.orders_loading == b.orders_loading
    &&& a.active_footer_tab == b.active_footer_tab
    &&& a.order_side == b.order_side
    &&& a.order_type == b.order_type
    &&& a.order_quantity == b.order_quantity
    &&& a.order_limit_price == b.order_limit_price
    &&& a.order_time_in_force == b.order_time_in_force
    &&& a.order_submitting == b.order_submitting
    &&& a.order_message == b.order_message
    &&& a.quantity_focused == b.quantity_focused
    &&& a.price_focused == b.price_focused
}

/// The two accounts agree on everything but the four money fields.
pub open spec fn same_but_money(a: Account, b: Account) -> bool {
    &&& a.account_number == b.account_number
    &&& a.account_status == b.account_status
    &&& a.equity == b.equity
    &&& a.account_loading == b.account_loading
    &&& a.positions == b.positions
    &&& a.positions_loading == b.positions_loading
    &&& a.orders == b.orders
    &&& a.orders_loading == b.orders_loading
    &&& a.active_footer_tab == b.active_footer_tab
    &&& a.order_side == b.order_side
    &&& a.order_type == b.order_type
    &&& a.order_quantity == b.order_quantity
    &&& a.order_limit_price == b.order_limit_price
    &&& a.order_time_in_force == b.order_time_in_force
    &&& a.order_submitting == b.order_submitting
    &&& a.order_message == b.order_message
    &&& a.quantity_focused == b.quantity_focused
    &&& a.price_focused == b.price_focused
}

/// How one account snapshot changes the money fields: each field takes its
/// parsed value, or keeps its previous one when its string fails to parse.
pub open spec fn money_updated(a_old: Account, a_new: Account, info: AccountInfo) -> bool {
    &&& a_new.buying_power == (match spec_parse_price(info.buying_power@) {
        Some(v) => Some(v),
        None => a_old.buying_power,
    })
    &&& a_new.cash == (match spec_parse_price(info.cash@) {
        Some(v) => Some(v),
        None => a_old.cash,
    })
    &&& a_new.portfolio_value == (match spec_parse_price(info.portfolio_value@) {
        Some(v) => Some(v),
        None => a_old.portfolio_value,
    })
}

impl Account {
    pub fn new() -> (a: Self)
        ensures
            a.account_number is None,
            a.account_status is None,
            a.buying_power is None,
            a.cash is None,
            a.portfolio_value is None,
            a.equity is None,
            a.account_loading,
            a.positions@.len() == 0,
            a.positions_loading,
            a.orders@.len() == 0,
            a.orders_loading,
            a.active_footer_tab == FooterTab::Account,
            a.order_side == OrderSide::Buy,
            a.order_type == OrderType::Market,
            a.order_quantity@.len() == 0,
            a.order_limit_price@.len() == 0,
            a.order_time_in_force == TimeInForce::Day,
            !a.order_submitting,
            a.order_message is None,
            !a.quantity_focused,
            !a.price_focused,
    {
        Account {
            account_number: None,
            account_status: None,
            buying_power: None,
            cash: None,
            portfolio_value: None,
            equity: None,
            account_loading: true,
            positions: Vec::new(),
            positions_loading: true,
            orders: Vec::new(),
            orders_loading: true,
            active_footer_tab: FooterTab::Account,
            order_side: OrderSide::Buy,
            order_type: OrderType::Market,
            order_quantity: String::new(),
            order_limit_price: String::new(),
            order_time_in_force: TimeInForce::Day,
            order_submitting: false,
            order_message: None,
            quantity_focused: false,
            price_focused: false,
        }
    }

    /// Updates the money fields from a stream account snapshot. Partial
    /// snapshots are legal: a field that fails to parse keeps its previous
    /// value rather than being defaulted to zero.
    pub fn update_from_stream(&mut self, account_info: &AccountInfo)
        ensures
            same_but_money(*final(self), *old(self)),
            money_updated(*old(self), *final(self), *account_info),
    {
        if let Some(v) = parse_price(account_info.buying_power.as_str()) {
            self.buying_power = Some(v);
        }
        if let Some(v) = parse_price(account_info.cash.as_str()) {
            self.cash = Some(v);
        }
        if let Some(v) = parse_price(account_info.portfolio_value.as_str()) {
            self.portfolio_value = Some(v);
        }
    }

    /// Applies one order update from the trading stream to the active order
    /// list: remove on a terminal status, else refresh in place or append.
    pub fn update_order_from_stream(&mut self, order_update: &OrderUpdate)
        ensures
            same_but_orders(*final(self), *old(self)),
            orders_updated(old(self).orders@, final(self).orders@, *order_update),
    {
        if is_terminal_status(order_update.status.as_str()) {
            if let Some(pos) = find_order(&self.orders, &order_update.id) {
                self.orders.remove(pos);
            }
            return;
        }
        match find_order(&self.orders, &order_update.id) {
            Some(pos) => {
                let refreshed = Order {
                    id: self.orders[pos].id.clone(),
                    symbol: order_update.symbol.clone(),
                    side: order_update.side.clone(),
                    qty: order_update.qty.clone(),
                    order_type: order_update.order_type.clone(),
                    limit_price: order_update.limit_price.clone(),
                    status: order_update.status.clone(),
                    created_at: order_update.created_at.clone(),
                };
                self.orders.set(pos, refreshed);
            },
            None => {
                let new_order = Order {
                    id: order_update.id.clone(),
                    symbol: order_update.symbol.clone(),
                    side: order_update.side.clone(),
                    qty: order_update.qty.clone(),
                    order_type: order_update.order_type.clone(),
                    limit_price: order_update.limit_price.clone(),
                    status: order_update.status.clone(),
                    created_at: order_update.created_at.clone(),
                };
                self.orders.push(new_order);
            },
        }
    }
}

/// The orders of `s` that are not in a terminal lifecycle state.
pub open spec fn spec_active_orders(s: Seq<Order>) -> Seq<Order> {
    s.filter(|o: Order| !spec_is_terminal_status(o.status@))
}

/// Drops every terminal-state order from a freshly fetched list, keeping
/// the relative order of the rest.
pub fn retain_active_orders(orders: &mut Vec<Order>)
    ensures
        final(orders)@ == spec_active_orders(old(orders)@),
{
    let ghost s = orders@;
    let n = orders.len();
    let mut kept: Vec<Order> = Vec::new();
    let mut i: usize = 0;
    proof {
        reveal_with_fuel(Seq::filter, 1);
        assert(s.subrange(0, 0) =~= Seq::<Order>::empty());
        assert(Seq::<Order>::empty().filter(|o: Order| !spec_is_terminal_status(o.status@))
            =~= Seq::<Order>::empty());
    }
    while i < n
        invariant
            i <= n == s.len(),
            s == orders@,
            kept@ == s.subrange(0, i as int).filter(
                |o: Order| !spec_is_terminal_status(o.status@),
            ),
        decreases n - i,
    {
        let ghost pre = s.subrange(0, i as int);
        let keep = !is_terminal_status(orders[i].status.as_str());
        proof {
            reveal_with_fuel(Seq::filter, 2);
            let post = s.subrange(0, i + 1);
            assert(post.drop_last() =~= pre);
            assert(post.last() == s[i as int]);
        }
        if keep {
            let o = Order {
                id: orders[i].id.clone(),
                symbol: orders[i].symbol.clone(),
                side: orders[i].side.clone(),
                qty: orders[i].qty.clone(),
                order_type: orders[i].order_type.clone(),
                limit_price: orders[i].limit_price.clone(),
                status: orders[i].status.clone(),
                created_at: orders[i].created_at.clone(),
            };
            proof {
                assert(o == s[i as int]);
            }
            kept.push(o);
        }
        i = i + 1;
    }
    proof {
        assert(s.subrange(0, n as int) =~= s);
    }
    *orders = kept;
}

/// A whitespace character of the order form.
pub open spec fn is_blank_char(c: char) -> bool {
    c == ' ' || c == '\t' || c == '\n' || c == '\r'
}

/// A string that is empty or all whitespace.
pub open spec fn spec_is_blank(s: Seq<char>) -> bool {
    forall|i: int| 0 <= i < s.len() ==> is_blank_char(#[trigger] s[i])
}

/// Tests a form field for being empty or all whitespace.
pub fn is_blank(s: &str) -> (r: bool)
    ensures
        r == spec_is_blank(s@),
{
    let n = s.unicode_len();
    let mut i: usize = 0;
    while i < n
        invariant
            i <= n == s@.len(),
            forall|j: int| 0 <= j < i ==> is_blank_char(#[trigger] s@[j]),
        decreases n - i,
    {
        let c = s.get_char(i);
        if !(c == ' ' || c == '\t' || c == '\n' || c == '\r') {
            return false;
        }
        i = i + 1;
    }
    true
}

/// Why an order form was rejected.
#[derive(Clone, Copy, PartialEq, Eq, Structural, Debug)]
pub enum OrderFormError {
    EmptyQuantity,
    InvalidQuantity,
    MissingLimitPrice,
    InvalidLimitPrice,
}

impl OrderFormError {
    /// The message shown for this rejection.
    pub open spec fn spec_message(self) -> Seq<char> {
        match self {
            OrderFormError::EmptyQuantity => "Error: Quantity cannot be empty"@,
            OrderFormError::InvalidQuantity => "Error: Invalid quantity"@,
            OrderFormError::MissingLimitPrice => "Error: Limit price required for limit orders"@,
            OrderFormError::InvalidLimitPrice => "Error: Invalid limit price"@,
        }
    }

    pub fn message(&self) -> (m: String)
        ensures
            m@ == self.spec_message(),
    {
        match self {
            OrderFormError::EmptyQuantity => String::from_str("Error: Quantity cannot be empty"),
            OrderFormError::InvalidQuantity => String::from_str("Error: Invalid quantity"),
            OrderFormError::MissingLimitPrice => String::from_str(
                "Error: Limit price required for limit orders",
            ),
            OrderFormError::InvalidLimitPrice => String::from_str("Error: Invalid limit price"),
        }
    }
}

/// A validated order form: a positive quantity and, for limit orders, a
/// positive limit price, both as fixed-point values.
#[derive(Clone, Copy, PartialEq, Eq, Structural, Debug)]
pub struct ValidatedOrder {
    pub qty: i64,
    pub limit_price: Option<i64>,
}

/// Validation of the order form fields: the quantity must be a positive
/// decimal; a limit order also needs a positive limit price; a market order
/// ignores the limit price field.
pub open spec fn spec_validate_order_form(
    qty_s: Seq<char>,
    order_type: OrderType,
    limit_s: Seq<char>,
) -> Result<ValidatedOrder, OrderFormError> {
    if spec_is_blank(qty_s) {
        Err(OrderFormError::EmptyQuantity)
    } else {
        match spec_parse_price(qty_s) {
            Some(q) => if q <= 0 {
                Err(OrderFormError::InvalidQuantity)
            } else if order_type == OrderType::Limit {
                if spec_is_blank(limit_s) {
                    Err(OrderFormError::MissingLimitPrice)
                } else {
                    match spec_parse_price(limit_s) {
                        Some(p) => if p <= 0 {
                            Err(OrderFormError::InvalidLimitPrice)
                        } else {
                            Ok(ValidatedOrder { qty: q, limit_price: Some(p) })
                        },
                        None => Err(OrderFormError::InvalidLimitPrice),
                    }
                }
            } else {
                Ok(ValidatedOrder { qty: q, limit_price: None })
            },
            None => Err(OrderFormError::InvalidQuantity),
        }
    }
}

/// Validates the order form before submission.
pub fn validate_order_form(
    order_quantity: &str,
    order_type: OrderType,
    order_limit_price: &str,
) -> (r: Result<ValidatedOrder, OrderFormError>)
    ensures
        r == spec_validate_order_form(order_quantity@, order_type, order_limit_price@),
{
    if is_blank(order_quantity) {
        return Err(OrderFormError::EmptyQuantity);
    }
    let qty = match parse_price(order_quantity) {
        Some(q) => q,
        None => {
            return Err(OrderFormError::InvalidQuantity);
        },
    };
    if qty <= 0 {
        return Err(OrderFormError::InvalidQuantity);
    }
    if matches!(order_type, OrderType::Limit) {
        if is_blank(order_limit_price) {
            return Err(OrderFormError::MissingLimitPrice);
        }
        let price = match parse_price(order_limit_price) {
            Some(p) => p,
            None => {
                return Err(OrderFormError::InvalidLimitPrice);
            },
        };
        if price <= 0 {
            return Err(OrderFormError::InvalidLimitPrice);
        }
        Ok(ValidatedOrder { qty, limit_price: Some(price) })
    } else {
        Ok(ValidatedOrder { qty, limit_price: None })
    }
}

} // verus!
