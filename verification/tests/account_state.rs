use trading_terminal::account::{
    Account, Order, OrderFormError, OrderType, ValidatedOrder, is_terminal_status,
    retain_active_orders, validate_order_form,
};
use trading_terminal::stream::{AccountInfo, OrderUpdate};

fn update(id: &str, status: &str, qty: &str) -> OrderUpdate {
    OrderUpdate {
        id: id.to_string(),
        symbol: "AAPL".to_string(),
        side: "buy".to_string(),
        qty: qty.to_string(),
        order_type: "market".to_string(),
        limit_price: None,
        status: status.to_string(),
        created_at: "2024-01-01T09:30:00Z".to_string(),
        event: "fill".to_string(),
    }
}

#[test]
fn terminal_statuses_are_exactly_four() {
    assert!(is_terminal_status("filled"));
    assert!(is_terminal_status("canceled"));
    assert!(is_terminal_status("expired"));
    assert!(is_terminal_status("rejected"));
    assert!(!is_terminal_status("new"));
    assert!(!is_terminal_status("accepted"));
    assert!(!is_terminal_status("partially_filled"));
    assert!(!is_terminal_status("Filled"));
}

#[test]
fn new_order_is_appended() {
    let mut account = Account::new();
    account.update_order_from_stream(&update("ord-1", "new", "10"));
    assert_eq!(account.orders.len(), 1);
    assert_eq!(account.orders[0].id, "ord-1");
    assert_eq!(account.orders[0].status, "new");
}

#[test]
fn known_order_is_refreshed_in_place() {
    let mut account = Account::new();
    account.update_order_from_stream(&update("ord-1", "new", "10"));
    account.update_order_from_stream(&update("ord-2", "new", "5"));
    account.update_order_from_stream(&update("ord-1", "partially_filled", "4"));
    assert_eq!(account.orders.len(), 2);
    assert_eq!(account.orders[0].id, "ord-1");
    assert_eq!(account.orders[0].status, "partially_filled");
    assert_eq!(account.orders[0].qty, "4");
    assert_eq!(account.orders[1].id, "ord-2");
}

#[test]
fn terminal_update_removes_the_order() {
    let mut account = Account::new();
    account.update_order_from_stream(&update("ord-1", "new", "10"));
    account.update_order_from_stream(&update("ord-2", "new", "5"));
    account.update_order_from_stream(&update("ord-1", "filled", "10"));
    assert_eq!(account.orders.len(), 1);
    assert_eq!(account.orders[0].id, "ord-2");
}

#[test]
fn terminal_update_for_unknown_order_is_a_no_op() {
    let mut account = Account::new();
    account.update_order_from_stream(&update("ord-1", "new", "10"));
    account.update_order_from_stream(&update("ord-9", "canceled", "1"));
    assert_eq!(account.orders.len(), 1);
    assert_eq!(account.orders[0].id, "ord-1");
}

#[test]
fn terminal_update_never_adds_an_order() {
    let mut account = Account::new();
    account.update_order_from_stream(&update("ord-1", "rejected", "10"));
    assert_eq!(account.orders.len(), 0);
}

#[test]
fn account_snapshot_updates_parsed_fields_only() {
    let mut account = Account::new();
    account.cash = Some(10000);
    account.update_from_stream(&AccountInfo {
        buying_power: "25000.50".to_string(),
        cash: "not-a-number".to_string(),
        portfolio_value: "1000".to_string(),
    });
    assert_eq!(account.buying_power, Some(250005000));
    assert_eq!(account.cash, Some(10000), "an unparseable field keeps its previous value");
    assert_eq!(account.portfolio_value, Some(10000000));
    assert_eq!(account.equity, None);
}

fn plain_order(id: &str, status: &str) -> Order {
    Order {
        id: id.to_string(),
        symbol: "AAPL".to_string(),
        side: "Buy".to_string(),
        qty: "1".to_string(),
        order_type: "Market".to_string(),
        limit_price: None,
        status: status.to_string(),
        created_at: "2024-01-01 09:30".to_string(),
    }
}

#[test]
fn fetched_orders_are_filtered_to_active_ones() {
    let mut orders = vec![
        plain_order("a", "new"),
        plain_order("b", "filled"),
        plain_order("c", "accepted"),
        plain_order("d", "expired"),
        plain_order("e", "rejected"),
    ];
    retain_active_orders(&mut orders);
    assert_eq!(orders.len(), 2);
    assert_eq!(orders[0].id, "a");
    assert_eq!(orders[1].id, "c");
}

#[test]
fn empty_quantity_is_rejected() {
    assert_eq!(
        validate_order_form("", OrderType::Market, ""),
        Err(OrderFormError::EmptyQuantity)
    );
    assert_eq!(
        validate_order_form("   ", OrderType::Market, ""),
        Err(OrderFormError::EmptyQuantity)
    );
}

#[test]
fn bad_quantity_is_rejected() {
    assert_eq!(
        validate_order_form("ten", OrderType::Market, ""),
        Err(OrderFormError::InvalidQuantity)
    );
    assert_eq!(
        validate_order_form("0", OrderType::Market, ""),
        Err(OrderFormError::InvalidQuantity)
    );
    assert_eq!(
        validate_order_form("-5", OrderType::Market, ""),
        Err(OrderFormError::InvalidQuantity)
    );
}

#[test]
fn limit_orders_need_a_positive_limit_price() {
    assert_eq!(
        validate_order_form("10", OrderType::Limit, " "),
        Err(OrderFormError::MissingLimitPrice)
    );
    assert_eq!(
        validate_order_form("10", OrderType::Limit, "low"),
        Err(OrderFormError::InvalidLimitPrice)
    );
    assert_eq!(
        validate_order_form("10", OrderType::Limit, "0"),
        Err(OrderFormError::InvalidLimitPrice)
    );
    assert_eq!(
        validate_order_form("10", OrderType::Limit, "187.50"),
        Ok(ValidatedOrder { qty: 100000, limit_price: Some(1875000) })
    );
}

#[test]
fn market_orders_ignore_the_limit_field() {
    assert_eq!(
        validate_order_form("2.5", OrderType::Market, "garbage"),
        Ok(ValidatedOrder { qty: 25000, limit_price: None })
    );
}

#[test]
fn form_errors_render_their_messages() {
    assert_eq!(OrderFormError::EmptyQuantity.message(), "Error: Quantity cannot be empty");
    assert_eq!(OrderFormError::InvalidQuantity.message(), "Error: Invalid quantity");
    assert_eq!(
        OrderFormError::MissingLimitPrice.message(),
        "Error: Limit price required for limit orders"
    );
    assert_eq!(OrderFormError::InvalidLimitPrice.message(), "Error: Invalid limit price");
}
