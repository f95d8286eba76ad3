use ticket_sales::error::TicketError;
use ticket_sales::price::Decimal;
use ticket_sales::ticket::{
    Contract, TicketContractMetadata, TicketInfo, CHECK_MINT_GAS, MINT_FEE, MINT_GAS, REDEEM_FEE,
};

const ONE: u128 = 1_000_000_000_000_000_000_000_000;
const SELF_ID: &str = "gala.factory.near";

fn s(x: &str) -> String {
    x.to_string()
}

fn meta() -> TicketContractMetadata {
    TicketContractMetadata {
        spec: s("nft-1.0.0"),
        name: s("Gala"),
        symbol: s("GALA"),
        description: Some(s("A night out")),
    }
}

fn one_unit() -> Decimal {
    Decimal { negative: false, mantissa: 100, scale: 2 }
}

/// A deployment owned by "org" with show "gala" selling type "ga" in `[100, 200)`.
fn gala(supply: u32) -> Contract {
    let mut c = Contract::new(s("org"), meta());
    c.create_new_show(
        &s("org"),
        s("gala"),
        Some(s("Gala night")),
        None,
        vec![s("ga")],
        vec![supply],
        vec![one_unit()],
        100,
        200,
    )
    .expect("created");
    c
}

fn sold(c: &Contract, show: &str, ty: &str) -> u32 {
    let m = c.show_metadata(&s(show)).expect("show");
    m.ticket_infos.iter().find(|t| t.ticket_type == ty).expect("type").sold
}

/// Buys one ticket and confirms its mint; returns the ticket id.
fn buy_and_confirm(c: &mut Contract, buyer: &str, now: u64) -> String {
    let order = c.buy_ticket(&s(buyer), &s("gala"), &s("ga"), ONE + MINT_FEE, now).expect("order");
    confirm(c, order, now)
}

/// Buys one ticket with `deposit` at time 150 and confirms its mint.
fn buy_and_confirm_at(c: &mut Contract, buyer: &str, deposit: u128) -> String {
    let order = c.buy_ticket(&s(buyer), &s("gala"), &s("ga"), deposit, 150).expect("order");
    confirm(c, order, 150)
}

fn confirm(c: &mut Contract, order: ticket_sales::ticket::MintOrder, now: u64) -> String {
    let mut saga = order.saga;
    let t = c
        .nft_private_mint(&s(SELF_ID), &s(SELF_ID), order.token_id.clone(), &order.show_id, &order.ticket_type, now)
        .expect("minted");
    assert!(c.check_mint(&mut saga, &vec![true]).is_none());
    t.ticket_id
}

#[test]
fn gala_scenario_two_sales_then_sold_out() {
    let mut c = gala(2);
    assert_eq!(sold(&c, "gala", "ga"), 0);
    let first = buy_and_confirm(&mut c, "ann", 150);
    assert_eq!(first, "gala.ga.0");
    assert_eq!(sold(&c, "gala", "ga"), 1);
    let second = buy_and_confirm(&mut c, "ben", 151);
    assert_eq!(second, "gala.ga.1");
    assert_eq!(sold(&c, "gala", "ga"), 2);
    let third = c.buy_ticket(&s("cat"), &s("gala"), &s("ga"), ONE + MINT_FEE, 152);
    assert!(matches!(third, Err(TicketError::SoldOut)));
    assert_eq!(sold(&c, "gala", "ga"), 2);
}

#[test]
fn created_show_holds_prices_with_fee() {
    let c = gala(2);
    let m = c.show_metadata(&s("gala")).expect("show");
    assert_eq!(m.show_title, Some(s("Gala night")));
    assert_eq!(m.ticket_infos.len(), 1);
    assert_eq!(m.ticket_infos[0].price, ONE + MINT_FEE);
    assert_eq!(m.ticket_infos[0].supply, 2);
    assert!(c.show_metadata(&s("opera")).is_none());
}

#[test]
fn sold_out_type_refuses_every_deposit() {
    let mut c = gala(1);
    buy_and_confirm(&mut c, "ann", 150);
    for deposit in [0, ONE + MINT_FEE, u128::MAX] {
        let r = c.buy_ticket(&s("ben"), &s("gala"), &s("ga"), deposit, 150);
        assert!(matches!(r, Err(TicketError::SoldOut)));
    }
}

#[test]
fn zero_supply_is_sold_out() {
    let c = gala(0);
    let r = c.buy_ticket(&s("ann"), &s("gala"), &s("ga"), ONE + MINT_FEE, 150);
    assert!(matches!(r, Err(TicketError::SoldOut)));
}

#[test]
fn deposit_boundary() {
    let c = gala(5);
    let price = ONE + MINT_FEE;
    let exact = c.buy_ticket(&s("ann"), &s("gala"), &s("ga"), price, 150).expect("exact");
    assert_eq!(exact.saga.amount, price);
    assert_eq!(exact.attached, MINT_FEE);
    assert_eq!(exact.gas, MINT_GAS);
    assert_eq!(exact.callback_gas, CHECK_MINT_GAS);
    assert_eq!(exact.receiver_id, "ann");
    let below = c.buy_ticket(&s("ann"), &s("gala"), &s("ga"), price - 1, 150);
    assert!(matches!(below, Err(TicketError::InsufficientDeposit)));
    let above = c.buy_ticket(&s("ann"), &s("gala"), &s("ga"), price + 7, 150).expect("above");
    // The refund on a failed mint is the price; the excess is not returned.
    assert_eq!(above.saga.amount, price);
}

#[test]
fn failed_mint_refunds_price_once() {
    let c = gala(5);
    let price = ONE + MINT_FEE;
    let order = c.buy_ticket(&s("ann"), &s("gala"), &s("ga"), price + 3, 150).expect("order");
    let mut saga = order.saga;
    let refund = c.check_mint(&mut saga, &vec![false]).expect("refund");
    assert_eq!(refund.receiver, "ann");
    assert_eq!(refund.amount, price);
    assert!(c.check_mint(&mut saga, &vec![false]).is_none());
    assert_eq!(sold(&c, "gala", "ga"), 0);
}

#[test]
fn sale_window_is_half_open() {
    let c = gala(5);
    let price = ONE + MINT_FEE;
    assert!(matches!(c.buy_ticket(&s("a"), &s("gala"), &s("ga"), price, 99), Err(TicketError::NotStarted)));
    assert!(c.buy_ticket(&s("a"), &s("gala"), &s("ga"), price, 100).is_ok());
    assert!(c.buy_ticket(&s("a"), &s("gala"), &s("ga"), price, 199).is_ok());
    assert!(matches!(c.buy_ticket(&s("a"), &s("gala"), &s("ga"), price, 200), Err(TicketError::Ended)));
}

#[test]
fn unknown_show_or_type_is_not_found() {
    let c = gala(5);
    let price = ONE + MINT_FEE;
    assert!(matches!(c.buy_ticket(&s("a"), &s("opera"), &s("ga"), price, 150), Err(TicketError::NotFound)));
    assert!(matches!(c.buy_ticket(&s("a"), &s("gala"), &s("vip"), price, 150), Err(TicketError::NotFound)));
}

#[test]
fn mint_is_for_the_deployment_only_and_once_per_id() {
    let mut c = gala(5);
    let r = c.nft_private_mint(&s("mallory"), &s(SELF_ID), s("gala.ga.0"), &s("gala"), &s("ga"), 150);
    assert!(matches!(r, Err(TicketError::Unauthorized)));
    assert_eq!(sold(&c, "gala", "ga"), 0);
    let t = c
        .nft_private_mint(&s(SELF_ID), &s(SELF_ID), s("gala.ga.0"), &s("gala"), &s("ga"), 150)
        .expect("minted");
    assert!(!t.is_used);
    assert_eq!(t.issued_at, 150);
    assert_eq!(t.show_id, "gala");
    let again = c.nft_private_mint(&s(SELF_ID), &s(SELF_ID), s("gala.ga.0"), &s("gala"), &s("ga"), 151);
    assert!(matches!(again, Err(TicketError::AlreadyExists)));
    assert_eq!(sold(&c, "gala", "ga"), 1);
    let none = c.nft_private_mint(&s(SELF_ID), &s(SELF_ID), s("x.y.0"), &s("x"), &s("y"), 151);
    assert!(matches!(none, Err(TicketError::NotFound)));
}

#[test]
fn racing_orders_never_sell_beyond_supply() {
    let mut c = gala(1);
    let price = ONE + MINT_FEE;
    let a = c.buy_ticket(&s("ann"), &s("gala"), &s("ga"), price, 150).expect("a");
    let b = c.buy_ticket(&s("ben"), &s("gala"), &s("ga"), price, 150).expect("b");
    assert_eq!(a.token_id, b.token_id);
    assert!(c.nft_private_mint(&s(SELF_ID), &s(SELF_ID), a.token_id.clone(), &a.show_id, &a.ticket_type, 150).is_ok());
    let second = c.nft_private_mint(&s(SELF_ID), &s(SELF_ID), b.token_id.clone(), &b.show_id, &b.ticket_type, 150);
    assert!(second.is_err());
    let other = c.nft_private_mint(&s(SELF_ID), &s(SELF_ID), s("gala.ga.9"), &s("gala"), &s("ga"), 150);
    assert!(matches!(other, Err(TicketError::SoldOut)));
    assert_eq!(sold(&c, "gala", "ga"), 1);
    let mut saga = b.saga;
    assert_eq!(c.check_mint(&mut saga, &vec![false]).map(|t| t.amount), Some(price));
}

#[test]
fn redemption_rules() {
    let mut c = gala(5);
    let id = buy_and_confirm(&mut c, "ann", 150);
    let owner = Some(s("ann"));
    assert_eq!(c.check_ticket(&s("ann"), &id, 0, &owner), Err(TicketError::InsufficientDeposit));
    assert_eq!(c.check_ticket(&s("ann"), &id, 2, &owner), Err(TicketError::InsufficientDeposit));
    assert_eq!(c.check_ticket(&s("ben"), &id, REDEEM_FEE, &owner), Err(TicketError::NotOwner));
    assert_eq!(c.check_ticket(&s("ann"), &id, REDEEM_FEE, &None), Err(TicketError::NotOwner));
    assert_eq!(c.check_ticket(&s("ann"), &s("gala.ga.7"), REDEEM_FEE, &owner), Err(TicketError::NotFound));
    assert!(!c.ticket_metadata(&id).expect("ticket").is_used);
    assert_eq!(c.check_ticket(&s("ann"), &id, REDEEM_FEE, &owner), Ok(()));
    assert!(c.ticket_metadata(&id).expect("ticket").is_used);
    // Redeeming twice is harmless.
    assert_eq!(c.check_ticket(&s("ann"), &id, REDEEM_FEE, &owner), Ok(()));
    assert!(c.ticket_metadata(&id).expect("ticket").is_used);
}

#[test]
fn create_show_rules() {
    let mut c = gala(2);
    let dup = c.create_new_show(&s("org"), s("gala"), None, None, vec![], vec![], vec![], 0, 1);
    assert_eq!(dup, Err(TicketError::AlreadyExists));
    let stranger = c.create_new_show(&s("eve"), s("opera"), None, None, vec![], vec![], vec![], 0, 1);
    assert_eq!(stranger, Err(TicketError::Unauthorized));
    let bad = c.create_new_show(
        &s("org"),
        s("opera"),
        None,
        None,
        vec![s("a"), s("b")],
        vec![1, 1],
        vec![one_unit(), Decimal { negative: true, mantissa: 5, scale: 0 }],
        0,
        1,
    );
    assert_eq!(bad, Err(TicketError::InvalidPrice));
    assert!(c.show_metadata(&s("opera")).is_none());
    // Of two entries with one name the later one stands.
    c.create_new_show(
        &s("org"),
        s("opera"),
        None,
        None,
        vec![s("a"), s("a")],
        vec![1, 9],
        vec![one_unit(), one_unit()],
        0,
        1,
    )
    .expect("created");
    let m = c.show_metadata(&s("opera")).expect("show");
    assert_eq!(m.ticket_infos.len(), 1);
    assert_eq!(m.ticket_infos[0].supply, 9);
    assert_eq!(c.get_all_shows().len(), 2);
}

fn info(ty: &str, supply: u32, sold: u32) -> TicketInfo {
    TicketInfo {
        supply,
        ticket_type: s(ty),
        price: 10,
        sold,
        selling_start_time: None,
        selling_end_time: None,
    }
}

#[test]
fn add_and_edit_ticket_types() {
    let mut c = gala(2);
    assert_eq!(c.add_ticket_info(&s("org"), &s("opera"), info("vip", 3, 0)), Err(TicketError::NotFound));
    assert_eq!(c.add_ticket_info(&s("eve"), &s("gala"), info("vip", 3, 0)), Err(TicketError::Unauthorized));
    assert_eq!(c.add_ticket_info(&s("org"), &s("gala"), info("ga", 3, 0)), Err(TicketError::AlreadyExists));
    // A new type starts with nothing sold, whatever the info says.
    assert_eq!(c.add_ticket_info(&s("org"), &s("gala"), info("vip", 3, 2)), Ok(()));
    assert_eq!(sold(&c, "gala", "vip"), 0);
    assert_eq!(c.edit_ticket_info(&s("org"), &s("gala"), info("balcony", 3, 0)), Err(TicketError::NotFound));
    assert_eq!(c.edit_ticket_info(&s("eve"), &s("gala"), info("vip", 3, 0)), Err(TicketError::Unauthorized));
    let m = c.show_metadata(&s("gala")).expect("show");
    assert_eq!(m.ticket_infos.len(), 2);
}

#[test]
fn edit_keeps_sold_and_guards_supply() {
    let mut c = gala(3);
    buy_and_confirm(&mut c, "ann", 150);
    buy_and_confirm(&mut c, "ben", 150);
    assert_eq!(sold(&c, "gala", "ga"), 2);
    // The edit's own sold is ignored: it can neither lower nor raise the count.
    assert_eq!(c.edit_ticket_info(&s("org"), &s("gala"), info("ga", 5, 0)), Ok(()));
    assert_eq!(sold(&c, "gala", "ga"), 2);
    let m = c.show_metadata(&s("gala")).expect("show");
    assert_eq!(m.ticket_infos[0].supply, 5);
    assert_eq!(m.ticket_infos[0].price, 10);
    assert_eq!(c.edit_ticket_info(&s("org"), &s("gala"), info("ga", 2, 9)), Ok(()));
    assert_eq!(sold(&c, "gala", "ga"), 2);
    // A supply below the tickets sold is refused and nothing changes.
    assert_eq!(c.edit_ticket_info(&s("org"), &s("gala"), info("ga", 1, 0)), Err(TicketError::SoldOut));
    let m = c.show_metadata(&s("gala")).expect("show");
    assert_eq!(m.ticket_infos[0].supply, 2);
    // Ids keep counting on from the kept sold.
    assert!(matches!(c.buy_ticket(&s("cat"), &s("gala"), &s("ga"), 10, 150), Err(TicketError::SoldOut)));
    assert_eq!(c.edit_ticket_info(&s("org"), &s("gala"), info("ga", 3, 0)), Ok(()));
    assert_eq!(buy_and_confirm_at(&mut c, "cat", 10), "gala.ga.2");
}

#[test]
fn mint_refuses_an_id_that_is_not_the_next() {
    let mut c = gala(5);
    let r = c.nft_private_mint(&s(SELF_ID), &s(SELF_ID), s("gala.ga.3"), &s("gala"), &s("ga"), 150);
    assert!(matches!(r, Err(TicketError::AlreadyExists)));
    let r = c.nft_private_mint(&s(SELF_ID), &s(SELF_ID), s("other"), &s("gala"), &s("ga"), 150);
    assert!(matches!(r, Err(TicketError::AlreadyExists)));
    assert_eq!(sold(&c, "gala", "ga"), 0);
    for j in 0..5u32 {
        assert_eq!(buy_and_confirm(&mut c, "ann", 150), format!("gala.ga.{}", j));
        assert_eq!(sold(&c, "gala", "ga"), j + 1);
    }
}

#[test]
fn ownership_transfer_and_renounce() {
    let mut c = gala(2);
    assert_eq!(c.transfer_ownership(&s("eve"), s("eve")), Err(TicketError::Unauthorized));
    assert_eq!(c.transfer_ownership(&s("org"), s("neworg")), Ok(()));
    assert_eq!(c.add_ticket_info(&s("org"), &s("gala"), info("vip", 3, 0)), Err(TicketError::Unauthorized));
    assert_eq!(c.renounce_ownership(&s("org")), Err(TicketError::Unauthorized));
    assert_eq!(c.renounce_ownership(&s("neworg")), Ok(()));
    assert_eq!(c.add_ticket_info(&s("neworg"), &s("gala"), info("vip", 3, 0)), Err(TicketError::Unauthorized));
    assert_eq!(c.transfer_ownership(&s(""), s("x")), Err(TicketError::Unauthorized));
}

#[test]
fn queries() {
    let mut c = gala(3);
    c.create_new_show(&s("org"), s("late"), None, None, vec![], vec![], vec![], 300, 400).expect("created");
    let active: Vec<String> = c.get_active_shows(150).into_iter().map(|m| m.show_id).collect();
    assert_eq!(active, vec![s("gala")]);
    let active: Vec<String> = c.get_active_shows(300).into_iter().map(|m| m.show_id).collect();
    assert_eq!(active, vec![s("late")]);
    assert!(c.get_active_shows(400).is_empty());
    let a = buy_and_confirm(&mut c, "ann", 150);
    let b = buy_and_confirm(&mut c, "ann", 150);
    let mine = c.get_tickets_by_owner(&vec![b.clone(), s("nope"), a.clone()]);
    let ids: Vec<String> = mine.into_iter().map(|t| t.ticket_id).collect();
    assert_eq!(ids, vec![b, a]);
    assert_eq!(c.ticket_contract_metadata().symbol, "GALA");
    assert!(c.ticket_metadata(&s("nope")).is_none());
}

#[test]
fn random_interleavings_keep_sold_within_supply() {
    let price = ONE + MINT_FEE;
    let mut seed: u64 = 0x9E37_79B9_7F4A_7C15;
    for round in 0..20u32 {
        let supply = round % 4;
        let mut c = gala(supply);
        let mut pending = Vec::new();
        let mut minted = Vec::new();
        for _ in 0..40 {
            seed = seed.wrapping_mul(6364136223846793005).wrapping_add(1442695040888963407);
            if (seed >> 33) % 2 == 0 {
                if let Ok(order) = c.buy_ticket(&s("ann"), &s("gala"), &s("ga"), price, 150) {
                    pending.push(order);
                }
            } else if !pending.is_empty() {
                let k = ((seed >> 40) as usize) % pending.len();
                let order = pending.remove(k);
                let mut saga = order.saga;
                let mint = c.nft_private_mint(&s(SELF_ID), &s(SELF_ID), order.token_id.clone(), &order.show_id, &order.ticket_type, 150);
                let refund = c.check_mint(&mut saga, &vec![mint.is_ok()]);
                match mint {
                    Ok(t) => {
                        assert!(refund.is_none());
                        assert!(!minted.contains(&t.ticket_id));
                        minted.push(t.ticket_id);
                    }
                    Err(_) => assert_eq!(refund.map(|t| t.amount), Some(price)),
                }
            }
            let now_sold = sold(&c, "gala", "ga");
            assert!(now_sold <= supply);
            assert_eq!(now_sold as usize, minted.len());
        }
    }
}
