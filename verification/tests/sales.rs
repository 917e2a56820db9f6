use marketplace::coin::Coin;
use marketplace::ownable::Ownable;
use marketplace::sales::errors::ContractError;
use marketplace::sales::msg::{
    CreatePrimarySale, ExecuteMsg, InstantiateMsg, QueryMsg, QueryResp,
};
use marketplace::sales::state::PrimarySale;
use marketplace::sales::{Sales, SalesResponse};
use marketplace::token::{MintMsg, TokenError, Tokens};

const CREATOR: &str = "cosmos188rjfzzrdxlus60zgnrvs4rg0l73hct3azv93z";
const USER: &str = "burnt188rjfzzrdxlus60zgnrvs4rg0l73hct3mlvdpe";

fn create_sale(total_supply: u64, start: u64, end: u64, amount: u128, denom: &str) -> CreatePrimarySale {
    CreatePrimarySale {
        total_supply,
        start_time: start,
        end_time: end,
        price: Coin::new(amount, denom),
    }
}

fn mint_request(token_id: &str) -> MintMsg {
    MintMsg {
        token_id: token_id.to_string(),
        owner: CREATOR.to_string(),
        token_uri: Some("url".to_string()),
    }
}

#[test]
fn add_primary_sales() {
    let mut tokens = Tokens::default();
    let ownable = Ownable::new(CREATOR.to_string());
    let mut sales = Sales::default();
    let mut now: u64 = 1571797419;

    // instantiate sale module
    let sales_instantiate_msg = InstantiateMsg {
        sale: Some(create_sale(1, 1664567586, 1665567587, 10, "uturnt")),
    };
    sales
        .instantiate(sales_instantiate_msg, now, CREATOR, &ownable)
        .expect("sale module instantiated");
    // get all primary sales
    let query_msg = QueryMsg::PrimarySales {};
    let primary_sales = sales.query(now, query_msg);
    match primary_sales {
        QueryResp::PrimarySales(primary_sales) => {
            assert_eq!(primary_sales.len(), 1)
        }
        _ => panic!(),
    }
    // create a primary sale
    let execute_msg = ExecuteMsg::PrimarySale(create_sale(1, 1674567586, 1675567587, 10, "USDC"));
    // test creating multiple active primary sales
    sales
        .execute(
            now,
            &mut tokens,
            &ownable,
            "hacker",
            &vec![],
            ExecuteMsg::PrimarySale(create_sale(1, 1674567586, 1675567587, 10, "USDC")),
        )
        .expect_err("primary sales should not be added");
    // set block time
    now = 1674567586;
    sales
        .execute(now, &mut tokens, &ownable, CREATOR, &vec![], execute_msg)
        .expect("primary sales added");
    let primary_sales = sales.query(now, QueryMsg::PrimarySales {});
    let active_primary_sale = sales.query(now, QueryMsg::ActivePrimarySale {});
    match primary_sales {
        QueryResp::PrimarySales(primary_sales) => {
            assert_eq!(primary_sales.len(), 2)
        }
        _ => panic!(),
    }
    match active_primary_sale {
        QueryResp::ActivePrimarySale(Some(sale)) => {
            assert_eq!(sale.start_time.to_string(), "1674567586")
        }
        _ => panic!(),
    }
    // buy an item
    sales
        .execute(
            now,
            &mut tokens,
            &ownable,
            USER,
            &vec![Coin::new(20, "USDC")],
            ExecuteMsg::BuyItem(mint_request("1")),
        )
        .expect("item bought");
    let active_primary_sale = sales.query(now, QueryMsg::ActivePrimarySale {});
    match active_primary_sale {
        // there should be no active primary sale since all item are now bought
        QueryResp::ActivePrimarySale(Some(_)) => assert!(false),
        _ => assert!(true),
    }

    // create a new primary sale
    now = 1676567587;
    sales
        .execute(
            now,
            &mut tokens,
            &ownable,
            CREATOR,
            &vec![],
            ExecuteMsg::PrimarySale(create_sale(1, 1676567587, 1677567587, 10, "USDC")),
        )
        .expect("primary sales added");
    // halt ongoing primary sale
    sales
        .execute(
            now,
            &mut tokens,
            &ownable,
            CREATOR,
            &vec![],
            ExecuteMsg::HaltSale {},
        )
        .expect("any ongoing sale halted");
    let active_primary_sale = sales.query(now, QueryMsg::ActivePrimarySale {});
    match active_primary_sale {
        // there should be no active primary sale since the active primary sale is halted
        QueryResp::ActivePrimarySale(Some(_)) => assert!(false),
        _ => assert!(true),
    }

    // TEST: unlimited number of item for sale
    // create a new primary sale
    now = 1678567587;
    sales
        .execute(
            now,
            &mut tokens,
            &ownable,
            CREATOR,
            &vec![],
            ExecuteMsg::PrimarySale(create_sale(0, 1678567587, 1679567587, 10, "USDC")),
        )
        .expect("primary sales added");
    let active_primary_sale = sales.query(now, QueryMsg::ActivePrimarySale {});
    match active_primary_sale {
        QueryResp::ActivePrimarySale(Some(sale)) => {
            assert_eq!(sale.total_supply, 0);
            assert!(!sale.disabled);
        }
        _ => panic!(),
    }
    sales
        .execute(
            now,
            &mut tokens,
            &ownable,
            USER,
            &vec![Coin::new(20, "USDC")],
            ExecuteMsg::BuyItem(mint_request("unlimited_buy")),
        )
        .expect("item bought");
    let active_primary_sale = sales.query(now, QueryMsg::ActivePrimarySale {});
    match active_primary_sale {
        QueryResp::ActivePrimarySale(Some(sale)) => {
            assert_eq!(sale.tokens_minted, 1);
            assert!(!sale.disabled);
        }
        _ => panic!(),
    }
}

#[test]
fn sale_sells_out_and_disables() {
    // A capped sale disables itself when the cap is reached; a further
    // purchase finds no ongoing sale.
    let mut tokens = Tokens::default();
    let ownable = Ownable::new(CREATOR.to_string());
    let mut sales = Sales::default();
    let t: u64 = 1000;
    sales
        .add_primary_sale(create_sale(1, t, t + 100, 10, "USDC"), t, CREATOR, &ownable)
        .expect("scheduled");
    let rc = sales
        .buy_item(
            t,
            &mut tokens,
            &ownable,
            USER,
            &vec![Coin::new(10, "USDC")],
            mint_request("1"),
        )
        .expect("minted");
    assert_eq!(rc.sale.tokens_minted, 1);
    assert_eq!(rc.sale.total_supply, 1);
    assert!(rc.sale.disabled);
    assert_eq!(rc.refund, 0);
    assert_eq!(rc.payments.len(), 1);
    assert_eq!(rc.payments[0].to_address, CREATOR.to_string());
    assert_eq!(rc.payments[0].amount.amount, 10);
    assert!(tokens.has("1"));
    let err = sales
        .buy_item(
            t,
            &mut tokens,
            &ownable,
            USER,
            &vec![Coin::new(10, "USDC")],
            mint_request("2"),
        )
        .expect_err("sold out");
    assert!(matches!(err, ContractError::NoOngoingPrimarySaleError));
    assert!(!tokens.has("2"));
}

#[test]
fn overlapping_windows_rejected() {
    // A second sale whose window touches the first one's is rejected.
    let mut sales = Sales::default();
    let ownable = Ownable::new(CREATOR.to_string());
    let t: u64 = 5000;
    sales
        .add_primary_sale(create_sale(5, t, t + 100, 10, "USDC"), t, CREATOR, &ownable)
        .expect("scheduled");
    let err = sales
        .add_primary_sale(
            create_sale(5, t + 50, t + 150, 10, "USDC"),
            t,
            CREATOR,
            &ownable,
        )
        .expect_err("windows overlap");
    match err {
        ContractError::InvalidPrimarySaleParamError(field) => assert_eq!(field, "overlap"),
        _ => panic!(),
    }
    match sales.primary_sales() {
        QueryResp::PrimarySales(v) => assert_eq!(v.len(), 1),
        _ => panic!(),
    }
}

#[test]
fn sequential_windows_accepted() {
    // Two windows that never touch are both scheduled.
    let mut sales = Sales::default();
    let ownable = Ownable::new(CREATOR.to_string());
    let t: u64 = 5000;
    sales
        .add_primary_sale(create_sale(5, t, t + 100, 10, "USDC"), t, CREATOR, &ownable)
        .expect("first scheduled");
    sales
        .add_primary_sale(
            create_sale(5, t + 101, t + 200, 10, "USDC"),
            t,
            CREATOR,
            &ownable,
        )
        .expect("second scheduled");
    match sales.primary_sales() {
        QueryResp::PrimarySales(v) => assert_eq!(v.len(), 2),
        _ => panic!(),
    }
}

#[test]
fn add_sale_parameter_errors() {
    let mut sales = Sales::default();
    let ownable = Ownable::new(CREATOR.to_string());
    let t: u64 = 5000;
    // starts in the past
    let err = sales
        .add_primary_sale(
            create_sale(5, t - 1, t + 100, 10, "USDC"),
            t,
            CREATOR,
            &ownable,
        )
        .expect_err("starts in the past");
    match err {
        ContractError::InvalidPrimarySaleParamError(field) => assert_eq!(field, "start time"),
        _ => panic!(),
    }
    // ends before it starts
    let err = sales
        .add_primary_sale(create_sale(5, t, t, 10, "USDC"), t, CREATOR, &ownable)
        .expect_err("empty window");
    match err {
        ContractError::InvalidPrimarySaleParamError(field) => assert_eq!(field, "end time"),
        _ => panic!(),
    }
    // not the administrator
    let err = sales
        .add_primary_sale(create_sale(5, t, t + 100, 10, "USDC"), t, USER, &ownable)
        .expect_err("not the administrator");
    assert!(matches!(err, ContractError::Unauthorized));
    // nothing was added
    match sales.primary_sales() {
        QueryResp::PrimarySales(v) => assert_eq!(v.len(), 0),
        _ => panic!(),
    }
}

#[test]
fn halt_without_eligible_sale() {
    let mut sales = Sales::default();
    let ownable = Ownable::new(CREATOR.to_string());
    let t: u64 = 5000;
    let err = sales
        .halt_sale(t, CREATOR, &ownable)
        .expect_err("nothing to halt");
    assert!(matches!(err, ContractError::NoOngoingPrimarySaleError));
    // An already-ended sale cannot be halted either.
    sales
        .add_primary_sale(create_sale(5, t, t + 100, 10, "USDC"), t, CREATOR, &ownable)
        .expect("scheduled");
    let err = sales
        .halt_sale(t + 100, CREATOR, &ownable)
        .expect_err("window already over");
    assert!(matches!(err, ContractError::NoOngoingPrimarySaleError));
    match sales.primary_sales() {
        QueryResp::PrimarySales(v) => {
            assert_eq!(v.len(), 1);
            assert!(!v[0].disabled);
        }
        _ => panic!(),
    }
    // Only the administrator may halt.
    let err = sales.halt_sale(t, USER, &ownable).expect_err("not the administrator");
    assert!(matches!(err, ContractError::Unauthorized));
}

#[test]
fn buy_item_fund_errors() {
    let mut tokens = Tokens::default();
    let ownable = Ownable::new(CREATOR.to_string());
    let mut sales = Sales::default();
    let t: u64 = 1000;
    sales
        .add_primary_sale(create_sale(2, t, t + 100, 10, "USDC"), t, CREATOR, &ownable)
        .expect("scheduled");
    let err = sales
        .buy_item(t, &mut tokens, &ownable, USER, &vec![], mint_request("1"))
        .expect_err("no funds");
    assert!(matches!(err, ContractError::NoFundsError));
    let err = sales
        .buy_item(
            t,
            &mut tokens,
            &ownable,
            USER,
            &vec![Coin::new(10, "USDC"), Coin::new(10, "USDC")],
            mint_request("1"),
        )
        .expect_err("multiple funds");
    assert!(matches!(err, ContractError::MultipleFundsError));
    let err = sales
        .buy_item(
            t,
            &mut tokens,
            &ownable,
            USER,
            &vec![Coin::new(10, "uturnt")],
            mint_request("1"),
        )
        .expect_err("wrong denom");
    assert!(matches!(err, ContractError::WrongFundError));
    let err = sales
        .buy_item(
            t,
            &mut tokens,
            &ownable,
            USER,
            &vec![Coin::new(9, "USDC")],
            mint_request("1"),
        )
        .expect_err("insufficient");
    assert!(matches!(err, ContractError::InsufficientFundsError));
    // a claimed token id is refused by the ledger
    sales
        .buy_item(
            t,
            &mut tokens,
            &ownable,
            USER,
            &vec![Coin::new(10, "USDC")],
            mint_request("1"),
        )
        .expect("minted");
    let err = sales
        .buy_item(
            t,
            &mut tokens,
            &ownable,
            USER,
            &vec![Coin::new(10, "USDC")],
            mint_request("1"),
        )
        .expect_err("id claimed");
    assert!(matches!(
        err,
        ContractError::TokenModuleError(TokenError::Claimed)
    ));
    // the refund formula is exact
    let rc = sales
        .buy_item(
            t,
            &mut tokens,
            &ownable,
            USER,
            &vec![Coin::new(17, "USDC")],
            mint_request("2"),
        )
        .expect("minted");
    assert_eq!(rc.refund, 7);
    assert_eq!(rc.payments.len(), 2);
    assert_eq!(rc.payments[1].to_address, USER.to_string());
    assert_eq!(rc.payments[1].amount.amount, 7);
    assert_eq!(rc.payments[1].amount.denom, "USDC".to_string());
}

#[test]
fn primary_sale_from_request() {
    let sale = PrimarySale::from(create_sale(7, 100, 200, 42, "USDC"));
    assert_eq!(sale.total_supply, 7);
    assert_eq!(sale.tokens_minted, 0);
    assert_eq!(sale.start_time, 100);
    assert_eq!(sale.end_time, 200);
    assert_eq!(sale.price.amount, 42);
    assert_eq!(sale.price.denom, "USDC".to_string());
    assert!(!sale.disabled);
}

#[test]
fn halted_sale_is_recorded() {
    // Halting disables the first running sale; the record stays.
    let mut sales = Sales::default();
    let ownable = Ownable::new(CREATOR.to_string());
    let t: u64 = 5000;
    sales
        .add_primary_sale(create_sale(5, t, t + 100, 10, "USDC"), t, CREATOR, &ownable)
        .expect("scheduled");
    let halted = sales.halt_sale(t, CREATOR, &ownable).expect("halted");
    assert!(halted.disabled);
    match sales.primary_sales() {
        QueryResp::PrimarySales(v) => {
            assert_eq!(v.len(), 1);
            assert!(v[0].disabled);
        }
        _ => panic!(),
    }
    match sales.active_primary_sales(t) {
        QueryResp::ActivePrimarySale(None) => {}
        _ => panic!(),
    }
}

#[test]
fn sales_response_variants() {
    // The dispatcher reports what each command did.
    let mut tokens = Tokens::default();
    let ownable = Ownable::new(CREATOR.to_string());
    let mut sales = Sales::default();
    let t: u64 = 1000;
    let resp = sales
        .execute(
            t,
            &mut tokens,
            &ownable,
            CREATOR,
            &vec![],
            ExecuteMsg::PrimarySale(create_sale(0, t, t + 100, 10, "USDC")),
        )
        .expect("scheduled");
    assert!(matches!(resp, SalesResponse::SaleAdded(_)));
    let resp = sales
        .execute(
            t,
            &mut tokens,
            &ownable,
            USER,
            &vec![Coin::new(10, "USDC")],
            ExecuteMsg::BuyItem(mint_request("x")),
        )
        .expect("minted");
    assert!(matches!(resp, SalesResponse::ItemBought(_)));
    let resp = sales
        .execute(
            t,
            &mut tokens,
            &ownable,
            CREATOR,
            &vec![],
            ExecuteMsg::HaltSale {},
        )
        .expect("halted");
    assert!(matches!(resp, SalesResponse::SaleHalted(_)));
}
