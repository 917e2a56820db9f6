use marketplace::coin::Coin;
use marketplace::ownable::Ownable;
use marketplace::redeemable::Redeemable;
use marketplace::sellable::errors::ContractError;
use marketplace::sellable::{RSellable, Sellable};
use marketplace::allowable::{Allowable, InstantiateMsg as AllowMsg};
use marketplace::sellable::msg::{ExecuteMsg, InstantiateMsg, QueryMsg, QueryResp};
use marketplace::token::{MintMsg, Token, TokenError, Tokens};

const CREATOR: &str = "cosmos188rjfzzrdxlus60zgnrvs4rg0l73hct3azv93z";
const BUYER: &str = "burnt1e2fuwe3uhq8zd9nkkk876nawrwdulgv47mkgww";
const VENDOR: &str = "burnt1e2fuwe3uhq8zd9nkkk876nawrwsulgv47mkgww";

fn setup_tokens() -> Tokens {
    let mut tokens = Tokens::default();
    tokens
        .mint(MintMsg {
            token_id: "1".to_string(),
            owner: CREATOR.to_string(),
            token_uri: Some("uri".to_string()),
        })
        .unwrap();
    tokens
}

fn one_listing(amount: u128, denom: &str) -> Vec<(String, Coin)> {
    vec![("1".to_string(), Coin::new(amount, denom))]
}

#[test]
fn sellable_token_list() {
    let tokens = setup_tokens();
    let mut sellable = Sellable::default();

    // List a minted token with wrong owner
    let list_result = sellable
        .try_list(&tokens, VENDOR, one_listing(10, "uturnt"))
        .expect_err("Should not be able to list token with wrong owner");
    match list_result {
        ContractError::Unauthorized => {}
        _ => panic!(),
    }
    sellable
        .try_list(&tokens, CREATOR, one_listing(10, "uturnt"))
        .unwrap();
    // List a non-minted token
    let non_minted_listings = vec![("hello".to_string(), Coin::new(10, "uturnt"))];
    let list_result = sellable.try_list(&tokens, CREATOR, non_minted_listings);
    match list_result {
        Ok(_) => panic!(),
        Err(err) => match err {
            ContractError::TokenIDNotFoundError => {}
            _ => panic!(),
        },
    }

    let result = sellable.listed_tokens(&tokens, None, None);
    assert_eq!(result.tokens.len(), 1);
}

#[test]
fn test_buy_listed_tokens() {
    // List a token
    // Send a request to buy a token with insufficient funds
    // Send a request to buy with enough fund but wrong fund denom
    // Send a request to buy with enough funds and denom
    let mut tokens = Tokens::default();
    let mut sellable = Sellable::default();
    assert_eq!(tokens.token_count(), 0);

    tokens
        .mint(MintMsg {
            token_id: "1".to_string(),
            owner: CREATOR.to_string(),
            token_uri: Some("uri".to_string()),
        })
        .unwrap();
    assert_eq!(tokens.token_count(), 1);

    sellable
        .try_list(&tokens, CREATOR, one_listing(10, "uturnt"))
        .unwrap();
    let result = sellable.listed_tokens(&tokens, None, None);
    assert_eq!(result.tokens.len(), 1);

    // Buy token with no funds
    sellable
        .try_buy(&mut tokens, CREATOR, &vec![], Some("1".to_string()))
        .expect_err("Expect error");

    // Buy token with insufficient funds
    sellable
        .try_buy(
            &mut tokens,
            BUYER,
            &vec![Coin::new(5, "uturnt")],
            Some("1".to_string()),
        )
        .expect_err("Expect error");

    // Buy token with sufficient funds and wrong denom
    sellable
        .try_buy(
            &mut tokens,
            BUYER,
            &vec![Coin::new(5, "turnt")],
            Some("1".to_string()),
        )
        .expect_err("Expect error");

    // Buy token with sufficient funds and enough denom
    let buy_resp = sellable
        .try_buy(
            &mut tokens,
            BUYER,
            &vec![Coin::new(12, "uturnt")],
            Some("1".to_string()),
        )
        .expect("purchased ticket");

    assert_eq!(buy_resp.buyer, BUYER.to_string());
    assert_eq!(buy_resp.seller, CREATOR.to_string());
    assert_eq!(buy_resp.token_id, "1".to_string());
    assert_eq!(buy_resp.price.amount, 10);
    assert_eq!(buy_resp.price.denom, "uturnt".to_string());
    assert_eq!(buy_resp.refund, 2);

    let result = sellable.listed_tokens(&tokens, None, None);
    assert_eq!(result.tokens.len(), 0);

    assert_eq!(buy_resp.payments.len(), 2);
    assert_eq!(buy_resp.payments[0].to_address, CREATOR.to_string());
    assert_eq!(buy_resp.payments[0].amount.amount, 10);
    assert_eq!(buy_resp.payments[0].amount.denom, "uturnt".to_string());
    assert_eq!(buy_resp.payments[1].to_address, BUYER.to_string());
    assert_eq!(buy_resp.payments[1].amount.amount, 2);
    assert_eq!(buy_resp.payments[1].amount.denom, "uturnt".to_string());

    // ownership moved to the buyer
    assert_eq!(tokens.find("1").unwrap().owner, BUYER.to_string());
}

#[test]
fn try_delist_token() {
    let mut tokens = Tokens::default();
    let mut sellable = Sellable::default();
    assert_eq!(tokens.token_count(), 0);

    tokens
        .mint(MintMsg {
            token_id: "1".to_string(),
            owner: CREATOR.to_string(),
            token_uri: Some("uri".to_string()),
        })
        .unwrap();
    assert_eq!(tokens.token_count(), 1);

    sellable
        .try_list(&tokens, CREATOR, one_listing(10, "uturnt"))
        .unwrap();
    let result = sellable.listed_tokens(&tokens, None, None);
    assert_eq!(result.tokens.len(), 1);

    // De-list the ticket
    sellable.try_delist(&tokens, CREATOR, "1").unwrap();
    let result = sellable.listed_tokens(&tokens, None, None);
    assert_eq!(result.tokens.len(), 0);
}

#[test]
fn buy_cheapest_tie_break() {
    // Cheapest by amount, then denomination, then token id.
    let mut tokens = Tokens::default();
    for id in ["a", "b", "c", "d"] {
        tokens
            .mint(MintMsg {
                token_id: id.to_string(),
                owner: CREATOR.to_string(),
                token_uri: None,
            })
            .unwrap();
    }
    let mut sellable = Sellable::default();
    sellable
        .try_list(
            &tokens,
            CREATOR,
            vec![
                ("a".to_string(), Coin::new(10, "uturnt")),
                ("b".to_string(), Coin::new(5, "uturnt")),
                ("c".to_string(), Coin::new(5, "aturnt")),
            ],
        )
        .unwrap();
    // "c" wins: same amount as "b" but smaller denomination.
    let st = sellable
        .try_buy(&mut tokens, BUYER, &vec![Coin::new(5, "aturnt")], None)
        .expect("cheapest bought");
    assert_eq!(st.token_id, "c".to_string());

    // "b" and "d" now tie on amount and denomination: lower id wins.
    sellable
        .try_list(
            &tokens,
            CREATOR,
            vec![("d".to_string(), Coin::new(5, "uturnt"))],
        )
        .unwrap();
    let st = sellable
        .try_buy(&mut tokens, BUYER, &vec![Coin::new(5, "uturnt")], None)
        .expect("cheapest bought");
    assert_eq!(st.token_id, "b".to_string());
}

#[test]
fn buy_cheapest_empty_registry() {
    let mut tokens = setup_tokens();
    let mut sellable = Sellable::default();
    let err = sellable
        .try_buy(&mut tokens, BUYER, &vec![Coin::new(5, "uturnt")], None)
        .expect_err("nothing listed");
    assert!(matches!(err, ContractError::NoListedTokensError));
}

#[test]
fn list_zero_price_rejected() {
    // A zero price always fails the whole batch and leaves the registry
    // unchanged.
    let tokens = setup_tokens();
    let mut sellable = Sellable::default();
    let err = sellable
        .try_list(&tokens, CREATOR, one_listing(0, "uturnt"))
        .expect_err("zero price");
    assert!(matches!(err, ContractError::InvalidListingPrice));
    assert_eq!(sellable.listed_tokens(&tokens, None, None).tokens.len(), 0);
}

#[test]
fn list_twice_rejected() {
    let tokens = setup_tokens();
    let mut sellable = Sellable::default();
    sellable
        .try_list(&tokens, CREATOR, one_listing(10, "uturnt"))
        .unwrap();
    let err = sellable
        .try_list(&tokens, CREATOR, one_listing(12, "uturnt"))
        .expect_err("already listed");
    assert!(matches!(err, ContractError::TokenAlreadyListed));
    // The price of the standing listing is unchanged.
    let page = sellable.listed_tokens(&tokens, None, None);
    assert_eq!(page.tokens[0].1.amount, 10);
}

#[test]
fn buy_error_details() {
    let mut tokens = setup_tokens();
    let mut sellable = Sellable::default();
    sellable
        .try_list(&tokens, CREATOR, one_listing(10, "uturnt"))
        .unwrap();

    let err = sellable
        .try_buy(&mut tokens, BUYER, &vec![], Some("1".to_string()))
        .expect_err("no funds");
    assert!(matches!(err, ContractError::NoFundsPresent));

    let err = sellable
        .try_buy(
            &mut tokens,
            BUYER,
            &vec![Coin::new(5, "uturnt"), Coin::new(5, "uturnt")],
            Some("1".to_string()),
        )
        .expect_err("multiple funds");
    assert!(matches!(err, ContractError::MultipleFundsError));

    let err = sellable
        .try_buy(
            &mut tokens,
            BUYER,
            &vec![Coin::new(10, "turnt")],
            Some("1".to_string()),
        )
        .expect_err("wrong denom");
    assert!(matches!(err, ContractError::WrongFundError));

    let err = sellable
        .try_buy(
            &mut tokens,
            BUYER,
            &vec![Coin::new(5, "uturnt")],
            Some("1".to_string()),
        )
        .expect_err("insufficient");
    assert!(matches!(
        err,
        ContractError::InsufficientFundsError {
            fund: 5,
            seat_price: 10
        }
    ));

    let err = sellable
        .try_buy(
            &mut tokens,
            BUYER,
            &vec![Coin::new(10, "uturnt")],
            Some("2".to_string()),
        )
        .expect_err("not listed");
    assert!(matches!(err, ContractError::NoListedTokensError));

    // An exact payment draws no refund.
    let st = sellable
        .try_buy(
            &mut tokens,
            BUYER,
            &vec![Coin::new(10, "uturnt")],
            Some("1".to_string()),
        )
        .expect("bought at par");
    assert_eq!(st.refund, 0);
    assert_eq!(st.payments.len(), 1);
}

#[test]
fn delist_errors() {
    let tokens = setup_tokens();
    let mut sellable = Sellable::default();
    let err = sellable
        .try_delist(&tokens, CREATOR, "1")
        .expect_err("not listed");
    assert!(matches!(err, ContractError::NoListedTokensError));
    sellable
        .try_list(&tokens, CREATOR, one_listing(10, "uturnt"))
        .unwrap();
    let err = sellable
        .try_delist(&tokens, VENDOR, "1")
        .expect_err("not the owner");
    assert!(matches!(err, ContractError::Unauthorized));
    assert_eq!(sellable.listed_tokens(&tokens, None, None).tokens.len(), 1);
}

#[test]
fn rsellable_locked_token() {
    let mut tokens = setup_tokens();
    let mut rsellable = RSellable::default();
    rsellable
        .try_list(&tokens, CREATOR, one_listing(10, "uturnt"))
        .unwrap();
    let mut redeemable = Redeemable::default();
    redeemable.redeem_item("1".to_string());
    let err = rsellable
        .try_buy(
            &mut tokens,
            &redeemable,
            BUYER,
            &vec![Coin::new(10, "uturnt")],
            Some("1".to_string()),
        )
        .expect_err("ticket is redeemed");
    assert!(matches!(err, ContractError::TicketRedeemed));
    // The listing and the owner are untouched.
    assert_eq!(rsellable.listed_tokens(&tokens, None, None).tokens.len(), 1);
    assert_eq!(tokens.find("1").unwrap().owner, CREATOR.to_string());

    // An unlocked token still sells.
    let fresh = Redeemable::default();
    let st = rsellable
        .try_buy(
            &mut tokens,
            &fresh,
            BUYER,
            &vec![Coin::new(10, "uturnt")],
            Some("1".to_string()),
        )
        .expect("purchased");
    assert_eq!(st.token_id, "1".to_string());
}

#[test]
fn listed_tokens_pagination() {
    let mut tokens = Tokens::default();
    for id in ["a", "b", "c"] {
        tokens
            .mint(MintMsg {
                token_id: id.to_string(),
                owner: CREATOR.to_string(),
                token_uri: None,
            })
            .unwrap();
    }
    let mut sellable = Sellable::default();
    sellable
        .try_list(
            &tokens,
            CREATOR,
            vec![
                ("a".to_string(), Coin::new(1, "uturnt")),
                ("c".to_string(), Coin::new(3, "uturnt")),
            ],
        )
        .unwrap();
    // Lexicographic order, unlisted ids skipped.
    let page = sellable.listed_tokens(&tokens, None, None);
    assert_eq!(page.tokens.len(), 2);
    assert_eq!(page.tokens[0].0, "a".to_string());
    assert_eq!(page.tokens[1].0, "c".to_string());
    assert_eq!(page.tokens[1].1.amount, 3);
    assert_eq!(page.tokens[0].2.owner, CREATOR.to_string());
    // Strictly after the bound.
    let page = sellable.listed_tokens(&tokens, Some("a".to_string()), None);
    assert_eq!(page.tokens.len(), 1);
    assert_eq!(page.tokens[0].0, "c".to_string());
    // The limit caps the page.
    let page = sellable.listed_tokens(&tokens, None, Some(1));
    assert_eq!(page.tokens.len(), 1);
    assert_eq!(page.tokens[0].0, "a".to_string());
}

#[test]
fn token_ledger_mint_and_transfer() {
    let mut tokens = Tokens::default();
    tokens
        .mint(MintMsg {
            token_id: "1".to_string(),
            owner: CREATOR.to_string(),
            token_uri: Some("uri".to_string()),
        })
        .unwrap();
    let err = tokens
        .mint(MintMsg {
            token_id: "1".to_string(),
            owner: VENDOR.to_string(),
            token_uri: None,
        })
        .expect_err("id claimed");
    assert_eq!(err, TokenError::Claimed);
    tokens.transfer("1", BUYER);
    let t: &Token = tokens.find("1").unwrap();
    assert_eq!(t.owner, BUYER.to_string());
    assert_eq!(t.token_uri, Some("uri".to_string()));
    assert!(tokens.has("1"));
    assert!(!tokens.has("2"));
}

#[test]
fn sellable_execute_dispatch() {
    let mut tokens = Tokens::default();
    for id in ["1", "2"] {
        tokens
            .mint(MintMsg {
                token_id: id.to_string(),
                owner: CREATOR.to_string(),
                token_uri: None,
            })
            .unwrap();
    }
    let mut sellable = Sellable::default();
    // Seed one listing, then drive everything through the dispatcher.
    sellable.instantiate(
        &tokens,
        InstantiateMsg {
            tokens: vec![("1".to_string(), Coin::new(7, "uturnt"))],
        },
    );
    let r = sellable
        .execute(
            &mut tokens,
            CREATOR,
            &vec![],
            ExecuteMsg::List {
                listings: vec![("2".to_string(), Coin::new(9, "uturnt"))],
            },
        )
        .expect("listed");
    assert!(r.is_none());
    let QueryResp::ListedTokens(page) = sellable.query(
        &tokens,
        QueryMsg::ListedTokens {
            start_after: None,
            limit: None,
        },
    );
    assert_eq!(page.len(), 2);
    // The cheapest purchase settles listing "1" (7 uturnt).
    let r = sellable
        .execute(
            &mut tokens,
            BUYER,
            &vec![Coin::new(7, "uturnt")],
            ExecuteMsg::Buy {},
        )
        .expect("bought");
    let st = r.expect("a settlement comes back");
    assert_eq!(st.token_id, "1".to_string());
    // A named purchase settles listing "2".
    let r = sellable
        .execute(
            &mut tokens,
            BUYER,
            &vec![Coin::new(9, "uturnt")],
            ExecuteMsg::BuyToken {
                token_id: "2".to_string(),
            },
        )
        .expect("bought");
    assert_eq!(r.expect("a settlement comes back").token_id, "2".to_string());
    // Delisting through the dispatcher: nothing is listed any more.
    let err = sellable
        .execute(
            &mut tokens,
            BUYER,
            &vec![],
            ExecuteMsg::Delist {
                token_id: "1".to_string(),
            },
        )
        .expect_err("nothing listed");
    assert!(matches!(err, ContractError::NoListedTokensError));
}

#[test]
fn rsellable_execute_dispatch() {
    let mut tokens = setup_tokens();
    let mut rsellable = RSellable::default();
    let redeemable = Redeemable::default();
    rsellable
        .execute(
            &mut tokens,
            &redeemable,
            CREATOR,
            &vec![],
            ExecuteMsg::List {
                listings: vec![("1".to_string(), Coin::new(10, "uturnt"))],
            },
        )
        .expect("listed");
    let r = rsellable
        .execute(
            &mut tokens,
            &redeemable,
            BUYER,
            &vec![Coin::new(10, "uturnt")],
            ExecuteMsg::Buy {},
        )
        .expect("bought");
    assert_eq!(r.expect("a settlement comes back").token_id, "1".to_string());
}

#[test]
fn gate_checks() {
    let tokens = setup_tokens();
    let _ = tokens;
    let sellable = Sellable::default();
    let ownable = Ownable::new(CREATOR.to_string());
    assert!(sellable.check_ownable(&ownable, CREATOR).is_ok());
    assert!(matches!(
        sellable.check_ownable(&ownable, VENDOR).unwrap_err(),
        ContractError::Unauthorized
    ));
    let redeemable = Redeemable::new(vec!["1".to_string()]);
    assert!(sellable.check_redeemable(&redeemable, "1").is_ok());
    let rsellable = RSellable::default();
    assert!(matches!(
        rsellable.check_redeemable(&redeemable, "1").unwrap_err(),
        ContractError::TicketRedeemed
    ));
    assert!(rsellable.check_redeemable(&redeemable, "2").is_ok());
    let mut allowable = Allowable::default();
    allowable.instantiate(AllowMsg {
        enabled: true,
        allowed_addrs: vec![CREATOR.to_string()],
    });
    assert!(sellable.check_is_allowed(&allowable, CREATOR).is_ok());
    assert!(matches!(
        rsellable.check_is_allowed(&allowable, VENDOR).unwrap_err(),
        ContractError::Unauthorized
    ));
}
