use marketplace::ownable::{ExecuteMsg, Ownable, OwnableError, QueryMsg, QueryResp};
use marketplace::redeemable::{
    QueryMsg as RedeemQueryMsg, QueryResp as RedeemQueryResp, Redeemable,
};

const CREATOR: &str = "cosmos188rjfzzrdxlus60zgnrvs4rg0l73hct3azv93z";
const OTHER: &str = "burnt1e2fuwe3uhq8zd9nkkk876nawrwdulgv47mkgww";

#[test]
fn ownable_owner_round_trip() {
    let mut ownable = Ownable::new(CREATOR.to_string());
    assert_eq!(ownable.get_owner(), CREATOR.to_string());
    assert!(ownable.is_owner(CREATOR));
    assert!(!ownable.is_owner(OTHER));
    assert_eq!(
        ownable.query(QueryMsg::IsOwner(CREATOR.to_string())),
        QueryResp::IsOwner(true)
    );

    // Only the administrator may hand ownership on.
    let err = ownable
        .execute(OTHER, ExecuteMsg::SetOwner(OTHER.to_string()))
        .expect_err("not the administrator");
    assert!(matches!(err, OwnableError::Unauthorized));
    assert_eq!(ownable.get_owner(), CREATOR.to_string());

    ownable
        .execute(CREATOR, ExecuteMsg::SetOwner(OTHER.to_string()))
        .unwrap();
    assert_eq!(ownable.get_owner(), OTHER.to_string());
    assert!(!ownable.is_owner(CREATOR));
}

#[test]
fn redeemable_locks_items() {
    let mut redeemable = Redeemable::default();
    assert!(!redeemable.is_redeemed("1"));
    redeemable.redeem_item("1".to_string());
    assert!(redeemable.is_redeemed("1"));
    assert!(!redeemable.is_redeemed("2"));
    assert_eq!(
        redeemable.query(RedeemQueryMsg::IsRedeemed("1".to_string())),
        RedeemQueryResp::IsRedeemed(true)
    );
    let seeded = Redeemable::new(vec!["a".to_string(), "b".to_string()]);
    assert!(seeded.is_redeemed("a"));
    assert!(seeded.is_redeemed("b"));
    assert!(!seeded.is_redeemed("c"));
}
