use marketplace::allowable::{Allowable, ExecuteMsg, InstantiateMsg, QueryMsg, QueryResp};
use marketplace::ownable::Ownable;

const CREATOR: &str = "cosmos188rjfzzrdxlus60zgnrvs4rg0l73hct3azv93z";

fn setup_allowable() -> (Allowable, Ownable) {
    (Allowable::default(), Ownable::new(CREATOR.to_string()))
}

#[test]
fn enabled_flag() {
    let (mut allowable, ownable) = setup_allowable();

    let instantiate_msg = InstantiateMsg {
        enabled: true,
        allowed_addrs: vec![],
    };
    // Instantiate the contract
    allowable.instantiate(instantiate_msg);

    // Check we are enabled by default
    let msg = QueryMsg::IsEnabled {};
    let enabled = allowable.query(msg);
    assert_eq!(enabled, QueryResp::IsEnabled { is_enabled: true });

    let msg = ExecuteMsg::SetEnabled { enabled: false };
    allowable.execute(&ownable, CREATOR, msg).unwrap();

    let msg = QueryMsg::IsEnabled {};
    let enabled = allowable.query(msg);
    assert_eq!(enabled, QueryResp::IsEnabled { is_enabled: false });
}

#[test]
fn is_allowed() {
    let addrs = vec!["SomeAddress".to_string(), "SomeOtherAddress".to_string()];

    let instantiate_msg = InstantiateMsg {
        enabled: true,
        allowed_addrs: vec![],
    };

    let (mut allowable, ownable) = setup_allowable();

    // Instantiate the contract
    allowable.instantiate(instantiate_msg);

    let msg = QueryMsg::IsAllowed {
        address: addrs[0].clone(),
    };
    let allowed = allowable.query(msg);
    assert_eq!(allowed, QueryResp::IsAllowed { is_allowed: false });

    let msg = ExecuteMsg::AddAllowedAddrs {
        addresses: addrs.clone(),
    };
    allowable.execute(&ownable, CREATOR, msg).unwrap();

    let msg = QueryMsg::IsAllowed {
        address: addrs[0].clone(),
    };
    let allowed = allowable.query(msg);
    assert_eq!(allowed, QueryResp::IsAllowed { is_allowed: true });

    let msg = QueryMsg::IsAllowed {
        address: addrs[1].clone(),
    };
    let allowed = allowable.query(msg);
    assert_eq!(allowed, QueryResp::IsAllowed { is_allowed: true });

    let msg = ExecuteMsg::RemoveAllowedAddrs {
        addresses: vec![addrs[0].clone()],
    };
    allowable.execute(&ownable, CREATOR, msg).unwrap();

    let allowed = allowable.is_allowed(&addrs[0]);
    assert_eq!(allowed, false);

    // Clear all addresses
    allowable.clear_addrs();
    let allowed = allowable.is_allowed(&addrs[1]);
    assert_eq!(allowed, false);

    // If disabled, everyone is allowed.
    allowable.set_enabled(false);
    let allowed = allowable.is_allowed(&addrs[0]);
    assert_eq!(allowed, true);
}

// Test execute method of allowable contract
#[test]
fn execute_() {
    let addrs = vec!["SomeAddress".to_string(), "SomeOtherAddress".to_string()];

    let instantiate_msg = InstantiateMsg {
        enabled: true,
        allowed_addrs: vec![],
    };

    let (mut allowable, ownable) = setup_allowable();

    // Instantiate the contract
    allowable.instantiate(instantiate_msg);

    let msg = ExecuteMsg::AddAllowedAddrs {
        addresses: Vec::new(),
    };

    // AddAllowedAddrs
    allowable.execute(&ownable, CREATOR, msg).unwrap();

    let result = allowable.query(QueryMsg::IsAllowed {
        address: addrs[0].clone(),
    });

    assert_eq!(result, QueryResp::IsAllowed { is_allowed: false });
}

#[test]
fn execute_needs_the_administrator() {
    let (mut allowable, ownable) = setup_allowable();
    allowable.instantiate(InstantiateMsg {
        enabled: true,
        allowed_addrs: vec![],
    });
    let err = allowable
        .execute(
            &ownable,
            "SomeAddress",
            ExecuteMsg::SetEnabled { enabled: false },
        )
        .expect_err("not the administrator");
    assert!(matches!(
        err,
        marketplace::allowable::AllowableError::Unauthorized
    ));
    assert_eq!(
        allowable.query(QueryMsg::IsEnabled {}),
        QueryResp::IsEnabled { is_enabled: true }
    );
}

#[test]
fn membership_query_ignores_the_switch() {
    let (mut allowable, _ownable) = setup_allowable();
    allowable.instantiate(InstantiateMsg {
        enabled: false,
        allowed_addrs: vec!["SomeAddress".to_string()],
    });
    // With the switch off everyone may transact ...
    assert_eq!(
        allowable.query(QueryMsg::IsAllowed {
            address: "SomeOtherAddress".to_string()
        }),
        QueryResp::IsAllowed { is_allowed: true }
    );
    // ... but membership itself is reported as it stands.
    assert_eq!(
        allowable.query(QueryMsg::IsAllowedAddr("SomeOtherAddress".to_string())),
        QueryResp::IsAllowedAddr(false)
    );
    assert_eq!(
        allowable.query(QueryMsg::IsAllowedAddr("SomeAddress".to_string())),
        QueryResp::IsAllowedAddr(true)
    );
}
