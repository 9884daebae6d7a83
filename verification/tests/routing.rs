use transcoder_core::routing::{
    find_model, forward, Account, AccountSummary, Grant, ModelQuota, Quota, RouteAction, Router,
};

fn summary(id: &str, is_active: bool, is_proxy_disabled: bool) -> AccountSummary {
    AccountSummary { id: id.to_string(), is_active, is_proxy_disabled }
}

fn model(name: &str, percentage: i64, internal: Option<&str>) -> ModelQuota {
    ModelQuota { name: name.to_string(), percentage, internal_model: internal.map(|s| s.to_string()) }
}

fn account(id: &str, rules: &[(&str, &str)], models: Vec<ModelQuota>) -> Account {
    Account {
        id: id.to_string(),
        email: format!("{}@x", id),
        refresh_token: format!("1//{}", id),
        access_token: format!("ya29.{}", id),
        quota: Some(Quota {
            model_forwarding_rules: rules.iter().map(|(a, b)| (a.to_string(), b.to_string())).collect(),
            models,
        }),
    }
}

/// Runs a search to its end; gives what it came to and which accounts it looked up.
fn search(key: &str, from_pool: bool, model: &str, summaries: Vec<AccountSummary>, mut accounts: Vec<Account>) -> (Result<Grant, String>, Vec<String>) {
    let mut router = Router::new(key.to_string(), from_pool, model.to_string(), summaries);
    let mut looked_up = Vec::new();
    let mut action = router.advance();
    loop {
        match action {
            RouteAction::Fetch(id) => {
                let found = accounts.iter().position(|a| a.id == id).map(|i| accounts.remove(i));
                looked_up.push(id);
                action = router.fetched(found);
            }
            RouteAction::Granted(grant) => return (Ok(grant), looked_up),
            RouteAction::Refused(reason) => return (Err(reason), looked_up),
        }
    }
}

#[test]
fn names_are_forwarded() {
    let rules = vec![
        ("a".to_string(), "b".to_string()),
        ("b".to_string(), "c".to_string()),
        ("a".to_string(), "d".to_string()),
    ];
    assert_eq!(forward(&rules, &"a".to_string()), "d");
    assert_eq!(forward(&rules, &"b".to_string()), "c");
    assert_eq!(forward(&rules, &"x".to_string()), "x");
}

#[test]
fn the_first_serving_model_is_found() {
    let models = vec![model("m", 0, Some("EMPTY")), model("m", 5, None), model("n", 5, Some("N")), model("m", 1, Some("FULL"))];
    assert_eq!(find_model(&models, &"m".to_string(), true), Some("FULL".to_string()));
    assert_eq!(find_model(&models, &"m".to_string(), false), Some("EMPTY".to_string()));
    assert_eq!(find_model(&models, &"o".to_string(), false), None);
}

#[test]
fn the_pool_gives_the_first_account_with_something_left() {
    let (got, looked_up) = search(
        "vk-1",
        true,
        "m",
        vec![summary("off", false, false), summary("dis", true, true), summary("empty", true, false), summary("gone", true, false), summary("full", true, false), summary("late", true, false)],
        vec![
            account("off", &[], vec![model("m", 50, Some("OFF"))]),
            account("dis", &[], vec![model("m", 50, Some("DIS"))]),
            account("empty", &[], vec![model("m", 0, Some("E"))]),
            account("full", &[], vec![model("m", 50, Some("F"))]),
            account("late", &[], vec![model("m", 50, Some("L"))]),
        ],
    );
    let grant = got.unwrap();
    assert_eq!(grant.account_id.as_deref(), Some("full"));
    assert_eq!(grant.refresh_token, "1//full");
    assert_eq!(grant.model, "F");
    assert_eq!(grant.email, "full@x");
    assert_eq!(looked_up, vec!["empty", "gone", "full"]);
}

#[test]
fn an_empty_pool_refuses() {
    let (got, _) = search("vk-1", true, "m", vec![summary("a", true, false)], vec![account("a", &[("m", "n")], vec![])]);
    assert_eq!(got.unwrap_err(), "无法为您分配可用的账号，所有账号的 [n] 额度可能已耗尽或未被授权");
    let (got, looked_up) = search("vk-1", true, "m", vec![], vec![]);
    assert_eq!(got.unwrap_err(), "无法为您分配可用的账号，所有账号的 [m] 额度可能已耗尽或未被授权");
    assert!(looked_up.is_empty());
}

#[test]
fn a_forwarded_name_stays_for_later_accounts() {
    let (got, _) = search(
        "vk-1",
        true,
        "m",
        vec![summary("a", true, false), summary("b", true, false)],
        vec![account("a", &[("m", "n")], vec![]), account("b", &[], vec![model("m", 9, Some("M")), model("n", 9, Some("N"))])],
    );
    assert_eq!(got.unwrap().model, "N");
}

#[test]
fn a_token_of_an_account_is_answered_by_it() {
    for key in ["1//b", "ya29.b"] {
        let (got, looked_up) = search(
            key,
            false,
            "m",
            vec![summary("a", true, false), summary("b", false, true)],
            vec![account("a", &[], vec![model("m", 9, Some("A"))]), account("b", &[], vec![model("m", 0, Some("B"))])],
        );
        let grant = got.unwrap();
        assert_eq!((grant.account_id.as_deref(), grant.model.as_str(), grant.refresh_token.as_str()), (Some("b"), "B", "1//b"));
        assert_eq!(looked_up, vec!["a", "b"]);
    }
}

#[test]
fn an_unknown_token_is_passed_on() {
    let mut bare = account("a", &[("m", "n")], vec![]);
    bare.quota = None;
    let (got, _) = search("1//other", false, "m", vec![summary("a", true, false)], vec![bare]);
    let grant = got.unwrap();
    assert_eq!(grant.account_id, None);
    assert_eq!((grant.refresh_token.as_str(), grant.model.as_str(), grant.email.as_str()), ("1//other", "m", "Direct Access"));
    let (got, _) = search("1//a", false, "m", vec![summary("a", true, false)], vec![account("a", &[("m", "n")], vec![])]);
    assert_eq!(got.unwrap().model, "m");
}

#[test]
fn an_account_out_of_use_does_not_matter() {
    let full = || account("full", &[], vec![model("m", 50, Some("F"))]);
    let off = account("off", &[("m", "x")], vec![]);
    let with = search("vk-1", true, "m", vec![summary("off", false, false), summary("full", true, false)], vec![off, full()]);
    let without = search("vk-1", true, "m", vec![summary("full", true, false)], vec![full()]);
    assert_eq!(with.0.unwrap().model, without.0.unwrap().model);
}
