use bldr_core::accounts::{
    check_named_accounts, default_user_and_group, get_user_and_group, group_name_to_gid,
    user_name_to_uid, MissingAccountError, PackageAccounts,
};

#[test]
fn root_account_resolves() {
    assert_eq!(user_name_to_uid("root"), Some(0));
    assert_eq!(group_name_to_gid("root"), Some(0));
}

#[test]
fn unknown_account_is_absent() {
    assert_eq!(user_name_to_uid("no_such_user_here"), None);
    assert_eq!(group_name_to_gid("no_such_group_here"), None);
}

#[test]
fn package_accounts_are_honoured() {
    let pkg = PackageAccounts {
        svc_user: Some("root".to_string()),
        svc_group: Some("root".to_string()),
    };
    let (user, group) = get_user_and_group(&pkg).unwrap();
    assert_eq!(user, "root".to_string());
    assert_eq!(group, "root".to_string());
}

#[test]
fn missing_package_user_is_an_error_not_a_panic() {
    let pkg = PackageAccounts {
        svc_user: Some("no_such_user_here".to_string()),
        svc_group: Some("root".to_string()),
    };
    match get_user_and_group(&pkg) {
        Err(MissingAccountError::User(name)) => assert_eq!(name, "no_such_user_here".to_string()),
        _ => panic!("expected the missing user to be reported"),
    }
}

#[test]
fn missing_package_group_is_an_error_not_a_panic() {
    let pkg = PackageAccounts {
        svc_user: Some("root".to_string()),
        svc_group: Some("no_such_group_here".to_string()),
    };
    match get_user_and_group(&pkg) {
        Err(MissingAccountError::Group(name)) => {
            assert_eq!(name, "no_such_group_here".to_string())
        }
        _ => panic!("expected the missing group to be reported"),
    }
}

#[test]
fn default_resolution_always_succeeds() {
    let pkg = PackageAccounts { svc_user: None, svc_group: None };
    let resolved = get_user_and_group(&pkg);
    assert!(resolved.is_ok());
    let (user, group) = resolved.unwrap();
    assert!(!user.is_empty());
    assert!(!group.is_empty());
}

#[test]
fn named_accounts_succeed_exactly_when_both_exist() {
    let user = "svc".to_string();
    let group = "svcgrp".to_string();
    assert_eq!(
        check_named_accounts(&user, &group, true, true).unwrap(),
        ("svc".to_string(), "svcgrp".to_string())
    );
    match check_named_accounts(&user, &group, false, true) {
        Err(MissingAccountError::User(n)) => assert_eq!(n, "svc".to_string()),
        _ => panic!("expected the missing user to be reported"),
    }
    match check_named_accounts(&user, &group, true, false) {
        Err(MissingAccountError::Group(n)) => assert_eq!(n, "svcgrp".to_string()),
        _ => panic!("expected the missing group to be reported"),
    }
    // With both accounts missing, the user is checked first.
    match check_named_accounts(&user, &group, false, false) {
        Err(MissingAccountError::User(n)) => assert_eq!(n, "svc".to_string()),
        _ => panic!("expected the missing user to be reported first"),
    }
}

#[test]
fn fallback_chain_prefers_hab_then_current_then_nobody() {
    let hab_u = Some((42, "hab".to_string()));
    let hab_g = Some((42, "hab".to_string()));
    let cur_u = Some("somebody".to_string());
    let cur_g = Some("somegroup".to_string());
    assert_eq!(
        default_user_and_group(hab_u.clone(), hab_g.clone(), cur_u.clone(), cur_g.clone()),
        ("hab".to_string(), "hab".to_string())
    );
    // Half a hab account is not enough: the current process's pair is next.
    assert_eq!(
        default_user_and_group(hab_u.clone(), None, cur_u.clone(), cur_g.clone()),
        ("somebody".to_string(), "somegroup".to_string())
    );
    assert_eq!(
        default_user_and_group(None, None, None, cur_g),
        ("nobody".to_string(), "nobody".to_string())
    );
}
