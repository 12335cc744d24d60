use acl_engine::acl::{
    check_acl, check_acl_as, check_acl_at, decide, AclError, CheckAction, CheckEvent, CheckState,
};
use acl_engine::acl::check_credential_at;
use acl_engine::key::{
    create_token_time_h, create_token_until, generate_token_at, Credential, InvalidCredential, Key,
};
use acl_engine::operation::Operation;
use acl_engine::text::same_text;
use acl_engine::sql_acl::{
    add_acl, add_resource, get_acl, get_all_resource, get_resource_id, init_base_data_acl,
    init_user_acl, query_user_acl, remove_acl, remove_acl_by_resource_id, remove_resource,
    remove_resource_and_acl, AclStore, Resource, StorageError,
};
use acl_engine::user_acl::group_user_acl;

fn user(uid: u64) -> Result<u64, InvalidCredential> {
    Ok(uid)
}

fn store_with(names: &[&str]) -> AclStore {
    let mut conn = AclStore::new();
    for name in names {
        add_resource(&mut conn, name).unwrap();
    }
    conn
}

#[test]
fn test_acl() {
    let mut conn = AclStore::new();
    init_base_data_acl(&mut conn, 1).unwrap();
    let user_resource = query_user_acl(&conn, 1);
    println!("{:#?}", user_resource);
    assert_eq!(user_resource.len(), 2);
    assert_eq!(user_resource[0].resource, "resource");
    assert_eq!(user_resource[0].operations, vec!["Add", "Remove", "Check"]);
    assert_eq!(user_resource[1].resource, "operation");
    assert_eq!(user_resource[1].operations, vec!["Add", "Remove", "Check"]);
}

#[test]
fn operation_names() {
    assert_eq!(Operation::Add.to_string(), "Add");
    assert_eq!(Operation::Remove.to_string(), "Remove");
    assert_eq!(Operation::Update.to_string(), "Update");
    assert_eq!(Operation::Check.to_string(), "Check");
    assert_eq!(Operation::Unknown.to_string(), "Null");
    assert_eq!(Operation::default(), "operation");
    assert_eq!(Resource::default(), "resource");
}

#[test]
fn operation_parsing_is_exact() {
    assert_eq!(Operation::from_string("Add"), Operation::Add);
    assert_eq!(Operation::from_string("Remove"), Operation::Remove);
    assert_eq!(Operation::from_string("Update"), Operation::Update);
    assert_eq!(Operation::from_string("Check"), Operation::Check);
    for text in ["", "add", "ADD", "Add ", " Add", "Null", "DROP TABLE", "Unknown", "Checks"] {
        assert_eq!(Operation::from_string(text), Operation::Unknown, "{:?}", text);
    }
}

#[test]
fn operation_written_and_read_back() {
    for op in [Operation::Add, Operation::Remove, Operation::Update, Operation::Check] {
        assert_eq!(Operation::from_string(&op.to_string()), op);
    }
    assert_eq!(Operation::from_string(&Operation::Unknown.to_string()), Operation::Unknown);
}

#[test]
fn get_operation_is_membership() {
    let held = vec![Operation::Add, Operation::Check];
    assert!(Operation::get_operation(held.clone(), &Operation::Add));
    assert!(Operation::get_operation(held.clone(), &Operation::Check));
    assert!(!Operation::get_operation(held.clone(), &Operation::Remove));
    assert!(!Operation::get_operation(Vec::new(), &Operation::Add));
    assert!(Operation::get_operation(vec![Operation::Unknown], &Operation::Unknown));
}

#[test]
fn same_text_compares_characters() {
    assert!(same_text("abc", "abc"));
    assert!(!same_text("abc", "abd"));
    assert!(!same_text("abc", "ab"));
    assert!(same_text("", ""));
}

#[test]
fn acl_error_messages() {
    assert_eq!(AclError::NotFound.to_string(), "Not Found");
    assert_eq!(AclError::InvalidPermission.to_string(), "Invalid Permission");
    assert_eq!(AclError::ExpiredVerification.to_string(), "Expired Verification");
}

#[test]
fn resources_get_ids_in_order() {
    let mut conn = AclStore::new();
    assert_eq!(add_resource(&mut conn, "alpha"), Ok(()));
    assert_eq!(add_resource(&mut conn, "beta"), Ok(()));
    assert_eq!(get_resource_id(&conn, "alpha"), Ok(1));
    assert_eq!(get_resource_id(&conn, "beta"), Ok(2));
    assert_eq!(get_resource_id(&conn, "gamma"), Err(StorageError::NotFound));
    let all = get_all_resource(&conn);
    assert_eq!(all.len(), 2);
    assert_eq!((all[0].id, all[0].name.as_str()), (1, "alpha"));
    assert_eq!((all[1].id, all[1].name.as_str()), (2, "beta"));
}

#[test]
fn duplicate_resource_is_refused_and_changes_nothing() {
    let mut conn = store_with(&["alpha"]);
    assert_eq!(add_resource(&mut conn, "alpha"), Err(StorageError::Duplicate));
    assert_eq!(get_all_resource(&conn).len(), 1);
    assert_eq!(get_resource_id(&conn, "alpha"), Ok(1));
}

#[test]
fn removing_a_resource_that_is_absent_is_no_error() {
    let mut conn = store_with(&["alpha"]);
    remove_resource(&mut conn, "beta");
    assert_eq!(get_all_resource(&conn).len(), 1);
    remove_resource(&mut conn, "alpha");
    assert_eq!(get_all_resource(&conn).len(), 0);
    assert_eq!(get_resource_id(&conn, "alpha"), Err(StorageError::NotFound));
}

#[test]
fn the_last_id_is_never_given() {
    assert!(AclStore::starting_at(0).is_none());
    assert!(AclStore::starting_at(-3).is_none());
    let mut conn = AclStore::starting_at(i64::MAX - 1).unwrap();
    assert_eq!(add_resource(&mut conn, "alpha"), Ok(()));
    assert_eq!(get_resource_id(&conn, "alpha"), Ok(i64::MAX - 1));
    assert_eq!(add_resource(&mut conn, "beta"), Err(StorageError::Exhausted));
    assert_eq!(add_resource(&mut conn, "alpha"), Err(StorageError::Duplicate));
    assert_eq!(get_all_resource(&conn).len(), 1);
}

#[test]
fn bootstrap_without_ids_reports_what_is_missing() {
    let mut conn = AclStore::starting_at(i64::MAX).unwrap();
    assert_eq!(init_base_data_acl(&mut conn, 1), Err(StorageError::NotFound));
    assert_eq!(get_all_resource(&conn).len(), 0);
    assert_eq!(query_user_acl(&conn, 1).len(), 0);
}

#[test]
fn ids_are_not_given_again() {
    let mut conn = store_with(&["alpha", "beta"]);
    remove_resource(&mut conn, "beta");
    add_resource(&mut conn, "gamma").unwrap();
    assert_eq!(get_resource_id(&conn, "gamma"), Ok(3));
}

#[test]
fn grants_are_read_in_order() {
    let mut conn = store_with(&["alpha"]);
    assert_eq!(add_acl(&mut conn, 1, 1, &Operation::Check), Ok(()));
    assert_eq!(add_acl(&mut conn, 1, 1, &Operation::Add), Ok(()));
    assert_eq!(add_acl(&mut conn, 2, 1, &Operation::Update), Ok(()));
    assert_eq!(get_acl(&conn, 1, 1), vec![Operation::Check, Operation::Add]);
    assert_eq!(get_acl(&conn, 2, 1), vec![Operation::Update]);
    assert_eq!(get_acl(&conn, 3, 1), Vec::<Operation>::new());
    assert_eq!(get_acl(&conn, 1, 2), Vec::<Operation>::new());
}

#[test]
fn duplicate_grant_is_refused_and_changes_nothing() {
    let mut conn = store_with(&["alpha"]);
    add_acl(&mut conn, 1, 1, &Operation::Add).unwrap();
    assert_eq!(add_acl(&mut conn, 1, 1, &Operation::Add), Err(StorageError::Duplicate));
    assert_eq!(get_acl(&conn, 1, 1), vec![Operation::Add]);
}

#[test]
fn revoking_takes_one_triple() {
    let mut conn = store_with(&["alpha"]);
    add_acl(&mut conn, 1, 1, &Operation::Add).unwrap();
    add_acl(&mut conn, 1, 1, &Operation::Check).unwrap();
    add_acl(&mut conn, 2, 1, &Operation::Add).unwrap();
    remove_acl(&mut conn, 1, 1, "Add");
    assert_eq!(get_acl(&conn, 1, 1), vec![Operation::Check]);
    assert_eq!(get_acl(&conn, 2, 1), vec![Operation::Add]);
    remove_acl(&mut conn, 1, 1, "Add");
    remove_acl(&mut conn, 1, 1, "nothing");
    assert_eq!(get_acl(&conn, 1, 1), vec![Operation::Check]);
}

#[test]
fn revoking_by_resource_takes_every_grant_on_it() {
    let mut conn = store_with(&["alpha", "beta"]);
    add_acl(&mut conn, 1, 1, &Operation::Add).unwrap();
    add_acl(&mut conn, 2, 1, &Operation::Check).unwrap();
    add_acl(&mut conn, 1, 2, &Operation::Add).unwrap();
    remove_acl_by_resource_id(&mut conn, 1);
    assert_eq!(get_acl(&conn, 1, 1), Vec::<Operation>::new());
    assert_eq!(get_acl(&conn, 2, 1), Vec::<Operation>::new());
    assert_eq!(get_acl(&conn, 1, 2), vec![Operation::Add]);
}

#[test]
fn decide_allows_what_is_held() {
    let held = vec![Operation::Add, Operation::Check];
    assert_eq!(decide(held.clone(), "Add"), Ok(()));
    assert_eq!(decide(held.clone(), "Check"), Ok(()));
    assert_eq!(decide(held.clone(), "Remove"), Err(AclError::InvalidPermission));
    assert_eq!(decide(Vec::new(), "Add"), Err(AclError::InvalidPermission));
}

#[test]
fn unknown_in_the_grants_allows_nothing() {
    let held = vec![Operation::Unknown];
    for text in ["Add", "Remove", "Update", "Check", "Null", "", "whatever"] {
        assert_eq!(decide(held.clone(), text), Err(AclError::InvalidPermission), "{:?}", text);
    }
}

#[test]
fn user_without_grants_has_no_permission() {
    let mut conn = store_with(&["alpha"]);
    add_acl(&mut conn, 2, 1, &Operation::Add).unwrap();
    for text in ["Add", "Remove", "Update", "Check"] {
        assert_eq!(check_acl_as(&conn, user(1), "alpha", text), Err(AclError::InvalidPermission));
    }
}

#[test]
fn granted_operation_is_allowed_and_no_other() {
    let mut conn = store_with(&["alpha"]);
    add_acl(&mut conn, 1, 1, &Operation::Update).unwrap();
    assert_eq!(check_acl_as(&conn, user(1), "alpha", "Update"), Ok(()));
    for text in ["Add", "Remove", "Check"] {
        assert_eq!(check_acl_as(&conn, user(1), "alpha", text), Err(AclError::InvalidPermission));
    }
}

#[test]
fn strange_operations_are_denied_even_with_every_grant() {
    let mut conn = store_with(&["alpha"]);
    for op in [Operation::Add, Operation::Remove, Operation::Update, Operation::Check] {
        add_acl(&mut conn, 1, 1, &op).unwrap();
    }
    add_acl(&mut conn, 1, 1, &Operation::Unknown).unwrap();
    for text in ["", "DROP TABLE", "add", "Null", "Add;"] {
        assert_eq!(
            check_acl_as(&conn, user(1), "alpha", text),
            Err(AclError::InvalidPermission),
            "{:?}",
            text
        );
    }
    assert_eq!(check_acl_as(&conn, user(1), "alpha", "Add"), Ok(()));
}

#[test]
fn removed_resource_is_not_found() {
    let mut conn = store_with(&["alpha", "beta"]);
    add_acl(&mut conn, 1, 1, &Operation::Add).unwrap();
    add_acl(&mut conn, 1, 2, &Operation::Add).unwrap();
    assert_eq!(check_acl_as(&conn, user(1), "alpha", "Add"), Ok(()));
    let id = get_resource_id(&conn, "alpha").unwrap();
    remove_resource(&mut conn, "alpha");
    remove_acl_by_resource_id(&mut conn, id);
    assert_eq!(check_acl_as(&conn, user(1), "alpha", "Add"), Err(AclError::NotFound));
    assert_eq!(check_acl_as(&conn, user(1), "beta", "Add"), Ok(()));
    assert_eq!(get_acl(&conn, 1, id), Vec::<Operation>::new());
}

#[test]
fn removing_a_resource_with_its_grants() {
    let mut conn = store_with(&["alpha", "beta"]);
    add_acl(&mut conn, 1, 1, &Operation::Add).unwrap();
    add_acl(&mut conn, 1, 2, &Operation::Add).unwrap();
    assert_eq!(remove_resource_and_acl(&mut conn, "alpha"), Ok(1));
    assert_eq!(check_acl_as(&conn, user(1), "alpha", "Add"), Err(AclError::NotFound));
    assert_eq!(get_acl(&conn, 1, 1), Vec::<Operation>::new());
    assert_eq!(get_acl(&conn, 1, 2), vec![Operation::Add]);
    assert_eq!(remove_resource_and_acl(&mut conn, "alpha"), Err(StorageError::NotFound));
    assert_eq!(get_all_resource(&conn).len(), 1);
}

#[test]
fn failed_credential_comes_before_everything_else() {
    let conn = store_with(&["alpha"]);
    assert_eq!(
        check_acl_as(&conn, Err(InvalidCredential), "alpha", "Add"),
        Err(AclError::ExpiredVerification)
    );
    assert_eq!(
        check_acl_as(&conn, Err(InvalidCredential), "missing", ""),
        Err(AclError::ExpiredVerification)
    );
    assert_eq!(check_acl_as(&conn, user(1), "missing", "Add"), Err(AclError::NotFound));
}

#[test]
fn bootstrap_scenario() {
    let mut conn = AclStore::new();
    assert_eq!(init_base_data_acl(&mut conn, 1), Ok(()));
    let token = create_token_time_h(1, 12);
    assert_eq!(check_acl(&conn, &token, "resource", "Add"), Ok(()));
    assert_eq!(check_acl(&conn, &token, "resource", "Remove"), Ok(()));
    assert_eq!(check_acl(&conn, &token, "resource", "Check"), Ok(()));
    assert_eq!(check_acl(&conn, &token, "resource", "Update"), Err(AclError::InvalidPermission));
    assert_eq!(check_acl(&conn, &token, "operation", "Add"), Ok(()));
    assert_eq!(check_acl(&conn, &token, "operation", "Update"), Err(AclError::InvalidPermission));
    assert_eq!(check_acl(&conn, &token, "user", "Add"), Err(AclError::NotFound));
    let stranger = create_token_time_h(2, 12);
    assert_eq!(check_acl(&conn, &stranger, "resource", "Add"), Err(AclError::InvalidPermission));
}

#[test]
fn bootstrap_twice_changes_nothing() {
    let mut conn = AclStore::new();
    init_base_data_acl(&mut conn, 1).unwrap();
    assert_eq!(init_base_data_acl(&mut conn, 1), Ok(()));
    assert_eq!(get_all_resource(&conn).len(), 2);
    assert_eq!(get_resource_id(&conn, "resource"), Ok(1));
    assert_eq!(get_resource_id(&conn, "operation"), Ok(2));
    assert_eq!(get_acl(&conn, 1, 1), vec![Operation::Add, Operation::Remove, Operation::Check]);
    assert_eq!(get_acl(&conn, 1, 2), vec![Operation::Add, Operation::Remove, Operation::Check]);
}

#[test]
fn init_user_acl_grants_three_operations() {
    let mut conn = store_with(&["alpha"]);
    add_acl(&mut conn, 4, 1, &Operation::Remove).unwrap();
    assert_eq!(init_user_acl(&mut conn, 4, "alpha"), Ok(()));
    assert_eq!(get_acl(&conn, 4, 1), vec![Operation::Remove, Operation::Add, Operation::Check]);
    assert_eq!(init_user_acl(&mut conn, 4, "missing"), Err(StorageError::NotFound));
    assert_eq!(get_acl(&conn, 4, 1).len(), 3);
}

#[test]
fn check_with_a_token_at_a_moment() {
    let mut conn = store_with(&["alpha"]);
    add_acl(&mut conn, 1, 1, &Operation::Add).unwrap();
    let token = create_token_until(1, 5_000);
    assert_eq!(check_acl_at(&conn, &token, "alpha", "Add", 5_000), Ok(()));
    assert_eq!(check_acl_at(&conn, &token, "alpha", "Add", 5_001), Err(AclError::ExpiredVerification));
    assert_eq!(check_acl_at(&conn, &token, "alpha", "Remove", 4_000), Err(AclError::InvalidPermission));
    assert_eq!(check_acl_at(&conn, &token, "beta", "Add", 4_000), Err(AclError::NotFound));
    assert_eq!(check_acl_at(&conn, "junk", "alpha", "Add", 0), Err(AclError::ExpiredVerification));
}

#[test]
fn check_with_a_credential_of_either_kind() {
    let mut conn = store_with(&["alpha"]);
    add_acl(&mut conn, 1, 1, &Operation::Add).unwrap();
    let key = Key::new("name", "address");
    let signed = Credential::Signed(create_token_until(1, 5_000));
    assert_eq!(check_credential_at(&conn, &key, &signed, "alpha", "Add", 5_000_999), Ok(()));
    assert_eq!(
        check_credential_at(&conn, &key, &signed, "alpha", "Add", 5_001_000),
        Err(AclError::ExpiredVerification)
    );
    let sealed = Credential::Legacy(generate_token_at(&key, 1, 1_000).unwrap());
    assert_eq!(check_credential_at(&conn, &key, &sealed, "alpha", "Add", 2_000), Ok(()));
    assert_eq!(
        check_credential_at(&conn, &key, &sealed, "alpha", "Remove", 2_000),
        Err(AclError::InvalidPermission)
    );
    assert_eq!(
        check_credential_at(&conn, &key, &sealed, "alpha", "Add", 1_000 + 43_200_001),
        Err(AclError::ExpiredVerification)
    );
    let swapped = Credential::Legacy(create_token_until(1, 5_000));
    assert_eq!(
        check_credential_at(&conn, &key, &swapped, "alpha", "Add", 2_000),
        Err(AclError::ExpiredVerification)
    );
}

#[test]
fn expired_token_is_refused_by_the_check() {
    let mut conn = store_with(&["alpha"]);
    add_acl(&mut conn, 1, 1, &Operation::Add).unwrap();
    let expired = acl_engine::key::create_token_time_s(1, u128::MAX);
    assert_eq!(check_acl(&conn, &expired, "alpha", "Add"), Err(AclError::ExpiredVerification));
}

#[test]
fn machine_walks_through_its_states() {
    let start = CheckState::start();
    assert_eq!(start, CheckState::ResolveIdentity);
    assert_eq!(start.action(), CheckAction::VerifyCredential);
    let second = start.step(CheckEvent::Identity(user(7)), "Add");
    assert_eq!(second, CheckState::ResolveResource { uid: 7 });
    assert_eq!(second.action(), CheckAction::LookupResource);
    let third = second.step(CheckEvent::ResourceId(Ok(3)), "Add");
    assert_eq!(third, CheckState::FetchGrants { uid: 7, resource_id: 3 });
    assert_eq!(third.action(), CheckAction::FetchGrants { uid: 7, resource_id: 3 });
    let allowed = third.step(CheckEvent::Grants(Ok(vec![Operation::Add])), "Add");
    assert_eq!(allowed, CheckState::Allow);
    assert_eq!(allowed.action(), CheckAction::Finish(Ok(())));
    let denied = third.step(CheckEvent::Grants(Ok(vec![Operation::Add])), "Remove");
    assert_eq!(denied, CheckState::Deny(AclError::InvalidPermission));
    assert_eq!(denied.action(), CheckAction::Finish(Err(AclError::InvalidPermission)));
}

#[test]
fn machine_maps_failures_to_reasons() {
    let start = CheckState::start();
    assert_eq!(
        start.step(CheckEvent::Identity(Err(InvalidCredential)), "Add"),
        CheckState::Deny(AclError::ExpiredVerification)
    );
    let second = CheckState::ResolveResource { uid: 7 };
    assert_eq!(
        second.step(CheckEvent::ResourceId(Err(StorageError::NotFound)), "Add"),
        CheckState::Deny(AclError::NotFound)
    );
    let third = CheckState::FetchGrants { uid: 7, resource_id: 3 };
    assert_eq!(
        third.step(CheckEvent::Grants(Err(StorageError::NotFound)), "Add"),
        CheckState::Deny(AclError::NotFound)
    );
}

#[test]
fn machine_ignores_an_event_it_did_not_ask_for() {
    let start = CheckState::start();
    assert_eq!(start.step(CheckEvent::ResourceId(Ok(1)), "Add"), start);
    let third = CheckState::FetchGrants { uid: 7, resource_id: 3 };
    assert_eq!(third.step(CheckEvent::Identity(user(1)), "Add"), third);
    assert_eq!(CheckState::Allow.step(CheckEvent::Identity(Err(InvalidCredential)), "Add"), CheckState::Allow);
    let denied = CheckState::Deny(AclError::NotFound);
    assert_eq!(denied.step(CheckEvent::Grants(Ok(vec![Operation::Add])), "Add"), denied);
}

#[test]
fn grouping_keeps_the_order_of_discovery() {
    let rows = vec![
        (String::from("b"), String::from("Add")),
        (String::from("a"), String::from("Check")),
        (String::from("b"), String::from("Remove")),
        (String::from("a"), String::from("Check")),
    ];
    let list = group_user_acl(&rows);
    assert_eq!(list.len(), 2);
    assert_eq!(list[0].resource, "b");
    assert_eq!(list[0].operations, vec!["Add", "Remove"]);
    assert_eq!(list[1].resource, "a");
    assert_eq!(list[1].operations, vec!["Check", "Check"]);
    assert_eq!(group_user_acl(&Vec::new()).len(), 0);
}

#[test]
fn listing_agrees_with_the_check() {
    let mut conn = store_with(&["alpha", "beta", "gamma"]);
    add_acl(&mut conn, 1, 1, &Operation::Add).unwrap();
    add_acl(&mut conn, 1, 2, &Operation::Check).unwrap();
    add_acl(&mut conn, 1, 2, &Operation::Update).unwrap();
    add_acl(&mut conn, 2, 3, &Operation::Remove).unwrap();
    remove_resource(&mut conn, "beta");
    add_resource(&mut conn, "beta").unwrap();
    add_acl(&mut conn, 1, 4, &Operation::Remove).unwrap();
    let list = query_user_acl(&conn, 1);
    for resource in ["alpha", "beta", "gamma", "delta"] {
        for operation in ["Add", "Remove", "Update", "Check"] {
            let shown = list.iter().any(|entry| {
                entry.resource == resource && entry.operations.iter().any(|o| o == operation)
            });
            let allowed = check_acl_as(&conn, user(1), resource, operation) == Ok(());
            assert_eq!(shown, allowed, "{} {}", resource, operation);
        }
    }
    assert_eq!(check_acl_as(&conn, user(1), "beta", "Remove"), Ok(()));
    assert_eq!(check_acl_as(&conn, user(1), "beta", "Check"), Err(AclError::InvalidPermission));
}

#[test]
fn user_acl_leaves_out_grants_on_missing_resources() {
    let mut conn = store_with(&["alpha", "beta"]);
    add_acl(&mut conn, 1, 2, &Operation::Add).unwrap();
    add_acl(&mut conn, 1, 9, &Operation::Add).unwrap();
    add_acl(&mut conn, 1, 1, &Operation::Unknown).unwrap();
    add_acl(&mut conn, 2, 1, &Operation::Check).unwrap();
    let list = query_user_acl(&conn, 1);
    assert_eq!(list.len(), 2);
    assert_eq!(list[0].resource, "beta");
    assert_eq!(list[0].operations, vec!["Add"]);
    assert_eq!(list[1].resource, "alpha");
    assert_eq!(list[1].operations, vec!["Null"]);
    assert_eq!(query_user_acl(&conn, 3).len(), 0);
}
