use federated_gateway::connection::ConnectionManager;
use federated_gateway::models::User;
use federated_gateway::models::UserPatch;
use federated_gateway::resolver::surface;
use federated_gateway::resolver::ResolverError;
use federated_gateway::scalars::ValidationError;
use federated_gateway::scalars::WireKind;
use federated_gateway::scalars::WireValue;
use federated_gateway::schema::products::ProductMutation;
use federated_gateway::schema::products::ProductQuery;
use federated_gateway::schema::users::UserMutation;
use federated_gateway::schema::users::UserQuery;
use federated_gateway::storage::key_value::KeyValueAdapter;
use federated_gateway::storage::key_value::Member;
use federated_gateway::storage::key_value::SetWrite;
use federated_gateway::storage::StorageError;
use federated_gateway::models::Product;

fn user(id: &str, name: &str, email: &str) -> User {
    User { id: id.to_string(), name: name.to_string(), email: email.to_string() }
}

fn users() -> ConnectionManager<KeyValueAdapter<User>> {
    ConnectionManager::exclusive(KeyValueAdapter::open(Vec::new()))
}

fn products() -> ConnectionManager<KeyValueAdapter<Product>> {
    ConnectionManager::exclusive(KeyValueAdapter::open(Vec::new()))
}

#[test]
fn user_lifecycle_scenario() {
    let mut connections = users();
    let created = UserMutation.create_user(&mut connections, user("u1", "Ann", "a@x.com"));
    assert_eq!(created, Ok(user("u1", "Ann", "a@x.com")));
    let found = UserQuery.user(&mut connections, &"u1".to_string());
    assert_eq!(found, Ok(user("u1", "Ann", "a@x.com")));
    let patch = UserPatch { name: None, email: Some("b@x.com".to_string()) };
    let updated = UserMutation.update_user(&mut connections, &"u1".to_string(), &patch);
    assert_eq!(updated, Ok(user("u1", "Ann", "b@x.com")));
    let found = UserQuery.user(&mut connections, &"u1".to_string());
    assert_eq!(found, Ok(user("u1", "Ann", "b@x.com")));
    assert_eq!(UserMutation.delete_user(&mut connections, &"u1".to_string()), Ok(true));
    let found = UserQuery.user(&mut connections, &"u1".to_string());
    assert_eq!(found, Err(ResolverError::NotFound));
    assert_eq!(connections.available(), 1);
}

#[test]
fn delete_of_a_missing_user_is_no_error() {
    let mut connections = users();
    assert_eq!(UserMutation.delete_user(&mut connections, &"ghost".to_string()), Ok(false));
}

#[test]
fn update_of_a_missing_user_is_not_found() {
    let mut connections = users();
    let patch = UserPatch { name: Some("N".to_string()), email: None };
    let r = UserMutation.update_user(&mut connections, &"ghost".to_string(), &patch);
    assert_eq!(r, Err(ResolverError::NotFound));
    assert_eq!(UserQuery.user(&mut connections, &"ghost".to_string()), Err(ResolverError::NotFound));
}

#[test]
fn add_user_generates_an_id() {
    let mut connections = users();
    let ann = UserMutation.add_user(&mut connections, "Ann".to_string(), "a@x.com".to_string());
    let ann = ann.unwrap();
    assert_eq!(ann.name, "Ann");
    assert_eq!(ann.email, "a@x.com");
    assert_eq!(ann.id.chars().count(), 36);
    let bob = UserMutation.add_user(&mut connections, "Bob".to_string(), "b@x.com".to_string());
    let bob = bob.unwrap();
    assert_ne!(ann.id, bob.id);
    assert_eq!(UserQuery.user(&mut connections, &ann.id), Ok(ann));
    let all = UserQuery.get_all_users(&mut connections).unwrap();
    assert_eq!(all.len(), 2);
    assert_eq!(all[1], bob);
}

#[test]
fn get_all_users_lists_the_records_of_all_members() {
    let scanned = vec![
        Member::scanned("{\"id\":\"u1\"}".to_string(), Ok(user("u1", "Ann", "a@x.com"))),
        Member::scanned("{\"id\":\"u2\"}".to_string(), Ok(user("u2", "Bob", "b@x.com"))),
    ];
    let mut connections = ConnectionManager::exclusive(KeyValueAdapter::open(scanned));
    let all = UserQuery.get_all_users(&mut connections);
    assert_eq!(all, Ok(vec![user("u1", "Ann", "a@x.com"), user("u2", "Bob", "b@x.com")]));
    assert_eq!(connections.available(), 1);
}

#[test]
fn get_all_users_reports_a_member_that_is_no_user() {
    let scanned = vec![
        Member::scanned("{\"id\":\"u1\"}".to_string(), Ok(user("u1", "Ann", "a@x.com"))),
        Member::scanned("garbage".to_string(), Err("expected value".to_string())),
        Member::scanned("{\"id\":\"u2\"}".to_string(), Ok(user("u2", "Bob", "b@x.com"))),
    ];
    let mut connections = ConnectionManager::exclusive(KeyValueAdapter::open(scanned));
    let all = UserQuery.get_all_users(&mut connections);
    let report = "malformed record garbage: expected value".to_string();
    assert_eq!(all, Err(ResolverError::BackendFailure(report)));
    assert_eq!(connections.available(), 1);
    let damaged: Vec<Member<Product>> =
        vec![Member::scanned("{}".to_string(), Err("missing field `id`".to_string()))];
    let mut connections = ConnectionManager::exclusive(KeyValueAdapter::open(damaged));
    let all = ProductQuery.get_all_products(&mut connections);
    let report = "malformed record {}: missing field `id`".to_string();
    assert_eq!(all, Err(ResolverError::BackendFailure(report)));
}

#[test]
fn add_user_sends_one_addition_and_keeps_every_member() {
    let scanned = vec![Member::scanned("a".to_string(), Ok(user("u1", "Ann", "a@x.com")))];
    let mut connections = ConnectionManager::exclusive(KeyValueAdapter::open(scanned));
    let bob = UserMutation.add_user(&mut connections, "Bob".to_string(), "b@x.com".to_string());
    let bob = bob.unwrap();
    let all = UserQuery.get_all_users(&mut connections).unwrap();
    assert_eq!(all, vec![user("u1", "Ann", "a@x.com"), user(&bob.id, "Bob", "b@x.com")]);
    let mut adapter = connections.acquire().unwrap();
    assert_eq!(adapter.take_writes(), vec![SetWrite::Add(user(&bob.id, "Bob", "b@x.com"))]);
}

#[test]
fn generated_ids_are_hyphenated_lower_case_hexadecimal() {
    let mut connections = users();
    let ann = UserMutation.add_user(&mut connections, "Ann".to_string(), "a@x.com".to_string());
    let id: Vec<char> = ann.unwrap().id.chars().collect();
    assert_eq!(id.len(), 36);
    for (place, c) in id.iter().enumerate() {
        if place == 8 || place == 13 || place == 18 || place == 23 {
            assert_eq!(*c, '-');
        } else {
            assert!(matches!(*c, '0'..='9' | 'a'..='f'));
        }
    }
    assert_eq!(id[14], '4');
    assert!(matches!(id[19], '8' | '9' | 'a' | 'b'));
}

#[test]
fn resolvers_fail_without_an_idle_handle() {
    let mut connections = users();
    let lent = connections.acquire().unwrap();
    let busy = ResolverError::BackendFailure("no storage handle is available".to_string());
    assert_eq!(UserQuery.user(&mut connections, &"u1".to_string()), Err(busy));
    assert!(UserQuery.get_all_users(&mut connections).is_err());
    assert!(UserMutation.create_user(&mut connections, user("u1", "A", "a")).is_err());
    assert!(UserMutation.delete_user(&mut connections, &"u1".to_string()).is_err());
    assert!(connections.release(lent).is_none());
    assert_eq!(UserMutation.delete_user(&mut connections, &"u1".to_string()), Ok(false));
}

#[test]
fn product_lifecycle_with_prices_from_the_wire() {
    let mut connections = products();
    let tea = ProductMutation.create_product(
        &mut connections,
        "tea-1".to_string(),
        "Tea".to_string(),
        WireValue::String("4.50".to_string()),
    );
    let tea = tea.unwrap();
    assert_eq!(tea.id, "tea-1");
    assert_eq!(ProductQuery.price_value(&tea), WireValue::String("4.50".to_string()));
    let changed = ProductMutation.update_product(
        &mut connections,
        &"tea-1".to_string(),
        None,
        Some(WireValue::String("5.25".to_string())),
    );
    let changed = changed.unwrap();
    assert_eq!(changed.name, "Tea");
    assert_eq!(changed.price.to_text(), "5.25");
    let renamed = ProductMutation.update_product(
        &mut connections,
        &"tea-1".to_string(),
        Some("Green tea".to_string()),
        None,
    );
    assert_eq!(renamed.unwrap().price.to_text(), "5.25");
    let found = ProductQuery.product(&mut connections, &"tea-1".to_string()).unwrap();
    assert_eq!(found.name, "Green tea");
    assert_eq!(ProductQuery.get_all_products(&mut connections).unwrap().len(), 1);
    assert_eq!(ProductMutation.delete_product(&mut connections, &"tea-1".to_string()), Ok(true));
    let gone = ProductQuery.product(&mut connections, &"tea-1".to_string());
    assert_eq!(gone, Err(ResolverError::NotFound));
}

#[test]
fn product_mutations_refuse_a_price_that_is_no_decimal() {
    let mut connections = products();
    let bad = ProductMutation.add_product(
        &mut connections,
        "Tea".to_string(),
        WireValue::String("not-a-number".to_string()),
    );
    assert_eq!(bad, Err(ResolverError::Validation(ValidationError::InvalidDecimal)));
    let bad = ProductMutation.create_product(
        &mut connections,
        "tea-1".to_string(),
        "Tea".to_string(),
        WireValue::Other(WireKind::Boolean),
    );
    let expected = ValidationError::UnexpectedType(WireKind::Boolean);
    assert_eq!(bad, Err(ResolverError::Validation(expected)));
    assert_eq!(ProductQuery.get_all_products(&mut connections), Ok(vec![]));
    let good = ProductMutation.add_product(
        &mut connections,
        "Tea".to_string(),
        WireValue::String("3".to_string()),
    );
    let good = good.unwrap();
    assert_eq!(good.id.chars().count(), 36);
    let bad = ProductMutation.update_product(
        &mut connections,
        &good.id,
        Some("Coffee".to_string()),
        Some(WireValue::Other(WireKind::Null)),
    );
    assert!(bad.is_err());
    let found = ProductQuery.product(&mut connections, &good.id).unwrap();
    assert_eq!(found.name, "Tea");
}

#[test]
fn storage_failures_surface_one_for_one() {
    let r: Result<u8, ResolverError> = surface(Err(StorageError::NotFound));
    assert_eq!(r, Err(ResolverError::NotFound));
    let r: Result<u8, ResolverError> = surface(Err(StorageError::DuplicateKey));
    assert_eq!(r, Err(ResolverError::AlreadyExists));
    let r: Result<u8, ResolverError> =
        surface(Err(StorageError::BackendFailure("connection reset".to_string())));
    assert_eq!(r, Err(ResolverError::BackendFailure("connection reset".to_string())));
    let r: Result<u8, ResolverError> = surface(Ok(7));
    assert_eq!(r, Ok(7));
}

#[test]
fn resolver_messages_are_readable() {
    assert_eq!(ResolverError::NotFound.message(), "not found");
    assert_eq!(ResolverError::AlreadyExists.message(), "already exists");
    assert_eq!(
        ResolverError::BackendFailure("connection reset".to_string()).message(),
        "backend failure: connection reset"
    );
    assert_eq!(
        ResolverError::Validation(ValidationError::InvalidDecimal).message(),
        "Invalid BigDecimal value"
    );
}
