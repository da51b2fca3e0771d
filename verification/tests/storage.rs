use federated_gateway::decimal::Decimal;
use federated_gateway::decimal::DecimalParts;
use federated_gateway::models::Entity;
use federated_gateway::models::Product;
use federated_gateway::models::ProductPatch;
use federated_gateway::models::User;
use federated_gateway::models::UserPatch;
use federated_gateway::storage::key_value::KeyValueAdapter;
use federated_gateway::storage::key_value::Member;
use federated_gateway::storage::key_value::SetWrite;
use federated_gateway::storage::StorageAdapter;
use federated_gateway::storage::StorageError;

fn user(id: &str, name: &str, email: &str) -> User {
    User { id: id.to_string(), name: name.to_string(), email: email.to_string() }
}

fn price(text: &str) -> Decimal {
    Decimal::from_text(text).unwrap()
}

fn stored(text: &str, record: Option<User>) -> Member<User> {
    Member::scanned(text.to_string(), record.ok_or("no record".to_string()))
}

#[test]
fn key_value_create_then_find_round_trip() {
    let mut adapter: KeyValueAdapter<User> = KeyValueAdapter::open(Vec::new());
    let created = adapter.create(user("u1", "Ann", "a@x.com"));
    assert_eq!(created, Ok(user("u1", "Ann", "a@x.com")));
    assert_eq!(adapter.find_by_id(&"u1".to_string()), Ok(user("u1", "Ann", "a@x.com")));
    assert_eq!(adapter.find_by_id(&"u2".to_string()), Err(StorageError::NotFound));
    assert_eq!(adapter.take_writes(), vec![SetWrite::Add(user("u1", "Ann", "a@x.com"))]);
    assert_eq!(adapter.take_writes(), vec![]);
}

#[test]
fn key_value_create_overwrites_a_record_with_the_same_id() {
    let old = stored("{\"id\":\"u1\"}", Some(user("u1", "Old", "o@x.com")));
    let other = stored("{\"id\":\"u2\"}", Some(user("u2", "Bob", "b@x.com")));
    let mut adapter = KeyValueAdapter::open(vec![old, other]);
    assert_eq!(adapter.create(user("u1", "New", "n@x.com")), Ok(user("u1", "New", "n@x.com")));
    assert_eq!(adapter.find_by_id(&"u1".to_string()), Ok(user("u1", "New", "n@x.com")));
    assert_eq!(adapter.find_by_id(&"u2".to_string()), Ok(user("u2", "Bob", "b@x.com")));
    assert_eq!(
        adapter.take_writes(),
        vec![
            SetWrite::Remove(stored("{\"id\":\"u1\"}", Some(user("u1", "Old", "o@x.com")))),
            SetWrite::Add(user("u1", "New", "n@x.com")),
        ]
    );
    let all = adapter.scan();
    assert_eq!(all, Ok(vec![user("u2", "Bob", "b@x.com"), user("u1", "New", "n@x.com")]));
}

#[test]
fn key_value_update_changes_only_the_supplied_fields() {
    let mut adapter = KeyValueAdapter::open(vec![
        stored("a", Some(user("u1", "Ann", "a@x.com"))),
        stored("b", Some(user("u2", "Bob", "b@x.com"))),
    ]);
    let patch = UserPatch { name: None, email: Some("new@x.com".to_string()) };
    assert_eq!(adapter.update(&"u1".to_string(), &patch), Ok(user("u1", "Ann", "new@x.com")));
    assert_eq!(adapter.find_by_id(&"u1".to_string()), Ok(user("u1", "Ann", "new@x.com")));
    assert_eq!(adapter.find_by_id(&"u2".to_string()), Ok(user("u2", "Bob", "b@x.com")));
    let patch = UserPatch { name: Some("Anna".to_string()), email: None };
    assert_eq!(adapter.update(&"u1".to_string(), &patch), Ok(user("u1", "Anna", "new@x.com")));
    let nothing = UserPatch { name: None, email: None };
    assert_eq!(adapter.update(&"u1".to_string(), &nothing), Ok(user("u1", "Anna", "new@x.com")));
    assert_eq!(
        adapter.take_writes(),
        vec![
            SetWrite::Remove(stored("a", Some(user("u1", "Ann", "a@x.com")))),
            SetWrite::Add(user("u1", "Ann", "new@x.com")),
            SetWrite::Remove(Member::Added(user("u1", "Ann", "new@x.com"))),
            SetWrite::Add(user("u1", "Anna", "new@x.com")),
            SetWrite::Remove(Member::Added(user("u1", "Anna", "new@x.com"))),
            SetWrite::Add(user("u1", "Anna", "new@x.com")),
        ]
    );
}

#[test]
fn key_value_update_of_a_missing_id_stores_nothing() {
    let mut adapter = KeyValueAdapter::open(vec![stored("a", Some(user("u1", "Ann", "a@x.com")))]);
    let patch = UserPatch { name: Some("X".to_string()), email: Some("x@x.com".to_string()) };
    assert_eq!(adapter.update(&"nobody".to_string(), &patch), Err(StorageError::NotFound));
    assert_eq!(adapter.find_by_id(&"nobody".to_string()), Err(StorageError::NotFound));
    assert_eq!(adapter.take_writes(), vec![]);
    assert_eq!(adapter.scan(), Ok(vec![user("u1", "Ann", "a@x.com")]));
}

#[test]
fn key_value_delete_says_whether_a_record_was_removed() {
    let mut adapter = KeyValueAdapter::open(vec![
        stored("a", Some(user("u1", "Ann", "a@x.com"))),
        stored("b", Some(user("u2", "Bob", "b@x.com"))),
    ]);
    assert_eq!(adapter.delete(&"u1".to_string()), Ok(true));
    assert_eq!(adapter.find_by_id(&"u1".to_string()), Err(StorageError::NotFound));
    assert_eq!(adapter.delete(&"u1".to_string()), Ok(false));
    assert_eq!(adapter.delete(&"never".to_string()), Ok(false));
    assert_eq!(adapter.find_by_id(&"u2".to_string()), Ok(user("u2", "Bob", "b@x.com")));
    assert_eq!(
        adapter.take_writes(),
        vec![SetWrite::Remove(stored("a", Some(user("u1", "Ann", "a@x.com"))))]
    );
}

#[test]
fn key_value_scan_lists_every_record_in_order() {
    let adapter = KeyValueAdapter::open(vec![
        stored("a", Some(user("u1", "Ann", "a@x.com"))),
        stored("b", Some(user("u2", "Bob", "b@x.com"))),
    ]);
    let all = adapter.scan();
    assert_eq!(all, Ok(vec![user("u1", "Ann", "a@x.com"), user("u2", "Bob", "b@x.com")]));
    let empty: KeyValueAdapter<User> = KeyValueAdapter::open(Vec::new());
    assert_eq!(empty.scan(), Ok(vec![]));
}

#[test]
fn key_value_scan_reports_the_first_member_without_a_record() {
    let adapter = KeyValueAdapter::open(vec![
        stored("a", Some(user("u1", "Ann", "a@x.com"))),
        Member::scanned("not json".to_string(), Err("expected value at line 1".to_string())),
        stored("b", Some(user("u2", "Bob", "b@x.com"))),
        Member::scanned("{}".to_string(), Err("missing field `id`".to_string())),
    ]);
    let report = "malformed record not json: expected value at line 1".to_string();
    assert_eq!(adapter.scan(), Err(StorageError::BackendFailure(report)));
}

#[test]
fn key_value_searches_fail_on_a_member_without_a_record() {
    let mut adapter = KeyValueAdapter::open(vec![
        stored("a", Some(user("u1", "Ann", "a@x.com"))),
        Member::scanned("??".to_string(), Err("no record".to_string())),
    ]);
    let failure = StorageError::BackendFailure("malformed record ??: no record".to_string());
    assert_eq!(adapter.find_by_id(&"u1".to_string()), Err(failure));
    let patch = UserPatch { name: Some("Anna".to_string()), email: None };
    let failure = StorageError::BackendFailure("malformed record ??: no record".to_string());
    assert_eq!(adapter.update(&"u1".to_string(), &patch), Err(failure));
    let failure = StorageError::BackendFailure("malformed record ??: no record".to_string());
    assert_eq!(adapter.delete(&"u1".to_string()), Err(failure));
    assert_eq!(adapter.take_writes(), vec![]);
    assert!(adapter.scan().is_err());
}

#[test]
fn key_value_create_does_not_need_to_read_every_member() {
    let mut adapter = KeyValueAdapter::open(vec![
        Member::scanned("??".to_string(), Err("no record".to_string())),
        stored("a", Some(user("u1", "Ann", "a@x.com"))),
    ]);
    assert_eq!(adapter.create(user("u2", "Bob", "b@x.com")), Ok(user("u2", "Bob", "b@x.com")));
    assert_eq!(adapter.take_writes(), vec![SetWrite::Add(user("u2", "Bob", "b@x.com"))]);
}

#[test]
fn key_value_finds_the_last_of_two_members_with_one_id_and_removes_both() {
    let mut adapter = KeyValueAdapter::open(vec![
        stored("a", Some(user("u1", "First", "1@x.com"))),
        stored("b", Some(user("u1", "Second", "2@x.com"))),
    ]);
    assert_eq!(adapter.find_by_id(&"u1".to_string()), Ok(user("u1", "Second", "2@x.com")));
    assert_eq!(adapter.delete(&"u1".to_string()), Ok(true));
    assert_eq!(adapter.find_by_id(&"u1".to_string()), Err(StorageError::NotFound));
    assert_eq!(
        adapter.take_writes(),
        vec![
            SetWrite::Remove(stored("a", Some(user("u1", "First", "1@x.com")))),
            SetWrite::Remove(stored("b", Some(user("u1", "Second", "2@x.com")))),
        ]
    );
}

#[test]
fn key_value_holds_products_with_their_prices() {
    let mut adapter: KeyValueAdapter<Product> = KeyValueAdapter::open(Vec::new());
    let tea = Product { id: "tea-1".to_string(), name: "Tea".to_string(), price: price("4.50") };
    assert!(adapter.create(tea).is_ok());
    let found = adapter.find_by_id(&"tea-1".to_string()).unwrap();
    assert_eq!(found.name, "Tea");
    assert_eq!(found.price, price("4.50"));
    let patch = ProductPatch { name: None, price: Some(price("5")) };
    let changed = adapter.update(&"tea-1".to_string(), &patch).unwrap();
    assert_eq!(changed.name, "Tea");
    assert_eq!(changed.price.to_text(), "5");
    let patch = ProductPatch { name: Some("Green tea".to_string()), price: None };
    let changed = adapter.update(&"tea-1".to_string(), &patch).unwrap();
    assert_eq!(changed.name, "Green tea");
    assert_eq!(changed.price.to_text(), "5");
}

#[test]
fn member_knows_its_record_and_its_id() {
    let member = stored("a", Some(user("u1", "Ann", "a@x.com")));
    assert!(member.holds(&"u1".to_string()));
    assert!(!member.holds(&"u2".to_string()));
    assert_eq!(member.record(), Some(&user("u1", "Ann", "a@x.com")));
    let blank = stored("??", None);
    assert!(!blank.holds(&"".to_string()));
    assert_eq!(blank.record(), None);
    let damaged = Member::Damaged { text: "??".to_string(), cause: "no record".to_string() };
    assert_eq!(blank, damaged);
    let added = Member::Added(user("u3", "Cy", "c@x.com"));
    assert!(added.holds(&"u3".to_string()));
}

#[test]
fn entities_name_their_collections() {
    assert_eq!(User::collection(), "users");
    assert_eq!(Product::collection(), "products");
}

#[test]
fn entity_apply_and_with_id() {
    let ann = user("u1", "Ann", "a@x.com");
    assert_eq!(ann.id(), "u1");
    let copy = ann.duplicate();
    assert_eq!(copy, ann);
    let moved = copy.with_id("u9".to_string());
    assert_eq!(moved, user("u9", "Ann", "a@x.com"));
    let patch = UserPatch { name: Some("Bea".to_string()), email: None };
    assert_eq!(ann.apply(&patch), user("u1", "Bea", "a@x.com"));
    let tea = Product { id: "tea-1".to_string(), name: "Tea".to_string(), price: price("1.0") };
    assert_eq!(tea.duplicate(), tea);
    assert_eq!(tea.duplicate().with_id("tea-2".to_string()).id, "tea-2");
    let parts = DecimalParts { negative: false, digits: vec![2], scale: 0 };
    let patch = ProductPatch { name: None, price: Decimal::from_parts(parts) };
    assert_eq!(tea.apply(&patch).price.to_text(), "2");
    assert_eq!(tea.apply(&patch).name, "Tea");
}
