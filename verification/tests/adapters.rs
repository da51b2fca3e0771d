use federated_gateway::connection::ConnectionManager;
use federated_gateway::models::User;
use federated_gateway::models::UserPatch;
use federated_gateway::resolver::ResolverError;
use federated_gateway::schema::users::UserMutation;
use federated_gateway::schema::users::UserQuery;
use federated_gateway::storage::backend::Backend;
use federated_gateway::storage::backend::BackendFamily;
use federated_gateway::storage::document::DocumentAdapter;
use federated_gateway::storage::document::DocumentCommand;
use federated_gateway::storage::graph::confirm_created;
use federated_gateway::storage::graph::confirm_deleted;
use federated_gateway::storage::graph::GraphAdapter;
use federated_gateway::storage::graph::GraphStatement;
use federated_gateway::storage::key_value::KeyValueAdapter;
use federated_gateway::storage::records::RecordList;
use federated_gateway::storage::relational::decimal_string;
use federated_gateway::storage::relational::RelationalAdapter;
use federated_gateway::storage::relational::RowCommand;
use federated_gateway::storage::StorageAdapter;
use federated_gateway::storage::StorageError;

fn user(id: &str, name: &str, email: &str) -> User {
    User { id: id.to_string(), name: name.to_string(), email: email.to_string() }
}

fn id(text: &str) -> String {
    text.to_string()
}

fn lifecycle<A: StorageAdapter<User>>(mut adapter: A) {
    assert_eq!(adapter.find_by_id(&id("u1")), Err(StorageError::NotFound));
    assert_eq!(adapter.create(user("u1", "Ann", "a@x.com")), Ok(user("u1", "Ann", "a@x.com")));
    assert_eq!(adapter.create(user("u2", "Bob", "b@x.com")), Ok(user("u2", "Bob", "b@x.com")));
    assert_eq!(adapter.find_by_id(&id("u1")), Ok(user("u1", "Ann", "a@x.com")));
    let patch = UserPatch { name: None, email: Some("b@x.com".to_string()) };
    assert_eq!(adapter.update(&id("u1"), &patch), Ok(user("u1", "Ann", "b@x.com")));
    assert_eq!(adapter.find_by_id(&id("u1")), Ok(user("u1", "Ann", "b@x.com")));
    assert_eq!(adapter.find_by_id(&id("u2")), Ok(user("u2", "Bob", "b@x.com")));
    assert_eq!(adapter.update(&id("u3"), &patch), Err(StorageError::NotFound));
    assert_eq!(adapter.find_by_id(&id("u3")), Err(StorageError::NotFound));
    assert_eq!(adapter.delete(&id("u1")), Ok(true));
    assert_eq!(adapter.find_by_id(&id("u1")), Err(StorageError::NotFound));
    assert_eq!(adapter.delete(&id("u1")), Ok(false));
    assert_eq!(adapter.find_by_id(&id("u2")), Ok(user("u2", "Bob", "b@x.com")));
}

#[test]
fn every_adapter_runs_the_same_lifecycle() {
    lifecycle(DocumentAdapter::open(Vec::new()));
    lifecycle(GraphAdapter::open(Vec::new()));
    lifecycle(KeyValueAdapter::open(Vec::new()));
    lifecycle(RelationalAdapter::open(Vec::new(), 1));
}

#[test]
fn every_backend_runs_the_same_lifecycle() {
    lifecycle(Backend::Document(DocumentAdapter::open(Vec::new())));
    lifecycle(Backend::Graph(GraphAdapter::open(Vec::new())));
    lifecycle(Backend::KeyValue(KeyValueAdapter::open(Vec::new())));
    lifecycle(Backend::Relational(RelationalAdapter::open(Vec::new(), 1)));
}

#[test]
fn a_backend_knows_its_family() {
    let backend: Backend<User> = Backend::Graph(GraphAdapter::open(Vec::new()));
    assert_eq!(backend.family(), BackendFamily::Graph);
    let backend: Backend<User> = Backend::Relational(RelationalAdapter::open(Vec::new(), 0));
    assert_eq!(backend.family(), BackendFamily::Relational);
    let backend: Backend<User> = Backend::Document(DocumentAdapter::open(Vec::new()));
    assert_eq!(backend.family(), BackendFamily::Document);
    let backend: Backend<User> = Backend::KeyValue(KeyValueAdapter::open(Vec::new()));
    assert_eq!(backend.family(), BackendFamily::KeyValue);
}

#[test]
fn resolvers_work_over_any_backend() {
    let backend = Backend::Relational(RelationalAdapter::open(Vec::new(), 1));
    let mut connections = ConnectionManager::exclusive(backend);
    let ann = UserMutation.create_user(&mut connections, user("u1", "Ann", "a@x.com"));
    assert_eq!(ann, Ok(user("u1", "Ann", "a@x.com")));
    let again = UserMutation.create_user(&mut connections, user("u1", "Eve", "e@x.com"));
    assert_eq!(again, Err(ResolverError::AlreadyExists));
    assert_eq!(UserQuery.user(&mut connections, &id("u1")), Ok(user("u1", "Ann", "a@x.com")));
    let backend = Backend::Document(DocumentAdapter::open(vec![user("u1", "Ann", "a@x.com")]));
    let mut connections = ConnectionManager::exclusive(backend);
    let again = UserMutation.create_user(&mut connections, user("u1", "Eve", "e@x.com"));
    assert_eq!(again, Ok(user("u1", "Eve", "e@x.com")));
    assert_eq!(UserQuery.user(&mut connections, &id("u1")), Ok(user("u1", "Eve", "e@x.com")));
}

#[test]
fn relational_create_refuses_an_id_that_is_taken() {
    let mut adapter = RelationalAdapter::open(vec![user("u1", "Ann", "a@x.com")], 1);
    assert_eq!(adapter.create(user("u1", "Eve", "e@x.com")), Err(StorageError::DuplicateKey));
    assert_eq!(adapter.find_by_id(&id("u1")), Ok(user("u1", "Ann", "a@x.com")));
    assert_eq!(adapter.take_commands(), vec![]);
}

#[test]
fn relational_create_fills_in_a_generated_id() {
    let mut adapter = RelationalAdapter::open(Vec::new(), 41);
    assert_eq!(adapter.create(user("", "Ann", "a@x.com")), Ok(user("41", "Ann", "a@x.com")));
    assert_eq!(adapter.create(user("", "Bob", "b@x.com")), Ok(user("42", "Bob", "b@x.com")));
    assert_eq!(adapter.create(user("u9", "Cy", "c@x.com")), Ok(user("u9", "Cy", "c@x.com")));
    assert_eq!(adapter.create(user("", "Dee", "d@x.com")), Ok(user("43", "Dee", "d@x.com")));
    assert_eq!(adapter.find_by_id(&id("42")), Ok(user("42", "Bob", "b@x.com")));
    assert_eq!(
        adapter.take_commands(),
        vec![
            RowCommand::Insert(user("41", "Ann", "a@x.com")),
            RowCommand::Insert(user("42", "Bob", "b@x.com")),
            RowCommand::Insert(user("u9", "Cy", "c@x.com")),
            RowCommand::Insert(user("43", "Dee", "d@x.com")),
        ]
    );
}

#[test]
fn relational_generated_id_that_is_taken_is_a_duplicate_and_uses_up_the_key() {
    let mut adapter = RelationalAdapter::open(vec![user("7", "Old", "o@x.com")], 7);
    assert_eq!(adapter.create(user("", "Ann", "a@x.com")), Err(StorageError::DuplicateKey));
    assert_eq!(adapter.create(user("", "Ann", "a@x.com")), Ok(user("8", "Ann", "a@x.com")));
    let mut last = RelationalAdapter::open(Vec::new(), u64::MAX);
    let first = last.create(user("", "Ann", "a@x.com"));
    assert_eq!(first, Ok(user("18446744073709551615", "Ann", "a@x.com")));
    assert_eq!(last.create(user("", "Bob", "b@x.com")), Err(StorageError::DuplicateKey));
}

#[test]
fn relational_update_and_delete_send_commands_only_for_rows_that_exist() {
    let mut adapter = RelationalAdapter::open(vec![user("u1", "Ann", "a@x.com")], 1);
    let patch = UserPatch { name: Some("Anna".to_string()), email: None };
    assert_eq!(adapter.update(&id("u1"), &patch), Ok(user("u1", "Anna", "a@x.com")));
    assert_eq!(adapter.update(&id("u2"), &patch), Err(StorageError::NotFound));
    assert_eq!(adapter.delete(&id("u2")), Ok(false));
    assert_eq!(adapter.delete(&id("u1")), Ok(true));
    assert_eq!(
        adapter.take_commands(),
        vec![RowCommand::Update(user("u1", "Anna", "a@x.com")), RowCommand::Delete(id("u1"))]
    );
    assert_eq!(adapter.take_commands(), vec![]);
}

#[test]
fn decimal_string_writes_numbers() {
    assert_eq!(decimal_string(0), "0");
    assert_eq!(decimal_string(7), "7");
    assert_eq!(decimal_string(10), "10");
    assert_eq!(decimal_string(1905), "1905");
    assert_eq!(decimal_string(u64::MAX), "18446744073709551615");
}

#[test]
fn document_create_replaces_and_update_never_inserts() {
    let mut adapter = DocumentAdapter::open(vec![user("u1", "Ann", "a@x.com")]);
    assert_eq!(adapter.create(user("u1", "Eve", "e@x.com")), Ok(user("u1", "Eve", "e@x.com")));
    assert_eq!(adapter.find_by_id(&id("u1")), Ok(user("u1", "Eve", "e@x.com")));
    let patch = UserPatch { name: None, email: Some("new@x.com".to_string()) };
    assert_eq!(adapter.update(&id("u1"), &patch), Ok(user("u1", "Eve", "new@x.com")));
    assert_eq!(adapter.update(&id("u2"), &patch), Err(StorageError::NotFound));
    assert_eq!(adapter.find_by_id(&id("u2")), Err(StorageError::NotFound));
    assert_eq!(adapter.delete(&id("u2")), Ok(false));
    assert_eq!(adapter.delete(&id("u1")), Ok(true));
    assert_eq!(
        adapter.take_commands(),
        vec![
            DocumentCommand::Replace { document: user("u1", "Eve", "e@x.com"), upsert: true },
            DocumentCommand::Replace { document: user("u1", "Eve", "new@x.com"), upsert: false },
            DocumentCommand::Delete { id: id("u1") },
        ]
    );
}

#[test]
fn graph_create_reads_back_and_delete_probes() {
    let mut adapter = GraphAdapter::open(Vec::new());
    assert_eq!(adapter.create(user("u1", "Ann", "a@x.com")), Ok(user("u1", "Ann", "a@x.com")));
    assert_eq!(adapter.create(user("u1", "Eve", "e@x.com")), Ok(user("u1", "Eve", "e@x.com")));
    let patch = UserPatch { name: Some("Eva".to_string()), email: None };
    assert_eq!(adapter.update(&id("u1"), &patch), Ok(user("u1", "Eva", "e@x.com")));
    assert_eq!(adapter.update(&id("u2"), &patch), Err(StorageError::NotFound));
    assert_eq!(adapter.delete(&id("u1")), Ok(true));
    assert_eq!(adapter.delete(&id("u1")), Ok(false));
    assert_eq!(
        adapter.take_statements(),
        vec![
            GraphStatement::Create(user("u1", "Ann", "a@x.com")),
            GraphStatement::Match(id("u1")),
            GraphStatement::DetachDelete(id("u1")),
            GraphStatement::Create(user("u1", "Eve", "e@x.com")),
            GraphStatement::Match(id("u1")),
            GraphStatement::SetProperties(user("u1", "Eva", "e@x.com")),
            GraphStatement::DetachDelete(id("u1")),
            GraphStatement::Match(id("u1")),
            GraphStatement::DetachDelete(id("u1")),
            GraphStatement::Match(id("u1")),
        ]
    );
}

#[test]
fn graph_confirms_what_the_store_answered() {
    assert_eq!(confirm_created(Some(user("u1", "Ann", "a@x.com"))), Ok(user("u1", "Ann", "a@x.com")));
    let missing: Result<User, StorageError> = confirm_created(None);
    assert_eq!(
        missing,
        Err(StorageError::BackendFailure("node is missing after its creation".to_string()))
    );
    assert_eq!(confirm_deleted::<User>(true, None), Ok(true));
    assert_eq!(confirm_deleted::<User>(false, None), Ok(false));
    assert_eq!(
        confirm_deleted(true, Some(user("u1", "Ann", "a@x.com"))),
        Err(StorageError::BackendFailure("node is still there after its removal".to_string()))
    );
}

#[test]
fn record_list_finds_the_last_record_with_an_id() {
    let mut list = RecordList::new(vec![
        user("u1", "First", "1@x.com"),
        user("u2", "Bob", "b@x.com"),
        user("u1", "Second", "2@x.com"),
    ]);
    assert_eq!(list.len(), 3);
    assert_eq!(list.find(&id("u1")), Some(user("u1", "Second", "2@x.com")));
    assert_eq!(list.find(&id("u3")), None);
    assert!(list.remove_all(&id("u1")));
    assert!(!list.remove_all(&id("u1")));
    assert_eq!(list.to_vec(), vec![user("u2", "Bob", "b@x.com")]);
    list.push(user("u4", "Dee", "d@x.com"));
    assert_eq!(list.to_vec(), vec![user("u2", "Bob", "b@x.com"), user("u4", "Dee", "d@x.com")]);
}

#[test]
fn a_family_is_selected_by_its_name() {
    for family in [
        BackendFamily::Document,
        BackendFamily::Graph,
        BackendFamily::KeyValue,
        BackendFamily::Relational,
    ] {
        assert_eq!(BackendFamily::from_name(&family.name().to_string()), Some(family));
    }
    assert_eq!(BackendFamily::KeyValue.name(), "key-value");
    assert_eq!(BackendFamily::from_name(&id("in-memory")), None);
    assert_eq!(BackendFamily::from_name(&id("")), None);
    assert_eq!(BackendFamily::from_name(&id("Graph")), None);
}
