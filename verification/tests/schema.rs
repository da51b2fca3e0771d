use federated_gateway::schema::compose;
use federated_gateway::schema::create_schema;
use federated_gateway::schema::products::products_subgraph;
use federated_gateway::schema::products::ProductMutation;
use federated_gateway::schema::products::ProductQuery;
use federated_gateway::schema::users::users_subgraph;
use federated_gateway::schema::users::UserMutation;
use federated_gateway::schema::users::UserQuery;
use federated_gateway::schema::CompositionError;
use federated_gateway::schema::Field;
use federated_gateway::schema::Resolver;
use federated_gateway::schema::Subgraph;

fn field(name: &str, resolver: Resolver) -> Field {
    Field { name: name.to_string(), resolver }
}

fn names(fields: &[Field]) -> Vec<&str> {
    fields.iter().map(|f| f.name.as_str()).collect()
}

#[test]
fn subgraphs_declare_their_fields() {
    assert_eq!(names(&UserQuery::fields()), ["user", "getAllUsers"]);
    assert_eq!(names(&UserMutation::fields()), ["addUser", "createUser", "updateUser", "deleteUser"]);
    assert_eq!(names(&ProductQuery::fields()), ["product", "getAllProducts"]);
    assert_eq!(
        names(&ProductMutation::fields()),
        ["addProduct", "createProduct", "updateProduct", "deleteProduct"]
    );
    assert_eq!(users_subgraph().queries, UserQuery::fields());
    assert_eq!(products_subgraph().mutations, ProductMutation::fields());
}

#[test]
fn disjoint_subgraphs_compose_and_answer_for_both() {
    let a = Subgraph {
        queries: vec![field("user", Resolver::User)],
        mutations: vec![field("createUser", Resolver::CreateUser)],
    };
    let b = Subgraph {
        queries: vec![field("product", Resolver::Product)],
        mutations: vec![field("deleteProduct", Resolver::DeleteProduct)],
    };
    let schema = compose(&vec![a, b], 7u8).unwrap();
    assert_eq!(schema.query().resolver_of(&"user".to_string()), Some(Resolver::User));
    assert_eq!(schema.query().resolver_of(&"product".to_string()), Some(Resolver::Product));
    assert_eq!(schema.query().resolver_of(&"createUser".to_string()), None);
    assert_eq!(
        schema.mutation().resolver_of(&"createUser".to_string()),
        Some(Resolver::CreateUser)
    );
    assert_eq!(
        schema.mutation().resolver_of(&"deleteProduct".to_string()),
        Some(Resolver::DeleteProduct)
    );
    assert_eq!(schema.mutation().resolver_of(&"user".to_string()), None);
    assert_eq!(schema.query().len(), 2);
    assert_eq!(schema.mutation().len(), 2);
    assert_eq!(*schema.context(), 7);
}

#[test]
fn subgraphs_that_share_a_field_name_do_not_compose() {
    let a = Subgraph { queries: vec![field("x", Resolver::User)], mutations: vec![] };
    let b = Subgraph { queries: vec![field("x", Resolver::Product)], mutations: vec![] };
    let r = compose(&vec![a, b], ());
    assert_eq!(r.err(), Some(CompositionError::DuplicateField("x".to_string())));
}

#[test]
fn a_mutation_may_not_repeat_the_name_of_a_query() {
    let a = Subgraph { queries: vec![field("a", Resolver::User)], mutations: vec![] };
    let b = Subgraph {
        queries: vec![field("b", Resolver::Product)],
        mutations: vec![field("c", Resolver::AddUser), field("a", Resolver::AddProduct)],
    };
    let r = compose(&vec![a, b], ());
    assert_eq!(r.err(), Some(CompositionError::DuplicateField("a".to_string())));
}

#[test]
fn the_first_repeated_name_is_reported() {
    let a = Subgraph {
        queries: vec![field("p", Resolver::User), field("q", Resolver::User)],
        mutations: vec![field("q", Resolver::AddUser)],
    };
    let b = Subgraph {
        queries: vec![field("r", Resolver::Product), field("p", Resolver::Product)],
        mutations: vec![],
    };
    let r = compose(&vec![a, b], ());
    assert_eq!(r.err(), Some(CompositionError::DuplicateField("p".to_string())));
}

#[test]
fn no_subgraphs_compose_to_an_empty_schema() {
    let schema = compose(&Vec::new(), ()).unwrap();
    assert_eq!(schema.query().len(), 0);
    assert_eq!(schema.mutation().len(), 0);
    assert_eq!(schema.query().resolver_of(&"user".to_string()), None);
}

#[test]
fn create_schema_merges_users_and_products() {
    let schema = create_schema("context".to_string());
    let query = schema.query();
    assert_eq!(query.len(), 4);
    assert_eq!(query.resolver_of(&"user".to_string()), Some(Resolver::User));
    assert_eq!(query.resolver_of(&"getAllUsers".to_string()), Some(Resolver::GetAllUsers));
    assert_eq!(query.resolver_of(&"product".to_string()), Some(Resolver::Product));
    assert_eq!(query.resolver_of(&"getAllProducts".to_string()), Some(Resolver::GetAllProducts));
    let mutation = schema.mutation();
    assert_eq!(mutation.len(), 8);
    assert_eq!(mutation.resolver_of(&"addUser".to_string()), Some(Resolver::AddUser));
    assert_eq!(mutation.resolver_of(&"updateUser".to_string()), Some(Resolver::UpdateUser));
    assert_eq!(mutation.resolver_of(&"addProduct".to_string()), Some(Resolver::AddProduct));
    assert_eq!(mutation.resolver_of(&"deleteProduct".to_string()), Some(Resolver::DeleteProduct));
    assert_eq!(mutation.resolver_of(&"dropEverything".to_string()), None);
    assert_eq!(schema.context(), "context");
}
