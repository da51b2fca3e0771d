use federated_gateway::connection::graph_settings;
use federated_gateway::connection::ConnectionManager;
use federated_gateway::connection::GRAPH_FETCH_SIZE;
use federated_gateway::connection::GRAPH_MAX_CONNECTIONS;

#[test]
fn an_exclusive_manager_lends_its_handle_once() {
    let mut manager = ConnectionManager::exclusive("handle");
    assert_eq!(manager.available(), 1);
    assert_eq!(manager.lent(), 0);
    let lent = manager.acquire();
    assert_eq!(lent, Some("handle"));
    assert_eq!(manager.available(), 0);
    assert_eq!(manager.lent(), 1);
    assert_eq!(manager.acquire(), None);
    assert_eq!(manager.release("handle"), None);
    assert_eq!(manager.available(), 1);
    assert_eq!(manager.acquire(), Some("handle"));
}

#[test]
fn a_pool_lends_the_last_idle_handle_first() {
    let mut manager = ConnectionManager::pooled(vec![1, 2, 3]);
    assert_eq!(manager.available(), 3);
    assert_eq!(manager.acquire(), Some(3));
    assert_eq!(manager.acquire(), Some(2));
    assert_eq!(manager.release(3), None);
    assert_eq!(manager.acquire(), Some(3));
    assert_eq!(manager.acquire(), Some(1));
    assert_eq!(manager.acquire(), None);
    assert_eq!(manager.lent(), 3);
}

#[test]
fn a_full_manager_hands_a_foreign_handle_back() {
    let mut manager = ConnectionManager::pooled(vec![1, 2]);
    assert_eq!(manager.release(9), Some(9));
    assert_eq!(manager.available(), 2);
    let mut none: ConnectionManager<u8> = ConnectionManager::pooled(Vec::new());
    assert_eq!(none.acquire(), None);
    assert_eq!(none.release(1), Some(1));
}

#[test]
fn graph_settings_fix_database_and_limits() {
    let settings = graph_settings("bolt://localhost:7687", "neo4j", "SECRET-REDACTED");
    assert_eq!(settings.uri, "bolt://localhost:7687");
    assert_eq!(settings.user, "neo4j");
    assert_eq!(settings.password, "SECRET-REDACTED");
    assert_eq!(settings.database, "neo4j");
    assert_eq!(settings.fetch_size, 500);
    assert_eq!(settings.max_connections, 10);
    assert_eq!(GRAPH_FETCH_SIZE, 500);
    assert_eq!(GRAPH_MAX_CONNECTIONS, 10);
}
