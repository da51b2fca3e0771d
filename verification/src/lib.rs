//! The core of a GraphQL gateway that serves one schema composed of
//! independent subgraphs, each of which owns one entity type and reaches its
//! records through a storage adapter with a uniform contract.

pub mod connection;
pub mod decimal;
pub mod models;
pub mod resolver;
pub mod scalars;
pub mod schema;
pub mod storage;
