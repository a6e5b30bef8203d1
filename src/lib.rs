//! A client library for the PhantomDB database service: a bounded
//! connection pool, the records the service exchanges, and an ORM-style
//! query layer.
pub mod client;
pub mod error;
pub mod orm;
pub mod pool;
pub mod types;

pub use client::PhantomDB;
pub use error::PhantomDBError;
pub use orm::{Connection, PhantomDBBackend, PhantomDBConnection, PhantomDBQueryBuilder, QueryBuilder};
pub use pool::{
    create_pool, create_pool_with_config, AcquireStep, CreateTicket, PhantomDBPool, PoolConfig,
    PoolError, PoolStatus, PooledConnection,
};
pub use types::{Column, DatabaseInfo, TableInfo};
