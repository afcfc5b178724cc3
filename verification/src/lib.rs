//! The verified core of a trading platform's database layer: the rules that
//! decide what is stored, counted, classified and reported, apart from the
//! queries themselves.
use vstd::prelude::*;

pub mod attribution;
pub mod candles;
pub mod decimal;
pub mod derivatives;
pub mod funnel;
pub mod microstructure;
pub mod migrations;
pub mod orders;
pub mod performance;
pub mod research;
pub mod stats;
pub mod test_support;
pub mod text;
pub mod timestamp;

verus! {

#[verifier::external_type_specification]
#[verifier::external_body]
pub struct ExUuid(uuid::Uuid);

/// Connection settings for the database pool.
#[derive(Debug)]
pub struct DbConfig {
    pub database_url: String,
    pub max_connections: u32,
}

impl DbConfig {
    /// A configuration for the given URL with the default pool size of five connections.
    pub fn new(database_url: String) -> (config: Self)
        ensures
            config.database_url@ == database_url@,
            config.max_connections == 5,
    {
        DbConfig { database_url, max_connections: 5 }
    }
}

/// Who changed a piece of state.
#[derive(Debug)]
pub struct StateActor {
    pub actor: String,
    pub actor_id: Option<uuid::Uuid>,
}

impl StateActor {
    /// A change made by the system itself, with no user id.
    pub fn system(actor: String) -> (a: Self)
        ensures
            a.actor@ == actor@,
            a.actor_id is None,
    {
        StateActor { actor, actor_id: None }
    }
}

} // verus!
