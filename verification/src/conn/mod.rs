//! Backend connection factories, one per backend kind: each turns one
//! validated configuration record into a connection URI and a lazily
//! connecting pool of its own kind.

use vstd::prelude::*;

use crate::database::DataSource;
use crate::database::DbKind;
use crate::error::DbError;

pub mod mysql;
pub mod postgres;
pub mod redis;
pub mod sqlite;

verus! {

/// How long one acquire may wait for a connection, in seconds.
pub const ACQUIRE_TIMEOUT_SECS: u64 = 5;

/// How long an idle connection is kept, in seconds.
pub const IDLE_TIMEOUT_SECS: u64 = 300;

/// The longest a connection lives before forced reconnection, in seconds.
pub const MAX_LIFETIME_SECS: u64 = 3600 * 24;

/// The minimum pool size derived from CPU parallelism: half the CPUs, with a
/// floor of 2 so a low-core host still gets a workable pool.
pub open spec fn spec_min_connections(cpus: u32) -> u32 {
    if cpus / 2 > 2 {
        (cpus / 2) as u32
    } else {
        2u32
    }
}

/// The maximum pool size derived from CPU parallelism: twice the CPUs
/// (saturating), with a floor of 20.
pub open spec fn spec_max_connections(cpus: u32) -> u32 {
    let doubled: u32 = if cpus <= 0x7fffffff {
        (2 * cpus) as u32
    } else {
        0xffffffffu32
    };
    if doubled > 20 {
        doubled
    } else {
        20u32
    }
}

/// Derives (minimum, maximum) pool sizes from the CPU count.
pub fn pool_sizes(cpus: u32) -> (r: (u32, u32))
    ensures
        r.0 == spec_min_connections(cpus),
        r.1 == spec_max_connections(cpus),
        2 <= r.0,
        20 <= r.1,
{
    let half = cpus / 2;
    let min_conns = if half > 2 {
        half
    } else {
        2
    };
    let doubled = if cpus <= 0x7fffffff {
        2 * cpus
    } else {
        0xffffffff
    };
    let max_conns = if doubled > 20 {
        doubled
    } else {
        20
    };
    (min_conns, max_conns)
}

/// A backend connection factory. Every configuration record type knows its
/// backend kind, its instance name (the registry key), its default flag, and
/// how to build a data source of exactly its own kind.
pub trait DatabaseInit: Sized {
    /// The backend kind this configuration type belongs to.
    spec fn spec_kind() -> DbKind;

    /// The instance name.
    spec fn spec_name(&self) -> Seq<char>;

    /// Whether the record carries the default flag.
    spec fn spec_flagged(&self) -> bool;

    /// Whether the backend's URI parser accepts this record's connection
    /// URI; the factory succeeds exactly on accepted records.
    spec fn spec_accepted(&self) -> bool;

    /// The backend kind tag.
    fn kind_tag() -> (r: DbKind)
        ensures
            r == Self::spec_kind(),
    ;

    /// The instance name, the registry key.
    fn instance_name(&self) -> (r: &String)
        ensures
            r@ == self.spec_name(),
    ;

    /// Whether the record is flagged as its kind's default instance.
    fn flagged_default(&self) -> (r: bool)
        ensures
            r == self.spec_flagged(),
    ;

    /// Builds the pool for this record, within the given runtime context
    /// (pool creation spawns maintenance tasks): a data source of this
    /// factory's own kind exactly when the backend accepts the record's
    /// URI, else a backend-initialization error carrying the instance name.
    fn init_datasource(&self, rt: &tokio::runtime::Handle) -> (r: Result<DataSource, DbError>)
        ensures
            r is Ok <==> self.spec_accepted(),
            r matches Ok(ds) ==> ds.spec_kind() == Some(Self::spec_kind()),
            r matches Err(e) ==> e matches DbError::BackendInit { name, .. } && name@
                == self.spec_name(),
    ;
}

} // verus!
