use vstd::prelude::*;

use crate::messages::{RegisterResponse, SourceEntry};

verus! {

/// One tailed source: its label and the path of the file.
#[derive(Clone, Debug)]
pub struct SourceSettings {
    pub label: String,
    pub path: String,
}

/// The immutable post-load configuration: where the service is, which
/// project this agent belongs to, how batching and heartbeats are timed,
/// and which sources are tailed.
#[derive(Clone, Debug)]
pub struct Settings {
    pub server_addr: String,
    pub project_key: String,
    pub batch_size: usize,
    pub flush_interval: u64,
    pub heartbeat_interval: u64,
    pub sources: Vec<SourceSettings>,
}

/// The batch size used when the configuration names none.
pub fn default_batch_size() -> (r: usize)
    ensures
        r == 1000,
{
    1000
}

/// The flush interval, in seconds, used when the configuration names none.
pub fn default_flush_interval() -> (r: u64)
    ensures
        r == 10,
{
    10
}

/// The heartbeat interval, in seconds, used when the configuration names none.
pub fn default_heartbeat_interval() -> (r: u64)
    ensures
        r == 30,
{
    30
}

/// The sources the registration response enables, in their given order,
/// projected to the configuration shape.
pub open spec fn enabled_sources(entries: Seq<SourceEntry>) -> Seq<SourceSettings>
    decreases entries.len(),
{
    if entries.len() == 0 {
        Seq::empty()
    } else {
        let rest = enabled_sources(entries.drop_last());
        if entries.last().enabled {
            rest.push(
                SourceSettings { label: entries.last().label, path: entries.last().path },
            )
        } else {
            rest
        }
    }
}

impl Settings {
    /// The settings a fresh registration assigns: the service's batch size,
    /// flush interval and heartbeat interval, and the enabled sources in
    /// order.
    pub fn from_response(
        register_response: RegisterResponse,
        server_addr: String,
        project_key: String,
    ) -> (r: Settings)
        ensures
            r.server_addr == server_addr,
            r.project_key == project_key,
            r.batch_size == register_response.batch_size as usize,
            r.flush_interval == register_response.flush_interval_sec,
            r.heartbeat_interval == register_response.heartbeat_interval_sec,
            r.sources@ == enabled_sources(register_response.sources@),
    {
        let ghost entries = register_response.sources@;
        let mut sources: Vec<SourceSettings> = Vec::new();
        let mut i: usize = 0;
        proof {
            assert(entries.take(0) =~= Seq::<SourceEntry>::empty());
        }
        while i < register_response.sources.len()
            invariant
                i <= entries.len(),
                register_response.sources@ == entries,
                sources@ == enabled_sources(entries.take(i as int)),
            decreases entries.len() - i,
        {
            proof {
                assert(entries.take(i + 1 as int).drop_last() =~= entries.take(i as int));
                assert(entries.take(i + 1 as int).last() == entries[i as int]);
            }
            let entry = &register_response.sources[i];
            if entry.enabled {
                sources.push(
                    SourceSettings { label: entry.label.clone(), path: entry.path.clone() },
                );
            }
            i += 1;
        }
        proof {
            assert(entries.take(entries.len() as int) =~= entries);
        }
        Settings {
            server_addr,
            project_key,
            batch_size: register_response.batch_size as usize,
            flush_interval: register_response.flush_interval_sec,
            heartbeat_interval: register_response.heartbeat_interval_sec,
            sources,
        }
    }
}

} // verus!
