//! Run configuration: providers, stores and monitoring parameters.
use vstd::prelude::*;

verus! {

/// One configured provider.
#[derive(Clone, Debug)]
pub struct Center {
    pub name: String,
    pub secret_key: String,
    /// The ticket endpoint.
    pub url: String,
    /// Disabled providers are skipped.
    pub enabled: bool,
    /// The provider's list endpoint takes POST rather than GET.
    pub list_via_post: bool,
}

/// Where the document store lives.
#[derive(Clone, Debug)]
pub struct MongoDBConfig {
    pub uri: String,
    pub database: String,
}

/// Where the analytical store lives.
#[derive(Clone, Debug)]
pub struct DuckDBConfig {
    pub path: String,
}

/// Scheduling and probing parameters.
#[derive(Clone, Debug)]
pub struct MonitorConfig {
    pub fetch_interval_days: u32,
    pub check_interval_days: u32,
    pub http_timeout_secs: u64,
    /// Size of the probe worker pool.
    pub max_concurrent: usize,
    pub retry_times: u32,
}

/// The whole configuration.
#[derive(Clone, Debug)]
pub struct Config {
    pub centers: Vec<Center>,
    pub mongodb: MongoDBConfig,
    pub duckdb: DuckDBConfig,
    pub monitor: MonitorConfig,
}

impl Config {
    /// Positions of the enabled providers, in configuration order.
    pub fn enabled_centers(&self) -> (r: Vec<usize>)
        ensures
            forall|k: int| 0 <= k < r@.len() ==> (#[trigger] r@[k]) < self.centers@.len() && self.centers@[r@[k] as int].enabled,
            forall|i: int|
                0 <= i < self.centers@.len() && self.centers@[i].enabled ==> r@.contains(i as usize),
            forall|a: int, b: int| 0 <= a < b < r@.len() ==> #[trigger] r@[a] < #[trigger] r@[b],
    {
        let mut r: Vec<usize> = Vec::new();
        let mut i: usize = 0;
        while i < self.centers.len()
            invariant
                i <= self.centers.len(),
                forall|k: int| 0 <= k < r@.len() ==> (#[trigger] r@[k]) < i && self.centers@[r@[k] as int].enabled,
                forall|j: int| 0 <= j < i && self.centers@[j].enabled ==> r@.contains(j as usize),
                forall|a: int, b: int| 0 <= a < b < r@.len() ==> #[trigger] r@[a] < #[trigger] r@[b],
            decreases self.centers.len() - i,
        {
            if self.centers[i].enabled {
                let ghost before = r@;
                r.push(i);
                proof {
                    assert forall|j: int| 0 <= j < i + 1 && self.centers@[j].enabled implies r@.contains(j as usize) by {
                        if j < i {
                            let k = choose|k: int| 0 <= k < before.len() && before[k] == j as usize;
                            assert(r@[k] == j as usize);
                        } else {
                            assert(r@[r@.len() - 1] == i);
                        }
                    }
                }
            }
            i += 1;
        }
        r
    }
}

} // verus!
