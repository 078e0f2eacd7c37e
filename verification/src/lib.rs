//! Verified core of the cluster manager: job and worker records, resource
//! specs, the scheduling queues of the job scheduler, the local executor and
//! the worker manager, farm protocol configuration and the Spark helpers.
//! Everything that talks to processes, files, the network or the clock lives
//! in the application around this library.

pub mod text;
pub mod status;
pub mod spec;
pub mod hashing;
pub mod job;
pub mod farm;
pub mod queues;
pub mod local_executor;
pub mod spark;
pub mod scheduler;
pub mod protocol_maps;
pub mod worker_manager;
pub mod spark_monitor;
pub mod farm_jobs;
pub mod launch;
pub mod config;
pub mod agent;
