//! The adapters of a Kubernetes node agent.
//!
//! Each module holds the decisions of one adapter, from plain values to plain
//! values. Clocks, fresh identifiers and the outcomes of I/O are arguments.
pub mod active_deadline;
pub mod admission;
pub mod backoff;
pub mod bootstrap;
pub mod cert_rotator;
pub mod cgroup;
pub mod checkpoint;
pub mod cni;
pub mod container_builder;
pub mod cpu_manager;
pub mod csi;
pub mod decimal;
pub mod device_manager;
pub mod dra;
pub mod error;
pub mod eviction;
pub mod file_config;
pub mod fileops;
pub mod image_gc;
pub mod image_puller;
pub mod json;
pub mod k8s;
pub mod kube_client;
pub mod kube_reporter;
pub mod kube_status;
pub mod kube_watcher;
pub mod lease;
pub mod lifecycle;
pub mod lists;
pub mod log_manager;
pub mod memory_manager;
pub mod mock_runtime;
pub mod network;
pub mod nfd;
pub mod node_status;
pub mod oom_watcher;
pub mod pairmap;
pub mod paths;
pub mod procfs;
pub mod quantity;
pub mod rfc3339;
pub mod store;
pub mod strmap;
pub mod text;
pub mod types;
