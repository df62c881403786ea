//! Control groups: a uniform controller interface over the kernel's
//! resource-control subsystems, and the aggregate that composes several of
//! them into one named group.
//!
//! The library decides and the caller performs: every operation that touches
//! the control filesystem is split into a step that says what to do and a
//! step that judges what came back.

pub mod action;
pub mod blkio;
pub mod cgroup;
pub mod controller;
pub mod cpu;
pub mod cpuacct;
pub mod cpuset;
pub mod creation;
pub mod devices;
pub mod directive;
pub mod effects;
pub mod error;
pub mod fanout;
pub mod freezer;
pub mod hierarchy;
pub mod host;
pub mod hugetlb;
pub mod kinds;
pub mod member;
pub mod memory;
pub mod net_cls;
pub mod net_prio;
pub mod path;
pub mod perf_event;
pub mod pid;
pub mod plan;
pub mod rdma;
pub mod rehearsal;
pub mod resources;
pub mod subsystem;
