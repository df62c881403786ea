//! The closed set of controller kinds.

use vstd::prelude::*;
use vstd::string::*;

verus! {

/// The kernel resource-control facilities that a control group can span.
#[derive(Clone, Copy, Debug, PartialEq, Eq, Structural, Hash)]
pub enum Controllers {
    CpuSet,
    Cpu,
    Cpuacct,
    Memory,
    Devices,
    Freezer,
    NetCls,
    NetPrio,
    BlkIo,
    PerfEvent,
    HugeTlb,
    Pids,
    Rdma,
}

impl Controllers {
    /// The name under which the kernel knows the controller, which is also the
    /// directory of its hierarchy in the conventional layout.
    pub open spec fn name(self) -> Seq<char> {
        match self {
            Controllers::CpuSet => "cpuset"@,
            Controllers::Cpu => "cpu"@,
            Controllers::Cpuacct => "cpuacct"@,
            Controllers::Memory => "memory"@,
            Controllers::Devices => "devices"@,
            Controllers::Freezer => "freezer"@,
            Controllers::NetCls => "net_cls"@,
            Controllers::NetPrio => "net_prio"@,
            Controllers::BlkIo => "blkio"@,
            Controllers::PerfEvent => "perf_event"@,
            Controllers::HugeTlb => "hugetlb"@,
            Controllers::Pids => "pids"@,
            Controllers::Rdma => "rdma"@,
        }
    }

    /// The controller's kernel name as a borrowed literal.
    pub fn as_str(&self) -> (res: &'static str)
        ensures
            res@ == self.name(),
    {
        match self {
            Controllers::CpuSet => "cpuset",
            Controllers::Cpu => "cpu",
            Controllers::Cpuacct => "cpuacct",
            Controllers::Memory => "memory",
            Controllers::Devices => "devices",
            Controllers::Freezer => "freezer",
            Controllers::NetCls => "net_cls",
            Controllers::NetPrio => "net_prio",
            Controllers::BlkIo => "blkio",
            Controllers::PerfEvent => "perf_event",
            Controllers::HugeTlb => "hugetlb",
            Controllers::Pids => "pids",
            Controllers::Rdma => "rdma",
        }
    }

    /// The controller's kernel name.
    pub fn to_string(&self) -> (res: String)
        ensures
            res@ == self.name(),
    {
        String::from_str(self.as_str())
    }

    /// Every kind, in declaration order.
    pub open spec fn every() -> Seq<Controllers> {
        seq![
            Controllers::CpuSet,
            Controllers::Cpu,
            Controllers::Cpuacct,
            Controllers::Memory,
            Controllers::Devices,
            Controllers::Freezer,
            Controllers::NetCls,
            Controllers::NetPrio,
            Controllers::BlkIo,
            Controllers::PerfEvent,
            Controllers::HugeTlb,
            Controllers::Pids,
            Controllers::Rdma,
        ]
    }

    /// Every kind, in declaration order.
    pub fn all() -> (res: Vec<Controllers>)
        ensures
            res@ == Self::every(),
            forall|k: Controllers| res@.contains(k),
    {
        let res = vec![
            Controllers::CpuSet,
            Controllers::Cpu,
            Controllers::Cpuacct,
            Controllers::Memory,
            Controllers::Devices,
            Controllers::Freezer,
            Controllers::NetCls,
            Controllers::NetPrio,
            Controllers::BlkIo,
            Controllers::PerfEvent,
            Controllers::HugeTlb,
            Controllers::Pids,
            Controllers::Rdma,
        ];
        proof {
            assert(res@ =~= Self::every());
            assert forall|k: Controllers| res@.contains(k) by {
                let i: int = match k {
                    Controllers::CpuSet => 0,
                    Controllers::Cpu => 1,
                    Controllers::Cpuacct => 2,
                    Controllers::Memory => 3,
                    Controllers::Devices => 4,
                    Controllers::Freezer => 5,
                    Controllers::NetCls => 6,
                    Controllers::NetPrio => 7,
                    Controllers::BlkIo => 8,
                    Controllers::PerfEvent => 9,
                    Controllers::HugeTlb => 10,
                    Controllers::Pids => 11,
                    Controllers::Rdma => 12,
                };
                assert(res@[i] == k);
            }
        }
        res
    }
}

} // verus!
