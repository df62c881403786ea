//! The sum of all subsystem variants.

use vstd::prelude::*;
use crate::blkio::BlkIoController;
use crate::cpu::CpuController;
use crate::cpuacct::CpuAcctController;
use crate::cpuset::CpuSetController;
use crate::devices::DevicesController;
use crate::freezer::FreezerController;
use crate::hugetlb::HugeTlbController;
use crate::memory::MemController;
use crate::net_cls::NetClsController;
use crate::net_prio::NetPrioController;
use crate::perf_event::PerfEventController;
use crate::pid::PidController;
use crate::rdma::RdmaController;
use crate::controller::Controller;
use crate::directive::Directive;
use crate::error::ControllerError;
use crate::kinds::Controllers;
use crate::path::joined;
use crate::resources::Resources;

verus! {

/// One subsystem of a control group, whichever facility it is. Every use
/// matches on the variant, so a controller is only ever handled as what it
/// is.
#[derive(Debug, Clone)]
pub enum Subsystem {
    CpuSet(CpuSetController),
    Cpu(CpuController),
    Cpuacct(CpuAcctController),
    Memory(MemController),
    Devices(DevicesController),
    Freezer(FreezerController),
    NetCls(NetClsController),
    NetPrio(NetPrioController),
    BlkIo(BlkIoController),
    PerfEvent(PerfEventController),
    HugeTlb(HugeTlbController),
    Pids(PidController),
    Rdma(RdmaController),
}

impl Controller for Subsystem {
    open spec fn kind(&self) -> Controllers {
        match self {
            Subsystem::CpuSet(c) => c.kind(),
            Subsystem::Cpu(c) => c.kind(),
            Subsystem::Cpuacct(c) => c.kind(),
            Subsystem::Memory(c) => c.kind(),
            Subsystem::Devices(c) => c.kind(),
            Subsystem::Freezer(c) => c.kind(),
            Subsystem::NetCls(c) => c.kind(),
            Subsystem::NetPrio(c) => c.kind(),
            Subsystem::BlkIo(c) => c.kind(),
            Subsystem::PerfEvent(c) => c.kind(),
            Subsystem::HugeTlb(c) => c.kind(),
            Subsystem::Pids(c) => c.kind(),
            Subsystem::Rdma(c) => c.kind(),
        }
    }

    open spec fn base(&self) -> Seq<char> {
        match self {
            Subsystem::CpuSet(c) => c.base(),
            Subsystem::Cpu(c) => c.base(),
            Subsystem::Cpuacct(c) => c.base(),
            Subsystem::Memory(c) => c.base(),
            Subsystem::Devices(c) => c.base(),
            Subsystem::Freezer(c) => c.base(),
            Subsystem::NetCls(c) => c.base(),
            Subsystem::NetPrio(c) => c.base(),
            Subsystem::BlkIo(c) => c.base(),
            Subsystem::PerfEvent(c) => c.base(),
            Subsystem::HugeTlb(c) => c.base(),
            Subsystem::Pids(c) => c.base(),
            Subsystem::Rdma(c) => c.base(),
        }
    }

    open spec fn path(&self) -> Seq<char> {
        match self {
            Subsystem::CpuSet(c) => c.path(),
            Subsystem::Cpu(c) => c.path(),
            Subsystem::Cpuacct(c) => c.path(),
            Subsystem::Memory(c) => c.path(),
            Subsystem::Devices(c) => c.path(),
            Subsystem::Freezer(c) => c.path(),
            Subsystem::NetCls(c) => c.path(),
            Subsystem::NetPrio(c) => c.path(),
            Subsystem::BlkIo(c) => c.path(),
            Subsystem::PerfEvent(c) => c.path(),
            Subsystem::HugeTlb(c) => c.path(),
            Subsystem::Pids(c) => c.path(),
            Subsystem::Rdma(c) => c.path(),
        }
    }

    fn control_type(&self) -> (kind: Controllers) {
        match self {
            Subsystem::CpuSet(c) => c.control_type(),
            Subsystem::Cpu(c) => c.control_type(),
            Subsystem::Cpuacct(c) => c.control_type(),
            Subsystem::Memory(c) => c.control_type(),
            Subsystem::Devices(c) => c.control_type(),
            Subsystem::Freezer(c) => c.control_type(),
            Subsystem::NetCls(c) => c.control_type(),
            Subsystem::NetPrio(c) => c.control_type(),
            Subsystem::BlkIo(c) => c.control_type(),
            Subsystem::PerfEvent(c) => c.control_type(),
            Subsystem::HugeTlb(c) => c.control_type(),
            Subsystem::Pids(c) => c.control_type(),
            Subsystem::Rdma(c) => c.control_type(),
        }
    }

    fn get_path(&self) -> (path: &String) {
        match self {
            Subsystem::CpuSet(c) => c.get_path(),
            Subsystem::Cpu(c) => c.get_path(),
            Subsystem::Cpuacct(c) => c.get_path(),
            Subsystem::Memory(c) => c.get_path(),
            Subsystem::Devices(c) => c.get_path(),
            Subsystem::Freezer(c) => c.get_path(),
            Subsystem::NetCls(c) => c.get_path(),
            Subsystem::NetPrio(c) => c.get_path(),
            Subsystem::BlkIo(c) => c.get_path(),
            Subsystem::PerfEvent(c) => c.get_path(),
            Subsystem::HugeTlb(c) => c.get_path(),
            Subsystem::Pids(c) => c.get_path(),
            Subsystem::Rdma(c) => c.get_path(),
        }
    }

    fn get_base(&self) -> (base: &String) {
        match self {
            Subsystem::CpuSet(c) => c.get_base(),
            Subsystem::Cpu(c) => c.get_base(),
            Subsystem::Cpuacct(c) => c.get_base(),
            Subsystem::Memory(c) => c.get_base(),
            Subsystem::Devices(c) => c.get_base(),
            Subsystem::Freezer(c) => c.get_base(),
            Subsystem::NetCls(c) => c.get_base(),
            Subsystem::NetPrio(c) => c.get_base(),
            Subsystem::BlkIo(c) => c.get_base(),
            Subsystem::PerfEvent(c) => c.get_base(),
            Subsystem::HugeTlb(c) => c.get_base(),
            Subsystem::Pids(c) => c.get_base(),
            Subsystem::Rdma(c) => c.get_base(),
        }
    }

    fn relocate(&mut self, name: &str) {
        match self {
            Subsystem::CpuSet(c) => c.relocate(name),
            Subsystem::Cpu(c) => c.relocate(name),
            Subsystem::Cpuacct(c) => c.relocate(name),
            Subsystem::Memory(c) => c.relocate(name),
            Subsystem::Devices(c) => c.relocate(name),
            Subsystem::Freezer(c) => c.relocate(name),
            Subsystem::NetCls(c) => c.relocate(name),
            Subsystem::NetPrio(c) => c.relocate(name),
            Subsystem::BlkIo(c) => c.relocate(name),
            Subsystem::PerfEvent(c) => c.relocate(name),
            Subsystem::HugeTlb(c) => c.relocate(name),
            Subsystem::Pids(c) => c.relocate(name),
            Subsystem::Rdma(c) => c.relocate(name),
        }
    }

    fn apply(&self, res: &Resources) -> (r: Result<Vec<Directive>, ControllerError>) {
        match self {
            Subsystem::CpuSet(c) => c.apply(res),
            Subsystem::Cpu(c) => c.apply(res),
            Subsystem::Cpuacct(c) => c.apply(res),
            Subsystem::Memory(c) => c.apply(res),
            Subsystem::Devices(c) => c.apply(res),
            Subsystem::Freezer(c) => c.apply(res),
            Subsystem::NetCls(c) => c.apply(res),
            Subsystem::NetPrio(c) => c.apply(res),
            Subsystem::BlkIo(c) => c.apply(res),
            Subsystem::PerfEvent(c) => c.apply(res),
            Subsystem::HugeTlb(c) => c.apply(res),
            Subsystem::Pids(c) => c.apply(res),
            Subsystem::Rdma(c) => c.apply(res),
        }
    }
}

impl Subsystem {
    /// The subsystem of the given kind at the root of its hierarchy, in the
    /// conventional layout: the hierarchy is the directory of `oroot` that is
    /// named after the subsystem.
    pub fn new(kind: Controllers, oroot: String) -> (sub: Subsystem)
        ensures
            sub.kind() == kind,
            sub.base() == joined(oroot@, kind.name()),
            sub.path() == sub.base(),
    {
        match kind {
            Controllers::CpuSet => Subsystem::CpuSet(CpuSetController::new(oroot)),
            Controllers::Cpu => Subsystem::Cpu(CpuController::new(oroot)),
            Controllers::Cpuacct => Subsystem::Cpuacct(CpuAcctController::new(oroot)),
            Controllers::Memory => Subsystem::Memory(MemController::new(oroot)),
            Controllers::Devices => Subsystem::Devices(DevicesController::new(oroot)),
            Controllers::Freezer => Subsystem::Freezer(FreezerController::new(oroot)),
            Controllers::NetCls => Subsystem::NetCls(NetClsController::new(oroot)),
            Controllers::NetPrio => Subsystem::NetPrio(NetPrioController::new(oroot)),
            Controllers::BlkIo => Subsystem::BlkIo(BlkIoController::new(oroot)),
            Controllers::PerfEvent => Subsystem::PerfEvent(PerfEventController::new(oroot)),
            Controllers::HugeTlb => Subsystem::HugeTlb(HugeTlbController::new(oroot)),
            Controllers::Pids => Subsystem::Pids(PidController::new(oroot)),
            Controllers::Rdma => Subsystem::Rdma(RdmaController::new(oroot)),
        }
    }

    /// The subsystem of the given kind at the root of the hierarchy mounted
    /// at `base`.
    pub fn rooted(kind: Controllers, base: String) -> (sub: Subsystem)
        ensures
            sub.kind() == kind,
            sub.base() == base@,
            sub.path() == base@,
    {
        match kind {
            Controllers::CpuSet => Subsystem::CpuSet(CpuSetController::rooted(base)),
            Controllers::Cpu => Subsystem::Cpu(CpuController::rooted(base)),
            Controllers::Cpuacct => Subsystem::Cpuacct(CpuAcctController::rooted(base)),
            Controllers::Memory => Subsystem::Memory(MemController::rooted(base)),
            Controllers::Devices => Subsystem::Devices(DevicesController::rooted(base)),
            Controllers::Freezer => Subsystem::Freezer(FreezerController::rooted(base)),
            Controllers::NetCls => Subsystem::NetCls(NetClsController::rooted(base)),
            Controllers::NetPrio => Subsystem::NetPrio(NetPrioController::rooted(base)),
            Controllers::BlkIo => Subsystem::BlkIo(BlkIoController::rooted(base)),
            Controllers::PerfEvent => Subsystem::PerfEvent(PerfEventController::rooted(base)),
            Controllers::HugeTlb => Subsystem::HugeTlb(HugeTlbController::rooted(base)),
            Controllers::Pids => Subsystem::Pids(PidController::rooted(base)),
            Controllers::Rdma => Subsystem::Rdma(RdmaController::rooted(base)),
        }
    }

    /// The subsystem of the given kind for the group called `name`, in the
    /// hierarchy mounted at `base`.
    pub fn at(kind: Controllers, base: String, name: &str) -> (sub: Subsystem)
        ensures
            sub.kind() == kind,
            sub.base() == base@,
            sub.path() == joined(base@, name@),
    {
        let mut sub = Subsystem::rooted(kind, base);
        sub.relocate(name);
        sub
    }
}

} // verus!
