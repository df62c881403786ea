use cgroups::action::{Action, Operation, Outcome};
use cgroups::cgroup::Cgroup;
use cgroups::controller::Controller;
use cgroups::directive::{read_back, Directive, Knob};
use cgroups::error::{CgroupError, ControllerError};
use cgroups::hierarchy::Hierarchy;
use cgroups::host::{strike, Host};
use cgroups::kinds::Controllers;
use cgroups::rehearsal::{add_task, apply, census, create, delete, read, remove_task};
use cgroups::resources::{
    BlkIoResources, CpuResources, DeviceWeight, MemoryResources, Resources,
};

fn mounts(kinds: &[Controllers]) -> Hierarchy {
    let mut h = Hierarchy::new();
    for kind in kinds {
        h.mount_under(*kind, &String::from("/sys/fs/cgroup"));
    }
    h
}

fn s(text: &str) -> String {
    String::from(text)
}

fn action(kind: Controllers, path: &str, op: Operation) -> Action {
    Action { kind, path: s(path), op }
}

fn made(host: &mut Host, name: &str, kinds: &[Controllers]) -> Cgroup {
    create(host, name, &kinds.to_vec(), &mounts(kinds)).unwrap().cgroup
}

const CPU: &str = "/sys/fs/cgroup/cpu/batch-1";
const MEM: &str = "/sys/fs/cgroup/memory/batch-1";

#[test]
fn batch_one_from_creation_to_deletion() {
    let mut host = Host::new();
    let h = mounts(&[Controllers::Cpu, Controllers::Memory]);
    let requested = vec![Controllers::Cpu, Controllers::Memory, Controllers::PerfEvent];
    let created = create(&mut host, "batch-1", &requested, &h).unwrap();
    assert_eq!(created.omitted, vec![Controllers::PerfEvent]);
    assert!(created.failed.is_empty());
    let mut cg = created.cgroup;
    let owned: Vec<Controllers> = cg.subsystems().iter().map(|x| x.control_type()).collect();
    assert_eq!(owned, vec![Controllers::Cpu, Controllers::Memory]);
    assert!(host.has_dir(Controllers::Cpu, &s(CPU)));
    assert!(host.has_dir(Controllers::Memory, &s(MEM)));
    assert!(!host.has_dir(Controllers::PerfEvent, &s("/sys/fs/cgroup/perf_event/batch-1")));

    assert_eq!(add_task(&mut host, &cg, 4242), Ok(()));
    assert_eq!(host.tasks(Controllers::Cpu, &s(CPU)), vec![4242]);
    assert_eq!(host.tasks(Controllers::Memory, &s(MEM)), vec![4242]);

    let mut res = Resources::new();
    res.memory = Some(MemoryResources { limit: Some(536870912), soft_limit: None, swap_limit: None });
    let plan = cg.apply(&res).unwrap();
    let limit = Directive { knob: Knob::MemoryLimit, value: 536870912 };
    assert_eq!(plan.actions, vec![action(Controllers::Memory, MEM, Operation::Write(limit))]);
    assert_eq!(apply(&mut host, &cg, &res), Ok(()));
    assert_eq!(host.read(Controllers::Memory, &s(MEM), Knob::MemoryLimit), Some(536870912));
    assert_eq!(host.read(Controllers::Memory, &s(MEM), Knob::MemorySoftLimit), None);
    assert_eq!(host.read(Controllers::Cpu, &s(CPU), Knob::CpuShares), None);
    assert_eq!(host.read(Controllers::Cpu, &s(CPU), Knob::CpuQuota), None);
    assert_eq!(host.read(Controllers::Cpu, &s(CPU), Knob::CpuPeriod), None);

    assert_eq!(delete(&mut host, &mut cg), Err(CgroupError::Busy(Controllers::Memory)));
    assert!(!cg.deleted());
    assert!(host.has_dir(Controllers::Cpu, &s(CPU)));
    assert!(host.has_dir(Controllers::Memory, &s(MEM)));
    assert_eq!(host.tasks(Controllers::Memory, &s(MEM)), vec![4242]);

    assert_eq!(remove_task(&mut host, &cg, 4242), Ok(()));
    assert!(host.tasks(Controllers::Memory, &s(MEM)).is_empty());
    assert!(host.tasks(Controllers::Cpu, &s(CPU)).is_empty());
    assert_eq!(delete(&mut host, &mut cg), Ok(vec![Outcome::Done, Outcome::Done]));
    assert!(cg.deleted());
    assert!(!host.has_dir(Controllers::Cpu, &s(CPU)));
    assert!(!host.has_dir(Controllers::Memory, &s(MEM)));
    assert_eq!(apply(&mut host, &cg, &res), Err(CgroupError::AlreadyDeleted));
    assert_eq!(add_task(&mut host, &cg, 1), Err(CgroupError::AlreadyDeleted));
    assert_eq!(remove_task(&mut host, &cg, 1), Err(CgroupError::AlreadyDeleted));
    assert_eq!(delete(&mut host, &mut cg), Err(CgroupError::AlreadyDeleted));
}

#[test]
fn delete_waits_for_the_one_subsystem_that_still_holds_the_process() {
    let mut host = Host::new();
    let mut cg = made(&mut host, "batch-1", &[Controllers::Cpu, Controllers::Memory]);
    let aside = made(&mut host, "aside", &[Controllers::Memory]);
    assert_eq!(add_task(&mut host, &cg, 4242), Ok(()));
    assert_eq!(add_task(&mut host, &aside, 4242), Ok(()));
    assert_eq!(census(&host, &cg), vec![vec![4242], vec![]]);
    assert_eq!(delete(&mut host, &mut cg), Err(CgroupError::Busy(Controllers::Cpu)));
    assert!(host.has_dir(Controllers::Cpu, &s(CPU)));
    assert!(host.has_dir(Controllers::Memory, &s(MEM)));
    assert_eq!(remove_task(&mut host, &cg, 4242), Ok(()));
    assert_eq!(delete(&mut host, &mut cg), Ok(vec![Outcome::Done, Outcome::Done]));
    assert!(host.has_dir(Controllers::Memory, &s("/sys/fs/cgroup/memory/aside")));
    assert_eq!(census(&host, &aside), vec![vec![4242]]);
}

#[test]
fn create_on_a_host_with_nothing_mounted_creates_nothing() {
    let mut host = Host::new();
    let requested = vec![Controllers::Cpu, Controllers::Memory];
    let r = create(&mut host, "g", &requested, &Hierarchy::new());
    assert_eq!(r.err(), Some(CgroupError::NoControllersAvailable));
    assert!(!host.has_dir(Controllers::Cpu, &s("/sys/fs/cgroup/cpu/g")));
}

#[test]
fn creating_a_group_again_attaches_to_its_directories() {
    let mut host = Host::new();
    let first = made(&mut host, "batch-1", &[Controllers::Cpu]);
    assert_eq!(add_task(&mut host, &first, 9), Ok(()));
    let again = made(&mut host, "batch-1", &[Controllers::Cpu]);
    assert_eq!(census(&host, &again), vec![vec![9]]);
}

#[test]
fn delete_with_a_task_left_changes_nothing() {
    let mut host = Host::new();
    let mut cg = made(&mut host, "batch-1", &[Controllers::Cpu, Controllers::Memory]);
    assert_eq!(add_task(&mut host, &cg, 4242), Ok(()));
    assert_eq!(delete(&mut host, &mut cg), Err(CgroupError::Busy(Controllers::Memory)));
    assert!(host.has_dir(Controllers::Cpu, &s(CPU)));
    assert!(host.has_dir(Controllers::Memory, &s(MEM)));
    assert_eq!(census(&host, &cg), vec![vec![4242], vec![4242]]);
    assert!(!cg.deleted());
}

#[test]
fn a_refusal_by_one_subsystem_leaves_the_others_write_in_place() {
    let mut host = Host::new();
    let cg = made(&mut host, "batch-1", &[Controllers::Cpu, Controllers::BlkIo, Controllers::Memory]);
    let mut res = Resources::new();
    res.cpu = Some(CpuResources { shares: Some(512), quota: None, period: None });
    res.blkio = Some(BlkIoResources { weight: Some(-20), leaf_weight: None, devices: Vec::new() });
    res.memory = Some(MemoryResources { limit: Some(1 << 30), soft_limit: None, swap_limit: None });
    assert_eq!(
        apply(&mut host, &cg, &res),
        Err(CgroupError::Failed(vec![(Controllers::BlkIo, ControllerError::InvalidValue)]))
    );
    assert_eq!(host.read(Controllers::Cpu, &s(CPU), Knob::CpuShares), Some(512));
    assert_eq!(host.read(Controllers::Memory, &s(MEM), Knob::MemoryLimit), Some(1 << 30));
    assert_eq!(
        host.read(Controllers::BlkIo, &s("/sys/fs/cgroup/blkio/batch-1"), Knob::BlkIoWeight),
        None
    );
}

#[test]
fn a_write_that_is_denied_is_reported_and_the_rest_goes_through() {
    let mut host = Host::new();
    let cg = made(&mut host, "batch-1", &[Controllers::Cpu, Controllers::Memory]);
    assert!(host.protect(Controllers::Cpu, &s(CPU), true));
    let mut res = Resources::new();
    res.cpu = Some(CpuResources { shares: Some(512), quota: None, period: None });
    res.memory = Some(MemoryResources { limit: Some(4096), soft_limit: None, swap_limit: None });
    assert_eq!(
        apply(&mut host, &cg, &res),
        Err(CgroupError::Failed(vec![(Controllers::Cpu, ControllerError::PermissionDenied)]))
    );
    assert_eq!(host.read(Controllers::Cpu, &s(CPU), Knob::CpuShares), None);
    assert_eq!(host.read(Controllers::Memory, &s(MEM), Knob::MemoryLimit), Some(4096));
    assert_eq!(
        add_task(&mut host, &cg, 5),
        Err(CgroupError::Failed(vec![(Controllers::Cpu, ControllerError::PermissionDenied)]))
    );
    assert_eq!(census(&host, &cg), vec![vec![], vec![5]]);
    assert!(host.protect(Controllers::Cpu, &s(CPU), false));
    assert_eq!(apply(&mut host, &cg, &res), Ok(()));
    assert_eq!(host.read(Controllers::Cpu, &s(CPU), Knob::CpuShares), Some(512));
}

#[test]
fn a_directory_that_vanished_is_reported_as_not_mounted() {
    let mut host = Host::new();
    let cg = made(&mut host, "batch-1", &[Controllers::Cpu, Controllers::Memory]);
    assert_eq!(
        host.perform(&action(Controllers::Memory, MEM, Operation::RemoveDir)),
        Outcome::Done
    );
    assert_eq!(
        add_task(&mut host, &cg, 5),
        Err(CgroupError::Failed(vec![(Controllers::Memory, ControllerError::NotMounted)]))
    );
    assert_eq!(host.tasks(Controllers::Cpu, &s(CPU)), vec![5]);
}

#[test]
fn what_was_applied_is_what_is_read_back() {
    let mut host = Host::new();
    let cg = made(&mut host, "batch-1", &[Controllers::Cpu, Controllers::Memory]);
    let mut first = Resources::new();
    first.cpu = Some(CpuResources { shares: Some(512), quota: Some(20000), period: Some(100000) });
    assert_eq!(apply(&mut host, &cg, &first), Ok(()));
    assert_eq!(host.read(Controllers::Cpu, &s(CPU), Knob::CpuShares), Some(512));
    assert_eq!(host.read(Controllers::Cpu, &s(CPU), Knob::CpuQuota), Some(20000));
    assert_eq!(host.read(Controllers::Cpu, &s(CPU), Knob::CpuPeriod), Some(100000));
    let mut second = Resources::new();
    second.cpu = Some(CpuResources { shares: None, quota: Some(-1), period: None });
    assert_eq!(apply(&mut host, &cg, &second), Ok(()));
    assert_eq!(host.read(Controllers::Cpu, &s(CPU), Knob::CpuShares), Some(512));
    assert_eq!(host.read(Controllers::Cpu, &s(CPU), Knob::CpuQuota), Some(-1));
    assert_eq!(host.read(Controllers::Cpu, &s(CPU), Knob::CpuPeriod), Some(100000));
}

#[test]
fn the_host_refuses_a_write_that_is_not_the_hierarchys_or_out_of_range() {
    let mut host = Host::new();
    made(&mut host, "batch-1", &[Controllers::Cpu]);
    let foreign = Operation::Write(Directive { knob: Knob::MemoryLimit, value: 1 });
    assert_eq!(
        host.perform(&action(Controllers::Cpu, CPU, foreign)),
        Outcome::Failed(ControllerError::InvalidValue)
    );
    let low = Operation::Write(Directive { knob: Knob::CpuShares, value: 1 });
    assert_eq!(
        host.perform(&action(Controllers::Cpu, CPU, low)),
        Outcome::Failed(ControllerError::InvalidValue)
    );
    assert_eq!(host.read(Controllers::Cpu, &s(CPU), Knob::CpuShares), None);
}

#[test]
fn the_host_keeps_a_directory_that_holds_processes() {
    let mut host = Host::new();
    let cg = made(&mut host, "batch-1", &[Controllers::Cpu]);
    assert_eq!(add_task(&mut host, &cg, 1), Ok(()));
    assert_eq!(
        host.perform(&action(Controllers::Cpu, CPU, Operation::RemoveDir)),
        Outcome::Failed(ControllerError::Io)
    );
    assert!(host.has_dir(Controllers::Cpu, &s(CPU)));
    assert_eq!(
        host.perform(&action(Controllers::Cpu, "/nowhere", Operation::RemoveDir)),
        Outcome::Failed(ControllerError::NotMounted)
    );
    assert!(!host.protect(Controllers::Cpu, &s("/nowhere"), true));
}

#[test]
fn a_process_is_in_one_group_per_hierarchy() {
    let mut host = Host::new();
    let a = made(&mut host, "a", &[Controllers::Cpu, Controllers::Memory]);
    let b = made(&mut host, "b", &[Controllers::Cpu]);
    assert_eq!(add_task(&mut host, &a, 1), Ok(()));
    assert_eq!(add_task(&mut host, &a, 2), Ok(()));
    assert_eq!(add_task(&mut host, &b, 1), Ok(()));
    assert_eq!(census(&host, &a), vec![vec![2], vec![1, 2]]);
    assert_eq!(census(&host, &b), vec![vec![1]]);
    assert_eq!(add_task(&mut host, &a, 2), Ok(()));
    assert_eq!(census(&host, &a), vec![vec![2], vec![1, 2]]);
    assert_eq!(add_task(&mut host, &a, 1), Ok(()));
    assert_eq!(census(&host, &a), vec![vec![2, 1], vec![2, 1]]);
    assert_eq!(census(&host, &b), vec![Vec::<u64>::new()]);
}

#[test]
fn run_tells_how_each_action_ended() {
    let mut host = Host::new();
    let actions = vec![
        action(Controllers::Pids, "/p/g", Operation::AddTask(3)),
        action(Controllers::Pids, "/p/g", Operation::CreateDir),
        action(Controllers::Pids, "/p/g", Operation::CreateDir),
        action(Controllers::Pids, "/p/g", Operation::AddTask(3)),
        action(Controllers::Pids, "/p/g", Operation::RemoveDir),
        action(Controllers::Pids, "/p/g", Operation::RemoveTask(3)),
        action(Controllers::Pids, "/p/g", Operation::RemoveDir),
        action(Controllers::Pids, "/p/g", Operation::RemoveTask(3)),
    ];
    assert_eq!(
        host.run(&actions),
        vec![
            Outcome::Failed(ControllerError::NotMounted),
            Outcome::Done,
            Outcome::Done,
            Outcome::Done,
            Outcome::Failed(ControllerError::Io),
            Outcome::Done,
            Outcome::Done,
            Outcome::Failed(ControllerError::NotMounted),
        ]
    );
}

#[test]
fn strike_takes_every_occurrence_out() {
    assert_eq!(strike(&vec![1, 2, 1, 3, 1], 1), vec![2, 3]);
    assert_eq!(strike(&vec![1, 2, 3], 4), vec![1, 2, 3]);
    assert_eq!(strike(&Vec::new(), 4), Vec::<u64>::new());
}

#[test]
fn read_back_shows_the_latest_value_of_a_tunable() {
    let written = vec![
        Directive { knob: Knob::CpuShares, value: 2 },
        Directive { knob: Knob::CpuQuota, value: -1 },
        Directive { knob: Knob::CpuShares, value: 1024 },
    ];
    assert_eq!(read_back(&written, Knob::CpuShares), Some(1024));
    assert_eq!(read_back(&written, Knob::CpuQuota), Some(-1));
    assert_eq!(read_back(&written, Knob::CpuPeriod), None);
}

#[test]
fn of_two_weights_for_one_device_the_later_is_read_back() {
    let mut host = Host::new();
    let cg = made(&mut host, "batch-1", &[Controllers::BlkIo]);
    let mut res = Resources::new();
    res.blkio = Some(BlkIoResources {
        weight: Some(200),
        leaf_weight: None,
        devices: vec![
            DeviceWeight { major: 8, minor: 0, weight: 100 },
            DeviceWeight { major: 8, minor: 16, weight: 300 },
            DeviceWeight { major: 8, minor: 0, weight: 900 },
        ],
    });
    assert_eq!(apply(&mut host, &cg, &res), Ok(()));
    let dir = s("/sys/fs/cgroup/blkio/batch-1");
    assert_eq!(host.read(Controllers::BlkIo, &dir, Knob::BlkIoWeight), Some(200));
    assert_eq!(host.read(Controllers::BlkIo, &dir, Knob::BlkIoLeafWeight), None);
    assert_eq!(
        host.read(Controllers::BlkIo, &dir, Knob::BlkIoDeviceWeight { major: 8, minor: 0 }),
        Some(900)
    );
    assert_eq!(
        host.read(Controllers::BlkIo, &dir, Knob::BlkIoDeviceWeight { major: 8, minor: 16 }),
        Some(300)
    );
    assert_eq!(
        host.read(Controllers::BlkIo, &dir, Knob::BlkIoDeviceWeight { major: 8, minor: 32 }),
        None
    );
}

#[test]
fn reading_through_the_group_goes_to_the_owning_subsystem() {
    let mut host = Host::new();
    let mut cg = made(&mut host, "batch-1", &[Controllers::Cpu, Controllers::Memory]);
    let mut res = Resources::new();
    res.memory = Some(MemoryResources { limit: Some(536870912), soft_limit: None, swap_limit: None });
    assert_eq!(apply(&mut host, &cg, &res), Ok(()));
    assert_eq!(read(&host, &cg, Knob::MemoryLimit), Ok(Some(536870912)));
    assert_eq!(read(&host, &cg, Knob::MemorySoftLimit), Ok(None));
    assert_eq!(read(&host, &cg, Knob::CpuShares), Ok(None));
    assert_eq!(read(&host, &cg, Knob::PidsMax), Ok(None));
    assert_eq!(delete(&mut host, &mut cg), Ok(vec![Outcome::Done, Outcome::Done]));
    assert_eq!(read(&host, &cg, Knob::MemoryLimit), Err(CgroupError::AlreadyDeleted));
}
