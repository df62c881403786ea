use cgroups::action::{Action, Operation, Outcome};
use cgroups::cgroup::Cgroup;
use cgroups::controller::Controller;
use cgroups::directive::{Directive, Knob};
use cgroups::error::{CgroupError, ControllerError};
use cgroups::hierarchy::Hierarchy;
use cgroups::kinds::Controllers;
use cgroups::plan::Plan;
use cgroups::resources::{BlkIoResources, CpuResources, MemoryResources, PidResources, Resources};

fn host_with(kinds: &[Controllers]) -> Hierarchy {
    let mut h = Hierarchy::new();
    for kind in kinds {
        h.mount_under(*kind, &String::from("/sys/fs/cgroup"));
    }
    h
}

fn action(kind: Controllers, path: &str, op: Operation) -> Action {
    Action { kind, path: String::from(path), op }
}

fn write(kind: Controllers, path: &str, knob: Knob, value: i64) -> Action {
    action(kind, path, Operation::Write(Directive { knob, value }))
}

fn group(name: &str, kinds: &[Controllers]) -> Cgroup {
    let h = host_with(kinds);
    let creation = Cgroup::create(name, &kinds.to_vec(), &h).unwrap();
    let done = vec![Outcome::Done; creation.actions().len()];
    creation.finish(&done).unwrap().0
}

fn kinds_of(cg: &Cgroup) -> Vec<Controllers> {
    cg.subsystems().iter().map(|s| s.control_type()).collect()
}

#[test]
fn create_spans_the_requested_kinds_in_order() {
    let h = host_with(&[Controllers::Cpu, Controllers::Memory, Controllers::Pids]);
    let requested = vec![Controllers::Memory, Controllers::Cpu];
    let creation = Cgroup::create("batch-1", &requested, &h).unwrap();
    assert!(creation.omissions().is_empty());
    assert_eq!(
        creation.actions(),
        vec![
            action(Controllers::Memory, "/sys/fs/cgroup/memory/batch-1", Operation::CreateDir),
            action(Controllers::Cpu, "/sys/fs/cgroup/cpu/batch-1", Operation::CreateDir),
        ]
    );
    let (cg, failed) = creation.finish(&vec![Outcome::Done, Outcome::Done]).unwrap();
    assert!(failed.is_empty());
    assert!(!cg.deleted());
    assert_eq!(cg.group_name().as_str(), "batch-1");
    assert_eq!(kinds_of(&cg), vec![Controllers::Memory, Controllers::Cpu]);
}

#[test]
fn every_subsystem_of_a_group_lies_under_its_root_by_the_groups_name() {
    let all = Controllers::all();
    let cg = group("web/frontend", &all);
    assert_eq!(cg.subsystems().len(), 13);
    for sub in cg.subsystems() {
        let root = format!("/sys/fs/cgroup/{}", sub.control_type().to_string());
        assert_eq!(sub.get_base().as_str(), root);
        assert_eq!(sub.get_path().as_str(), format!("{}/web/frontend", root));
    }
    let dirs = cg.directories();
    assert_eq!(dirs.len(), 13);
    for (dir, sub) in dirs.iter().zip(cg.subsystems()) {
        assert_eq!(dir, sub.get_path());
    }
}

#[test]
fn create_leaves_out_and_reports_what_is_not_mounted() {
    let h = host_with(&[Controllers::Cpu, Controllers::Memory]);
    let requested = vec![Controllers::Cpu, Controllers::PerfEvent, Controllers::Memory];
    let creation = Cgroup::create("batch-1", &requested, &h).unwrap();
    assert_eq!(creation.omissions(), &vec![Controllers::PerfEvent]);
    let (cg, _) = creation.finish(&vec![Outcome::Done, Outcome::Done]).unwrap();
    assert_eq!(kinds_of(&cg), vec![Controllers::Cpu, Controllers::Memory]);
    assert!(cg.controller(Controllers::PerfEvent).is_none());
    assert_eq!(
        cg.controller(Controllers::Memory).unwrap().get_path().as_str(),
        "/sys/fs/cgroup/memory/batch-1"
    );
}

#[test]
fn create_with_nothing_mounted_fails() {
    let h = Hierarchy::new();
    let requested = vec![Controllers::Cpu, Controllers::Memory, Controllers::PerfEvent];
    assert_eq!(
        Cgroup::create("batch-1", &requested, &h).err(),
        Some(CgroupError::NoControllersAvailable)
    );
}

#[test]
fn create_over_no_kinds_fails() {
    let h = host_with(&[Controllers::Cpu]);
    assert_eq!(
        Cgroup::create("batch-1", &Vec::new(), &h).err(),
        Some(CgroupError::NoControllersAvailable)
    );
}

#[test]
fn a_kind_requested_twice_counts_once() {
    let h = host_with(&[Controllers::Cpu]);
    let requested = vec![
        Controllers::Cpu,
        Controllers::Rdma,
        Controllers::Cpu,
        Controllers::Rdma,
    ];
    let creation = Cgroup::create("g", &requested, &h).unwrap();
    assert_eq!(creation.omissions(), &vec![Controllers::Rdma]);
    assert_eq!(
        creation.actions(),
        vec![action(Controllers::Cpu, "/sys/fs/cgroup/cpu/g", Operation::CreateDir)]
    );
}

#[test]
fn finish_drops_a_kind_whose_directory_could_not_be_created() {
    let kinds = [Controllers::Cpu, Controllers::Memory, Controllers::Pids];
    let h = host_with(&kinds);
    let creation = Cgroup::create("g", &kinds.to_vec(), &h).unwrap();
    let outcomes = vec![
        Outcome::Done,
        Outcome::Failed(ControllerError::PermissionDenied),
        Outcome::Done,
    ];
    let (cg, failed) = creation.finish(&outcomes).unwrap();
    assert_eq!(kinds_of(&cg), vec![Controllers::Cpu, Controllers::Pids]);
    assert_eq!(failed, vec![(Controllers::Memory, ControllerError::PermissionDenied)]);
}

#[test]
fn finish_fails_when_no_directory_could_be_created() {
    let kinds = [Controllers::Cpu, Controllers::Memory];
    let h = host_with(&kinds);
    let creation = Cgroup::create("g", &kinds.to_vec(), &h).unwrap();
    let outcomes = vec![
        Outcome::Failed(ControllerError::Io),
        Outcome::Failed(ControllerError::NotMounted),
    ];
    assert_eq!(creation.finish(&outcomes).err(), Some(CgroupError::NoControllersAvailable));
}

#[test]
fn finish_counts_a_missing_outcome_as_a_failure() {
    let kinds = [Controllers::Cpu, Controllers::Memory];
    let h = host_with(&kinds);
    let creation = Cgroup::create("g", &kinds.to_vec(), &h).unwrap();
    let (cg, failed) = creation.finish(&vec![Outcome::Done]).unwrap();
    assert_eq!(kinds_of(&cg), vec![Controllers::Cpu]);
    assert_eq!(failed, vec![(Controllers::Memory, ControllerError::Io)]);
}

#[test]
fn applying_the_empty_record_writes_nothing_and_succeeds() {
    let cg = group("g", &Controllers::all());
    let plan = cg.apply(&Resources::default()).unwrap();
    assert_eq!(plan, Plan { actions: Vec::new(), rejected: Vec::new() });
    assert_eq!(cg.report(&plan, &Vec::new()), Ok(()));
}

#[test]
fn apply_addresses_only_the_subsystems_the_record_holds_parts_for() {
    let cg = group("batch-1", &[Controllers::Cpu, Controllers::Memory]);
    let mut res = Resources::new();
    res.memory = Some(MemoryResources { limit: Some(536870912), soft_limit: None, swap_limit: None });
    let plan = cg.apply(&res).unwrap();
    assert_eq!(
        plan.actions,
        vec![write(
            Controllers::Memory,
            "/sys/fs/cgroup/memory/batch-1",
            Knob::MemoryLimit,
            536870912
        )]
    );
    assert!(plan.rejected.is_empty());
}

#[test]
fn apply_ignores_parts_for_subsystems_the_group_does_not_own() {
    let cg = group("g", &[Controllers::Cpu]);
    let mut res = Resources::new();
    res.pids = Some(PidResources { max: Some(-7) });
    res.cpu = Some(CpuResources { shares: Some(100), quota: None, period: None });
    let plan = cg.apply(&res).unwrap();
    assert_eq!(
        plan.actions,
        vec![write(Controllers::Cpu, "/sys/fs/cgroup/cpu/g", Knob::CpuShares, 100)]
    );
    assert!(plan.rejected.is_empty());
}

#[test]
fn apply_goes_on_past_a_subsystem_that_refuses() {
    let cg = group("g", &[Controllers::BlkIo, Controllers::Cpu, Controllers::Pids]);
    let mut res = Resources::new();
    res.blkio = Some(BlkIoResources { weight: Some(-1), leaf_weight: Some(100), devices: Vec::new() });
    res.cpu = Some(CpuResources { shares: Some(512), quota: Some(-1), period: None });
    res.pids = Some(PidResources { max: Some(-2) });
    let plan = cg.apply(&res).unwrap();
    assert_eq!(
        plan.actions,
        vec![
            write(Controllers::Cpu, "/sys/fs/cgroup/cpu/g", Knob::CpuShares, 512),
            write(Controllers::Cpu, "/sys/fs/cgroup/cpu/g", Knob::CpuQuota, -1),
        ]
    );
    assert_eq!(
        plan.rejected,
        vec![
            (Controllers::BlkIo, ControllerError::InvalidValue),
            (Controllers::Pids, ControllerError::InvalidValue),
        ]
    );
    assert_eq!(
        cg.report(&plan, &vec![Outcome::Done, Outcome::Done]),
        Err(CgroupError::Failed(vec![
            (Controllers::BlkIo, ControllerError::InvalidValue),
            (Controllers::Pids, ControllerError::InvalidValue),
        ]))
    );
}

#[test]
fn report_names_each_failed_subsystem_once_in_registration_order() {
    let cg = group("g", &[Controllers::Memory, Controllers::Cpu, Controllers::Pids]);
    let mut res = Resources::new();
    res.cpu = Some(CpuResources { shares: Some(512), quota: Some(-1), period: Some(1000) });
    res.memory =
        Some(MemoryResources { limit: Some(1), soft_limit: Some(1), swap_limit: Some(1) });
    res.pids = Some(PidResources { max: Some(5) });
    let plan = cg.apply(&res).unwrap();
    assert_eq!(plan.actions.len(), 7);
    let outcomes = vec![
        Outcome::Done,
        Outcome::Failed(ControllerError::Unsupported),
        Outcome::Failed(ControllerError::Io),
        Outcome::Failed(ControllerError::PermissionDenied),
        Outcome::Done,
        Outcome::Failed(ControllerError::NotMounted),
        Outcome::Done,
    ];
    assert_eq!(
        cg.report(&plan, &outcomes),
        Err(CgroupError::Failed(vec![
            (Controllers::Memory, ControllerError::Unsupported),
            (Controllers::Cpu, ControllerError::PermissionDenied),
        ]))
    );
}

#[test]
fn report_succeeds_when_every_action_ended_well() {
    let cg = group("g", &[Controllers::Memory, Controllers::Cpu]);
    let plan = cg.add_task(4242).unwrap();
    assert_eq!(cg.report(&plan, &vec![Outcome::Done, Outcome::Done]), Ok(()));
}

#[test]
fn report_counts_an_action_without_outcome_as_failed() {
    let cg = group("g", &[Controllers::Memory, Controllers::Cpu]);
    let plan = cg.add_task(4242).unwrap();
    assert_eq!(
        cg.report(&plan, &vec![Outcome::Done]),
        Err(CgroupError::Failed(vec![(Controllers::Cpu, ControllerError::Io)]))
    );
}

#[test]
fn add_task_writes_the_pid_to_every_subsystem() {
    let cg = group("batch-1", &[Controllers::Cpu, Controllers::Memory]);
    let plan = cg.add_task(4242).unwrap();
    assert_eq!(
        plan.actions,
        vec![
            action(Controllers::Cpu, "/sys/fs/cgroup/cpu/batch-1", Operation::AddTask(4242)),
            action(Controllers::Memory, "/sys/fs/cgroup/memory/batch-1", Operation::AddTask(4242)),
        ]
    );
    assert!(plan.rejected.is_empty());
}

#[test]
fn remove_task_takes_the_pid_off_every_subsystem() {
    let cg = group("batch-1", &[Controllers::Cpu, Controllers::Memory]);
    let plan = cg.remove_task(7).unwrap();
    assert_eq!(
        plan.actions,
        vec![
            action(Controllers::Cpu, "/sys/fs/cgroup/cpu/batch-1", Operation::RemoveTask(7)),
            action(Controllers::Memory, "/sys/fs/cgroup/memory/batch-1", Operation::RemoveTask(7)),
        ]
    );
}

#[test]
fn delete_is_refused_while_a_directory_holds_a_process() {
    let mut cg = group("g", &[Controllers::Cpu, Controllers::Memory, Controllers::Pids]);
    let tasks = vec![vec![], vec![4242], vec![]];
    assert_eq!(cg.delete(&tasks), Err(CgroupError::Busy(Controllers::Memory)));
    let tasks = vec![vec![7], vec![4242], vec![1, 2]];
    assert_eq!(cg.delete(&tasks), Err(CgroupError::Busy(Controllers::Pids)));
    let tasks = vec![vec![7], vec![], vec![]];
    assert_eq!(cg.delete(&tasks), Err(CgroupError::Busy(Controllers::Cpu)));
    assert!(!cg.deleted());
    assert_eq!(kinds_of(&cg), vec![Controllers::Cpu, Controllers::Memory, Controllers::Pids]);
    assert!(cg.add_task(1).is_ok());
}

#[test]
fn delete_takes_an_unknown_task_list_for_occupied() {
    let mut cg = group("g", &[Controllers::Cpu, Controllers::Memory]);
    assert_eq!(cg.delete(&vec![vec![]]), Err(CgroupError::Busy(Controllers::Memory)));
    assert_eq!(cg.delete(&vec![vec![1]]), Err(CgroupError::Busy(Controllers::Memory)));
    assert_eq!(cg.delete(&Vec::new()), Err(CgroupError::Busy(Controllers::Memory)));
    assert_eq!(cg.delete(&vec![vec![1], vec![]]), Err(CgroupError::Busy(Controllers::Cpu)));
    assert!(!cg.deleted());
}

#[test]
fn delete_removes_every_directory_of_an_empty_group() {
    let mut cg = group("g", &[Controllers::Cpu, Controllers::Memory]);
    let removals = cg.delete(&vec![vec![], vec![]]).unwrap();
    assert_eq!(
        removals,
        vec![
            action(Controllers::Cpu, "/sys/fs/cgroup/cpu/g", Operation::RemoveDir),
            action(Controllers::Memory, "/sys/fs/cgroup/memory/g", Operation::RemoveDir),
        ]
    );
    assert!(cg.deleted());
}

#[test]
fn nothing_can_be_done_with_a_deleted_group() {
    let mut cg = group("g", &[Controllers::Cpu]);
    let plan = cg.add_task(1).unwrap();
    cg.delete(&vec![vec![]]).unwrap();
    assert_eq!(cg.apply(&Resources::default()).err(), Some(CgroupError::AlreadyDeleted));
    assert_eq!(cg.add_task(1).err(), Some(CgroupError::AlreadyDeleted));
    assert_eq!(cg.remove_task(1).err(), Some(CgroupError::AlreadyDeleted));
    assert_eq!(cg.report(&plan, &vec![Outcome::Done]), Err(CgroupError::AlreadyDeleted));
    assert_eq!(cg.delete(&vec![vec![]]), Err(CgroupError::AlreadyDeleted));
    assert_eq!(cg.delete(&vec![vec![9]]), Err(CgroupError::AlreadyDeleted));
    assert!(cg.deleted());
}
