use cgroups::blkio::BlkIoController;
use cgroups::controller::{ControllIdentifier, Controller};
use cgroups::cpu::CpuController;
use cgroups::cpuacct::CpuAcctController;
use cgroups::cpuset::CpuSetController;
use cgroups::devices::DevicesController;
use cgroups::directive::{translate, DeviceClass, Directive, Knob, Setting};
use cgroups::error::ControllerError;
use cgroups::freezer::FreezerController;
use cgroups::hugetlb::HugeTlbController;
use cgroups::kinds::Controllers;
use cgroups::memory::MemController;
use cgroups::net_cls::NetClsController;
use cgroups::net_prio::NetPrioController;
use cgroups::perf_event::PerfEventController;
use cgroups::pid::PidController;
use cgroups::rdma::RdmaController;
use cgroups::resources::{
    BlkIoResources, CpuResources, DeviceResources, DeviceRule, DeviceWeight, HugePageResources,
    MemoryResources, NetworkResources, PidResources, Resources,
};
use cgroups::subsystem::Subsystem;

fn root() -> String {
    String::from("/sys/fs/cgroup")
}

fn set(knob: Knob, value: i64) -> Directive {
    Directive { knob, value }
}

fn full_record() -> Resources {
    Resources {
        cpu: Some(CpuResources { shares: Some(512), quota: Some(50000), period: Some(100000) }),
        memory: Some(MemoryResources {
            limit: Some(536870912),
            soft_limit: Some(268435456),
            swap_limit: Some(-1),
        }),
        pids: Some(PidResources { max: Some(64) }),
        blkio: Some(BlkIoResources {
            weight: Some(500),
            leaf_weight: Some(10),
            devices: vec![DeviceWeight { major: 8, minor: 0, weight: 300 }],
        }),
        devices: Some(DeviceResources {
            rules: vec![
                DeviceRule { allow: false, class: DeviceClass::All, major: -1, minor: -1, access: 7 },
                DeviceRule { allow: true, class: DeviceClass::Char, major: 1, minor: 3, access: 6 },
            ],
        }),
        network: Some(NetworkResources { class_id: Some(0x100001) }),
        hugepages: Some(HugePageResources { limit: Some(2097152) }),
    }
}

#[test]
fn every_controller_stands_where_its_kind_is_mounted() {
    assert_eq!(BlkIoController::new(root()).get_base().as_str(), "/sys/fs/cgroup/blkio");
    assert_eq!(CpuController::new(root()).get_base().as_str(), "/sys/fs/cgroup/cpu");
    assert_eq!(CpuAcctController::new(root()).get_base().as_str(), "/sys/fs/cgroup/cpuacct");
    assert_eq!(CpuSetController::new(root()).get_base().as_str(), "/sys/fs/cgroup/cpuset");
    assert_eq!(DevicesController::new(root()).get_base().as_str(), "/sys/fs/cgroup/devices");
    assert_eq!(FreezerController::new(root()).get_base().as_str(), "/sys/fs/cgroup/freezer");
    assert_eq!(HugeTlbController::new(root()).get_base().as_str(), "/sys/fs/cgroup/hugetlb");
    assert_eq!(MemController::new(root()).get_base().as_str(), "/sys/fs/cgroup/memory");
    assert_eq!(NetClsController::new(root()).get_base().as_str(), "/sys/fs/cgroup/net_cls");
    assert_eq!(NetPrioController::new(root()).get_base().as_str(), "/sys/fs/cgroup/net_prio");
    assert_eq!(PerfEventController::new(root()).get_base().as_str(), "/sys/fs/cgroup/perf_event");
    assert_eq!(PidController::new(root()).get_base().as_str(), "/sys/fs/cgroup/pids");
    assert_eq!(RdmaController::new(root()).get_base().as_str(), "/sys/fs/cgroup/rdma");
}

#[test]
fn every_controller_type_names_its_kind() {
    assert_eq!(BlkIoController::controller_type(), Controllers::BlkIo);
    assert_eq!(CpuController::controller_type(), Controllers::Cpu);
    assert_eq!(CpuAcctController::controller_type(), Controllers::Cpuacct);
    assert_eq!(CpuSetController::controller_type(), Controllers::CpuSet);
    assert_eq!(DevicesController::controller_type(), Controllers::Devices);
    assert_eq!(FreezerController::controller_type(), Controllers::Freezer);
    assert_eq!(HugeTlbController::controller_type(), Controllers::HugeTlb);
    assert_eq!(MemController::controller_type(), Controllers::Memory);
    assert_eq!(NetClsController::controller_type(), Controllers::NetCls);
    assert_eq!(NetPrioController::controller_type(), Controllers::NetPrio);
    assert_eq!(PerfEventController::controller_type(), Controllers::PerfEvent);
    assert_eq!(PidController::controller_type(), Controllers::Pids);
    assert_eq!(RdmaController::controller_type(), Controllers::Rdma);
}

#[test]
fn subsystem_new_agrees_with_its_kind_for_every_kind() {
    for kind in Controllers::all() {
        let sub = Subsystem::new(kind, root());
        assert_eq!(sub.control_type(), kind);
        assert_eq!(sub.get_base().as_str(), format!("/sys/fs/cgroup/{}", kind.to_string()));
        assert_eq!(sub.get_path(), sub.get_base());
    }
}

#[test]
fn rooted_takes_the_hierarchy_root_as_given() {
    for kind in Controllers::all() {
        let sub = Subsystem::rooted(kind, String::from("/mnt/h"));
        assert_eq!(sub.control_type(), kind);
        assert_eq!(sub.get_base().as_str(), "/mnt/h");
        assert_eq!(sub.get_path().as_str(), "/mnt/h");
    }
}

#[test]
fn at_places_the_group_under_the_hierarchy_root() {
    for kind in Controllers::all() {
        let sub = Subsystem::at(kind, String::from("/mnt/h"), "batch-1");
        assert_eq!(sub.control_type(), kind);
        assert_eq!(sub.get_base().as_str(), "/mnt/h");
        assert_eq!(sub.get_path().as_str(), "/mnt/h/batch-1");
    }
}

#[test]
fn relocate_moves_the_directory_and_keeps_the_root() {
    let mut ctrl = PerfEventController::new(root());
    ctrl.relocate("batch-1");
    assert_eq!(ctrl.get_base().as_str(), "/sys/fs/cgroup/perf_event");
    assert_eq!(ctrl.get_path().as_str(), "/sys/fs/cgroup/perf_event/batch-1");
    ctrl.relocate("batch-2");
    assert_eq!(ctrl.get_path().as_str(), "/sys/fs/cgroup/perf_event/batch-2");
    assert_eq!(ctrl.control_type(), Controllers::PerfEvent);
}

#[test]
fn from_finds_the_controller_of_its_own_kind_only() {
    let perf = Subsystem::new(Controllers::PerfEvent, root());
    let cpu = Subsystem::new(Controllers::Cpu, root());
    let found = PerfEventController::from(&perf);
    assert!(found.is_some());
    assert_eq!(found.unwrap().get_base().as_str(), "/sys/fs/cgroup/perf_event");
    assert!(PerfEventController::from(&cpu).is_none());
    assert!(CpuController::from(&cpu).is_some());
    assert!(CpuController::from(&perf).is_none());
    assert!(MemController::from(&cpu).is_none());
}

#[test]
fn from_matches_exactly_one_controller_type_per_subsystem() {
    for kind in Controllers::all() {
        let sub = Subsystem::new(kind, root());
        let hits = [
            BlkIoController::from(&sub).is_some(),
            CpuController::from(&sub).is_some(),
            CpuAcctController::from(&sub).is_some(),
            CpuSetController::from(&sub).is_some(),
            DevicesController::from(&sub).is_some(),
            FreezerController::from(&sub).is_some(),
            HugeTlbController::from(&sub).is_some(),
            MemController::from(&sub).is_some(),
            NetClsController::from(&sub).is_some(),
            NetPrioController::from(&sub).is_some(),
            PerfEventController::from(&sub).is_some(),
            PidController::from(&sub).is_some(),
            RdmaController::from(&sub).is_some(),
        ];
        assert_eq!(hits.iter().filter(|h| **h).count(), 1);
    }
}

#[test]
fn the_empty_record_asks_nothing_of_any_subsystem() {
    let res = Resources::default();
    assert_eq!(res, Resources::new());
    for kind in Controllers::all() {
        assert!(!res.has_part(kind));
        assert_eq!(Subsystem::new(kind, root()).apply(&res), Ok(Vec::new()));
    }
}

#[test]
fn subsystems_without_tunables_ignore_a_full_record() {
    let res = full_record();
    let silent = [
        Controllers::CpuSet,
        Controllers::Cpuacct,
        Controllers::Freezer,
        Controllers::NetPrio,
        Controllers::PerfEvent,
        Controllers::Rdma,
    ];
    for kind in silent {
        assert!(!res.has_part(kind));
        assert_eq!(Subsystem::new(kind, root()).apply(&res), Ok(Vec::new()));
    }
}

#[test]
fn each_subsystem_translates_its_own_part() {
    let res = full_record();
    assert_eq!(
        CpuController::new(root()).apply(&res),
        Ok(vec![
            set(Knob::CpuShares, 512),
            set(Knob::CpuQuota, 50000),
            set(Knob::CpuPeriod, 100000)
        ])
    );
    assert_eq!(
        MemController::new(root()).apply(&res),
        Ok(vec![
            set(Knob::MemoryLimit, 536870912),
            set(Knob::MemorySoftLimit, 268435456),
            set(Knob::MemorySwapLimit, -1)
        ])
    );
    assert_eq!(PidController::new(root()).apply(&res), Ok(vec![set(Knob::PidsMax, 64)]));
    assert_eq!(
        BlkIoController::new(root()).apply(&res),
        Ok(vec![
            set(Knob::BlkIoWeight, 500),
            set(Knob::BlkIoLeafWeight, 10),
            set(Knob::BlkIoDeviceWeight { major: 8, minor: 0 }, 300),
        ])
    );
    assert_eq!(
        DevicesController::new(root()).apply(&res),
        Ok(vec![
            set(Knob::DeviceDeny { class: DeviceClass::All, major: -1, minor: -1 }, 7),
            set(Knob::DeviceAllow { class: DeviceClass::Char, major: 1, minor: 3 }, 6),
        ])
    );
    assert_eq!(
        NetClsController::new(root()).apply(&res),
        Ok(vec![set(Knob::NetClassId, 0x100001)])
    );
    assert_eq!(
        HugeTlbController::new(root()).apply(&res),
        Ok(vec![set(Knob::HugePagesLimit, 2097152)])
    );
}

#[test]
fn a_field_that_is_not_set_is_not_written() {
    let mut res = Resources::new();
    res.memory = Some(MemoryResources { limit: Some(536870912), soft_limit: None, swap_limit: None });
    assert_eq!(
        MemController::new(root()).apply(&res),
        Ok(vec![set(Knob::MemoryLimit, 536870912)])
    );
    res.cpu = Some(CpuResources::new());
    assert_eq!(CpuController::new(root()).apply(&res), Ok(Vec::new()));
}

#[test]
fn a_value_out_of_range_is_refused_whole() {
    let mut res = Resources::new();
    res.blkio = Some(BlkIoResources { weight: Some(500), leaf_weight: Some(-5), devices: Vec::new() });
    assert_eq!(BlkIoController::new(root()).apply(&res), Err(ControllerError::InvalidValue));
    res.cpu = Some(CpuResources { shares: Some(1), quota: None, period: None });
    assert_eq!(CpuController::new(root()).apply(&res), Err(ControllerError::InvalidValue));
}

#[test]
fn ranges_of_the_tunables() {
    let cases = [
        (Knob::CpuShares, 1, false),
        (Knob::CpuShares, 2, true),
        (Knob::CpuShares, 262144, true),
        (Knob::CpuShares, 262145, false),
        (Knob::CpuQuota, -1, true),
        (Knob::CpuQuota, -2, false),
        (Knob::CpuQuota, 0, false),
        (Knob::CpuQuota, 999, false),
        (Knob::CpuQuota, 1000, true),
        (Knob::CpuPeriod, 999, false),
        (Knob::CpuPeriod, 1000, true),
        (Knob::CpuPeriod, 1000000, true),
        (Knob::CpuPeriod, 1000001, false),
        (Knob::MemoryLimit, -2, false),
        (Knob::MemoryLimit, -1, true),
        (Knob::MemoryLimit, 0, true),
        (Knob::MemorySoftLimit, -2, false),
        (Knob::MemorySoftLimit, i64::MAX, true),
        (Knob::MemorySwapLimit, -1, true),
        (Knob::MemorySwapLimit, i64::MIN, false),
        (Knob::PidsMax, -1, true),
        (Knob::PidsMax, -2, false),
        (Knob::PidsMax, 0, true),
        (Knob::BlkIoWeight, -1, false),
        (Knob::BlkIoWeight, 9, false),
        (Knob::BlkIoWeight, 10, true),
        (Knob::BlkIoWeight, 1000, true),
        (Knob::BlkIoWeight, 1001, false),
        (Knob::BlkIoLeafWeight, 9, false),
        (Knob::BlkIoLeafWeight, 1000, true),
        (Knob::NetClassId, -1, false),
        (Knob::NetClassId, 0, true),
        (Knob::NetClassId, 0xFFFF_FFFF, true),
        (Knob::NetClassId, 0x1_0000_0000, false),
        (Knob::HugePagesLimit, -1, false),
        (Knob::HugePagesLimit, 0, true),
        (Knob::BlkIoDeviceWeight { major: 8, minor: 16 }, 9, false),
        (Knob::BlkIoDeviceWeight { major: 8, minor: 16 }, 10, true),
        (Knob::BlkIoDeviceWeight { major: 8, minor: 16 }, 1000, true),
        (Knob::BlkIoDeviceWeight { major: 8, minor: 16 }, 1001, false),
        (Knob::BlkIoDeviceWeight { major: -1, minor: 16 }, 100, false),
        (Knob::BlkIoDeviceWeight { major: 8, minor: -1 }, 100, false),
        (Knob::BlkIoDeviceWeight { major: 0, minor: 0 }, 100, true),
        (Knob::DeviceAllow { class: DeviceClass::Char, major: 1, minor: 3 }, 0, false),
        (Knob::DeviceAllow { class: DeviceClass::Char, major: 1, minor: 3 }, 1, true),
        (Knob::DeviceAllow { class: DeviceClass::Char, major: 1, minor: 3 }, 7, true),
        (Knob::DeviceAllow { class: DeviceClass::Char, major: 1, minor: 3 }, 8, false),
        (Knob::DeviceAllow { class: DeviceClass::Block, major: -1, minor: -1 }, 4, true),
        (Knob::DeviceAllow { class: DeviceClass::Block, major: -2, minor: 0 }, 4, false),
        (Knob::DeviceDeny { class: DeviceClass::All, major: 0, minor: -2 }, 4, false),
        (Knob::DeviceDeny { class: DeviceClass::All, major: -1, minor: -1 }, 7, true),
        (Knob::DeviceDeny { class: DeviceClass::All, major: -1, minor: -1 }, -1, false),
    ];
    for (knob, value, ok) in cases {
        assert_eq!(knob.admits(value), ok, "{:?} {}", knob, value);
    }
}

#[test]
fn every_tunable_belongs_to_one_subsystem() {
    assert_eq!(Knob::CpuShares.controller(), Controllers::Cpu);
    assert_eq!(Knob::CpuQuota.controller(), Controllers::Cpu);
    assert_eq!(Knob::CpuPeriod.controller(), Controllers::Cpu);
    assert_eq!(Knob::MemoryLimit.controller(), Controllers::Memory);
    assert_eq!(Knob::MemorySoftLimit.controller(), Controllers::Memory);
    assert_eq!(Knob::MemorySwapLimit.controller(), Controllers::Memory);
    assert_eq!(Knob::PidsMax.controller(), Controllers::Pids);
    assert_eq!(Knob::BlkIoWeight.controller(), Controllers::BlkIo);
    assert_eq!(Knob::BlkIoLeafWeight.controller(), Controllers::BlkIo);
    assert_eq!(Knob::NetClassId.controller(), Controllers::NetCls);
    assert_eq!(Knob::HugePagesLimit.controller(), Controllers::HugeTlb);
    assert_eq!(Knob::BlkIoDeviceWeight { major: 8, minor: 0 }.controller(), Controllers::BlkIo);
    let null = (DeviceClass::Char, 1, 3);
    assert_eq!(
        Knob::DeviceAllow { class: null.0, major: null.1, minor: null.2 }.controller(),
        Controllers::Devices
    );
    assert_eq!(
        Knob::DeviceDeny { class: null.0, major: null.1, minor: null.2 }.controller(),
        Controllers::Devices
    );
}

#[test]
fn a_device_weight_out_of_range_refuses_the_whole_part() {
    let mut res = Resources::new();
    res.blkio = Some(BlkIoResources {
        weight: Some(500),
        leaf_weight: None,
        devices: vec![
            DeviceWeight { major: 8, minor: 0, weight: 100 },
            DeviceWeight { major: 8, minor: 16, weight: -100 },
        ],
    });
    assert_eq!(BlkIoController::new(root()).apply(&res), Err(ControllerError::InvalidValue));
}

#[test]
fn device_rules_keep_their_order() {
    let rules = vec![
        DeviceRule { allow: true, class: DeviceClass::Block, major: 8, minor: -1, access: 4 },
        DeviceRule { allow: false, class: DeviceClass::Block, major: 8, minor: 1, access: 2 },
        DeviceRule { allow: true, class: DeviceClass::Block, major: 8, minor: -1, access: 5 },
    ];
    let mut res = Resources::new();
    res.devices = Some(DeviceResources { rules });
    assert_eq!(
        DevicesController::new(root()).apply(&res),
        Ok(vec![
            set(Knob::DeviceAllow { class: DeviceClass::Block, major: 8, minor: -1 }, 4),
            set(Knob::DeviceDeny { class: DeviceClass::Block, major: 8, minor: 1 }, 2),
            set(Knob::DeviceAllow { class: DeviceClass::Block, major: 8, minor: -1 }, 5),
        ])
    );
}

#[test]
fn a_device_rule_without_access_is_refused() {
    let mut res = Resources::new();
    res.devices = Some(DeviceResources {
        rules: vec![DeviceRule {
            allow: true,
            class: DeviceClass::Char,
            major: 1,
            minor: 3,
            access: 0,
        }],
    });
    assert_eq!(DevicesController::new(root()).apply(&res), Err(ControllerError::InvalidValue));
    res.devices = Some(DeviceResources::new());
    assert_eq!(DevicesController::new(root()).apply(&res), Ok(Vec::new()));
}

#[test]
fn new_parts_are_empty() {
    let blkio = BlkIoResources::new();
    assert_eq!(blkio, BlkIoResources { weight: None, leaf_weight: None, devices: Vec::new() });
    assert_eq!(blkio.to_settings().len(), 2);
    assert!(DeviceResources::new().to_settings().is_empty());
    let rule = DeviceRule { allow: false, class: DeviceClass::All, major: -1, minor: -1, access: 7 };
    let s = rule.to_setting();
    assert_eq!(
        (s.knob, s.value),
        (Knob::DeviceDeny { class: DeviceClass::All, major: -1, minor: -1 }, Some(7))
    );
    let w = DeviceWeight { major: 8, minor: 0, weight: 10 }.to_setting();
    assert_eq!((w.knob, w.value), (Knob::BlkIoDeviceWeight { major: 8, minor: 0 }, Some(10)));
}

#[test]
fn translate_keeps_the_order_and_skips_what_is_unset() {
    let settings = vec![
        Setting { knob: Knob::CpuShares, value: Some(1024) },
        Setting { knob: Knob::CpuQuota, value: None },
        Setting { knob: Knob::CpuPeriod, value: Some(100000) },
    ];
    assert_eq!(
        translate(&settings),
        Ok(vec![set(Knob::CpuShares, 1024), set(Knob::CpuPeriod, 100000)])
    );
    assert_eq!(translate(&Vec::new()), Ok(Vec::new()));
}

#[test]
fn translate_refuses_when_any_value_is_out_of_range() {
    let settings = vec![
        Setting { knob: Knob::CpuShares, value: Some(1024) },
        Setting { knob: Knob::CpuPeriod, value: Some(5) },
    ];
    assert_eq!(translate(&settings), Err(ControllerError::InvalidValue));
}

#[test]
fn parts_turn_into_settings_field_by_field() {
    let cpu = CpuResources { shares: Some(2), quota: None, period: Some(1000) };
    let s = cpu.to_settings();
    assert_eq!(s.len(), 3);
    assert_eq!((s[0].knob, s[0].value), (Knob::CpuShares, Some(2)));
    assert_eq!((s[1].knob, s[1].value), (Knob::CpuQuota, None));
    assert_eq!((s[2].knob, s[2].value), (Knob::CpuPeriod, Some(1000)));
    let pids = PidResources::new().to_settings();
    assert_eq!(pids.len(), 1);
    assert_eq!((pids[0].knob, pids[0].value), (Knob::PidsMax, None));
}

#[test]
fn has_part_tells_which_subsystems_a_record_addresses() {
    let mut res = Resources::new();
    res.memory = Some(MemoryResources::new());
    res.network = Some(NetworkResources::new());
    assert!(res.has_part(Controllers::Memory));
    assert!(res.has_part(Controllers::NetCls));
    assert!(!res.has_part(Controllers::Cpu));
    assert!(!res.has_part(Controllers::NetPrio));
    assert!(!res.has_part(Controllers::PerfEvent));
}
