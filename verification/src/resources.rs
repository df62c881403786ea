//! The unified resource record that a caller fills in.
//!
//! A record holds one optional part per subsystem that has tunables. A part
//! that is absent leaves its subsystem untouched, and so does a field that is
//! `None` within a part that is present.

use vstd::prelude::*;
use crate::directive::{distinct_knobs, DeviceClass, Knob, Setting};
use crate::kinds::Controllers;

verus! {

/// Limits on CPU time.
#[derive(Clone, Copy, Debug, PartialEq, Eq)]
pub struct CpuResources {
    pub shares: Option<i64>,
    pub quota: Option<i64>,
    pub period: Option<i64>,
}

/// Limits on memory, in bytes.
#[derive(Clone, Copy, Debug, PartialEq, Eq)]
pub struct MemoryResources {
    pub limit: Option<i64>,
    pub soft_limit: Option<i64>,
    pub swap_limit: Option<i64>,
}

/// The ceiling on the number of processes.
#[derive(Clone, Copy, Debug, PartialEq, Eq)]
pub struct PidResources {
    pub max: Option<i64>,
}

/// The weight of block I/O on one device.
#[derive(Clone, Copy, Debug, PartialEq, Eq)]
pub struct DeviceWeight {
    pub major: i64,
    pub minor: i64,
    pub weight: i64,
}

/// Weights of block I/O: for the group as a whole, and device by device.
#[derive(Clone, Debug, PartialEq, Eq)]
pub struct BlkIoResources {
    pub weight: Option<i64>,
    pub leaf_weight: Option<i64>,
    pub devices: Vec<DeviceWeight>,
}

/// One rule on the access to device nodes: `access` is granted to, or
/// withdrawn from, the devices of the given class and numbers, where -1
/// stands for every number. `access` is a mask: 4 to read, 2 to write, 1 to
/// make nodes.
#[derive(Clone, Copy, Debug, PartialEq, Eq)]
pub struct DeviceRule {
    pub allow: bool,
    pub class: DeviceClass,
    pub major: i64,
    pub minor: i64,
    pub access: i64,
}

/// Rules on the access to device nodes, in the order in which they are to
/// take effect.
#[derive(Clone, Debug, PartialEq, Eq)]
pub struct DeviceResources {
    pub rules: Vec<DeviceRule>,
}

/// The tag on the group's network packets.
#[derive(Clone, Copy, Debug, PartialEq, Eq)]
pub struct NetworkResources {
    pub class_id: Option<i64>,
}

/// The limit on huge-page memory, in bytes.
#[derive(Clone, Copy, Debug, PartialEq, Eq)]
pub struct HugePageResources {
    pub limit: Option<i64>,
}

/// What a caller wants of a control group, subsystem by subsystem.
#[derive(Clone, Debug, PartialEq, Eq)]
pub struct Resources {
    pub cpu: Option<CpuResources>,
    pub memory: Option<MemoryResources>,
    pub pids: Option<PidResources>,
    pub blkio: Option<BlkIoResources>,
    pub devices: Option<DeviceResources>,
    pub network: Option<NetworkResources>,
    pub hugepages: Option<HugePageResources>,
}

impl CpuResources {
    /// The part as settings of the subsystem's tunables.
    pub open spec fn settings(self) -> Seq<Setting> {
        seq![
            Setting { knob: Knob::CpuShares, value: self.shares },
            Setting { knob: Knob::CpuQuota, value: self.quota },
            Setting { knob: Knob::CpuPeriod, value: self.period },
        ]
    }

    /// The part with no field set.
    pub fn new() -> (part: Self)
        ensures
            part == (CpuResources { shares: None, quota: None, period: None }),
    {
        CpuResources { shares: None, quota: None, period: None }
    }

    /// The part as settings of the subsystem's tunables.
    pub fn to_settings(&self) -> (res: Vec<Setting>)
        ensures
            res@ == self.settings(),
    {
        let res = vec![
            Setting { knob: Knob::CpuShares, value: self.shares },
            Setting { knob: Knob::CpuQuota, value: self.quota },
            Setting { knob: Knob::CpuPeriod, value: self.period },
        ];
        proof {
            assert(res@ =~= self.settings());
        }
        res
    }
}

impl MemoryResources {
    /// The part as settings of the subsystem's tunables.
    pub open spec fn settings(self) -> Seq<Setting> {
        seq![
            Setting { knob: Knob::MemoryLimit, value: self.limit },
            Setting { knob: Knob::MemorySoftLimit, value: self.soft_limit },
            Setting { knob: Knob::MemorySwapLimit, value: self.swap_limit },
        ]
    }

    /// The part with no field set.
    pub fn new() -> (part: Self)
        ensures
            part == (MemoryResources { limit: None, soft_limit: None, swap_limit: None }),
    {
        MemoryResources { limit: None, soft_limit: None, swap_limit: None }
    }

    /// The part as settings of the subsystem's tunables.
    pub fn to_settings(&self) -> (res: Vec<Setting>)
        ensures
            res@ == self.settings(),
    {
        let res = vec![
            Setting { knob: Knob::MemoryLimit, value: self.limit },
            Setting { knob: Knob::MemorySoftLimit, value: self.soft_limit },
            Setting { knob: Knob::MemorySwapLimit, value: self.swap_limit },
        ];
        proof {
            assert(res@ =~= self.settings());
        }
        res
    }
}

impl PidResources {
    /// The part as settings of the subsystem's tunables.
    pub open spec fn settings(self) -> Seq<Setting> {
        seq![Setting { knob: Knob::PidsMax, value: self.max }]
    }

    /// The part with no field set.
    pub fn new() -> (part: Self)
        ensures
            part == (PidResources { max: None }),
    {
        PidResources { max: None }
    }

    /// The part as settings of the subsystem's tunables.
    pub fn to_settings(&self) -> (res: Vec<Setting>)
        ensures
            res@ == self.settings(),
    {
        let res = vec![
            Setting { knob: Knob::PidsMax, value: self.max },
        ];
        proof {
            assert(res@ =~= self.settings());
        }
        res
    }
}

impl DeviceWeight {
    /// The weight as a setting of the device's tunable.
    pub open spec fn setting(self) -> Setting {
        Setting {
            knob: Knob::BlkIoDeviceWeight { major: self.major, minor: self.minor },
            value: Some(self.weight),
        }
    }

    /// The weight as a setting of the device's tunable.
    pub fn to_setting(&self) -> (s: Setting)
        ensures
            s == self.setting(),
    {
        Setting {
            knob: Knob::BlkIoDeviceWeight { major: self.major, minor: self.minor },
            value: Some(self.weight),
        }
    }
}

impl BlkIoResources {
    /// The part as settings of the subsystem's tunables: the two weights of
    /// the group, then the weight of each device.
    pub open spec fn settings(self) -> Seq<Setting> {
        seq![
            Setting { knob: Knob::BlkIoWeight, value: self.weight },
            Setting { knob: Knob::BlkIoLeafWeight, value: self.leaf_weight },
        ] + self.devices@.map_values(|d: DeviceWeight| d.setting())
    }

    /// The part with no field set and no device named.
    pub fn new() -> (part: Self)
        ensures
            part.weight is None,
            part.leaf_weight is None,
            part.devices@.len() == 0,
    {
        BlkIoResources { weight: None, leaf_weight: None, devices: Vec::new() }
    }

    /// The part as settings of the subsystem's tunables.
    pub fn to_settings(&self) -> (res: Vec<Setting>)
        ensures
            res@ == self.settings(),
    {
        let mut res = vec![
            Setting { knob: Knob::BlkIoWeight, value: self.weight },
            Setting { knob: Knob::BlkIoLeafWeight, value: self.leaf_weight },
        ];
        let ghost head = res@;
        let mut i: usize = 0;
        while i < self.devices.len()
            invariant
                0 <= i <= self.devices.len(),
                res@ =~= head + self.devices@.take(i as int).map_values(
                    |d: DeviceWeight| d.setting(),
                ),
            decreases self.devices.len() - i,
        {
            res.push(self.devices[i].to_setting());
            proof {
                assert(self.devices@.take(i as int + 1) =~= self.devices@.take(i as int).push(
                    self.devices@[i as int],
                ));
            }
            i += 1;
        }
        proof {
            assert(self.devices@.take(i as int) =~= self.devices@);
            assert(res@ =~= self.settings());
        }
        res
    }
}

impl DeviceRule {
    /// The rule as a setting of the tunable that grants or withdraws access.
    pub open spec fn setting(self) -> Setting {
        Setting {
            knob: if self.allow {
                Knob::DeviceAllow { class: self.class, major: self.major, minor: self.minor }
            } else {
                Knob::DeviceDeny { class: self.class, major: self.major, minor: self.minor }
            },
            value: Some(self.access),
        }
    }

    /// The rule as a setting of the tunable that grants or withdraws access.
    pub fn to_setting(&self) -> (s: Setting)
        ensures
            s == self.setting(),
    {
        let knob = if self.allow {
            Knob::DeviceAllow { class: self.class, major: self.major, minor: self.minor }
        } else {
            Knob::DeviceDeny { class: self.class, major: self.major, minor: self.minor }
        };
        Setting { knob, value: Some(self.access) }
    }
}

impl DeviceResources {
    /// The part as settings of the subsystem's tunables: one per rule, in
    /// the order of the rules.
    pub open spec fn settings(self) -> Seq<Setting> {
        self.rules@.map_values(|r: DeviceRule| r.setting())
    }

    /// The part without any rule.
    pub fn new() -> (part: Self)
        ensures
            part.rules@.len() == 0,
    {
        DeviceResources { rules: Vec::new() }
    }

    /// The part as settings of the subsystem's tunables.
    pub fn to_settings(&self) -> (res: Vec<Setting>)
        ensures
            res@ == self.settings(),
    {
        let mut res: Vec<Setting> = Vec::new();
        let mut i: usize = 0;
        while i < self.rules.len()
            invariant
                0 <= i <= self.rules.len(),
                res@ =~= self.rules@.take(i as int).map_values(|r: DeviceRule| r.setting()),
            decreases self.rules.len() - i,
        {
            res.push(self.rules[i].to_setting());
            proof {
                assert(self.rules@.take(i as int + 1) =~= self.rules@.take(i as int).push(
                    self.rules@[i as int],
                ));
            }
            i += 1;
        }
        proof {
            assert(self.rules@.take(i as int) =~= self.rules@);
            assert(res@ =~= self.settings());
        }
        res
    }
}

impl NetworkResources {
    /// The part as settings of the subsystem's tunables.
    pub open spec fn settings(self) -> Seq<Setting> {
        seq![Setting { knob: Knob::NetClassId, value: self.class_id }]
    }

    /// The part with no field set.
    pub fn new() -> (part: Self)
        ensures
            part == (NetworkResources { class_id: None }),
    {
        NetworkResources { class_id: None }
    }

    /// The part as settings of the subsystem's tunables.
    pub fn to_settings(&self) -> (res: Vec<Setting>)
        ensures
            res@ == self.settings(),
    {
        let res = vec![
            Setting { knob: Knob::NetClassId, value: self.class_id },
        ];
        proof {
            assert(res@ =~= self.settings());
        }
        res
    }
}

impl HugePageResources {
    /// The part as settings of the subsystem's tunables.
    pub open spec fn settings(self) -> Seq<Setting> {
        seq![Setting { knob: Knob::HugePagesLimit, value: self.limit }]
    }

    /// The part with no field set.
    pub fn new() -> (part: Self)
        ensures
            part == (HugePageResources { limit: None }),
    {
        HugePageResources { limit: None }
    }

    /// The part as settings of the subsystem's tunables.
    pub fn to_settings(&self) -> (res: Vec<Setting>)
        ensures
            res@ == self.settings(),
    {
        let res = vec![
            Setting { knob: Knob::HugePagesLimit, value: self.limit },
        ];
        proof {
            assert(res@ =~= self.settings());
        }
        res
    }
}

impl Resources {
    /// The record with no part set.
    pub open spec fn empty() -> Resources {
        Resources {
            cpu: None,
            memory: None,
            pids: None,
            blkio: None,
            devices: None,
            network: None,
            hugepages: None,
        }
    }

    /// Whether the record holds a part for the subsystem `kind`. Subsystems
    /// without tunables have no part.
    pub open spec fn carries(self, kind: Controllers) -> bool {
        match kind {
            Controllers::Cpu => self.cpu is Some,
            Controllers::Memory => self.memory is Some,
            Controllers::Pids => self.pids is Some,
            Controllers::BlkIo => self.blkio is Some,
            Controllers::Devices => self.devices is Some,
            Controllers::NetCls => self.network is Some,
            Controllers::HugeTlb => self.hugepages is Some,
            _ => false,
        }
    }

    /// What the record asks of the subsystem `kind`: the settings of its
    /// part, or none where the part is absent.
    pub open spec fn settings(self, kind: Controllers) -> Seq<Setting> {
        match kind {
            Controllers::Cpu => match self.cpu {
                Some(part) => part.settings(),
                None => Seq::empty(),
            },
            Controllers::Memory => match self.memory {
                Some(part) => part.settings(),
                None => Seq::empty(),
            },
            Controllers::Pids => match self.pids {
                Some(part) => part.settings(),
                None => Seq::empty(),
            },
            Controllers::BlkIo => match self.blkio {
                Some(part) => part.settings(),
                None => Seq::empty(),
            },
            Controllers::Devices => match self.devices {
                Some(part) => part.settings(),
                None => Seq::empty(),
            },
            Controllers::NetCls => match self.network {
                Some(part) => part.settings(),
                None => Seq::empty(),
            },
            Controllers::HugeTlb => match self.hugepages {
                Some(part) => part.settings(),
                None => Seq::empty(),
            },
            _ => Seq::empty(),
        }
    }

    /// The record with no part set.
    pub fn new() -> (res: Resources)
        ensures
            res == Resources::empty(),
    {
        Resources {
            cpu: None,
            memory: None,
            pids: None,
            blkio: None,
            devices: None,
            network: None,
            hugepages: None,
        }
    }

    /// Whether the record holds a part for the subsystem `kind`.
    pub fn has_part(&self, kind: Controllers) -> (b: bool)
        ensures
            b == self.carries(kind),
    {
        match kind {
            Controllers::Cpu => self.cpu.is_some(),
            Controllers::Memory => self.memory.is_some(),
            Controllers::Pids => self.pids.is_some(),
            Controllers::BlkIo => self.blkio.is_some(),
            Controllers::Devices => self.devices.is_some(),
            Controllers::NetCls => self.network.is_some(),
            Controllers::HugeTlb => self.hugepages.is_some(),
            _ => false,
        }
    }
}

impl Default for Resources {
    fn default() -> (res: Resources)
        ensures
            res == Resources::empty(),
    {
        Resources::new()
    }
}

/// The settings that a record holds for a subsystem name only tunables of
/// that subsystem.
pub proof fn lemma_settings_are_the_subsystems(res: Resources, kind: Controllers)
    ensures
        forall|i: int|
            0 <= i < res.settings(kind).len() ==> (#[trigger] res.settings(kind)[i]).knob.owner()
                == kind,
{
}

/// Whether the record names no device twice in its part for `kind`. Only
/// the parts for block I/O and for devices name any.
pub open spec fn names_each_device_once(res: Resources, kind: Controllers) -> bool {
    match kind {
        Controllers::BlkIo => match res.blkio {
            Some(part) => forall|a: int, b: int|
                0 <= a < part.devices@.len() && 0 <= b < part.devices@.len() && a != b ==> (
                #[trigger] part.devices@[a]).setting().knob != (
                #[trigger] part.devices@[b]).setting().knob,
            None => true,
        },
        Controllers::Devices => match res.devices {
            Some(part) => forall|a: int, b: int|
                0 <= a < part.rules@.len() && 0 <= b < part.rules@.len() && a != b ==> (
                #[trigger] part.rules@[a]).setting().knob != (#[trigger] part.rules@[b]).setting().knob,
            None => true,
        },
        _ => true,
    }
}

/// A record that names no device twice names each tunable at most once.
pub proof fn lemma_settings_are_distinct(res: Resources, kind: Controllers)
    requires
        names_each_device_once(res, kind),
    ensures
        distinct_knobs(res.settings(kind)),
{
    let settings = res.settings(kind);
    assert forall|i: int, j: int|
        0 <= i < settings.len() && 0 <= j < settings.len() && i != j implies (
    #[trigger] settings[i]).knob != (#[trigger] settings[j]).knob by {
        match kind {
            Controllers::BlkIo => {
                let part = res.blkio->Some_0;
                if i >= 2 {
                    assert(settings[i] == part.devices@[i - 2].setting());
                }
                if j >= 2 {
                    assert(settings[j] == part.devices@[j - 2].setting());
                }
            },
            Controllers::Devices => {
                let part = res.devices->Some_0;
                assert(settings[i] == part.rules@[i].setting());
                assert(settings[j] == part.rules@[j].setting());
            },
            _ => {},
        }
    }
}

} // verus!
