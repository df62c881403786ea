//! Directives: what a subsystem is told through one of its control files.

use vstd::prelude::*;
use crate::error::ControllerError;
use crate::kinds::Controllers;

verus! {

/// Which device nodes a device rule is about.
#[derive(Clone, Copy, Debug, PartialEq, Eq, Structural, Hash)]
pub enum DeviceClass {
    /// Character and block devices alike.
    All,
    /// Character devices.
    Char,
    /// Block devices.
    Block,
}

/// A tunable of some subsystem.
#[derive(Clone, Copy, Debug, PartialEq, Eq, Structural, Hash)]
pub enum Knob {
    /// Relative share of CPU time.
    CpuShares,
    /// Microseconds of CPU time per period, or -1 for no limit.
    CpuQuota,
    /// Length of the accounting period in microseconds.
    CpuPeriod,
    /// Hard limit on memory in bytes, or -1 for no limit.
    MemoryLimit,
    /// Soft limit on memory in bytes, or -1 for no limit.
    MemorySoftLimit,
    /// Limit on memory plus swap in bytes, or -1 for no limit.
    MemorySwapLimit,
    /// Ceiling on the number of processes, or -1 for no ceiling.
    PidsMax,
    /// Relative weight of block I/O.
    BlkIoWeight,
    /// Weight of the group's own tasks against its children.
    BlkIoLeafWeight,
    /// Relative weight of block I/O on the device with the given numbers.
    BlkIoDeviceWeight { major: i64, minor: i64 },
    /// Access granted to the devices with the given numbers, where -1
    /// stands for every number. The value is a mask of what is granted:
    /// 4 to read, 2 to write, 1 to make nodes.
    DeviceAllow { class: DeviceClass, major: i64, minor: i64 },
    /// Access withdrawn from the devices with the given numbers, in the
    /// form of [`Knob::DeviceAllow`].
    DeviceDeny { class: DeviceClass, major: i64, minor: i64 },
    /// Class identifier that tags the group's network packets.
    NetClassId,
    /// Limit on huge-page memory in bytes.
    HugePagesLimit,
}

impl Knob {
    /// The subsystem that the tunable belongs to.
    pub open spec fn owner(self) -> Controllers {
        match self {
            Knob::CpuShares | Knob::CpuQuota | Knob::CpuPeriod => Controllers::Cpu,
            Knob::MemoryLimit | Knob::MemorySoftLimit | Knob::MemorySwapLimit => Controllers::Memory,
            Knob::PidsMax => Controllers::Pids,
            Knob::BlkIoWeight | Knob::BlkIoLeafWeight | Knob::BlkIoDeviceWeight { .. } => Controllers::BlkIo,
            Knob::DeviceAllow { .. } | Knob::DeviceDeny { .. } => Controllers::Devices,
            Knob::NetClassId => Controllers::NetCls,
            Knob::HugePagesLimit => Controllers::HugeTlb,
        }
    }

    /// The values that the subsystem accepts for the tunable.
    pub open spec fn accepts(self, value: int) -> bool {
        match self {
            Knob::CpuShares => 2 <= value <= 262144,
            Knob::CpuQuota => value == -1 || value >= 1000,
            Knob::CpuPeriod => 1000 <= value <= 1000000,
            Knob::MemoryLimit | Knob::MemorySoftLimit | Knob::MemorySwapLimit => value >= -1,
            Knob::PidsMax => value >= -1,
            Knob::BlkIoWeight | Knob::BlkIoLeafWeight => 10 <= value <= 1000,
            Knob::BlkIoDeviceWeight { major, minor } => major >= 0 && minor >= 0 && 10 <= value
                <= 1000,
            Knob::DeviceAllow { major, minor, .. } | Knob::DeviceDeny { major, minor, .. } => major
                >= -1 && minor >= -1 && 1 <= value <= 7,
            Knob::NetClassId => 0 <= value <= 0xFFFF_FFFF,
            Knob::HugePagesLimit => value >= 0,
        }
    }

    /// The subsystem that the tunable belongs to.
    pub fn controller(&self) -> (kind: Controllers)
        ensures
            kind == self.owner(),
    {
        match self {
            Knob::CpuShares | Knob::CpuQuota | Knob::CpuPeriod => Controllers::Cpu,
            Knob::MemoryLimit | Knob::MemorySoftLimit | Knob::MemorySwapLimit => Controllers::Memory,
            Knob::PidsMax => Controllers::Pids,
            Knob::BlkIoWeight | Knob::BlkIoLeafWeight | Knob::BlkIoDeviceWeight { .. } => Controllers::BlkIo,
            Knob::DeviceAllow { .. } | Knob::DeviceDeny { .. } => Controllers::Devices,
            Knob::NetClassId => Controllers::NetCls,
            Knob::HugePagesLimit => Controllers::HugeTlb,
        }
    }

    /// Whether the subsystem accepts `value` for the tunable.
    pub fn admits(&self, value: i64) -> (ok: bool)
        ensures
            ok == self.accepts(value as int),
    {
        match self {
            Knob::CpuShares => 2 <= value && value <= 262144,
            Knob::CpuQuota => value == -1 || value >= 1000,
            Knob::CpuPeriod => 1000 <= value && value <= 1000000,
            Knob::MemoryLimit | Knob::MemorySoftLimit | Knob::MemorySwapLimit => value >= -1,
            Knob::PidsMax => value >= -1,
            Knob::BlkIoWeight | Knob::BlkIoLeafWeight => 10 <= value && value <= 1000,
            Knob::BlkIoDeviceWeight { major, minor } => *major >= 0 && *minor >= 0 && 10 <= value
                && value <= 1000,
            Knob::DeviceAllow { major, minor, .. } | Knob::DeviceDeny { major, minor, .. } => *major
                >= -1 && *minor >= -1 && 1 <= value && value <= 7,
            Knob::NetClassId => 0 <= value && value <= 0xFFFF_FFFF,
            Knob::HugePagesLimit => value >= 0,
        }
    }
}

/// One value for one tunable.
#[derive(Clone, Copy, Debug, PartialEq, Eq, Structural, Hash)]
pub struct Directive {
    pub knob: Knob,
    pub value: i64,
}

/// A tunable together with what a resource record says of it: a value to
/// set, or nothing, which leaves the tunable as it is.
#[derive(Clone, Copy, Debug)]
pub struct Setting {
    pub knob: Knob,
    pub value: Option<i64>,
}

/// Whether every value that `settings` carries is accepted by its tunable.
pub open spec fn acceptable(settings: Seq<Setting>) -> bool {
    forall|i: int|
        0 <= i < settings.len() ==> match (#[trigger] settings[i]).value {
            Some(v) => settings[i].knob.accepts(v as int),
            None => true,
        }
}

/// The directives that `settings` amount to: one for each value carried, in
/// the order of `settings`.
pub open spec fn chosen(settings: Seq<Setting>) -> Seq<Directive>
    decreases settings.len(),
{
    if settings.len() == 0 {
        Seq::empty()
    } else {
        let before = chosen(settings.drop_last());
        match settings.last().value {
            Some(v) => before.push(Directive { knob: settings.last().knob, value: v }),
            None => before,
        }
    }
}

/// What a subsystem answers to `settings`: the directives to write, or
/// `InvalidValue` when one of the values is out of range, in which case the
/// subsystem writes nothing.
pub open spec fn translation(settings: Seq<Setting>) -> Result<Seq<Directive>, ControllerError> {
    if acceptable(settings) {
        Ok(chosen(settings))
    } else {
        Err(ControllerError::InvalidValue)
    }
}

/// Whether the executable result `r` is the answer `expected`.
pub open spec fn answers(
    r: Result<Vec<Directive>, ControllerError>,
    expected: Result<Seq<Directive>, ControllerError>,
) -> bool {
    match r {
        Ok(ds) => expected == Ok::<Seq<Directive>, ControllerError>(ds@),
        Err(e) => expected == Err::<Seq<Directive>, ControllerError>(e),
    }
}

/// Checks `settings` against the ranges of their tunables and turns them into
/// directives.
pub fn translate(settings: &Vec<Setting>) -> (r: Result<Vec<Directive>, ControllerError>)
    ensures
        answers(r, translation(settings@)),
{
    let mut out: Vec<Directive> = Vec::new();
    let mut i: usize = 0;
    while i < settings.len()
        invariant
            0 <= i <= settings.len(),
            acceptable(settings@.take(i as int)),
            out@ == chosen(settings@.take(i as int)),
        decreases settings.len() - i,
    {
        let s = settings[i];
        proof {
            assert(settings@.take(i as int + 1).drop_last() =~= settings@.take(i as int));
            assert(settings@.take(i as int + 1).last() == s);
        }
        match s.value {
            Some(v) => {
                if !s.knob.admits(v) {
                    proof {
                        assert(settings@[i as int] == s);
                    }
                    return Err(ControllerError::InvalidValue);
                }
                out.push(Directive { knob: s.knob, value: v });
            },
            None => {},
        }
        proof {
            let next = settings@.take(i as int + 1);
            assert forall|j: int| 0 <= j < next.len() implies match (#[trigger] next[j]).value {
                Some(v) => next[j].knob.accepts(v as int),
                None => true,
            } by {
                if j < i {
                    assert(next[j] == settings@.take(i as int)[j]);
                }
            }
        }
        i += 1;
    }
    proof {
        assert(settings@.take(i as int) =~= settings@);
    }
    Ok(out)
}

/// Every directive that a translation yields carries a value that its
/// tunable accepts, and no more directives come out than settings went in.
pub proof fn lemma_chosen_accepted(settings: Seq<Setting>)
    requires
        acceptable(settings),
    ensures
        chosen(settings).len() <= settings.len(),
        forall|j: int|
            0 <= j < chosen(settings).len() ==> (#[trigger] chosen(settings)[j]).knob.accepts(
                chosen(settings)[j].value as int,
            ),
    decreases settings.len(),
{
    if settings.len() > 0 {
        let front = settings.drop_last();
        assert forall|i: int| 0 <= i < front.len() implies match (#[trigger] front[i]).value {
            Some(v) => front[i].knob.accepts(v as int),
            None => true,
        } by {
            assert(front[i] == settings[i]);
        }
        lemma_chosen_accepted(front);
        assert(settings[settings.len() - 1] == settings.last());
    }
}

/// What a control directory shows for `knob` after the directives `written`
/// were written to it one after the other: the value of the latest one for
/// that tunable, or nothing if there is none.
pub open spec fn reading(written: Seq<Directive>, knob: Knob) -> Option<i64>
    decreases written.len(),
{
    if written.len() == 0 {
        None
    } else if written.last().knob == knob {
        Some(written.last().value)
    } else {
        reading(written.drop_last(), knob)
    }
}

/// Whether no tunable occurs twice in `settings`.
pub open spec fn distinct_knobs(settings: Seq<Setting>) -> bool {
    forall|i: int, j: int|
        0 <= i < settings.len() && 0 <= j < settings.len() && i != j ==> (
        #[trigger] settings[i]).knob != (#[trigger] settings[j]).knob
}

/// What a control directory shows for `knob`, given what was written to it.
pub fn read_back(written: &Vec<Directive>, knob: Knob) -> (value: Option<i64>)
    ensures
        value == reading(written@, knob),
{
    let mut i: usize = written.len();
    proof {
        assert(written@.take(i as int) =~= written@);
    }
    while i > 0
        invariant
            0 <= i <= written.len(),
            reading(written@, knob) == reading(written@.take(i as int), knob),
        decreases i,
    {
        proof {
            assert(written@.take(i as int).drop_last() =~= written@.take(i as int - 1));
        }
        if written[i - 1].knob == knob {
            return Some(written[i - 1].value);
        }
        i -= 1;
    }
    None
}

/// Writing the directives of `settings` leaves a tunable that they do not
/// mention as it was.
pub proof fn lemma_unmentioned_stays(written: Seq<Directive>, settings: Seq<Setting>, knob: Knob)
    requires
        forall|i: int| 0 <= i < settings.len() ==> (#[trigger] settings[i]).knob != knob,
    ensures
        reading(written + chosen(settings), knob) == reading(written, knob),
    decreases settings.len(),
{
    if settings.len() == 0 {
        assert(written + chosen(settings) =~= written);
    } else {
        let front = settings.drop_last();
        assert forall|i: int| 0 <= i < front.len() implies (#[trigger] front[i]).knob != knob by {
            assert(front[i] == settings[i]);
        }
        lemma_unmentioned_stays(written, front, knob);
        assert(settings[settings.len() - 1] == settings.last());
        match settings.last().value {
            Some(v) => {
                let d = Directive { knob: settings.last().knob, value: v };
                assert(written + chosen(settings) =~= (written + chosen(front)).push(d));
                assert((written + chosen(front)).push(d).drop_last() =~= written + chosen(front));
            },
            None => {},
        }
    }
}

/// Reading back what was applied: after the directives of `settings` are
/// written, each tunable for which they carry a value shows exactly that
/// value, and each for which they carry none shows what it showed before.
pub proof fn lemma_round_trip(written: Seq<Directive>, settings: Seq<Setting>, i: int)
    requires
        distinct_knobs(settings),
        0 <= i < settings.len(),
    ensures
        reading(written + chosen(settings), settings[i].knob) == match settings[i].value {
            Some(v) => Some(v),
            None => reading(written, settings[i].knob),
        },
    decreases settings.len(),
{
    let front = settings.drop_last();
    let last = settings.last();
    let n = settings.len() - 1;
    assert(settings[n] == last);
    assert forall|a: int, b: int|
        0 <= a < front.len() && 0 <= b < front.len() && a != b implies (#[trigger] front[a]).knob != (
    #[trigger] front[b]).knob by {
        assert(front[a] == settings[a]);
        assert(front[b] == settings[b]);
    }
    let sofar = written + chosen(front);
    match last.value {
        Some(v) => {
            let d = Directive { knob: last.knob, value: v };
            assert(written + chosen(settings) =~= sofar.push(d));
            assert(sofar.push(d).drop_last() =~= sofar);
            if i < n {
                assert(front[i] == settings[i]);
                lemma_round_trip(written, front, i);
            }
        },
        None => {
            assert(written + chosen(settings) =~= sofar);
            if i < n {
                assert(front[i] == settings[i]);
                lemma_round_trip(written, front, i);
            } else {
                assert forall|k: int| 0 <= k < front.len() implies (#[trigger] front[k]).knob
                    != last.knob by {
                    assert(front[k] == settings[k]);
                }
                lemma_unmentioned_stays(written, front, last.knob);
            }
        },
    }
}

} // verus!
