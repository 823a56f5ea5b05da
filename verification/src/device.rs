//! Choice of the compute device among those that a machine offers.

use vstd::prelude::*;

verus! {

/// The kind of a compute device.
#[derive(Debug, Clone, Copy, PartialEq, Eq)]
pub enum DeviceKind {
    DiscreteGpu,
    IntegratedGpu,
    VirtualGpu,
    Cpu,
    Other,
}

/// What is known of one device: its kind, whether it supports the extensions
/// that the engine needs, and, for each of its queue families in their order,
/// whether the family supports compute.
#[derive(Debug)]
pub struct Candidate {
    pub kind: DeviceKind,
    pub has_extensions: bool,
    pub compute_families: Vec<bool>,
}

/// A chosen device and the queue family to compute on.
#[derive(Debug, Clone, Copy, PartialEq, Eq)]
pub struct Choice {
    pub device: usize,
    pub family: usize,
}

/// The rank of a kind of device; the lower, the better.
pub open spec fn rank(kind: DeviceKind) -> nat {
    match kind {
        DeviceKind::DiscreteGpu => 0,
        DeviceKind::IntegratedGpu => 1,
        DeviceKind::VirtualGpu => 2,
        DeviceKind::Cpu => 3,
        DeviceKind::Other => 4,
    }
}

/// Whether `family` is the first queue family of the device that supports
/// compute.
pub open spec fn is_first_compute(families: Seq<bool>, family: int) -> bool {
    &&& 0 <= family < families.len()
    &&& families[family]
    &&& forall|j: int| 0 <= j < family ==> !families[j]
}

/// Whether a device can be used at all: it supports the extensions and has a
/// queue family for compute.
pub open spec fn usable(candidate: Candidate) -> bool {
    candidate.has_extensions && exists|family: int|
        0 <= family < candidate.compute_families@.len() && candidate.compute_families@[family]
}

/// Whether device `at` is the choice: it is usable, no usable device ranks
/// better, and none before it ranks as well.
pub open spec fn is_choice(candidates: Seq<Candidate>, at: int) -> bool {
    &&& 0 <= at < candidates.len()
    &&& usable(candidates[at])
    &&& forall|j: int|
        0 <= j < candidates.len() && usable(#[trigger] candidates[j]) ==> rank(candidates[at].kind)
            <= rank(candidates[j].kind)
    &&& forall|j: int|
        0 <= j < at && usable(#[trigger] candidates[j]) ==> rank(candidates[at].kind) < rank(
            candidates[j].kind,
        )
}

/// The rank of a kind of device.
pub fn rank_of(kind: DeviceKind) -> (r: u8)
    ensures
        r == rank(kind),
{
    match kind {
        DeviceKind::DiscreteGpu => 0,
        DeviceKind::IntegratedGpu => 1,
        DeviceKind::VirtualGpu => 2,
        DeviceKind::Cpu => 3,
        DeviceKind::Other => 4,
    }
}

/// The first queue family that supports compute.
pub fn first_compute_family(families: &Vec<bool>) -> (family: Option<usize>)
    ensures
        family is Some ==> is_first_compute(families@, family->0 as int),
        family is None ==> forall|j: int| 0 <= j < families@.len() ==> !families@[j],
{
    let mut i: usize = 0;
    while i < families.len()
        invariant
            i <= families@.len(),
            forall|j: int| 0 <= j < i ==> !families@[j],
        decreases families@.len() - i,
    {
        if families[i] {
            return Some(i);
        }
        i = i + 1;
    }
    None
}

/// Chooses the device to compute on: among the usable devices the one of the
/// best kind, and among those of that kind the first. Gives the device and
/// its first queue family for compute, or nothing where no device is usable.
pub fn select_device(candidates: &Vec<Candidate>) -> (choice: Option<Choice>)
    ensures
        choice is Some ==> is_choice(candidates@, choice->0.device as int) && is_first_compute(
            candidates@[choice->0.device as int].compute_families@,
            choice->0.family as int,
        ),
        choice is None ==> forall|j: int|
            0 <= j < candidates@.len() ==> !usable(#[trigger] candidates@[j]),
{
    let mut best: Option<Choice> = None;
    let mut i: usize = 0;
    while i < candidates.len()
        invariant
            i <= candidates@.len(),
            best is None ==> forall|j: int| 0 <= j < i ==> !usable(#[trigger] candidates@[j]),
            best is Some ==> {
                &&& best->0.device < i
                &&& usable(candidates@[best->0.device as int])
                &&& is_first_compute(
                    candidates@[best->0.device as int].compute_families@,
                    best->0.family as int,
                )
                &&& forall|j: int|
                    0 <= j < i && usable(#[trigger] candidates@[j]) ==> rank(
                        candidates@[best->0.device as int].kind,
                    ) <= rank(candidates@[j].kind)
                &&& forall|j: int|
                    0 <= j < best->0.device && usable(#[trigger] candidates@[j]) ==> rank(
                        candidates@[best->0.device as int].kind,
                    ) < rank(candidates@[j].kind)
            },
        decreases candidates@.len() - i,
    {
        let candidate = &candidates[i];
        if candidate.has_extensions {
            match first_compute_family(&candidate.compute_families) {
                Some(family) => {
                    let better = match best {
                        Some(held) => rank_of(candidate.kind) < rank_of(
                            candidates[held.device].kind,
                        ),
                        None => true,
                    };
                    if better {
                        best = Some(Choice { device: i, family });
                    }
                },
                None => {},
            }
        }
        i = i + 1;
    }
    best
}

} // verus!
