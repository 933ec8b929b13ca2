//! Placement of shard threads on CPUs.

use vstd::prelude::*;
use vstd::string::*;

use crate::platform::Platform;
use crate::text::{decimal, joined, numbered, push_decimal, with_number};

verus! {

/// Logical CPU identifier used for shard thread placement.
#[must_use]
#[derive(Debug, Clone, Copy, PartialEq, Eq, Structural, Hash)]
pub struct CpuId(pub usize);

/// CPU placement policy for sharded executor threads.
#[must_use]
#[derive(Debug, Clone, PartialEq, Eq)]
pub enum CpuPlacement {
    /// Do not request CPU affinity.
    Unpinned,
    /// Place shards sequentially across the CPUs currently available to the
    /// process.
    Sequential,
    /// Place each shard on the CPU at the matching index.
    Explicit(Vec<CpuId>),
}

/// The text of one CPU in a list.
pub open spec fn cpu_text(cpu: CpuId) -> Seq<char> {
    "CpuId("@ + decimal(cpu.0 as nat) + ")"@
}

/// The texts of CPUs with commas between them.
pub open spec fn cpus_text(cpus: Seq<CpuId>) -> Seq<char>
    decreases cpus.len(),
{
    if cpus.len() == 0 {
        Seq::empty()
    } else if cpus.len() == 1 {
        cpu_text(cpus[0])
    } else {
        cpus_text(cpus.drop_last()) + ", "@ + cpu_text(cpus.last())
    }
}

/// Why a CPU is refused that the process may not use.
pub open spec fn unavailable_text(cpu: CpuId, available: Seq<CpuId>) -> Seq<char> {
    "CPU "@ + decimal(cpu.0 as nat) + " is not in the process available CPU set ["@ + cpus_text(
        available,
    ) + "]"@
}

fn push_cpus(out: &mut String, cpus: &[CpuId])
    ensures
        final(out)@ == old(out)@ + cpus_text(cpus@),
{
    let mut i: usize = 0;
    let ghost start = out@;
    assert(cpus@.take(0) =~= Seq::empty());
    assert(start + cpus_text(cpus@.take(0)) =~= start);
    while i < cpus.len()
        invariant
            i <= cpus@.len(),
            out@ == start + cpus_text(cpus@.take(i as int)),
        decreases cpus@.len() - i,
    {
        let ghost before = out@;
        if i > 0 {
            out.append(", ");
        }
        out.append("CpuId(");
        push_decimal(out, cpus[i].0 as u64);
        out.append(")");
        proof {
            let text = cpus@.take(i + 1);
            assert(text.drop_last() =~= cpus@.take(i as int));
            assert(text.last() == cpus@[i as int]);
            assert(out@ =~= start + cpus_text(text));
        }
        i = i + 1;
    }
    assert(cpus@.take(cpus@.len() as int) =~= cpus@);
}

fn is_available(cpu: CpuId, available: &[CpuId]) -> (found: bool)
    ensures
        found == available@.contains(cpu),
{
    let mut i: usize = 0;
    while i < available.len()
        invariant
            i <= available@.len(),
            forall|k: int| 0 <= k < i ==> #[trigger] available@[k] != cpu,
        decreases available@.len() - i,
    {
        if available[i] == cpu {
            assert(available@[i as int] == cpu);
            return true;
        }
        i = i + 1;
    }
    false
}

impl CpuPlacement {
    /// The CPU of a shard.
    pub open spec fn cpu_of(&self, shard_idx: usize, available_cpus: Seq<CpuId>) -> Option<CpuId> {
        match self {
            CpuPlacement::Unpinned => None,
            CpuPlacement::Sequential => if available_cpus.len() == 0 {
                Some(CpuId(shard_idx))
            } else {
                Some(available_cpus[shard_idx as int % available_cpus.len() as int])
            },
            CpuPlacement::Explicit(cpus) => if shard_idx < cpus@.len() {
                Some(cpus@[shard_idx as int])
            } else {
                None
            },
        }
    }

    /// The CPU for a shard, where the policy names one.
    pub fn cpu_for_shard(&self, shard_idx: usize, available_cpus: &[CpuId]) -> (cpu: Option<CpuId>)
        ensures
            cpu == self.cpu_of(shard_idx, available_cpus@),
    {
        match self {
            CpuPlacement::Unpinned => None,
            CpuPlacement::Sequential => {
                if available_cpus.len() == 0 {
                    Some(CpuId(shard_idx))
                } else {
                    Some(available_cpus[shard_idx % available_cpus.len()])
                }
            },
            CpuPlacement::Explicit(cpus) => {
                if shard_idx < cpus.len() {
                    Some(cpus[shard_idx])
                } else {
                    None
                }
            },
        }
    }

    /// Whether the policy covers all shards.
    pub open spec fn covers(&self, shard_count: usize) -> bool {
        self matches CpuPlacement::Explicit(cpus) ==> cpus@.len() >= shard_count
    }

    /// Whether the policy covers all shards.
    pub fn validate(&self, shard_count: usize) -> (valid: bool)
        ensures
            valid == self.covers(shard_count),
    {
        match self {
            CpuPlacement::Explicit(cpus) => cpus.len() >= shard_count,
            CpuPlacement::Unpinned | CpuPlacement::Sequential => true,
        }
    }

    /// Whether the CPU that the policy names for a shard is not available.
    pub open spec fn unavailable(&self, shard_idx: int, available_cpus: Seq<CpuId>) -> bool {
        self matches CpuPlacement::Explicit(cpus) && !available_cpus.contains(cpus@[shard_idx])
    }

    /// Whether every shard gets a CPU that the process may use, and otherwise which
    /// does not first.
    pub fn validate_against_available_cpus(
        &self,
        shard_count: usize,
        available_cpus: &[CpuId],
    ) -> (result: Result<(), String>)
        ensures
            result is Ok <==> self.covers(shard_count) && forall|i: int|
                0 <= i < shard_count ==> !#[trigger] self.unavailable(i, available_cpus@),
            result matches Err(reason) ==> if !self.covers(shard_count) {
                self matches CpuPlacement::Explicit(cpus) && reason@
                    == "explicit placement provides "@ + decimal(cpus@.len()) + " CPUs for "@
                    + decimal(shard_count as nat) + " shards"@
            } else {
                self matches CpuPlacement::Explicit(cpus) && exists|i: int|
                    0 <= i < shard_count && #[trigger] self.unavailable(i, available_cpus@) && (
                    forall|k: int| 0 <= k < i ==> !#[trigger] self.unavailable(k, available_cpus@))
                        && reason@ == unavailable_text(cpus@[i], available_cpus@)
            },
    {
        match self {
            CpuPlacement::Explicit(cpus) => {
                if cpus.len() < shard_count {
                    let mut reason = with_number(
                        "explicit placement provides ",
                        cpus.len(),
                        " CPUs for ",
                    );
                    push_decimal(&mut reason, shard_count as u64);
                    reason.append(" shards");
                    return Err(reason);
                }
                let mut i: usize = 0;
                while i < shard_count
                    invariant
                        *self == CpuPlacement::Explicit(*cpus),
                        i <= shard_count,
                        shard_count <= cpus@.len(),
                        self.covers(shard_count),
                        forall|k: int| 0 <= k < i ==> !#[trigger] self.unavailable(
                            k,
                            available_cpus@,
                        ),
                    decreases shard_count - i,
                {
                    if !is_available(cpus[i], available_cpus) {
                        let mut reason = with_number(
                            "CPU ",
                            cpus[i].0,
                            " is not in the process available CPU set [",
                        );
                        push_cpus(&mut reason, available_cpus);
                        reason.append("]");
                        assert(self.unavailable(i as int, available_cpus@));
                        return Err(reason);
                    }
                    i = i + 1;
                }
                Ok(())
            },
            CpuPlacement::Unpinned | CpuPlacement::Sequential => Ok(()),
        }
    }
}

/// Result of applying CPU placement to one shard thread.
#[allow(inconsistent_fields)]
#[must_use]
#[derive(Debug, Clone, PartialEq, Eq)]
pub enum CpuPlacementStatus {
    /// No CPU placement was requested.
    Unpinned,
    /// The shard thread was pinned to the requested CPU.
    Applied(CpuId),
    /// This platform does not provide Linux-style hard CPU affinity.
    Unsupported {
        /// CPU requested by the placement policy, if any.
        requested: Option<CpuId>,
        /// Human-readable reason reported by the runtime.
        reason: String,
    },
    /// The runtime attempted placement, but the OS rejected it.
    Failed {
        /// CPU requested by the placement policy.
        requested: CpuId,
        /// Human-readable OS error.
        error: String,
    },
}

impl CpuPlacementStatus {
    /// Returns the CPU requested by the placement policy, if any.
    pub fn requested_cpu(&self) -> (cpu: Option<CpuId>)
        ensures
            cpu == match self {
                CpuPlacementStatus::Unpinned => None,
                CpuPlacementStatus::Applied(cpu) => Some(*cpu),
                CpuPlacementStatus::Unsupported { requested, reason } => *requested,
                CpuPlacementStatus::Failed { requested, error } => Some(*requested),
            },
    {
        match self {
            CpuPlacementStatus::Unpinned => None,
            CpuPlacementStatus::Applied(cpu) => Some(*cpu),
            CpuPlacementStatus::Unsupported { requested, .. } => *requested,
            CpuPlacementStatus::Failed { requested, .. } => Some(*requested),
        }
    }

    /// Returns whether the OS accepted the requested placement.
    pub fn is_applied(&self) -> (applied: bool)
        ensures
            applied == (self is Applied),
    {
        matches!(self, CpuPlacementStatus::Applied(_))
    }

    /// Human-readable text of the status.
    pub fn message(&self) -> (text: String)
        ensures
            text@ == match self {
                CpuPlacementStatus::Unpinned => "unpinned"@,
                CpuPlacementStatus::Applied(cpu) => "pinned to CPU "@ + decimal(cpu.0 as nat),
                CpuPlacementStatus::Unsupported { requested: Some(cpu), reason } => "CPU "@
                    + decimal(cpu.0 as nat) + " requested but unsupported: "@ + reason@,
                CpuPlacementStatus::Unsupported { requested: None, reason } => "unsupported: "@
                    + reason@,
                CpuPlacementStatus::Failed { requested, error } => "failed to pin to CPU "@
                    + decimal(requested.0 as nat) + ": "@ + error@,
            },
    {
        match self {
            CpuPlacementStatus::Unpinned => "unpinned".to_owned(),
            CpuPlacementStatus::Applied(cpu) => numbered("pinned to CPU ", cpu.0),
            CpuPlacementStatus::Unsupported { requested: Some(cpu), reason } => {
                let start = with_number("CPU ", cpu.0, " requested but unsupported: ");
                joined(start.as_str(), reason.as_str())
            },
            CpuPlacementStatus::Unsupported { requested: None, reason } => {
                joined("unsupported: ", reason.as_str())
            },
            CpuPlacementStatus::Failed { requested, error } => {
                let start = with_number("failed to pin to CPU ", requested.0, ": ");
                joined(start.as_str(), error.as_str())
            },
        }
    }
}

/// Number of CPUs that a CPU set covers.
pub const CPU_SETSIZE: usize = 1024;

const CPU_BITS: usize = 64;

const CPU_SET_WORDS: usize = 16;

/// A set of CPUs as the kernel reads it: one bit for each.
pub struct CpuSet {
    /// The bits, lowest CPU first.
    pub bits: [u64; 16],
}

/// Whether a bit is set.
pub open spec fn has_bit(word: u64, bit: u64) -> bool {
    word & (1u64 << bit) != 0
}

proof fn lemma_set_bit(word: u64, bit: u64)
    requires
        bit < 64,
    ensures
        forall|other: u64|
            other < 64 ==> #[trigger] has_bit(word | (1u64 << bit), other) == (other
                == bit || has_bit(
                word,
                other,
            )),
{
    assert forall|other: u64| other < 64 implies #[trigger] has_bit(word | (1u64 << bit), other)
        == (other == bit || has_bit(word, other)) by {
        assert(((word | (1u64 << bit)) & (1u64 << other) != 0) == (other == bit || (word & (1u64
            << other) != 0))) by (bit_vector)
            requires
                bit < 64,
                other < 64,
        ;
    }
}

impl CpuSet {
    /// Whether a CPU is in the set.
    pub open spec fn has(&self, cpu: int) -> bool {
        0 <= cpu < CPU_SETSIZE && has_bit(self.bits@[cpu / 64], (cpu % 64) as u64)
    }

    /// A set without CPUs.
    pub fn empty() -> (set: Self)
        ensures
            forall|cpu: int| !#[trigger] set.has(cpu),
    {
        let set = CpuSet { bits: [0u64;16] };
        proof {
            assert forall|cpu: int| !#[trigger] set.has(cpu) by {
                if 0 <= cpu < CPU_SETSIZE {
                    let bit = (cpu % 64) as u64;
                    assert(set.bits@[cpu / 64] == 0);
                    assert(0u64 & (1u64 << bit) == 0) by (bit_vector);
                }
            }
        }
        set
    }

    /// Adds a CPU. Refused where the set does not cover it.
    pub fn set(&mut self, cpu: CpuId) -> (added: bool)
        ensures
            added == (cpu.0 < CPU_SETSIZE),
            !added ==> *final(self) == *old(self),
            added ==> forall|other: int| #[trigger] final(self).has(other) == (other
                == cpu.0 || old(self).has(
                other,
            )),
    {
        let word_idx: usize = cpu.0 / CPU_BITS;
        let bit_idx: usize = cpu.0 % CPU_BITS;
        if word_idx >= CPU_SET_WORDS {
            return false;
        }
        let ghost before = self.bits@;
        let word: u64 = self.bits[word_idx];
        self.bits[word_idx] = word | (1u64 << (bit_idx as u64));
        proof {
            lemma_set_bit(word, bit_idx as u64);
            assert forall|other: int| #[trigger] self.has(other) == (other
                == cpu.0 || old(self).has(other)) by {
                if 0 <= other < CPU_SETSIZE {
                    if other / 64 == word_idx {
                        assert(self.bits@[other / 64] == word | (1u64 << (bit_idx as u64)));
                        assert(has_bit(word | (1u64 << (bit_idx as u64)), (other % 64) as u64) == ((
                        other % 64) as u64 == bit_idx as u64 || has_bit(word, (other % 64) as u64)));
                    } else {
                        assert(self.bits@[other / 64] == before[other / 64]);
                    }
                }
            }
        }
        true
    }

    /// Whether a CPU is in the set.
    pub fn contains(&self, cpu_idx: usize) -> (found: bool)
        ensures
            found == self.has(cpu_idx as int),
    {
        let word_idx: usize = cpu_idx / CPU_BITS;
        let bit_idx: usize = cpu_idx % CPU_BITS;
        if word_idx >= CPU_SET_WORDS {
            return false;
        }
        self.bits[word_idx] & (1u64 << (bit_idx as u64)) != 0
    }

    /// The CPUs in the set, lowest first.
    pub fn cpu_ids(&self) -> (cpus: Vec<CpuId>)
        ensures
            forall|i: int, j: int|
                0 <= i < j < cpus@.len() ==> (#[trigger] cpus@[i]).0 < (#[trigger] cpus@[j]).0,
            forall|cpu: CpuId| #[trigger] cpus@.contains(cpu) <==> self.has(cpu.0 as int),
    {
        let mut cpus: Vec<CpuId> = Vec::new();
        let mut cpu_idx: usize = 0;
        while cpu_idx < CPU_SETSIZE
            invariant
                cpu_idx <= CPU_SETSIZE,
                forall|i: int| 0 <= i < cpus@.len() ==> (#[trigger] cpus@[i]).0 < cpu_idx,
                forall|i: int, j: int|
                    0 <= i < j < cpus@.len() ==> (#[trigger] cpus@[i]).0 < (#[trigger] cpus@[j]).0,
                forall|cpu: CpuId|
                    #[trigger] cpus@.contains(cpu) <==> cpu.0 < cpu_idx && self.has(cpu.0 as int),
            decreases CPU_SETSIZE - cpu_idx,
        {
            let ghost before = cpus@;
            if self.contains(cpu_idx) {
                cpus.push(CpuId(cpu_idx));
                proof {
                    assert forall|cpu: CpuId| #[trigger] cpus@.contains(cpu) <==> cpu.0 <= cpu_idx
                        && self.has(cpu.0 as int) by {
                        if cpus@.contains(cpu) && cpu.0 != cpu_idx {
                            let k = cpus@.index_of(cpu);
                            assert(before[k] == cpu);
                            assert(before.contains(cpu));
                        }
                        if cpu.0 < cpu_idx && self.has(cpu.0 as int) {
                            assert(before.contains(cpu));
                            let k = before.index_of(cpu);
                            assert(cpus@[k] == cpu);
                        }
                        if cpu.0 == cpu_idx {
                            assert(cpus@[before.len() as int] == cpu);
                        }
                    }
                }
            }
            cpu_idx = cpu_idx + 1;
        }
        cpus
    }
}

/// CPUs `0..count`.
pub open spec fn first_cpus(count: nat) -> Seq<CpuId> {
    Seq::new(count, |i: int| CpuId(i as usize))
}

/// The CPUs available to the process for shard placement: those that the platform
/// reports, and otherwise as many as can run in parallel, at least one.
pub fn available_cpu_ids(reported: Option<CpuSet>, parallelism: Option<usize>) -> (cpus: Vec<CpuId>)
    ensures
        match reported {
            Some(set) => {
                &&& forall|i: int, j: int|
                    0 <= i < j < cpus@.len() ==> (#[trigger] cpus@[i]).0 < (#[trigger] cpus@[j]).0
                &&& forall|cpu: CpuId| #[trigger] cpus@.contains(cpu) <==> set.has(cpu.0 as int)
            },
            None => cpus@ == first_cpus(
                match parallelism {
                    Some(count) => count as nat,
                    None => 1,
                },
            ),
        },
{
    match reported {
        Some(set) => set.cpu_ids(),
        None => {
            let count: usize = match parallelism {
                Some(count) => count,
                None => 1,
            };
            let mut cpus: Vec<CpuId> = Vec::new();
            let mut i: usize = 0;
            while i < count
                invariant
                    i <= count,
                    cpus@ == first_cpus(i as nat),
                decreases count - i,
            {
                cpus.push(CpuId(i));
                i = i + 1;
                assert(cpus@ =~= first_cpus(i as nat));
            }
            cpus
        },
    }
}

/// What pinning a thread to a CPU takes.
pub enum AffinityStep {
    /// Nothing: this is the status.
    Finished(CpuPlacementStatus),
    /// The thread is to be bound to the CPUs in the set.
    Bind {
        /// The requested CPU.
        cpu: CpuId,
        /// The set with that CPU alone.
        set: CpuSet,
    },
}

/// Prepares the placement of the current thread. Only Linux has hard CPU affinity.
pub fn apply_to_current_thread(platform: Platform, requested: Option<CpuId>) -> (step: AffinityStep)
    ensures
        match requested {
            None => step == AffinityStep::Finished(CpuPlacementStatus::Unpinned),
            Some(cpu) => if !(platform is Linux) {
                step matches AffinityStep::Finished(
                    CpuPlacementStatus::Unsupported { requested: refused, reason },
                ) && refused == Some(cpu) && reason@
                    == "hard CPU affinity is only implemented on Linux"@
            } else if cpu.0 < CPU_SETSIZE {
                step matches AffinityStep::Bind { cpu: bound, set } && bound == cpu && forall|
                    other: int,
                | #[trigger] set.has(other) == (other == cpu.0)
            } else {
                step matches AffinityStep::Finished(
                    CpuPlacementStatus::Failed { requested: failed, error },
                ) && failed == cpu && error@ == "CPU index exceeds supported CPU_SETSIZE "@
                    + decimal(CPU_SETSIZE as nat)
            },
        },
{
    match requested {
        None => AffinityStep::Finished(CpuPlacementStatus::Unpinned),
        Some(cpu) => {
            match platform {
                Platform::OtherUnix => {
                    return AffinityStep::Finished(
                        CpuPlacementStatus::Unsupported {
                            requested: Some(cpu),
                            reason: "hard CPU affinity is only implemented on Linux".to_owned(),
                        },
                    );
                },
                Platform::Linux => {},
            }
            let mut set = CpuSet::empty();
            if !set.set(cpu) {
                return AffinityStep::Finished(
                    CpuPlacementStatus::Failed {
                        requested: cpu,
                        error: numbered("CPU index exceeds supported CPU_SETSIZE ", CPU_SETSIZE),
                    },
                );
            }
            AffinityStep::Bind { cpu, set }
        },
    }
}

/// The status after the system was asked to bind the thread. A refusal comes with
/// its text.
pub fn affinity_applied(cpu: CpuId, refused: Option<String>) -> (status: CpuPlacementStatus)
    ensures
        status == match refused {
            None => CpuPlacementStatus::Applied(cpu),
            Some(error) => (CpuPlacementStatus::Failed { requested: cpu, error }),
        },
{
    match refused {
        None => CpuPlacementStatus::Applied(cpu),
        Some(error) => CpuPlacementStatus::Failed { requested: cpu, error },
    }
}

/// An explicit policy that covers all shards gives each of them a CPU.
pub proof fn valid_placement_covers_every_shard(
    placement: CpuPlacement,
    shard_count: usize,
    shard_idx: usize,
    available_cpus: Seq<CpuId>,
)
    requires
        placement.covers(shard_count),
        shard_idx < shard_count,
        !(placement is Unpinned),
    ensures
        placement.cpu_of(shard_idx, available_cpus) is Some,
{
}

/// Sequential placement uses available CPUs alone, as long as there are any.
pub proof fn sequential_placement_uses_available_cpus(
    shard_idx: usize,
    available_cpus: Seq<CpuId>,
)
    requires
        available_cpus.len() > 0,
    ensures
        CpuPlacement::Sequential.cpu_of(shard_idx, available_cpus) matches Some(cpu)
            && available_cpus.contains(cpu),
{
    let i = shard_idx as int % available_cpus.len() as int;
    assert(0 <= i < available_cpus.len());
    assert(available_cpus.contains(available_cpus[i]));
}

/// Each shard gets the CPU that the policy means for it: none where shards are not
/// pinned; the one listed at its own place; or the available ones in turn, beginning
/// again with the first when they are used up, and the CPU of the shard's own number
/// where it is not known which are available.
pub proof fn placement_goes_by_the_shard(
    shard_idx: usize,
    rounds: nat,
    later: usize,
    cpus: Vec<CpuId>,
    available_cpus: Seq<CpuId>,
)
    requires
        later == shard_idx + rounds * available_cpus.len(),
    ensures
        CpuPlacement::Unpinned.cpu_of(shard_idx, available_cpus) is None,
        CpuPlacement::Explicit(cpus).cpu_of(shard_idx, available_cpus) is Some <==> shard_idx
            < cpus@.len(),
        shard_idx < cpus@.len() ==> CpuPlacement::Explicit(cpus).cpu_of(shard_idx, available_cpus)
            == Some(cpus@[shard_idx as int]),
        available_cpus.len() == 0 ==> CpuPlacement::Sequential.cpu_of(shard_idx, available_cpus)
            == Some(CpuId(shard_idx)),
        shard_idx < available_cpus.len() ==> CpuPlacement::Sequential.cpu_of(
            shard_idx,
            available_cpus,
        ) == Some(available_cpus[shard_idx as int]) && CpuPlacement::Sequential.cpu_of(
            later,
            available_cpus,
        ) == Some(available_cpus[shard_idx as int]),
{
    if shard_idx < available_cpus.len() {
        let n = available_cpus.len() as int;
        vstd::arithmetic::div_mod::lemma_small_mod(shard_idx as nat, n as nat);
        vstd::arithmetic::div_mod::lemma_mod_multiples_vanish(rounds as int, shard_idx as int, n);
        assert(n * (rounds as int) + shard_idx == shard_idx + rounds * n) by (nonlinear_arith);
    }
}

/// Only a list of CPUs can fall short of the shards: where it is shorter than they are
/// many. And only a listed CPU can be unavailable: where it is not among the available.
pub proof fn only_a_list_can_fall_short(
    cpus: Vec<CpuId>,
    shard_count: usize,
    shard_idx: int,
    available_cpus: Seq<CpuId>,
)
    requires
        0 <= shard_idx < cpus@.len(),
    ensures
        CpuPlacement::Unpinned.covers(shard_count) && CpuPlacement::Sequential.covers(shard_count),
        CpuPlacement::Explicit(cpus).covers(shard_count) <==> shard_count <= cpus@.len(),
        !CpuPlacement::Unpinned.unavailable(shard_idx, available_cpus),
        !CpuPlacement::Sequential.unavailable(shard_idx, available_cpus),
        CpuPlacement::Explicit(cpus).unavailable(shard_idx, available_cpus) <==> forall|i: int|
            0 <= i < available_cpus.len() ==> #[trigger] available_cpus[i] != cpus@[shard_idx],
{
    if !CpuPlacement::Explicit(cpus).unavailable(shard_idx, available_cpus) {
        let i = choose|i: int|
            0 <= i < available_cpus.len() && available_cpus[i] == cpus@[shard_idx];
        assert(available_cpus[i] == cpus@[shard_idx]);
    }
}

/// CPU `n` is bit `n` of the set, counted from the lowest bit of the first word, with 64
/// bits to a word.
pub proof fn cpu_is_the_bit_of_its_number(set: CpuSet, word: int, bit: u64)
    requires
        0 <= word < 16,
        bit < 64,
    ensures
        set.has(word * 64 + bit) <==> (set.bits@[word] >> bit) & 1 == 1,
        !set.has(1024 + word),
        !set.has(-1 - word),
{
    let w = set.bits@[word];
    assert((w & (1u64 << bit) != 0) <==> ((w >> bit) & 1 == 1)) by (bit_vector)
        requires
            bit < 64,
    ;
    assert((word * 64 + bit) / 64 == word);
    assert((word * 64 + bit) % 64 == bit);
}

/// The first CPUs are those with the least numbers, from zero up.
pub proof fn first_cpus_count_from_zero(count: nat, i: int)
    requires
        0 <= i < count <= usize::MAX,
    ensures
        first_cpus(count).len() == count,
        first_cpus(count)[i].0 == i,
{
}

/// CPUs are listed by their numbers, in order, with a comma between two.
pub proof fn cpus_are_listed_in_order(cpus: Seq<CpuId>, cpu: CpuId)
    ensures
        cpus_text(Seq::<CpuId>::empty()) == Seq::<char>::empty(),
        cpus_text(seq![cpu]) == "CpuId("@ + decimal(cpu.0 as nat) + ")"@,
        cpus.len() > 0 ==> cpus_text(cpus.push(cpu)) == cpus_text(cpus) + ", "@ + cpus_text(
            seq![cpu],
        ),
        unavailable_text(cpu, cpus) == "CPU "@ + decimal(cpu.0 as nat)
            + " is not in the process available CPU set ["@ + cpus_text(cpus) + "]"@,
{
    if cpus.len() > 0 {
        assert(cpus.push(cpu).drop_last() =~= cpus);
    }
}

} // verus!
