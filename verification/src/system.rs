//! The machine as the scheduler sees it: version stamp, processor identity
//! and the CPU topology that gates dispatch.
//!
//! The scheduler needs to know how many logical CPUs are active, how many of
//! them are performance (non-SMT, non-efficiency) cores, and which core type
//! each index has. Discovery of those facts is firmware work and happens
//! outside; a `System` value carries the result and is handed to the
//! scheduler once at start.

use vstd::prelude::*;

verus! {

/// Packed system version: major, minor and patch in one word, plus a
/// release suffix shown after the dotted numbers.
#[derive(Clone, Copy, Debug, PartialEq, Eq)]
pub struct Version {
    versions: u32,
    rel: &'static str,
}

impl Version {
    /// Pack `maj.min.patch` into one word: major in the top byte, minor in
    /// the next, patch in the low sixteen bits. `rel` is the release suffix.
    pub fn new(maj: u8, min: u8, patch: u16, rel: &'static str) -> (r: Self)
        ensures
            r.spec_as_u32() == (maj as u32) * 0x100_0000 + (min as u32) * 0x1_0000 + patch as u32,
            r.spec_maj() == maj,
            r.spec_min() == min,
            r.spec_patch() == patch,
            r.spec_rel()@ == rel@,
    {
        let versions: u32 = ((maj as u32) << 24u32) | ((min as u32) << 16u32) | (patch as u32);
        proof {
            lemma_version_pack(maj, min, patch);
        }
        Version { versions, rel }
    }

    pub closed spec fn spec_rel(self) -> &'static str {
        self.rel
    }

    /// The release suffix; empty for a plain release.
    pub fn rel(&self) -> (r: &'static str)
        ensures
            r@ == self.spec_rel()@,
    {
        self.rel
    }

    pub closed spec fn spec_as_u32(self) -> u32 {
        self.versions
    }

    pub closed spec fn spec_maj(self) -> usize {
        ((self.versions / 0x100_0000) % 0x100) as usize
    }

    pub closed spec fn spec_min(self) -> usize {
        ((self.versions / 0x1_0000) % 0x100) as usize
    }

    pub closed spec fn spec_patch(self) -> usize {
        (self.versions % 0x1_0000) as usize
    }

    /// The packed word.
    pub fn as_u32(&self) -> (r: u32)
        ensures
            r == self.spec_as_u32(),
    {
        self.versions
    }

    /// Major version: the top byte of the packed word.
    pub fn maj(&self) -> (r: usize)
        ensures
            r == self.spec_maj(),
    {
        proof {
            lemma_version_unpack(self.versions);
        }
        ((self.versions >> 24u32) & 0xFF) as usize
    }

    /// Minor version: the second byte of the packed word.
    pub fn min(&self) -> (r: usize)
        ensures
            r == self.spec_min(),
    {
        proof {
            lemma_version_unpack(self.versions);
        }
        ((self.versions >> 16u32) & 0xFF) as usize
    }

    /// Patch level: the low sixteen bits of the packed word.
    pub fn patch(&self) -> (r: usize)
        ensures
            r == self.spec_patch(),
    {
        proof {
            lemma_version_unpack(self.versions);
        }
        (self.versions & 0xFFFF) as usize
    }
}

proof fn lemma_version_pack(maj: u8, min: u8, patch: u16)
    ensures
        ((maj as u32) << 24u32) | ((min as u32) << 16u32) | (patch as u32) == (maj as u32)
            * 0x100_0000 + (min as u32) * 0x1_0000 + patch as u32,
{
    assert(((maj as u32) << 24u32) | ((min as u32) << 16u32) | (patch as u32) == (maj as u32)
        * 0x100_0000 + (min as u32) * 0x1_0000 + patch as u32) by (bit_vector);
}

proof fn lemma_version_unpack(v: u32)
    ensures
        ((v >> 24u32) & 0xFF) == (v / 0x100_0000) % 0x100,
        ((v >> 16u32) & 0xFF) == (v / 0x1_0000) % 0x100,
        (v & 0xFFFF) == v % 0x1_0000,
{
    assert(((v >> 24u32) & 0xFF) == (v / 0x100_0000) % 0x100 && ((v >> 16u32) & 0xFF) == (v
        / 0x1_0000) % 0x100 && (v & 0xFFFF) == v % 0x1_0000) by (bit_vector);
}

/// No more cores are performance cores than there are cores.
pub proof fn lemma_count_main_le(s: Seq<ProcessorCoreType>)
    ensures
        System::count_main(s) <= s.len(),
    decreases s.len(),
{
    if s.len() > 0 {
        lemma_count_main_le(s.drop_last());
    }
}

/// A topology whose boot core is a performance core has at least one.
pub proof fn lemma_count_main_pos(s: Seq<ProcessorCoreType>)
    requires
        s.len() >= 1,
        s[0] == ProcessorCoreType::Main,
    ensures
        System::count_main(s) >= 1,
    decreases s.len(),
{
    if s.len() == 1 {
        assert(s.last() == s[0]);
    } else {
        assert(s.drop_last()[0] == s[0]);
        lemma_count_main_pos(s.drop_last());
    }
}

/// Hardware identity of one logical processor (its local APIC id).
#[derive(Clone, Copy, Debug, PartialEq, Eq, Structural, Default)]
pub struct ProcessorId(pub u8);

impl ProcessorId {
    pub fn as_u32(self) -> (r: u32)
        ensures
            r == self.0 as u32,
    {
        self.0 as u32
    }
}

/// Index of a logical processor in the system's CPU list; also the index of
/// its local scheduler.
#[derive(Clone, Copy, Debug, PartialEq, Eq, Structural)]
pub struct ProcessorIndex(pub usize);

/// Whether a logical core is a full performance core or a secondary
/// (SMT sibling or efficiency) core. Under the `Running` state only `Main`
/// cores pull work.
#[derive(Clone, Copy, Debug, PartialEq, Eq, Structural)]
pub enum ProcessorCoreType {
    Main,
    Sub,
}

/// A physical memory address, carried opaquely through the scheduler.
#[derive(Clone, Copy, Debug, PartialEq, Eq, Structural, Default)]
pub struct PhysicalAddress(pub usize);

/// The CPU topology the dispatch policy reads: one core type per active
/// logical CPU. Built once at boot from firmware tables, outside this crate.
pub struct System {
    pub cores: Vec<ProcessorCoreType>,
    pub num_of_performance_cpus: usize,
}

impl System {
    /// Valid topology: at least one CPU, CPU 0 is a performance core, and the
    /// performance count matches the list.
    pub open spec fn wf(self) -> bool {
        &&& self.cores@.len() >= 1
        &&& self.cores@[0] == ProcessorCoreType::Main
        &&& self.num_of_performance_cpus == Self::count_main(self.cores@)
    }

    /// How many cores of a sequence are `Main` cores.
    pub open spec fn count_main(s: Seq<ProcessorCoreType>) -> nat
        decreases s.len(),
    {
        if s.len() == 0 {
            0
        } else {
            Self::count_main(s.drop_last()) + if s.last() == ProcessorCoreType::Main {
                1nat
            } else {
                0nat
            }
        }
    }

    pub open spec fn spec_num_of_active_cpus(self) -> nat {
        self.cores@.len()
    }

    pub open spec fn spec_core_type(self, index: int) -> ProcessorCoreType {
        self.cores@[index]
    }

    /// Build the topology from the per-core types discovered at boot.
    /// The boot processor (index 0) is always a performance core.
    pub fn new(cores: Vec<ProcessorCoreType>) -> (r: Self)
        requires
            cores@.len() >= 1,
            cores@[0] == ProcessorCoreType::Main,
        ensures
            r.wf(),
            r.cores@ == cores@,
    {
        let mut count: usize = 0;
        let mut i: usize = 0;
        while i < cores.len()
            invariant
                i <= cores@.len(),
                count == Self::count_main(cores@.subrange(0, i as int)),
                count <= i,
            decreases cores@.len() - i,
        {
            proof {
                assert(cores@.subrange(0, i + 1).drop_last() =~= cores@.subrange(0, i as int));
            }
            if cores[i] == ProcessorCoreType::Main {
                count = count + 1;
            }
            i = i + 1;
        }
        proof {
            assert(cores@.subrange(0, cores@.len() as int) =~= cores@);
        }
        System { cores, num_of_performance_cpus: count }
    }

    /// Number of active logical CPUs.
    pub fn num_of_active_cpus(&self) -> (r: usize)
        ensures
            r == self.spec_num_of_active_cpus(),
    {
        self.cores.len()
    }

    /// Number of performance cores; less than `num_of_active_cpus` on SMT or
    /// heterogeneous machines.
    pub fn num_of_performance_cpus(&self) -> (r: usize)
        requires
            self.wf(),
        ensures
            r == Self::count_main(self.cores@),
    {
        self.num_of_performance_cpus
    }

    /// Core type of the CPU at `index`.
    pub fn core_type(&self, index: usize) -> (r: ProcessorCoreType)
        requires
            index < self.spec_num_of_active_cpus(),
        ensures
            r == self.spec_core_type(index as int),
    {
        self.cores[index]
    }
}

} // verus!
