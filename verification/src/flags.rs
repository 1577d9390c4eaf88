//! Word-sized bitset over the thread lifecycle flags.
//!
//! A thread's `attribute` word records where it stands in its lifecycle:
//! `QUEUED` while it is reachable from a run-queue, `ASLEEP` once it has asked
//! to block, `AWAKE` when a waker raced the sleep, and `ZOMBIE` once it has
//! exited. In the kernel the word is mutated atomically; here the same
//! operations act on an exclusively borrowed word, and their contracts give
//! the exact effect on every flag.

use vstd::prelude::*;

verus! {

/// One lifecycle flag of a thread.
#[derive(Clone, Copy, Debug, PartialEq, Eq, Structural)]
pub enum ThreadAttributes {
    /// The thread is reachable from some run-queue.
    Queued,
    /// The thread has committed to blocking.
    Asleep,
    /// A wake arrived while the thread was going to sleep.
    Awake,
    /// The thread has exited; terminal.
    Zombie,
}

impl ThreadAttributes {
    /// The single bit that stands for this flag.
    pub open spec fn spec_mask(self) -> usize {
        match self {
            ThreadAttributes::Queued => 0x1,
            ThreadAttributes::Asleep => 0x2,
            ThreadAttributes::Awake => 0x4,
            ThreadAttributes::Zombie => 0x8,
        }
    }

    pub fn mask(self) -> (r: usize)
        ensures
            r == self.spec_mask(),
    {
        match self {
            ThreadAttributes::Queued => 0x1,
            ThreadAttributes::Asleep => 0x2,
            ThreadAttributes::Awake => 0x4,
            ThreadAttributes::Zombie => 0x8,
        }
    }
}

/// Facts about setting or clearing one flag bit, for every pair of flags.
proof fn lemma_flag_bits(b: usize)
    ensures
        forall|m: usize, k: usize|
            (m == 1 || m == 2 || m == 4 || m == 8) && (k == 1 || k == 2 || k == 4 || k == 8)
                ==> #[trigger] ((b | m) & k) == if m == k {
                k
            } else {
                b & k
            },
        forall|m: usize, k: usize|
            (m == 1 || m == 2 || m == 4 || m == 8) && (k == 1 || k == 2 || k == 4 || k == 8)
                ==> #[trigger] ((b & !m) & k) == if m == k {
                0usize
            } else {
                b & k
            },
{
    assert(forall|m: usize, k: usize|
        (m == 1 || m == 2 || m == 4 || m == 8) && (k == 1 || k == 2 || k == 4 || k == 8)
            ==> #[trigger] ((b | m) & k) == if m == k {
            k
        } else {
            b & k
        }) by (bit_vector);
    assert(forall|m: usize, k: usize|
        (m == 1 || m == 2 || m == 4 || m == 8) && (k == 1 || k == 2 || k == 4 || k == 8)
            ==> #[trigger] ((b & !m) & k) == if m == k {
            0usize
        } else {
            b & k
        }) by (bit_vector);
}

/// The thread attribute word. In the kernel the operations below are single
/// atomic instructions; their effect on each flag is stated exactly.
pub struct AtomicBitflags {
    bits: usize,
}

impl AtomicBitflags {
    /// Whether flag `f` is set in this word.
    pub closed spec fn has(self, f: ThreadAttributes) -> bool {
        self.bits & f.spec_mask() != 0
    }

    pub closed spec fn spec_bits(self) -> usize {
        self.bits
    }

    /// A word with every flag clear.
    pub fn empty() -> (r: Self)
        ensures
            forall|k: ThreadAttributes| !r.has(k),
    {
        let r = AtomicBitflags { bits: 0 };
        proof {
            assert(forall|k: ThreadAttributes| !r.has(k)) by {
                assert(0usize & 1 == 0 && 0usize & 2 == 0 && 0usize & 4 == 0 && 0usize & 8 == 0)
                    by (bit_vector);
            }
        }
        r
    }

    /// Whether flag `f` is set.
    pub fn contains(&self, f: ThreadAttributes) -> (r: bool)
        ensures
            r == self.has(f),
    {
        self.bits & f.mask() != 0
    }

    /// Set flag `f`; every other flag keeps its value.
    pub fn insert(&mut self, f: ThreadAttributes)
        ensures
            final(self).has(f),
            forall|k: ThreadAttributes| k != f ==> final(self).has(k) == old(self).has(k),
    {
        proof {
            lemma_flag_bits(self.bits);
        }
        self.bits = self.bits | f.mask();
    }

    /// Clear flag `f`; every other flag keeps its value.
    pub fn remove(&mut self, f: ThreadAttributes)
        ensures
            !final(self).has(f),
            forall|k: ThreadAttributes| k != f ==> final(self).has(k) == old(self).has(k),
    {
        proof {
            lemma_flag_bits(self.bits);
        }
        self.bits = self.bits & !f.mask();
    }

    /// Set flag `f` and report whether it was already set.
    pub fn test_and_set(&mut self, f: ThreadAttributes) -> (was_set: bool)
        ensures
            was_set == old(self).has(f),
            final(self).has(f),
            forall|k: ThreadAttributes| k != f ==> final(self).has(k) == old(self).has(k),
    {
        let was_set = self.contains(f);
        self.insert(f);
        was_set
    }

    /// Clear flag `f` and report whether it was set.
    pub fn test_and_clear(&mut self, f: ThreadAttributes) -> (was_set: bool)
        ensures
            was_set == old(self).has(f),
            !final(self).has(f),
            forall|k: ThreadAttributes| k != f ==> final(self).has(k) == old(self).has(k),
    {
        let was_set = self.contains(f);
        self.remove(f);
        was_set
    }

    /// One-letter state code, as shown by the statistics listing: a zombie
    /// before anything else, then a racing wake, a sleeper, a queued thread,
    /// and a dash for a fresh or running thread with no flag set.
    pub fn to_char(&self) -> (r: char)
        ensures
            r == self.spec_to_char(),
    {
        if self.contains(ThreadAttributes::Zombie) {
            'Z'
        } else if self.contains(ThreadAttributes::Awake) {
            'W'
        } else if self.contains(ThreadAttributes::Asleep) {
            'S'
        } else if self.contains(ThreadAttributes::Queued) {
            'R'
        } else {
            '-'
        }
    }

    pub open spec fn spec_to_char(self) -> char {
        if self.has(ThreadAttributes::Zombie) {
            'Z'
        } else if self.has(ThreadAttributes::Awake) {
            'W'
        } else if self.has(ThreadAttributes::Asleep) {
            'S'
        } else if self.has(ThreadAttributes::Queued) {
            'R'
        } else {
            '-'
        }
    }
}

/// Setting a clear flag and then clearing it returns the flag, and every
/// other flag, to its initial state. (When the flag starts out set, the
/// pair of calls leaves it clear instead: the set is absorbed.)
pub proof fn lemma_test_and_set_then_clear_roundtrip(
    before: AtomicBitflags,
    mid: AtomicBitflags,
    after: AtomicBitflags,
    f: ThreadAttributes,
)
    requires
        !before.has(f),
        // the two steps, as `test_and_set` and `test_and_clear` leave them
        mid.has(f),
        forall|k: ThreadAttributes| k != f ==> mid.has(k) == before.has(k),
        !after.has(f),
        forall|k: ThreadAttributes| k != f ==> after.has(k) == mid.has(k),
    ensures
        forall|k: ThreadAttributes| after.has(k) == before.has(k),
{
    assert forall|k: ThreadAttributes| after.has(k) == before.has(k) by {
        if k != f {
            assert(after.has(k) == mid.has(k));
            assert(mid.has(k) == before.has(k));
        }
    }
}

} // verus!
