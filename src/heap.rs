use vstd::prelude::*;

verus! {

/// Size of the statically reserved heap region: 32 MiB.
pub const HEAP_SIZE: usize = 0x200_0000;

/// Why the heap refused a request.
#[derive(Clone, Copy, Debug, PartialEq, Eq, Structural)]
pub enum HeapError {
    /// The heap region has not been claimed yet.
    NotInitialized,
}

/// Whether an initialisation request claims the region: only the first does.
pub open spec fn claims_on_init(claimed: bool) -> bool {
    !claimed
}

/// Tracks whether the heap region has been claimed into the allocator. The
/// region is claimed exactly once; allocation is refused before that.
#[derive(Debug)]
pub struct HeapGuard {
    claimed: bool,
}

impl View for HeapGuard {
    type V = bool;

    closed spec fn view(&self) -> bool {
        self.claimed
    }
}

impl HeapGuard {
    /// A guard over a region not yet claimed.
    pub fn new() -> (r: HeapGuard)
        ensures
            !r@,
    {
        HeapGuard { claimed: false }
    }

    /// Handles a request to initialise the heap. Returns whether the caller
    /// is to claim the region now; afterwards the region counts as claimed.
    pub fn init(&mut self) -> (claim: bool)
        ensures
            claim == claims_on_init(old(self)@),
            final(self)@,
    {
        let claim = !self.claimed;
        self.claimed = true;
        claim
    }

    /// Whether the region has been claimed.
    pub fn is_initialized(&self) -> (r: bool)
        ensures
            r == self@,
    {
        self.claimed
    }

    /// Admits an allocation or deallocation request: only once the region
    /// has been claimed.
    pub fn check_access(&self) -> (r: Result<(), HeapError>)
        ensures
            r is Ok <==> self@,
            r is Err ==> r == Err::<(), HeapError>(HeapError::NotInitialized),
    {
        if self.claimed {
            Ok(())
        } else {
            Err(HeapError::NotInitialized)
        }
    }
}

/// How many of `n` successive initialisation requests claim the region,
/// starting from a guard whose region is claimed or not.
pub open spec fn claims_in(claimed: bool, n: nat) -> nat
    decreases n,
{
    if n == 0 {
        0
    } else {
        (if claims_on_init(claimed) { 1nat } else { 0nat }) + claims_in(true, (n - 1) as nat)
    }
}

/// However many times initialisation is requested, the region is claimed at
/// most once: exactly once from a fresh guard, never again after that.
pub proof fn lemma_init_claims_once(claimed: bool, n: nat)
    ensures
        claims_in(true, n) == 0,
        claims_in(claimed, n) == (if !claimed && n > 0 { 1nat } else { 0nat }),
    decreases n,
{
    if n > 0 {
        lemma_init_claims_once(true, (n - 1) as nat);
    }
}

} // verus!
