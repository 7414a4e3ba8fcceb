//! Finding memory near an address.
//!
//! A jump with a 32-bit displacement reaches two gigabytes either way, so a
//! code cave has to lie that near to its hook site. The search asks for
//! memory at the target itself, then page by page further away on both sides,
//! until the operating system grants a request close enough or the distance
//! is used up.

use crate::error::EngineError;
use crate::memory::AllocRegion;
use crate::memory::MemoryRegion;
use vstd::prelude::*;

verus! {

/// How far from its target a code cave may lie.
pub const MAX_DISTANCE: usize = 0x7FFF_0000;

/// Distance between two candidate addresses on one side of the target.
pub const PAGE_STEP: usize = 0x1000;

/// Distance between two addresses.
pub open spec fn distance(a: int, b: int) -> int {
    if a >= b {
        a - b
    } else {
        b - a
    }
}

/// A sum or difference of two addresses brought back into the address space
/// by wrapping round once.
pub open spec fn wrap(address: int) -> usize {
    if address > usize::MAX {
        (address - usize::MAX - 1) as usize
    } else if address < 0 {
        (address + usize::MAX + 1) as usize
    } else {
        address as usize
    }
}

/// Computes the distance between two addresses.
pub fn address_distance(a: usize, b: usize) -> (d: usize)
    ensures
        d == distance(a as int, b as int),
{
    if a >= b {
        a - b
    } else {
        b - a
    }
}

/// A search for memory near a target address. The search allocates nothing:
/// it names the next address to ask for, and is told what came of asking.
#[derive(Debug, Clone, Copy, PartialEq, Eq, Structural)]
pub struct NearAllocation {
    /// The address to stay near to.
    pub target: usize,
    /// Number of bytes wanted.
    pub size: usize,
    /// Distance from the target that is no longer near.
    pub max_distance: usize,
    /// How far from the target the search has come.
    pub offset: usize,
    /// Whether the address above the target at this distance was tried.
    pub below: bool,
}

/// What to do with the outcome of one request.
#[derive(Debug, Clone, Copy, PartialEq, Eq, Structural)]
pub enum Verdict {
    /// The memory is near enough: the search is over.
    Accept(AllocRegion),
    /// Memory was granted too far away: free it, and go on.
    Release(usize),
    /// Nothing was granted: go on.
    Retry,
}

impl NearAllocation {
    /// Every distance has been tried: what is left is to take memory from
    /// wherever the operating system has some.
    pub open spec fn exhausted(&self) -> bool {
        self.offset >= self.max_distance
    }

    /// The address to ask for next: above the target first, then below it.
    pub open spec fn candidate(&self) -> usize {
        if self.below {
            wrap(self.target - self.offset)
        } else {
            wrap(self.target + self.offset)
        }
    }

    /// The search after one more request was dealt with.
    pub open spec fn advanced(&self) -> NearAllocation {
        if self.below {
            NearAllocation {
                offset: if self.offset + PAGE_STEP <= usize::MAX {
                    (self.offset + PAGE_STEP) as usize
                } else {
                    usize::MAX
                },
                below: false,
                ..*self
            }
        } else {
            NearAllocation { below: true, ..*self }
        }
    }

    /// Number of requests that the search can still make.
    pub open spec fn requests_left(&self) -> int {
        if self.exhausted() {
            0
        } else {
            2 * ((self.max_distance - self.offset + PAGE_STEP - 1) / (PAGE_STEP as int)) - (
            if self.below {
                1int
            } else {
                0int
            })
        }
    }

    /// Starts a search at the target itself.
    pub fn new(target: usize, size: usize, max_distance: usize) -> (search: NearAllocation)
        ensures
            search == (NearAllocation { target, size, max_distance, offset: 0, below: false }),
    {
        NearAllocation { target, size, max_distance, offset: 0, below: false }
    }

    /// The address to ask for next, or `None` when the search is used up.
    pub fn next_candidate(&self) -> (address: Option<usize>)
        ensures
            address is None <==> self.exhausted(),
            address is Some ==> address->0 == self.candidate(),
    {
        if self.offset >= self.max_distance {
            None
        } else if self.below {
            Some(self.target.wrapping_sub(self.offset))
        } else {
            Some(self.target.wrapping_add(self.offset))
        }
    }

    /// Takes in the outcome of asking for memory at the candidate address:
    /// the address that was granted, or `None`. Memory is accepted only if
    /// it lies nearer to the target than `max_distance`; the operating
    /// system may round a request to another address, so this is tested on
    /// what was granted. Unless memory is accepted the search moves on.
    pub fn on_result(&mut self, granted: Option<usize>) -> (verdict: Verdict)
        requires
            !old(self).exhausted(),
        ensures
            verdict == match granted {
                None => Verdict::Retry,
                Some(base) => if distance(base as int, old(self).target as int) < old(
                    self,
                ).max_distance {
                    Verdict::Accept(
                        AllocRegion { base_address: base, region_size: old(self).size },
                    )
                } else {
                    Verdict::Release(base)
                },
            },
            verdict is Accept ==> *final(self) == *old(self),
            verdict is Accept ==> distance(
                verdict->Accept_0.base_address as int,
                old(self).target as int,
            ) < old(self).max_distance,
            !(verdict is Accept) ==> *final(self) == old(self).advanced(),
            !(verdict is Accept) ==> final(self).requests_left() < old(self).requests_left(),
    {
        let verdict = match granted {
            None => Verdict::Retry,
            Some(base) => {
                if address_distance(base, self.target) < self.max_distance {
                    return Verdict::Accept(
                        AllocRegion { base_address: base, region_size: self.size },
                    );
                }
                Verdict::Release(base)
            },
        };
        proof {
            self.lemma_advancing_uses_up();
        }
        if self.below {
            self.offset = self.offset.saturating_add(PAGE_STEP);
            self.below = false;
        } else {
            self.below = true;
        }
        verdict
    }

    /// Each request that is dealt with leaves fewer to make.
    pub proof fn lemma_advancing_uses_up(&self)
        requires
            !self.exhausted(),
        ensures
            0 <= self.advanced().requests_left() < self.requests_left(),
    {
        let step = PAGE_STEP as int;
        let left = self.max_distance - self.offset;
        assert(left >= 1);
        assert((left + step - 1) / step >= 1) by (nonlinear_arith)
            requires
                left >= 1,
                step == 4096,
        ;
        if self.below {
            let next = self.advanced();
            if !next.exhausted() {
                assert(next.offset == self.offset + step);
                assert((left - step + step - 1) / step == (left + step - 1) / step - 1)
                    by (nonlinear_arith)
                    requires
                        step == 4096,
                ;
            }
        }
    }
}

/// What an allocation anywhere in the target process amounts to: the region
/// that the operating system reports at the address it granted. Without an
/// address, or without a report, there is no allocation.
pub fn granted_region(granted: Option<usize>, report: Option<MemoryRegion>) -> (region: Result<
    AllocRegion,
    EngineError,
>)
    ensures
        region == match (granted, report) {
            (Some(_), Some(info)) => Ok::<AllocRegion, EngineError>(
                AllocRegion { base_address: info.base_address, region_size: info.region_size },
            ),
            _ => Err::<AllocRegion, EngineError>(EngineError::AllocationFailure),
        },
{
    match (granted, report) {
        (Some(_), Some(info)) => Ok(
            AllocRegion { base_address: info.base_address, region_size: info.region_size },
        ),
        _ => Err(EngineError::AllocationFailure),
    }
}

} // verus!
