//! Resolution of caller identifier types to raw PLIC indexes.
//!
//! A platform usually names its interrupt sources and hart contexts with its
//! own types (an enum of device lines, a hart descriptor). The register file
//! is addressed only by a nonzero source id and a context index, so these
//! two capabilities say no more than "this value resolves to that number".
//! The register operations themselves consume the resolved integers; the
//! resolution step stays outside them.

use vstd::prelude::*;

verus! {

/// A value that names one external interrupt source.
///
/// Source id 0 is reserved by the PLIC to mean "no interrupt", so a
/// resolvable value must never map to it.
pub trait InterruptSource: Sized {
    /// The source id this value resolves to.
    spec fn id_spec(&self) -> u32;

    /// Whether this value names a source at all (a raw integer 0 does not).
    spec fn resolvable(&self) -> bool;

    /// The identifier number of the interrupt source.
    fn id(self) -> (raw: u32)
        requires
            self.resolvable(),
        ensures
            raw == self.id_spec(),
            raw != 0,
    ;
}

/// A raw nonzero integer is its own source id.
impl InterruptSource for u32 {
    open spec fn id_spec(&self) -> u32 {
        *self
    }

    open spec fn resolvable(&self) -> bool {
        *self != 0
    }

    fn id(self) -> u32 {
        self
    }
}

/// A value that names one hart context (a privilege mode on a hart).
///
/// How contexts are numbered is the platform's business, not the PLIC
/// specification's; the register file treats the index as opaque.
pub trait HartContext: Sized {
    /// The context index this value resolves to.
    spec fn index_spec(&self) -> usize;

    /// The index of the hart context.
    fn index(self) -> (idx: usize)
        ensures
            idx == self.index_spec(),
    ;
}

/// A raw integer is its own context index.
impl HartContext for usize {
    open spec fn index_spec(&self) -> usize {
        *self
    }

    fn index(self) -> usize {
        self
    }
}

} // verus!
