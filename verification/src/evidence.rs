//! The evidence categories, the per-barcode tally and the haplotype label.

use vstd::prelude::*;

pub use crate::table::{EvidenceTable, SiteTable};

verus! {

/// Why a read base was recorded at a site.
#[derive(Debug, Clone, Copy, PartialEq, Eq, Structural)]
pub enum EvidenceType {
    /// The base matched the alternate allele on a site the parent retained.
    Maternal,
    /// The base matched the alternate allele on a site the parent transmitted.
    Transmitted,
    /// The base did not match the alternate allele.
    Reference,
    /// Reserved for paternally informative sites.
    Paternal,
}

/// The label a barcode finally receives.
#[derive(Debug, Clone, Copy, PartialEq, Eq, Structural)]
pub enum HaplotypeClass {
    Transmitted,
    Maternal,
}

/// The label that a pair of maternal and transmitted counts stands for:
/// `Transmitted` unless the maternal count is strictly larger.
pub open spec fn class_of(maternal: int, transmitted: int) -> HaplotypeClass {
    if maternal <= transmitted {
        HaplotypeClass::Transmitted
    } else {
        HaplotypeClass::Maternal
    }
}

/// The four evidence counters of one barcode.
#[derive(Debug)]
pub struct BarcodeTally {
    pub barcode: String,
    pub transmitted_count: i32,
    pub maternal_count: i32,
    pub reference_count: i32,
    pub paternal_count: i32,
}

impl BarcodeTally {
    /// The counter of this tally that belongs to `kind`.
    pub open spec fn count_of(self, kind: EvidenceType) -> int {
        match kind {
            EvidenceType::Maternal => self.maternal_count as int,
            EvidenceType::Transmitted => self.transmitted_count as int,
            EvidenceType::Reference => self.reference_count as int,
            EvidenceType::Paternal => self.paternal_count as int,
        }
    }

    /// The label this tally stands for.
    pub open spec fn class(self) -> HaplotypeClass {
        class_of(self.maternal_count as int, self.transmitted_count as int)
    }

    /// A tally for `barcode` with all four counters at zero.
    pub fn new(barcode: &str) -> (tally: BarcodeTally)
        ensures
            tally.barcode@ == barcode@,
            tally.transmitted_count == 0,
            tally.maternal_count == 0,
            tally.reference_count == 0,
            tally.paternal_count == 0,
    {
        BarcodeTally {
            barcode: barcode.to_owned(),
            transmitted_count: 0,
            maternal_count: 0,
            reference_count: 0,
            paternal_count: 0,
        }
    }

    /// Adds `offset` to the counters, in the order maternal, transmitted,
    /// reference, paternal.
    #[inline(always)]
    pub fn update(&mut self, offset: (i32, i32, i32, i32))
        requires
            i32::MIN <= old(self).maternal_count + offset.0 <= i32::MAX,
            i32::MIN <= old(self).transmitted_count + offset.1 <= i32::MAX,
            i32::MIN <= old(self).reference_count + offset.2 <= i32::MAX,
            i32::MIN <= old(self).paternal_count + offset.3 <= i32::MAX,
        ensures
            final(self).barcode == old(self).barcode,
            final(self).maternal_count == old(self).maternal_count + offset.0,
            final(self).transmitted_count == old(self).transmitted_count + offset.1,
            final(self).reference_count == old(self).reference_count + offset.2,
            final(self).paternal_count == old(self).paternal_count + offset.3,
    {
        self.maternal_count = self.maternal_count + offset.0;
        self.transmitted_count = self.transmitted_count + offset.1;
        self.reference_count = self.reference_count + offset.2;
        self.paternal_count = self.paternal_count + offset.3;
    }

    /// Reduces the tally to its label. Only the maternal and the transmitted
    /// counter take part; a tie goes to `Transmitted`.
    pub fn haplotype_class(self) -> (class: HaplotypeClass)
        ensures
            class == class_of(self.maternal_count as int, self.transmitted_count as int),
    {
        if self.maternal_count <= self.transmitted_count {
            HaplotypeClass::Transmitted
        } else {
            HaplotypeClass::Maternal
        }
    }
}

} // verus!
