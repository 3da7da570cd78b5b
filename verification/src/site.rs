//! The site classifier: from the genotype of the reference parent to the
//! evidence category that the alternate allele of the site stands for.

use vstd::prelude::*;
use crate::evidence::EvidenceType;

verus! {

/// One allele call of a genotype: an index into the allele list of the
/// site, phased or not, or a missing call.
#[derive(Debug, Clone, Copy, PartialEq, Eq, Structural)]
pub enum GenotypeAllele {
    Unphased(i32),
    Phased(i32),
    UnphasedMissing,
    PhasedMissing,
}

/// Every call of `genotype` is the reference allele in unphased form.
pub open spec fn all_unphased_reference(genotype: Seq<GenotypeAllele>) -> bool {
    forall|i: int| 0 <= i < genotype.len() ==> genotype[i] == GenotypeAllele::Unphased(0)
}

/// The category of a site whose reference parent has `genotype`: the
/// alternate allele marks the transmitted haplotype where the parent shows
/// the reference allele only, and the retained one otherwise.
pub open spec fn site_type(genotype: Seq<GenotypeAllele>) -> EvidenceType {
    if all_unphased_reference(genotype) {
        EvidenceType::Transmitted
    } else {
        EvidenceType::Maternal
    }
}

/// Classifies a site by the genotype of the reference parent.
pub fn classify_site(genotype: &[GenotypeAllele]) -> (kind: EvidenceType)
    ensures
        kind == site_type(genotype@),
{
    let mut i: usize = 0;
    while i < genotype.len()
        invariant
            i <= genotype@.len(),
            forall|k: int| 0 <= k < i ==> genotype@[k] == GenotypeAllele::Unphased(0),
        decreases genotype@.len() - i,
    {
        match genotype[i] {
            GenotypeAllele::Unphased(0) => {},
            _ => {
                return EvidenceType::Maternal;
            },
        }
        i += 1;
    }
    EvidenceType::Transmitted
}

} // verus!
