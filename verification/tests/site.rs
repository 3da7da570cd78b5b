use barcode_evidence::evidence::EvidenceType;
use barcode_evidence::site::{classify_site, GenotypeAllele};

#[test]
fn homozygous_unphased_reference_is_transmitted() {
    let genotype = vec![GenotypeAllele::Unphased(0), GenotypeAllele::Unphased(0)];
    assert_eq!(classify_site(&genotype), EvidenceType::Transmitted);
}

#[test]
fn single_unphased_reference_call_is_transmitted() {
    assert_eq!(
        classify_site(&[GenotypeAllele::Unphased(0)]),
        EvidenceType::Transmitted
    );
}

#[test]
fn genotype_without_calls_is_transmitted() {
    assert_eq!(classify_site(&[]), EvidenceType::Transmitted);
}

#[test]
fn alternate_call_is_maternal() {
    for genotype in [
        vec![GenotypeAllele::Unphased(0), GenotypeAllele::Unphased(1)],
        vec![GenotypeAllele::Unphased(1), GenotypeAllele::Unphased(0)],
        vec![GenotypeAllele::Unphased(1), GenotypeAllele::Unphased(1)],
        vec![GenotypeAllele::Unphased(2)],
        vec![GenotypeAllele::Unphased(-1)],
    ] {
        assert_eq!(classify_site(&genotype), EvidenceType::Maternal);
    }
}

#[test]
fn phased_reference_call_is_maternal() {
    let genotype = vec![GenotypeAllele::Unphased(0), GenotypeAllele::Phased(0)];
    assert_eq!(classify_site(&genotype), EvidenceType::Maternal);
    assert_eq!(
        classify_site(&[GenotypeAllele::Phased(0)]),
        EvidenceType::Maternal
    );
}

#[test]
fn missing_call_is_maternal() {
    for genotype in [
        vec![GenotypeAllele::UnphasedMissing, GenotypeAllele::UnphasedMissing],
        vec![GenotypeAllele::Unphased(0), GenotypeAllele::UnphasedMissing],
        vec![GenotypeAllele::Unphased(0), GenotypeAllele::PhasedMissing],
        vec![GenotypeAllele::PhasedMissing],
    ] {
        assert_eq!(classify_site(&genotype), EvidenceType::Maternal);
    }
}

#[test]
fn one_odd_call_among_many_is_maternal() {
    let mut genotype = vec![GenotypeAllele::Unphased(0); 9];
    assert_eq!(classify_site(&genotype), EvidenceType::Transmitted);
    genotype[8] = GenotypeAllele::Unphased(1);
    assert_eq!(classify_site(&genotype), EvidenceType::Maternal);
    genotype[8] = GenotypeAllele::Unphased(0);
    genotype[0] = GenotypeAllele::Phased(0);
    assert_eq!(classify_site(&genotype), EvidenceType::Maternal);
}
