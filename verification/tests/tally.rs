use barcode_evidence::evidence::{BarcodeTally, HaplotypeClass};

fn tally_with(maternal: i32, transmitted: i32, reference: i32, paternal: i32) -> BarcodeTally {
    let mut tally = BarcodeTally::new("ACGTGA");
    tally.update((maternal, transmitted, reference, paternal));
    tally
}

#[test]
fn new_tally_has_the_barcode_and_zero_counters() {
    let tally = BarcodeTally::new("ACGTGA");
    assert_eq!(tally.barcode, "ACGTGA");
    assert_eq!(tally.maternal_count, 0);
    assert_eq!(tally.transmitted_count, 0);
    assert_eq!(tally.reference_count, 0);
    assert_eq!(tally.paternal_count, 0);
}

#[test]
fn new_tally_accepts_an_empty_barcode() {
    let tally = BarcodeTally::new("");
    assert_eq!(tally.barcode, "");
}

#[test]
fn update_adds_in_the_order_maternal_transmitted_reference_paternal() {
    let mut tally = BarcodeTally::new("ACGTGA");
    tally.update((1, 20, 300, 4000));
    assert_eq!(tally.maternal_count, 1);
    assert_eq!(tally.transmitted_count, 20);
    assert_eq!(tally.reference_count, 300);
    assert_eq!(tally.paternal_count, 4000);
    tally.update((4, 3, 2, 1));
    assert_eq!(tally.maternal_count, 5);
    assert_eq!(tally.transmitted_count, 23);
    assert_eq!(tally.reference_count, 302);
    assert_eq!(tally.paternal_count, 4001);
    assert_eq!(tally.barcode, "ACGTGA");
}

#[test]
fn update_reaches_the_largest_counter_value() {
    let mut tally = BarcodeTally::new("ACGTGA");
    tally.update((i32::MAX - 1, 0, 0, 0));
    tally.update((1, 0, 0, i32::MAX));
    assert_eq!(tally.maternal_count, i32::MAX);
    assert_eq!(tally.paternal_count, i32::MAX);
}

#[test]
fn tie_at_zero_is_transmitted() {
    assert_eq!(tally_with(0, 0, 0, 0).haplotype_class(), HaplotypeClass::Transmitted);
    assert_eq!(tally_with(0, 0, 7, 3).haplotype_class(), HaplotypeClass::Transmitted);
}

#[test]
fn tie_at_five_is_transmitted() {
    assert_eq!(tally_with(5, 5, 0, 0).haplotype_class(), HaplotypeClass::Transmitted);
}

#[test]
fn more_maternal_than_transmitted_is_maternal() {
    assert_eq!(tally_with(5, 4, 0, 0).haplotype_class(), HaplotypeClass::Maternal);
}

#[test]
fn fewer_maternal_than_transmitted_is_transmitted() {
    assert_eq!(tally_with(4, 5, 0, 0).haplotype_class(), HaplotypeClass::Transmitted);
}

#[test]
fn class_ignores_reference_and_paternal_counters() {
    for (reference, paternal) in [(0, 0), (1, 0), (0, 1), (1000, 2000), (i32::MAX, i32::MAX)] {
        assert_eq!(
            tally_with(3, 2, reference, paternal).haplotype_class(),
            HaplotypeClass::Maternal
        );
        assert_eq!(
            tally_with(2, 3, reference, paternal).haplotype_class(),
            HaplotypeClass::Transmitted
        );
    }
}

#[test]
fn class_ignores_the_barcode() {
    let mut one = BarcodeTally::new("AAAA");
    let mut other = BarcodeTally::new("CCCC");
    one.update((9, 1, 0, 0));
    other.update((9, 1, 5, 5));
    assert_eq!(one.haplotype_class(), other.haplotype_class());
}

#[test]
fn labels_print_as_their_names() {
    assert_eq!(format!("{:?}", HaplotypeClass::Transmitted), "Transmitted");
    assert_eq!(format!("{:?}", HaplotypeClass::Maternal), "Maternal");
}
