use barcode_evidence::evidence::{EvidenceTable, EvidenceType, HaplotypeClass, SiteTable};

fn totals_of(table: &EvidenceTable, barcode: &str) -> (i32, i32, i32, i32) {
    let sites = table.get(barcode).expect("barcode is in the table");
    let tally = EvidenceTable::tally_barcode(sites, barcode);
    assert_eq!(tally.barcode, barcode);
    (
        tally.maternal_count,
        tally.transmitted_count,
        tally.reference_count,
        tally.paternal_count,
    )
}

fn sorted_labels(table: &EvidenceTable) -> Vec<(String, HaplotypeClass)> {
    let mut labels = table.classify_all();
    labels.sort_by(|a, b| a.0.cmp(&b.0));
    labels
}

#[test]
fn new_table_is_empty() {
    let table = EvidenceTable::new();
    assert!(table.barcodes().is_empty());
    assert!(table.classify_all().is_empty());
    assert!(table.get("ACGTGA").is_none());
    assert!(table.fits());
}

#[test]
fn new_site_table_is_empty() {
    let sites = SiteTable::new();
    assert!(sites.sites().is_empty());
    assert!(sites.get((20, 12334534)).is_none());
    assert!(sites.fits());
    let tally = EvidenceTable::tally_barcode(&sites, "ACGTGA");
    assert_eq!(tally.barcode, "ACGTGA");
    assert_eq!(tally.maternal_count, 0);
    assert_eq!(tally.transmitted_count, 0);
    assert_eq!(tally.reference_count, 0);
    assert_eq!(tally.paternal_count, 0);
}

#[test]
fn first_update_creates_barcode_and_site() {
    let mut table = EvidenceTable::new();
    table.update_site_data("ACGTGA", (20, 12334534), 1, EvidenceType::Maternal);
    assert_eq!(table.barcodes(), vec!["ACGTGA".to_string()]);
    let sites = table.get("ACGTGA").expect("barcode was created");
    assert_eq!(sites.sites(), vec![(20, 12334534)]);
    assert_eq!(
        sites.get((20, 12334534)),
        Some(&vec![(EvidenceType::Maternal, 1)])
    );
}

#[test]
fn updates_append_in_order_and_never_merge() {
    let mut table = EvidenceTable::new();
    table.update_site_data("ACGTGA", (20, 12334534), 1, EvidenceType::Maternal);
    table.update_site_data("ACGTGA", (20, 12334534), 1, EvidenceType::Reference);
    table.update_site_data("ACGTTT", (20, 12334112), 1, EvidenceType::Transmitted);
    table.update_site_data("ACGTGA", (20, 12312321), 1, EvidenceType::Maternal);
    table.update_site_data("ACGTGA", (20, 12334534), 1, EvidenceType::Maternal);

    let mut barcodes = table.barcodes();
    barcodes.sort();
    assert_eq!(barcodes, vec!["ACGTGA".to_string(), "ACGTTT".to_string()]);

    let first = table.get("ACGTGA").expect("barcode was created");
    let mut sites = first.sites();
    sites.sort();
    assert_eq!(sites, vec![(20, 12312321), (20, 12334534)]);
    assert_eq!(
        first.get((20, 12334534)),
        Some(&vec![
            (EvidenceType::Maternal, 1),
            (EvidenceType::Reference, 1),
            (EvidenceType::Maternal, 1),
        ])
    );
    assert_eq!(
        first.get((20, 12312321)),
        Some(&vec![(EvidenceType::Maternal, 1)])
    );
    assert!(first.get((20, 12334112)).is_none());

    let second = table.get("ACGTTT").expect("barcode was created");
    assert_eq!(second.sites(), vec![(20, 12334112)]);
    assert_eq!(
        second.get((20, 12334112)),
        Some(&vec![(EvidenceType::Transmitted, 1)])
    );
}

#[test]
fn sites_are_told_apart_by_contig_and_position() {
    let mut sites = SiteTable::new();
    sites.add_entry((1, 100), 1, EvidenceType::Maternal);
    sites.add_entry((2, 100), 1, EvidenceType::Transmitted);
    sites.add_entry((1, 101), 1, EvidenceType::Reference);
    sites.add_entry((1, -1), 1, EvidenceType::Paternal);
    sites.add_entry((1, 100), 1, EvidenceType::Paternal);
    assert_eq!(sites.sites().len(), 4);
    assert_eq!(
        sites.get((1, 100)),
        Some(&vec![(EvidenceType::Maternal, 1), (EvidenceType::Paternal, 1)])
    );
    assert_eq!(sites.get((2, 100)), Some(&vec![(EvidenceType::Transmitted, 1)]));
    assert_eq!(sites.get((1, 101)), Some(&vec![(EvidenceType::Reference, 1)]));
    assert_eq!(sites.get((1, -1)), Some(&vec![(EvidenceType::Paternal, 1)]));
    assert!(sites.get((2, 101)).is_none());
}

#[test]
fn barcodes_are_told_apart_by_their_text() {
    let mut table = EvidenceTable::new();
    table.update_site_data("ACGT", (1, 1), 1, EvidenceType::Maternal);
    table.update_site_data("ACGTA", (1, 1), 1, EvidenceType::Transmitted);
    table.update_site_data("", (1, 1), 1, EvidenceType::Reference);
    table.update_site_data("acgt", (1, 1), 1, EvidenceType::Paternal);
    assert_eq!(table.barcodes().len(), 4);
    assert_eq!(totals_of(&table, "ACGT"), (1, 0, 0, 0));
    assert_eq!(totals_of(&table, "ACGTA"), (0, 1, 0, 0));
    assert_eq!(totals_of(&table, ""), (0, 0, 1, 0));
    assert_eq!(totals_of(&table, "acgt"), (0, 0, 0, 1));
    assert!(table.get("ACG").is_none());
}

#[test]
fn tally_sums_every_category_over_every_site() {
    let mut table = EvidenceTable::new();
    table.update_site_data("ACGTGA", (20, 100), 1, EvidenceType::Maternal);
    table.update_site_data("ACGTGA", (20, 100), 2, EvidenceType::Transmitted);
    table.update_site_data("ACGTGA", (20, 200), 3, EvidenceType::Reference);
    table.update_site_data("ACGTGA", (21, 100), 4, EvidenceType::Paternal);
    table.update_site_data("ACGTGA", (21, 100), 5, EvidenceType::Maternal);
    table.update_site_data("ACGTGA", (22, 7), 0, EvidenceType::Transmitted);
    table.update_site_data("ACGTGA", (22, 7), 6, EvidenceType::Transmitted);
    assert_eq!(totals_of(&table, "ACGTGA"), (6, 8, 3, 4));
}

#[test]
fn tally_does_not_depend_on_the_order_of_updates() {
    let updates = [
        ((20, 100), EvidenceType::Maternal, 1),
        ((20, 100), EvidenceType::Reference, 2),
        ((20, 200), EvidenceType::Transmitted, 3),
        ((21, 5), EvidenceType::Paternal, 4),
        ((20, 200), EvidenceType::Maternal, 5),
        ((20, 100), EvidenceType::Transmitted, 6),
    ];
    let orders: [[usize; 6]; 4] = [
        [0, 1, 2, 3, 4, 5],
        [5, 4, 3, 2, 1, 0],
        [2, 0, 5, 1, 4, 3],
        [3, 5, 1, 4, 0, 2],
    ];
    for order in orders {
        let mut table = EvidenceTable::new();
        for index in order {
            let (site, kind, count) = updates[index];
            table.update_site_data("ACGTGA", site, count, kind);
        }
        assert_eq!(totals_of(&table, "ACGTGA"), (6, 9, 2, 4));
    }
}

#[test]
fn totals_add_up_to_the_number_of_unit_updates() {
    let kinds = [
        EvidenceType::Maternal,
        EvidenceType::Transmitted,
        EvidenceType::Reference,
        EvidenceType::Paternal,
        EvidenceType::Reference,
    ];
    let mut table = EvidenceTable::new();
    let mut recorded = 0;
    for round in 0..37i64 {
        let kind = kinds[(round % 5) as usize];
        table.update_site_data("ACGTGA", (20, round % 7), 1, kind);
        recorded += 1;
        let (maternal, transmitted, reference, paternal) = totals_of(&table, "ACGTGA");
        assert_eq!(maternal + transmitted + reference + paternal, recorded);
    }
    assert_eq!(totals_of(&table, "ACGTGA"), (8, 8, 14, 7));
}

#[test]
fn updates_for_one_barcode_leave_the_others_alone() {
    let mut table = EvidenceTable::new();
    table.update_site_data("TTTT", (20, 100), 1, EvidenceType::Maternal);
    table.update_site_data("TTTT", (20, 200), 1, EvidenceType::Reference);
    assert_eq!(totals_of(&table, "TTTT"), (1, 0, 1, 0));
    table.update_site_data("GGGG", (20, 100), 1, EvidenceType::Transmitted);
    table.update_site_data("GGGG", (20, 200), 5, EvidenceType::Maternal);
    table.update_site_data("GGGG", (20, 300), 1, EvidenceType::Paternal);
    assert_eq!(totals_of(&table, "TTTT"), (1, 0, 1, 0));
    let sites = table.get("TTTT").expect("barcode was created");
    assert_eq!(sites.get((20, 100)), Some(&vec![(EvidenceType::Maternal, 1)]));
    assert_eq!(sites.get((20, 200)), Some(&vec![(EvidenceType::Reference, 1)]));
    assert!(sites.get((20, 300)).is_none());
    assert_eq!(totals_of(&table, "GGGG"), (5, 1, 0, 1));
}

#[test]
fn classify_all_labels_each_barcode_once() {
    let mut table = EvidenceTable::new();
    table.update_site_data("AAAA", (1, 10), 1, EvidenceType::Maternal);
    table.update_site_data("AAAA", (1, 20), 1, EvidenceType::Maternal);
    table.update_site_data("AAAA", (1, 30), 1, EvidenceType::Transmitted);
    table.update_site_data("CCCC", (1, 10), 1, EvidenceType::Transmitted);
    table.update_site_data("GGGG", (1, 10), 1, EvidenceType::Reference);
    table.update_site_data("TTTT", (1, 10), 1, EvidenceType::Maternal);
    table.update_site_data("TTTT", (1, 10), 1, EvidenceType::Transmitted);
    table.update_site_data("NNNN", (1, 10), 3, EvidenceType::Paternal);
    table.update_site_data("NNNN", (1, 10), 1, EvidenceType::Maternal);
    assert_eq!(
        sorted_labels(&table),
        vec![
            ("AAAA".to_string(), HaplotypeClass::Maternal),
            ("CCCC".to_string(), HaplotypeClass::Transmitted),
            ("GGGG".to_string(), HaplotypeClass::Transmitted),
            ("NNNN".to_string(), HaplotypeClass::Maternal),
            ("TTTT".to_string(), HaplotypeClass::Transmitted),
        ]
    );
}

#[test]
fn totals_that_reach_the_limit_fit() {
    let mut table = EvidenceTable::new();
    table.update_site_data("AAAA", (1, 10), i32::MAX - 1, EvidenceType::Maternal);
    table.update_site_data("AAAA", (1, 20), 1, EvidenceType::Maternal);
    table.update_site_data("AAAA", (1, 20), i32::MAX, EvidenceType::Transmitted);
    table.update_site_data("CCCC", (1, 10), i32::MAX, EvidenceType::Maternal);
    assert!(table.fits());
    assert!(table.get("AAAA").expect("barcode was created").fits());
    assert_eq!(totals_of(&table, "AAAA"), (i32::MAX, i32::MAX, 0, 0));
    assert_eq!(
        sorted_labels(&table),
        vec![
            ("AAAA".to_string(), HaplotypeClass::Transmitted),
            ("CCCC".to_string(), HaplotypeClass::Maternal),
        ]
    );
}

#[test]
fn totals_beyond_the_limit_do_not_fit() {
    for kind in [
        EvidenceType::Maternal,
        EvidenceType::Transmitted,
        EvidenceType::Reference,
        EvidenceType::Paternal,
    ] {
        let mut table = EvidenceTable::new();
        table.update_site_data("AAAA", (1, 10), 1, EvidenceType::Maternal);
        table.update_site_data("CCCC", (1, 10), i32::MAX, kind);
        assert!(table.fits());
        table.update_site_data("CCCC", (2, 10), 1, kind);
        assert!(!table.fits());
        assert!(table.get("AAAA").expect("barcode was created").fits());
        assert!(!table.get("CCCC").expect("barcode was created").fits());
    }
}

#[test]
fn totals_beyond_the_limit_at_one_site_do_not_fit() {
    let mut sites = SiteTable::new();
    sites.add_entry((1, 10), i32::MAX, EvidenceType::Reference);
    sites.add_entry((1, 10), i32::MAX, EvidenceType::Paternal);
    assert!(sites.fits());
    sites.add_entry((1, 10), i32::MAX, EvidenceType::Reference);
    assert!(!sites.fits());
}

#[test]
fn evidence_types_print_as_their_names() {
    assert_eq!(format!("{:?}", EvidenceType::Maternal), "Maternal");
    assert_eq!(format!("{:?}", EvidenceType::Transmitted), "Transmitted");
    assert_eq!(format!("{:?}", EvidenceType::Reference), "Reference");
    assert_eq!(format!("{:?}", EvidenceType::Paternal), "Paternal");
}
