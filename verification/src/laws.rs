//! What holds of the evidence table and the classifier as a whole.

use vstd::prelude::*;
use crate::collect::{collected, read_outcome, snv_base, tag_text, BarcodeTag, PileupRead};
use crate::error::EvidenceError;
use crate::evidence::{BarcodeTally, EvidenceType};
use crate::map_sum::{keys_sum, lemma_keys_sum_empty, lemma_keys_sum_remove, lemma_map_sum_empty};
use crate::model::{
    barcode_total, entries_total, entry_amount, length_weight, lemma_sites_entry_count_append,
    lemma_sites_total_append, site_map_append, sites_entry_count, sites_of, sites_total,
    table_append, total_weight, EvidenceEntry, SiteKey, SiteMap, TableMap,
};

verus! {

/// One update of the table for a barcode: the site, the category and the
/// count.
pub type Update = (SiteKey, EvidenceType, i32);

/// What `update` adds to the counter of `kind`.
pub open spec fn update_amount(update: Update, kind: EvidenceType) -> int {
    entry_amount((update.1, update.2), kind)
}

/// What `updates` add to the counter of `kind`.
pub open spec fn updates_total(updates: Seq<Update>, kind: EvidenceType) -> int
    decreases updates.len(),
{
    if updates.len() == 0 {
        0
    } else {
        updates_total(updates.drop_last(), kind) + update_amount(updates.last(), kind)
    }
}

/// `table` after `updates` were recorded for `barcode`, one after the other.
pub open spec fn apply_updates(table: TableMap, barcode: Seq<char>, updates: Seq<Update>) -> TableMap
    decreases updates.len(),
{
    if updates.len() == 0 {
        table
    } else {
        table_append(
            apply_updates(table, barcode, updates.drop_last()),
            barcode,
            updates.last().0,
            (updates.last().1, updates.last().2),
        )
    }
}

/// Every entry of `sites` stands for exactly one read.
pub open spec fn unit_counts(sites: SiteMap) -> bool {
    forall|site: SiteKey, j: int|
        sites.contains_key(site) && 0 <= j < sites[site].len() ==> (#[trigger] sites[site][j]).1
            == 1
}

/// The sum of the four totals that `table` holds for `barcode`.
pub open spec fn barcode_total_sum(table: TableMap, barcode: Seq<char>) -> int {
    barcode_total(table, barcode, EvidenceType::Maternal) + barcode_total(
        table,
        barcode,
        EvidenceType::Transmitted,
    ) + barcode_total(table, barcode, EvidenceType::Reference) + barcode_total(
        table,
        barcode,
        EvidenceType::Paternal,
    )
}

/// Taking one update out of a sequence takes its amount out of the total.
proof fn lemma_updates_total_remove(updates: Seq<Update>, i: int, kind: EvidenceType)
    requires
        0 <= i < updates.len(),
    ensures
        updates_total(updates, kind) == updates_total(updates.remove(i), kind) + update_amount(
            updates[i],
            kind,
        ),
    decreases updates.len(),
{
    if i == updates.len() - 1 {
        assert(updates.remove(i) =~= updates.drop_last());
    } else {
        lemma_updates_total_remove(updates.drop_last(), i, kind);
        assert(updates.remove(i).drop_last() =~= updates.drop_last().remove(i));
        assert(updates.remove(i).last() == updates.last());
    }
}

/// Two sequences of the same updates add the same to every counter, in
/// whatever order they stand.
pub proof fn lemma_updates_total_reordered(
    first: Seq<Update>,
    second: Seq<Update>,
    kind: EvidenceType,
)
    requires
        first.to_multiset() == second.to_multiset(),
    ensures
        updates_total(first, kind) == updates_total(second, kind),
    decreases first.len(),
{
    first.to_multiset_ensures();
    second.to_multiset_ensures();
    if first.len() > 0 {
        let last = first.last();
        assert(first[first.len() - 1] == last);
        assert(first.contains(last));
        assert(first.to_multiset().count(last) > 0);
        assert(second.to_multiset().count(last) > 0);
        assert(second.contains(last));
        let j = choose|j: int| 0 <= j < second.len() && second[j] == last;
        assert(first.remove(first.len() - 1) =~= first.drop_last());
        assert(first.drop_last().to_multiset() =~= second.remove(j).to_multiset());
        lemma_updates_total_reordered(first.drop_last(), second.remove(j), kind);
        lemma_updates_total_remove(second, j, kind);
    }
}

/// Updates for a barcode add their amounts to the totals of that barcode.
pub proof fn lemma_updates_add_up(
    table: TableMap,
    barcode: Seq<char>,
    updates: Seq<Update>,
    kind: EvidenceType,
)
    requires
        sites_of(table, barcode).dom().finite(),
    ensures
        sites_of(apply_updates(table, barcode, updates), barcode).dom().finite(),
        barcode_total(apply_updates(table, barcode, updates), barcode, kind) == barcode_total(
            table,
            barcode,
            kind,
        ) + updates_total(updates, kind),
    decreases updates.len(),
{
    if updates.len() > 0 {
        let front = apply_updates(table, barcode, updates.drop_last());
        let last = updates.last();
        lemma_updates_add_up(table, barcode, updates.drop_last(), kind);
        lemma_sites_total_append(sites_of(front, barcode), last.0, (last.1, last.2), kind);
    }
}

/// Tallying is commutative and associative: the same updates for a
/// barcode, recorded in any order, give the same totals for that barcode.
pub proof fn lemma_tally_order_independent(
    table: TableMap,
    barcode: Seq<char>,
    first: Seq<Update>,
    second: Seq<Update>,
    kind: EvidenceType,
)
    requires
        sites_of(table, barcode).dom().finite(),
        first.to_multiset() == second.to_multiset(),
    ensures
        barcode_total(apply_updates(table, barcode, first), barcode, kind) == barcode_total(
            apply_updates(table, barcode, second),
            barcode,
            kind,
        ),
{
    lemma_updates_add_up(table, barcode, first, kind);
    lemma_updates_add_up(table, barcode, second, kind);
    lemma_updates_total_reordered(first, second, kind);
}

/// An entry list whose entries stand for one read each totals, over the
/// four categories, to its length.
proof fn lemma_entries_unit_sum(entries: Seq<EvidenceEntry>)
    requires
        forall|j: int| 0 <= j < entries.len() ==> (#[trigger] entries[j]).1 == 1,
    ensures
        entries_total(entries, EvidenceType::Maternal) + entries_total(
            entries,
            EvidenceType::Transmitted,
        ) + entries_total(entries, EvidenceType::Reference) + entries_total(
            entries,
            EvidenceType::Paternal,
        ) == entries.len(),
    decreases entries.len(),
{
    if entries.len() > 0 {
        let front = entries.drop_last();
        assert forall|j: int| 0 <= j < front.len() implies (#[trigger] front[j]).1 == 1 by {
            assert(front[j] == entries[j]);
        }
        lemma_entries_unit_sum(front);
        assert(entries[entries.len() - 1].1 == 1);
    }
}

/// Over any finite set of sites whose entries stand for one read each, the
/// four totals add up to the number of entries.
proof fn lemma_unit_sum_over(sites: SiteMap, keys: Set<SiteKey>)
    requires
        keys.finite(),
        keys.subset_of(sites.dom()),
        unit_counts(sites),
    ensures
        keys_sum(sites, keys, total_weight(EvidenceType::Maternal)) + keys_sum(
            sites,
            keys,
            total_weight(EvidenceType::Transmitted),
        ) + keys_sum(sites, keys, total_weight(EvidenceType::Reference)) + keys_sum(
            sites,
            keys,
            total_weight(EvidenceType::Paternal),
        ) == keys_sum(sites, keys, length_weight()),
    decreases keys.len(),
{
    if keys.is_empty() {
        assert(keys =~= Set::<SiteKey>::empty());
        lemma_keys_sum_empty(sites, total_weight(EvidenceType::Maternal));
        lemma_keys_sum_empty(sites, total_weight(EvidenceType::Transmitted));
        lemma_keys_sum_empty(sites, total_weight(EvidenceType::Reference));
        lemma_keys_sum_empty(sites, total_weight(EvidenceType::Paternal));
        lemma_keys_sum_empty(sites, length_weight());
    } else {
        let site = keys.choose();
        lemma_keys_sum_remove(sites, keys, site, total_weight(EvidenceType::Maternal));
        lemma_keys_sum_remove(sites, keys, site, total_weight(EvidenceType::Transmitted));
        lemma_keys_sum_remove(sites, keys, site, total_weight(EvidenceType::Reference));
        lemma_keys_sum_remove(sites, keys, site, total_weight(EvidenceType::Paternal));
        lemma_keys_sum_remove(sites, keys, site, length_weight());
        assert(sites.contains_key(site));
        lemma_entries_unit_sum(sites[site]);
        lemma_unit_sum_over(sites, keys.remove(site));
    }
}

/// Additivity: where every entry recorded for a barcode stands for one
/// read, the four totals of the barcode add up to the number of entries
/// recorded for it over all sites.
pub proof fn lemma_totals_count_entries(table: TableMap, barcode: Seq<char>)
    requires
        sites_of(table, barcode).dom().finite(),
        unit_counts(sites_of(table, barcode)),
    ensures
        barcode_total_sum(table, barcode) == sites_entry_count(sites_of(table, barcode)),
{
    let sites = sites_of(table, barcode);
    lemma_unit_sum_over(sites, sites.dom());
}

/// Each update recorded for a barcode is one more entry recorded for it.
pub proof fn lemma_updates_are_entries(table: TableMap, barcode: Seq<char>, updates: Seq<Update>)
    requires
        sites_of(table, barcode).dom().finite(),
    ensures
        sites_of(apply_updates(table, barcode, updates), barcode).dom().finite(),
        sites_entry_count(sites_of(apply_updates(table, barcode, updates), barcode))
            == sites_entry_count(sites_of(table, barcode)) + updates.len(),
    decreases updates.len(),
{
    if updates.len() > 0 {
        let front = apply_updates(table, barcode, updates.drop_last());
        let last = updates.last();
        lemma_updates_are_entries(table, barcode, updates.drop_last());
        lemma_sites_entry_count_append(sites_of(front, barcode), last.0, (last.1, last.2));
    }
}

/// Updates of one read each add, over the four categories, as much as there
/// are updates.
proof fn lemma_unit_updates_sum(updates: Seq<Update>)
    requires
        forall|i: int| 0 <= i < updates.len() ==> (#[trigger] updates[i]).2 == 1,
    ensures
        updates_total(updates, EvidenceType::Maternal) + updates_total(
            updates,
            EvidenceType::Transmitted,
        ) + updates_total(updates, EvidenceType::Reference) + updates_total(
            updates,
            EvidenceType::Paternal,
        ) == updates.len(),
    decreases updates.len(),
{
    if updates.len() > 0 {
        let front = updates.drop_last();
        assert forall|i: int| 0 <= i < front.len() implies (#[trigger] front[i]).2 == 1 by {
            assert(front[i] == updates[i]);
        }
        lemma_unit_updates_sum(front);
        assert(updates[updates.len() - 1].2 == 1);
    }
}

/// Additivity, from the empty table: after updates of one read each, the
/// four totals of the barcode add up to the number of updates.
pub proof fn lemma_totals_count_updates(barcode: Seq<char>, updates: Seq<Update>)
    requires
        forall|i: int| 0 <= i < updates.len() ==> (#[trigger] updates[i]).2 == 1,
    ensures
        barcode_total_sum(apply_updates(Map::empty(), barcode, updates), barcode) == updates.len(),
{
    let empty = Map::<Seq<char>, SiteMap>::empty();
    assert(sites_of(empty, barcode) =~= Map::<SiteKey, Seq<EvidenceEntry>>::empty());
    lemma_map_sum_empty::<SiteKey, Seq<EvidenceEntry>>(total_weight(EvidenceType::Maternal));
    lemma_map_sum_empty::<SiteKey, Seq<EvidenceEntry>>(total_weight(EvidenceType::Transmitted));
    lemma_map_sum_empty::<SiteKey, Seq<EvidenceEntry>>(total_weight(EvidenceType::Reference));
    lemma_map_sum_empty::<SiteKey, Seq<EvidenceEntry>>(total_weight(EvidenceType::Paternal));
    lemma_updates_add_up(empty, barcode, updates, EvidenceType::Maternal);
    lemma_updates_add_up(empty, barcode, updates, EvidenceType::Transmitted);
    lemma_updates_add_up(empty, barcode, updates, EvidenceType::Reference);
    lemma_updates_add_up(empty, barcode, updates, EvidenceType::Paternal);
    lemma_unit_updates_sum(updates);
}

/// Determinism of classification: the label of a tally is a function of
/// its maternal and its transmitted counter alone.
pub proof fn lemma_class_of_two_counters(one: BarcodeTally, other: BarcodeTally)
    requires
        one.maternal_count == other.maternal_count,
        one.transmitted_count == other.transmitted_count,
    ensures
        one.class() == other.class(),
{
}

/// Isolation: an update for one barcode leaves what the table holds for
/// every other barcode, and so its totals, as they are.
pub proof fn lemma_update_isolated(
    table: TableMap,
    updated: Seq<char>,
    other: Seq<char>,
    site: SiteKey,
    entry: EvidenceEntry,
    kind: EvidenceType,
)
    requires
        updated != other,
    ensures
        table_append(table, updated, site, entry).contains_key(other) == table.contains_key(other),
        sites_of(table_append(table, updated, site, entry), other) == sites_of(table, other),
        barcode_total(table_append(table, updated, site, entry), other, kind) == barcode_total(
            table,
            other,
            kind,
        ),
{
}

/// Isolation, for any number of updates: updates for one barcode leave the
/// totals of every other barcode as they are.
pub proof fn lemma_updates_isolated(
    table: TableMap,
    updated: Seq<char>,
    other: Seq<char>,
    updates: Seq<Update>,
    kind: EvidenceType,
)
    requires
        updated != other,
    ensures
        apply_updates(table, updated, updates).contains_key(other) == table.contains_key(other),
        sites_of(apply_updates(table, updated, updates), other) == sites_of(table, other),
        barcode_total(apply_updates(table, updated, updates), other, kind) == barcode_total(
            table,
            other,
            kind,
        ),
    decreases updates.len(),
{
    if updates.len() > 0 {
        lemma_updates_isolated(table, updated, other, updates.drop_last(), kind);
    }
}

/// The table only grows: an update removes no barcode and no site, and
/// what was recorded at a site stays, in its order, in front of what is
/// new.
pub proof fn lemma_update_only_grows(
    table: TableMap,
    barcode: Seq<char>,
    site: SiteKey,
    entry: EvidenceEntry,
    held: Seq<char>,
    at: SiteKey,
)
    requires
        table.contains_key(held),
        table[held].contains_key(at),
    ensures
        table_append(table, barcode, site, entry).contains_key(held),
        table_append(table, barcode, site, entry)[held].contains_key(at),
        table[held][at].is_prefix_of(table_append(table, barcode, site, entry)[held][at]),
{
}

/// The single-base filter: where the first alternate allele has more than
/// one base, no read leaves an entry in the table.
pub proof fn lemma_multi_base_alt_records_nothing(
    table: TableMap,
    site: SiteKey,
    alleles: Seq<Vec<u8>>,
    vartype: EvidenceType,
    reads: Seq<PileupRead>,
)
    requires
        alleles.len() >= 2,
        alleles[1]@.len() > 1,
    ensures
        snv_base(alleles) is None,
        forall|i: int|
            0 <= i < reads.len() ==> !(read_outcome(#[trigger] reads[i], snv_base(alleles), vartype)
                matches Ok(Some(_))),
        collected(table, site, snv_base(alleles), vartype, reads).0 == table,
    decreases reads.len(),
{
    if reads.len() > 0 {
        lemma_multi_base_alt_records_nothing(table, site, alleles, vartype, reads.drop_first());
        assert forall|i: int| 0 <= i < reads.len() implies !(read_outcome(
            #[trigger] reads[i],
            snv_base(alleles),
            vartype,
        ) matches Ok(Some(_))) by {}
    }
}

/// Reads without a barcode tag leave no trace: whatever the site, they add
/// no entry and no barcode to the table, and they do not fail.
pub proof fn lemma_untagged_reads_record_nothing(
    table: TableMap,
    site: SiteKey,
    alt: Option<u8>,
    vartype: EvidenceType,
    reads: Seq<PileupRead>,
)
    requires
        forall|i: int| 0 <= i < reads.len() ==> (#[trigger] reads[i]).barcode is Absent,
    ensures
        collected(table, site, alt, vartype, reads) == (table, None::<EvidenceError>),
    decreases reads.len(),
{
    if reads.len() > 0 {
        let rest = reads.drop_first();
        assert(reads[0].barcode is Absent);
        assert forall|i: int| 0 <= i < rest.len() implies (#[trigger] rest[i]).barcode is Absent by {
            assert(rest[i] == reads[i + 1]);
        }
        lemma_untagged_reads_record_nothing(table, site, alt, vartype, rest);
    }
}

/// The barcodes of the table after a pass are those it had before and
/// those that tagged reads of the pass carry; a read without tag adds none.
pub proof fn lemma_collected_barcodes(
    table: TableMap,
    site: SiteKey,
    alt: Option<u8>,
    vartype: EvidenceType,
    reads: Seq<PileupRead>,
    barcode: Seq<char>,
)
    requires
        collected(table, site, alt, vartype, reads).0.contains_key(barcode),
    ensures
        table.contains_key(barcode) || exists|i: int|
            0 <= i < reads.len() && (#[trigger] reads[i]).barcode is Text && tag_text(
                reads[i].barcode,
            ) == barcode,
    decreases reads.len(),
{
    if reads.len() > 0 {
        let rest = reads.drop_first();
        match read_outcome(reads[0], alt, vartype) {
            Err(_) => {},
            Ok(None) => {
                lemma_collected_barcodes(table, site, alt, vartype, rest, barcode);
                if !table.contains_key(barcode) {
                    let i = choose|i: int|
                        0 <= i < rest.len() && (#[trigger] rest[i]).barcode is Text && tag_text(
                            rest[i].barcode,
                        ) == barcode;
                    assert(reads[i + 1] == rest[i]);
                }
            },
            Ok(Some(kind)) => {
                let grown = table_append(table, tag_text(reads[0].barcode), site, (kind, 1i32));
                lemma_collected_barcodes(grown, site, alt, vartype, rest, barcode);
                if !table.contains_key(barcode) {
                    if grown.contains_key(barcode) {
                        assert(reads[0].barcode is Text);
                        assert(tag_text(reads[0].barcode) == barcode);
                    } else {
                        let i = choose|i: int|
                            0 <= i < rest.len() && (#[trigger] rest[i]).barcode is Text
                                && tag_text(rest[i].barcode) == barcode;
                        assert(reads[i + 1] == rest[i]);
                    }
                }
            },
        }
    }
}

} // verus!
