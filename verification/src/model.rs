//! The mathematical model of the evidence table: what it holds, what an
//! update does to it, and what the tally of a barcode is.

use vstd::prelude::*;
use crate::evidence::EvidenceType;
use crate::map_sum::{lemma_map_sum_insert, map_sum};

verus! {

/// A genomic site: contig identifier and 0-based position.
pub type SiteKey = (u32, i64);

/// One observation: the evidence category and the number of reads behind it.
pub type EvidenceEntry = (EvidenceType, i32);

/// What one barcode holds: for each site the entries in the order recorded.
pub type SiteMap = Map<SiteKey, Seq<EvidenceEntry>>;

/// What the table holds: the site map of each barcode.
pub type TableMap = Map<Seq<char>, SiteMap>;

/// What `entry` adds to the counter of `kind`.
pub open spec fn entry_amount(entry: EvidenceEntry, kind: EvidenceType) -> int {
    if entry.0 == kind {
        entry.1 as int
    } else {
        0
    }
}

/// The sum of the counts of the entries of category `kind`.
pub open spec fn entries_total(entries: Seq<EvidenceEntry>, kind: EvidenceType) -> int
    decreases entries.len(),
{
    if entries.len() == 0 {
        0
    } else {
        entries_total(entries.drop_last(), kind) + entry_amount(entries.last(), kind)
    }
}

/// The weight of an entry list when the counts of category `kind` are summed.
pub open spec fn total_weight(kind: EvidenceType) -> spec_fn(Seq<EvidenceEntry>) -> int {
    |entries: Seq<EvidenceEntry>| entries_total(entries, kind)
}

/// The weight of an entry list when entries are counted.
pub open spec fn length_weight() -> spec_fn(Seq<EvidenceEntry>) -> int {
    |entries: Seq<EvidenceEntry>| entries.len() as int
}

/// The sum, over every site of `sites`, of the counts of category `kind`.
pub open spec fn sites_total(sites: SiteMap, kind: EvidenceType) -> int {
    map_sum(sites, total_weight(kind))
}

/// The number of entries recorded over every site of `sites`.
pub open spec fn sites_entry_count(sites: SiteMap) -> int {
    map_sum(sites, length_weight())
}

/// Each of the four totals of `sites` fits the counter type of a tally.
pub open spec fn totals_fit(sites: SiteMap) -> bool {
    forall|kind: EvidenceType| #[trigger] sites_total(sites, kind) <= i32::MAX
}

/// `sites` after `entry` was recorded for `site`: appended to the entry list
/// of the site, which is created on first use.
pub open spec fn site_map_append(sites: SiteMap, site: SiteKey, entry: EvidenceEntry) -> SiteMap {
    sites.insert(
        site,
        if sites.contains_key(site) {
            sites[site].push(entry)
        } else {
            seq![entry]
        },
    )
}

/// The site map of `barcode` in `table`, empty where the barcode is unknown.
pub open spec fn sites_of(table: TableMap, barcode: Seq<char>) -> SiteMap {
    if table.contains_key(barcode) {
        table[barcode]
    } else {
        Map::empty()
    }
}

/// `table` after `entry` was recorded for `barcode` at `site`. The site map
/// of the barcode is created on first use.
pub open spec fn table_append(
    table: TableMap,
    barcode: Seq<char>,
    site: SiteKey,
    entry: EvidenceEntry,
) -> TableMap {
    table.insert(barcode, site_map_append(sites_of(table, barcode), site, entry))
}

/// The total of category `kind` that `table` holds for `barcode`.
pub open spec fn barcode_total(table: TableMap, barcode: Seq<char>, kind: EvidenceType) -> int {
    sites_total(sites_of(table, barcode), kind)
}

/// The totals of every barcode of `table` fit the counter type of a tally.
pub open spec fn all_totals_fit(table: TableMap) -> bool {
    forall|barcode: Seq<char>| table.contains_key(barcode) ==> totals_fit(#[trigger] table[barcode])
}

/// No entry of `entries` has a negative count.
pub open spec fn entries_nonneg(entries: Seq<EvidenceEntry>) -> bool {
    forall|j: int| 0 <= j < entries.len() ==> (#[trigger] entries[j]).1 >= 0
}

/// One more entry at the end adds its amount to the total.
pub proof fn lemma_entries_total_push(
    entries: Seq<EvidenceEntry>,
    entry: EvidenceEntry,
    kind: EvidenceType,
)
    ensures
        entries_total(entries.push(entry), kind) == entries_total(entries, kind) + entry_amount(
            entry,
            kind,
        ),
{
    assert(entries.push(entry).drop_last() =~= entries);
}

/// Recording an entry adds its amount to the total of its category and
/// leaves the other totals as they are.
pub proof fn lemma_sites_total_append(
    sites: SiteMap,
    site: SiteKey,
    entry: EvidenceEntry,
    kind: EvidenceType,
)
    requires
        sites.dom().finite(),
    ensures
        site_map_append(sites, site, entry).dom().finite(),
        sites_total(site_map_append(sites, site, entry), kind) == sites_total(sites, kind)
            + entry_amount(entry, kind),
{
    let grown = if sites.contains_key(site) {
        sites[site].push(entry)
    } else {
        seq![entry]
    };
    if sites.contains_key(site) {
        lemma_entries_total_push(sites[site], entry, kind);
    } else {
        lemma_entries_total_push(Seq::empty(), entry, kind);
        assert(Seq::<EvidenceEntry>::empty().push(entry) =~= seq![entry]);
    }
    lemma_map_sum_insert(sites, site, grown, total_weight(kind));
}

/// Recording an entry adds one to the number of entries.
pub proof fn lemma_sites_entry_count_append(sites: SiteMap, site: SiteKey, entry: EvidenceEntry)
    requires
        sites.dom().finite(),
    ensures
        site_map_append(sites, site, entry).dom().finite(),
        sites_entry_count(site_map_append(sites, site, entry)) == sites_entry_count(sites) + 1,
{
    let grown = if sites.contains_key(site) {
        sites[site].push(entry)
    } else {
        seq![entry]
    };
    lemma_map_sum_insert(sites, site, grown, length_weight());
}

/// Taking one more entry adds its amount.
pub proof fn lemma_entries_total_step(entries: Seq<EvidenceEntry>, n: int, kind: EvidenceType)
    requires
        0 <= n < entries.len(),
    ensures
        entries_total(entries.take(n + 1), kind) == entries_total(entries.take(n), kind)
            + entry_amount(entries[n], kind),
{
    assert(entries.take(n + 1).drop_last() =~= entries.take(n));
}

/// Without negative counts, a prefix totals to no more than the whole, and
/// to no less than zero.
pub proof fn lemma_entries_total_prefix(entries: Seq<EvidenceEntry>, n: int, kind: EvidenceType)
    requires
        0 <= n <= entries.len(),
        entries_nonneg(entries),
    ensures
        0 <= entries_total(entries.take(n), kind) <= entries_total(entries, kind),
    decreases entries.len(),
{
    if n == entries.len() {
        assert(entries.take(n) =~= entries);
        if n > 0 {
            lemma_entries_total_prefix(entries.drop_last(), n - 1, kind);
            assert(entries.drop_last().take(n - 1) =~= entries.drop_last());
        }
    } else {
        assert(entries.drop_last().take(n) =~= entries.take(n));
        lemma_entries_total_prefix(entries.drop_last(), n, kind);
    }
}

} // verus!
