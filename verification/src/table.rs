//! The evidence table: barcode to site to the entries recorded there.

use std::collections::HashMap;
use vstd::hash_map::StringHashMap;
use vstd::prelude::*;
use crate::assoc::{
    assoc_map, assoc_sum, distinct_keys, has_key, lemma_assoc_dom, lemma_assoc_get,
    lemma_assoc_push, lemma_assoc_sum, lemma_assoc_sum_prefix, lemma_assoc_sum_step,
    lemma_assoc_len, lemma_assoc_update,
};
use crate::evidence::{class_of, BarcodeTally, EvidenceType, HaplotypeClass};
use crate::model::{
    all_totals_fit, barcode_total, entries_nonneg, entries_total,
    lemma_entries_total_prefix, lemma_entries_total_step, site_map_append, sites_total,
    table_append, total_weight, totals_fit, EvidenceEntry, SiteKey, SiteMap, TableMap,
};

verus! {

/// The entries recorded at one site.
struct SiteRecord {
    site: (u32, i64),
    entries: Vec<(EvidenceType, i32)>,
}

/// The records of a site table, in the order of first use, and for each
/// site code the place of its record.
struct SiteStore {
    sites: Vec<SiteRecord>,
    index: HashMap<u128, usize>,
}

/// The sites of one barcode, each with its entries in the order recorded.
///
/// Stands for a map from site to entry list. The records are kept in the
/// order in which the sites were first used, and a hash index finds the
/// record of a site.
pub struct SiteTable {
    store: SiteStore,
}

/// The number that stands for a site in the index: the contig in the high
/// part, the position, shifted to be non-negative, in the low part.
spec fn site_code(site: SiteKey) -> u128 {
    (site.0 as int * 0x1_0000_0000_0000_0000 + (site.1 as int + 0x8000_0000_0000_0000)) as u128
}

/// Two sites with the same code are the same site.
proof fn lemma_site_code_injective(one: SiteKey, other: SiteKey)
    requires
        site_code(one) == site_code(other),
    ensures
        one == other,
{
}

/// Computes the code of a site.
fn code_of(site: (u32, i64)) -> (code: u128)
    ensures
        code == site_code(site),
{
    let high: u128 = site.0 as u128 * 0x1_0000_0000_0000_0000u128;
    let low: i128 = site.1 as i128 + 0x8000_0000_0000_0000i128;
    high + low as u128
}

/// The index finds every record by the code of its site, and nothing else.
spec fn indexed(sites: Seq<SiteRecord>, index: Map<u128, usize>) -> bool {
    &&& forall|i: int|
        0 <= i < sites.len() ==> index.contains_key(site_code((#[trigger] sites[i]).site))
            && index[site_code(sites[i].site)] == i
    &&& forall|code: u128| #[trigger]
        index.contains_key(code) ==> index[code] < sites.len() && site_code(
            sites[index[code] as int].site,
        ) == code
}

impl View for SiteTable {
    type V = SiteMap;

    closed spec fn view(&self) -> SiteMap {
        assoc_map(self.pairs())
    }
}

impl SiteTable {
    /// The sites with their entries, in the order of first use.
    spec fn pairs(self) -> Seq<(SiteKey, Seq<EvidenceEntry>)> {
        Seq::new(
            self.store.sites@.len(),
            |i: int| (self.store.sites@[i].site, self.store.sites@[i].entries@),
        )
    }

    #[verifier::type_invariant]
    spec fn well_formed(self) -> bool {
        &&& distinct_keys(self.pairs())
        &&& forall|i: int, j: int|
            0 <= i < self.store.sites@.len() && 0 <= j < self.store.sites@[i].entries@.len() ==> (
            #[trigger] self.store.sites@[i].entries@[j]).1 >= 0
        &&& indexed(self.store.sites@, self.store.index@)
    }

    /// A table without sites.
    pub fn new() -> (table: SiteTable)
        ensures
            table@ == Map::<SiteKey, Seq<EvidenceEntry>>::empty(),
    {
        let table = SiteTable { store: SiteStore { sites: Vec::new(), index: HashMap::new() } };
        assert(table.pairs() =~= Seq::empty());
        table
    }

    /// How the running totals of a pass over the sites relate to the totals
    /// of the map, at the step that takes in the site at `i`.
    proof fn lemma_site_bounds(self, i: int, kind: EvidenceType)
        requires
            self.well_formed(),
            0 <= i < self.store.sites@.len(),
        ensures
            sites_total(self@, kind) == assoc_sum(self.pairs(), total_weight(kind)),
            assoc_sum(self.pairs().take(i + 1), total_weight(kind)) == assoc_sum(
                self.pairs().take(i),
                total_weight(kind),
            ) + entries_total(self.store.sites@[i].entries@, kind),
            0 <= assoc_sum(self.pairs().take(i), total_weight(kind)),
            0 <= entries_total(self.store.sites@[i].entries@, kind),
            assoc_sum(self.pairs().take(i + 1), total_weight(kind)) <= sites_total(self@, kind),
            entries_nonneg(self.store.sites@[i].entries@),
    {
        let pairs = self.pairs();
        let weigh = total_weight(kind);
        assert forall|k: int| 0 <= k < pairs.len() implies weigh((#[trigger] pairs[k]).1) >= 0 by {
            let entries = self.store.sites@[k].entries@;
            assert(entries_nonneg(entries));
            lemma_entries_total_prefix(entries, entries.len() as int, kind);
            assert(entries.take(entries.len() as int) =~= entries);
        }
        lemma_assoc_sum(pairs, weigh);
        lemma_assoc_sum_step(pairs, i, weigh);
        lemma_assoc_sum_prefix(pairs, i, weigh);
        lemma_assoc_sum_prefix(pairs, i + 1, weigh);
        assert(entries_nonneg(self.store.sites@[i].entries@));
    }

    /// The entries recorded at `site`, in the order recorded, if there are
    /// any. No entry has a negative count.
    pub fn get(&self, site: (u32, i64)) -> (found: Option<&Vec<(EvidenceType, i32)>>)
        ensures
            match found {
                Some(entries) => self@.contains_key(site) && entries@ == self@[site]
                    && entries_nonneg(entries@),
                None => !self@.contains_key(site),
            },
    {
        proof {
            use_type_invariant(self);
            lemma_assoc_dom(self.pairs());
        }
        match self.position(site) {
            Some(i) => {
                proof {
                    lemma_assoc_get(self.pairs(), i as int);
                }
                Some(&self.store.sites[i].entries)
            },
            None => None,
        }
    }

    /// The sites of the table, each once, in no particular order.
    pub fn sites(&self) -> (list: Vec<(u32, i64)>)
        ensures
            list@.len() == self@.dom().len(),
            list@.no_duplicates(),
            forall|site: SiteKey| self@.contains_key(site) <==> list@.contains(site),
    {
        proof {
            use_type_invariant(self);
            lemma_assoc_dom(self.pairs());
            lemma_assoc_len(self.pairs());
        }
        let mut list: Vec<(u32, i64)> = Vec::new();
        let mut i: usize = 0;
        while i < self.store.sites.len()
            invariant
                i <= self.store.sites@.len(),
                list@.len() == i,
                forall|k: int| 0 <= k < i ==> #[trigger] list@[k] == self.pairs()[k].0,
            decreases self.store.sites@.len() - i,
        {
            list.push(self.store.sites[i].site);
            i += 1;
        }
        proof {
            let pairs = self.pairs();
            assert forall|site: SiteKey| self@.contains_key(site) <==> list@.contains(site) by {
                if self@.contains_key(site) {
                    let k = choose|k: int| 0 <= k < pairs.len() && (#[trigger] pairs[k]).0 == site;
                    assert(list@[k] == site);
                }
                if list@.contains(site) {
                    let k = choose|k: int| 0 <= k < list@.len() && list@[k] == site;
                    assert(pairs[k].0 == site);
                }
            }
        }
        list
    }

    /// Whether each of the four totals of the table fits the counter type of
    /// a tally.
    pub fn fits(&self) -> (ok: bool)
        ensures
            ok == totals_fit(self@),
    {
        proof {
            use_type_invariant(self);
        }
        let mut sums: (i32, i32, i32, i32) = (0, 0, 0, 0);
        let mut i: usize = 0;
        while i < self.store.sites.len()
            invariant
                i <= self.store.sites@.len(),
                self.well_formed(),
                forall|kind: EvidenceType| #[trigger]
                    component(sums, kind) == assoc_sum(
                        self.pairs().take(i as int),
                        total_weight(kind),
                    ),
            decreases self.store.sites@.len() - i,
        {
            proof {
                self.lemma_site_bounds(i as int, EvidenceType::Maternal);
                self.lemma_site_bounds(i as int, EvidenceType::Transmitted);
                self.lemma_site_bounds(i as int, EvidenceType::Reference);
                self.lemma_site_bounds(i as int, EvidenceType::Paternal);
                assert(component(sums, EvidenceType::Maternal) >= 0);
                assert(component(sums, EvidenceType::Transmitted) >= 0);
                assert(component(sums, EvidenceType::Reference) >= 0);
                assert(component(sums, EvidenceType::Paternal) >= 0);
            }
            match checked_offsets(&self.store.sites[i].entries, sums) {
                Some(next) => {
                    proof {
                        assert forall|kind: EvidenceType| #[trigger]
                            component(next, kind) == assoc_sum(
                                self.pairs().take(i + 1),
                                total_weight(kind),
                            ) by {
                            self.lemma_site_bounds(i as int, kind);
                            assert(component(sums, kind) == assoc_sum(
                                self.pairs().take(i as int),
                                total_weight(kind),
                            ));
                        }
                    }
                    sums = next;
                },
                None => {
                    proof {
                        let kind = choose|kind: EvidenceType|
                            component(sums, kind) + entries_total(
                                self.store.sites@[i as int].entries@,
                                kind,
                            ) > i32::MAX;
                        self.lemma_site_bounds(i as int, kind);
                        assert(component(sums, kind) == assoc_sum(
                            self.pairs().take(i as int),
                            total_weight(kind),
                        ));
                        assert(sites_total(self@, kind) > i32::MAX);
                    }
                    return false;
                },
            }
            i += 1;
        }
        proof {
            assert(self.pairs().take(i as int) =~= self.pairs());
            assert forall|kind: EvidenceType| #[trigger]
                sites_total(self@, kind) <= i32::MAX by {
                lemma_assoc_sum(self.pairs(), total_weight(kind));
                assert(component(sums, kind) == assoc_sum(self.pairs(), total_weight(kind)));
            }
        }
        true
    }

    /// Where `site` stands in the vector, if it does.
    fn position(&self, site: (u32, i64)) -> (found: Option<usize>)
        ensures
            match found {
                Some(i) => i < self.store.sites@.len() && self.store.sites@[i as int].site
                    == site,
                None => forall|i: int|
                    0 <= i < self.store.sites@.len() ==> self.store.sites@[i].site != site,
            },
    {
        proof {
            use_type_invariant(self);
        }
        let code = code_of(site);
        match self.store.index.get(&code) {
            Some(place) => {
                proof {
                    lemma_site_code_injective(self.store.sites@[*place as int].site, site);
                }
                Some(*place)
            },
            None => None,
        }
    }

    /// Appends `(evt, count)` to the entries of `site`, which is created on
    /// first use.
    pub fn add_entry(&mut self, site: (u32, i64), count: i32, evt: EvidenceType)
        requires
            count >= 0,
        ensures
            final(self)@ == site_map_append(old(self)@, site, (evt, count)),
    {
        proof {
            use_type_invariant(&*self);
            lemma_assoc_dom(self.pairs());
        }
        let ghost before = self.pairs();
        let found = self.position(site);
        let mut store = SiteStore { sites: Vec::new(), index: HashMap::new() };
        std::mem::swap(&mut store, &mut self.store);
        let ghost held = store.sites@;
        match found {
            Some(i) => {
                store.sites[i].entries.push((evt, count));
            },
            None => {
                let mut entries: Vec<(EvidenceType, i32)> = Vec::new();
                entries.push((evt, count));
                let code = code_of(site);
                store.index.insert(code, store.sites.len());
                store.sites.push(SiteRecord { site, entries });
            },
        }
        proof {
            let sites = store.sites;
            let after = Seq::new(sites@.len(), |i: int| (sites@[i].site, sites@[i].entries@));
            match found {
                Some(i) => {
                    let grown = before[i as int].1.push((evt, count));
                    lemma_assoc_get(before, i as int);
                    lemma_assoc_update(before, i as int, grown);
                    assert(after =~= before.update(i as int, (site, grown)));
                    assert forall|k: int| 0 <= k < sites@.len() implies (#[trigger] sites@[k]).site
                        == held[k].site by {}
                },
                None => {
                    assert(!has_key(before, site));
                    lemma_assoc_push(before, site, seq![(evt, count)]);
                    assert(after =~= before.push((site, seq![(evt, count)])));
                    assert forall|k: int| 0 <= k < held.len() implies (#[trigger] sites@[k])
                        == held[k] by {}
                    assert forall|k: int| 0 <= k < held.len() implies site_code(
                        (#[trigger] held[k]).site,
                    ) != site_code(site) by {
                        if site_code(held[k].site) == site_code(site) {
                            lemma_site_code_injective(held[k].site, site);
                        }
                    }
                },
            }
        }
        self.store = store;
    }
}

/// The sites recorded for one barcode.
struct BarcodeRecord {
    barcode: String,
    sites: SiteTable,
}

/// The records of an evidence table, in the order of first use, and for
/// each barcode the place of its record.
struct BarcodeStore {
    data: Vec<BarcodeRecord>,
    index: StringHashMap<usize>,
}

/// The evidence recorded in one run: for each barcode its sites, for each
/// site its entries.
///
/// Stands for a map from barcode to site map. The table only grows: no
/// barcode, site or entry is ever removed. The records are kept in the
/// order in which the barcodes were first used, and a hash index finds the
/// record of a barcode.
pub struct EvidenceTable {
    store: BarcodeStore,
}

/// The index finds every record by its barcode, and nothing else.
spec fn barcodes_indexed(data: Seq<BarcodeRecord>, index: Map<Seq<char>, usize>) -> bool {
    &&& forall|i: int|
        0 <= i < data.len() ==> index.contains_key((#[trigger] data[i]).barcode@)
            && index[data[i].barcode@] == i
    &&& forall|barcode: Seq<char>| #[trigger]
        index.contains_key(barcode) ==> index[barcode] < data.len()
            && data[index[barcode] as int].barcode@ == barcode
}

impl View for EvidenceTable {
    type V = TableMap;

    closed spec fn view(&self) -> TableMap {
        assoc_map(self.pairs())
    }
}

/// The label of `barcode` in `table`: that of its maternal and transmitted
/// totals.
pub open spec fn table_class(table: TableMap, barcode: Seq<char>) -> HaplotypeClass {
    class_of(
        barcode_total(table, barcode, EvidenceType::Maternal),
        barcode_total(table, barcode, EvidenceType::Transmitted),
    )
}

/// `labels` gives `barcode` the label `class`.
pub open spec fn labelled(
    labels: Seq<(String, HaplotypeClass)>,
    barcode: Seq<char>,
    class: HaplotypeClass,
) -> bool {
    exists|i: int|
        0 <= i < labels.len() && (#[trigger] labels[i]).0@ == barcode && labels[i].1 == class
}

impl EvidenceTable {
    /// The barcodes with their site maps, in the order of first use.
    spec fn pairs(self) -> Seq<(Seq<char>, SiteMap)> {
        Seq::new(
            self.store.data@.len(),
            |i: int| (self.store.data@[i].barcode@, self.store.data@[i].sites@),
        )
    }

    #[verifier::type_invariant]
    spec fn well_formed(self) -> bool {
        &&& distinct_keys(self.pairs())
        &&& barcodes_indexed(self.store.data@, self.store.index@)
    }

    /// An empty table.
    pub fn new() -> (table: EvidenceTable)
        ensures
            table@ == Map::<Seq<char>, SiteMap>::empty(),
    {
        let table = EvidenceTable {
            store: BarcodeStore { data: Vec::new(), index: StringHashMap::new() },
        };
        assert(table.pairs() =~= Seq::empty());
        table
    }

    /// Where `barcode` stands in the vector, if it does.
    fn position(&self, barcode: &str) -> (found: Option<usize>)
        ensures
            match found {
                Some(i) => i < self.store.data@.len() && self.store.data@[i as int].barcode@
                    == barcode@,
                None => forall|i: int|
                    0 <= i < self.store.data@.len() ==> self.store.data@[i].barcode@ != barcode@,
            },
    {
        proof {
            use_type_invariant(self);
        }
        match self.store.index.get(barcode) {
            Some(place) => Some(*place),
            None => None,
        }
    }

    /// Records `count` reads of category `evt` for `barcode` at `location`:
    /// the entry is appended to the list of that barcode and site. The site
    /// map of the barcode and the entry list of the site are created on first
    /// use. Nothing else in the table changes.
    pub fn update_site_data(
        &mut self,
        barcode: &str,
        location: (u32, i64),
        count: i32,
        evt: EvidenceType,
    )
        requires
            count >= 0,
        ensures
            final(self)@ == table_append(old(self)@, barcode@, location, (evt, count)),
    {
        proof {
            use_type_invariant(&*self);
            lemma_assoc_dom(self.pairs());
        }
        let ghost before = self.pairs();
        let found = self.position(barcode);
        let mut store = BarcodeStore { data: Vec::new(), index: StringHashMap::new() };
        std::mem::swap(&mut store, &mut self.store);
        let ghost held = store.data@;
        match found {
            Some(i) => {
                store.data[i].sites.add_entry(location, count, evt);
            },
            None => {
                let mut sites = SiteTable::new();
                sites.add_entry(location, count, evt);
                store.index.insert(barcode.to_owned(), store.data.len());
                store.data.push(BarcodeRecord { barcode: barcode.to_owned(), sites });
            },
        }
        proof {
            let data = store.data;
            let after = Seq::new(data@.len(), |i: int| (data@[i].barcode@, data@[i].sites@));
            match found {
                Some(i) => {
                    let grown = site_map_append(before[i as int].1, location, (evt, count));
                    lemma_assoc_get(before, i as int);
                    lemma_assoc_update(before, i as int, grown);
                    assert(after =~= before.update(i as int, (barcode@, grown)));
                    assert forall|k: int| 0 <= k < data@.len() implies (#[trigger] data@[k]).barcode
                        == held[k].barcode by {}
                },
                None => {
                    let grown = site_map_append(Map::empty(), location, (evt, count));
                    assert(!has_key(before, barcode@));
                    lemma_assoc_push(before, barcode@, grown);
                    assert(after =~= before.push((barcode@, grown)));
                    assert forall|k: int| 0 <= k < held.len() implies (#[trigger] data@[k])
                        == held[k] by {}
                },
            }
        }
        self.store = store;
    }

    /// Sums, over every site of `data`, the counts of each of the four
    /// categories into a tally for `barcode`.
    pub fn tally_barcode(data: &SiteTable, barcode: &str) -> (tally: BarcodeTally)
        requires
            totals_fit(data@),
        ensures
            tally.barcode@ == barcode@,
            tally.maternal_count == sites_total(data@, EvidenceType::Maternal),
            tally.transmitted_count == sites_total(data@, EvidenceType::Transmitted),
            tally.reference_count == sites_total(data@, EvidenceType::Reference),
            tally.paternal_count == sites_total(data@, EvidenceType::Paternal),
    {
        proof {
            use_type_invariant(data);
            lemma_assoc_sum(data.pairs(), total_weight(EvidenceType::Maternal));
            lemma_assoc_sum(data.pairs(), total_weight(EvidenceType::Transmitted));
            lemma_assoc_sum(data.pairs(), total_weight(EvidenceType::Reference));
            lemma_assoc_sum(data.pairs(), total_weight(EvidenceType::Paternal));
        }
        let mut tally = BarcodeTally::new(barcode);
        let mut i: usize = 0;
        while i < data.store.sites.len()
            invariant
                i <= data.store.sites@.len(),
                data.well_formed(),
                totals_fit(data@),
                tally.barcode@ == barcode@,
                tally.maternal_count == assoc_sum(
                    data.pairs().take(i as int),
                    total_weight(EvidenceType::Maternal),
                ),
                tally.transmitted_count == assoc_sum(
                    data.pairs().take(i as int),
                    total_weight(EvidenceType::Transmitted),
                ),
                tally.reference_count == assoc_sum(
                    data.pairs().take(i as int),
                    total_weight(EvidenceType::Reference),
                ),
                tally.paternal_count == assoc_sum(
                    data.pairs().take(i as int),
                    total_weight(EvidenceType::Paternal),
                ),
            decreases data.store.sites@.len() - i,
        {
            proof {
                assert forall|kind: EvidenceType| #[trigger]
                    entries_total(data.store.sites@[i as int].entries@, kind) <= i32::MAX by {
                    data.lemma_site_bounds(i as int, kind);
                    assert(sites_total(data@, kind) <= i32::MAX);
                }
                data.lemma_site_bounds(i as int, EvidenceType::Maternal);
                data.lemma_site_bounds(i as int, EvidenceType::Transmitted);
                data.lemma_site_bounds(i as int, EvidenceType::Reference);
                data.lemma_site_bounds(i as int, EvidenceType::Paternal);
                assert(sites_total(data@, EvidenceType::Maternal) <= i32::MAX);
                assert(sites_total(data@, EvidenceType::Transmitted) <= i32::MAX);
                assert(sites_total(data@, EvidenceType::Reference) <= i32::MAX);
                assert(sites_total(data@, EvidenceType::Paternal) <= i32::MAX);
            }
            let adds = site_offsets(&data.store.sites[i].entries);
            tally.update(adds);
            i += 1;
        }
        proof {
            assert(data.pairs().take(i as int) =~= data.pairs());
        }
        tally
    }

    /// The label of every barcode of the table, each barcode once, in no
    /// particular order.
    pub fn classify_all(&self) -> (labels: Vec<(String, HaplotypeClass)>)
        requires
            all_totals_fit(self@),
        ensures
            labels@.len() == self@.dom().len(),
            forall|barcode: Seq<char>|
                self@.contains_key(barcode) ==> labelled(
                    labels@,
                    barcode,
                    table_class(self@, barcode),
                ),
            forall|i: int|
                0 <= i < labels@.len() ==> self@.contains_key((#[trigger] labels@[i]).0@),
            forall|i: int, j: int|
                0 <= i < j < labels@.len() ==> (#[trigger] labels@[i]).0@ != (
                #[trigger] labels@[j]).0@,
    {
        proof {
            use_type_invariant(self);
            lemma_assoc_dom(self.pairs());
            lemma_assoc_len(self.pairs());
        }
        let mut labels: Vec<(String, HaplotypeClass)> = Vec::new();
        let mut i: usize = 0;
        while i < self.store.data.len()
            invariant
                i <= self.store.data@.len(),
                self.well_formed(),
                all_totals_fit(self@),
                labels@.len() == i,
                forall|k: int|
                    0 <= k < i ==> (#[trigger] labels@[k]).0@ == self.pairs()[k].0 && labels@[k].1
                        == table_class(self@, self.pairs()[k].0),
            decreases self.store.data@.len() - i,
        {
            proof {
                lemma_assoc_get(self.pairs(), i as int);
            }
            let record = &self.store.data[i];
            let tally = Self::tally_barcode(&record.sites, record.barcode.as_str());
            let class = tally.haplotype_class();
            labels.push((record.barcode.clone(), class));
            i += 1;
        }
        proof {
            let pairs = self.pairs();
            assert forall|barcode: Seq<char>| self@.contains_key(barcode) implies labelled(
                labels@,
                barcode,
                table_class(self@, barcode),
            ) by {
                let k = choose|k: int| 0 <= k < pairs.len() && (#[trigger] pairs[k]).0 == barcode;
                assert(labels@[k].0@ == barcode);
            }
            assert forall|k: int| 0 <= k < labels@.len() implies self@.contains_key(
                (#[trigger] labels@[k]).0@,
            ) by {
                lemma_assoc_get(pairs, k);
            }
        }
        labels
    }

    /// The barcodes of the table, each once, in no particular order.
    pub fn barcodes(&self) -> (list: Vec<String>)
        ensures
            list@.len() == self@.dom().len(),
            list.deep_view().no_duplicates(),
            forall|barcode: Seq<char>|
                self@.contains_key(barcode) <==> list.deep_view().contains(barcode),
    {
        proof {
            use_type_invariant(self);
            lemma_assoc_dom(self.pairs());
            lemma_assoc_len(self.pairs());
        }
        let mut list: Vec<String> = Vec::new();
        let mut i: usize = 0;
        while i < self.store.data.len()
            invariant
                i <= self.store.data@.len(),
                list@.len() == i,
                forall|k: int| 0 <= k < i ==> (#[trigger] list@[k])@ == self.pairs()[k].0,
            decreases self.store.data@.len() - i,
        {
            list.push(self.store.data[i].barcode.clone());
            i += 1;
        }
        proof {
            let pairs = self.pairs();
            let names = list.deep_view();
            assert(names.len() == list@.len());
            assert forall|k: int| 0 <= k < names.len() implies #[trigger] names[k] == pairs[k].0 by {
                assert(names[k] == list@[k]@);
            }
            assert forall|barcode: Seq<char>|
                self@.contains_key(barcode) <==> names.contains(barcode) by {
                if self@.contains_key(barcode) {
                    let k = choose|k: int|
                        0 <= k < pairs.len() && (#[trigger] pairs[k]).0 == barcode;
                    assert(names[k] == barcode);
                }
                if names.contains(barcode) {
                    let k = choose|k: int| 0 <= k < names.len() && names[k] == barcode;
                    assert(pairs[k].0 == barcode);
                }
            }
        }
        list
    }

    /// Whether the totals of every barcode fit the counter type of a tally.
    pub fn fits(&self) -> (ok: bool)
        ensures
            ok == all_totals_fit(self@),
    {
        proof {
            use_type_invariant(self);
            lemma_assoc_dom(self.pairs());
        }
        let mut i: usize = 0;
        while i < self.store.data.len()
            invariant
                i <= self.store.data@.len(),
                self.well_formed(),
                forall|k: int| 0 <= k < i ==> totals_fit((#[trigger] self.pairs()[k]).1),
            decreases self.store.data@.len() - i,
        {
            proof {
                lemma_assoc_get(self.pairs(), i as int);
            }
            if !self.store.data[i].sites.fits() {
                return false;
            }
            i += 1;
        }
        proof {
            let pairs = self.pairs();
            assert forall|barcode: Seq<char>| self@.contains_key(barcode) implies totals_fit(
                #[trigger] self@[barcode],
            ) by {
                let k = choose|k: int| 0 <= k < pairs.len() && (#[trigger] pairs[k]).0 == barcode;
                lemma_assoc_get(pairs, k);
            }
        }
        true
    }

    /// The sites recorded for `barcode`, if the table knows the barcode.
    pub fn get(&self, barcode: &str) -> (found: Option<&SiteTable>)
        ensures
            match found {
                Some(sites) => self@.contains_key(barcode@) && sites@ == self@[barcode@],
                None => !self@.contains_key(barcode@),
            },
    {
        proof {
            use_type_invariant(self);
            lemma_assoc_dom(self.pairs());
        }
        match self.position(barcode) {
            Some(i) => {
                proof {
                    lemma_assoc_get(self.pairs(), i as int);
                }
                Some(&self.store.data[i].sites)
            },
            None => None,
        }
    }
}

/// The four totals of one entry list, in the order maternal, transmitted,
/// reference, paternal.
fn site_offsets(entries: &Vec<(EvidenceType, i32)>) -> (sums: (i32, i32, i32, i32))
    requires
        entries_nonneg(entries@),
        forall|kind: EvidenceType| #[trigger] entries_total(entries@, kind) <= i32::MAX,
    ensures
        sums.0 == entries_total(entries@, EvidenceType::Maternal),
        sums.1 == entries_total(entries@, EvidenceType::Transmitted),
        sums.2 == entries_total(entries@, EvidenceType::Reference),
        sums.3 == entries_total(entries@, EvidenceType::Paternal),
{
    let mut mats: i32 = 0;
    let mut trans: i32 = 0;
    let mut refs: i32 = 0;
    let mut pat: i32 = 0;
    let mut j: usize = 0;
    while j < entries.len()
        invariant
            j <= entries@.len(),
            entries_nonneg(entries@),
            forall|kind: EvidenceType| #[trigger] entries_total(entries@, kind) <= i32::MAX,
            mats == entries_total(entries@.take(j as int), EvidenceType::Maternal),
            trans == entries_total(entries@.take(j as int), EvidenceType::Transmitted),
            refs == entries_total(entries@.take(j as int), EvidenceType::Reference),
            pat == entries_total(entries@.take(j as int), EvidenceType::Paternal),
        decreases entries@.len() - j,
    {
        proof {
            lemma_entries_step_bounds(entries@, j as int, EvidenceType::Maternal);
            lemma_entries_step_bounds(entries@, j as int, EvidenceType::Transmitted);
            lemma_entries_step_bounds(entries@, j as int, EvidenceType::Reference);
            lemma_entries_step_bounds(entries@, j as int, EvidenceType::Paternal);
        }
        match entries[j] {
            (EvidenceType::Maternal, count) => mats = mats + count,
            (EvidenceType::Transmitted, count) => trans = trans + count,
            (EvidenceType::Reference, count) => refs = refs + count,
            (EvidenceType::Paternal, count) => pat = pat + count,
        }
        j += 1;
    }
    assert(entries@.take(j as int) =~= entries@);
    (mats, trans, refs, pat)
}

/// The component of `sums` that belongs to `kind`, the components standing
/// in the order maternal, transmitted, reference, paternal.
spec fn component(sums: (i32, i32, i32, i32), kind: EvidenceType) -> int {
    match kind {
        EvidenceType::Maternal => sums.0 as int,
        EvidenceType::Transmitted => sums.1 as int,
        EvidenceType::Reference => sums.2 as int,
        EvidenceType::Paternal => sums.3 as int,
    }
}

/// Adds the four totals of one entry list to `base`, unless one of the sums
/// leaves the counter type.
fn checked_offsets(entries: &Vec<(EvidenceType, i32)>, base: (i32, i32, i32, i32)) -> (sums: Option<
    (i32, i32, i32, i32),
>)
    requires
        entries_nonneg(entries@),
        base.0 >= 0,
        base.1 >= 0,
        base.2 >= 0,
        base.3 >= 0,
    ensures
        match sums {
            Some(next) => forall|kind: EvidenceType| #[trigger]
                component(next, kind) == component(base, kind) + entries_total(entries@, kind),
            None => exists|kind: EvidenceType| #[trigger]
                component(base, kind) + entries_total(entries@, kind) > i32::MAX,
        },
{
    let mut sums = base;
    let mut j: usize = 0;
    while j < entries.len()
        invariant
            j <= entries@.len(),
            entries_nonneg(entries@),
            forall|kind: EvidenceType| #[trigger]
                component(sums, kind) == component(base, kind) + entries_total(
                    entries@.take(j as int),
                    kind,
                ),
        decreases entries@.len() - j,
    {
        let (kind, count) = entries[j];
        proof {
            lemma_entries_step_bounds(entries@, j as int, EvidenceType::Maternal);
            lemma_entries_step_bounds(entries@, j as int, EvidenceType::Transmitted);
            lemma_entries_step_bounds(entries@, j as int, EvidenceType::Reference);
            lemma_entries_step_bounds(entries@, j as int, EvidenceType::Paternal);
            assert(component(sums, kind) == component(base, kind) + entries_total(
                entries@.take(j as int),
                kind,
            ));
        }
        let grown = match kind {
            EvidenceType::Maternal => sums.0.checked_add(count),
            EvidenceType::Transmitted => sums.1.checked_add(count),
            EvidenceType::Reference => sums.2.checked_add(count),
            EvidenceType::Paternal => sums.3.checked_add(count),
        };
        let ghost prior = sums;
        match grown {
            Some(value) => {
                sums = match kind {
                    EvidenceType::Maternal => (value, sums.1, sums.2, sums.3),
                    EvidenceType::Transmitted => (sums.0, value, sums.2, sums.3),
                    EvidenceType::Reference => (sums.0, sums.1, value, sums.3),
                    EvidenceType::Paternal => (sums.0, sums.1, sums.2, value),
                };
            },
            None => {
                assert(component(base, kind) + entries_total(entries@, kind) > i32::MAX);
                return None;
            },
        }
        proof {
            assert forall|other: EvidenceType| #[trigger]
                component(sums, other) == component(base, other) + entries_total(
                    entries@.take(j + 1),
                    other,
                ) by {
                lemma_entries_step_bounds(entries@, j as int, other);
                assert(component(prior, other) == component(base, other) + entries_total(
                    entries@.take(j as int),
                    other,
                ));
            }
        }
        j += 1;
    }
    assert(entries@.take(j as int) =~= entries@);
    Some(sums)
}

/// What one more entry does to a running total, and that the new total
/// stays below the whole.
proof fn lemma_entries_step_bounds(entries: Seq<EvidenceEntry>, n: int, kind: EvidenceType)
    requires
        0 <= n < entries.len(),
        entries_nonneg(entries),
    ensures
        entries_total(entries.take(n + 1), kind) == entries_total(entries.take(n), kind) + (
        if entries[n].0 == kind {
            entries[n].1 as int
        } else {
            0
        }),
        0 <= entries_total(entries.take(n), kind),
        entries_total(entries.take(n + 1), kind) <= entries_total(entries, kind),
{
    lemma_entries_total_step(entries, n, kind);
    lemma_entries_total_prefix(entries, n, kind);
    lemma_entries_total_prefix(entries, n + 1, kind);
}

} // verus!
