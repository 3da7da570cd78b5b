//! The read evidence collector: from the reads of a pileup at a classified
//! site to evidence entries in the table.

use vstd::prelude::*;
use crate::error::EvidenceError;
use crate::evidence::EvidenceType;
use crate::model::{table_append, SiteKey, TableMap};
use crate::site::{classify_site, site_type, GenotypeAllele};
use crate::table::EvidenceTable;

verus! {

/// What the barcode tag of a read holds.
#[derive(Debug, Clone, PartialEq, Eq)]
pub enum BarcodeTag {
    /// The read carries no barcode tag.
    Absent,
    /// The tag holds this text.
    Text(String),
    /// The tag is present but holds something other than text.
    Other,
}

/// One read of a pileup, as far as the collector looks at it.
#[derive(Debug, Clone, PartialEq, Eq)]
pub struct PileupRead {
    /// The barcode tag of the read.
    pub barcode: BarcodeTag,
    /// The offset into the read that is aligned to the site, if the read
    /// has a base there.
    pub qpos: Option<usize>,
    /// The bases of the read.
    pub seq: Vec<u8>,
}

/// One variant record, as far as the run looks at it.
#[derive(Debug, Clone, PartialEq, Eq)]
pub struct VariantRecord {
    /// The contig identifier, if the record resolves to one.
    pub rid: Option<u32>,
    /// The 0-based position.
    pub pos: i64,
    /// The alleles, reference first, then the alternates.
    pub alleles: Vec<Vec<u8>>,
    /// The genotype of the reference parent, if it could be decoded.
    pub genotype: Option<Vec<GenotypeAllele>>,
}

/// The text of a barcode tag; empty where the tag holds none.
pub open spec fn tag_text(tag: BarcodeTag) -> Seq<char> {
    match tag {
        BarcodeTag::Text(text) => text@,
        _ => Seq::empty(),
    }
}

/// The first alternate allele, if it is a single base.
pub open spec fn snv_base(alleles: Seq<Vec<u8>>) -> Option<u8> {
    if alleles.len() >= 2 && alleles[1]@.len() == 1 {
        Some(alleles[1]@[0])
    } else {
        None
    }
}

/// What one read contributes at a site with alternate base `alt` and
/// category `vartype`: nothing, one unit of a category, or a failure.
///
/// A read without barcode tag contributes nothing; a tag that is no text
/// fails. A read without a base at the site contributes nothing; an offset
/// beyond the bases of the read fails. Where the alternate allele is no
/// single base the read contributes nothing. Otherwise the read gives one
/// unit of `vartype` if its base is the alternate base, and one unit of
/// `Reference` if it is not.
pub open spec fn read_outcome(read: PileupRead, alt: Option<u8>, vartype: EvidenceType) -> Result<
    Option<EvidenceType>,
    EvidenceError,
> {
    match read.barcode {
        BarcodeTag::Absent => Ok(None),
        BarcodeTag::Other => Err(EvidenceError::UnexpectedTagType),
        BarcodeTag::Text(_) => match read.qpos {
            None => Ok(None),
            Some(offset) => if offset >= read.seq@.len() {
                Err(EvidenceError::OutOfRangePosition)
            } else {
                match alt {
                    None => Ok(None),
                    Some(base) => if read.seq@[offset as int] == base {
                        Ok(Some(vartype))
                    } else {
                        Ok(Some(EvidenceType::Reference))
                    },
                }
            },
        },
    }
}

/// The table after the reads were taken in one by one, and the failure
/// that ended the pass, if one did. Each read that contributes a unit
/// appends one entry with count 1 for its barcode at `site`; the first read
/// that fails ends the pass, and the reads after it are not looked at.
pub open spec fn collected(
    table: TableMap,
    site: SiteKey,
    alt: Option<u8>,
    vartype: EvidenceType,
    reads: Seq<PileupRead>,
) -> (TableMap, Option<EvidenceError>)
    decreases reads.len(),
{
    if reads.len() == 0 {
        (table, None)
    } else {
        match read_outcome(reads[0], alt, vartype) {
            Err(error) => (table, Some(error)),
            Ok(None) => collected(table, site, alt, vartype, reads.drop_first()),
            Ok(Some(kind)) => collected(
                table_append(table, tag_text(reads[0].barcode), site, (kind, 1i32)),
                site,
                alt,
                vartype,
                reads.drop_first(),
            ),
        }
    }
}

/// What one site does to the table: a record without contig or without a
/// decodable genotype fails and leaves the table as it is; otherwise the
/// site is classified by the genotype and its reads are collected.
pub open spec fn site_outcome(table: TableMap, var: VariantRecord, reads: Seq<PileupRead>) -> (
    TableMap,
    Option<EvidenceError>,
) {
    match var.rid {
        None => (table, Some(EvidenceError::MalformedRecord)),
        Some(rid) => match var.genotype {
            None => (table, Some(EvidenceError::MissingGenotype)),
            Some(genotype) => collected(
                table,
                (rid, var.pos),
                snv_base(var.alleles@),
                site_type(genotype@),
                reads,
            ),
        },
    }
}

/// The first alternate allele of `alleles`, if it is a single base.
pub fn single_base_alt(alleles: &[Vec<u8>]) -> (alt: Option<u8>)
    ensures
        alt == snv_base(alleles@),
{
    if alleles.len() >= 2 && alleles[1].len() == 1 {
        Some(alleles[1][0])
    } else {
        None
    }
}

/// Decides what one read contributes at a site.
pub fn classify_read(read: &PileupRead, alt: Option<u8>, vartype: EvidenceType) -> (outcome: Result<
    Option<EvidenceType>,
    EvidenceError,
>)
    ensures
        outcome == read_outcome(*read, alt, vartype),
{
    match &read.barcode {
        BarcodeTag::Absent => Ok(None),
        BarcodeTag::Other => Err(EvidenceError::UnexpectedTagType),
        BarcodeTag::Text(_) => match read.qpos {
            None => Ok(None),
            Some(offset) => {
                if offset >= read.seq.len() {
                    Err(EvidenceError::OutOfRangePosition)
                } else {
                    match alt {
                        None => Ok(None),
                        Some(base) => {
                            if read.seq[offset] == base {
                                Ok(Some(vartype))
                            } else {
                                Ok(Some(EvidenceType::Reference))
                            }
                        },
                    }
                }
            },
        },
    }
}

/// Takes the reads of the pileup at `site` into the table, one entry with
/// count 1 for each read that contributes. The first read that fails ends
/// the pass with its error; the entries of the reads before it stay.
pub fn tally_evidence(
    evt: &mut EvidenceTable,
    site: (u32, i64),
    alleles: &[Vec<u8>],
    pileups: &[PileupRead],
    vartype: EvidenceType,
) -> (done: Result<(), EvidenceError>)
    ensures
        final(evt)@ == collected(old(evt)@, site, snv_base(alleles@), vartype, pileups@).0,
        match done {
            Ok(_) => collected(old(evt)@, site, snv_base(alleles@), vartype, pileups@).1 is None,
            Err(error) => collected(old(evt)@, site, snv_base(alleles@), vartype, pileups@).1
                == Some(error),
        },
{
    let alt = single_base_alt(alleles);
    let mut i: usize = 0;
    assert(pileups@.skip(0) =~= pileups@);
    while i < pileups.len()
        invariant
            i <= pileups@.len(),
            alt == snv_base(alleles@),
            collected(old(evt)@, site, alt, vartype, pileups@) == collected(
                evt@,
                site,
                alt,
                vartype,
                pileups@.skip(i as int),
            ),
        decreases pileups@.len() - i,
    {
        proof {
            assert(pileups@.skip(i as int).drop_first() =~= pileups@.skip(i + 1));
        }
        let read = &pileups[i];
        match classify_read(read, alt, vartype) {
            Err(error) => {
                return Err(error);
            },
            Ok(None) => {},
            Ok(Some(kind)) => {
                match &read.barcode {
                    BarcodeTag::Text(text) => {
                        evt.update_site_data(text.as_str(), site, 1, kind);
                    },
                    _ => {},
                }
            },
        }
        i += 1;
    }
    Ok(())
}

/// Takes one site into the table: resolves the site of the record,
/// classifies it by the genotype of the reference parent and collects the
/// evidence of its reads.
pub fn process_site(evt: &mut EvidenceTable, var: &VariantRecord, pileups: &[PileupRead]) -> (done:
    Result<(), EvidenceError>)
    ensures
        final(evt)@ == site_outcome(old(evt)@, *var, pileups@).0,
        match done {
            Ok(_) => site_outcome(old(evt)@, *var, pileups@).1 is None,
            Err(error) => site_outcome(old(evt)@, *var, pileups@).1 == Some(error),
        },
{
    let rid = match var.rid {
        Some(rid) => rid,
        None => {
            return Err(EvidenceError::MalformedRecord);
        },
    };
    let vartype = match &var.genotype {
        Some(genotype) => classify_site(genotype.as_slice()),
        None => {
            return Err(EvidenceError::MissingGenotype);
        },
    };
    tally_evidence(evt, (rid, var.pos), var.alleles.as_slice(), pileups, vartype)
}

} // verus!
