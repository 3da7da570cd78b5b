//! Evidence aggregation and haplotype classification for barcoded reads.
//!
//! Reads that overlap informative variant sites are turned into evidence
//! units, the units are accumulated per barcode and site, and every barcode
//! is finally labelled with the parental haplotype its reads support.

pub mod assoc;
pub mod collect;
pub mod error;
pub mod evidence;
pub mod laws;
pub mod map_sum;
pub mod model;
pub mod run;
pub mod site;
pub mod table;
