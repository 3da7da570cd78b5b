//! The configuration of a run: which parent the sites are classified by.

use vstd::prelude::*;
use crate::error::EvidenceError;

verus! {

/// The mode of a run, with the sample name of the parent it needs.
#[derive(Debug, Clone, PartialEq, Eq)]
pub enum RunMode {
    /// Sites are classified by the genotype of the mother.
    Maternal(String),
    /// The paternal mode, which names the father.
    Paternal(String),
}

/// The mode that the given flags select. The paternal mode needs the name
/// of the father, the other mode that of the mother; a name that the mode
/// does not need is not looked at.
pub open spec fn selected_mode(
    paternal: bool,
    name_mother: Option<String>,
    name_father: Option<String>,
) -> Result<RunMode, EvidenceError> {
    if paternal {
        match name_father {
            Some(name) => Ok(RunMode::Paternal(name)),
            None => Err(EvidenceError::MissingRequiredArgument),
        }
    } else {
        match name_mother {
            Some(name) => Ok(RunMode::Maternal(name)),
            None => Err(EvidenceError::MissingRequiredArgument),
        }
    }
}

/// Selects the mode of a run from its flags.
pub fn select_mode(paternal: bool, name_mother: Option<String>, name_father: Option<String>) -> (mode:
    Result<RunMode, EvidenceError>)
    ensures
        mode == selected_mode(paternal, name_mother, name_father),
{
    if paternal {
        match name_father {
            Some(name) => Ok(RunMode::Paternal(name)),
            None => Err(EvidenceError::MissingRequiredArgument),
        }
    } else {
        match name_mother {
            Some(name) => Ok(RunMode::Maternal(name)),
            None => Err(EvidenceError::MissingRequiredArgument),
        }
    }
}

/// Whether a pileup column at position `column` is the column of a variant
/// at 0-based position `pos`.
pub fn column_at_site(column: u32, pos: i64) -> (at: bool)
    ensures
        at == (column as int == pos as int),
{
    column as i64 == pos
}

} // verus!
