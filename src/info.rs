//! Descriptions of structures.
use vstd::prelude::*;

use crate::defs::Structure;

verus! {

/// The key of the text that describes `structure`, for the structures that
/// have one.
pub fn structure_info(structure: &Structure) -> (r: String)
    requires
        structure is Branch || structure is Core,
    ensures
        structure is Branch ==> r@ == "branch"@,
        structure is Core ==> r@ == "core"@,
{
    match structure {
        Structure::Branch => "branch".to_owned(),
        _ => "core".to_owned(),
    }
}

} // verus!
