//! The translation store's view of one mod: the row its query returns,
//! and the collapse of an optional row into an optional localized name.

use vstd::prelude::*;
use crate::resolver::opt_view;

verus! {

/// One row of the translation store: the localized name recorded for a
/// mod.
#[allow(non_snake_case)]
#[derive(Debug, Clone)]
pub struct ModTranslation {
    pub ChineseName: String,
}

/// The localized name an optional translation row carries. Any failure of
/// the underlying query is collapsed to an absent row before this point,
/// so translation absence is never an error.
pub fn localized_name_of(row: Option<ModTranslation>) -> (r: Option<String>)
    ensures
        opt_view(r) == match row {
            Some(t) => Some(t.ChineseName@),
            None => None::<Seq<char>>,
        },
{
    match row {
        Some(t) => Some(t.ChineseName),
        None => None,
    }
}

} // verus!
