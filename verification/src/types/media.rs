use vstd::prelude::*;

verus! {

/// One embedded media asset attached to an [`crate::Item`].
#[derive(Clone, Debug, PartialEq)]
pub struct Media {
    pub url: String,
    pub width: u64,
    pub height: u64,
    pub type_: String,
}

} // verus!
