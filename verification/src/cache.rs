use vstd::prelude::*;

verus! {

/// A cached demo summary: the demo id and the JSON body of the summary.
pub struct Item {
    pub id: String,
    pub body: String,
}

} // verus!
