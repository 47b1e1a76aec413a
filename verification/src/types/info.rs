use vstd::prelude::*;
use crate::types::knowledge_base::KBId;

verus! {

/// The key of a note, as free text.
#[derive(Debug, Clone, PartialEq, Eq, Hash)]
pub struct InfoID(pub String);

/// A note attached to a knowledge entry.
#[derive(Debug, Clone)]
pub struct Info {
    pub id: InfoID,
    pub content: String,
    pub kb_id: KBId,
}

} // verus!
