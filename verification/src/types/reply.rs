use vstd::prelude::*;
use crate::types::account::AccountId;
use crate::types::knowledge_base::KBId;

verus! {

/// The key of a reply in the store.
#[derive(Debug, Clone, Copy, PartialEq, Eq, Hash, Structural)]
pub struct ReplyId(pub i32);

/// A reply to a knowledge entry as the store holds it. The `account_id`
/// names its owner and never changes.
#[derive(Debug)]
pub struct Reply {
    pub id: ReplyId,
    pub content: String,
    pub kb_id: KBId,
    pub account_id: AccountId,
}

/// What a request to post a reply carries.
#[derive(Debug, Clone)]
pub struct NewReply {
    pub content: String,
    pub kb_id: KBId,
}

/// What a reply holds, as plain values.
pub struct ReplyView {
    pub id: int,
    pub content: Seq<char>,
    pub kb_id: int,
    pub account_id: int,
}

impl View for Reply {
    type V = ReplyView;

    open spec fn view(&self) -> ReplyView {
        ReplyView {
            id: self.id.0 as int,
            content: self.content@,
            kb_id: self.kb_id.0 as int,
            account_id: self.account_id.0 as int,
        }
    }
}

impl Clone for Reply {
    fn clone(&self) -> (copy: Reply)
        ensures
            copy@ == self@,
    {
        Reply {
            id: self.id,
            content: self.content.clone(),
            kb_id: self.kb_id,
            account_id: self.account_id,
        }
    }
}

/// The key of a reply that has no owner on record.
#[derive(Debug, Clone, Copy, PartialEq, Eq, Hash, Structural)]
pub struct KBReplyId(pub i32);

/// A reply to a knowledge entry with no owner on record.
#[derive(Debug, Clone)]
pub struct KBReply {
    pub id: KBReplyId,
    pub content: String,
    pub kb_id: KBId,
}

} // verus!
