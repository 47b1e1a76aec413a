use vstd::prelude::*;
use crate::types::account::AccountId;

verus! {

/// The key of a knowledge entry in the store.
#[derive(Debug, Clone, Copy, PartialEq, Eq, Hash, Structural)]
pub struct KBId(pub i32);

/// A knowledge entry as the store holds it. The `account_id` names its owner
/// and never changes.
#[derive(Debug)]
pub struct KnowledgeBase {
    pub id: KBId,
    pub title: String,
    pub content: String,
    pub tags: Option<Vec<String>>,
    pub account_id: AccountId,
}

/// What a request to create an entry carries.
#[derive(Debug, Clone)]
pub struct NewKB {
    pub title: String,
    pub content: String,
    pub tags: Option<Vec<String>>,
}

/// What a knowledge entry holds, as plain values.
pub struct EntryView {
    pub id: int,
    pub title: Seq<char>,
    pub content: Seq<char>,
    pub tags: Option<Seq<Seq<char>>>,
    pub account_id: int,
}

impl View for KnowledgeBase {
    type V = EntryView;

    open spec fn view(&self) -> EntryView {
        EntryView {
            id: self.id.0 as int,
            title: self.title@,
            content: self.content@,
            tags: self.tags.deep_view(),
            account_id: self.account_id.0 as int,
        }
    }
}

/// A copy of a list of texts.
pub fn clone_texts(texts: &Vec<String>) -> (copy: Vec<String>)
    ensures
        copy.deep_view() == texts.deep_view(),
{
    let mut copy: Vec<String> = Vec::new();
    let mut i: usize = 0;
    while i < texts.len()
        invariant
            i <= texts.len(),
            copy.len() == i,
            forall|k: int| 0 <= k < i ==> copy[k]@ == texts[k]@,
        decreases texts.len() - i,
    {
        copy.push(texts[i].clone());
        i = i + 1;
    }
    assert(copy.deep_view() =~= texts.deep_view());
    copy
}

/// A copy of an optional list of tags.
pub fn clone_tags(tags: &Option<Vec<String>>) -> (copy: Option<Vec<String>>)
    ensures
        copy.deep_view() == tags.deep_view(),
{
    match tags {
        Some(list) => Some(clone_texts(list)),
        None => None,
    }
}

impl Clone for KnowledgeBase {
    fn clone(&self) -> (copy: KnowledgeBase)
        ensures
            copy@ == self@,
    {
        KnowledgeBase {
            id: self.id,
            title: self.title.clone(),
            content: self.content.clone(),
            tags: clone_tags(&self.tags),
            account_id: self.account_id,
        }
    }
}

} // verus!
