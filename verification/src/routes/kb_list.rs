use vstd::prelude::*;
use crate::db::Database;
use crate::error::Error;
use crate::types::account::Session;
use crate::types::knowledge_base::EntryView;
use crate::types::knowledge_base::KnowledgeBase;
use crate::types::knowledge_base::NewKB;
use crate::types::pagination::get_page_offset;
use crate::types::pagination::page_of;
use crate::types::pagination::Pagination;
use crate::types::pagination::Params;

verus! {

/// Decides whether a change may go on, given what the store answered when
/// asked whether the account owns what it wants to change: it may where the
/// account is the owner, and is refused with `Unauthorized` where it is not.
/// A failure of the store is handed on.
pub fn authorize(is_owner: Result<bool, Error>) -> (r: Result<(), Error>)
    ensures
        r == match is_owner {
            Ok(true) => Ok::<(), Error>(()),
            Ok(false) => Err(Error::Unauthorized),
            Err(e) => Err(e),
        },
{
    match is_owner {
        Ok(true) => Ok(()),
        Ok(false) => Err(Error::Unauthorized),
        Err(e) => Err(e),
    }
}

/// Lists the entries that the parameters of a query ask for: all of them
/// where the query names no bounds.
pub fn get_kb(params: Params, kb_db: &Database) -> (r: Result<Vec<KnowledgeBase>, Error>)
    requires
        kb_db.wf(),
    ensures
        match page_of(params@) {
            Ok(page) => r is Ok && r.unwrap()@.map_values(|e: KnowledgeBase| e@) == kb_db@.page(
                match page.limit {
                    Some(most) => Some(most as int),
                    None => None,
                },
                page.offset as int,
            ),
            Err(e) => r is Err && r->Err_0 == e,
        },
{
    let mut page = Pagination::default();
    if !params.is_empty() {
        page = match get_page_offset(params) {
            Ok(page) => page,
            Err(e) => {
                return Err(e);
            },
        };
    }
    kb_db.get_kb(page.limit, page.offset)
}

/// The entry with the key `id`.
pub fn get_kb_by_id(id: i32, kb_db: &Database) -> (r: Result<KnowledgeBase, Error>)
    requires
        kb_db.wf(),
    ensures
        match r {
            Ok(entry) => kb_db@.entries.contains(entry@) && entry@.id == id,
            Err(e) => e == Error::QueryError && !kb_db@.has_entry(id as int),
        },
{
    kb_db.get_kb_by_id(id)
}

/// Adds an entry that the account of the session owns.
pub fn add_kb(session: Session, kb_db: &mut Database, new_kb: NewKB) -> (r: Result<
    KnowledgeBase,
    Error,
>)
    requires
        old(kb_db).wf(),
    ensures
        final(kb_db).wf(),
        r is Ok <==> old(kb_db)@.has_account(session.account_id.0 as int) && old(kb_db)@.last_entry
            < i32::MAX,
        match r {
            Ok(entry) => final(kb_db)@ == old(kb_db)@.with_entry(
                new_kb.title@,
                new_kb.content@,
                new_kb.tags.deep_view(),
                session.account_id.0 as int,
            ) && entry@ == final(kb_db)@.entries.last(),
            Err(e) => e == Error::QueryError && final(kb_db)@ == old(kb_db)@,
        },
{
    let account_id = session.account_id;
    kb_db.add_kb(new_kb, &account_id)
}

/// Changes the entry with the key `id` for the account of the session. Only
/// the owner of an entry may change it: for any other account, and where
/// there is no such entry, the store stays as it is.
pub fn update_kb(id: i32, session: Session, kb_db: &mut Database, update: KnowledgeBase) -> (r:
    Result<KnowledgeBase, Error>)
    requires
        old(kb_db).wf(),
    ensures
        final(kb_db).wf(),
        r is Ok <==> old(kb_db)@.owns_entry(session.account_id.0 as int, id as int),
        match r {
            Ok(entry) => final(kb_db)@ == old(kb_db)@.with_entry_updated(
                id as int,
                update.title@,
                update.content@,
                update.tags.deep_view(),
            ) && entry@ == (EntryView {
                id: id as int,
                title: update.title@,
                content: update.content@,
                tags: update.tags.deep_view(),
                account_id: session.account_id.0 as int,
            }),
            Err(e) => e == Error::Unauthorized && final(kb_db)@ == old(kb_db)@,
        },
{
    let account_id = session.account_id;
    match authorize(kb_db.is_owner_of_kb(&account_id, id)) {
        Ok(()) => kb_db.update_kb(update, id, &account_id),
        Err(e) => Err(e),
    }
}

/// Removes the entry with the key `id` for the account of the session. Only
/// the owner of an entry may remove it: for any other account, and where
/// there is no such entry, the store stays as it is.
pub fn delete_kb(id: i32, session: Session, kb_db: &mut Database) -> (r: Result<bool, Error>)
    requires
        old(kb_db).wf(),
    ensures
        final(kb_db).wf(),
        r == if old(kb_db)@.owns_entry(session.account_id.0 as int, id as int) {
            Ok::<bool, Error>(true)
        } else {
            Err(Error::Unauthorized)
        },
        r is Err ==> final(kb_db)@ == old(kb_db)@,
        r is Ok ==> exists|i: int|
            0 <= i < old(kb_db)@.entries.len() && #[trigger] old(kb_db)@.entries[i].id == id
                && final(kb_db)@ == (crate::db::StoreState {
                entries: old(kb_db)@.entries.remove(i),
                ..old(kb_db)@
            }),
{
    let account_id = session.account_id;
    match authorize(kb_db.is_owner_of_kb(&account_id, id)) {
        Ok(()) => kb_db.delete_kb(id, &account_id),
        Err(e) => Err(e),
    }
}

} // verus!
