use vstd::prelude::*;
use crate::db::Database;
use crate::error::Error;
use crate::types::account::Session;
use crate::types::reply::NewReply;
use crate::types::reply::Reply;

verus! {

/// Adds a reply that the account of the session owns.
pub fn add_reply(session: Session, kb_db: &mut Database, new_reply: NewReply) -> (r: Result<
    Reply,
    Error,
>)
    requires
        old(kb_db).wf(),
    ensures
        final(kb_db).wf(),
        r is Ok <==> old(kb_db)@.has_entry(new_reply.kb_id.0 as int) && old(kb_db)@.has_account(
            session.account_id.0 as int,
        ) && old(kb_db)@.last_reply < i32::MAX,
        match r {
            Ok(reply) => final(kb_db)@ == old(kb_db)@.with_reply(
                new_reply.content@,
                new_reply.kb_id.0 as int,
                session.account_id.0 as int,
            ) && reply@ == final(kb_db)@.replies.last(),
            Err(e) => e == Error::QueryError && final(kb_db)@ == old(kb_db)@,
        },
{
    let account_id = session.account_id;
    kb_db.add_reply(new_reply, &account_id)
}

} // verus!
