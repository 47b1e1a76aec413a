use vstd::prelude::*;
use crate::error::Error;
use crate::types::account::Account;
use crate::types::account::AccountId;
use crate::types::account::AccountView;
use crate::types::knowledge_base::EntryView;
use crate::types::knowledge_base::KBId;
use crate::types::knowledge_base::KnowledgeBase;
use crate::types::knowledge_base::NewKB;
use crate::types::reply::NewReply;
use crate::types::reply::Reply;
use crate::types::reply::ReplyId;
use crate::types::reply::ReplyView;

verus! {

/// What the store holds, as plain values: its three tables, each in the
/// order in which its rows were added, and the last key given out in each.
pub struct StoreState {
    pub accounts: Seq<AccountView>,
    pub entries: Seq<EntryView>,
    pub replies: Seq<ReplyView>,
    pub last_account: int,
    pub last_entry: int,
    pub last_reply: int,
}

impl StoreState {
    /// Whether an account is registered under `email`.
    pub open spec fn email_taken(self, email: Seq<char>) -> bool {
        exists|i: int| 0 <= i < self.accounts.len() && #[trigger] self.accounts[i].email == email
    }

    /// The account registered under `email`, where there is one.
    pub open spec fn account_by_email(self, email: Seq<char>) -> AccountView {
        self.accounts[choose|i: int|
            0 <= i < self.accounts.len() && #[trigger] self.accounts[i].email == email]
    }

    /// Whether there is an account with the key `id`.
    pub open spec fn has_account(self, id: int) -> bool {
        exists|i: int| 0 <= i < self.accounts.len() && #[trigger] self.accounts[i].id == Some(id)
    }

    /// Whether there is an entry with the key `id`.
    pub open spec fn has_entry(self, id: int) -> bool {
        exists|i: int| 0 <= i < self.entries.len() && #[trigger] self.entries[i].id == id
    }

    /// Whether there is an entry with the key `id` that `account` owns.
    pub open spec fn owns_entry(self, account: int, id: int) -> bool {
        exists|i: int|
            0 <= i < self.entries.len() && #[trigger] self.entries[i].id == id
                && self.entries[i].account_id == account
    }

    /// Whether there is a reply with the key `id` that `account` owns.
    pub open spec fn owns_reply(self, account: int, id: int) -> bool {
        exists|i: int|
            0 <= i < self.replies.len() && #[trigger] self.replies[i].id == id
                && self.replies[i].account_id == account
    }

    /// The rules that every store keeps: keys are positive, never above the
    /// last key given out and rising within each table, so none occurs twice;
    /// no two accounts share an email; and the owner of every entry and of
    /// every reply is a registered account.
    pub open spec fn wf(self) -> bool {
        &&& 0 <= self.last_account <= i32::MAX
        &&& 0 <= self.last_entry <= i32::MAX
        &&& 0 <= self.last_reply <= i32::MAX
        &&& forall|i: int|
            0 <= i < self.accounts.len() ==> (#[trigger] self.accounts[i]).id is Some && 1
                <= self.accounts[i].id.unwrap() <= self.last_account
        &&& forall|i: int, j: int|
            0 <= i < j < self.accounts.len() ==> (#[trigger] self.accounts[i]).id.unwrap() < (
            #[trigger] self.accounts[j]).id.unwrap()
        &&& forall|i: int, j: int|
            0 <= i < j < self.accounts.len() ==> (#[trigger] self.accounts[i]).email != (
            #[trigger] self.accounts[j]).email
        &&& forall|i: int|
            0 <= i < self.entries.len() ==> 1 <= (#[trigger] self.entries[i]).id
                <= self.last_entry && self.has_account(self.entries[i].account_id)
        &&& forall|i: int, j: int|
            0 <= i < j < self.entries.len() ==> (#[trigger] self.entries[i]).id < (
            #[trigger] self.entries[j]).id
        &&& forall|i: int|
            0 <= i < self.replies.len() ==> 1 <= (#[trigger] self.replies[i]).id
                <= self.last_reply && self.has_account(self.replies[i].account_id)
        &&& forall|i: int, j: int|
            0 <= i < j < self.replies.len() ==> (#[trigger] self.replies[i]).id < (
            #[trigger] self.replies[j]).id
    }

    /// The part of the entries that a listing with these bounds shows: in the
    /// order of their keys, without the first `offset` of them, and no more
    /// than `limit` where there is one.
    pub open spec fn page(self, limit: Option<int>, offset: int) -> Seq<EntryView> {
        let len = self.entries.len() as int;
        let from = if offset < len {
            offset
        } else {
            len
        };
        let to = match limit {
            Some(most) => if from + most < len {
                from + most
            } else {
                len
            },
            None => len,
        };
        self.entries.subrange(from, to)
    }

    /// The store after an entry with the next key was added for `owner`.
    pub open spec fn with_entry(
        self,
        title: Seq<char>,
        content: Seq<char>,
        tags: Option<Seq<Seq<char>>>,
        owner: int,
    ) -> StoreState {
        StoreState {
            entries: self.entries.push(
                EntryView { id: self.last_entry + 1, title, content, tags, account_id: owner },
            ),
            last_entry: self.last_entry + 1,
            ..self
        }
    }

    /// The store after the entry with the key `id` got a new title, content
    /// and tags. Its key and its owner stay.
    pub open spec fn with_entry_updated(
        self,
        id: int,
        title: Seq<char>,
        content: Seq<char>,
        tags: Option<Seq<Seq<char>>>,
    ) -> StoreState {
        StoreState {
            entries: self.entries.map_values(
                |e: EntryView|
                    if e.id == id {
                        EntryView { title, content, tags, ..e }
                    } else {
                        e
                    },
            ),
            ..self
        }
    }

    /// The store after a reply with the next key was added for `owner`.
    pub open spec fn with_reply(self, content: Seq<char>, entry: int, owner: int) -> StoreState {
        StoreState {
            replies: self.replies.push(
                ReplyView { id: self.last_reply + 1, content, kb_id: entry, account_id: owner },
            ),
            last_reply: self.last_reply + 1,
            ..self
        }
    }

    /// The store after an account with the next key was added.
    pub open spec fn with_account(self, email: Seq<char>, password: Seq<char>) -> StoreState {
        StoreState {
            accounts: self.accounts.push(
                AccountView { id: Some(self.last_account + 1), email, password },
            ),
            last_account: self.last_account + 1,
            ..self
        }
    }
}

/// The store of accounts, knowledge entries and replies.
#[derive(Debug)]
pub struct Database {
    accounts: Vec<Account>,
    entries: Vec<KnowledgeBase>,
    replies: Vec<Reply>,
    last_account: i32,
    last_entry: i32,
    last_reply: i32,
}

impl View for Database {
    type V = StoreState;

    closed spec fn view(&self) -> StoreState {
        StoreState {
            accounts: self.accounts@.map_values(|a: Account| a@),
            entries: self.entries@.map_values(|e: KnowledgeBase| e@),
            replies: self.replies@.map_values(|r: Reply| r@),
            last_account: self.last_account as int,
            last_entry: self.last_entry as int,
            last_reply: self.last_reply as int,
        }
    }
}

impl Database {
    /// Whether the store keeps its rules.
    pub open spec fn wf(&self) -> bool {
        self@.wf()
    }

    /// An empty store.
    pub fn new() -> (db: Database)
        ensures
            db.wf(),
            db@.accounts.len() == 0,
            db@.entries.len() == 0,
            db@.replies.len() == 0,
            db@.last_account == 0,
            db@.last_entry == 0,
            db@.last_reply == 0,
    {
        Database {
            accounts: Vec::new(),
            entries: Vec::new(),
            replies: Vec::new(),
            last_account: 0,
            last_entry: 0,
            last_reply: 0,
        }
    }

    /// Where the account registered under `email` stands in its table.
    fn find_email(&self, email: &String) -> (found: Option<usize>)
        ensures
            match found {
                Some(i) => i < self@.accounts.len() && self@.accounts[i as int].email == email@,
                None => !self@.email_taken(email@),
            },
    {
        let mut i: usize = 0;
        while i < self.accounts.len()
            invariant
                i <= self.accounts@.len(),
                forall|k: int| 0 <= k < i ==> (#[trigger] self@.accounts[k]).email != email@,
            decreases self.accounts.len() - i,
        {
            if self.accounts[i].email == *email {
                return Some(i);
            }
            i = i + 1;
        }
        None
    }

    /// Registers an account under the next key. The `id` that `account`
    /// carries is not used.
    pub fn add_account(&mut self, account: Account) -> (r: Result<bool, Error>)
        requires
            old(self).wf(),
        ensures
            final(self).wf(),
            r == if old(self)@.email_taken(account.email@) {
                Err::<bool, Error>(Error::DuplicateAccount)
            } else if old(self)@.last_account == i32::MAX {
                Err(Error::QueryError)
            } else {
                Ok(true)
            },
            final(self)@ == if r is Ok {
                old(self)@.with_account(account.email@, account.password@)
            } else {
                old(self)@
            },
    {
        if self.find_email(&account.email).is_some() {
            return Err(Error::DuplicateAccount);
        }
        if self.last_account == i32::MAX {
            return Err(Error::QueryError);
        }
        let id: i32 = self.last_account + 1;
        let ghost before = self@;
        let row = Account { id: Some(AccountId(id)), email: account.email, password: account.password };
        self.accounts.push(row);
        self.last_account = id;
        proof {
            let after = before.with_account(account.email@, account.password@);
            assert(self@.accounts =~= after.accounts);
            assert(self@.entries =~= after.entries);
            assert(self@.replies =~= after.replies);
            lemma_with_account_wf(before, account.email@, account.password@);
        }
        Ok(true)
    }

    /// The account registered under `email`.
    pub fn get_account(&self, email: String) -> (r: Result<Account, Error>)
        requires
            self.wf(),
        ensures
            match r {
                Ok(account) => self@.email_taken(email@) && account@ == self@.account_by_email(
                    email@,
                ),
                Err(e) => e == Error::QueryError && !self@.email_taken(email@),
            },
    {
        match self.find_email(&email) {
            Some(i) => {
                let account = self.accounts[i].clone();
                proof {
                    assert(self@.accounts[i as int] == account@);
                    let k = choose|k: int|
                        0 <= k < self@.accounts.len() && #[trigger] self@.accounts[k].email
                            == email@;
                    assert(k == i) by {
                        if k < i {
                            assert(self@.accounts[k].email != self@.accounts[i as int].email);
                        } else if i < k {
                            assert(self@.accounts[i as int].email != self@.accounts[k].email);
                        }
                    }
                }
                Ok(account)
            },
            None => Err(Error::QueryError),
        }
    }

    /// Whether there is an account with the key `id`.
    fn account_exists(&self, id: i32) -> (found: bool)
        ensures
            found == self@.has_account(id as int),
    {
        let mut i: usize = 0;
        while i < self.accounts.len()
            invariant
                i <= self.accounts@.len(),
                forall|k: int| 0 <= k < i ==> (#[trigger] self@.accounts[k]).id != Some(id as int),
            decreases self.accounts.len() - i,
        {
            match self.accounts[i].id {
                Some(held) => {
                    if held.0 == id {
                        assert(self@.accounts[i as int].id == Some(id as int));
                        return true;
                    }
                },
                None => {},
            }
            i = i + 1;
        }
        false
    }

    /// Where the entry with the key `id` stands in its table.
    fn find_entry(&self, id: i32) -> (found: Option<usize>)
        ensures
            match found {
                Some(i) => i < self@.entries.len() && self@.entries[i as int].id == id,
                None => !self@.has_entry(id as int),
            },
    {
        let mut i: usize = 0;
        while i < self.entries.len()
            invariant
                i <= self.entries@.len(),
                forall|k: int| 0 <= k < i ==> (#[trigger] self@.entries[k]).id != id,
            decreases self.entries.len() - i,
        {
            if self.entries[i].id.0 == id {
                return Some(i);
            }
            i = i + 1;
        }
        None
    }

    /// Lists entries in the order of their keys: after skipping `offset` of
    /// them, at most `limit`, or all that are left where there is no limit.
    /// A bound below zero is refused.
    pub fn get_kb(&self, limit: Option<i32>, offset: i32) -> (r: Result<Vec<KnowledgeBase>, Error>)
        requires
            self.wf(),
        ensures
            match r {
                Ok(rows) => offset >= 0 && (limit is Some ==> limit.unwrap() >= 0)
                    && rows@.map_values(|e: KnowledgeBase| e@) == self@.page(
                    match limit {
                        Some(most) => Some(most as int),
                        None => None,
                    },
                    offset as int,
                ),
                Err(e) => e == Error::QueryError && (offset < 0 || (limit is Some
                    && limit.unwrap() < 0)),
            },
    {
        if offset < 0 {
            return Err(Error::QueryError);
        }
        let len: usize = self.entries.len();
        let from: usize = if (offset as usize) < len {
            offset as usize
        } else {
            len
        };
        let to: usize = match limit {
            Some(most) => {
                if most < 0 {
                    return Err(Error::QueryError);
                }
                if (most as usize) < len - from {
                    from + most as usize
                } else {
                    len
                }
            },
            None => len,
        };
        let mut rows: Vec<KnowledgeBase> = Vec::new();
        let mut i: usize = from;
        while i < to
            invariant
                from <= i <= to <= self.entries@.len(),
                rows@.len() == i - from,
                forall|k: int| 0 <= k < i - from ==> (#[trigger] rows@[k])@ == self@.entries[from + k],
            decreases to - i,
        {
            rows.push(self.entries[i].clone());
            i = i + 1;
        }
        assert(rows@.map_values(|e: KnowledgeBase| e@) =~= self@.entries.subrange(
            from as int,
            to as int,
        ));
        Ok(rows)
    }

    /// The entry with the key `kb_id`.
    pub fn get_kb_by_id(&self, kb_id: i32) -> (r: Result<KnowledgeBase, Error>)
        requires
            self.wf(),
        ensures
            match r {
                Ok(entry) => self@.entries.contains(entry@) && entry@.id == kb_id,
                Err(e) => e == Error::QueryError && !self@.has_entry(kb_id as int),
            },
    {
        match self.find_entry(kb_id) {
            Some(i) => {
                let entry = self.entries[i].clone();
                assert(self@.entries[i as int] == entry@);
                Ok(entry)
            },
            None => Err(Error::QueryError),
        }
    }

    /// Adds an entry under the next key and records `account_id` as its
    /// owner. Only a registered account can own an entry.
    pub fn add_kb(&mut self, new_kb: NewKB, account_id: &AccountId) -> (r: Result<
        KnowledgeBase,
        Error,
    >)
        requires
            old(self).wf(),
        ensures
            final(self).wf(),
            r is Ok <==> old(self)@.has_account(account_id.0 as int) && old(self)@.last_entry
                < i32::MAX,
            match r {
                Ok(entry) => final(self)@ == old(self)@.with_entry(
                    new_kb.title@,
                    new_kb.content@,
                    new_kb.tags.deep_view(),
                    account_id.0 as int,
                ) && entry@ == final(self)@.entries.last(),
                Err(e) => e == Error::QueryError && final(self)@ == old(self)@,
            },
    {
        if !self.account_exists(account_id.0) || self.last_entry == i32::MAX {
            return Err(Error::QueryError);
        }
        let id: i32 = self.last_entry + 1;
        let ghost before = self@;
        let row = KnowledgeBase {
            id: KBId(id),
            title: new_kb.title,
            content: new_kb.content,
            tags: new_kb.tags,
            account_id: *account_id,
        };
        let entry = row.clone();
        self.entries.push(row);
        self.last_entry = id;
        proof {
            let after = before.with_entry(
                new_kb.title@,
                new_kb.content@,
                new_kb.tags.deep_view(),
                account_id.0 as int,
            );
            assert(self@.accounts =~= after.accounts);
            assert(self@.entries =~= after.entries);
            assert(self@.replies =~= after.replies);
        }
        Ok(entry)
    }

    /// Gives the entry with the key `kb_id` the title, content and tags of
    /// `kb`, if `account_id` owns it. The key and the owner that `kb` carries
    /// are not used: those of the stored entry stay.
    pub fn update_kb(&mut self, kb: KnowledgeBase, kb_id: i32, account_id: &AccountId) -> (r:
        Result<KnowledgeBase, Error>)
        requires
            old(self).wf(),
        ensures
            final(self).wf(),
            r is Ok <==> old(self)@.owns_entry(account_id.0 as int, kb_id as int),
            match r {
                Ok(entry) => final(self)@ == old(self)@.with_entry_updated(
                    kb_id as int,
                    kb.title@,
                    kb.content@,
                    kb.tags.deep_view(),
                ) && entry@ == (EntryView {
                    id: kb_id as int,
                    title: kb.title@,
                    content: kb.content@,
                    tags: kb.tags.deep_view(),
                    account_id: account_id.0 as int,
                }),
                Err(e) => final(self)@ == old(self)@ && e == if old(self)@.has_entry(kb_id as int) {
                    Error::Unauthorized
                } else {
                    Error::QueryError
                },
            },
    {
        let i: usize = match self.find_entry(kb_id) {
            Some(i) => i,
            None => {
                return Err(change_refused(false));
            },
        };
        if self.entries[i].account_id.0 != account_id.0 {
            return Err(change_refused(true));
        }
        let ghost before = self@;
        let row = KnowledgeBase {
            id: KBId(kb_id),
            title: kb.title,
            content: kb.content,
            tags: kb.tags,
            account_id: *account_id,
        };
        let entry = row.clone();
        self.entries.set(i, row);
        proof {
            let after = before.with_entry_updated(
                kb_id as int,
                kb.title@,
                kb.content@,
                kb.tags.deep_view(),
            );
            assert(before.entries[i as int].id == kb_id);
            assert(self@.accounts =~= after.accounts);
            assert(self@.entries =~= after.entries);
            assert(self@.replies =~= after.replies);
        }
        Ok(entry)
    }

    /// Removes the entry with the key `kb_id`, if `account_id` owns it.
    pub fn delete_kb(&mut self, kb_id: i32, account_id: &AccountId) -> (r: Result<bool, Error>)
        requires
            old(self).wf(),
        ensures
            final(self).wf(),
            r == if old(self)@.owns_entry(account_id.0 as int, kb_id as int) {
                Ok::<bool, Error>(true)
            } else if old(self)@.has_entry(kb_id as int) {
                Err(Error::Unauthorized)
            } else {
                Err(Error::QueryError)
            },
            r is Err ==> final(self)@ == old(self)@,
            r is Ok ==> exists|i: int|
                0 <= i < old(self)@.entries.len() && #[trigger] old(self)@.entries[i].id == kb_id
                    && final(self)@ == (StoreState {
                    entries: old(self)@.entries.remove(i),
                    ..old(self)@
                }),
    {
        let i: usize = match self.find_entry(kb_id) {
            Some(i) => i,
            None => {
                return Err(change_refused(false));
            },
        };
        if self.entries[i].account_id.0 != account_id.0 {
            return Err(change_refused(true));
        }
        let ghost before = self@;
        let _ = self.entries.remove(i);
        proof {
            let after = StoreState { entries: before.entries.remove(i as int), ..before };
            assert(before.entries[i as int].id == kb_id);
            assert(self@.accounts =~= after.accounts);
            assert(self@.entries =~= after.entries);
            assert(self@.replies =~= after.replies);
        }
        Ok(true)
    }

    /// Whether there is an entry with the key `kb_id` that `account_id` owns.
    pub fn is_owner_of_kb(&self, account_id: &AccountId, kb_id: i32) -> (r: Result<bool, Error>)
        requires
            self.wf(),
        ensures
            r == Ok::<bool, Error>(self@.owns_entry(account_id.0 as int, kb_id as int)),
    {
        match self.find_entry(kb_id) {
            Some(i) => Ok(self.entries[i].account_id.0 == account_id.0),
            None => Ok(false),
        }
    }

    /// Where the reply with the key `id` stands in its table.
    fn find_reply(&self, id: i32) -> (found: Option<usize>)
        ensures
            match found {
                Some(i) => i < self@.replies.len() && self@.replies[i as int].id == id,
                None => forall|k: int|
                    0 <= k < self@.replies.len() ==> (#[trigger] self@.replies[k]).id != id,
            },
    {
        let mut i: usize = 0;
        while i < self.replies.len()
            invariant
                i <= self.replies@.len(),
                forall|k: int| 0 <= k < i ==> (#[trigger] self@.replies[k]).id != id,
            decreases self.replies.len() - i,
        {
            if self.replies[i].id.0 == id {
                return Some(i);
            }
            i = i + 1;
        }
        None
    }

    /// Adds a reply to an entry under the next key and records `account_id`
    /// as its owner. The entry must be there, and only a registered account
    /// can own a reply.
    pub fn add_reply(&mut self, new_reply: NewReply, account_id: &AccountId) -> (r: Result<
        Reply,
        Error,
    >)
        requires
            old(self).wf(),
        ensures
            final(self).wf(),
            r is Ok <==> old(self)@.has_entry(new_reply.kb_id.0 as int) && old(self)@.has_account(
                account_id.0 as int,
            ) && old(self)@.last_reply < i32::MAX,
            match r {
                Ok(reply) => final(self)@ == old(self)@.with_reply(
                    new_reply.content@,
                    new_reply.kb_id.0 as int,
                    account_id.0 as int,
                ) && reply@ == final(self)@.replies.last(),
                Err(e) => e == Error::QueryError && final(self)@ == old(self)@,
            },
    {
        if self.find_entry(new_reply.kb_id.0).is_none() || !self.account_exists(account_id.0)
            || self.last_reply == i32::MAX {
            return Err(Error::QueryError);
        }
        let id: i32 = self.last_reply + 1;
        let ghost before = self@;
        let row = Reply {
            id: ReplyId(id),
            content: new_reply.content,
            kb_id: new_reply.kb_id,
            account_id: *account_id,
        };
        let reply = row.clone();
        self.replies.push(row);
        self.last_reply = id;
        proof {
            let after = before.with_reply(
                new_reply.content@,
                new_reply.kb_id.0 as int,
                account_id.0 as int,
            );
            assert(self@.accounts =~= after.accounts);
            assert(self@.entries =~= after.entries);
            assert(self@.replies =~= after.replies);
        }
        Ok(reply)
    }

    /// Whether there is a reply with the key `reply_id` that `account_id`
    /// owns.
    pub fn is_owner_of_reply(&self, account_id: &AccountId, reply_id: i32) -> (r: Result<
        bool,
        Error,
    >)
        requires
            self.wf(),
        ensures
            r == Ok::<bool, Error>(self@.owns_reply(account_id.0 as int, reply_id as int)),
    {
        match self.find_reply(reply_id) {
            Some(i) => Ok(self.replies[i].account_id.0 == account_id.0),
            None => Ok(false),
        }
    }
}

/// Adding an account under an email that is not taken keeps the rules.
pub proof fn lemma_with_account_wf(s: StoreState, email: Seq<char>, password: Seq<char>)
    requires
        s.wf(),
        !s.email_taken(email),
        s.last_account < i32::MAX,
    ensures
        s.with_account(email, password).wf(),
{
    let t = s.with_account(email, password);
    assert forall|i: int| 0 <= i < t.entries.len() implies t.has_account(
        (#[trigger] t.entries[i]).account_id,
    ) by {
        let k = choose|k: int|
            0 <= k < s.accounts.len() && #[trigger] s.accounts[k].id == Some(
                s.entries[i].account_id,
            );
        assert(t.accounts[k].id == Some(t.entries[i].account_id));
    }
    assert forall|i: int| 0 <= i < t.replies.len() implies t.has_account(
        (#[trigger] t.replies[i]).account_id,
    ) by {
        let k = choose|k: int|
            0 <= k < s.accounts.len() && #[trigger] s.accounts[k].id == Some(
                s.replies[i].account_id,
            );
        assert(t.accounts[k].id == Some(t.replies[i].account_id));
    }
}

/// An entry has one owner: where one account owns it, no other does.
pub proof fn lemma_single_owner(s: StoreState, owner: int, other: int, entry: int)
    requires
        s.wf(),
        s.owns_entry(owner, entry),
        other != owner,
    ensures
        !s.owns_entry(other, entry),
{
    let i = choose|i: int|
        0 <= i < s.entries.len() && #[trigger] s.entries[i].id == entry && s.entries[i].account_id
            == owner;
    if s.owns_entry(other, entry) {
        let j = choose|j: int|
            0 <= j < s.entries.len() && #[trigger] s.entries[j].id == entry
                && s.entries[j].account_id == other;
        if i < j {
            assert(s.entries[i].id < s.entries[j].id);
        } else if j < i {
            assert(s.entries[j].id < s.entries[i].id);
        }
    }
}

/// An entry belongs to the account that created it, and to no other.
pub proof fn lemma_creator_owns(
    s: StoreState,
    title: Seq<char>,
    content: Seq<char>,
    tags: Option<Seq<Seq<char>>>,
    owner: int,
    other: int,
)
    requires
        s.wf(),
        s.has_account(owner),
        s.last_entry < i32::MAX,
        other != owner,
    ensures
        s.with_entry(title, content, tags, owner).wf(),
        s.with_entry(title, content, tags, owner).owns_entry(owner, s.last_entry + 1),
        !s.with_entry(title, content, tags, owner).owns_entry(other, s.last_entry + 1),
{
    let t = s.with_entry(title, content, tags, owner);
    let last = s.entries.len() as int;
    assert(t.entries[last].id == s.last_entry + 1 && t.entries[last].account_id == owner);
    assert forall|i: int| 0 <= i < t.entries.len() implies 1 <= (#[trigger] t.entries[i]).id
        <= t.last_entry && t.has_account(t.entries[i].account_id) by {
        if i < last {
            assert(t.entries[i] == s.entries[i]);
        }
    }
    lemma_single_owner(t, owner, other, s.last_entry + 1);
}

/// A change to an entry leaves every key and every owner as it was, so
/// whoever owned an entry before owns it after.
pub proof fn lemma_update_keeps_owners(
    s: StoreState,
    id: int,
    title: Seq<char>,
    content: Seq<char>,
    tags: Option<Seq<Seq<char>>>,
    account: int,
    entry: int,
)
    requires
        s.wf(),
    ensures
        s.with_entry_updated(id, title, content, tags).wf(),
        s.with_entry_updated(id, title, content, tags).owns_entry(account, entry) == s.owns_entry(
            account,
            entry,
        ),
        s.with_entry_updated(id, title, content, tags).has_entry(entry) == s.has_entry(entry),
{
    let t = s.with_entry_updated(id, title, content, tags);
    assert forall|i: int| 0 <= i < s.entries.len() implies (#[trigger] t.entries[i]).id
        == s.entries[i].id && t.entries[i].account_id == s.entries[i].account_id by {}
    if s.owns_entry(account, entry) {
        let i = choose|i: int|
            0 <= i < s.entries.len() && #[trigger] s.entries[i].id == entry
                && s.entries[i].account_id == account;
        assert(t.entries[i].id == entry && t.entries[i].account_id == account);
    }
    if t.owns_entry(account, entry) {
        let i = choose|i: int|
            0 <= i < t.entries.len() && #[trigger] t.entries[i].id == entry
                && t.entries[i].account_id == account;
        assert(s.entries[i].id == entry && s.entries[i].account_id == account);
    }
    if s.has_entry(entry) {
        let i = choose|i: int| 0 <= i < s.entries.len() && #[trigger] s.entries[i].id == entry;
        assert(t.entries[i].id == entry);
    }
    if t.has_entry(entry) {
        let i = choose|i: int| 0 <= i < t.entries.len() && #[trigger] t.entries[i].id == entry;
        assert(s.entries[i].id == entry);
    }
}

/// The least of two numbers.
pub open spec fn least(a: int, b: int) -> int {
    if a < b {
        a
    } else {
        b
    }
}

/// A listing holds as many entries as its bounds allow: what is left after
/// the offset, but no more than the limit. It shows them in the order of the
/// store, starting right after the offset.
pub proof fn lemma_page_bounds(s: StoreState, limit: Option<int>, offset: int)
    requires
        offset >= 0,
        limit is Some ==> limit.unwrap() >= 0,
    ensures
        s.page(limit, offset).len() == match limit {
            Some(most) => least(most, s.entries.len() - least(offset, s.entries.len() as int)),
            None => s.entries.len() - least(offset, s.entries.len() as int),
        },
        forall|k: int|
            0 <= k < s.page(limit, offset).len() ==> #[trigger] s.page(limit, offset)[k]
                == s.entries[offset + k],
{
}

/// Two listings that follow each other show what one listing over both
/// shows: no entry is lost between pages and none comes twice.
pub proof fn lemma_pages_join(s: StoreState, first: int, second: Option<int>, offset: int)
    requires
        offset >= 0,
        first >= 0,
        second is Some ==> second.unwrap() >= 0,
    ensures
        s.page(Some(first), offset) + s.page(second, offset + first) == s.page(
            match second {
                Some(most) => Some(first + most),
                None => None,
            },
            offset,
        ),
{
    assert(s.page(Some(first), offset) + s.page(second, offset + first) =~= s.page(
        match second {
            Some(most) => Some(first + most),
            None => None,
        },
        offset,
    ));
}

/// The failure of a change that the store did not make for an account,
/// given whether the entry is there: `Unauthorized` where it is, since then
/// another account owns it, a failed query where it is not.
pub fn change_refused(entry_found: bool) -> (e: Error)
    ensures
        e == if entry_found {
            Error::Unauthorized
        } else {
            Error::QueryError
        },
{
    if entry_found {
        Error::Unauthorized
    } else {
        Error::QueryError
    }
}

/// What a removal gives, given how many rows the store removed and whether
/// the entry is there: `true` where a row was removed, else the failure of a
/// change that was not made.
pub fn removal_outcome(rows_affected: u64, entry_found: bool) -> (r: Result<bool, Error>)
    ensures
        r == if rows_affected > 0 {
            Ok::<bool, Error>(true)
        } else if entry_found {
            Err(Error::Unauthorized)
        } else {
            Err(Error::QueryError)
        },
{
    if rows_affected > 0 {
        Ok(true)
    } else {
        Err(change_refused(entry_found))
    }
}

/// The code by which the store reports that a row would repeat a value that
/// must be unique.
pub const UNIQUE_VIOLATION: i32 = 23505;

/// The failure that stands for a refusal of the store, given the code that
/// the store reported with it, if it reported one: a repeated account where
/// the code is that of a unique violation, a failed query otherwise.
pub fn storage_failure(code: Option<i32>) -> (e: Error)
    ensures
        e == if code == Some(UNIQUE_VIOLATION) {
            Error::DuplicateAccount
        } else {
            Error::QueryError
        },
{
    match code {
        Some(n) => if n == UNIQUE_VIOLATION {
            Error::DuplicateAccount
        } else {
            Error::QueryError
        },
        None => Error::QueryError,
    }
}

} // verus!
