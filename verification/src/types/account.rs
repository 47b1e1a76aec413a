use vstd::prelude::*;

verus! {

/// The key of an account in the store.
#[derive(Debug, Clone, Copy, PartialEq, Eq, Hash, Structural)]
pub struct AccountId(pub i32);

/// An account: who it is and the hash of its password. The `id` is absent
/// until the store has given it one.
#[derive(Debug)]
pub struct Account {
    pub id: Option<AccountId>,
    pub email: String,
    pub password: String,
}

/// What an account holds, as plain values.
pub struct AccountView {
    pub id: Option<int>,
    pub email: Seq<char>,
    pub password: Seq<char>,
}

impl View for Account {
    type V = AccountView;

    open spec fn view(&self) -> AccountView {
        AccountView {
            id: match self.id {
                Some(id) => Some(id.0 as int),
                None => None,
            },
            email: self.email@,
            password: self.password@,
        }
    }
}

impl Clone for Account {
    fn clone(&self) -> (copy: Account)
        ensures
            copy@ == self@,
    {
        Account { id: self.id, email: self.email.clone(), password: self.password.clone() }
    }
}

/// What a request to register carries.
#[derive(Debug, Clone)]
pub struct NewAccount {
    pub email: String,
    pub password: String,
    /// Seconds since the epoch before which the registration does not count.
    pub nbf: i64,
}

/// The claims of a session token: whose session it is and the window of
/// time, in seconds since the epoch, in which it is valid: from `nbf` on and
/// before `expiry`.
#[derive(Debug, Clone, Copy, PartialEq, Eq, Structural)]
pub struct Session {
    pub expiry: i64,
    pub account_id: AccountId,
    pub nbf: i64,
}

} // verus!
