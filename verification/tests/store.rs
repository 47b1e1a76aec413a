use kb_center::db::Database;
use kb_center::error::Error;
use kb_center::routes::auth::{
    login, login_with, register, token_or_failure, verify_password, verify_token,
    verify_token_at, SecretKey,
};
use kb_center::routes::kb_list;
use kb_center::routes::reply;
use kb_center::types::account::{Account, AccountId, Session};
use kb_center::types::knowledge_base::{KBId, KnowledgeBase, NewKB};
use kb_center::types::pagination::Params;
use kb_center::types::reply::{NewReply, ReplyId};

fn account(email: &str, password: &str) -> Account {
    Account {
        id: None,
        email: email.to_string(),
        password: password.to_string(),
    }
}

fn new_kb(title: &str) -> NewKB {
    NewKB {
        title: title.to_string(),
        content: format!("about {}", title),
        tags: Some(vec!["rust".to_string(), title.to_string()]),
    }
}

fn change(title: &str) -> KnowledgeBase {
    KnowledgeBase {
        id: KBId(999),
        title: title.to_string(),
        content: "changed".to_string(),
        tags: None,
        account_id: AccountId(999),
    }
}

fn session_of(id: i32) -> Session {
    Session {
        expiry: 2_000_000_000,
        account_id: AccountId(id),
        nbf: 1_000_000_000,
    }
}

/// A store with the accounts 1 and 2 and `n` entries of account 1.
fn store_with(n: usize) -> Database {
    let mut db = Database::new();
    assert_eq!(db.add_account(account("a@x.com", "hash-a")), Ok(true));
    assert_eq!(db.add_account(account("b@x.com", "hash-b")), Ok(true));
    for i in 0..n {
        db.add_kb(new_kb(&format!("entry {}", i + 1)), &AccountId(1))
            .unwrap();
    }
    db
}

fn titles(rows: &[KnowledgeBase]) -> Vec<String> {
    rows.iter().map(|row| row.title.clone()).collect()
}

fn ids(rows: &[KnowledgeBase]) -> Vec<i32> {
    rows.iter().map(|row| row.id.0).collect()
}

#[test]
fn accounts_get_rising_keys() {
    let db = store_with(0);
    let a = db.get_account("a@x.com".to_string()).unwrap();
    let b = db.get_account("b@x.com".to_string()).unwrap();
    assert_eq!(a.id, Some(AccountId(1)));
    assert_eq!(b.id, Some(AccountId(2)));
    assert_eq!(a.email, "a@x.com");
    assert_eq!(a.password, "hash-a");
    assert_eq!(b.password, "hash-b");
}

#[test]
fn an_account_that_carries_a_key_gets_the_next_one() {
    let mut db = Database::new();
    let mut first = account("a@x.com", "hash-a");
    first.id = Some(AccountId(77));
    assert_eq!(db.add_account(first), Ok(true));
    let stored = db.get_account("a@x.com".to_string()).unwrap();
    assert_eq!(stored.id, Some(AccountId(1)));
}

#[test]
fn a_second_account_with_one_email_is_a_duplicate() {
    let mut db = store_with(0);
    assert_eq!(
        db.add_account(account("a@x.com", "other")),
        Err(Error::DuplicateAccount)
    );
    let a = db.get_account("a@x.com".to_string()).unwrap();
    assert_eq!(a.password, "hash-a");
    assert_eq!(db.add_account(account("c@x.com", "hash-c")), Ok(true));
    let c = db.get_account("c@x.com".to_string()).unwrap();
    assert_eq!(c.id, Some(AccountId(3)));
}

#[test]
fn an_unknown_email_is_a_failed_query() {
    let db = store_with(0);
    assert_eq!(
        db.get_account("nobody@x.com".to_string()).unwrap_err(),
        Error::QueryError
    );
    assert_eq!(
        db.get_account("A@x.com".to_string()).unwrap_err(),
        Error::QueryError
    );
}

#[test]
fn registering_twice_fails_the_second_time() {
    let mut db = Database::new();
    assert_eq!(register(&mut db, account("a@x.com", "secret")), Ok(true));
    assert_eq!(
        register(&mut db, account("a@x.com", "secret")),
        Err(Error::DuplicateAccount)
    );
    assert_eq!(
        register(&mut db, account("a@x.com", "another")),
        Err(Error::DuplicateAccount)
    );
}

#[test]
fn registering_stores_a_hash_in_place_of_the_password() {
    let mut db = Database::new();
    assert_eq!(register(&mut db, account("a@x.com", "secret")), Ok(true));
    let stored = db.get_account("a@x.com".to_string()).unwrap();
    assert_ne!(stored.password, "secret");
    assert!(stored.password.starts_with("$argon2i$v=19$m=4096,t=3,p=1$"));
    let parts: Vec<&str> = stored.password.split('$').collect();
    assert_eq!(parts.len(), 6);
    // A salt of 32 bytes stands in 43 characters.
    assert_eq!(parts[4].len(), 43);
    assert_eq!(verify_password(&stored.password, b"secret"), Ok(true));
    assert_eq!(verify_password(&stored.password, b"Secret"), Ok(false));
}

#[test]
fn a_login_with_the_password_gives_a_token() {
    let key = SecretKey::new(vec![3; 32]).unwrap();
    let mut db = Database::new();
    register(&mut db, account("z@x.com", "zzz")).unwrap();
    register(&mut db, account("a@x.com", "secret")).unwrap();
    let token = login(&db, account("a@x.com", "secret"), &key).unwrap();
    let session = verify_token(&token, &key).unwrap();
    assert_eq!(session.account_id, AccountId(2));
}

#[test]
fn a_token_is_for_the_stored_account() {
    let key = SecretKey::new(vec![3; 32]).unwrap();
    let mut db = Database::new();
    register(&mut db, account("z@x.com", "zzz")).unwrap();
    register(&mut db, account("a@x.com", "secret")).unwrap();
    let mut attempt = account("a@x.com", "secret");
    attempt.id = Some(AccountId(999));
    let token = login(&db, attempt, &key).unwrap();
    let session = verify_token(&token, &key).unwrap();
    assert_eq!(session.account_id, AccountId(2));
    assert_eq!(session.expiry - session.nbf, 86_400);
    assert_eq!(
        verify_token_at(&token, &key, session.nbf),
        Ok(session)
    );
    assert_eq!(
        verify_token_at(&token, &key, session.expiry),
        Err(Error::FailTokenDecryption)
    );
}

#[test]
fn a_login_goes_by_what_the_store_answered() {
    let key = SecretKey::new(vec![3; 32]).unwrap();
    let mut db = Database::new();
    register(&mut db, account("a@x.com", "secret")).unwrap();
    let stored = db.get_account("a@x.com".to_string()).unwrap();

    let token = login_with(Ok(Some(stored.clone())), b"secret", &key).unwrap();
    assert_eq!(
        verify_token(&token, &key).unwrap().account_id,
        AccountId(1)
    );
    assert_eq!(
        login_with(Ok(Some(stored.clone())), b"guess", &key),
        Err(Error::WrongPassword)
    );
    assert_eq!(login_with(Ok(None), b"secret", &key), Err(Error::NotFound));
    assert_eq!(
        login_with(Err(Error::QueryError), b"secret", &key),
        Err(Error::QueryError)
    );
    let mut keyless = stored.clone();
    keyless.id = None;
    assert_eq!(
        login_with(Ok(Some(keyless)), b"secret", &key),
        Err(Error::QueryError)
    );
    let mut corrupt = stored;
    corrupt.password = "secret".to_string();
    assert_eq!(
        login_with(Ok(Some(corrupt)), b"secret", &key),
        Err(Error::HashFormatError)
    );
}

#[test]
fn a_token_that_could_not_be_made_fails_the_login() {
    assert_eq!(
        token_or_failure(Some("v2.local.text".to_string())),
        Ok("v2.local.text".to_string())
    );
    assert_eq!(token_or_failure(None), Err(Error::FailTokenDecryption));
}

#[test]
fn a_login_with_a_wrong_password_fails() {
    let key = SecretKey::new(vec![3; 32]).unwrap();
    let mut db = Database::new();
    register(&mut db, account("a@x.com", "secret")).unwrap();
    let r = login(&db, account("a@x.com", "guess"), &key);
    assert_eq!(r, Err(Error::WrongPassword));
    assert_ne!(r, Err(Error::NotFound));
}

#[test]
fn a_login_with_an_unknown_email_fails() {
    let key = SecretKey::new(vec![3; 32]).unwrap();
    let mut db = Database::new();
    register(&mut db, account("a@x.com", "secret")).unwrap();
    assert_eq!(
        login(&db, account("b@x.com", "secret"), &key),
        Err(Error::NotFound)
    );
}

#[test]
fn a_login_against_a_corrupt_hash_fails() {
    let key = SecretKey::new(vec![3; 32]).unwrap();
    let mut db = Database::new();
    db.add_account(account("a@x.com", "secret")).unwrap();
    assert_eq!(
        login(&db, account("a@x.com", "secret"), &key),
        Err(Error::HashFormatError)
    );
}

#[test]
fn an_entry_is_stamped_with_its_owner() {
    let mut db = store_with(0);
    let entry = db.add_kb(new_kb("traits"), &AccountId(2)).unwrap();
    assert_eq!(entry.id, KBId(1));
    assert_eq!(entry.account_id, AccountId(2));
    assert_eq!(entry.title, "traits");
    assert_eq!(entry.content, "about traits");
    assert_eq!(
        entry.tags,
        Some(vec!["rust".to_string(), "traits".to_string()])
    );
    let stored = db.get_kb_by_id(1).unwrap();
    assert_eq!(stored.id, KBId(1));
    assert_eq!(stored.account_id, AccountId(2));
    assert_eq!(stored.title, "traits");
    assert_eq!(stored.tags, entry.tags);
}

#[test]
fn an_entry_needs_a_registered_owner() {
    let mut db = store_with(1);
    assert_eq!(
        db.add_kb(new_kb("orphan"), &AccountId(3)).unwrap_err(),
        Error::QueryError
    );
    assert_eq!(ids(&db.get_kb(None, 0).unwrap()), vec![1]);
}

#[test]
fn an_absent_entry_is_a_failed_query() {
    let db = store_with(2);
    assert_eq!(db.get_kb_by_id(3).unwrap_err(), Error::QueryError);
    assert_eq!(db.get_kb_by_id(0).unwrap_err(), Error::QueryError);
    assert_eq!(db.get_kb_by_id(-1).unwrap_err(), Error::QueryError);
    assert_eq!(
        kb_list::get_kb_by_id(3, &db).unwrap_err(),
        Error::QueryError
    );
    assert_eq!(kb_list::get_kb_by_id(2, &db).unwrap().title, "entry 2");
}

#[test]
fn a_listing_is_bounded_by_its_limit() {
    let db = store_with(5);
    let rows = db.get_kb(Some(2), 0).unwrap();
    assert_eq!(rows.len(), 2);
    assert_eq!(ids(&rows), vec![1, 2]);
    assert_eq!(titles(&rows), vec!["entry 1", "entry 2"]);
    let again = db.get_kb(Some(2), 0).unwrap();
    assert_eq!(ids(&again), vec![1, 2]);
}

#[test]
fn a_listing_without_limit_gives_what_is_left() {
    let db = store_with(5);
    let rows = db.get_kb(None, 3).unwrap();
    assert_eq!(rows.len(), 2);
    assert_eq!(ids(&rows), vec![4, 5]);
}

#[test]
fn a_listing_may_be_empty() {
    let db = store_with(5);
    assert_eq!(db.get_kb(None, 5).unwrap().len(), 0);
    assert_eq!(db.get_kb(None, 50).unwrap().len(), 0);
    assert_eq!(db.get_kb(Some(0), 0).unwrap().len(), 0);
    assert_eq!(db.get_kb(Some(i32::MAX), i32::MAX).unwrap().len(), 0);
    assert_eq!(Database::new().get_kb(None, 0).unwrap().len(), 0);
    assert_eq!(Database::new().get_kb(Some(3), 2).unwrap().len(), 0);
}

#[test]
fn a_listing_takes_the_middle() {
    let db = store_with(5);
    assert_eq!(ids(&db.get_kb(Some(2), 1).unwrap()), vec![2, 3]);
    assert_eq!(ids(&db.get_kb(Some(10), 3).unwrap()), vec![4, 5]);
    assert_eq!(ids(&db.get_kb(Some(i32::MAX), 4).unwrap()), vec![5]);
    assert_eq!(ids(&db.get_kb(None, 0).unwrap()), vec![1, 2, 3, 4, 5]);
}

#[test]
fn a_listing_refuses_bounds_below_zero() {
    let db = store_with(5);
    assert_eq!(db.get_kb(None, -1).unwrap_err(), Error::QueryError);
    assert_eq!(db.get_kb(Some(-1), 0).unwrap_err(), Error::QueryError);
    assert_eq!(db.get_kb(Some(2), i32::MIN).unwrap_err(), Error::QueryError);
}

#[test]
fn a_query_lists_what_its_parameters_ask_for() {
    let db = store_with(5);
    let mut params = Params::new();
    params.insert("limit".to_string(), "2".to_string());
    params.insert("offset".to_string(), "0".to_string());
    assert_eq!(ids(&kb_list::get_kb(params, &db).unwrap()), vec![1, 2]);

    assert_eq!(
        ids(&kb_list::get_kb(Params::new(), &db).unwrap()),
        vec![1, 2, 3, 4, 5]
    );

    let mut params = Params::new();
    params.insert("limit".to_string(), "x".to_string());
    params.insert("offset".to_string(), "5".to_string());
    assert!(matches!(
        kb_list::get_kb(params, &db),
        Err(Error::ParseError(_))
    ));

    let mut params = Params::new();
    params.insert("limit".to_string(), "1".to_string());
    assert_eq!(
        kb_list::get_kb(params, &db).unwrap_err(),
        Error::ParamsAbsent
    );
}

#[test]
fn only_the_owner_is_the_owner() {
    let mut db = store_with(0);
    let entry = db.add_kb(new_kb("mine"), &AccountId(1)).unwrap();
    assert_eq!(db.is_owner_of_kb(&AccountId(1), entry.id.0), Ok(true));
    assert_eq!(db.is_owner_of_kb(&AccountId(2), entry.id.0), Ok(false));
    assert_eq!(db.is_owner_of_kb(&AccountId(1), 55), Ok(false));
    assert_eq!(db.is_owner_of_kb(&AccountId(3), entry.id.0), Ok(false));
}

#[test]
fn another_account_cannot_change_an_entry() {
    let mut db = store_with(0);
    let entry = db.add_kb(new_kb("mine"), &AccountId(1)).unwrap();
    assert_eq!(db.is_owner_of_kb(&AccountId(2), entry.id.0), Ok(false));

    assert_eq!(
        db.update_kb(change("theirs"), entry.id.0, &AccountId(2))
            .unwrap_err(),
        Error::Unauthorized
    );
    assert_eq!(
        kb_list::update_kb(entry.id.0, session_of(2), &mut db, change("theirs")).unwrap_err(),
        Error::Unauthorized
    );
    assert_eq!(
        db.delete_kb(entry.id.0, &AccountId(2)),
        Err(Error::Unauthorized)
    );
    assert_eq!(
        kb_list::delete_kb(entry.id.0, session_of(2), &mut db),
        Err(Error::Unauthorized)
    );

    let stored = db.get_kb_by_id(entry.id.0).unwrap();
    assert_eq!(stored.title, "mine");
    assert_eq!(stored.content, "about mine");
    assert_eq!(stored.tags, entry.tags);
    assert_eq!(stored.account_id, AccountId(1));
    assert_eq!(db.get_kb(None, 0).unwrap().len(), 1);
}

#[test]
fn the_owner_changes_an_entry() {
    let mut db = store_with(3);
    let updated = db.update_kb(change("new"), 2, &AccountId(1)).unwrap();
    assert_eq!(updated.id, KBId(2));
    assert_eq!(updated.account_id, AccountId(1));
    assert_eq!(updated.title, "new");
    assert_eq!(updated.content, "changed");
    assert_eq!(updated.tags, None);
    assert_eq!(
        titles(&db.get_kb(None, 0).unwrap()),
        vec!["entry 1", "new", "entry 3"]
    );
    assert_eq!(ids(&db.get_kb(None, 0).unwrap()), vec![1, 2, 3]);
    assert_eq!(db.is_owner_of_kb(&AccountId(1), 2), Ok(true));
    assert_eq!(db.is_owner_of_kb(&AccountId(999), 2), Ok(false));
    assert_eq!(db.get_kb_by_id(999).unwrap_err(), Error::QueryError);

    let again = kb_list::update_kb(3, session_of(1), &mut db, change("newer")).unwrap();
    assert_eq!(again.id, KBId(3));
    assert_eq!(db.get_kb_by_id(3).unwrap().title, "newer");
}

#[test]
fn changing_an_absent_entry_fails() {
    let mut db = store_with(1);
    assert_eq!(
        db.update_kb(change("new"), 9, &AccountId(1)).unwrap_err(),
        Error::QueryError
    );
    assert_eq!(db.delete_kb(9, &AccountId(1)), Err(Error::QueryError));
    assert_eq!(
        kb_list::update_kb(9, session_of(1), &mut db, change("new")).unwrap_err(),
        Error::Unauthorized
    );
    assert_eq!(
        kb_list::delete_kb(9, session_of(1), &mut db),
        Err(Error::Unauthorized)
    );
    assert_eq!(titles(&db.get_kb(None, 0).unwrap()), vec!["entry 1"]);
}

#[test]
fn the_owner_removes_an_entry() {
    let mut db = store_with(3);
    assert_eq!(db.delete_kb(2, &AccountId(1)), Ok(true));
    assert_eq!(ids(&db.get_kb(None, 0).unwrap()), vec![1, 3]);
    assert_eq!(db.get_kb_by_id(2).unwrap_err(), Error::QueryError);
    assert_eq!(db.delete_kb(2, &AccountId(1)), Err(Error::QueryError));
    assert_eq!(kb_list::delete_kb(1, session_of(1), &mut db), Ok(true));
    assert_eq!(ids(&db.get_kb(None, 0).unwrap()), vec![3]);
}

#[test]
fn a_key_is_not_given_out_twice() {
    let mut db = store_with(2);
    assert_eq!(db.delete_kb(2, &AccountId(1)), Ok(true));
    let entry = db.add_kb(new_kb("later"), &AccountId(2)).unwrap();
    assert_eq!(entry.id, KBId(3));
    assert_eq!(ids(&db.get_kb(None, 0).unwrap()), vec![1, 3]);
}

#[test]
fn a_session_adds_an_entry_for_its_account() {
    let mut db = store_with(0);
    let entry = kb_list::add_kb(session_of(2), &mut db, new_kb("theirs")).unwrap();
    assert_eq!(entry.account_id, AccountId(2));
    assert_eq!(db.is_owner_of_kb(&AccountId(2), entry.id.0), Ok(true));
    assert_eq!(db.is_owner_of_kb(&AccountId(1), entry.id.0), Ok(false));
    assert_eq!(
        kb_list::add_kb(session_of(9), &mut db, new_kb("nobody")).unwrap_err(),
        Error::QueryError
    );
}

#[test]
fn a_reply_needs_its_entry() {
    let mut db = store_with(1);
    let posted = db
        .add_reply(
            NewReply {
                content: "thanks".to_string(),
                kb_id: KBId(1),
            },
            &AccountId(2),
        )
        .unwrap();
    assert_eq!(posted.id, ReplyId(1));
    assert_eq!(posted.content, "thanks");
    assert_eq!(posted.kb_id, KBId(1));
    assert_eq!(posted.account_id, AccountId(2));

    let missing = db.add_reply(
        NewReply {
            content: "thanks".to_string(),
            kb_id: KBId(2),
        },
        &AccountId(2),
    );
    assert_eq!(missing.unwrap_err(), Error::QueryError);

    let stranger = db.add_reply(
        NewReply {
            content: "thanks".to_string(),
            kb_id: KBId(1),
        },
        &AccountId(3),
    );
    assert_eq!(stranger.unwrap_err(), Error::QueryError);

    let second = reply::add_reply(
        session_of(1),
        &mut db,
        NewReply {
            content: "welcome".to_string(),
            kb_id: KBId(1),
        },
    )
    .unwrap();
    assert_eq!(second.id, ReplyId(2));
    assert_eq!(second.account_id, AccountId(1));
}

#[test]
fn only_the_owner_owns_a_reply() {
    let mut db = store_with(1);
    let posted = db
        .add_reply(
            NewReply {
                content: "thanks".to_string(),
                kb_id: KBId(1),
            },
            &AccountId(2),
        )
        .unwrap();
    assert_eq!(db.is_owner_of_reply(&AccountId(2), posted.id.0), Ok(true));
    assert_eq!(db.is_owner_of_reply(&AccountId(1), posted.id.0), Ok(false));
    assert_eq!(db.is_owner_of_reply(&AccountId(2), 7), Ok(false));
}

#[test]
fn pages_that_follow_each_other_show_every_entry_once() {
    let db = store_with(5);
    let mut joined = ids(&db.get_kb(Some(2), 0).unwrap());
    joined.extend(ids(&db.get_kb(Some(2), 2).unwrap()));
    joined.extend(ids(&db.get_kb(None, 4).unwrap()));
    assert_eq!(joined, ids(&db.get_kb(None, 0).unwrap()));
    assert_eq!(joined, vec![1, 2, 3, 4, 5]);
}
