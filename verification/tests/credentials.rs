use kb_center::error::Error;
use kb_center::routes::auth::{has_known_parameters, hash_password, verify_password};
use kb_center::routes::hash_format::{
    find_word, is_checkable, read_cost, read_header, read_number, Costs, MAX_LANES,
    MAX_MEMORY_COST, MAX_TIME_COST,
};

#[test]
fn a_hash_verifies_its_password() {
    let hash = hash_password(b"correct horse battery staple");
    assert_eq!(
        verify_password(&hash, b"correct horse battery staple"),
        Ok(true)
    );
}

#[test]
fn a_hash_rejects_another_password() {
    let hash = hash_password(b"correct horse battery staple");
    assert_eq!(
        verify_password(&hash, b"correct horse battery stapler"),
        Ok(false)
    );
    assert_eq!(verify_password(&hash, b""), Ok(false));
}

#[test]
fn the_empty_password_can_be_hashed() {
    let hash = hash_password(b"");
    assert_eq!(verify_password(&hash, b""), Ok(true));
    assert_eq!(verify_password(&hash, b" "), Ok(false));
}

#[test]
fn two_hashes_of_one_password_differ() {
    let first = hash_password(b"hunter2");
    let second = hash_password(b"hunter2");
    assert_ne!(first, second);
    assert_eq!(verify_password(&first, b"hunter2"), Ok(true));
    assert_eq!(verify_password(&second, b"hunter2"), Ok(true));
}

#[test]
fn a_hash_describes_itself_and_hides_the_password() {
    let hash = hash_password(b"hunter2");
    assert!(hash.starts_with("$argon2i$v=19$m=4096,t=3,p=1$"));
    assert!(has_known_parameters(&hash));
    assert!(!hash.contains("hunter2"));
    assert_ne!(hash.as_bytes(), b"hunter2");
    let parts: Vec<&str> = hash.split('$').collect();
    assert_eq!(parts.len(), 6);
    // 32 bytes of salt and 32 bytes of digest, each in 43 characters.
    assert_eq!(parts[4].len(), 43);
    assert_eq!(parts[5].len(), 43);
}

#[test]
fn a_known_hash_is_checked() {
    let hash = "$argon2i$v=19$m=4096,t=3,p=1$c29tZXNhbHQ$iWh06vD8Fy27wf9npn6FXWiCX4K6pW6Ue1Bnzz07Z8A";
    assert_eq!(verify_password(hash, b"password"), Ok(true));
    assert_eq!(verify_password(hash, b"Password"), Ok(false));
}

#[test]
fn a_hash_with_other_parameters_is_checked_with_them() {
    for (hash, password) in [
        (
            "$argon2i$v=19$m=4096,t=3,p=4$YWJjZGVmZ2hpamtsbW5vcHFyc3R1dnd4eXo$BvBk2OaSofBHfbrUW61nHrWB/43xgfs/QJJ5DkMAd8I",
            &b"foo"[..],
        ),
        (
            "$argon2d$m=256,t=2,p=1$c29tZXNhbHQ$vUBIaP8AxS51Q8gzLmp3KlckiS1+Mo1c8lO7yOcms3E",
            &b"password"[..],
        ),
        (
            "$argon2d$m=256,t=2,p=2$c29tZXNhbHQ$apHQK5+IVLoIQfBKpuU8HTN0wKDGRrjkMbA96AW5HsM",
            &b"password"[..],
        ),
        (
            "$argon2d$v=19$m=256,t=2,p=1$c29tZXNhbHQ$JcTui6RIBUtJ78gE5Hi52CO+H5vS6Z9R1uxAB6OhUB8",
            &b"password"[..],
        ),
        (
            "$argon2i$m=256,t=2,p=1$c29tZXNhbHQ$/U3YPXYsSb3q9XxHvc0MLxur+GP960kN9j7emXX8zwY",
            &b"password"[..],
        ),
        (
            "$argon2i$v=19$m=256,t=2,p=2$c29tZXNhbHQ$T/XOJ2mh1/TIpJHfCdQan76Q5esCFVoT5MAeIM1Oq2E",
            &b"password"[..],
        ),
        (
            "$argon2id$v=16$m=256,t=2,p=1$c29tZXNhbHQ$2gcOV25Q8vOKPIl8vdxsf7QCjocJcf+erntOGHkpXm4",
            &b"password"[..],
        ),
        (
            "$argon2id$v=19$m=256,t=2,p=2$c29tZXNhbHQ$bQk8UB/VmZZF4Oo79iDXuL5/0ttZwg2f/5U52iv1cDc",
            &b"password"[..],
        ),
        (
            "$Argon2id$v=19$m=256,t=2,p=1$c29tZXNhbHQ$nf65EOgLrQMR/uIPnA4rEsF5h7TKyQwu9U1bMCHGi/4",
            &b"password"[..],
        ),
    ] {
        assert!(is_checkable(hash), "{}", hash);
        assert_eq!(verify_password(hash, password), Ok(true), "{}", hash);
        assert_eq!(verify_password(hash, b"another"), Ok(false), "{}", hash);
    }
}

#[test]
fn a_digest_made_with_other_parameters_does_not_match() {
    // The digest of "password" under version 19, read as one of version 16.
    let hash = "$argon2i$v=16$m=4096,t=3,p=1$c29tZXNhbHQ$iWh06vD8Fy27wf9npn6FXWiCX4K6pW6Ue1Bnzz07Z8A";
    assert_eq!(verify_password(hash, b"password"), Ok(false));
    let hash = "$argon2id$v=19$m=4096,t=3,p=1$c29tZXNhbHQ$iWh06vD8Fy27wf9npn6FXWiCX4K6pW6Ue1Bnzz07Z8A";
    assert_eq!(verify_password(hash, b"password"), Ok(false));
    let hash = "$argon2i$v=19$m=4096,t=2,p=1$c29tZXNhbHQ$iWh06vD8Fy27wf9npn6FXWiCX4K6pW6Ue1Bnzz07Z8A";
    assert_eq!(verify_password(hash, b"password"), Ok(false));
}

#[test]
fn a_hash_that_asks_for_too_much_is_a_format_error() {
    assert_eq!(MAX_MEMORY_COST, 2_097_152);
    assert_eq!(MAX_TIME_COST, 256);
    assert_eq!(MAX_LANES, 256);
    for hash in [
        "$argon2i$v=19$m=4096,t=3,p=16777215$c29tZXNhbHQ$iWh06vD8Fy27wf9npn6FXWiCX4K6pW6Ue1Bnzz07Z8A",
        "$argon2i$v=19$m=4294967295,t=3,p=1$c29tZXNhbHQ$iWh06vD8Fy27wf9npn6FXWiCX4K6pW6Ue1Bnzz07Z8A",
        "$argon2i$v=19$m=4096,t=4294967295,p=1$c29tZXNhbHQ$iWh06vD8Fy27wf9npn6FXWiCX4K6pW6Ue1Bnzz07Z8A",
        "$argon2i$v=19$m=2097153,t=3,p=1$c29tZXNhbHQ$iWh06vD8Fy27wf9npn6FXWiCX4K6pW6Ue1Bnzz07Z8A",
        "$argon2i$v=19$m=4096,t=257,p=1$c29tZXNhbHQ$iWh06vD8Fy27wf9npn6FXWiCX4K6pW6Ue1Bnzz07Z8A",
        "$argon2i$v=19$m=4096,t=3,p=257$c29tZXNhbHQ$iWh06vD8Fy27wf9npn6FXWiCX4K6pW6Ue1Bnzz07Z8A",
        "$argon2i$v=19$m=99999999999999999999,t=3,p=1$c29tZXNhbHQ$iWh06vD8Fy27wf9npn6FXWiCX4K6pW6Ue1Bnzz07Z8A",
    ] {
        assert!(!is_checkable(hash), "{}", hash);
        assert_eq!(
            verify_password(hash, b"password"),
            Err(Error::HashFormatError)
        );
    }
    assert!(is_checkable("$argon2i$v=19$m=2097152,t=256,p=256$c29tZXNhbHQ$iWh0"));
}

#[test]
fn costs_the_crate_refuses_are_a_format_error() {
    for hash in [
        "$argon2i$v=19$m=0,t=3,p=1$c29tZXNhbHQ$iWh06vD8Fy27wf9npn6FXWiCX4K6pW6Ue1Bnzz07Z8A",
        "$argon2i$v=19$m=4096,t=0,p=1$c29tZXNhbHQ$iWh06vD8Fy27wf9npn6FXWiCX4K6pW6Ue1Bnzz07Z8A",
        "$argon2i$v=19$m=4096,t=3,p=0$c29tZXNhbHQ$iWh06vD8Fy27wf9npn6FXWiCX4K6pW6Ue1Bnzz07Z8A",
        "$argon2i$v=19$m=15,t=3,p=2$c29tZXNhbHQ$iWh06vD8Fy27wf9npn6FXWiCX4K6pW6Ue1Bnzz07Z8A",
    ] {
        assert!(is_checkable(hash), "{}", hash);
        assert_eq!(
            verify_password(hash, b"password"),
            Err(Error::HashFormatError)
        );
    }
}

#[test]
fn the_header_of_a_hash_is_read() {
    let costs = |memory, passes, lanes| {
        Some(Costs {
            memory,
            passes,
            lanes,
        })
    };
    assert_eq!(
        read_header("$argon2i$v=19$m=4096,t=3,p=1$salt$digest"),
        costs(4096, 3, 1)
    );
    assert_eq!(
        read_header("$argon2id$v=19$m=65536,t=2,p=4$"),
        costs(65536, 2, 4)
    );
    assert_eq!(read_header("$argon2d$v=16$m=8,t=1,p=1$x"), costs(8, 1, 1));
    assert_eq!(read_header("$argon2d$m=256,t=2,p=2$x"), costs(256, 2, 2));
    assert_eq!(read_header("$Argon2i$m=256,t=2,p=2$x"), costs(256, 2, 2));
    assert_eq!(read_header("$Argon2d$v=19$m=1,t=2,p=3$"), costs(1, 2, 3));
    assert_eq!(
        read_header("$argon2i$m=0004096,t=03,p=001$x"),
        costs(4096, 3, 1)
    );
    assert_eq!(
        read_header("$argon2i$m=4294967295,t=0,p=0$x"),
        costs(4_294_967_295, 0, 0)
    );
    assert_eq!(read_header(&hash_password(b"x")), costs(4096, 3, 1));
}

#[test]
fn a_header_that_is_none_is_not_read() {
    for hash in [
        "",
        "$",
        "argon2i$v=19$m=4096,t=3,p=1$",
        "$argon2$v=19$m=4096,t=3,p=1$",
        "$argon2x$v=19$m=4096,t=3,p=1$",
        "$ARGON2I$v=19$m=4096,t=3,p=1$",
        "$argon2i$v=17$m=4096,t=3,p=1$",
        "$argon2i$v=19$v=19$m=4096,t=3,p=1$",
        "$argon2i$v=19$t=3,p=1$",
        "$argon2i$v=19$m=,t=3,p=1$",
        "$argon2i$v=19$m=a,t=3,p=1$",
        "$argon2i$v=19$m=+4096,t=3,p=1$",
        "$argon2i$v=19$m=-4096,t=3,p=1$",
        "$argon2i$v=19$m=4096 ,t=3,p=1$",
        "$argon2i$v=19$m=4096,p=1$",
        "$argon2i$v=19$m=4096,t=,p=1$",
        "$argon2i$v=19$m=4096,t=3$",
        "$argon2i$v=19$m=4096,t=3,p=$",
        "$argon2i$v=19$m=4096,t=3,p=a$",
        "$argon2i$v=19$m=4096,t=3,p=1",
        "$argon2i$v=19$m=4096,t=3,p=1,x=2$",
        "$argon2i$v=19$t=3,m=4096,p=1$",
        "$argon2i$v=19$m=4294967296,t=3,p=1$",
        "$argon2i$v=19$m=4096,t=3,p=99999999999$",
    ] {
        assert_eq!(read_header(hash), None, "{}", hash);
        assert!(!is_checkable(hash), "{}", hash);
        assert_eq!(
            verify_password(hash, b"password"),
            Err(Error::HashFormatError)
        );
    }
}

#[test]
fn words_and_numbers_are_read_where_they_stand() {
    let text = b"ab=012,cd";
    assert_eq!(find_word(text, 0, b"ab="), Some(3));
    assert_eq!(find_word(text, 0, b"ab=012,cd"), Some(9));
    assert_eq!(find_word(text, 0, b""), Some(0));
    assert_eq!(find_word(text, 9, b""), Some(9));
    assert_eq!(find_word(text, 10, b""), None);
    assert_eq!(find_word(text, 1, b"ab="), None);
    assert_eq!(find_word(text, 7, b"cd"), Some(9));
    assert_eq!(find_word(text, 7, b"cde"), None);
    assert_eq!(find_word(text, usize::MAX, b"a"), None);
    assert_eq!(read_number(text, 3), Some((12, 6)));
    assert_eq!(read_number(text, 5), Some((2, 6)));
    assert_eq!(read_number(text, 6), None);
    assert_eq!(read_number(text, 9), None);
    assert_eq!(read_number(text, 50), None);
    assert_eq!(read_number(b"4294967295", 0), Some((4_294_967_295, 10)));
    assert_eq!(read_number(b"4294967296", 0), Some((4_294_967_296, 10)));
    assert_eq!(
        read_number(b"99999999999999999999999999", 0),
        Some((4_294_967_296, 26))
    );
    assert_eq!(read_cost(text, 0, b"ab="), Some((12, 6)));
    assert_eq!(read_cost(text, 0, b"ab"), None);
    assert_eq!(read_cost(text, 6, b","), None);
    assert_eq!(read_cost(b"m=4294967296", 0, b"m="), None);
}

#[test]
fn a_hash_with_the_parameters_and_a_bad_rest_is_a_format_error() {
    for hash in [
        "$argon2i$v=19$m=4096,t=3,p=1$",
        "$argon2i$v=19$m=4096,t=3,p=1$$",
        "$argon2i$v=19$m=4096,t=3,p=1$c29tZXNhbHQ$",
        "$argon2i$v=19$m=4096,t=3,p=1$c29t$iWh06vD8Fy27wf9npn6FXWiCX4K6pW6Ue1Bnzz07Z8A",
        "$argon2i$v=19$m=4096,t=3,p=1$c29tZXNhbHQ$iWh0$more",
        "$argon2i$v=19$m=4096,t=3,p=1$c29tZXNhbHQ$!!!!",
    ] {
        assert!(has_known_parameters(hash), "{}", hash);
        assert_eq!(
            verify_password(hash, b"password"),
            Err(Error::HashFormatError)
        );
    }
}

#[test]
fn a_corrupt_hash_is_a_format_error() {
    assert_eq!(
        verify_password("not a hash", b"hunter2"),
        Err(Error::HashFormatError)
    );
    assert_eq!(verify_password("", b"hunter2"), Err(Error::HashFormatError));
    assert_eq!(
        verify_password("$argon2i$v=19$m=4096,t=3,p=1$c29tZXNhbHQ", b"password"),
        Err(Error::HashFormatError)
    );
    assert_eq!(
        verify_password("hunter2", b"hunter2"),
        Err(Error::HashFormatError)
    );
}

#[test]
fn a_fresh_hash_answers_for_every_password() {
    let hash = hash_password(b"hunter2");
    for other in [&b""[..], b"hunter", b"hunter22", b"HUNTER2", &[0u8; 300][..]] {
        assert_eq!(verify_password(&hash, other), Ok(false));
    }
    assert_eq!(verify_password(&hash, b"hunter2"), Ok(true));
}
