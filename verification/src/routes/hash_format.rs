use vstd::prelude::*;
use crate::types::pagination::bytes_of;
use crate::types::pagination::decimal_value;
use crate::types::pagination::is_digit;

verus! {

/// The most memory, in blocks of 1 KiB, that a hash may ask for: 2 GiB.
pub const MAX_MEMORY_COST: u32 = 2_097_152;

/// The most passes over the memory that a hash may ask for.
pub const MAX_TIME_COST: u32 = 256;

/// The most lanes, each worked by a thread of its own, that a hash may ask
/// for.
pub const MAX_LANES: u32 = 256;

/// What checking a hash costs, as its header names it: the memory in blocks
/// of 1 KiB, the passes over it, and the lanes.
#[derive(Debug, Clone, Copy, PartialEq, Eq, Structural)]
pub struct Costs {
    pub memory: u32,
    pub passes: u32,
    pub lanes: u32,
}

/// Whether the bytes of `word` stand in `s` from the place `at` on.
pub open spec fn has_word_at(s: Seq<u8>, at: int, word: Seq<u8>) -> bool {
    0 <= at && at + word.len() <= s.len() && s.subrange(at, at + word.len()) == word
}

/// Where `word` ends in `s` if it stands there from `at` on.
pub open spec fn word_end(s: Seq<u8>, at: int, word: Seq<u8>) -> Option<int> {
    if has_word_at(s, at, word) {
        Some(at + word.len())
    } else {
        None
    }
}

/// The first of two places that is there.
pub open spec fn first_of(a: Option<int>, b: Option<int>) -> Option<int> {
    if a is Some {
        a
    } else {
        b
    }
}

/// Where the run of decimal digits that starts at `at` ends: `at` itself
/// where no digit stands there.
pub open spec fn digits_end(s: Seq<u8>, at: int) -> int
    decreases s.len() - at,
{
    if 0 <= at < s.len() && is_digit(s[at]) {
        digits_end(s, at + 1)
    } else {
        at
    }
}

/// The number that the digits from `at` on write, and where they end, if at
/// least one digit stands there.
pub open spec fn number_at(s: Seq<u8>, at: int) -> Option<(nat, int)> {
    let end = digits_end(s, at);
    if 0 <= at < end {
        Some((decimal_value(s.subrange(at, end)), end))
    } else {
        None
    }
}

/// The cost that stands at `at` behind its label, and where it ends: the
/// label, then a number of 32 bits in decimal digits.
pub open spec fn cost_at(s: Seq<u8>, at: int, label: Seq<u8>) -> Option<(u32, int)> {
    if !has_word_at(s, at, label) {
        None
    } else {
        match number_at(s, at + label.len()) {
            Some((value, end)) => if value <= u32::MAX {
                Some((value as u32, end))
            } else {
                None
            },
            None => None,
        }
    }
}

/// Where the name of the variant ends, with the `$` before and after it. The
/// three variants of Argon2 are known, each in small letters or with a
/// capital first letter.
pub open spec fn variant_end(s: Seq<u8>) -> Option<int> {
    first_of(
        word_end(s, 0, bytes_of("$argon2id$"@)),
        first_of(
            word_end(s, 0, bytes_of("$argon2i$"@)),
            first_of(
                word_end(s, 0, bytes_of("$argon2d$"@)),
                first_of(
                    word_end(s, 0, bytes_of("$Argon2id$"@)),
                    first_of(
                        word_end(s, 0, bytes_of("$Argon2i$"@)),
                        word_end(s, 0, bytes_of("$Argon2d$"@)),
                    ),
                ),
            ),
        ),
    )
}

/// Where the version that stands at `at` ends, with the `$` after it: `at`
/// itself where none of the two known versions stands there, since a hash
/// may leave its version out.
pub open spec fn version_end(s: Seq<u8>, at: int) -> int {
    match first_of(word_end(s, at, bytes_of("v=19$"@)), word_end(s, at, bytes_of("v=16$"@))) {
        Some(end) => end,
        None => at,
    }
}

/// The costs that the header of a hash names. The header is a `$`, the
/// variant, a `$`, the version and a `$` or neither, then `m=`, `,t=` and
/// `,p=`, each followed by a number, and a `$`. What follows the header is
/// not looked at.
#[verifier::opaque]
pub open spec fn header_costs(s: Seq<u8>) -> Option<Costs> {
    match variant_end(s) {
        None => None,
        Some(a) => match cost_at(s, version_end(s, a), bytes_of("m="@)) {
            None => None,
            Some((memory, b)) => match cost_at(s, b, bytes_of(",t="@)) {
                None => None,
                Some((passes, c)) => match cost_at(s, c, bytes_of(",p="@)) {
                    None => None,
                    Some((lanes, d)) => if has_word_at(s, d, bytes_of("$"@)) {
                        Some(Costs { memory, passes, lanes })
                    } else {
                        None
                    },
                },
            },
        },
    }
}

/// Whether a hash can be checked: its header names costs, and none of them
/// is above what this service is willing to spend on a check.
pub open spec fn checkable(s: Seq<u8>) -> bool {
    match header_costs(s) {
        Some(costs) => costs.memory <= MAX_MEMORY_COST && costs.passes <= MAX_TIME_COST
            && costs.lanes <= MAX_LANES,
        None => false,
    }
}

/// Where `word` ends in `bytes` if it stands there from `at` on.
pub fn find_word(bytes: &[u8], at: usize, word: &[u8]) -> (end: Option<usize>)
    ensures
        match end {
            Some(e) => word_end(bytes@, at as int, word@) == Some(e as int),
            None => word_end(bytes@, at as int, word@) is None,
        },
{
    if at > bytes.len() || word.len() > bytes.len() - at {
        return None;
    }
    let ghost part = bytes@.subrange(at as int, at + word@.len());
    let mut i: usize = 0;
    while i < word.len()
        invariant
            i <= word@.len(),
            at + word@.len() <= bytes@.len(),
            bytes@.len() <= usize::MAX,
            part == bytes@.subrange(at as int, at + word@.len()),
            forall|k: int| 0 <= k < i ==> #[trigger] part[k] == word@[k],
        decreases word.len() - i,
    {
        if bytes[at + i] != word[i] {
            assert(part[i as int] != word@[i as int]);
            return None;
        }
        assert(part[i as int] == word@[i as int]);
        i = i + 1;
    }
    assert(part =~= word@);
    Some(at + word.len())
}

/// A number as far as it is read: itself where it fits in 32 bits, else one
/// more than the largest that does.
pub open spec fn capped(value: nat) -> u64 {
    if value <= u32::MAX {
        value as u64
    } else {
        0x1_0000_0000u64
    }
}

/// Reads the number that the digits from `at` on write, capped, and where
/// they end.
pub fn read_number(bytes: &[u8], at: usize) -> (r: Option<(u64, usize)>)
    ensures
        match r {
            Some((value, end)) => number_at(bytes@, at as int) is Some && value == capped(
                number_at(bytes@, at as int).unwrap().0,
            ) && end == number_at(bytes@, at as int).unwrap().1,
            None => number_at(bytes@, at as int) is None,
        },
{
    let mut i: usize = at;
    let mut value: u64 = 0;
    while i < bytes.len() && bytes[i] >= 48 && bytes[i] <= 57
        invariant
            at <= i,
            i <= bytes@.len() || i == at,
            digits_end(bytes@, at as int) == digits_end(bytes@, i as int),
            i > at ==> value == capped(decimal_value(bytes@.subrange(at as int, i as int))),
            i == at ==> value == 0,
        decreases bytes@.len() - i,
    {
        proof {
            let before = bytes@.subrange(at as int, i as int);
            let with_digit = bytes@.subrange(at as int, i + 1);
            assert(with_digit.drop_last() =~= before);
            assert(with_digit.last() == bytes@[i as int]);
            assert(decimal_value(with_digit) == decimal_value(before) * 10 + (bytes@[i as int]
                - 48) as nat);
            if i == at {
                assert(before.len() == 0);
                assert(decimal_value(before) == 0);
            }
        }
        if value > 0xFFFF_FFFF {
            value = 0x1_0000_0000;
        } else {
            value = value * 10 + (bytes[i] - 48) as u64;
            if value > 0xFFFF_FFFF {
                value = 0x1_0000_0000;
            }
        }
        i = i + 1;
    }
    if i == at {
        None
    } else {
        Some((value, i))
    }
}

/// Reads the cost that stands at `at` behind its label, and where it ends.
pub fn read_cost(bytes: &[u8], at: usize, label: &[u8]) -> (r: Option<(u32, usize)>)
    ensures
        match r {
            Some((value, end)) => cost_at(bytes@, at as int, label@) == Some((value, end as int)),
            None => cost_at(bytes@, at as int, label@) is None,
        },
{
    let from: usize = match find_word(bytes, at, label) {
        Some(from) => from,
        None => {
            return None;
        },
    };
    match read_number(bytes, from) {
        Some((value, end)) => {
            if value > 0xFFFF_FFFF {
                None
            } else {
                Some((value as u32, end))
            }
        },
        None => None,
    }
}

/// Reads where the name of the variant ends.
fn read_variant(bytes: &[u8]) -> (end: Option<usize>)
    ensures
        match end {
            Some(e) => variant_end(bytes@) == Some(e as int),
            None => variant_end(bytes@) is None,
        },
{
    match find_word(bytes, 0, "$argon2id$".as_bytes()) {
        Some(e) => {
            return Some(e);
        },
        None => {},
    }
    match find_word(bytes, 0, "$argon2i$".as_bytes()) {
        Some(e) => {
            return Some(e);
        },
        None => {},
    }
    match find_word(bytes, 0, "$argon2d$".as_bytes()) {
        Some(e) => {
            return Some(e);
        },
        None => {},
    }
    match find_word(bytes, 0, "$Argon2id$".as_bytes()) {
        Some(e) => {
            return Some(e);
        },
        None => {},
    }
    match find_word(bytes, 0, "$Argon2i$".as_bytes()) {
        Some(e) => {
            return Some(e);
        },
        None => {},
    }
    find_word(bytes, 0, "$Argon2d$".as_bytes())
}

/// Reads where the version that stands at `at` ends.
fn read_version(bytes: &[u8], at: usize) -> (end: usize)
    ensures
        end == version_end(bytes@, at as int),
{
    match find_word(bytes, at, "v=19$".as_bytes()) {
        Some(e) => {
            return e;
        },
        None => {},
    }
    match find_word(bytes, at, "v=16$".as_bytes()) {
        Some(e) => e,
        None => at,
    }
}

/// Reads the costs that the header of a hash names.
pub fn read_header(hash: &str) -> (costs: Option<Costs>)
    ensures
        costs == header_costs(bytes_of(hash@)),
{
    proof {
        reveal(header_costs);
    }
    let bytes = hash.as_bytes();
    let a: usize = match read_variant(bytes) {
        Some(a) => a,
        None => {
            return None;
        },
    };
    let after_version: usize = read_version(bytes, a);
    let (memory, b) = match read_cost(bytes, after_version, "m=".as_bytes()) {
        Some(found) => found,
        None => {
            return None;
        },
    };
    let (passes, c) = match read_cost(bytes, b, ",t=".as_bytes()) {
        Some(found) => found,
        None => {
            return None;
        },
    };
    let (lanes, d) = match read_cost(bytes, c, ",p=".as_bytes()) {
        Some(found) => found,
        None => {
            return None;
        },
    };
    match find_word(bytes, d, "$".as_bytes()) {
        Some(_) => Some(Costs { memory, passes, lanes }),
        None => None,
    }
}

/// Whether a hash can be checked.
pub fn is_checkable(hash: &str) -> (yes: bool)
    ensures
        yes == checkable(bytes_of(hash@)),
{
    match read_header(hash) {
        Some(costs) => costs.memory <= MAX_MEMORY_COST && costs.passes <= MAX_TIME_COST
            && costs.lanes <= MAX_LANES,
        None => false,
    }
}

/// A digit makes the run of digits that starts at it one longer.
proof fn lemma_digit_goes_on(s: Seq<u8>, at: int)
    requires
        0 <= at < s.len(),
        is_digit(s[at]),
    ensures
        digits_end(s, at) == digits_end(s, at + 1),
{
}

/// A run of digits ends where no digit stands.
proof fn lemma_digits_stop(s: Seq<u8>, at: int)
    requires
        !(0 <= at < s.len() && is_digit(s[at])),
    ensures
        digits_end(s, at) == at,
{
}

/// A digit more multiplies the number by ten and adds the digit.
proof fn lemma_digit_more(s: Seq<u8>, from: int, to: int)
    requires
        0 <= from <= to < s.len(),
    ensures
        decimal_value(s.subrange(from, to + 1)) == decimal_value(s.subrange(from, to)) * 10 + (
        s[to] - 48) as nat,
{
    assert(s.subrange(from, to + 1).drop_last() =~= s.subrange(from, to));
}

/// The bytes of a text of ASCII characters are its characters.
proof fn lemma_ascii_bytes(text: Seq<char>)
    requires
        vstd::utf8::is_ascii_chars(text),
    ensures
        bytes_of(text).len() == text.len(),
        forall|i: int| 0 <= i < text.len() ==> #[trigger] bytes_of(text)[i] == text[i] as u8,
{
    vstd::utf8::is_ascii_chars_encode_utf8(text);
}

/// A hash that begins with the header of the default configuration of the
/// `argon2` crate names 4096 blocks of memory, 3 passes and 1 lane.
pub proof fn lemma_default_header(s: Seq<u8>)
    requires
        has_word_at(s, 0, bytes_of("$argon2i$v=19$m=4096,t=3,p=1$"@)),
    ensures
        header_costs(s) == Some(Costs { memory: 4096, passes: 3, lanes: 1 }),
        checkable(s),
{
    let header = bytes_of("$argon2i$v=19$m=4096,t=3,p=1$"@);
    reveal(header_costs);
    reveal_strlit("$argon2i$v=19$m=4096,t=3,p=1$");
    reveal_strlit("$argon2id$");
    reveal_strlit("$argon2i$");
    reveal_strlit("v=19$");
    reveal_strlit("m=");
    reveal_strlit(",t=");
    reveal_strlit(",p=");
    reveal_strlit("$");
    lemma_ascii_bytes("$argon2i$v=19$m=4096,t=3,p=1$"@);
    lemma_ascii_bytes("$argon2id$"@);
    lemma_ascii_bytes("$argon2i$"@);
    lemma_ascii_bytes("v=19$"@);
    lemma_ascii_bytes("m="@);
    lemma_ascii_bytes(",t="@);
    lemma_ascii_bytes(",p="@);
    lemma_ascii_bytes("$"@);
    assert(header.len() == 29);
    assert(header =~= s.subrange(0, 29));
    assert forall|i: int| 0 <= i < 29 implies s[i] == #[trigger] header[i] by {
        assert(s.subrange(0, 29)[i] == s[i]);
    }
    // The variant.
    assert(!has_word_at(s, 0, bytes_of("$argon2id$"@))) by {
        if has_word_at(s, 0, bytes_of("$argon2id$"@)) {
            assert(s.subrange(0, 10)[8] == bytes_of("$argon2id$"@)[8]);
            assert(header[8] == 36);
        }
    }
    assert(s.subrange(0, 9) =~= bytes_of("$argon2i$"@));
    assert(variant_end(s) == Some(9int));
    assert(s[9] == header[9] && header[9] == 118u8);
    assert(s[10] == header[10] && header[10] == 61u8);
    assert(s[11] == header[11] && header[11] == 49u8);
    assert(s[12] == header[12] && header[12] == 57u8);
    assert(s[13] == header[13] && header[13] == 36u8);
    assert(s[14] == header[14] && header[14] == 109u8);
    assert(s[15] == header[15] && header[15] == 61u8);
    assert(s[16] == header[16] && header[16] == 52u8);
    assert(s[17] == header[17] && header[17] == 48u8);
    assert(s[18] == header[18] && header[18] == 57u8);
    assert(s[19] == header[19] && header[19] == 54u8);
    assert(s[20] == header[20] && header[20] == 44u8);
    assert(s[21] == header[21] && header[21] == 116u8);
    assert(s[22] == header[22] && header[22] == 61u8);
    assert(s[23] == header[23] && header[23] == 51u8);
    assert(s[24] == header[24] && header[24] == 44u8);
    assert(s[25] == header[25] && header[25] == 112u8);
    assert(s[26] == header[26] && header[26] == 61u8);
    assert(s[27] == header[27] && header[27] == 49u8);
    assert(s[28] == header[28] && header[28] == 36u8);
    // The version.
    assert(s.subrange(9, 14) =~= bytes_of("v=19$"@)) by {
        let word = bytes_of("v=19$"@);
        assert(word[0] == 118u8);
        assert(word[1] == 61u8);
        assert(word[2] == 49u8);
        assert(word[3] == 57u8);
        assert(word[4] == 36u8);
    }
    assert(version_end(s, 9) == 14);
    // The memory.
    assert(s.subrange(14, 16) =~= bytes_of("m="@)) by {
        let word = bytes_of("m="@);
        assert(word[0] == 109u8);
        assert(word[1] == 61u8);
    }
    lemma_digit_goes_on(s, 16);
    lemma_digit_goes_on(s, 17);
    lemma_digit_goes_on(s, 18);
    lemma_digit_goes_on(s, 19);
    lemma_digits_stop(s, 20);
    assert(decimal_value(s.subrange(16, 16)) == 0);
    lemma_digit_more(s, 16, 16);
    lemma_digit_more(s, 16, 17);
    lemma_digit_more(s, 16, 18);
    lemma_digit_more(s, 16, 19);
    assert(cost_at(s, 14, bytes_of("m="@)) == Some((4096u32, 20int)));
    // The passes.
    assert(s.subrange(20, 23) =~= bytes_of(",t="@)) by {
        let word = bytes_of(",t="@);
        assert(word[0] == 44u8);
        assert(word[1] == 116u8);
        assert(word[2] == 61u8);
    }
    lemma_digit_goes_on(s, 23);
    lemma_digits_stop(s, 24);
    assert(decimal_value(s.subrange(23, 23)) == 0);
    lemma_digit_more(s, 23, 23);
    assert(cost_at(s, 20, bytes_of(",t="@)) == Some((3u32, 24int)));
    // The lanes.
    assert(s.subrange(24, 27) =~= bytes_of(",p="@)) by {
        let word = bytes_of(",p="@);
        assert(word[0] == 44u8);
        assert(word[1] == 112u8);
        assert(word[2] == 61u8);
    }
    lemma_digit_goes_on(s, 27);
    lemma_digits_stop(s, 28);
    assert(decimal_value(s.subrange(27, 27)) == 0);
    lemma_digit_more(s, 27, 27);
    assert(cost_at(s, 24, bytes_of(",p="@)) == Some((1u32, 28int)));
    assert(s.subrange(28, 29) =~= bytes_of("$"@)) by {
        let word = bytes_of("$"@);
        assert(word[0] == 36u8);
    }
}

} // verus!
