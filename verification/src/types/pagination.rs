use vstd::prelude::*;
use crate::error::Error;
use crate::error::ParseFailure;

verus! {

/// Which part of a listing is asked for: at most `limit` rows (all of them
/// where it is `None`), after skipping `offset` rows.
#[derive(Debug, PartialEq, Eq)]
pub struct Pagination {
    pub limit: Option<i32>,
    pub offset: i32,
}

impl Default for Pagination {
    /// The page of a request that names no bounds: everything, from the start.
    fn default() -> (page: Pagination)
        ensures
            page.limit is None,
            page.offset == 0,
    {
        Pagination { limit: None, offset: 0 }
    }
}

/// The bytes that encode a text.
pub open spec fn bytes_of(text: Seq<char>) -> Seq<u8> {
    vstd::utf8::encode_utf8(text)
}

/// Whether a byte is an ASCII decimal digit.
pub open spec fn is_digit(b: u8) -> bool {
    48 <= b <= 57
}

/// Whether every byte of `s` is a decimal digit.
pub open spec fn all_digits(s: Seq<u8>) -> bool {
    forall|i: int| 0 <= i < s.len() ==> is_digit(#[trigger] s[i])
}

/// The number that a run of decimal digits writes.
pub open spec fn decimal_value(s: Seq<u8>) -> nat
    decreases s.len(),
{
    if s.len() == 0 {
        0
    } else {
        decimal_value(s.drop_last()) * 10 + (s.last() - 48) as nat
    }
}

/// Whether `s` begins with `+` or `-`.
pub open spec fn has_sign(s: Seq<u8>) -> bool {
    s.len() > 0 && (s[0] == 43 || s[0] == 45)
}

/// What follows the sign of `s`, or all of `s` where it has none.
pub open spec fn digits_of(s: Seq<u8>) -> Seq<u8> {
    if has_sign(s) {
        s.subrange(1, s.len() as int)
    } else {
        s
    }
}

/// The count that the bytes `s` write, or why they write none. A count is an
/// optional sign followed by at least one decimal digit; it is not below zero
/// and fits in 32 bits.
pub open spec fn parse_number(s: Seq<u8>) -> Result<i32, ParseFailure> {
    let d = digits_of(s);
    if s.len() == 0 {
        Err(ParseFailure::Empty)
    } else if d.len() == 0 || !all_digits(d) {
        Err(ParseFailure::InvalidDigit)
    } else if s[0] == 45 && decimal_value(d) > 0 {
        Err(ParseFailure::Negative)
    } else if decimal_value(d) > i32::MAX {
        Err(ParseFailure::Overflow)
    } else {
        Ok(decimal_value(d) as i32)
    }
}

/// Appending a digit multiplies the value by ten and adds the digit.
proof fn lemma_decimal_value_step(s: Seq<u8>, n: int)
    requires
        0 <= n < s.len(),
    ensures
        decimal_value(s.subrange(0, n + 1)) == decimal_value(s.subrange(0, n)) * 10 + (s[n]
            - 48) as nat,
{
    assert(s.subrange(0, n + 1).drop_last() =~= s.subrange(0, n));
}

/// Reads a count from text.
pub fn parse_count(text: &str) -> (r: Result<i32, ParseFailure>)
    ensures
        r == parse_number(bytes_of(text@)),
        r is Ok ==> r.unwrap() >= 0,
{
    let bytes = text.as_bytes();
    let n: usize = bytes.len();
    if n == 0 {
        return Err(ParseFailure::Empty);
    }
    let signed: bool = bytes[0] == 43 || bytes[0] == 45;
    let negative: bool = bytes[0] == 45;
    let start: usize = if signed { 1 } else { 0 };
    if start == n {
        return Err(ParseFailure::InvalidDigit);
    }
    let ghost d = digits_of(bytes@);
    proof {
        assert(d =~= bytes@.subrange(start as int, n as int));
    }
    let mut i: usize = start;
    let mut value: u64 = 0;
    while i < n
        invariant
            start <= i <= n,
            n == bytes@.len(),
            n > 0,
            bytes@ == bytes_of(text@),
            d == digits_of(bytes@),
            d == bytes@.subrange(start as int, n as int),
            all_digits(d.subrange(0, i - start)),
            decimal_value(d.subrange(0, i - start)) > i32::MAX ==> value == 0x8000_0000u64,
            decimal_value(d.subrange(0, i - start)) <= i32::MAX ==> value == decimal_value(
                d.subrange(0, i - start),
            ),
        decreases n - i,
    {
        let b: u8 = bytes[i];
        if b < 48 || b > 57 {
            proof {
                assert(d[i - start] == b);
                assert(!is_digit(d[i - start]));
            }
            return Err(ParseFailure::InvalidDigit);
        }
        proof {
            lemma_decimal_value_step(d, i - start);
            assert(d[i - start] == b);
            assert forall|k: int| 0 <= k < i - start + 1 implies is_digit(
                #[trigger] d.subrange(0, i - start + 1)[k],
            ) by {
                if k < i - start {
                    assert(d.subrange(0, i - start)[k] == d[k]);
                }
            }
        }
        if value > 0x7FFF_FFFF {
            value = 0x8000_0000;
        } else {
            value = value * 10 + (b - 48) as u64;
            if value > 0x7FFF_FFFF {
                value = 0x8000_0000;
            }
        }
        i = i + 1;
    }
    proof {
        assert(d.subrange(0, n - start) =~= d);
    }
    if negative && value > 0 {
        Err(ParseFailure::Negative)
    } else if value > 0x7FFF_FFFF {
        Err(ParseFailure::Overflow)
    } else {
        Ok(value as i32)
    }
}

/// The value that the pairs `entries` give to `key`: that of the last pair
/// with this key, as in a map that was filled pair by pair.
pub open spec fn lookup(entries: Seq<(String, String)>, key: Seq<char>) -> Option<Seq<char>>
    decreases entries.len(),
{
    if entries.len() == 0 {
        None
    } else if entries.last().0@ == key {
        Some(entries.last().1@)
    } else {
        lookup(entries.drop_last(), key)
    }
}

/// The parameters of a query: text values under text keys, each key at most
/// once.
#[derive(Debug, Clone)]
pub struct Params {
    entries: Vec<(String, String)>,
}

impl View for Params {
    type V = Map<Seq<char>, Seq<char>>;

    closed spec fn view(&self) -> Map<Seq<char>, Seq<char>> {
        Map::new(
            |k: Seq<char>| lookup(self.entries@, k) is Some,
            |k: Seq<char>| lookup(self.entries@, k).unwrap(),
        )
    }
}

impl Params {
    /// No parameters.
    pub fn new() -> (params: Params)
        ensures
            params@ == Map::<Seq<char>, Seq<char>>::empty(),
    {
        let params = Params { entries: Vec::new() };
        assert(params@ =~= Map::<Seq<char>, Seq<char>>::empty());
        params
    }

    /// Puts `value` under `key`, in place of what was there.
    pub fn insert(&mut self, key: String, value: String)
        ensures
            final(self)@ == old(self)@.insert(key@, value@),
    {
        let ghost before = self.entries@;
        self.entries.push((key, value));
        proof {
            assert(self.entries@.drop_last() =~= before);
            assert(self@ =~= old(self)@.insert(key@, value@));
        }
    }

    /// The value under `key`, if there is one.
    pub fn get(&self, key: &str) -> (found: Option<&String>)
        ensures
            match found {
                Some(value) => self@.contains_key(key@) && self@[key@] == value@,
                None => !self@.contains_key(key@),
            },
    {
        let wanted: String = key.to_owned();
        let mut i: usize = self.entries.len();
        proof {
            assert(self.entries@.subrange(0, i as int) =~= self.entries@);
        }
        while i > 0
            invariant
                i <= self.entries@.len(),
                wanted@ == key@,
                lookup(self.entries@, key@) == lookup(self.entries@.subrange(0, i as int), key@),
            decreases i,
        {
            i = i - 1;
            proof {
                assert(self.entries@.subrange(0, i + 1).drop_last() =~= self.entries@.subrange(
                    0,
                    i as int,
                ));
            }
            if self.entries[i].0 == wanted {
                return Some(&self.entries[i].1);
            }
        }
        None
    }

    /// Whether there is a value under `key`.
    pub fn contains_key(&self, key: &str) -> (present: bool)
        ensures
            present == self@.contains_key(key@),
    {
        self.get(key).is_some()
    }

    /// Whether there are no parameters at all.
    pub fn is_empty(&self) -> (empty: bool)
        ensures
            empty == (self@ == Map::<Seq<char>, Seq<char>>::empty()),
    {
        let empty: bool = self.entries.len() == 0;
        proof {
            if empty {
                assert(self@ =~= Map::<Seq<char>, Seq<char>>::empty());
            } else {
                assert(self@.contains_key(self.entries@.last().0@));
            }
        }
        empty
    }
}

/// The page that a query's parameters ask for. With neither `limit` nor
/// `offset` it is the default page; with only one of them there is none; with
/// both, each must be a count.
pub open spec fn page_of(params: Map<Seq<char>, Seq<char>>) -> Result<Pagination, Error> {
    if params.contains_key("limit"@) && params.contains_key("offset"@) {
        match parse_number(bytes_of(params["limit"@])) {
            Err(e) => Err(Error::ParseError(e)),
            Ok(limit) => match parse_number(bytes_of(params["offset"@])) {
                Err(e) => Err(Error::ParseError(e)),
                Ok(offset) => Ok(Pagination { limit: Some(limit), offset }),
            },
        }
    } else if params.contains_key("limit"@) || params.contains_key("offset"@) {
        Err(Error::ParamsAbsent)
    } else {
        Ok(Pagination { limit: None, offset: 0 })
    }
}

/// Reads the page that a query asks for from its parameters.
pub fn get_page_offset(params: Params) -> (r: Result<Pagination, Error>)
    ensures
        r == page_of(params@),
{
    match (params.get("limit"), params.get("offset")) {
        (Some(limit_text), Some(offset_text)) => {
            let limit: i32 = match parse_count(limit_text.as_str()) {
                Ok(n) => n,
                Err(e) => {
                    return Err(Error::ParseError(e));
                },
            };
            let offset: i32 = match parse_count(offset_text.as_str()) {
                Ok(n) => n,
                Err(e) => {
                    return Err(Error::ParseError(e));
                },
            };
            Ok(Pagination { limit: Some(limit), offset })
        },
        (None, None) => Ok(Pagination::default()),
        _ => Err(Error::ParamsAbsent),
    }
}

} // verus!
