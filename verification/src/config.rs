use vstd::prelude::*;
use vstd::string::StringExecFns;

verus! {

/// The value of a digit character.
pub open spec fn digit_value(c: char) -> int {
    (c as int) - ('0' as int)
}

pub open spec fn is_digit(c: char) -> bool {
    '0' <= c <= '9'
}

/// The number that a string of decimal digits denotes.
pub open spec fn decimal_value(s: Seq<char>) -> int
    decreases s.len(),
{
    if s.len() == 0 {
        0
    } else {
        10 * decimal_value(s.drop_last()) + digit_value(s.last())
    }
}

/// The digits of a number, after an optional leading `+`.
pub open spec fn unsigned_digits(s: Seq<char>) -> Seq<char> {
    if s.len() > 0 && s[0] == '+' {
        s.drop_first()
    } else {
        s
    }
}

/// The unsigned number at most `max` that `s` spells in decimal: an
/// optional `+` followed by at least one digit and nothing else. This is
/// how Rust's `str::parse` reads unsigned integers.
pub open spec fn spec_parse_unsigned(s: Seq<char>, max: int) -> Option<int> {
    let d = unsigned_digits(s);
    if d.len() == 0 || !(forall|i: int| 0 <= i < d.len() ==> is_digit(#[trigger] d[i])) {
        None
    } else if decimal_value(d) > max {
        None
    } else {
        Some(decimal_value(d))
    }
}

proof fn lemma_decimal_value_nonneg(s: Seq<char>)
    requires
        forall|i: int| 0 <= i < s.len() ==> is_digit(#[trigger] s[i]),
    ensures
        decimal_value(s) >= 0,
    decreases s.len(),
{
    if s.len() > 0 {
        lemma_decimal_value_nonneg(s.drop_last());
    }
}

/// Appending digits never makes the value smaller.
proof fn lemma_decimal_value_prefix(s: Seq<char>, k: int)
    requires
        0 <= k <= s.len(),
        forall|i: int| 0 <= i < s.len() ==> is_digit(#[trigger] s[i]),
    ensures
        decimal_value(s.take(k)) <= decimal_value(s),
    decreases s.len(),
{
    if k < s.len() {
        assert(s.drop_last().take(k) =~= s.take(k));
        lemma_decimal_value_prefix(s.drop_last(), k);
        lemma_decimal_value_nonneg(s.drop_last());
    } else {
        assert(s.take(k) =~= s);
    }
}

/// Reads an unsigned decimal number no greater than `max`; see
/// `spec_parse_unsigned`.
pub fn parse_unsigned(s: &str, max: u64) -> (r: Option<u64>)
    ensures
        r matches Some(v) ==> spec_parse_unsigned(s@, max as int) == Some(v as int),
        r is None ==> spec_parse_unsigned(s@, max as int) is None,
{
    let n = s.unicode_len();
    let mut start: usize = 0;
    if n > 0 && s.get_char(0) == '+' {
        start = 1;
    }
    let ghost d = unsigned_digits(s@);
    proof {
        assert(d =~= s@.skip(start as int));
    }
    if start == n {
        return None;
    }
    let mut acc: u64 = 0;
    let mut i: usize = start;
    while i < n
        invariant
            n == s@.len(),
            start <= i <= n,
            d == s@.skip(start as int),
            d == unsigned_digits(s@),
            forall|j: int| 0 <= j < i - start ==> is_digit(#[trigger] d[j]),
            acc == decimal_value(d.take(i - start)),
            acc <= max,
        decreases n - i,
    {
        let c = s.get_char(i);
        proof {
            assert(d[i - start] == c);
            assert(d.take(i - start + 1).drop_last() =~= d.take(i - start));
        }
        if !('0' <= c && c <= '9') {
            proof {
                assert(!is_digit(d[i - start]));
                assert(!(forall|j: int| 0 <= j < d.len() ==> is_digit(#[trigger] d[j])));
            }
            return None;
        }
        let digit = (c as u32 - '0' as u32) as u64;
        let next: u128 = acc as u128 * 10 + digit as u128;
        if next > max as u128 {
            proof {
                assert(decimal_value(d.take(i - start + 1)) == next);
                if forall|j: int| 0 <= j < d.len() ==> is_digit(#[trigger] d[j]) {
                    lemma_decimal_value_prefix(d, i - start + 1);
                    assert(decimal_value(d) > max);
                }
            }
            return None;
        }
        acc = next as u64;
        i = i + 1;
    }
    proof {
        assert(d.take(n - start) =~= d);
    }
    Some(acc)
}

/// The server's settings.
#[derive(Debug, Clone, PartialEq)]
pub struct Config {
    pub port: u16,
    /// Path of the database file.
    pub db: String,
    pub tile_size: u32,
    pub limit_input_pixels: Option<u32>,
    pub tile_concurency: u32,
    pub ml_sidecar_url: String,
    pub ml_predict_pad: u32,
}

/// A setting read as a number no greater than `max`, or `default` when
/// unset.
pub open spec fn number_setting(v: Option<String>, default: int, max: int) -> int {
    match v {
        Some(s) => spec_parse_unsigned(s@, max)->0,
        None => default,
    }
}

/// An unset setting, or one that reads as a number no greater than `max`.
pub open spec fn valid_number_setting(v: Option<String>, max: int) -> bool {
    v matches Some(s) ==> spec_parse_unsigned(s@, max) is Some
}

fn read_number(v: Option<String>, default: u64, max: u64) -> (r: u64)
    requires
        valid_number_setting(v, max as int),
    ensures
        r == number_setting(v, default as int, max as int),
        v is Some ==> r <= max,
{
    match v {
        Some(s) => match parse_unsigned(s.as_str(), max) {
            Some(n) => n,
            None => {
                proof {
                    assert(false);
                }
                0
            },
        },
        None => default,
    }
}

impl Config {
    /// The settings from the values of the variables `PORT`, `CHIPTOOL_DB`,
    /// `CHIPTOOL_TILE_SIZE`, `CHIPTOOL_LIMIT_INPUT_PIXELS`,
    /// `CHIPTOOL_TILE_CONCURRENCY`, `CHIPTOOL_ML_SIDECAR_URL` and
    /// `CHIPTOOL_ML_PREDICT_PAD` (`None` where unset), with the defaults 3001,
    /// `./db.sqlite`, 512, none, 4, `http://127.0.0.1:8001` and 128. Every
    /// number that is set must read as one of its type.
    pub fn from_vars(
        port: Option<String>,
        db: Option<String>,
        tile_size: Option<String>,
        limit_input_pixels: Option<String>,
        tile_concurrency: Option<String>,
        ml_sidecar_url: Option<String>,
        ml_predict_pad: Option<String>,
    ) -> (c: Config)
        requires
            valid_number_setting(port, u16::MAX as int),
            valid_number_setting(tile_size, u32::MAX as int),
            valid_number_setting(limit_input_pixels, u32::MAX as int),
            valid_number_setting(tile_concurrency, u32::MAX as int),
            valid_number_setting(ml_predict_pad, u32::MAX as int),
        ensures
            c.port == number_setting(port, 3001, u16::MAX as int),
            c.db@ == (match db {
                Some(s) => s@,
                None => "./db.sqlite"@,
            }),
            c.tile_size == number_setting(tile_size, 512, u32::MAX as int),
            c.limit_input_pixels == (match limit_input_pixels {
                Some(s) => Some(spec_parse_unsigned(s@, u32::MAX as int)->0 as u32),
                None => None,
            }),
            c.tile_concurency == number_setting(tile_concurrency, 4, u32::MAX as int),
            c.ml_sidecar_url@ == (match ml_sidecar_url {
                Some(s) => s@,
                None => "http://127.0.0.1:8001"@,
            }),
            c.ml_predict_pad == number_setting(ml_predict_pad, 128, u32::MAX as int),
    {
        let limit_input_pixels = match limit_input_pixels {
            Some(s) => Some(read_number(Some(s), 0, u32::MAX as u64) as u32),
            None => None,
        };
        Config {
            port: read_number(port, 3001, u16::MAX as u64) as u16,
            db: match db {
                Some(s) => s,
                None => String::from_str("./db.sqlite"),
            },
            tile_size: read_number(tile_size, 512, u32::MAX as u64) as u32,
            limit_input_pixels,
            tile_concurency: read_number(tile_concurrency, 4, u32::MAX as u64) as u32,
            ml_sidecar_url: match ml_sidecar_url {
                Some(s) => s,
                None => String::from_str("http://127.0.0.1:8001"),
            },
            ml_predict_pad: read_number(ml_predict_pad, 128, u32::MAX as u64) as u32,
        }
    }
}

/// A numeric setting that is set is the number its string spells, whatever
/// the default (so `0` stays `0`); only an unset setting takes the default.
pub proof fn set_numbers_are_read_as_spelled(v: Option<String>, default: int, max: int)
    ensures
        forall|s: String, n: int|
            v == Some(s) && spec_parse_unsigned(s@, max) == Some(n) ==> #[trigger] number_setting(
                v,
                default,
                max,
            ) == n && n == decimal_value(unsigned_digits(s@)) && 0 <= n <= max,
        v is None ==> number_setting(v, default, max) == default,
{
    assert forall|s: String, n: int|
        v == Some(s) && spec_parse_unsigned(s@, max) == Some(n) implies #[trigger] number_setting(v, default, max)
            == n && n == decimal_value(unsigned_digits(s@)) && 0 <= n <= max by {
        let d = unsigned_digits(s@);
        lemma_decimal_value_nonneg(d);
    }
}

/// Reading digits is reading a decimal numeral: one more digit at the end
/// multiplies the value by ten and adds the digit, so `"0"` is 0, `"7"` is
/// 7 and `"128"` is 128.
pub proof fn decimal_value_appends_digits(d: Seq<char>, c: char)
    requires
        '0' <= c <= '9',
    ensures
        decimal_value(d.push(c)) == 10 * decimal_value(d) + ((c as int) - ('0' as int)),
        decimal_value(seq![c]) == (c as int) - ('0' as int),
{
    assert(d.push(c).drop_last() =~= d);
    assert(seq![c].drop_last() =~= Seq::<char>::empty());
    assert(decimal_value(Seq::<char>::empty()) == 0);
    assert(seq![c].last() == c);
}

} // verus!
