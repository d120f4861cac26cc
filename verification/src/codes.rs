use vstd::prelude::*;

use crate::strutil::{spec_has_prefix, strip_prefix_str};

verus! {

/// The base-36 value of a code character: digits as themselves, letters
/// (either case) as 10 to 35, anything else as 0.
pub open spec fn spec_code_char_value(c: char) -> int {
    if '0' <= c && c <= '9' {
        (c as int) - ('0' as int)
    } else if 'A' <= c && c <= 'Z' {
        (c as int) - ('A' as int) + 10
    } else if 'a' <= c && c <= 'z' {
        (c as int) - ('a' as int) + 10
    } else {
        0
    }
}

/// The base-36 value of the first `n` characters of a code.
pub open spec fn spec_code_value(s: Seq<char>, n: int) -> int
    decreases n,
{
    if n <= 0 {
        0
    } else {
        spec_code_value(s, n - 1) * 36 + spec_code_char_value(s[n - 1])
    }
}

/// What a lobby code encodes to: the base-36 value of its first six
/// characters, less one, negated. Custom lobbies are stored under this
/// number so they stay apart from the large positive channel ids.
pub open spec fn spec_encode_lobby_code(s: Seq<char>) -> int {
    1 - spec_code_value(s, if s.len() < 6 { s.len() as int } else { 6 })
}

proof fn lemma_code_value_bounds(s: Seq<char>, n: int)
    requires
        0 <= n,
        n <= s.len(),
    ensures
        0 <= spec_code_value(s, n) < vstd::arithmetic::power::pow(36, n as nat),
    decreases n,
{
    reveal_with_fuel(vstd::arithmetic::power::pow, 2);
    vstd::arithmetic::power::lemma_pow_positive(36, n as nat);
    if n > 0 {
        lemma_code_value_bounds(s, n - 1);
        assert(vstd::arithmetic::power::pow(36, n as nat) == 36 * vstd::arithmetic::power::pow(
            36,
            (n - 1) as nat,
        ));
        assert(spec_code_char_value(s[n - 1]) < 36);
    }
}

/// The base-36 value of a code character.
fn code_char_value(c: char) -> (v: u32)
    ensures
        v == spec_code_char_value(c),
        v < 36,
{
    if '0' <= c && c <= '9' {
        (c as u32) - 48
    } else if 'A' <= c && c <= 'Z' {
        (c as u32) - 65 + 10
    } else if 'a' <= c && c <= 'z' {
        (c as u32) - 97 + 10
    } else {
        0
    }
}

/// Encode a lobby code to a unique non-positive i64 (for codes of value
/// at least one), so custom-lobby games can be stored in the channel-id
/// column without colliding with real, large positive channel ids.
pub fn encode_lobby_code_to_i64(code: &str) -> (r: i64)
    ensures
        r == spec_encode_lobby_code(code@),
{
    let len = code.unicode_len();
    let n = if len < 6 {
        len
    } else {
        6
    };
    let mut value: i64 = 0;
    let mut i: usize = 0;
    while i < n
        invariant
            n <= code@.len(),
            n <= 6,
            0 <= i <= n,
            value == spec_code_value(code@, i as int),
            0 <= value < 2176782336,
        decreases n - i,
    {
        let c = code.get_char(i);
        value = value * 36 + (code_char_value(c) as i64);
        proof {
            lemma_code_value_bounds(code@, i + 1);
            vstd::arithmetic::power::lemma_pow_increases(36, (i + 1) as nat, 6);
            reveal_with_fuel(vstd::arithmetic::power::pow, 7);
            assert(vstd::arithmetic::power::pow(36, 6) == 2176782336);
        }
        i = i + 1;
    }
    1 - value
}

/// A malformed lobby identifier.
#[derive(Debug, Clone, PartialEq, Eq, Structural)]
pub enum LobbyIdError {
    /// The channel part is not a valid signed 64-bit number.
    BadChannelId,
    /// A custom lobby id with an empty code.
    EmptyCustomCode,
}

/// Digits of a decimal string, read as a number.
pub open spec fn spec_digits_value(s: Seq<char>, n: int) -> int
    decreases n,
{
    if n <= 0 {
        0
    } else {
        spec_digits_value(s, n - 1) * 10 + ((s[n - 1] as int) - ('0' as int))
    }
}

/// All characters are decimal digits.
pub open spec fn all_digits(s: Seq<char>) -> bool {
    forall|i: int| 0 <= i < s.len() ==> '0' <= #[trigger] s[i] && s[i] <= '9'
}

/// What `parse_i64` accepts: an optional sign followed by at least one
/// digit, whose value fits in a signed 64-bit integer.
pub open spec fn spec_parse_i64(s: Seq<char>) -> Option<int> {
    let (neg, ds) = if s.len() > 0 && s[0] == '-' {
        (true, s.drop_first())
    } else if s.len() > 0 && s[0] == '+' {
        (false, s.drop_first())
    } else {
        (false, s)
    };
    if ds.len() == 0 || !all_digits(ds) {
        None
    } else {
        let v = spec_digits_value(ds, ds.len() as int);
        if neg && v <= 0x8000000000000000 {
            Some(-v)
        } else if !neg && v <= 0x7fffffffffffffff {
            Some(v)
        } else {
            None
        }
    }
}

/// A prefix of zero digits has value zero.
proof fn lemma_digits_zeros(s: Seq<char>, n: int)
    requires
        0 <= n <= s.len(),
        forall|i: int| 0 <= i < n ==> s[i] == '0',
    ensures
        spec_digits_value(s, n) == 0,
    decreases n,
{
    if n > 0 {
        lemma_digits_zeros(s, n - 1);
    }
}

/// Leading zero digits do not change the value.
proof fn lemma_digits_skip_zeros(s: Seq<char>, k: int, n: int)
    requires
        0 <= k <= n <= s.len(),
        forall|i: int| 0 <= i < k ==> s[i] == '0',
    ensures
        spec_digits_value(s, n) == spec_digits_value(s.skip(k), n - k),
    decreases n,
{
    if n > k {
        lemma_digits_skip_zeros(s, k, n - 1);
        assert(s.skip(k)[n - 1 - k] == s[n - 1]);
    } else {
        lemma_digits_zeros(s, n);
    }
}

/// Ten to the nineteenth, as a number.
#[verifier::rlimit(100)]
proof fn lemma_pow10_19()
    ensures
        vstd::arithmetic::power::pow(10, 19) == 10000000000000000000,
{
    reveal_with_fuel(vstd::arithmetic::power::pow, 20);
}

/// The value of at most nineteen digits stays below ten to the nineteenth.
proof fn lemma_digits_value_range(s: Seq<char>, n: int)
    requires
        0 <= n <= s.len(),
        n <= 19,
        all_digits(s),
    ensures
        0 <= spec_digits_value(s, n) < 10000000000000000000,
{
    if n == 0 {
    } else {
        lemma_digits_magnitude(s, n);
        vstd::arithmetic::power::lemma_pow_increases(10, n as nat, 19);
        lemma_pow10_19();
    }
}

/// Twenty or more digits with a non-zero first digit exceed the 64-bit range.
proof fn lemma_digits_value_large(s: Seq<char>, n: int)
    requires
        20 <= n <= s.len(),
        all_digits(s),
        s[0] != '0',
    ensures
        spec_digits_value(s, n) >= 10000000000000000000,
{
    lemma_digits_magnitude(s, n);
    vstd::arithmetic::power::lemma_pow_increases(10, 19, (n - 1) as nat);
    lemma_pow10_19();
}

/// A digit string's value is bounded by the length: at least one tenth of
/// ten-to-the-length when the first digit is not zero, and always below
/// ten-to-the-length.
proof fn lemma_digits_magnitude(s: Seq<char>, n: int)
    requires
        0 < n <= s.len(),
        all_digits(s),
    ensures
        s[0] != '0' ==> spec_digits_value(s, n) >= vstd::arithmetic::power::pow(10, (n - 1) as nat),
        0 <= spec_digits_value(s, n) < vstd::arithmetic::power::pow(10, n as nat),
    decreases n,
{
    reveal_with_fuel(vstd::arithmetic::power::pow, 2);
    vstd::arithmetic::power::lemma_pow_positive(10, (n - 1) as nat);
    assert(vstd::arithmetic::power::pow(10, n as nat) == 10 * vstd::arithmetic::power::pow(
        10,
        (n - 1) as nat,
    ));
    if n == 1 {
        assert(vstd::arithmetic::power::pow(10, 1) == 10);
    } else {
        lemma_digits_magnitude(s, n - 1);
        assert(vstd::arithmetic::power::pow(10, (n - 1) as nat) == 10
            * vstd::arithmetic::power::pow(10, (n - 2) as nat));
        if s[0] != '0' {
            assert(spec_digits_value(s, n - 1) * 10 >= vstd::arithmetic::power::pow(
                10,
                (n - 2) as nat,
            ) * 10);
        }
    }
}

/// Parse a decimal signed 64-bit integer: an optional sign, then digits.
#[verifier::rlimit(50)]
#[verifier::loop_isolation(false)]
pub fn parse_i64(s: &str) -> (r: Option<i64>)
    ensures
        match r {
            Some(v) => spec_parse_i64(s@) == Some(v as int),
            None => spec_parse_i64(s@) is None,
        },
{
    let len = s.unicode_len();
    if len == 0 {
        return None;
    }
    let first = s.get_char(0);
    let neg = first == '-';
    let start: usize = if first == '-' || first == '+' {
        1
    } else {
        0
    };
    let ghost ds = if start == 1 {
        s@.drop_first()
    } else {
        s@
    };
    if len == start {
        return None;
    }
    // check digits
    let mut i: usize = start;
    while i < len
        invariant
            len == s@.len(),
            start <= i <= len,
            forall|k: int| start <= k < i ==> '0' <= #[trigger] s@[k] && s@[k] <= '9',
        decreases len - i,
    {
        let c = s.get_char(i);
        if !('0' <= c && c <= '9') {
            proof {
                if start == 1 {
                    assert(ds =~= s@.subrange(1, s@.len() as int));
                    assert(ds[i - 1] == s@[i as int]);
                } else {
                    assert(ds =~= s@);
                }
                assert(!('0' <= ds[i - start] && ds[i - start] <= '9'));
                assert(!all_digits(ds));
            }
            return None;
        }
        i = i + 1;
    }
    proof {
        assert(forall|k: int| 0 <= k < ds.len() ==> ds[k] == s@[k + start]);
        assert(all_digits(ds));
    }
    // skip leading zeros
    let mut z: usize = start;
    while z < len && s.get_char(z) == '0'
        invariant
            len == s@.len(),
            start <= z <= len,
            forall|k: int| start <= k < z ==> s@[k] == '0',
        decreases len - z,
    {
        z = z + 1;
    }
    let ghost zs = ds.skip((z - start) as int);
    proof {
        assert(forall|k: int| 0 <= k < zs.len() ==> zs[k] == s@[k + z]);
        lemma_digits_skip_zeros(ds, (z - start) as int, ds.len() as int);
        assert(spec_digits_value(ds, ds.len() as int) == spec_digits_value(zs, zs.len() as int));
    }
    let digits = len - z;
    if digits > 19 {
        proof {
            assert(zs[0] != '0');
            lemma_digits_value_large(zs, zs.len() as int);
        }
        return None;
    }
    // accumulate; at most 19 digits, so the value stays below 10^19
    let mut acc: i128 = 0;
    let mut j: usize = z;
    while j < len
        invariant
            len == s@.len(),
            z <= j <= len,
            len - z <= 19,
            zs == ds.skip((z - start) as int),
            zs.len() == len - z,
            all_digits(zs),
            forall|k: int| 0 <= k < zs.len() ==> zs[k] == s@[k + z],
            acc == spec_digits_value(zs, (j - z) as int),
            0 <= acc < 10000000000000000000,
        decreases len - j,
    {
        proof {
            lemma_digits_value_range(zs, (j - z + 1) as int);
        }
        let c = s.get_char(j);
        let d = (c as u32) - 48;
        acc = acc * 10 + (d as i128);
        j = j + 1;
    }
    proof {
        assert(spec_digits_value(zs, zs.len() as int) == spec_digits_value(ds, ds.len() as int));
    }
    if neg {
        if acc <= 0x8000000000000000i128 {
            Some((-acc) as i64)
        } else {
            None
        }
    } else {
        if acc <= 0x7fffffffffffffffi128 {
            Some(acc as i64)
        } else {
            None
        }
    }
}

/// Split a lobby id into the channel id it is stored under, and an
/// optional guild id (always absent here). A channel lobby carries its
/// channel number; a custom lobby carries its code's encoding; a bare
/// number is taken as a raw channel id.
pub fn parse_lobby_id(lobby_id: &str) -> (r: Result<(i64, Option<i64>), LobbyIdError>)
    ensures
        match r {
            Ok(pair) => pair.1 is None && {
                if spec_has_prefix(lobby_id@, "channel:"@) {
                    spec_parse_i64(
                        lobby_id@.subrange(8, lobby_id@.len() as int),
                    ) == Some(pair.0 as int)
                } else if spec_has_prefix(lobby_id@, "custom:"@) {
                    lobby_id@.len() > 7 && pair.0 == spec_encode_lobby_code(
                        lobby_id@.subrange(7, lobby_id@.len() as int),
                    )
                } else {
                    spec_parse_i64(lobby_id@) == Some(pair.0 as int)
                }
            },
            Err(LobbyIdError::BadChannelId) => {
                if spec_has_prefix(lobby_id@, "channel:"@) {
                    spec_parse_i64(lobby_id@.subrange(8, lobby_id@.len() as int)) is None
                } else {
                    !spec_has_prefix(lobby_id@, "custom:"@) && spec_parse_i64(lobby_id@) is None
                }
            },
            Err(LobbyIdError::EmptyCustomCode) => !spec_has_prefix(lobby_id@, "channel:"@)
                && spec_has_prefix(lobby_id@, "custom:"@) && lobby_id@.len() == 7,
        },
{
    proof {
        reveal_strlit("channel:");
        reveal_strlit("custom:");
    }
    match strip_prefix_str(lobby_id, "channel:") {
        Some(rest) => {
            match parse_i64(rest) {
                Some(channel) => Ok((channel, None)),
                None => Err(LobbyIdError::BadChannelId),
            }
        },
        None => {
            match strip_prefix_str(lobby_id, "custom:") {
                Some(code) => {
                    if code.unicode_len() == 0 {
                        Err(LobbyIdError::EmptyCustomCode)
                    } else {
                        Ok((encode_lobby_code_to_i64(code), None))
                    }
                },
                None => {
                    match parse_i64(lobby_id) {
                        Some(channel) => Ok((channel, None)),
                        None => Err(LobbyIdError::BadChannelId),
                    }
                },
            }
        },
    }
}

} // verus!
