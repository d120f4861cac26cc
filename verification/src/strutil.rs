use vstd::prelude::*;

verus! {

/// ASCII upper-casing of one character: `a`..`z` map to `A`..`Z`,
/// everything else is unchanged.
pub open spec fn spec_upper_char(c: char) -> char {
    if 'a' <= c && c <= 'z' {
        ((c as u32) - 32) as char
    } else {
        c
    }
}

/// ASCII upper-casing of a character sequence.
pub open spec fn spec_upper(s: Seq<char>) -> Seq<char> {
    s.map_values(|c: char| spec_upper_char(c))
}

/// ASCII upper-casing of one character.
pub fn upper_char(c: char) -> (r: char)
    ensures
        r == spec_upper_char(c),
{
    match c {
        'a' => 'A',
        'b' => 'B',
        'c' => 'C',
        'd' => 'D',
        'e' => 'E',
        'f' => 'F',
        'g' => 'G',
        'h' => 'H',
        'i' => 'I',
        'j' => 'J',
        'k' => 'K',
        'l' => 'L',
        'm' => 'M',
        'n' => 'N',
        'o' => 'O',
        'p' => 'P',
        'q' => 'Q',
        'r' => 'R',
        's' => 'S',
        't' => 'T',
        'u' => 'U',
        'v' => 'V',
        'w' => 'W',
        'x' => 'X',
        'y' => 'Y',
        'z' => 'Z',
        _ => c,
    }
}

/// Relies on std's `String::push`: appends the given character to the end
/// of the string.
#[verifier::external_body]
pub fn push_char(s: &mut String, c: char)
    ensures
        final(s)@ == old(s)@.push(c),
{
    s.push(c);
}

/// Append the ASCII upper-casing of `w` to `s`.
pub fn push_upper(s: &mut String, w: &str)
    ensures
        final(s)@ == old(s)@ + spec_upper(w@),
{
    let n = w.unicode_len();
    let mut i: usize = 0;
    while i < n
        invariant
            n == w@.len(),
            0 <= i <= n,
            s@ == old(s)@ + spec_upper(w@).take(i as int),
        decreases n - i,
    {
        let c = w.get_char(i);
        push_char(s, upper_char(c));
        proof {
            assert(spec_upper(w@).take(i + 1) =~= spec_upper(w@).take(i as int).push(
                spec_upper_char(w@[i as int]),
            ));
        }
        i = i + 1;
    }
    proof {
        assert(spec_upper(w@).take(n as int) =~= spec_upper(w@));
    }
}

/// The ASCII upper-casing of a string.
pub fn to_upper(w: &str) -> (r: String)
    ensures
        r@ == spec_upper(w@),
{
    let mut s = String::new();
    push_upper(&mut s, w);
    proof {
        assert(Seq::<char>::empty() + spec_upper(w@) =~= spec_upper(w@));
    }
    s
}

/// The character for a decimal digit.
pub open spec fn spec_digit_char(d: int) -> char {
    if d == 0 {
        '0'
    } else if d == 1 {
        '1'
    } else if d == 2 {
        '2'
    } else if d == 3 {
        '3'
    } else if d == 4 {
        '4'
    } else if d == 5 {
        '5'
    } else if d == 6 {
        '6'
    } else if d == 7 {
        '7'
    } else if d == 8 {
        '8'
    } else {
        '9'
    }
}

/// The decimal representation of a non-negative integer, most significant
/// digit first, without leading zeros (except for zero itself).
pub open spec fn spec_u64_string(n: nat) -> Seq<char>
    decreases n,
{
    if n < 10 {
        seq![spec_digit_char(n as int)]
    } else {
        spec_u64_string(n / 10).push(spec_digit_char((n % 10) as int))
    }
}

/// The decimal representation of a signed integer: a minus sign for
/// negative values, then the digits of the magnitude.
pub open spec fn spec_i64_string(n: int) -> Seq<char> {
    if n < 0 {
        seq!['-'] + spec_u64_string((-n) as nat)
    } else {
        spec_u64_string(n as nat)
    }
}

/// The character for a decimal digit.
pub fn digit_char(d: u8) -> (c: char)
    requires
        d < 10,
    ensures
        c == spec_digit_char(d as int),
{
    match d {
        0 => '0',
        1 => '1',
        2 => '2',
        3 => '3',
        4 => '4',
        5 => '5',
        6 => '6',
        7 => '7',
        8 => '8',
        _ => '9',
    }
}

/// Append the decimal representation of `n` to `s`.
pub fn push_u64(s: &mut String, n: u64)
    ensures
        final(s)@ == old(s)@ + spec_u64_string(n as nat),
    decreases n,
{
    if n < 10 {
        push_char(s, digit_char(n as u8));
        proof {
            assert(old(s)@ + spec_u64_string(n as nat) =~= old(s)@.push(
                spec_digit_char(n as int),
            ));
        }
    } else {
        push_u64(s, n / 10);
        push_char(s, digit_char((n % 10) as u8));
        proof {
            assert(old(s)@ + spec_u64_string(n as nat) =~= (old(s)@ + spec_u64_string(
                (n / 10) as nat,
            )).push(spec_digit_char((n % 10) as int)));
        }
    }
}

/// The decimal representation of an unsigned integer.
pub fn u64_to_string(n: u64) -> (r: String)
    ensures
        r@ == spec_u64_string(n as nat),
{
    let mut s = String::new();
    push_u64(&mut s, n);
    proof {
        assert(Seq::<char>::empty() + spec_u64_string(n as nat) =~= spec_u64_string(n as nat));
    }
    s
}

/// Append the decimal representation of a signed integer to `s`.
pub fn push_i64(s: &mut String, n: i64)
    ensures
        final(s)@ == old(s)@ + spec_i64_string(n as int),
{
    if n >= 0 {
        push_u64(s, n as u64);
    } else {
        push_char(s, '-');
        let m: u64 = ((-(n as i128)) as u64);
        push_u64(s, m);
        proof {
            assert(old(s)@.push('-') + spec_u64_string(m as nat) =~= old(s)@ + spec_i64_string(
                n as int,
            ));
        }
    }
}

/// The decimal representation of a signed integer.
pub fn i64_to_string(n: i64) -> (r: String)
    ensures
        r@ == spec_i64_string(n as int),
{
    if n >= 0 {
        u64_to_string(n as u64)
    } else {
        let mut s = String::new();
        push_char(&mut s, '-');
        let m: u64 = ((-(n as i128)) as u64);
        push_u64(&mut s, m);
        proof {
            assert(Seq::<char>::empty().push('-') =~= seq!['-']);
        }
        s
    }
}

/// Whitespace stripped from the ends of a string.
pub open spec fn is_line_space(c: char) -> bool {
    c == ' ' || c == '\t' || c == '\r' || c == '\n'
}

/// A sequence with its leading whitespace removed.
pub open spec fn spec_trim_front(s: Seq<char>) -> Seq<char>
    decreases s.len(),
{
    if s.len() > 0 && is_line_space(s[0]) {
        spec_trim_front(s.drop_first())
    } else {
        s
    }
}

/// A sequence with its trailing whitespace removed.
pub open spec fn spec_trim_back(s: Seq<char>) -> Seq<char>
    decreases s.len(),
{
    if s.len() > 0 && is_line_space(s.last()) {
        spec_trim_back(s.drop_last())
    } else {
        s
    }
}

/// A sequence with whitespace removed from both ends.
pub open spec fn spec_trim(s: Seq<char>) -> Seq<char> {
    spec_trim_back(spec_trim_front(s))
}


proof fn lemma_trim_front_range(s: Seq<char>, a: int)
    requires
        0 <= a <= s.len(),
        forall|i: int| 0 <= i < a ==> is_line_space(s[i]),
        a < s.len() ==> !is_line_space(s[a]),
    ensures
        spec_trim_front(s) =~= s.subrange(a, s.len() as int),
    decreases a,
{
    if a > 0 {
        let d = s.drop_first();
        assert(is_line_space(s[0]));
        assert(forall|i: int| 0 <= i < a - 1 ==> is_line_space(#[trigger] d[i]));
        lemma_trim_front_range(d, a - 1);
        assert(d.subrange(a - 1, d.len() as int) =~= s.subrange(a, s.len() as int));
    }
}

proof fn lemma_trim_back_range(s: Seq<char>, b: int)
    requires
        0 <= b <= s.len(),
        forall|i: int| b <= i < s.len() ==> is_line_space(s[i]),
        b > 0 ==> !is_line_space(s[b - 1]),
    ensures
        spec_trim_back(s) =~= s.subrange(0, b),
    decreases s.len() - b,
{
    if b < s.len() {
        let d = s.drop_last();
        assert(is_line_space(s.last()));
        lemma_trim_back_range(d, b);
        assert(d.subrange(0, b) =~= s.subrange(0, b));
    }
}

/// Whether a character counts as line whitespace.
pub fn is_space_char(c: char) -> (r: bool)
    ensures
        r == is_line_space(c),
{
    c == ' ' || c == '\t' || c == '\r' || c == '\n'
}

/// The slice of `s` with whitespace removed from both ends.
pub fn trim_substr(s: &str) -> (t: &str)
    ensures
        t@ == spec_trim(s@),
{
    let n = s.unicode_len();
    let mut a: usize = 0;
    while a < n && is_space_char(s.get_char(a))
        invariant
            n == s@.len(),
            0 <= a <= n,
            forall|i: int| 0 <= i < a ==> is_line_space(s@[i]),
        decreases n - a,
    {
        a = a + 1;
    }
    let mut b: usize = n;
    while b > a && is_space_char(s.get_char(b - 1))
        invariant
            n == s@.len(),
            a <= b <= n,
            forall|i: int| 0 <= i < a ==> is_line_space(s@[i]),
            forall|i: int| b <= i < n ==> is_line_space(s@[i]),
        decreases b,
    {
        b = b - 1;
    }
    proof {
        lemma_trim_front_range(s@, a as int);
        let f = s@.subrange(a as int, n as int);
        if b > a {
            assert(!is_line_space(f[b - a - 1]));
        }
        assert(forall|i: int| b - a <= i < f.len() ==> is_line_space(#[trigger] f[i]));
        lemma_trim_back_range(f, b - a);
        assert(f.subrange(0, b - a) =~= s@.subrange(a as int, b as int));
        assert(spec_trim(s@) =~= s@.subrange(a as int, b as int));
    }
    s.substring_char(a, b)
}

/// Whether `s` begins with `p`.
pub open spec fn spec_has_prefix(s: Seq<char>, p: Seq<char>) -> bool {
    s.len() >= p.len() && s.subrange(0, p.len() as int) == p
}

/// The remainder of `s` after the prefix `p`, when `s` begins with it.
pub fn strip_prefix_str<'a>(s: &'a str, p: &str) -> (r: Option<&'a str>)
    ensures
        match r {
            Some(rest) => spec_has_prefix(s@, p@) && rest@ == s@.subrange(
                p@.len() as int,
                s@.len() as int,
            ),
            None => !spec_has_prefix(s@, p@),
        },
{
    let sn = s.unicode_len();
    let pn = p.unicode_len();
    if sn < pn {
        return None;
    }
    let mut i: usize = 0;
    while i < pn
        invariant
            sn == s@.len(),
            pn == p@.len(),
            pn <= sn,
            0 <= i <= pn,
            forall|k: int| 0 <= k < i ==> s@[k] == p@[k],
        decreases pn - i,
    {
        if s.get_char(i) != p.get_char(i) {
            proof {
                assert(!spec_has_prefix(s@, p@)) by {
                    if spec_has_prefix(s@, p@) {
                        assert(s@.subrange(0, pn as int)[i as int] == s@[i as int]);
                    }
                }
            }
            return None;
        }
        i = i + 1;
    }
    proof {
        assert(s@.subrange(0, pn as int) =~= p@);
    }
    Some(s.substring_char(pn, sn))
}

} // verus!
