use vstd::prelude::*;

use crate::rng::random_below;

verus! {

/// A letter that may appear on the board.
pub open spec fn is_grid_letter(c: char) -> bool {
    'A' <= c && c <= 'Z'
}

/// Point value of a letter, ASCII case-insensitive.
/// Letters outside `A`..`Z` / `a`..`z` are worth 1 point.
pub open spec fn spec_letter_value(c: char) -> u8 {
    match c {
        'A' | 'a' | 'E' | 'e' | 'I' | 'i' | 'O' | 'o' => 1u8,
        'N' | 'n' | 'R' | 'r' | 'S' | 's' | 'T' | 't' => 2u8,
        'D' | 'd' | 'G' | 'g' | 'L' | 'l' => 3u8,
        'B' | 'b' | 'H' | 'h' | 'M' | 'm' | 'P' | 'p' | 'U' | 'u' | 'Y' | 'y' => 4u8,
        'C' | 'c' | 'F' | 'f' | 'V' | 'v' | 'W' | 'w' => 5u8,
        'K' | 'k' => 6u8,
        'J' | 'j' | 'X' | 'x' => 7u8,
        'Q' | 'q' | 'Z' | 'z' => 8u8,
        _ => 1u8,
    }
}

/// Get the point value for a letter.
pub fn get_letter_value(letter: char) -> (v: u8)
    ensures
        v == spec_letter_value(letter),
{
    match letter {
        'A' | 'a' | 'E' | 'e' | 'I' | 'i' | 'O' | 'o' => 1u8,
        'N' | 'n' | 'R' | 'r' | 'S' | 's' | 'T' | 't' => 2u8,
        'D' | 'd' | 'G' | 'g' | 'L' | 'l' => 3u8,
        'B' | 'b' | 'H' | 'h' | 'M' | 'm' | 'P' | 'p' | 'U' | 'u' | 'Y' | 'y' => 4u8,
        'C' | 'c' | 'F' | 'f' | 'V' | 'v' | 'W' | 'w' => 5u8,
        'K' | 'k' => 6u8,
        'J' | 'j' | 'X' | 'x' => 7u8,
        'Q' | 'q' | 'Z' | 'z' => 8u8,
        _ => 1u8,
    }
}

/// The letters of the sampling table, most frequent first.
fn table_letter(i: usize) -> (c: char)
    requires
        i < 26,
    ensures
        is_grid_letter(c),
{
    match i {
        0 => 'E',
        1 => 'T',
        2 => 'A',
        3 => 'O',
        4 => 'I',
        5 => 'N',
        6 => 'S',
        7 => 'H',
        8 => 'R',
        9 => 'D',
        10 => 'L',
        11 => 'C',
        12 => 'U',
        13 => 'M',
        14 => 'W',
        15 => 'F',
        16 => 'G',
        17 => 'Y',
        18 => 'P',
        19 => 'B',
        20 => 'V',
        21 => 'K',
        22 => 'J',
        23 => 'X',
        24 => 'Q',
        _ => 'Z',
    }
}

/// The sampling weight of each table letter, in hundredths of a percent of
/// an English-like frequency distribution. The weights sum to 9987.
fn table_weight(i: usize) -> (w: u32)
    requires
        i < 26,
    ensures
        w <= 1270,
{
    match i {
        0 => 1270,
        1 => 905,
        2 => 816,
        3 => 750,
        4 => 696,
        5 => 674,
        6 => 632,
        7 => 609,
        8 => 598,
        9 => 425,
        10 => 402,
        11 => 278,
        12 => 275,
        13 => 240,
        14 => 236,
        15 => 222,
        16 => 201,
        17 => 197,
        18 => 192,
        19 => 149,
        20 => 97,
        21 => 77,
        22 => 15,
        23 => 15,
        24 => 9,
        _ => 7,
    }
}

/// The sum of all sampling weights.
pub const WEIGHT_TOTAL: usize = 9987;

/// Draw one letter at random, weighted by the frequency table.
pub fn sample_letter() -> (c: char)
    ensures
        is_grid_letter(c),
{
    let w = random_below(WEIGHT_TOTAL) as u32;
    let mut acc: u32 = 0;
    let mut i: usize = 0;
    while i < 26
        invariant
            0 <= i <= 26,
            acc <= 1270 * i,
        decreases 26 - i,
    {
        let step = table_weight(i);
        if w < acc + step {
            return table_letter(i);
        }
        acc = acc + step;
        i = i + 1;
    }
    'E'
}

} // verus!
