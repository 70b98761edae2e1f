//! The numeral-to-words engine: lexical rules for digits, values under 100
//! and values under 1000, and the grouping of a full 64-bit value into
//! powers of one thousand.

use vstd::prelude::*;

verus! {

/// Signals when the word "and" should be used in an output.
#[derive(Copy, Clone, Debug, PartialEq, Eq, Structural)]
pub enum AndBehavior {
    /// The word "and" is never used.
    Never,
    /// The word "and" is used only in the last group (hundreds, tens, units).
    LastGroup,
    /// The word "and" is used only if the whole number is less than 1000.
    OnlyUnderThousand,
    /// The word "and" is used in every group.
    All,
}

/// The separator placed between a group's hundreds word and its tens/units
/// words: either " and " or a plain space, depending on the behavior, the
/// group index, and the full value being rendered.
pub open spec fn spec_sep(b: AndBehavior, group: int, value: int) -> Seq<char> {
    match b {
        AndBehavior::Never => " "@,
        AndBehavior::LastGroup => if group == 0 { " and "@ } else { " "@ },
        AndBehavior::OnlyUnderThousand => if 0 <= value <= 999 { " and "@ } else { " "@ },
        AndBehavior::All => " and "@,
    }
}

/// The English word for a single digit.
pub open spec fn spec_digit(x: int) -> Seq<char>
    recommends
        0 <= x <= 9,
{
    if x == 0 { "zero"@ }
    else if x == 1 { "one"@ }
    else if x == 2 { "two"@ }
    else if x == 3 { "three"@ }
    else if x == 4 { "four"@ }
    else if x == 5 { "five"@ }
    else if x == 6 { "six"@ }
    else if x == 7 { "seven"@ }
    else if x == 8 { "eight"@ }
    else { "nine"@ }
}

/// The English words for a value below one hundred: single digits, the
/// irregular teens and tens, the composed teens ("fourteen") and tens
/// ("seventy"), and the hyphenated compounds ("forty-seven").
pub open spec fn spec_under_100(x: int) -> Seq<char>
    recommends
        0 <= x <= 99,
    decreases x,
{
    if x <= 9 { spec_digit(x) }
    else if x == 10 { "ten"@ }
    else if x == 11 { "eleven"@ }
    else if x == 12 { "twelve"@ }
    else if x == 13 { "thirteen"@ }
    else if x == 15 { "fifteen"@ }
    else if x == 18 { "eighteen"@ }
    else if x <= 19 { spec_digit(x % 10) + "teen"@ }
    else if x == 20 { "twenty"@ }
    else if x == 30 { "thirty"@ }
    else if x == 40 { "forty"@ }
    else if x == 50 { "fifty"@ }
    else if x == 80 { "eighty"@ }
    else if x % 10 == 0 { spec_digit(x / 10) + "ty"@ }
    else { spec_under_100(x - x % 10) + "-"@ + spec_digit(x % 10) }
}

/// The English words for a value below one thousand: the under-100 rules,
/// exact multiples of one hundred ("three-hundred"), and otherwise the
/// hundreds part joined to the remainder by the policy's separator.
pub open spec fn spec_under_1000(x: int, group: int, b: AndBehavior, full: int) -> Seq<char>
    recommends
        0 <= x <= 999,
    decreases x,
{
    if x <= 99 {
        spec_under_100(x)
    } else if x % 100 == 0 {
        spec_digit(x / 100) + "-hundred"@
    } else {
        spec_under_1000(x - x % 100, group, b, full) + spec_sep(b, group, full) + spec_under_100(
            x % 100,
        )
    }
}

/// The magnitude suffix for a base-1000 group index: empty for the units
/// group, then " thousand" up to " quintillion".
pub open spec fn spec_magnitude(i: int) -> Seq<char>
    recommends
        0 <= i <= 6,
{
    if i == 1 { " thousand"@ }
    else if i == 2 { " million"@ }
    else if i == 3 { " billion"@ }
    else if i == 4 { " trillion"@ }
    else if i == 5 { " quadrillion"@ }
    else if i == 6 { " quintillion"@ }
    else { Seq::empty() }
}

/// The i-th power of one thousand.
pub open spec fn spec_pow1000(i: int) -> int
    decreases i,
{
    if i <= 0 { 1 } else { 1000 * spec_pow1000(i - 1) }
}

/// The 3-digit group of `x` at base-1000 position `i`.
pub open spec fn spec_group(x: int, i: int) -> int {
    (x / spec_pow1000(i)) % 1000
}

/// The rendering of all nonzero groups of `x` whose index is at least `i`,
/// most significant first, each followed by its magnitude suffix, joined
/// with ", ".
pub open spec fn spec_join_upper(x: int, b: AndBehavior, i: int) -> Seq<char>
    decreases 7 - i,
{
    if i >= 7 {
        Seq::empty()
    } else {
        let upper = spec_join_upper(x, b, i + 1);
        let g = spec_group(x, i);
        if g == 0 {
            upper
        } else {
            let piece = spec_under_1000(g, i, b, x) + spec_magnitude(i);
            if upper.len() == 0 { piece } else { upper + ", "@ + piece }
        }
    }
}

/// The full English rendering of `x` under policy `b`: "zero" for zero,
/// otherwise the joined nonzero groups.
pub open spec fn spec_to_word(x: int, b: AndBehavior) -> Seq<char> {
    if x == 0 { "zero"@ } else { spec_join_upper(x, b, 0) }
}

impl AndBehavior {
    /// Returns the separator between a group's hundreds part and its
    /// tens/units part.
    pub fn insert_and(&self, group: usize, value: u64) -> (r: &'static str)
        ensures
            r@ == spec_sep(*self, group as int, value as int),
    {
        match (self, group, value) {
            (Self::Never, _, _) => " ",
            (Self::LastGroup, 0, _) => " and ",
            (Self::LastGroup, _, _) => " ",
            (Self::OnlyUnderThousand, _, 0..=999) => " and ",
            (Self::OnlyUnderThousand, _, _) => " ",
            (Self::All, _, _) => " and ",
        }
    }
}

/// Renders a single digit (0 through 9) as its English word; any larger
/// value is a domain violation and is reported as an error.
pub fn single_digit(x: u64) -> (r: Result<String, &'static str>)
    ensures
        x <= 9 ==> (r matches Ok(s) && s@ == spec_digit(x as int)),
        x > 9 ==> (r matches Err(e) && e@ == "Value over 9."@),
{
    match x {
        0 => Ok(String::from_str("zero")),
        1 => Ok(String::from_str("one")),
        2 => Ok(String::from_str("two")),
        3 => Ok(String::from_str("three")),
        4 => Ok(String::from_str("four")),
        5 => Ok(String::from_str("five")),
        6 => Ok(String::from_str("six")),
        7 => Ok(String::from_str("seven")),
        8 => Ok(String::from_str("eight")),
        9 => Ok(String::from_str("nine")),
        _ => Err("Value over 9."),
    }
}

/// Renders a value below one hundred as English words; any larger value is
/// a domain violation and is reported as an error.
pub fn under_100(x: u64) -> (r: Result<String, &'static str>)
    ensures
        x <= 99 ==> (r matches Ok(s) && s@ == spec_under_100(x as int)),
        x > 99 ==> (r matches Err(e) && e@ == "Value over 99"@),
    decreases x,
{
    match x {
        0..=9 => single_digit(x),
        10 => Ok(String::from_str("ten")),
        11 => Ok(String::from_str("eleven")),
        12 => Ok(String::from_str("twelve")),
        13 => Ok(String::from_str("thirteen")),
        15 => Ok(String::from_str("fifteen")),
        18 => Ok(String::from_str("eighteen")),
        14 | 16 | 17 | 19 => Ok(single_digit(x % 10).expect("under 10").concat("teen")),
        20 => Ok(String::from_str("twenty")),
        30 => Ok(String::from_str("thirty")),
        40 => Ok(String::from_str("forty")),
        50 => Ok(String::from_str("fifty")),
        80 => Ok(String::from_str("eighty")),
        60 | 70 | 90 => Ok(single_digit(x / 10).expect("under 10").concat("ty")),
        21..=99 => Ok(
            under_100(x - (x % 10)).expect("under 100").concat("-").concat(
                single_digit(x % 10).expect("under 10").as_str(),
            ),
        ),
        _ => Err("Value over 99"),
    }
}

/// Renders a value below one thousand as English words, inserting the
/// policy's separator between the hundreds part and the remainder; any
/// larger value is a domain violation and is reported as an error.
pub fn under_1000(x: u64, group: usize, and_behavior: AndBehavior, full_value: u64) -> (r: Result<
    String,
    &'static str,
>)
    ensures
        x <= 999 ==> (r matches Ok(s) && s@ == spec_under_1000(
            x as int,
            group as int,
            and_behavior,
            full_value as int,
        )),
        x > 999 ==> (r matches Err(e) && e@ == "Value over 999."@),
    decreases x,
{
    match x {
        0..=99 => under_100(x),
        100..=900 if x % 100 == 0 => Ok(
            single_digit(x / 100).expect("under 10").concat("-hundred"),
        ),
        _ if x < 1000 => Ok(
            under_1000(x - (x % 100), group, and_behavior, full_value).expect(
                "under 1000",
            ).concat(and_behavior.insert_and(group, full_value)).concat(
                under_100(x % 100).expect("under 100").as_str(),
            ),
        ),
        _ => Err("Value over 999."),
    }
}

/// The magnitude suffix for a group index, as executable text.
pub fn magnitude_name(i: usize) -> (r: &'static str)
    requires
        i <= 6,
    ensures
        r@ == spec_magnitude(i as int),
{
    proof {
        reveal_strlit("");
        assert(""@ =~= Seq::<char>::empty());
    }
    match i {
        1 => " thousand",
        2 => " million",
        3 => " billion",
        4 => " trillion",
        5 => " quadrillion",
        6 => " quintillion",
        _ => "",
    }
}

/// The i-th power of one thousand, as an executable value.
fn pow1000(i: usize) -> (r: u64)
    requires
        i <= 6,
    ensures
        r as int == spec_pow1000(i as int),
        r >= 1,
{
    proof {
        reveal_with_fuel(spec_pow1000, 8);
    }
    match i {
        0 => 1,
        1 => 1_000,
        2 => 1_000_000,
        3 => 1_000_000_000,
        4 => 1_000_000_000_000,
        5 => 1_000_000_000_000_000,
        _ => 1_000_000_000_000_000_000,
    }
}

/// Converts a 64-bit unsigned integer to English words under the given
/// "and" policy: zero renders as "zero"; otherwise the nonzero base-1000
/// groups are rendered most significant first, each with its magnitude
/// suffix, joined with ", ".
pub fn to_word(x: u64, and_behavior: AndBehavior) -> (r: String)
    ensures
        r@ == spec_to_word(x as int, and_behavior),
{
    if x == 0 {
        single_digit(0).expect("under 10")
    } else {
        let mut out = String::new();
        let mut i: usize = 7;
        while i > 0
            invariant
                i <= 7,
                x != 0,
                out@ == spec_join_upper(x as int, and_behavior, i as int),
            decreases i,
        {
            i = i - 1;
            let g: u64 = (x / pow1000(i)) % 1000;
            let ghost upper = out@;
            if g != 0 {
                let piece = under_1000(g, i, and_behavior, x).expect("under 1000");
                if !out.as_str().is_empty() {
                    out.append(", ");
                }
                out.append(piece.as_str());
                out.append(magnitude_name(i));
                proof {
                    let gi = spec_group(x as int, i as int);
                    assert(gi == g as int);
                    let sp = spec_under_1000(gi, i as int, and_behavior, x as int)
                        + spec_magnitude(i as int);
                    if upper.len() == 0 {
                        assert(out@ =~= sp);
                    } else {
                        assert(out@ =~= upper + ", "@ + sp);
                    }
                }
            }
        }
        out
    }
}

} // verus!
