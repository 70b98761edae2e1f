//! Proved properties of the rendered text: which characters the lexical
//! words contain, the overall shape of a full rendering (no stray
//! separators, no doubled spaces), and how many commas it holds.

use vstd::prelude::*;

use crate::conversion_to_words::AndBehavior;
use crate::conversion_to_words::spec_digit;
use crate::conversion_to_words::spec_group;
use crate::conversion_to_words::spec_join_upper;
use crate::conversion_to_words::spec_magnitude;
use crate::conversion_to_words::spec_pow1000;
use crate::conversion_to_words::spec_sep;
use crate::conversion_to_words::spec_to_word;
use crate::conversion_to_words::spec_under_100;
use crate::conversion_to_words::spec_under_1000;

verus! {

/// Holds when the character `c` does not occur in `s`.
pub open spec fn no_char(s: Seq<char>, c: char) -> bool {
    forall|i: int| 0 <= i < s.len() ==> s[i] != c
}

/// Holds when `s` never has two space characters side by side.
pub open spec fn no_double_space(s: Seq<char>) -> bool {
    forall|i: int| 0 <= i && i + 1 < s.len() ==> !(#[trigger] s[i] == ' ' && s[i + 1] == ' ')
}

/// The number of occurrences of `c` in `s`.
pub open spec fn count_char(s: Seq<char>, c: char) -> nat
    decreases s.len(),
{
    if s.len() == 0 {
        0
    } else {
        count_char(s.drop_last(), c) + if s.last() == c { 1nat } else { 0nat }
    }
}

/// A lexical word of the engine: nonempty, it neither starts nor ends with
/// a space or a comma, has no doubled space, and contains no comma at all.
pub open spec fn word_shape(s: Seq<char>) -> bool {
    &&& s.len() > 0
    &&& s[0] != ' ' && s[0] != ','
    &&& s[s.len() - 1] != ' ' && s[s.len() - 1] != ','
    &&& no_double_space(s)
    &&& no_char(s, ',')
}

/// A full rendering: nonempty, it neither starts nor ends with a space or
/// a comma, and has no doubled space.
pub open spec fn text_shape(s: Seq<char>) -> bool {
    &&& s.len() > 0
    &&& s[0] != ' ' && s[0] != ','
    &&& s[s.len() - 1] != ' ' && s[s.len() - 1] != ','
    &&& no_double_space(s)
}

proof fn lemma_no_char_concat(a: Seq<char>, b: Seq<char>, c: char)
    requires
        no_char(a, c),
        no_char(b, c),
    ensures
        no_char(a + b, c),
{
    assert forall|i: int| 0 <= i < (a + b).len() implies (a + b)[i] != c by {
        if i < a.len() {
            assert((a + b)[i] == a[i]);
        } else {
            assert((a + b)[i] == b[i - a.len()]);
        }
    }
}

proof fn lemma_nds_concat(a: Seq<char>, b: Seq<char>)
    requires
        no_double_space(a),
        no_double_space(b),
        a.len() > 0 && b.len() > 0 ==> !(a[a.len() - 1] == ' ' && b[0] == ' '),
    ensures
        no_double_space(a + b),
{
    assert forall|i: int| 0 <= i && i + 1 < (a + b).len() implies !(#[trigger] (a + b)[i] == ' '
        && (a + b)[i + 1] == ' ') by {
        if i + 1 < a.len() {
            assert((a + b)[i] == a[i]);
            assert((a + b)[i + 1] == a[i + 1]);
        } else if i >= a.len() {
            assert((a + b)[i] == b[i - a.len()]);
            assert((a + b)[i + 1] == b[i + 1 - a.len()]);
        } else {
            assert((a + b)[i] == a[i]);
            assert((a + b)[i + 1] == b[0]);
        }
    }
}

proof fn lemma_no_space_nds(s: Seq<char>)
    requires
        no_char(s, ' '),
    ensures
        no_double_space(s),
{
}

proof fn lemma_no_char_count(s: Seq<char>, c: char)
    requires
        no_char(s, c),
    ensures
        count_char(s, c) == 0,
    decreases s.len(),
{
    if s.len() > 0 {
        assert(no_char(s.drop_last(), c));
        lemma_no_char_count(s.drop_last(), c);
    }
}

proof fn lemma_count_char_concat(a: Seq<char>, b: Seq<char>, c: char)
    ensures
        count_char(a + b, c) == count_char(a, c) + count_char(b, c),
    decreases b.len(),
{
    if b.len() == 0 {
        assert(a + b =~= a);
    } else {
        assert((a + b).drop_last() =~= a + b.drop_last());
        assert((a + b).last() == b.last());
        lemma_count_char_concat(a, b.drop_last(), c);
    }
}

/// The word for a digit is nonempty and contains neither space nor comma.
proof fn lemma_digit_chars(x: int)
    requires
        0 <= x <= 9,
    ensures
        spec_digit(x).len() > 0,
        no_char(spec_digit(x), ' '),
        no_char(spec_digit(x), ','),
{
    reveal_strlit("zero");
    reveal_strlit("one");
    reveal_strlit("two");
    reveal_strlit("three");
    reveal_strlit("four");
    reveal_strlit("five");
    reveal_strlit("six");
    reveal_strlit("seven");
    reveal_strlit("eight");
    reveal_strlit("nine");
}

/// The words for a value under one hundred are nonempty and contain
/// neither space nor comma.
proof fn lemma_under_100_chars(x: int)
    requires
        0 <= x <= 99,
    ensures
        spec_under_100(x).len() > 0,
        no_char(spec_under_100(x), ' '),
        no_char(spec_under_100(x), ','),
    decreases x,
{
    reveal_strlit("ten");
    reveal_strlit("eleven");
    reveal_strlit("twelve");
    reveal_strlit("thirteen");
    reveal_strlit("fifteen");
    reveal_strlit("eighteen");
    reveal_strlit("teen");
    reveal_strlit("twenty");
    reveal_strlit("thirty");
    reveal_strlit("forty");
    reveal_strlit("fifty");
    reveal_strlit("eighty");
    reveal_strlit("ty");
    reveal_strlit("-");
    if x <= 9 {
        lemma_digit_chars(x);
    } else if x == 10 || x == 11 || x == 12 || x == 13 || x == 15 || x == 18 {
    } else if x <= 19 {
        lemma_digit_chars(x % 10);
        lemma_no_char_concat(spec_digit(x % 10), "teen"@, ' ');
        lemma_no_char_concat(spec_digit(x % 10), "teen"@, ',');
    } else if x == 20 || x == 30 || x == 40 || x == 50 || x == 80 {
    } else if x % 10 == 0 {
        lemma_digit_chars(x / 10);
        lemma_no_char_concat(spec_digit(x / 10), "ty"@, ' ');
        lemma_no_char_concat(spec_digit(x / 10), "ty"@, ',');
    } else {
        lemma_under_100_chars(x - x % 10);
        lemma_digit_chars(x % 10);
        let t = spec_under_100(x - x % 10);
        lemma_no_char_concat(t, "-"@, ' ');
        lemma_no_char_concat(t, "-"@, ',');
        lemma_no_char_concat(t + "-"@, spec_digit(x % 10), ' ');
        lemma_no_char_concat(t + "-"@, spec_digit(x % 10), ',');
    }
}

/// The policy separator starts and ends with a space, has no doubled
/// space, and contains no comma.
proof fn lemma_sep_chars(b: AndBehavior, group: int, value: int)
    ensures
        spec_sep(b, group, value).len() > 0,
        spec_sep(b, group, value)[0] == ' ',
        spec_sep(b, group, value)[spec_sep(b, group, value).len() - 1] == ' ',
        no_double_space(spec_sep(b, group, value)),
        no_char(spec_sep(b, group, value), ','),
{
    reveal_strlit(" ");
    reveal_strlit(" and ");
}

/// A nonempty magnitude suffix starts with a space followed by letters
/// only; it has no comma and no doubled space, and does not end in a
/// space.
proof fn lemma_magnitude_chars(i: int)
    requires
        0 <= i <= 6,
    ensures
        i == 0 ==> spec_magnitude(i).len() == 0,
        i != 0 ==> spec_magnitude(i).len() > 1,
        i != 0 ==> spec_magnitude(i)[0] == ' ',
        i != 0 ==> spec_magnitude(i)[spec_magnitude(i).len() - 1] != ' ',
        i != 0 ==> spec_magnitude(i)[spec_magnitude(i).len() - 1] != ',',
        no_double_space(spec_magnitude(i)),
        no_char(spec_magnitude(i), ','),
{
    reveal_strlit(" thousand");
    reveal_strlit(" million");
    reveal_strlit(" billion");
    reveal_strlit(" trillion");
    reveal_strlit(" quadrillion");
    reveal_strlit(" quintillion");
}

/// The words for a value under one thousand form a lexical word: nonempty,
/// comma-free, no doubled space, no space at either end.
proof fn lemma_under_1000_shape(x: int, group: int, b: AndBehavior, full: int)
    requires
        0 <= x <= 999,
    ensures
        word_shape(spec_under_1000(x, group, b, full)),
{
    reveal_strlit("-hundred");
    if x <= 99 {
        lemma_under_100_chars(x);
        lemma_no_space_nds(spec_under_100(x));
    } else if x % 100 == 0 {
        lemma_digit_chars(x / 100);
        lemma_no_char_concat(spec_digit(x / 100), "-hundred"@, ' ');
        lemma_no_char_concat(spec_digit(x / 100), "-hundred"@, ',');
        lemma_no_space_nds(spec_digit(x / 100) + "-hundred"@);
    } else {
        let h = x - x % 100;
        let hh = spec_under_1000(h, group, b, full);
        assert(hh == spec_digit(h / 100) + "-hundred"@);
        lemma_digit_chars(h / 100);
        lemma_no_char_concat(spec_digit(h / 100), "-hundred"@, ' ');
        lemma_no_char_concat(spec_digit(h / 100), "-hundred"@, ',');
        lemma_no_space_nds(hh);
        let sep = spec_sep(b, group, full);
        lemma_sep_chars(b, group, full);
        let u = spec_under_100(x % 100);
        lemma_under_100_chars(x % 100);
        lemma_no_space_nds(u);
        lemma_nds_concat(hh, sep);
        lemma_nds_concat(hh + sep, u);
        lemma_no_char_concat(hh, sep, ',');
        lemma_no_char_concat(hh + sep, u, ',');
        let s = hh + sep + u;
        assert(s[0] == hh[0]);
        assert(s[s.len() - 1] == u[u.len() - 1]);
    }
}

/// The number of nonzero base-1000 groups of `x` whose index is at least
/// `i`.
pub open spec fn nz_count(x: int, i: int) -> nat
    decreases 7 - i,
{
    if i >= 7 {
        0
    } else {
        nz_count(x, i + 1) + if spec_group(x, i) == 0 { 0nat } else { 1nat }
    }
}

/// The joined rendering of the groups at index `i` and above is empty
/// exactly when all those groups are zero; otherwise it is well-shaped
/// text with one comma fewer than it has nonzero groups.
proof fn lemma_join_shape(x: int, b: AndBehavior, i: int)
    requires
        0 <= i <= 7,
    ensures
        ({
            let s = spec_join_upper(x, b, i);
            &&& (s.len() == 0 <==> nz_count(x, i) == 0)
            &&& (s.len() > 0 ==> text_shape(s))
            &&& count_char(s, ',') == if nz_count(x, i) == 0 { 0int } else { nz_count(x, i) - 1 }
        }),
    decreases 7 - i,
{
    reveal_strlit(", ");
    if i >= 7 {
        assert(count_char(Seq::<char>::empty(), ',') == 0);
    } else {
        lemma_join_shape(x, b, i + 1);
        let upper = spec_join_upper(x, b, i + 1);
        let g = spec_group(x, i);
        if g != 0 {
            lemma_under_1000_shape(g, i, b, x);
            lemma_magnitude_chars(i);
            let w = spec_under_1000(g, i, b, x);
            let m = spec_magnitude(i);
            let piece = w + m;
            lemma_nds_concat(w, m);
            lemma_no_char_concat(w, m, ',');
            lemma_no_char_count(piece, ',');
            assert(piece[0] == w[0]);
            if i == 0 {
                assert(piece =~= w);
            } else {
                assert(piece[piece.len() - 1] == m[m.len() - 1]);
            }
            assert(word_shape(piece));
            if upper.len() == 0 {
            } else {
                let s = upper + ", "@ + piece;
                assert(no_double_space(", "@));
                lemma_nds_concat(upper, ", "@);
                lemma_nds_concat(upper + ", "@, piece);
                assert(s[0] == upper[0]);
                assert(s[s.len() - 1] == piece[piece.len() - 1]);
                lemma_count_char_concat(upper, ", "@, ',');
                lemma_count_char_concat(upper + ", "@, piece, ',');
                assert(count_char(", "@, ',') == 1) by {
                    reveal_with_fuel(count_char, 3);
                    assert(", "@.drop_last().drop_last() =~= Seq::<char>::empty());
                }
            }
        }
    }
}

proof fn lemma_pow1000_pos(i: int)
    ensures
        spec_pow1000(i) >= 1,
    decreases i,
{
    if i > 0 {
        lemma_pow1000_pos(i - 1);
    }
}

/// Groups above the highest nonzero position render to nothing.
proof fn lemma_join_empty_above(x: int, b: AndBehavior, i: int)
    requires
        1 <= i <= 7,
        0 <= x < spec_pow1000(i),
    ensures
        spec_join_upper(x, b, i).len() == 0,
    decreases 7 - i,
{
    if i < 7 {
        lemma_pow1000_pos(i);
        vstd::arithmetic::div_mod::lemma_basic_div(x, spec_pow1000(i));
        assert(spec_group(x, i) == 0);
        assert(spec_pow1000(i + 1) == 1000 * spec_pow1000(i));
        lemma_join_empty_above(x, b, i + 1);
    }
}

/// A value below one thousand renders as its single units group.
proof fn lemma_join_single(x: int, b: AndBehavior)
    requires
        1 <= x <= 999,
    ensures
        spec_join_upper(x, b, 0) == spec_under_1000(x, 0, b, x),
{
    assert(spec_pow1000(1) == 1000) by {
        reveal_with_fuel(spec_pow1000, 2);
    }
    lemma_join_empty_above(x, b, 1);
    assert(spec_pow1000(0) == 1);
    assert(spec_group(x, 0) == x);
    assert(spec_under_1000(x, 0, b, x) + spec_magnitude(0) =~= spec_under_1000(x, 0, b, x));
}

/// If every base-1000 group of `x` below position `k` is zero and `x` is
/// below the k-th power of one thousand, then `x` is zero.
proof fn lemma_all_groups_zero(x: int, k: int)
    requires
        0 <= k <= 7,
        0 <= x < spec_pow1000(k),
        forall|j: int| 0 <= j < k ==> spec_group(x, j) == 0,
    ensures
        x == 0,
    decreases k,
{
    if k > 0 {
        assert(spec_group(x, 0) == 0);
        assert(spec_pow1000(0) == 1);
        assert(x / 1 == x);
        assert(x % 1000 == 0);
        let w = x / 1000;
        vstd::arithmetic::div_mod::lemma_fundamental_div_mod(x, 1000);
        assert(x == 1000 * w);
        assert(spec_pow1000(k) == 1000 * spec_pow1000(k - 1));
        assert(w < spec_pow1000(k - 1)) by {
            if w >= spec_pow1000(k - 1) {
                assert(1000 * w >= 1000 * spec_pow1000(k - 1)) by (nonlinear_arith)
                    requires
                        w >= spec_pow1000(k - 1),
                ;
            }
        }
        assert forall|j: int| 0 <= j < k - 1 implies spec_group(w, j) == 0 by {
            lemma_pow1000_pos(j);
            vstd::arithmetic::div_mod::lemma_div_denominator(x, 1000, spec_pow1000(j));
            assert(spec_pow1000(j + 1) == 1000 * spec_pow1000(j));
            assert(spec_group(x, j + 1) == 0);
        }
        lemma_all_groups_zero(w, k - 1);
    }
}

/// A zero group tally means every group is zero.
proof fn lemma_nz_zero_groups(x: int, i: int)
    requires
        0 <= i <= 7,
        nz_count(x, i) == 0,
    ensures
        forall|j: int| i <= j < 7 ==> spec_group(x, j) == 0,
    decreases 7 - i,
{
    if i < 7 {
        lemma_nz_zero_groups(x, i + 1);
    }
}

/// A positive 64-bit value has at least one nonzero base-1000 group.
pub proof fn lemma_nz_positive(x: int)
    requires
        1 <= x <= u64::MAX,
    ensures
        nz_count(x, 0) >= 1,
{
    if nz_count(x, 0) == 0 {
        lemma_nz_zero_groups(x, 0);
        assert(spec_pow1000(7) == 1_000_000_000_000_000_000_000) by {
            reveal_with_fuel(spec_pow1000, 8);
        }
        lemma_all_groups_zero(x, 7);
    }
}

/// A single-digit value renders as exactly its digit word, independent of
/// the policy.
pub proof fn lemma_to_word_single_digit(x: int, b: AndBehavior)
    requires
        0 <= x <= 9,
    ensures
        spec_to_word(x, b) == spec_digit(x),
{
    if x != 0 {
        lemma_join_single(x, b);
    }
}

/// A value from 10 through 99 renders by the under-100 lexical rules
/// alone, independent of the policy.
pub proof fn lemma_to_word_under_100(x: int, b: AndBehavior)
    requires
        10 <= x <= 99,
    ensures
        spec_to_word(x, b) == spec_under_100(x),
{
    lemma_join_single(x, b);
}

/// Zero renders as the single word "zero" under every policy.
pub proof fn lemma_to_word_zero(b: AndBehavior)
    ensures
        spec_to_word(0, b) == "zero"@,
{
}

/// The composed lexical forms under one hundred: the regular teens are the
/// digit word followed by "teen", the regular tens are the digit word
/// followed by "ty", and a non-multiple of ten is its tens word, a hyphen,
/// and its units digit word.
pub proof fn lemma_under_100_composition(x: int)
    requires
        0 <= x <= 99,
    ensures
        (x == 14 || x == 16 || x == 17 || x == 19) ==> spec_under_100(x) == spec_digit(x % 10)
            + "teen"@,
        (x == 60 || x == 70 || x == 90) ==> spec_under_100(x) == spec_digit(x / 10) + "ty"@,
        (21 <= x && x % 10 != 0) ==> spec_under_100(x) == spec_under_100(x - x % 10) + "-"@
            + spec_digit(x % 10),
{
}

/// The shape of every rendering: well-formed text with no leading or
/// trailing separator and no doubled space, and with exactly one comma
/// fewer than the value has nonzero base-1000 groups.
pub proof fn lemma_to_word_shape(x: int, b: AndBehavior)
    requires
        0 <= x <= u64::MAX,
    ensures
        ({
            let s = spec_to_word(x, b);
            &&& text_shape(s)
            &&& count_char(s, ',') == if x == 0 { 0int } else { nz_count(x, 0) - 1 }
        }),
{
    if x == 0 {
        reveal_strlit("zero");
        assert(no_char("zero"@, ','));
        lemma_no_char_count("zero"@, ',');
    } else {
        lemma_join_shape(x, b, 0);
        lemma_nz_positive(x);
    }
}

} // verus!
