//! Tests of the stated properties of the rendering: digit words, the
//! under-100 forms, the policy table, grouping, and text shape.

use numbers_into_words::conversion_to_words::single_digit;
use numbers_into_words::conversion_to_words::under_100;
use numbers_into_words::conversion_to_words::under_1000;
use numbers_into_words::to_word;
use numbers_into_words::AndBehavior;
use numbers_into_words::Config;

const POLICIES: [AndBehavior; 4] = [
    AndBehavior::Never,
    AndBehavior::LastGroup,
    AndBehavior::OnlyUnderThousand,
    AndBehavior::All,
];

#[test]
fn test_digit_words_every_policy() {
    let words = [
        "zero", "one", "two", "three", "four", "five", "six", "seven", "eight", "nine",
    ];
    for v in 0..=9u64 {
        for p in POLICIES {
            assert_eq!(to_word(v, p), words[v as usize].to_string());
        }
    }
}

#[test]
fn test_under_100_words_every_policy() {
    let words = [
        "ten",
        "eleven",
        "twelve",
        "thirteen",
        "fourteen",
        "fifteen",
        "sixteen",
        "seventeen",
        "eighteen",
        "nineteen",
        "twenty",
        "twenty-one",
        "twenty-two",
        "twenty-three",
        "twenty-four",
        "twenty-five",
        "twenty-six",
        "twenty-seven",
        "twenty-eight",
        "twenty-nine",
        "thirty",
        "thirty-one",
        "thirty-two",
        "thirty-three",
        "thirty-four",
        "thirty-five",
        "thirty-six",
        "thirty-seven",
        "thirty-eight",
        "thirty-nine",
        "forty",
        "forty-one",
        "forty-two",
        "forty-three",
        "forty-four",
        "forty-five",
        "forty-six",
        "forty-seven",
        "forty-eight",
        "forty-nine",
        "fifty",
        "fifty-one",
        "fifty-two",
        "fifty-three",
        "fifty-four",
        "fifty-five",
        "fifty-six",
        "fifty-seven",
        "fifty-eight",
        "fifty-nine",
        "sixty",
        "sixty-one",
        "sixty-two",
        "sixty-three",
        "sixty-four",
        "sixty-five",
        "sixty-six",
        "sixty-seven",
        "sixty-eight",
        "sixty-nine",
        "seventy",
        "seventy-one",
        "seventy-two",
        "seventy-three",
        "seventy-four",
        "seventy-five",
        "seventy-six",
        "seventy-seven",
        "seventy-eight",
        "seventy-nine",
        "eighty",
        "eighty-one",
        "eighty-two",
        "eighty-three",
        "eighty-four",
        "eighty-five",
        "eighty-six",
        "eighty-seven",
        "eighty-eight",
        "eighty-nine",
        "ninety",
        "ninety-one",
        "ninety-two",
        "ninety-three",
        "ninety-four",
        "ninety-five",
        "ninety-six",
        "ninety-seven",
        "ninety-eight",
        "ninety-nine",
    ];
    for v in 10..=99u64 {
        for p in POLICIES {
            assert_eq!(to_word(v, p), words[(v - 10) as usize].to_string());
        }
    }
}

#[test]
fn test_zero_every_policy() {
    for p in POLICIES {
        assert_eq!(to_word(0, p), "zero".to_string());
    }
}

#[test]
fn test_group_counts() {
    for (v, groups) in [
        (1_000u64, 1usize),
        (1_001, 2),
        (1_000_001, 2),
        (2_000_000, 1),
        (1_002_003_004, 4),
        (5_000_000_000_000, 1),
        (u64::MAX, 7),
    ] {
        for p in POLICIES {
            let text = to_word(v, p);
            assert_eq!(text.matches(", ").count(), groups - 1);
        }
    }
}

#[test]
fn test_policy_table() {
    assert_eq!(
        to_word(350_000_430, AndBehavior::Never),
        "three-hundred fifty million, four-hundred thirty".to_string()
    );
    assert_eq!(
        to_word(350_000_430, AndBehavior::LastGroup),
        "three-hundred fifty million, four-hundred and thirty".to_string()
    );
    assert_eq!(
        to_word(2859, AndBehavior::OnlyUnderThousand),
        "two thousand, eight-hundred fifty-nine".to_string()
    );
    assert_eq!(
        to_word(731, AndBehavior::OnlyUnderThousand),
        "seven-hundred and thirty-one".to_string()
    );
    assert_eq!(
        to_word(731, AndBehavior::All),
        "seven-hundred and thirty-one".to_string()
    );
}

#[test]
fn test_maximum_value() {
    assert_eq!(
        to_word(18_446_744_073_709_551_615, AndBehavior::All),
        "eighteen quintillion, four-hundred and forty-six quadrillion, \
         seven-hundred and forty-four trillion, seventy-three billion, \
         seven-hundred and nine million, five-hundred and fifty-one thousand, \
         six-hundred and fifteen"
            .to_string()
    );
}

#[test]
fn test_census_number() {
    assert_eq!(
        to_word(330_759_736, AndBehavior::All),
        "three-hundred and thirty million, seven-hundred and fifty-nine thousand, \
         seven-hundred and thirty-six"
            .to_string()
    );
}

#[test]
fn test_rendered_text_shape() {
    let mut v: u64 = 0;
    while v <= 999_999 {
        for p in POLICIES {
            let text = to_word(v, p);
            assert!(!text.contains("  "), "double space in {}", text);
            assert!(!text.starts_with(' ') && !text.starts_with(','), "bad start: {}", text);
            assert!(!text.ends_with(' ') && !text.ends_with(','), "bad end: {}", text);
            let nonzero_groups = [v % 1000, (v / 1000) % 1000]
                .iter()
                .filter(|g| **g != 0)
                .count();
            let expected_commas = if v == 0 { 0 } else { nonzero_groups - 1 };
            assert_eq!(text.matches(',').count(), expected_commas, "commas in {}", text);
        }
        v = if v < 2_000 { v + 1 } else { v + 739 };
    }
}

#[test]
fn test_hundreds_forms() {
    assert_eq!(to_word(100, AndBehavior::All), "one-hundred".to_string());
    assert_eq!(to_word(900, AndBehavior::Never), "nine-hundred".to_string());
    assert_eq!(to_word(500_000, AndBehavior::All), "five-hundred thousand".to_string());
}

#[test]
fn test_invalid_and_option_message() {
    let cfg = Config::parse(vec!["prog".to_string(), "--and=sometimes".to_string()]);
    assert_eq!(
        cfg.process(),
        "Errors\n-----\nInvalid \"and\" option: sometimes\nFor help, run: prog --help"
            .to_string()
    );
}

#[test]
fn test_no_arguments_message() {
    let cfg = Config::parse(vec!["prog".to_string()]);
    assert_eq!(
        cfg.process(),
        "No arguments. For help, run:\n$ prog --help".to_string()
    );
}

#[test]
fn test_uppercase_flags_accepted() {
    let cfg = Config::parse(vec![
        "prog".to_string(),
        "--AND=LAST".to_string(),
        "12345".to_string(),
    ]);
    assert_eq!(
        cfg.process(),
        "12345: twelve thousand, three-hundred and forty-five".to_string()
    );
}

#[test]
fn test_domain_violation_messages() {
    assert_eq!(single_digit(10), Err("Value over 9."));
    assert_eq!(under_100(100), Err("Value over 99"));
    assert_eq!(under_1000(1000, 0, AndBehavior::All, 1000), Err("Value over 999."));
}
