//! Command-line argument handling: parsing numeric and flag arguments into
//! a configuration, and producing the program's textual output.

use vstd::prelude::*;

use crate::conversion_to_words::AndBehavior;
use crate::conversion_to_words::spec_to_word;
use crate::conversion_to_words::to_word;

verus! {

/// ASCII lowercasing of a single character; any other character is kept.
pub open spec fn spec_lower_char(c: char) -> char {
    if c == 'A' { 'a' }
    else if c == 'B' { 'b' }
    else if c == 'C' { 'c' }
    else if c == 'D' { 'd' }
    else if c == 'E' { 'e' }
    else if c == 'F' { 'f' }
    else if c == 'G' { 'g' }
    else if c == 'H' { 'h' }
    else if c == 'I' { 'i' }
    else if c == 'J' { 'j' }
    else if c == 'K' { 'k' }
    else if c == 'L' { 'l' }
    else if c == 'M' { 'm' }
    else if c == 'N' { 'n' }
    else if c == 'O' { 'o' }
    else if c == 'P' { 'p' }
    else if c == 'Q' { 'q' }
    else if c == 'R' { 'r' }
    else if c == 'S' { 's' }
    else if c == 'T' { 't' }
    else if c == 'U' { 'u' }
    else if c == 'V' { 'v' }
    else if c == 'W' { 'w' }
    else if c == 'X' { 'x' }
    else if c == 'Y' { 'y' }
    else if c == 'Z' { 'z' }
    else { c }
}

/// ASCII lowercasing of a character sequence.
pub open spec fn spec_lower(s: Seq<char>) -> Seq<char> {
    s.map_values(|c: char| spec_lower_char(c))
}

/// Whether a character is an ASCII decimal digit.
pub open spec fn spec_is_digit(c: char) -> bool {
    '0' <= c && c <= '9'
}

/// The subsequence of ASCII digits of `s`, in order.
pub open spec fn spec_digits(s: Seq<char>) -> Seq<char>
    decreases s.len(),
{
    if s.len() == 0 {
        Seq::empty()
    } else {
        spec_digits(s.drop_last()) + if spec_is_digit(s.last()) {
            seq![s.last()]
        } else {
            Seq::<char>::empty()
        }
    }
}

/// The numeric value of a sequence of ASCII digits, most significant
/// first.
pub open spec fn spec_digits_val(s: Seq<char>) -> nat
    recommends
        forall|i: int| 0 <= i < s.len() ==> spec_is_digit(s[i]),
    decreases s.len(),
{
    if s.len() == 0 {
        0
    } else {
        (spec_digits_val(s.drop_last()) * 10 + (s.last() as u32 - '0' as u32)) as nat
    }
}

/// The decimal rendering of a nonnegative integer, most significant digit
/// first.
pub open spec fn spec_u64_dec(v: int) -> Seq<char>
    recommends
        0 <= v,
    decreases v,
{
    if v <= 9 {
        seq![spec_digit_char(v)]
    } else {
        spec_u64_dec(v / 10) + seq![spec_digit_char(v % 10)]
    }
}

/// The ASCII character for a decimal digit value.
pub open spec fn spec_digit_char(d: int) -> char
    recommends
        0 <= d <= 9,
{
    if d == 0 { '0' }
    else if d == 1 { '1' }
    else if d == 2 { '2' }
    else if d == 3 { '3' }
    else if d == 4 { '4' }
    else if d == 5 { '5' }
    else if d == 6 { '6' }
    else if d == 7 { '7' }
    else if d == 8 { '8' }
    else { '9' }
}

/// Lowercases the ASCII letters of a string, keeping every other character.
fn lower_str(s: &str) -> (r: String)
    ensures
        r@ == spec_lower(s@),
{
    let n = s.unicode_len();
    let mut r = String::new();
    let mut i: usize = 0;
    while i < n
        invariant
            n == s@.len(),
            i <= n,
            r@ == spec_lower(s@).take(i as int),
        decreases n - i,
    {
        let c = s.get_char(i);
        match c {
            'A' => r.append("a"),
            'B' => r.append("b"),
            'C' => r.append("c"),
            'D' => r.append("d"),
            'E' => r.append("e"),
            'F' => r.append("f"),
            'G' => r.append("g"),
            'H' => r.append("h"),
            'I' => r.append("i"),
            'J' => r.append("j"),
            'K' => r.append("k"),
            'L' => r.append("l"),
            'M' => r.append("m"),
            'N' => r.append("n"),
            'O' => r.append("o"),
            'P' => r.append("p"),
            'Q' => r.append("q"),
            'R' => r.append("r"),
            'S' => r.append("s"),
            'T' => r.append("t"),
            'U' => r.append("u"),
            'V' => r.append("v"),
            'W' => r.append("w"),
            'X' => r.append("x"),
            'Y' => r.append("y"),
            'Z' => r.append("z"),
            _ => r.append(s.substring_char(i, i + 1)),
        }
        proof {
            reveal_strlit("a");
            reveal_strlit("b");
            reveal_strlit("c");
            reveal_strlit("d");
            reveal_strlit("e");
            reveal_strlit("f");
            reveal_strlit("g");
            reveal_strlit("h");
            reveal_strlit("i");
            reveal_strlit("j");
            reveal_strlit("k");
            reveal_strlit("l");
            reveal_strlit("m");
            reveal_strlit("n");
            reveal_strlit("o");
            reveal_strlit("p");
            reveal_strlit("q");
            reveal_strlit("r");
            reveal_strlit("s");
            reveal_strlit("t");
            reveal_strlit("u");
            reveal_strlit("v");
            reveal_strlit("w");
            reveal_strlit("x");
            reveal_strlit("y");
            reveal_strlit("z");
            assert(spec_lower(s@).take(i + 1) =~= spec_lower(s@).take(i as int) + seq![
                spec_lower_char(s@[i as int]),
            ]);
            assert(r@ =~= spec_lower(s@).take(i + 1));
        }
        i = i + 1;
    }
    proof {
        assert(spec_lower(s@).take(n as int) =~= spec_lower(s@));
    }
    r
}

/// Compares the characters of `s` from position `from` (inclusive) to `to`
/// (exclusive) with the whole of `pat`.
fn segment_matches(s: &str, from: usize, to: usize, pat: &str) -> (r: bool)
    requires
        from <= to <= s@.len(),
    ensures
        r == (s@.subrange(from as int, to as int) == pat@),
{
    let m = pat.unicode_len();
    if to - from != m {
        proof {
            assert(s@.subrange(from as int, to as int).len() != pat@.len());
        }
        return false;
    }
    let mut i: usize = 0;
    while i < m
        invariant
            from <= to <= s@.len(),
            m == pat@.len(),
            to - from == m,
            i <= m,
            forall|j: int| 0 <= j < i ==> s@.subrange(from as int, to as int)[j] == pat@[j],
        decreases m - i,
    {
        let a = s.get_char(from + i);
        let b = pat.get_char(i);
        if a != b {
            proof {
                assert(s@.subrange(from as int, to as int)[i as int] != pat@[i as int]);
            }
            return false;
        }
        i = i + 1;
    }
    proof {
        assert(s@.subrange(from as int, to as int) =~= pat@);
    }
    true
}

/// The ASCII digit character for a digit value, as executable text.
fn digit_str(d: u64) -> (r: &'static str)
    requires
        d <= 9,
    ensures
        r@ == seq![spec_digit_char(d as int)],
{
    proof {
        reveal_strlit("0");
        reveal_strlit("1");
        reveal_strlit("2");
        reveal_strlit("3");
        reveal_strlit("4");
        reveal_strlit("5");
        reveal_strlit("6");
        reveal_strlit("7");
        reveal_strlit("8");
        reveal_strlit("9");
    }
    match d {
        0 => "0",
        1 => "1",
        2 => "2",
        3 => "3",
        4 => "4",
        5 => "5",
        6 => "6",
        7 => "7",
        8 => "8",
        _ => "9",
    }
}

/// Renders an unsigned value in decimal, most significant digit first.
fn u64_to_string(v: u64) -> (r: String)
    ensures
        r@ == spec_u64_dec(v as int),
    decreases v,
{
    if v <= 9 {
        String::from_str(digit_str(v))
    } else {
        u64_to_string(v / 10).concat(digit_str(v % 10))
    }
}

/// The mathematical reading of one parsed command-line argument.
pub enum SpecInputComponent {
    ToConvert(u64),
    Error(Seq<char>),
    Help,
    AndHelp,
    MinimalOutput,
    AndOption(AndBehavior),
}

/// One parsed command-line argument: a value to convert, an error message,
/// one of the flags, or an "and" policy choice.
#[derive(Clone, Debug, PartialEq, Eq)]
pub enum InputComponent {
    ToConvert(u64),
    Error(String),
    Help,
    AndHelp,
    MinimalOutput,
    AndOption(AndBehavior),
}

impl View for InputComponent {
    type V = SpecInputComponent;

    open spec fn view(&self) -> SpecInputComponent {
        match self {
            InputComponent::ToConvert(k) => SpecInputComponent::ToConvert(*k),
            InputComponent::Error(e) => SpecInputComponent::Error(e@),
            InputComponent::Help => SpecInputComponent::Help,
            InputComponent::AndHelp => SpecInputComponent::AndHelp,
            InputComponent::MinimalOutput => SpecInputComponent::MinimalOutput,
            InputComponent::AndOption(b) => SpecInputComponent::AndOption(*b),
        }
    }
}

/// How one argument is read: after ASCII lowercasing, an argument starting
/// with "--" is a flag ("help", "and-help", "minimal", or "and=" with one
/// of the four policy tokens), and anything else is taken as a number made
/// of whatever ASCII digits it contains; an argument with no digits, an
/// unknown flag, an unknown policy token, or a digit value beyond the
/// 64-bit range each yield their error message.
pub open spec fn spec_parse_single(text: Seq<char>) -> SpecInputComponent {
    let t = spec_lower(text);
    if t.len() > 2 && t[0] == '-' && t[1] == '-' {
        if t.skip(2) == "help"@ {
            SpecInputComponent::Help
        } else if t.skip(2) == "and-help"@ {
            SpecInputComponent::AndHelp
        } else if t.skip(2) == "minimal"@ {
            SpecInputComponent::MinimalOutput
        } else if t.len() >= 6 && t.subrange(2, 6) == "and="@ {
            let k = t.skip(6);
            if k == "none"@ {
                SpecInputComponent::AndOption(AndBehavior::Never)
            } else if k == "last"@ {
                SpecInputComponent::AndOption(AndBehavior::LastGroup)
            } else if k == "below1k"@ {
                SpecInputComponent::AndOption(AndBehavior::OnlyUnderThousand)
            } else if k == "all"@ {
                SpecInputComponent::AndOption(AndBehavior::All)
            } else {
                SpecInputComponent::Error("Invalid \"and\" option: "@ + k)
            }
        } else {
            SpecInputComponent::Error("Invalid option "@ + t)
        }
    } else {
        let ds = spec_digits(t);
        if ds.len() == 0 {
            SpecInputComponent::Error("Invalid input: "@ + text)
        } else if spec_digits_val(ds) <= u64::MAX {
            SpecInputComponent::ToConvert(spec_digits_val(ds) as u64)
        } else {
            SpecInputComponent::Error("Too big: "@ + text)
        }
    }
}

impl InputComponent {
    /// Parses one command-line argument.
    pub fn parse_single_input(text: &str) -> (r: Self)
        ensures
            r@ == spec_parse_single(text@),
    {
        let cleaned = lower_str(text);
        let cs = cleaned.as_str();
        let n = cs.unicode_len();
        let ghost t = spec_lower(text@);
        if n > 2 && cs.get_char(0) == '-' && cs.get_char(1) == '-' {
            proof {
                assert(cs@.skip(2) =~= cs@.subrange(2, n as int));
            }
            if segment_matches(cs, 2, n, "help") {
                Self::Help
            } else if segment_matches(cs, 2, n, "and-help") {
                Self::AndHelp
            } else if segment_matches(cs, 2, n, "minimal") {
                Self::MinimalOutput
            } else if n >= 6 && segment_matches(cs, 2, 6, "and=") {
                proof {
                    assert(cs@.skip(6) =~= cs@.subrange(6, n as int));
                }
                if segment_matches(cs, 6, n, "none") {
                    Self::AndOption(AndBehavior::Never)
                } else if segment_matches(cs, 6, n, "last") {
                    Self::AndOption(AndBehavior::LastGroup)
                } else if segment_matches(cs, 6, n, "below1k") {
                    Self::AndOption(AndBehavior::OnlyUnderThousand)
                } else if segment_matches(cs, 6, n, "all") {
                    Self::AndOption(AndBehavior::All)
                } else {
                    let k = cs.substring_char(6, n);
                    Self::Error(String::from_str("Invalid \"and\" option: ").concat(k))
                }
            } else {
                Self::Error(String::from_str("Invalid option ").concat(cs))
            }
        } else {
            let mut acc: u64 = 0;
            let mut too_big = false;
            let mut any = false;
            let mut i: usize = 0;
            while i < n
                invariant
                    n == t.len(),
                    cs@ == t,
                    i <= n,
                    any == (spec_digits(t.take(i as int)).len() > 0),
                    !too_big ==> acc as nat == spec_digits_val(spec_digits(t.take(i as int))),
                    too_big ==> spec_digits_val(spec_digits(t.take(i as int))) > u64::MAX,
                decreases n - i,
            {
                let c = cs.get_char(i);
                let ghost prefix = spec_digits(t.take(i as int));
                proof {
                    assert(t.take(i + 1).drop_last() =~= t.take(i as int));
                    assert(t.take(i + 1).last() == t[i as int]);
                }
                if '0' <= c && c <= '9' {
                    any = true;
                    let d: u64 = (c as u32 - 48) as u64;
                    proof {
                        assert(spec_digits(t.take(i + 1)) =~= prefix + seq![c]);
                        assert((prefix + seq![c]).drop_last() =~= prefix);
                        assert(spec_digits_val(prefix + seq![c]) == spec_digits_val(prefix) * 10
                            + d);
                    }
                    if too_big || acc > (u64::MAX - d) / 10 {
                        proof {
                            let v = spec_digits_val(prefix);
                            if !too_big {
                                vstd::arithmetic::div_mod::lemma_fundamental_div_mod(
                                    u64::MAX - d,
                                    10,
                                );
                                assert(v * 10 > u64::MAX - d);
                            } else {
                                assert(v * 10 >= v);
                            }
                        }
                        too_big = true;
                    } else {
                        proof {
                            vstd::arithmetic::div_mod::lemma_fundamental_div_mod(u64::MAX - d, 10);
                            assert(acc * 10 <= ((u64::MAX - d) / 10) * 10);
                            assert(acc * 10 + d <= u64::MAX);
                        }
                        acc = acc * 10 + d;
                    }
                } else {
                    proof {
                        assert(spec_digits(t.take(i + 1)) =~= prefix);
                    }
                }
                i = i + 1;
            }
            proof {
                assert(t.take(n as int) =~= t);
            }
            if !any {
                Self::Error(String::from_str("Invalid input: ").concat(text))
            } else if too_big {
                Self::Error(String::from_str("Too big: ").concat(text))
            } else {
                Self::ToConvert(acc)
            }
        }
    }
}

/// The mathematical reading of one unit of program output.
pub enum SpecOutputComponent {
    ToConvert { value: u64, and_behavior: AndBehavior },
    Error(Seq<char>),
}

/// One unit of program output: a value to convert together with the policy
/// in force, or an error message to report.
#[derive(Clone, Debug, PartialEq, Eq)]
pub enum OutputComponent {
    ToConvert { value: u64, and_behavior: AndBehavior },
    Error(String),
}

impl View for OutputComponent {
    type V = SpecOutputComponent;

    open spec fn view(&self) -> SpecOutputComponent {
        match self {
            OutputComponent::ToConvert { value, and_behavior } => SpecOutputComponent::ToConvert {
                value: *value,
                and_behavior: *and_behavior,
            },
            OutputComponent::Error(e) => SpecOutputComponent::Error(e@),
        }
    }
}

/// The mathematical reading of a parsed command line.
pub struct SpecConfig {
    pub output_components: Result<Seq<SpecOutputComponent>, Seq<char>>,
    pub help: bool,
    pub and_help: bool,
    pub prog_name: Seq<char>,
    pub minimal_output: bool,
}

/// Helper for command-line mode: the parsed form of the argument list.
pub struct Config {
    pub output_components: Result<Vec<OutputComponent>, String>,
    pub help: bool,
    pub and_help: bool,
    pub prog_name: String,
    pub minimal_output: bool,
}

impl View for Config {
    type V = SpecConfig;

    open spec fn view(&self) -> SpecConfig {
        SpecConfig {
            output_components: match self.output_components {
                Ok(v) => Ok(v@.map_values(|c: OutputComponent| c@)),
                Err(e) => Err(e@),
            },
            help: self.help,
            and_help: self.and_help,
            prog_name: self.prog_name@,
            minimal_output: self.minimal_output,
        }
    }
}

/// The parsed reading of every argument after the program name.
pub open spec fn spec_parsed(args: Seq<Seq<char>>) -> Seq<SpecInputComponent> {
    args.skip(1).map_values(|t: Seq<char>| spec_parse_single(t))
}

/// Whether some argument is the help flag.
pub open spec fn spec_has_help(cs: Seq<SpecInputComponent>) -> bool
    decreases cs.len(),
{
    cs.len() > 0 && (cs.last() is Help || spec_has_help(cs.drop_last()))
}

/// Whether some argument is the and-help flag.
pub open spec fn spec_has_and_help(cs: Seq<SpecInputComponent>) -> bool
    decreases cs.len(),
{
    cs.len() > 0 && (cs.last() is AndHelp || spec_has_and_help(cs.drop_last()))
}

/// Whether some argument is the minimal-output flag.
pub open spec fn spec_has_minimal(cs: Seq<SpecInputComponent>) -> bool
    decreases cs.len(),
{
    cs.len() > 0 && (cs.last() is MinimalOutput || spec_has_minimal(cs.drop_last()))
}

/// The policy in force: the last "and" option given, or All by default.
pub open spec fn spec_and_behavior(cs: Seq<SpecInputComponent>) -> AndBehavior
    decreases cs.len(),
{
    if cs.len() == 0 {
        AndBehavior::All
    } else {
        match cs.last() {
            SpecInputComponent::AndOption(b) => b,
            _ => spec_and_behavior(cs.drop_last()),
        }
    }
}

/// The output units, in argument order: each number with the policy in
/// force, and each per-argument error message; flags produce no output
/// unit.
pub open spec fn spec_outputs(cs: Seq<SpecInputComponent>, ab: AndBehavior) -> Seq<
    SpecOutputComponent,
>
    decreases cs.len(),
{
    if cs.len() == 0 {
        Seq::empty()
    } else {
        spec_outputs(cs.drop_last(), ab) + match cs.last() {
            SpecInputComponent::ToConvert(k) => seq![
                SpecOutputComponent::ToConvert { value: k, and_behavior: ab },
            ],
            SpecInputComponent::Error(e) => seq![SpecOutputComponent::Error(e)],
            _ => Seq::<SpecOutputComponent>::empty(),
        }
    }
}

/// The message reported when no arguments are given.
pub open spec fn spec_no_args_err(prog: Seq<char>) -> Seq<char> {
    "No arguments. For help, run:\n$ "@ + prog + " --help"@
}

/// The parsed reading of a whole command line: with no arguments after the
/// program name, the no-arguments error; otherwise the flags, the policy in
/// force, and the output units.
pub open spec fn spec_config(args: Seq<Seq<char>>) -> SpecConfig
    recommends
        args.len() >= 1,
{
    if args.len() < 2 {
        SpecConfig {
            output_components: Err(spec_no_args_err(args[0])),
            help: false,
            and_help: false,
            prog_name: args[0],
            minimal_output: false,
        }
    } else {
        let cs = spec_parsed(args);
        SpecConfig {
            output_components: Ok(spec_outputs(cs, spec_and_behavior(cs))),
            help: spec_has_help(cs),
            and_help: spec_has_and_help(cs),
            prog_name: args[0],
            minimal_output: spec_has_minimal(cs),
        }
    }
}

impl Config {
    /// Parses the command-line arguments and encodes them in a `Config`.
    pub fn parse(args: Vec<String>) -> (r: Self)
        requires
            args@.len() >= 1,
        ensures
            r@ == spec_config(args.deep_view()),
    {
        let ghost dv = args.deep_view();
        let prog_name = args[0].clone();
        if args.len() < 2 {
            let r = Self {
                output_components: Err(
                    String::from_str("No arguments. For help, run:\n$ ").concat(
                        prog_name.as_str(),
                    ).concat(" --help"),
                ),
                help: false,
                and_help: false,
                minimal_output: false,
                prog_name,
            };
            proof {
                assert(dv[0] == args@[0]@);
                assert(r@ == spec_config(dv));
            }
            return r;
        }
        let mut input_cmpts: Vec<InputComponent> = Vec::new();
        let mut j: usize = 1;
        while j < args.len()
            invariant
                dv == args.deep_view(),
                1 <= j <= args@.len(),
                input_cmpts@.len() == j - 1,
                forall|k: int|
                    0 <= k < j - 1 ==> #[trigger] input_cmpts@[k]@ == spec_parse_single(dv[k + 1]),
            decreases args@.len() - j,
        {
            proof {
                assert(dv[j as int] == args@[j as int]@);
            }
            input_cmpts.push(InputComponent::parse_single_input(args[j].as_str()));
            j = j + 1;
        }
        let ghost cs = input_cmpts@.map_values(|c: InputComponent| c@);
        proof {
            assert(cs =~= spec_parsed(dv));
        }

        let mut help: bool = false;
        let mut and_help: bool = false;
        let mut minimal_output: bool = false;
        let mut and_behavior: AndBehavior = AndBehavior::All;
        let mut j2: usize = 0;
        while j2 < input_cmpts.len()
            invariant
                cs == input_cmpts@.map_values(|c: InputComponent| c@),
                j2 <= input_cmpts@.len(),
                help == spec_has_help(cs.take(j2 as int)),
                and_help == spec_has_and_help(cs.take(j2 as int)),
                minimal_output == spec_has_minimal(cs.take(j2 as int)),
                and_behavior == spec_and_behavior(cs.take(j2 as int)),
            decreases input_cmpts@.len() - j2,
        {
            proof {
                assert(cs.take(j2 + 1).drop_last() =~= cs.take(j2 as int));
                assert(cs.take(j2 + 1).last() == input_cmpts@[j2 as int]@);
            }
            match &input_cmpts[j2] {
                InputComponent::Help => {
                    help = true;
                },
                InputComponent::AndOption(k) => {
                    and_behavior = *k;
                },
                InputComponent::MinimalOutput => {
                    minimal_output = true;
                },
                InputComponent::AndHelp => {
                    and_help = true;
                },
                _ => {},
            }
            j2 = j2 + 1;
        }
        proof {
            assert(cs.take(input_cmpts@.len() as int) =~= cs);
        }

        let mut output_vec: Vec<OutputComponent> = Vec::new();
        let mut j3: usize = 0;
        while j3 < input_cmpts.len()
            invariant
                cs == input_cmpts@.map_values(|c: InputComponent| c@),
                j3 <= input_cmpts@.len(),
                output_vec@.map_values(|c: OutputComponent| c@) == spec_outputs(
                    cs.take(j3 as int),
                    and_behavior,
                ),
            decreases input_cmpts@.len() - j3,
        {
            proof {
                assert(cs.take(j3 + 1).drop_last() =~= cs.take(j3 as int));
                assert(cs.take(j3 + 1).last() == input_cmpts@[j3 as int]@);
            }
            let ghost before = output_vec@.map_values(|c: OutputComponent| c@);
            match &input_cmpts[j3] {
                InputComponent::ToConvert(k) => {
                    output_vec.push(OutputComponent::ToConvert { value: *k, and_behavior });
                },
                InputComponent::Error(e) => {
                    output_vec.push(OutputComponent::Error(e.clone()));
                },
                _ => {},
            }
            proof {
                assert(output_vec@.map_values(|c: OutputComponent| c@) =~= spec_outputs(
                    cs.take(j3 + 1),
                    and_behavior,
                ));
            }
            j3 = j3 + 1;
        }
        proof {
            assert(cs.take(input_cmpts@.len() as int) =~= cs);
        }

        let r = Self { output_components: Ok(output_vec), help, and_help, prog_name, minimal_output };
        proof {
            assert(dv[0] == args@[0]@);
            assert(r@ == spec_config(dv));
        }
        r
    }
}

/// The text joined from `lines` with `sep` between consecutive lines.
pub open spec fn spec_join(lines: Seq<Seq<char>>, sep: Seq<char>) -> Seq<char>
    decreases lines.len(),
{
    if lines.len() == 0 {
        Seq::empty()
    } else if lines.len() == 1 {
        lines[0]
    } else {
        spec_join(lines.drop_last(), sep) + sep + lines.last()
    }
}

/// One line of output for a converted value: the numerals and ": " unless
/// minimal output is chosen, then the words.
pub open spec fn spec_valid_line(minimal: bool, value: u64, ab: AndBehavior) -> Seq<char> {
    (if minimal {
        Seq::<char>::empty()
    } else {
        spec_u64_dec(value as int) + ": "@
    }) + spec_to_word(value as int, ab)
}

/// The output lines of the converted values, in order.
pub open spec fn spec_valid_lines(cs: Seq<SpecOutputComponent>, minimal: bool) -> Seq<Seq<char>>
    decreases cs.len(),
{
    if cs.len() == 0 {
        Seq::empty()
    } else {
        spec_valid_lines(cs.drop_last(), minimal) + match cs.last() {
            SpecOutputComponent::ToConvert { value, and_behavior } => seq![
                spec_valid_line(minimal, value, and_behavior),
            ],
            SpecOutputComponent::Error(e) => Seq::<Seq<char>>::empty(),
        }
    }
}

/// The per-argument error messages, in order.
pub open spec fn spec_error_msgs(cs: Seq<SpecOutputComponent>) -> Seq<Seq<char>>
    decreases cs.len(),
{
    if cs.len() == 0 {
        Seq::empty()
    } else {
        spec_error_msgs(cs.drop_last()) + match cs.last() {
            SpecOutputComponent::ToConvert { value, and_behavior } => Seq::<Seq<char>>::empty(),
            SpecOutputComponent::Error(e) => seq![e],
        }
    }
}

/// The conversion-and-error part of the program output: the converted
/// values line by line (set off when the help text precedes them), then
/// the error report, then a pointer to --help when only errors came out.
pub open spec fn spec_process_tail(cfg: SpecConfig) -> Seq<char>
    recommends
        cfg.output_components is Ok,
{
    let cs = cfg.output_components->Ok_0;
    let vlines = spec_valid_lines(cs, cfg.minimal_output);
    let elines = spec_error_msgs(cs);
    (if vlines.len() > 0 && cfg.help {
        "\n---\n\n"@
    } else {
        Seq::<char>::empty()
    }) + spec_join(vlines, "\n"@) + (if vlines.len() > 0 && elines.len() > 0 {
        "\n"@
    } else {
        Seq::<char>::empty()
    }) + (if elines.len() > 0 {
        "Errors\n-----\n"@ + spec_join(elines, "\n"@)
    } else {
        Seq::<char>::empty()
    }) + (if elines.len() > 0 && vlines.len() == 0 && !cfg.help {
        "\nFor help, run: "@ + cfg.prog_name + " --help"@
    } else {
        Seq::<char>::empty()
    })
}

/// The descriptive text for the --and= options.
#[verifier::opaque]
pub open spec fn spec_and_help() -> Seq<char> {
    "\"and\" options:\n-------------------------------------------------------------------\n    --and=none           Don't use the word \"and\"\n                         (e.g. \"five-hundred seventy-two\")\n\n    --and=last           Only use the word \"and\" in the\n                         hundreds-tens-units group\n                         (e.g. \"three-hundred five thousand,\n                                five-hundred and seventy-two\",\n                         but \"three-hundred five million,\n                              five-hundred seventy-two thousand\")\n\n    --and=below1k        Only use the word \"and\" for numbers below 1000\n                         (e.g. \"three-hundred five thousand,\n                                five-hundred seventy-two\",\n                         but \"three-hundred and five\")\n\n    --and=all            Always use \"and\" (default behavior)\n                         (e.g. \"five-hundred and twenty-four million,\n                                three-hundred and seventy-eight\")\n"@
}

/// The argument lists of the two example sessions shown in the help text.
pub open spec fn spec_example1_args(prog: Seq<char>) -> Seq<Seq<char>> {
    seq![prog, "234"@, "409_343"@, "305814"@]
}

pub open spec fn spec_example2_args(prog: Seq<char>) -> Seq<Seq<char>> {
    seq![prog, "--and=last"@, "--minimal"@, "234"@, "409_343"@, "305814"@]
}

/// One example session: the command line as typed, then the program's
/// output for it (the example arguments ask for no help text).
pub open spec fn spec_session_text(args: Seq<Seq<char>>) -> Seq<char>
    recommends
        args.len() >= 2,
{
    "$ "@ + spec_join(args, " "@) + "\n"@ + spec_process_tail(spec_config(args))
}

/// The full help text: title, usage, the options, two example sessions,
/// and the largest supported value.
#[verifier::opaque]
pub open spec fn spec_help_text(prog: Seq<char>) -> Seq<char> {
    "numbers_into_words: Converts positive integers to words\n-------------------------------------------------------\n\nUsage: "@ + prog + " [OPTIONS] [NUMBERS]\n\nOptions:\n  --help                 Display this help message\n\n  --and=(none | last | below1k | all )\n\n                         Specify when the word \"and\"\n                         should be used in phrases like\n                         \"five-hundred and seventy-two\"\n\n  --and-help             Describe the options for --and=\n\n  --minimal              Output only the words for each\n                         number (rather than prefacing\n                         with the numerals, e.g. \"five\"\n                         instead of \"5: five\")\n\nExamples:\n\n"@ + spec_session_text(spec_example1_args(prog)) + "\n"@
        + spec_session_text(spec_example2_args(prog)) + "\n\nNote: maximum value supported is "@ + spec_u64_dec(u64::MAX as int)
}

/// The whole program output for a parsed command line: the no-arguments
/// message alone when no arguments were given; otherwise the help texts
/// that were asked for, then the conversions and errors.
pub open spec fn spec_process(cfg: SpecConfig) -> Seq<char> {
    match cfg.output_components {
        Err(e) => e,
        Ok(v) => (if cfg.help {
            spec_help_text(cfg.prog_name)
        } else {
            Seq::<char>::empty()
        }) + (if cfg.and_help {
            spec_and_help()
        } else {
            Seq::<char>::empty()
        }) + spec_process_tail(cfg),
    }
}

/// Joins the given strings with the separator between consecutive entries.
fn join_strs(v: &Vec<String>, sep: &str) -> (r: String)
    ensures
        r@ == spec_join(v.deep_view(), sep@),
{
    let ghost dv = v.deep_view();
    let mut r = String::new();
    let mut i: usize = 0;
    while i < v.len()
        invariant
            dv == v.deep_view(),
            i <= v@.len(),
            dv.len() == v@.len(),
            r@ == spec_join(dv.take(i as int), sep@),
        decreases v@.len() - i,
    {
        if i > 0 {
            r.append(sep);
        }
        r.append(v[i].as_str());
        proof {
            assert(dv.take(i + 1).drop_last() =~= dv.take(i as int));
            assert(dv.take(i + 1).last() == v@[i as int]@);
            assert(r@ =~= spec_join(dv.take(i + 1), sep@));
        }
        i = i + 1;
    }
    proof {
        assert(dv.take(v@.len() as int) =~= dv);
    }
    r
}

/// The descriptive text for the --and= options.
pub fn and_help() -> (r: String)
    ensures
        r@ == spec_and_help(),
{
    proof {
        reveal(spec_and_help);
    }
    String::from_str("\"and\" options:\n-------------------------------------------------------------------\n    --and=none           Don't use the word \"and\"\n                         (e.g. \"five-hundred seventy-two\")\n\n    --and=last           Only use the word \"and\" in the\n                         hundreds-tens-units group\n                         (e.g. \"three-hundred five thousand,\n                                five-hundred and seventy-two\",\n                         but \"three-hundred five million,\n                              five-hundred seventy-two thousand\")\n\n    --and=below1k        Only use the word \"and\" for numbers below 1000\n                         (e.g. \"three-hundred five thousand,\n                                five-hundred seventy-two\",\n                         but \"three-hundred and five\")\n\n    --and=all            Always use \"and\" (default behavior)\n                         (e.g. \"five-hundred and twenty-four million,\n                                three-hundred and seventy-eight\")\n")
}

/// An argument whose lowercased tail matches neither help flag parses to
/// something other than a help request.
proof fn lemma_parse_not_help(text: Seq<char>)
    requires
        spec_lower(text).skip(2) != "help"@,
        spec_lower(text).skip(2) != "and-help"@,
    ensures
        !(spec_parse_single(text) is Help),
        !(spec_parse_single(text) is AndHelp),
{
}

/// A component list without help requests sets neither help flag.
proof fn lemma_no_flags(cs: Seq<SpecInputComponent>)
    requires
        forall|i: int| 0 <= i < cs.len() ==> !((#[trigger] cs[i]) is Help),
        forall|i: int| 0 <= i < cs.len() ==> !((#[trigger] cs[i]) is AndHelp),
    ensures
        !spec_has_help(cs),
        !spec_has_and_help(cs),
    decreases cs.len(),
{
    if cs.len() > 0 {
        assert(forall|i: int|
            0 <= i < cs.drop_last().len() ==> #[trigger] cs.drop_last()[i] == cs[i]);
        lemma_no_flags(cs.drop_last());
    }
}

/// The example argument lists of the help text ask for no help text
/// themselves.
proof fn lemma_example_args_plain(prog: Seq<char>)
    ensures
        ({
            let c1 = spec_config(spec_example1_args(prog));
            &&& !c1.help
            &&& !c1.and_help
            &&& c1.output_components is Ok
        }),
        ({
            let c2 = spec_config(spec_example2_args(prog));
            &&& !c2.help
            &&& !c2.and_help
            &&& c2.output_components is Ok
        }),
{
    reveal_strlit("234");
    reveal_strlit("409_343");
    reveal_strlit("305814");
    reveal_strlit("--and=last");
    reveal_strlit("--minimal");
    reveal_strlit("help");
    reveal_strlit("and-help");
    assert(spec_lower("234"@).len() == 3);
    assert("help"@.len() == 4);
    assert("and-help"@.len() == 8);
    assert(spec_lower("234"@).skip(2).len() == 1);
    assert(spec_lower("409_343"@).len() == 7);
    assert(spec_lower("409_343"@).skip(2).len() == 5);
    assert(spec_lower("305814"@).len() == 6);
    assert(spec_lower("305814"@)[2] == spec_lower_char('5'));
    assert(spec_lower("305814"@).skip(2)[0] == '5');
    assert(spec_lower("305814"@).skip(2) != "help"@);
    lemma_parse_not_help("234"@);
    lemma_parse_not_help("409_343"@);
    lemma_parse_not_help("305814"@);
    assert(spec_lower("--and=last"@).len() == 10);
    assert(spec_lower("--and=last"@)[5] == spec_lower_char('='));
    assert(spec_lower("--and=last"@).skip(2)[3] == '=');
    assert(spec_lower("--and=last"@).skip(2) != "and-help"@);
    lemma_parse_not_help("--and=last"@);
    assert(spec_lower("--minimal"@).len() == 9);
    lemma_parse_not_help("--minimal"@);

    let a1 = spec_example1_args(prog);
    let cs1 = spec_parsed(a1);
    assert(a1.len() == 4);
    assert(cs1.len() == 3);
    assert forall|i: int|
        0 <= i < cs1.len() implies !((#[trigger] cs1[i]) is Help) && !(cs1[i] is AndHelp) by {
        assert(cs1[i] == spec_parse_single(a1.skip(1)[i]));
        assert(a1.skip(1)[i] == a1[i + 1]);
    }
    lemma_no_flags(cs1);

    let a2 = spec_example2_args(prog);
    let cs2 = spec_parsed(a2);
    assert(a2.len() == 6);
    assert(cs2.len() == 5);
    assert forall|i: int|
        0 <= i < cs2.len() implies !((#[trigger] cs2[i]) is Help) && !(cs2[i] is AndHelp) by {
        assert(cs2[i] == spec_parse_single(a2.skip(1)[i]));
        assert(a2.skip(1)[i] == a2[i + 1]);
    }
    lemma_no_flags(cs2);
}

/// Runs the program on an example argument list and shows the command line
/// as typed, then the program's output for it.
pub fn example_session(inputs: &[&str], prog_name: &str) -> (r: String)
    ensures
        ({
            let args = seq![prog_name@] + inputs.deep_view();
            r@ == "$ "@ + spec_join(args, " "@) + "\n"@ + spec_process(spec_config(args))
        }),
    decreases (if spec_config(seq![prog_name@] + inputs.deep_view()).help {
        4int
    } else {
        1int
    }),
{
    let ghost args = seq![prog_name@] + inputs.deep_view();
    let mut argv: Vec<String> = Vec::new();
    argv.push(String::from_str(prog_name));
    let mut i: usize = 0;
    while i < inputs.len()
        invariant
            args == seq![prog_name@] + inputs.deep_view(),
            args.len() == 1 + inputs@.len(),
            i <= inputs@.len(),
            argv@.len() == i + 1,
            forall|k: int| 0 <= k < i + 1 ==> (#[trigger] argv@[k])@ == args[k],
        decreases inputs@.len() - i,
    {
        argv.push(String::from_str(inputs[i]));
        proof {
            assert(args[i + 1] == inputs.deep_view()[i as int]);
            assert(inputs.deep_view()[i as int] == inputs@[i as int]@);
        }
        i = i + 1;
    }
    proof {
        assert forall|k: int| 0 <= k < args.len() implies #[trigger] argv.deep_view()[k]
            == args[k] by {
            assert(argv.deep_view()[k] == argv@[k]@);
        }
        assert(argv.deep_view() =~= args);
        assert(argv@.len() == args.len());
    }
    let command_line = join_strs(&argv, " ");
    let config = Config::parse(argv);
    let output = config.process();
    let r = String::from_str("$ ").concat(command_line.as_str()).concat("\n").concat(
        output.as_str(),
    );
    proof {
        assert(r@ =~= "$ "@ + spec_join(args, " "@) + "\n"@ + spec_process(spec_config(args)));
    }
    r
}

/// The full help text for the given program name: usage, options, and two
/// example sessions.
pub fn help_text(prog_name: &String) -> (r: String)
    ensures
        r@ == spec_help_text(prog_name@),
    decreases 2int,
{
    let mut ex1: Vec<&str> = Vec::new();
    ex1.push("234");
    ex1.push("409_343");
    ex1.push("305814");
    let mut ex2: Vec<&str> = Vec::new();
    ex2.push("--and=last");
    ex2.push("--minimal");
    ex2.push("234");
    ex2.push("409_343");
    ex2.push("305814");
    let ghost prog = prog_name@;
    let s1: &[&str] = ex1.as_slice();
    let s2: &[&str] = ex2.as_slice();
    proof {
        lemma_example_args_plain(prog);
        assert(seq![prog] + s1.deep_view() =~= spec_example1_args(prog));
        assert(seq![prog] + s2.deep_view() =~= spec_example2_args(prog));
    }
    let e1 = example_session(s1, prog_name.as_str());
    let e2 = example_session(s2, prog_name.as_str());
    proof {
        let c1 = spec_config(spec_example1_args(prog));
        let c2 = spec_config(spec_example2_args(prog));
        assert(spec_process(c1) =~= spec_process_tail(c1));
        assert(spec_process(c2) =~= spec_process_tail(c2));
        assert(e1@ =~= spec_session_text(spec_example1_args(prog)));
        assert(e2@ =~= spec_session_text(spec_example2_args(prog)));
    }
    let mut r = String::from_str(
        "numbers_into_words: Converts positive integers to words\n-------------------------------------------------------\n\nUsage: ",
    );
    r.append(prog_name.as_str());
    r.append(
        " [OPTIONS] [NUMBERS]\n\nOptions:\n  --help                 Display this help message\n\n  --and=(none | last | below1k | all )\n\n                         Specify when the word \"and\"\n                         should be used in phrases like\n                         \"five-hundred and seventy-two\"\n\n  --and-help             Describe the options for --and=\n\n  --minimal              Output only the words for each\n                         number (rather than prefacing\n                         with the numerals, e.g. \"five\"\n                         instead of \"5: five\")\n\nExamples:\n\n",
    );
    r.append(e1.as_str());
    r.append("\n");
    r.append(e2.as_str());
    r.append("\n\nNote: maximum value supported is ");
    let mx = u64_to_string(u64::MAX);
    r.append(mx.as_str());
    proof {
        reveal(spec_help_text);
        assert(r@ =~= spec_help_text(prog));
    }
    r
}

/// Renders the output units line by line: the converted values in one
/// list and the error messages in another, each in argument order.
fn collect_output_lines(cmpts: &Vec<OutputComponent>, minimal: bool) -> (r: (Vec<String>, Vec<
    String,
>))
    ensures
        ({
            let cs = cmpts@.map_values(|c: OutputComponent| c@);
            &&& r.0.deep_view() == spec_valid_lines(cs, minimal)
            &&& r.1.deep_view() == spec_error_msgs(cs)
        }),
{
    let ghost cs = cmpts@.map_values(|c: OutputComponent| c@);
    let mut valid_vec: Vec<String> = Vec::new();
    let mut error_vec: Vec<String> = Vec::new();
    let mut i: usize = 0;
    while i < cmpts.len()
        invariant
            cs == cmpts@.map_values(|c: OutputComponent| c@),
            i <= cmpts@.len(),
            valid_vec.deep_view() == spec_valid_lines(cs.take(i as int), minimal),
            error_vec.deep_view() == spec_error_msgs(cs.take(i as int)),
        decreases cmpts@.len() - i,
    {
        proof {
            assert(cs.take(i + 1).drop_last() =~= cs.take(i as int));
            assert(cs.take(i + 1).last() == cmpts@[i as int]@);
        }
        match &cmpts[i] {
            OutputComponent::ToConvert { value, and_behavior } => {
                let prefix = if minimal {
                    String::new()
                } else {
                    u64_to_string(*value).concat(": ")
                };
                let line = prefix.concat(to_word(*value, *and_behavior).as_str());
                proof {
                    assert(line@ =~= spec_valid_line(minimal, *value, *and_behavior));
                }
                valid_vec.push(line);
            },
            OutputComponent::Error(e) => {
                error_vec.push(e.clone());
            },
        }
        proof {
            assert(valid_vec.deep_view() =~= spec_valid_lines(cs.take(i + 1), minimal));
            assert(error_vec.deep_view() =~= spec_error_msgs(cs.take(i + 1)));
        }
        i = i + 1;
    }
    proof {
        assert(cs.take(cmpts@.len() as int) =~= cs);
    }
    (valid_vec, error_vec)
}

impl Config {
    /// Returns the program output appropriate for the command-line
    /// arguments that were encoded in this `Config`.
    #[verifier::rlimit(60)]
    pub fn process(&self) -> (r: String)
        ensures
            r@ == spec_process(self@),
        decreases (if self.help {
            3int
        } else {
            0int
        }),
    {
        match &self.output_components {
            Err(e) => e.clone(),
            Ok(cmpts) => {
                let ghost cs = cmpts@.map_values(|c: OutputComponent| c@);
                let (valid_vec, error_vec) = collect_output_lines(cmpts, self.minimal_output);
                let ghost vlines = spec_valid_lines(cs, self.minimal_output);
                let ghost elines = spec_error_msgs(cs);
                let ghost p_help = if self@.help {
                    spec_help_text(self@.prog_name)
                } else {
                    Seq::<char>::empty()
                };
                let ghost p_and = if self@.and_help {
                    spec_and_help()
                } else {
                    Seq::<char>::empty()
                };
                let ghost p_set = if vlines.len() > 0 && self@.help {
                    "\n---\n\n"@
                } else {
                    Seq::<char>::empty()
                };
                let ghost p_nl = if vlines.len() > 0 && elines.len() > 0 {
                    "\n"@
                } else {
                    Seq::<char>::empty()
                };
                let ghost p_err = if elines.len() > 0 {
                    "Errors\n-----\n"@ + spec_join(elines, "\n"@)
                } else {
                    Seq::<char>::empty()
                };
                let ghost p_for = if elines.len() > 0 && vlines.len() == 0 && !self@.help {
                    "\nFor help, run: "@ + self@.prog_name + " --help"@
                } else {
                    Seq::<char>::empty()
                };
                let vjoined = join_strs(&valid_vec, "\n");
                let ejoined = join_strs(&error_vec, "\n");
                proof {
                    reveal_strlit("");
                    assert(valid_vec.deep_view().len() == valid_vec@.len());
                    assert(error_vec.deep_view().len() == error_vec@.len());
                }
                let help_part: String = if self.help {
                    help_text(&self.prog_name)
                } else {
                    String::new()
                };
                let and_part: String = if self.and_help {
                    and_help()
                } else {
                    String::new()
                };
                let set_part: &str = if valid_vec.len() > 0 && self.help {
                    "\n---\n\n"
                } else {
                    ""
                };
                let nl_part: &str = if valid_vec.len() > 0 && error_vec.len() > 0 {
                    "\n"
                } else {
                    ""
                };
                let err_part: String = if error_vec.len() > 0 {
                    String::from_str("Errors\n-----\n").concat(ejoined.as_str())
                } else {
                    String::new()
                };
                let for_part: String = if error_vec.len() > 0 && valid_vec.len() == 0
                    && !self.help {
                    String::from_str("\nFor help, run: ").concat(self.prog_name.as_str()).concat(
                        " --help",
                    )
                } else {
                    String::new()
                };
                proof {
                    assert(help_part@ == p_help);
                    assert(and_part@ == p_and);
                    assert(set_part@ == p_set);
                    assert(nl_part@ == p_nl);
                    assert(err_part@ == p_err);
                    assert(for_part@ == p_for);
                }
                let out = help_part.concat(and_part.as_str()).concat(set_part).concat(
                    vjoined.as_str(),
                ).concat(nl_part).concat(err_part.as_str()).concat(for_part.as_str());
                proof {
                    assert(out@ =~= spec_process(self@));
                }
                out
            },
        }
    }
}

} // verus!
