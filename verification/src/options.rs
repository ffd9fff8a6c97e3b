//! The options of the command line.
//!
//! `--md` asks for markdown tables, `-p` or `--plot` for a data block for
//! a plotting tool, and `-n` followed by a number sets the rounds per
//! repetition. Any number of dashes may stand in front of an option, and
//! what is not an option is passed over.

use vstd::prelude::*;
use crate::number::{parse_word, word_value};
use crate::params::{ConfigError, MeasurementParameters, DEFAULT_SAMPLE_COUNT};

verus! {

/// How many dashes a text begins with.
pub open spec fn leading_dashes(s: Seq<char>) -> int
    decreases s.len(),
{
    if s.len() > 0 && s[0] == '-' {
        1 + leading_dashes(s.skip(1))
    } else {
        0
    }
}

/// The text without the dashes it begins with.
pub open spec fn trimmed(s: Seq<char>) -> Seq<char> {
    s.skip(leading_dashes(s))
}

/// The texts of a list of strings.
pub open spec fn texts(args: Seq<String>) -> Seq<Seq<char>> {
    args.map_values(|s: String| s@)
}

/// A text that holds dashes up to position `k` and none at `k` begins
/// with `k` dashes.
pub proof fn lemma_leading_dashes(s: Seq<char>, k: int)
    requires
        0 <= k <= s.len(),
        forall|j: int| 0 <= j < k ==> s[j] == '-',
        k == s.len() || s[k] != '-',
    ensures
        leading_dashes(s) == k,
    decreases k,
{
    if k > 0 {
        let rest = s.skip(1);
        lemma_leading_dashes(rest, k - 1);
    }
}

/// What the command line asked for.
#[derive(Debug, Clone, Copy, PartialEq, Eq, Structural)]
pub struct Opt {
    /// Render the matrices as markdown tables.
    pub md: bool,
    /// Render the matrices as a data block for a plotting tool.
    pub plot: bool,
    /// Rounds per repetition, as given; not yet checked to be positive.
    pub nsamples: isize,
}

impl Opt {
    /// Plain text and the default number of rounds.
    pub open spec fn spec_default() -> Opt {
        Opt { md: false, plot: false, nsamples: DEFAULT_SAMPLE_COUNT }
    }

    /// The options after the argument at position `i` has been looked
    /// at. The two renderings exclude each other, the later one wins. A
    /// `-n` at the very end changes nothing; a `-n` before something that
    /// is not a number is an error.
    pub open spec fn after_argument(self, args: Seq<Seq<char>>, i: int) -> Result<
        Opt,
        ConfigError,
    > {
        let word = trimmed(args[i]);
        if word == "md"@ {
            Ok(Opt { md: true, plot: false, nsamples: self.nsamples })
        } else if word == "p"@ || word == "plot"@ {
            Ok(Opt { md: false, plot: true, nsamples: self.nsamples })
        } else if word == "n"@ {
            if i + 1 < args.len() {
                match word_value(args[i + 1]) {
                    Some(n) => Ok(Opt { md: self.md, plot: self.plot, nsamples: n }),
                    None => Err(ConfigError::SampleCountNotNumeric),
                }
            } else {
                Ok(self)
            }
        } else {
            Ok(self)
        }
    }

    /// The options after the arguments before position `upto` have been
    /// looked at, one after the other. The argument at position zero is
    /// the program's name and is not looked at.
    pub open spec fn parsed(args: Seq<Seq<char>>, upto: int) -> Result<Opt, ConfigError>
        decreases upto,
    {
        if upto <= 1 {
            Ok(Opt::spec_default())
        } else {
            match Opt::parsed(args, upto - 1) {
                Ok(opt) => opt.after_argument(args, upto - 1),
                Err(e) => Err(e),
            }
        }
    }

    /// Plain text and the default number of rounds.
    pub fn default() -> (opt: Opt)
        ensures
            opt == Opt::spec_default(),
    {
        Opt { md: false, plot: false, nsamples: DEFAULT_SAMPLE_COUNT }
    }

    /// Reads the options from the arguments of the command line, the
    /// program's name first.
    pub fn parse(args: &Vec<String>) -> (r: Result<Opt, ConfigError>)
        ensures
            r == Opt::parsed(texts(args@), args.len() as int),
    {
        let mut opt = Opt::default();
        let mut i: usize = 1;
        let ghost all = texts(args@);
        while i < args.len()
            invariant
                1 <= i,
                all == texts(args@),
                i <= args.len() ==> Opt::parsed(all, i as int) == Ok::<Opt, ConfigError>(opt),
                i > args.len() ==> args.len() == 0 && opt == Opt::spec_default(),
            decreases args.len() - i,
        {
            let arg = args[i].as_str();
            let word = trim_dashes(arg);
            if is_word(word, "md") {
                opt.md = true;
                opt.plot = false;
            } else if is_word(word, "p") || is_word(word, "plot") {
                opt.md = false;
                opt.plot = true;
            } else if is_word(word, "n") {
                if i + 1 < args.len() {
                    match parse_word(args[i + 1].as_str()) {
                        Some(n) => {
                            opt.nsamples = n;
                        },
                        None => {
                            proof {
                                lemma_error_is_final(all, i + 1, args.len() as int);
                            }
                            return Err(ConfigError::SampleCountNotNumeric);
                        },
                    }
                }
            }
            i += 1;
        }
        Ok(opt)
    }

    /// The parameters of the run that these options ask for, if the
    /// number of rounds is one that can be measured.
    pub fn parameters(&self) -> (r: Result<MeasurementParameters, ConfigError>)
        ensures
            self.nsamples >= 1 ==> r is Ok && r->Ok_0.wf() && r->Ok_0.rounds() == self.nsamples,
            self.nsamples < 1 ==> r == Err::<MeasurementParameters, ConfigError>(
                ConfigError::SampleCountNotPositive,
            ),
    {
        MeasurementParameters::new(self.nsamples)
    }
}

/// Once an argument is in error, the arguments after it do not matter.
pub proof fn lemma_error_is_final(args: Seq<Seq<char>>, at: int, upto: int)
    requires
        1 <= at <= upto,
        Opt::parsed(args, at) is Err,
    ensures
        Opt::parsed(args, upto) == Opt::parsed(args, at),
    decreases upto - at,
{
    if at < upto {
        lemma_error_is_final(args, at, upto - 1);
    }
}

/// The text without the dashes it begins with.
pub fn trim_dashes(arg: &str) -> (word: &str)
    ensures
        word@ == trimmed(arg@),
{
    let len = arg.unicode_len();
    let mut k: usize = 0;
    while k < len && arg.get_char(k) == '-'
        invariant
            k <= len,
            len == arg@.len(),
            forall|j: int| 0 <= j < k ==> arg@[j] == '-',
        decreases len - k,
    {
        k += 1;
    }
    proof {
        lemma_leading_dashes(arg@, k as int);
    }
    arg.substring_char(k, len)
}

/// Whether two texts are the same.
pub fn is_word(text: &str, word: &str) -> (b: bool)
    ensures
        b == (text@ == word@),
{
    let a = String::from_str(text);
    let b = String::from_str(word);
    a == b
}

} // verus!
