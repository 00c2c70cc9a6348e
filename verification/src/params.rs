//! The configuration record and its loader.
//!
//! Five positional tokens are consumed in a fixed order — thread count,
//! termination mode, termination threshold, evaluation point, and an
//! optional run mode — and each is validated against a narrow grammar
//! before the record is assembled. Decoding is fail-fast: the first
//! failing stage determines the whole outcome.

use vstd::prelude::*;

use crate::errors::Error;
use crate::errors::ErrorKind;
use crate::errors::KindView;
use crate::numeric::Parseable;
use crate::text::all_dec_digits;
use crate::text::digits_val;
use crate::text::is_char_token;
use crate::text::parse_u64_digits;

verus! {

/// How many worker threads the downstream computation should use.
#[derive(Clone, Copy, Debug, PartialEq, Eq, Structural)]
pub enum NumThreads {
    /// Use every thread the platform offers.
    UseAllAvailable,
    /// Use exactly this positive number of threads.
    Fixed(u16),
}

/// When the downstream summation should stop.
#[derive(Debug, PartialEq, Eq)]
pub enum TerminationCriteria<T> {
    /// Stop when successive partial sums differ by less than the threshold.
    Difference(T),
    /// Stop when the magnitude of the current term falls below the
    /// threshold.
    AbsoluteValue(T),
}

/// Execution strategy of the downstream computation.
#[derive(Clone, Copy, Debug, PartialEq, Eq, Structural)]
pub enum RunMode {
    Default,
    Debug,
    Sequential,
}

/// The validated configuration record. A value of this type exists only
/// in fully decoded form: construction either fully succeeds or yields an
/// [`Error`].
#[derive(Debug, PartialEq, Eq)]
pub struct Params<T> {
    pub num_threads: NumThreads,
    pub termination_criteria: TerminationCriteria<T>,
    pub input_value: T,
    pub run_mode: RunMode,
}

impl NumThreads {
    /// The thread-count grammar: exactly `"0"`, or an all-digit token with
    /// a value between 1 and `u16::MAX`. Other spellings of zero, such as
    /// `"00"`, are rejected.
    pub open spec fn token_valid(s: Seq<char>) -> bool {
        is_char_token(s, '0') || (s.len() > 0 && all_dec_digits(s) && 1 <= digits_val(s)
            <= u16::MAX)
    }

    /// The value a valid thread-count token decodes to: only the exact
    /// literal `"0"` asks for all available threads.
    pub open spec fn decoded(s: Seq<char>) -> NumThreads {
        if is_char_token(s, '0') {
            NumThreads::UseAllAvailable
        } else {
            NumThreads::Fixed(digits_val(s) as u16)
        }
    }

    /// Decode the thread-count token; fails on exactly the tokens outside
    /// the grammar, with the offending token as the cause.
    pub fn from_str(s: &str) -> (r: Result<NumThreads, Error>)
        ensures
            r is Ok <==> Self::token_valid(s@),
            r matches Ok(v) ==> v == Self::decoded(s@),
            r matches Err(e) ==> e.chain() == seq![
                KindView::BadNumThreads,
                KindView::InvalidNumber(s@),
            ],
    {
        if s.unicode_len() == 1 && s.get_char(0) == '0' {
            return Ok(NumThreads::UseAllAvailable);
        }
        match parse_u64_digits(s) {
            Some(v) => {
                if 1 <= v && v <= 65535 {
                    Ok(NumThreads::Fixed(v as u16))
                } else {
                    Err(Error::numeric(ErrorKind::BadNumThreads, s))
                }
            },
            None => Err(Error::numeric(ErrorKind::BadNumThreads, s)),
        }
    }
}

/// The run-mode token as the decoder sees it: absent, or one token.
pub open spec fn opt_token_view(t: Option<&str>) -> Option<Seq<char>> {
    match t {
        Some(s) => Some(s@),
        None => None,
    }
}

impl RunMode {
    /// The run-mode grammar: the token is absent, or is exactly `"d"` or
    /// `"s"`.
    pub open spec fn token_valid(t: Option<Seq<char>>) -> bool {
        match t {
            None => true,
            Some(s) => is_char_token(s, 'd') || is_char_token(s, 's'),
        }
    }

    /// The mode a valid token decodes to; absence is the only way to get
    /// the default mode.
    pub open spec fn decoded(t: Option<Seq<char>>) -> RunMode {
        match t {
            None => RunMode::Default,
            Some(s) => if is_char_token(s, 'd') {
                RunMode::Debug
            } else {
                RunMode::Sequential
            },
        }
    }

    /// Decode the optional run-mode token; a present token outside the
    /// grammar fails categorically, without a cause.
    pub fn from_token(t: Option<&str>) -> (r: Result<RunMode, Error>)
        ensures
            r is Ok <==> Self::token_valid(opt_token_view(t)),
            r matches Ok(v) ==> v == Self::decoded(opt_token_view(t)),
            r matches Err(e) ==> e.chain() == seq![KindView::BadRunMode],
    {
        match t {
            None => Ok(RunMode::Default),
            Some(s) => {
                let n = s.unicode_len();
                if n == 1 && s.get_char(0) == 'd' {
                    Ok(RunMode::Debug)
                } else if n == 1 && s.get_char(0) == 's' {
                    Ok(RunMode::Sequential)
                } else {
                    Err(Error::new(ErrorKind::BadRunMode))
                }
            },
        }
    }
}

impl<T: Parseable> TerminationCriteria<T> {
    /// The two tokens decode together: the threshold must be a valid
    /// numeric token and the mode exactly `"f"` or `"m"`.
    pub open spec fn tokens_valid(mode: Seq<char>, value: Seq<char>) -> bool {
        T::text_valid(value) && (is_char_token(mode, 'f') || is_char_token(mode, 'm'))
    }

    /// The criteria a valid token pair decodes to.
    pub open spec fn decoded(mode: Seq<char>, value: Seq<char>) -> TerminationCriteria<T> {
        if is_char_token(mode, 'f') {
            TerminationCriteria::Difference(T::from_text_spec(value))
        } else {
            TerminationCriteria::AbsoluteValue(T::from_text_spec(value))
        }
    }

    /// The failure of an invalid token pair. The threshold is checked
    /// before the mode, so a malformed number is reported as a value
    /// error even under an invalid mode letter.
    pub open spec fn failure(mode: Seq<char>, value: Seq<char>) -> Seq<KindView> {
        if !T::text_valid(value) {
            seq![KindView::BadTerminationValue, KindView::InvalidNumber(value)]
        } else {
            seq![KindView::BadTerminationMode]
        }
    }

    /// Decode the termination-mode and termination-threshold tokens
    /// together, threshold first.
    pub fn from_args(mode: &str, value: &str) -> (r: Result<TerminationCriteria<T>, Error>)
        ensures
            r is Ok <==> Self::tokens_valid(mode@, value@),
            r matches Ok(v) ==> v == Self::decoded(mode@, value@),
            r matches Err(e) ==> e.chain() == Self::failure(mode@, value@),
    {
        let threshold = match T::from_text(value) {
            Some(v) => v,
            None => {
                return Err(Error::numeric(ErrorKind::BadTerminationValue, value));
            },
        };
        let n = mode.unicode_len();
        if n == 1 && mode.get_char(0) == 'f' {
            Ok(TerminationCriteria::Difference(threshold))
        } else if n == 1 && mode.get_char(0) == 'm' {
            Ok(TerminationCriteria::AbsoluteValue(threshold))
        } else {
            Err(Error::new(ErrorKind::BadTerminationMode))
        }
    }
}

impl<T: Parseable> Params<T> {
    /// The whole argument list conforms to the grammar: at least four
    /// tokens, each of the first four valid for its position, and the
    /// fifth, if present, a valid run mode. Tokens past the fifth are
    /// ignored.
    pub open spec fn args_valid(toks: Seq<Seq<char>>) -> bool {
        &&& toks.len() >= 4
        &&& NumThreads::token_valid(toks[0])
        &&& T::text_valid(toks[2])
        &&& (is_char_token(toks[1], 'f') || is_char_token(toks[1], 'm'))
        &&& T::text_valid(toks[3])
        &&& (toks.len() >= 5 ==> RunMode::token_valid(Some(toks[4])))
    }

    /// The record a valid argument list decodes to.
    pub open spec fn decoded_params(toks: Seq<Seq<char>>) -> Params<T> {
        Params {
            num_threads: NumThreads::decoded(toks[0]),
            termination_criteria: TerminationCriteria::<T>::decoded(toks[1], toks[2]),
            input_value: T::from_text_spec(toks[3]),
            run_mode: RunMode::decoded(
                if toks.len() >= 5 {
                    Some(toks[4])
                } else {
                    None
                },
            ),
        }
    }

    /// The failure of an invalid argument list: the first failing stage,
    /// in the fixed decode order, determines the whole outcome.
    pub open spec fn failure_chain(toks: Seq<Seq<char>>) -> Seq<KindView> {
        if toks.len() < 4 {
            seq![KindView::InsufficientArguments(toks.len() as u8)]
        } else if !NumThreads::token_valid(toks[0]) {
            seq![KindView::BadNumThreads, KindView::InvalidNumber(toks[0])]
        } else if !T::text_valid(toks[2]) {
            seq![KindView::BadTerminationValue, KindView::InvalidNumber(toks[2])]
        } else if !(is_char_token(toks[1], 'f') || is_char_token(toks[1], 'm')) {
            seq![KindView::BadTerminationMode]
        } else if !T::text_valid(toks[3]) {
            seq![KindView::BadInputValue, KindView::InvalidNumber(toks[3])]
        } else {
            seq![KindView::BadRunMode]
        }
    }

    /// Decode the argument list into a configuration record, or into the
    /// error of the first failing stage.
    #[allow(non_snake_case)]
    pub fn fromArgs(args: &Vec<String>) -> (r: Result<Params<T>, Error>)
        ensures
            r is Ok <==> Self::args_valid(args.deep_view()),
            r matches Ok(p) ==> p == Self::decoded_params(args.deep_view()),
            r matches Err(e) ==> e.chain() == Self::failure_chain(args.deep_view()),
    {
        proof {
            assert(args.deep_view().len() == args@.len());
        }
        if args.len() < 4 {
            return Err(Error::new(ErrorKind::InsufficientArguments(args.len() as u8)));
        }
        proof {
            assert(args.deep_view()[0] == args@[0]@);
            assert(args.deep_view()[1] == args@[1]@);
            assert(args.deep_view()[2] == args@[2]@);
            assert(args.deep_view()[3] == args@[3]@);
        }
        let num_threads = match NumThreads::from_str(args[0].as_str()) {
            Ok(v) => v,
            Err(e) => {
                return Err(e);
            },
        };
        let termination_criteria = match TerminationCriteria::<T>::from_args(
            args[1].as_str(),
            args[2].as_str(),
        ) {
            Ok(v) => v,
            Err(e) => {
                return Err(e);
            },
        };
        let input_value = match T::from_text(args[3].as_str()) {
            Some(v) => v,
            None => {
                return Err(Error::numeric(ErrorKind::BadInputValue, args[3].as_str()));
            },
        };
        let run_mode_token = if args.len() >= 5 {
            proof {
                assert(args.deep_view()[4] == args@[4]@);
            }
            Some(args[4].as_str())
        } else {
            None
        };
        let run_mode = match RunMode::from_token(run_mode_token) {
            Ok(v) => v,
            Err(e) => {
                return Err(e);
            },
        };
        Ok(Params { num_threads, termination_criteria, input_value, run_mode })
    }
}

} // verus!
