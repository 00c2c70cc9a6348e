//! The laws the loader obeys, stated over the spec-level decoders that the
//! executable functions are proved against.
//!
//! Completeness on conforming inputs and exactness of each error are
//! already the `ensures` of the decoding functions themselves; this module
//! states what relates several of them: the canonical renderings decode
//! back to what they render, fewer than four tokens always fail with the
//! supplied count, and the termination threshold is checked before the
//! termination mode.

use vstd::prelude::*;

use crate::errors::KindView;
use crate::numeric::Parseable;
use crate::params::NumThreads;
use crate::params::Params;
use crate::params::RunMode;
use crate::params::TerminationCriteria;
use crate::text::all_dec_digits;
use crate::text::dec_str;
use crate::text::digits_val;
use crate::text::is_char_token;
use crate::text::lemma_dec_str_val;
use crate::text::u64_token_valid;

verus! {

/// The canonical token of a thread count: `"0"` for all available
/// threads, the decimal rendering of the count otherwise.
pub open spec fn num_threads_token(t: NumThreads) -> Seq<char> {
    match t {
        NumThreads::UseAllAvailable => seq!['0'],
        NumThreads::Fixed(n) => dec_str(n as nat),
    }
}

/// The canonical token of a run mode: absent for the default mode.
pub open spec fn run_mode_token(m: RunMode) -> Option<Seq<char>> {
    match m {
        RunMode::Default => None,
        RunMode::Debug => Some(seq!['d']),
        RunMode::Sequential => Some(seq!['s']),
    }
}

/// Decoding the decimal rendering of a numeric value gives the value
/// back.
pub proof fn lemma_u64_round_trip(v: u64)
    ensures
        u64_token_valid(dec_str(v as nat)),
        digits_val(dec_str(v as nat)) == v,
{
    lemma_dec_str_val(v as nat);
}

/// Decoding the canonical token of a thread count gives the thread count
/// back. A fixed count of zero is excluded: the type never stands for it,
/// and its rendering is the all-available token.
pub proof fn lemma_num_threads_round_trip(t: NumThreads)
    requires
        t matches NumThreads::Fixed(n) ==> 1 <= n,
    ensures
        NumThreads::token_valid(num_threads_token(t)),
        NumThreads::decoded(num_threads_token(t)) == t,
{
    match t {
        NumThreads::UseAllAvailable => {
            assert(is_char_token(seq!['0'], '0'));
        },
        NumThreads::Fixed(n) => {
            lemma_dec_str_val(n as nat);
            if is_char_token(dec_str(n as nat), '0') {
                assert(dec_str(n as nat) =~= seq!['0']);
                assert(seq!['0'].drop_last() =~= Seq::<char>::empty());
                assert(digits_val(Seq::<char>::empty()) == 0);
                assert(digits_val(seq!['0']) == 0);
                assert(false);
            }
        },
    }
}

/// Decoding the canonical token of a run mode gives the run mode back; in
/// particular, absence decodes to the default mode.
pub proof fn lemma_run_mode_round_trip(m: RunMode)
    ensures
        RunMode::token_valid(run_mode_token(m)),
        RunMode::decoded(run_mode_token(m)) == m,
{
}

/// Exactly the literal `"0"` decodes to all available threads.
pub proof fn lemma_num_threads_zero_token()
    ensures
        NumThreads::token_valid(seq!['0']),
        NumThreads::decoded(seq!['0']) == NumThreads::UseAllAvailable,
{
    assert(is_char_token(seq!['0'], '0'));
}

/// Every other accepted numeric literal decodes to a fixed count carrying
/// the literal's integer value.
pub proof fn lemma_num_threads_numeric_literal(s: Seq<char>)
    requires
        s.len() > 0,
        all_dec_digits(s),
        1 <= digits_val(s) <= u16::MAX,
        !is_char_token(s, '0'),
    ensures
        NumThreads::token_valid(s),
        NumThreads::decoded(s) == NumThreads::Fixed(digits_val(s) as u16),
{
}

/// The run-mode tokens: absence gives the default mode, `"d"` and `"s"`
/// give the two explicit modes, and any other present token is invalid.
pub proof fn lemma_run_mode_tokens()
    ensures
        RunMode::token_valid(None),
        RunMode::decoded(None) == RunMode::Default,
        RunMode::decoded(Some(seq!['d'])) == RunMode::Debug,
        RunMode::decoded(Some(seq!['s'])) == RunMode::Sequential,
        forall|s: Seq<char>|
            !is_char_token(s, 'd') && !is_char_token(s, 's') ==> !RunMode::token_valid(Some(s)),
{
    assert(is_char_token(seq!['d'], 'd'));
    assert(is_char_token(seq!['s'], 's'));
}

/// An argument list of fewer than four tokens never conforms, and fails
/// with exactly the supplied count, whatever the tokens hold.
pub proof fn lemma_insufficient_arguments<T: Parseable>(toks: Seq<Seq<char>>)
    requires
        toks.len() < 4,
    ensures
        !Params::<T>::args_valid(toks),
        Params::<T>::failure_chain(toks) == seq![
            KindView::InsufficientArguments(toks.len() as u8),
        ],
{
}

/// A failure's cause chain is short and never cyclic: the taxonomy kind,
/// plus at most one lowest-level numeric failure beneath it.
pub proof fn lemma_failure_chain_short<T: Parseable>(toks: Seq<Seq<char>>)
    ensures
        1 <= Params::<T>::failure_chain(toks).len() <= 2,
{
}

/// The termination threshold is checked before the termination mode: a
/// token pair in which both are malformed fails as a threshold failure.
pub proof fn lemma_criteria_value_before_mode<T: Parseable>(mode: Seq<char>, value: Seq<char>)
    requires
        !T::text_valid(value),
        !is_char_token(mode, 'f'),
        !is_char_token(mode, 'm'),
    ensures
        !TerminationCriteria::<T>::tokens_valid(mode, value),
        TerminationCriteria::<T>::failure(mode, value) == seq![
            KindView::BadTerminationValue,
            KindView::InvalidNumber(value),
        ],
{
}

/// The same ordering seen from the whole argument list: once the thread
/// count has decoded, a malformed threshold is reported ahead of a
/// malformed mode letter.
pub proof fn lemma_value_checked_before_mode<T: Parseable>(toks: Seq<Seq<char>>)
    requires
        toks.len() >= 4,
        NumThreads::token_valid(toks[0]),
        !T::text_valid(toks[2]),
        !is_char_token(toks[1], 'f'),
        !is_char_token(toks[1], 'm'),
    ensures
        !Params::<T>::args_valid(toks),
        Params::<T>::failure_chain(toks) == seq![
            KindView::BadTerminationValue,
            KindView::InvalidNumber(toks[2]),
        ],
{
}

} // verus!
