//! The failure taxonomy of the configuration loader.
//!
//! An [`Error`] is a kind plus an optional cause, and the causes form a
//! singly linked chain down to the lowest-level decoding failure (a numeric
//! token that did not parse). In specifications an error is abstracted to
//! its chain of kind views, outermost first, and the rendered description
//! is pinned down character for character.

use vstd::prelude::*;

use crate::text::dec_str;
use crate::text::u64_dec_str;

verus! {

/// Spec-level image of an [`ErrorKind`]: token payloads as character
/// sequences.
pub enum KindView {
    InsufficientArguments(u8),
    BadNumThreads,
    BadTerminationMode,
    BadTerminationValue,
    BadInputValue,
    BadRunMode,
    InvalidNumber(Seq<char>),
}

/// What went wrong at one level of the decode pipeline.
///
/// The first six kinds form the caller-facing taxonomy; `InvalidNumber`
/// only ever appears as the root cause of a kind that wraps a numeric
/// decoding failure, and carries the offending token.
#[derive(Debug, Clone, PartialEq, Eq)]
pub enum ErrorKind {
    /// Fewer than four tokens were supplied; the payload is the count.
    InsufficientArguments(u8),
    /// The thread-count token failed decoding.
    BadNumThreads,
    /// The termination-mode token was neither `"f"` nor `"m"`.
    BadTerminationMode,
    /// The termination threshold token failed decoding.
    BadTerminationValue,
    /// The evaluation-point token failed decoding.
    BadInputValue,
    /// A fifth token was present but neither `"d"` nor `"s"`.
    BadRunMode,
    /// A token was not a valid numeric literal; carries the token.
    InvalidNumber(String),
}

impl View for ErrorKind {
    type V = KindView;

    open spec fn view(&self) -> KindView {
        match self {
            ErrorKind::InsufficientArguments(n) => KindView::InsufficientArguments(*n),
            ErrorKind::BadNumThreads => KindView::BadNumThreads,
            ErrorKind::BadTerminationMode => KindView::BadTerminationMode,
            ErrorKind::BadTerminationValue => KindView::BadTerminationValue,
            ErrorKind::BadInputValue => KindView::BadInputValue,
            ErrorKind::BadRunMode => KindView::BadRunMode,
            ErrorKind::InvalidNumber(t) => KindView::InvalidNumber(t@),
        }
    }
}

/// A decode failure: its kind, and the lower-level failure that caused it,
/// if any.
#[derive(Debug, PartialEq, Eq)]
pub struct Error {
    pub kind: ErrorKind,
    pub cause: Option<Box<Error>>,
}

impl Error {
    /// The chain of kinds from this error down to its root cause,
    /// outermost first; never empty.
    pub open spec fn chain(self) -> Seq<KindView>
        decreases self,
    {
        seq![self.kind@] + (match self.cause {
            Some(c) => c.chain(),
            None => Seq::<KindView>::empty(),
        })
    }

    /// An error without a cause.
    pub fn new(kind: ErrorKind) -> (r: Error)
        ensures
            r.chain() == seq![kind@],
            r.cause is None,
    {
        let r = Error { kind, cause: None };
        proof {
            assert(r.chain() =~= seq![kind@]);
        }
        r
    }

    /// An error wrapping the failure that caused it.
    pub fn caused_by(kind: ErrorKind, cause: Error) -> (r: Error)
        ensures
            r.chain() == seq![kind@] + cause.chain(),
    {
        Error { kind, cause: Some(Box::new(cause)) }
    }

    /// An error of kind `kind` whose cause records that `token` is not a
    /// valid numeric literal.
    pub fn numeric(kind: ErrorKind, token: &str) -> (r: Error)
        ensures
            r.chain() == seq![kind@, KindView::InvalidNumber(token@)],
    {
        let ghost k = kind@;
        let cause = Error::new(ErrorKind::InvalidNumber(token.to_owned()));
        let r = Error::caused_by(kind, cause);
        proof {
            assert(r.chain() =~= seq![k, KindView::InvalidNumber(token@)]);
        }
        r
    }

    /// The wrapped lower-level failure, if any.
    pub fn cause(&self) -> (r: Option<&Error>)
        ensures
            r is Some <==> self.cause is Some,
            r matches Some(c) ==> self.cause matches Some(b) && *c == *b,
    {
        match &self.cause {
            Some(b) => Some(&**b),
            None => None,
        }
    }

    /// The rendered description of the whole chain.
    pub fn description(&self) -> (r: String)
        ensures
            r@ == render_chain(self.chain()),
        decreases *self,
    {
        let mut r = self.kind.message();
        match &self.cause {
            Some(c) => {
                let sub = c.description();
                r.append(": ");
                r.append(sub.as_str());
                proof {
                    assert(self.chain() =~= seq![self.kind@] + c.chain());
                    assert(self.chain().drop_first() =~= c.chain());
                    assert(r@ =~= render_chain(self.chain()));
                }
                r
            },
            None => {
                proof {
                    assert(self.chain() =~= seq![self.kind@]);
                }
                r
            },
        }
    }
}

/// The fixed message of one kind, cause not included.
pub open spec fn kind_msg(k: KindView) -> Seq<char> {
    match k {
        KindView::InsufficientArguments(n) => "Not enough arguments, only "@ + dec_str(
            n as nat,
        ) + " provided"@,
        KindView::BadNumThreads => "Bad number of threads, must be 0 or a positive number"@,
        KindView::BadTerminationMode => "Bad termination mode, must be 'f' or 'm'"@,
        KindView::BadTerminationValue => "Bad termination value"@,
        KindView::BadInputValue => "Bad input value"@,
        KindView::BadRunMode => "Bad run mode, must be 'd', 's' or not provided"@,
        KindView::InvalidNumber(t) => "not a valid numeric literal '"@ + t + "'"@,
    }
}

/// The rendered description of a cause chain: the messages of its kinds,
/// outermost first, joined by `": "`.
pub open spec fn render_chain(ks: Seq<KindView>) -> Seq<char>
    decreases ks.len(),
{
    if ks.len() == 0 {
        Seq::<char>::empty()
    } else if ks.len() == 1 {
        kind_msg(ks[0])
    } else {
        kind_msg(ks[0]) + ": "@ + render_chain(ks.drop_first())
    }
}

impl ErrorKind {
    /// The fixed message of this kind, cause not included.
    pub fn message(&self) -> (r: String)
        ensures
            r@ == kind_msg(self@),
    {
        match self {
            ErrorKind::InsufficientArguments(n) => {
                let mut r = String::from_str("Not enough arguments, only ");
                let count = u64_dec_str(*n as u64);
                r.append(count.as_str());
                r.append(" provided");
                r
            },
            ErrorKind::BadNumThreads => String::from_str(
                "Bad number of threads, must be 0 or a positive number",
            ),
            ErrorKind::BadTerminationMode => String::from_str(
                "Bad termination mode, must be 'f' or 'm'",
            ),
            ErrorKind::BadTerminationValue => String::from_str("Bad termination value"),
            ErrorKind::BadInputValue => String::from_str("Bad input value"),
            ErrorKind::BadRunMode => String::from_str(
                "Bad run mode, must be 'd', 's' or not provided",
            ),
            ErrorKind::InvalidNumber(t) => {
                let mut r = String::from_str("not a valid numeric literal '");
                r.append(t.as_str());
                r.append("'");
                r
            },
        }
    }
}

} // verus!
