//! The startup configuration of the resource-contention simulation.
//!
//! The tool takes three command-line tokens — an input file name, the
//! maximum number of meals, and a bias mode — and reads two lines from the
//! named file: the number of philosophers, then their weights separated by
//! single spaces. Opening and reading the file is the caller's concern;
//! this module decodes the tokens and the already-read lines, failing with
//! the message of the first thing found wrong.

use vstd::prelude::*;

use crate::text::dec_str;
use crate::text::digits_val;
use crate::text::is_char_token;
use crate::text::parse_u32_token;
use crate::text::split_spaces;
use crate::text::split_spaces_spec;
use crate::text::u32_token_valid;
use crate::text::u64_dec_str;

verus! {

/// How strongly a philosopher's weight biases its chance to eat.
#[derive(Clone, Copy, Debug, PartialEq, Eq, Structural)]
pub enum EatingBias {
    Uniform,
    Proportional,
}

/// The validated startup configuration of the simulation.
#[derive(Clone, Debug, PartialEq, Eq)]
pub struct Input {
    pub max_eats: u32,
    pub num_philosophers: u32,
    pub weights: Vec<u32>,
    pub bias: EatingBias,
}

/// Spec-level image of an [`Input`]: the weights as a sequence.
pub struct InputView {
    pub max_eats: u32,
    pub num_philosophers: u32,
    pub weights: Seq<u32>,
    pub bias: EatingBias,
}

impl View for Input {
    type V = InputView;

    open spec fn view(&self) -> InputView {
        InputView {
            max_eats: self.max_eats,
            num_philosophers: self.num_philosophers,
            weights: self.weights@,
            bias: self.bias,
        }
    }
}

pub open spec fn msg_bad_arity() -> Seq<char> {
    "Invalid number of arguments, expected 3"@
}

pub open spec fn msg_bad_max_eats(t: Seq<char>) -> Seq<char> {
    "Invalid max eats '"@ + t + "'"@
}

pub open spec fn msg_bad_mode(t: Seq<char>) -> Seq<char> {
    "Invalid mode '"@ + t + "'"@
}

pub open spec fn msg_missing_count() -> Seq<char> {
    "Missing number of philosophers"@
}

pub open spec fn msg_bad_count() -> Seq<char> {
    "Invalid number of philosophers"@
}

pub open spec fn msg_missing_weights() -> Seq<char> {
    "Missing weights"@
}

pub open spec fn msg_bad_weight(t: Seq<char>) -> Seq<char> {
    "Invalid weight '"@ + t + "'"@
}

pub open spec fn msg_extra_weights(cap: u32) -> Seq<char> {
    "Extra weights found, expected only "@ + dec_str(cap as nat)
}

pub open spec fn msg_weight_count(have: nat, cap: u32) -> Seq<char> {
    dec_str(have) + " weights found, expected at least "@ + dec_str(cap as nat)
}

/// Decode the weight tokens left to right, `have` already taken and at
/// most `cap` accepted: the first token too many, or the first token that
/// is not a weight, decides the outcome.
pub open spec fn weights_model(toks: Seq<Seq<char>>, have: nat, cap: u32) -> Result<
    Seq<u32>,
    Seq<char>,
>
    decreases toks.len(),
{
    if toks.len() == 0 {
        Ok(Seq::<u32>::empty())
    } else if have == cap {
        Err(msg_extra_weights(cap))
    } else if !u32_token_valid(toks[0]) {
        Err(msg_bad_weight(toks[0]))
    } else {
        match weights_model(toks.drop_first(), have + 1, cap) {
            Ok(rest) => Ok(seq![digits_val(toks[0]) as u32] + rest),
            Err(m) => Err(m),
        }
    }
}

/// The whole decode, in the fixed order: arity, maximum meals, bias mode,
/// philosopher count line, weights line. The first failure decides.
pub open spec fn input_model(args: Seq<Seq<char>>, lines: Seq<Seq<char>>) -> Result<
    InputView,
    Seq<char>,
> {
    if args.len() != 3 {
        Err(msg_bad_arity())
    } else if !u32_token_valid(args[1]) {
        Err(msg_bad_max_eats(args[1]))
    } else if !(is_char_token(args[2], 'U') || is_char_token(args[2], 'P')) {
        Err(msg_bad_mode(args[2]))
    } else if lines.len() < 1 {
        Err(msg_missing_count())
    } else if !u32_token_valid(lines[0]) {
        Err(msg_bad_count())
    } else if lines.len() < 2 {
        Err(msg_missing_weights())
    } else {
        let cap = digits_val(lines[0]) as u32;
        match weights_model(split_spaces_spec(lines[1]), 0, cap) {
            Err(m) => Err(m),
            Ok(ws) => if ws.len() != cap {
                Err(msg_weight_count(ws.len(), cap))
            } else {
                Ok(
                    InputView {
                        max_eats: digits_val(args[1]) as u32,
                        num_philosophers: cap,
                        weights: ws,
                        bias: if is_char_token(args[2], 'U') {
                            EatingBias::Uniform
                        } else {
                            EatingBias::Proportional
                        },
                    },
                )
            },
        }
    }
}

impl Input {
    /// Decode the three command-line tokens and the lines of the
    /// already-read input file; the first thing found wrong decides the
    /// message.
    #[verifier::loop_isolation(false)]
    pub fn from_args(args: &Vec<String>, lines: &Vec<String>) -> (r: Result<Input, String>)
        ensures
            r is Ok <==> input_model(args.deep_view(), lines.deep_view()) is Ok,
            r matches Ok(v) ==> input_model(args.deep_view(), lines.deep_view()) == Ok::<
                InputView,
                Seq<char>,
            >(v@),
            r matches Err(s) ==> input_model(args.deep_view(), lines.deep_view()) == Err::<
                InputView,
                Seq<char>,
            >(s@),
    {
        let ghost argv = args.deep_view();
        let ghost lnv = lines.deep_view();
        proof {
            assert(argv.len() == args@.len());
            assert(lnv.len() == lines@.len());
        }
        if args.len() != 3 {
            return Err(String::from_str("Invalid number of arguments, expected 3"));
        }
        proof {
            assert(argv[1] == args@[1]@);
            assert(argv[2] == args@[2]@);
        }
        let max_eats = match parse_u32_token(args[1].as_str()) {
            Some(v) => v,
            None => {
                let mut m = String::from_str("Invalid max eats '");
                m.append(args[1].as_str());
                m.append("'");
                proof {
                    assert(m@ =~= msg_bad_max_eats(argv[1]));
                }
                return Err(m);
            },
        };
        let mode = args[2].as_str();
        let ml = mode.unicode_len();
        let bias = if ml == 1 && mode.get_char(0) == 'U' {
            EatingBias::Uniform
        } else if ml == 1 && mode.get_char(0) == 'P' {
            EatingBias::Proportional
        } else {
            let mut m = String::from_str("Invalid mode '");
            m.append(mode);
            m.append("'");
            proof {
                assert(m@ =~= msg_bad_mode(argv[2]));
            }
            return Err(m);
        };
        if lines.len() == 0 {
            return Err(String::from_str("Missing number of philosophers"));
        }
        proof {
            assert(lnv[0] == lines@[0]@);
        }
        let num_philosophers = match parse_u32_token(lines[0].as_str()) {
            Some(v) => v,
            None => {
                return Err(String::from_str("Invalid number of philosophers"));
            },
        };
        if lines.len() < 2 {
            return Err(String::from_str("Missing weights"));
        }
        proof {
            assert(lnv[1] == lines@[1]@);
        }
        let toks = split_spaces(lines[1].as_str());
        let ghost tv = toks.deep_view();
        let mut weights: Vec<u32> = Vec::new();
        let mut i: usize = 0;
        proof {
            assert(tv.skip(0) =~= tv);
            match weights_model(tv, 0, num_philosophers) {
                Ok(rest) => {
                    assert(weights@ + rest =~= rest);
                },
                Err(_) => {},
            }
        }
        while i < toks.len()
            invariant
                i <= toks.len(),
                weights.len() == i,
                tv == toks.deep_view(),
                weights_model(tv.skip(i as int), i as nat, num_philosophers) matches Ok(rest)
                    ==> weights_model(tv, 0, num_philosophers) == Ok::<Seq<u32>, Seq<char>>(
                    weights@ + rest,
                ),
                weights_model(tv.skip(i as int), i as nat, num_philosophers) matches Err(m)
                    ==> weights_model(tv, 0, num_philosophers) == Err::<Seq<u32>, Seq<char>>(m),
            decreases toks.len() - i,
        {
            proof {
                assert(tv.skip(i as int).len() == tv.len() - i);
                assert(tv.skip(i as int)[0] == tv[i as int]);
                assert(tv.skip(i as int).drop_first() =~= tv.skip(i as int + 1));
                assert(tv[i as int] == toks@[i as int]@);
            }
            if weights.len() == num_philosophers as usize {
                let mut m = String::from_str("Extra weights found, expected only ");
                let c = u64_dec_str(num_philosophers as u64);
                m.append(c.as_str());
                proof {
                    assert(m@ =~= msg_extra_weights(num_philosophers));
                }
                return Err(m);
            }
            let w = match parse_u32_token(toks[i].as_str()) {
                Some(v) => v,
                None => {
                    let mut m = String::from_str("Invalid weight '");
                    m.append(toks[i].as_str());
                    m.append("'");
                    proof {
                        assert(m@ =~= msg_bad_weight(tv[i as int]));
                    }
                    return Err(m);
                },
            };
            let ghost old_weights = weights@;
            weights.push(w);
            i = i + 1;
            proof {
                match weights_model(tv.skip(i as int), i as nat, num_philosophers) {
                    Ok(rest) => {
                        assert(old_weights + (seq![w] + rest) =~= weights@ + rest);
                    },
                    Err(_) => {},
                }
            }
        }
        proof {
            assert(tv.skip(toks.len() as int) =~= Seq::<Seq<char>>::empty());
            assert(weights@ + Seq::<u32>::empty() =~= weights@);
        }
        if weights.len() != num_philosophers as usize {
            let mut m = u64_dec_str(weights.len() as u64);
            m.append(" weights found, expected at least ");
            let c = u64_dec_str(num_philosophers as u64);
            m.append(c.as_str());
            proof {
                assert(m@ =~= msg_weight_count(weights@.len(), num_philosophers));
            }
            return Err(m);
        }
        let r = Input { max_eats, num_philosophers, weights, bias };
        Ok(r)
    }
}

} // verus!
