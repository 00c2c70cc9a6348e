//! Decimal digit strings and their numeric values.
//!
//! Every numeric token accepted by this crate is a run of ASCII decimal
//! digits (no sign, no surrounding space). The spec-level value of such a
//! run is `digits_val`; `parse_u64_digits` is the one executable decoder,
//! and the range-restricted decoders are built on top of it.

use vstd::prelude::*;

verus! {

/// `c` is an ASCII decimal digit.
pub open spec fn is_dec_digit(c: char) -> bool {
    '0' <= c && c <= '9'
}

/// Numeric value of one digit; 0 for anything that is not a digit.
pub open spec fn digit_val(c: char) -> nat {
    if is_dec_digit(c) {
        (c as int - '0' as int) as nat
    } else {
        0
    }
}

/// Every character of `s` is an ASCII decimal digit.
pub open spec fn all_dec_digits(s: Seq<char>) -> bool {
    forall|i: int| 0 <= i < s.len() ==> is_dec_digit(#[trigger] s[i])
}

/// The base-10 value of a digit string (most significant digit first).
pub open spec fn digits_val(s: Seq<char>) -> nat
    decreases s.len(),
{
    if s.len() == 0 {
        0
    } else {
        digits_val(s.drop_last()) * 10 + digit_val(s.last())
    }
}

/// The digit character for a value below ten.
pub open spec fn digit_char(d: nat) -> char {
    if d == 0 {
        '0'
    } else if d == 1 {
        '1'
    } else if d == 2 {
        '2'
    } else if d == 3 {
        '3'
    } else if d == 4 {
        '4'
    } else if d == 5 {
        '5'
    } else if d == 6 {
        '6'
    } else if d == 7 {
        '7'
    } else if d == 8 {
        '8'
    } else {
        '9'
    }
}

/// The decimal rendering of a natural number, most significant digit first.
pub open spec fn dec_str(n: nat) -> Seq<char>
    decreases n,
{
    if n < 10 {
        seq![digit_char(n)]
    } else {
        dec_str(n / 10) + seq![digit_char(n % 10)]
    }
}

/// The decimal rendering of a number is a nonempty digit string whose
/// value is the number again.
pub proof fn lemma_dec_str_val(n: nat)
    ensures
        dec_str(n).len() >= 1,
        all_dec_digits(dec_str(n)),
        digits_val(dec_str(n)) == n,
    decreases n,
{
    assert(digits_val(Seq::<char>::empty()) == 0);
    if n < 10 {
        let s = seq![digit_char(n)];
        assert(dec_str(n) =~= s);
        assert(s.drop_last() =~= Seq::<char>::empty());
        assert(is_dec_digit(s[0]));
        assert(digits_val(s) == digit_val(digit_char(n)));
        assert(digit_val(digit_char(n)) == n);
    } else {
        lemma_dec_str_val(n / 10);
        let d = seq![digit_char(n % 10)];
        assert(is_dec_digit(d[0]));
        lemma_all_dec_digits_add(dec_str(n / 10), d);
        assert((dec_str(n / 10) + d).drop_last() =~= dec_str(n / 10));
        assert((dec_str(n / 10) + d).last() == digit_char(n % 10));
        assert(digit_val(digit_char(n % 10)) == n % 10);
        assert(digits_val(dec_str(n)) == (n / 10) * 10 + n % 10);
    }
}

/// One digit as a borrowed one-character string.
fn digit_str(d: u64) -> (r: &'static str)
    requires
        d < 10,
    ensures
        r@ == seq![digit_char(d as nat)],
{
    proof {
        reveal_strlit("0");
        reveal_strlit("1");
        reveal_strlit("2");
        reveal_strlit("3");
        reveal_strlit("4");
        reveal_strlit("5");
        reveal_strlit("6");
        reveal_strlit("7");
        reveal_strlit("8");
        reveal_strlit("9");
    }
    let r = match d {
        0 => "0",
        1 => "1",
        2 => "2",
        3 => "3",
        4 => "4",
        5 => "5",
        6 => "6",
        7 => "7",
        8 => "8",
        _ => "9",
    };
    proof {
        assert(r@ =~= seq![digit_char(d as nat)]);
    }
    r
}

/// The decimal rendering of a number, matching the spec-level `dec_str`.
pub fn u64_dec_str(n: u64) -> (r: String)
    ensures
        r@ == dec_str(n as nat),
    decreases n,
{
    let d = digit_str(n % 10);
    if n < 10 {
        String::from_str(d)
    } else {
        let r = u64_dec_str(n / 10);
        r.concat(d)
    }
}

/// Split on single spaces: the pieces between the space characters, in
/// order. There is always at least one piece; an empty input gives one
/// empty piece, and every further space adds a piece.
pub open spec fn split_spaces_spec(s: Seq<char>) -> Seq<Seq<char>>
    decreases s.len(),
    via split_spaces_spec_decreases
{
    let i = find_char(s, ' ');
    if i < s.len() {
        seq![s.subrange(0, i)] + split_spaces_spec(s.subrange(i + 1, s.len() as int))
    } else {
        seq![s]
    }
}

#[via_fn]
proof fn split_spaces_spec_decreases(s: Seq<char>) {
    lemma_find_char(s, ' ');
}

/// Split a string on single spaces.
pub fn split_spaces(s: &str) -> (r: Vec<String>)
    ensures
        r.deep_view() == split_spaces_spec(s@),
{
    let n = s.unicode_len();
    let mut parts: Vec<String> = Vec::new();
    let mut pos: usize = 0;
    proof {
        assert(s@.subrange(0, n as int) =~= s@);
        assert(parts.deep_view() =~= Seq::<Seq<char>>::empty());
        assert(parts.deep_view() + split_spaces_spec(s@) =~= split_spaces_spec(s@));
    }
    loop
        invariant_except_break
            pos <= n,
            n == s@.len(),
            split_spaces_spec(s@) =~= parts.deep_view() + split_spaces_spec(
                s@.subrange(pos as int, n as int),
            ),
        ensures
            parts.deep_view() == split_spaces_spec(s@),
        decreases n - pos,
    {
        let rest = s.substring_char(pos, n);
        let i = find_char_at(rest, ' ');
        proof {
            lemma_find_char(rest@, ' ');
        }
        let ghost old_parts = parts.deep_view();
        if i < n - pos {
            let piece = rest.substring_char(0, i);
            parts.push(piece.to_owned());
            proof {
                assert(parts.deep_view() =~= old_parts.push(piece@));
                assert(rest@.subrange(i + 1, rest@.len() as int) =~= s@.subrange(
                    pos + i + 1,
                    n as int,
                ));
                assert(split_spaces_spec(rest@) == seq![piece@] + split_spaces_spec(
                    s@.subrange(pos + i + 1, n as int),
                ));
                assert(split_spaces_spec(s@) =~= parts.deep_view() + split_spaces_spec(
                    s@.subrange(pos + i + 1, n as int),
                ));
            }
            pos = pos + i + 1;
        } else {
            parts.push(rest.to_owned());
            proof {
                assert(parts.deep_view() =~= old_parts.push(rest@));
                assert(split_spaces_spec(rest@) == seq![rest@]);
                assert(parts.deep_view() =~= split_spaces_spec(s@));
            }
            break;
        }
    }
    parts
}

/// `s` is a well-formed numeric token whose value fits in a `u64`:
/// nonempty, digits only, value at most `u64::MAX`.
pub open spec fn u64_token_valid(s: Seq<char>) -> bool {
    s.len() > 0 && all_dec_digits(s) && digits_val(s) <= u64::MAX
}

/// `s` is exactly the one character `c`.
pub open spec fn is_char_token(s: Seq<char>, c: char) -> bool {
    s.len() == 1 && s[0] == c
}

/// A concatenation is all digits exactly when both halves are.
pub proof fn lemma_all_dec_digits_add(a: Seq<char>, b: Seq<char>)
    ensures
        all_dec_digits(a + b) <==> (all_dec_digits(a) && all_dec_digits(b)),
{
    if all_dec_digits(a + b) {
        assert forall|i: int| 0 <= i < a.len() implies is_dec_digit(#[trigger] a[i]) by {
            assert((a + b)[i] == a[i]);
        }
        assert forall|i: int| 0 <= i < b.len() implies is_dec_digit(#[trigger] b[i]) by {
            assert((a + b)[i + a.len()] == b[i]);
        }
    }
    if all_dec_digits(a) && all_dec_digits(b) {
        assert forall|i: int| 0 <= i < (a + b).len() implies is_dec_digit(#[trigger] (a + b)[i]) by {
            if i < a.len() {
                assert((a + b)[i] == a[i]);
            } else {
                assert((a + b)[i] == b[i - a.len()]);
            }
        }
    }
}

/// The index of the first occurrence of `c` in `s`, or `s.len()` if `c`
/// does not occur.
pub open spec fn find_char(s: Seq<char>, c: char) -> int
    decreases s.len(),
{
    if s.len() == 0 {
        0
    } else if s[0] == c {
        0
    } else {
        1 + find_char(s.drop_first(), c)
    }
}

/// What `find_char` returns: an in-range index, nothing equal to `c`
/// before it, and `c` at it unless `c` does not occur at all.
pub proof fn lemma_find_char(s: Seq<char>, c: char)
    ensures
        0 <= find_char(s, c) <= s.len(),
        forall|j: int| 0 <= j < find_char(s, c) ==> s[j] != c,
        find_char(s, c) < s.len() ==> s[find_char(s, c)] == c,
    decreases s.len(),
{
    if s.len() > 0 && s[0] != c {
        lemma_find_char(s.drop_first(), c);
        let f = find_char(s.drop_first(), c);
        assert forall|j: int| 0 <= j < 1 + f implies s[j] != c by {
            if j > 0 {
                assert(s.drop_first()[j - 1] == s[j]);
            }
        }
        if 1 + f < s.len() {
            assert(s.drop_first()[f] == s[1 + f]);
        }
    }
}

/// The converse: an index with nothing equal to `c` before it, and `c` at
/// it unless it is the length, is what `find_char` returns.
pub proof fn lemma_find_char_at(s: Seq<char>, c: char, i: int)
    requires
        0 <= i <= s.len(),
        forall|j: int| 0 <= j < i ==> s[j] != c,
        i < s.len() ==> s[i] == c,
    ensures
        find_char(s, c) == i,
{
    lemma_find_char(s, c);
    let f = find_char(s, c);
    if f < i {
        assert(s[f] == c);
        assert(false);
    }
    if f > i {
        assert(s[i] == c);
        assert(false);
    }
}

/// Find the first occurrence of `c` in `s`, as an index; `s`'s length if
/// `c` does not occur.
pub fn find_char_at(s: &str, c: char) -> (r: usize)
    ensures
        r == find_char(s@, c),
{
    let n = s.unicode_len();
    let mut i: usize = 0;
    while i < n
        invariant
            0 <= i <= n,
            n == s@.len(),
            forall|j: int| 0 <= j < i ==> s@[j] != c,
        decreases n - i,
    {
        if s.get_char(i) == c {
            proof {
                lemma_find_char_at(s@, c, i as int);
            }
            return i;
        }
        i = i + 1;
    }
    proof {
        lemma_find_char_at(s@, c, n as int);
    }
    n
}

/// The value of a prefix never exceeds the value of a longer prefix.
pub proof fn lemma_digits_val_prefix_le(s: Seq<char>, i: int, j: int)
    requires
        0 <= i <= j <= s.len(),
    ensures
        digits_val(s.subrange(0, i)) <= digits_val(s.subrange(0, j)),
    decreases j - i,
{
    if i < j {
        lemma_digits_val_prefix_le(s, i, j - 1);
        assert(s.subrange(0, j).drop_last() =~= s.subrange(0, j - 1));
        assert(digits_val(s.subrange(0, j))
            == digits_val(s.subrange(0, j - 1)) * 10 + digit_val(s.subrange(0, j).last()));
    }
}

/// Decode a digit string into a `u64`.
///
/// Returns `Some` exactly on nonempty all-digit tokens whose value fits,
/// and then returns the token's base-10 value.
pub fn parse_u64_digits(s: &str) -> (r: Option<u64>)
    ensures
        r is Some <==> u64_token_valid(s@),
        r matches Some(v) ==> v == digits_val(s@),
{
    let n = s.unicode_len();
    if n == 0 {
        return None;
    }
    let mut acc: u64 = 0;
    let mut i: usize = 0;
    while i < n
        invariant
            0 <= i <= n,
            n == s@.len(),
            all_dec_digits(s@.subrange(0, i as int)),
            acc == digits_val(s@.subrange(0, i as int)),
        decreases n - i,
    {
        let c = s.get_char(i);
        proof {
            assert(s@.subrange(0, i + 1).drop_last() =~= s@.subrange(0, i as int));
            assert(s@.subrange(0, i + 1).last() == s@[i as int]);
        }
        if !('0' <= c && c <= '9') {
            assert(!all_dec_digits(s@));
            return None;
        }
        let d: u64 = (c as u32 - '0' as u32) as u64;
        assert(d == digit_val(s@[i as int]));
        let acc10 = match acc.checked_mul(10) {
            Some(v) => v,
            None => {
                proof {
                    lemma_digits_val_prefix_le(s@, i + 1, s@.len() as int);
                    assert(s@.subrange(0, s@.len() as int) =~= s@);
                }
                return None;
            },
        };
        acc = match acc10.checked_add(d) {
            Some(v) => v,
            None => {
                proof {
                    lemma_digits_val_prefix_le(s@, i + 1, s@.len() as int);
                    assert(s@.subrange(0, s@.len() as int) =~= s@);
                }
                return None;
            },
        };
        i = i + 1;
    }
    proof {
        assert(s@.subrange(0, n as int) =~= s@);
    }
    Some(acc)
}

/// `s` is a well-formed numeric token whose value fits in a `u32`.
pub open spec fn u32_token_valid(s: Seq<char>) -> bool {
    s.len() > 0 && all_dec_digits(s) && digits_val(s) <= u32::MAX
}

/// Decode a digit string into a `u32`; succeeds exactly on nonempty
/// all-digit tokens whose value fits.
pub fn parse_u32_token(s: &str) -> (r: Option<u32>)
    ensures
        r is Some <==> u32_token_valid(s@),
        r matches Some(v) ==> v == digits_val(s@),
{
    match parse_u64_digits(s) {
        Some(v) => {
            if v <= u32::MAX as u64 {
                Some(v as u32)
            } else {
                None
            }
        },
        None => None,
    }
}

} // verus!
