//! The property value model: the closed set of value kinds a property may
//! hold, with its literal parsing and emission contract.
//!
//! A raw literal token is parsed by trying boolean first, then integer, then
//! falling back to string, so that bare `true` / `false` / digit-only tokens
//! are not captured as strings. Emission renders a value back to a literal
//! token that re-parses to an equal value.

use vstd::prelude::*;
use vstd::string::*;

verus! {

/// The characters of the bare boolean token `true`.
pub open spec fn true_chars() -> Seq<char> {
    seq!['t', 'r', 'u', 'e']
}

/// The characters of the bare boolean token `false`.
pub open spec fn false_chars() -> Seq<char> {
    seq!['f', 'a', 'l', 's', 'e']
}

/// Whether `c` is a decimal digit.
pub open spec fn is_digit(c: char) -> bool {
    48 <= c as int && c as int <= 57
}

/// The numeric value of the digit `c`.
pub open spec fn digit_val(c: char) -> nat {
    (c as int - 48) as nat
}

/// Whether `s` is a non-empty run of decimal digits.
pub open spec fn is_dec_seq(s: Seq<char>) -> bool {
    s.len() > 0 && forall|i: int| 0 <= i < s.len() ==> is_digit(s[i])
}

/// The numeric value of the digit run `s`, most significant digit first.
pub open spec fn dec_val(s: Seq<char>) -> nat
    decreases s.len(),
{
    if s.len() == 0 {
        0
    } else {
        dec_val(s.drop_last()) * 10 + digit_val(s.last())
    }
}

/// The digit character for a value below ten.
pub open spec fn digit_char(d: nat) -> char {
    if d == 0 {
        '0'
    } else if d == 1 {
        '1'
    } else if d == 2 {
        '2'
    } else if d == 3 {
        '3'
    } else if d == 4 {
        '4'
    } else if d == 5 {
        '5'
    } else if d == 6 {
        '6'
    } else if d == 7 {
        '7'
    } else if d == 8 {
        '8'
    } else {
        '9'
    }
}

/// The decimal rendering of `n`, without leading zeros (a single `0` for
/// zero itself).
pub open spec fn dec_digits(n: nat) -> Seq<char>
    decreases n,
{
    if n < 10 {
        seq![digit_char(n)]
    } else {
        dec_digits(n / 10).push(digit_char(n % 10))
    }
}

/// The spec-level value of a property: exactly one of a string, an unsigned
/// integer, or a boolean.
pub enum PropVal {
    Str(Seq<char>),
    Num(u64),
    Bool(bool),
}

/// What parsing a raw literal token yields: boolean first, then integer,
/// then a quoted string with its quotes stripped, then the bare token as a
/// string. Every token parses to exactly one value.
pub open spec fn parse_spec(s: Seq<char>) -> PropVal {
    if s == true_chars() {
        PropVal::Bool(true)
    } else if s == false_chars() {
        PropVal::Bool(false)
    } else if is_dec_seq(s) && dec_val(s) <= u64::MAX {
        PropVal::Num(dec_val(s) as u64)
    } else if s.len() >= 2 && s[0] == '"' && s[s.len() - 1] == '"' {
        PropVal::Str(s.subrange(1, s.len() - 1))
    } else {
        PropVal::Str(s)
    }
}

/// What emitting a value yields: strings are quoted, integers rendered in
/// decimal, booleans as the bare tokens `true` / `false`.
pub open spec fn emit_spec(v: PropVal) -> Seq<char> {
    match v {
        PropVal::Str(s) => seq!['"'] + s + seq!['"'],
        PropVal::Num(n) => dec_digits(n as nat),
        PropVal::Bool(b) => if b {
            true_chars()
        } else {
            false_chars()
        },
    }
}

/// A parsed property value: a tagged union of a string, an unsigned integer,
/// or a boolean literal.
#[derive(Clone, Debug, PartialEq, Eq)]
pub enum PropertyValue {
    Str(String),
    Num(u64),
    Bool(bool),
}

impl View for PropertyValue {
    type V = PropVal;

    open spec fn view(&self) -> PropVal {
        match self {
            PropertyValue::Str(s) => PropVal::Str(s@),
            PropertyValue::Num(n) => PropVal::Num(*n),
            PropertyValue::Bool(b) => PropVal::Bool(*b),
        }
    }
}

/// A digit run is worth at least as much as any of its prefixes.
proof fn lemma_dec_val_prefix_le(s: Seq<char>, k: int)
    requires
        0 <= k <= s.len(),
        forall|i: int| 0 <= i < s.len() ==> is_digit(s[i]),
    ensures
        dec_val(s.subrange(0, k)) <= dec_val(s),
    decreases s.len() - k,
{
    if k < s.len() {
        assert(s.subrange(0, k + 1).drop_last() =~= s.subrange(0, k));
        lemma_dec_val_prefix_le(s, k + 1);
    } else {
        assert(s.subrange(0, k) =~= s);
    }
}

/// The decimal rendering of `n` is a non-empty run of digits.
proof fn lemma_dec_digits_are_digits(n: nat)
    ensures
        is_dec_seq(dec_digits(n)),
    decreases n,
{
    if n >= 10 {
        lemma_dec_digits_are_digits(n / 10);
    }
}

/// The digit character for `d` is worth `d` again.
proof fn lemma_digit_char_val(d: nat)
    requires
        d < 10,
    ensures
        digit_val(digit_char(d)) == d,
{
    if d == 0 {
        assert('0' as int == 48);
    } else if d == 1 {
        assert('1' as int == 49);
    } else if d == 2 {
        assert('2' as int == 50);
    } else if d == 3 {
        assert('3' as int == 51);
    } else if d == 4 {
        assert('4' as int == 52);
    } else if d == 5 {
        assert('5' as int == 53);
    } else if d == 6 {
        assert('6' as int == 54);
    } else if d == 7 {
        assert('7' as int == 55);
    } else if d == 8 {
        assert('8' as int == 56);
    } else {
        assert('9' as int == 57);
    }
}

/// The decimal rendering of `n` is worth `n`.
proof fn lemma_dec_digits_val(n: nat)
    ensures
        dec_val(dec_digits(n)) == n,
    decreases n,
{
    if n < 10 {
        assert(seq![digit_char(n)].drop_last() =~= Seq::<char>::empty());
        assert(dec_val(Seq::<char>::empty()) == 0);
        lemma_digit_char_val(n);
    } else {
        lemma_dec_digits_val(n / 10);
        lemma_digit_char_val(n % 10);
        assert(dec_digits(n / 10).push(digit_char(n % 10)).drop_last() =~= dec_digits(n / 10));
    }
}

impl PropertyValue {
    /// Parse a raw literal token into exactly one value, trying boolean
    /// first, then integer, then falling back to string. A quoted token
    /// becomes the string between its quotes; any other token that is
    /// neither a bare boolean nor a decimal integer in range becomes the
    /// token itself.
    pub fn parse(token: &str) -> (v: PropertyValue)
        ensures
            v@ == parse_spec(token@),
    {
        let n = token.unicode_len();
        if n == 4 && token.get_char(0) == 't' && token.get_char(1) == 'r' && token.get_char(2)
            == 'u' && token.get_char(3) == 'e' {
            proof {
                assert(token@ =~= true_chars());
            }
            return PropertyValue::Bool(true);
        }
        if n == 5 && token.get_char(0) == 'f' && token.get_char(1) == 'a' && token.get_char(2)
            == 'l' && token.get_char(3) == 's' && token.get_char(4) == 'e' {
            proof {
                assert(token@ =~= false_chars());
            }
            return PropertyValue::Bool(false);
        }
        let mut i: usize = 0;
        let mut acc: u64 = 0;
        let mut is_int = n > 0;
        while i < n && is_int
            invariant
                0 <= i <= n,
                n == token@.len(),
                is_int ==> n > 0,
                is_int ==> forall|j: int| 0 <= j < i ==> is_digit(token@[j]),
                is_int ==> acc == dec_val(token@.subrange(0, i as int)),
                !is_int ==> !(is_dec_seq(token@) && dec_val(token@) <= u64::MAX),
            decreases n - i + (if is_int { 1int } else { 0int }),
        {
            let c = token.get_char(i);
            let u = c as u32;
            if 48 <= u && u <= 57 {
                let d = (u - 48) as u64;
                if acc <= (u64::MAX - d) / 10 {
                    proof {
                        assert(acc * 10 + d <= u64::MAX) by {
                            assert(acc * 10 <= ((u64::MAX - d) / 10) * 10);
                        };
                        assert(token@.subrange(0, i + 1 as int).drop_last() =~= token@.subrange(
                            0,
                            i as int,
                        ));
                    }
                    acc = acc * 10 + d;
                    i = i + 1;
                } else {
                    proof {
                        if is_dec_seq(token@) {
                            assert(token@.subrange(0, i + 1 as int).drop_last() =~= token@.subrange(
                                0,
                                i as int,
                            ));
                            assert(dec_val(token@.subrange(0, i + 1 as int)) > u64::MAX) by {
                                assert(acc * 10 >= ((u64::MAX - d) / 10 + 1) * 10);
                            };
                            lemma_dec_val_prefix_le(token@, i + 1 as int);
                        }
                    }
                    is_int = false;
                }
            } else {
                proof {
                    assert(!is_digit(token@[i as int]));
                }
                is_int = false;
            }
        }
        if is_int {
            proof {
                assert(token@.subrange(0, n as int) =~= token@);
                if token@ == true_chars() {
                    assert(is_digit(token@[0]));
                    assert(false);
                }
                if token@ == false_chars() {
                    assert(is_digit(token@[0]));
                    assert(false);
                }
            }
            return PropertyValue::Num(acc);
        }
        if n >= 2 {
            let c0 = token.get_char(0);
            let cl = token.get_char(n - 1);
            if c0 == '"' && cl == '"' {
                let inner = token.substring_char(1, n - 1);
                return PropertyValue::Str(inner.to_owned());
            }
        }
        PropertyValue::Str(token.to_owned())
    }

    /// Render the value back to a literal token: the quoted string, the
    /// decimal digits, or the bare boolean token.
    pub fn emit(&self) -> (s: String)
        ensures
            s@ == emit_spec(self@),
    {
        match self {
            PropertyValue::Str(inner) => {
                let mut s = "\"".to_owned();
                s.append(inner.as_str());
                s.append("\"");
                proof {
                    reveal_strlit("\"");
                    assert(s@ =~= emit_spec(self@));
                }
                s
            },
            PropertyValue::Num(n) => render_u64(*n),
            PropertyValue::Bool(b) => {
                if *b {
                    let s = "true".to_owned();
                    proof {
                        reveal_strlit("true");
                        assert(s@ =~= true_chars());
                    }
                    s
                } else {
                    let s = "false".to_owned();
                    proof {
                        reveal_strlit("false");
                        assert(s@ =~= false_chars());
                    }
                    s
                }
            },
        }
    }
}

/// The single-character token for a digit value.
fn digit_str(d: u64) -> (s: &'static str)
    requires
        d < 10,
    ensures
        s@ == seq![digit_char(d as nat)],
{
    let digits = "0123456789";
    proof {
        reveal_strlit("0123456789");
    }
    let s = digits.substring_char(d as usize, d as usize + 1);
    proof {
        assert(s@ =~= seq![digit_char(d as nat)]);
    }
    s
}

/// Render `n` in decimal, most significant digit first.
fn render_u64(n: u64) -> (s: String)
    ensures
        s@ == dec_digits(n as nat),
    decreases n,
{
    if n < 10 {
        let s = digit_str(n).to_owned();
        s
    } else {
        let mut s = render_u64(n / 10);
        s.append(digit_str(n % 10));
        proof {
            assert(s@ =~= dec_digits(n as nat));
        }
        s
    }
}

/// Emitting a value and re-parsing the emitted literal yields an equal
/// value, for every value of every kind.
pub proof fn lemma_emit_parse_round_trip(v: PropVal)
    ensures
        parse_spec(emit_spec(v)) == v,
{
    match v {
        PropVal::Bool(b) => {
        },
        PropVal::Num(n) => {
            lemma_dec_digits_are_digits(n as nat);
            lemma_dec_digits_val(n as nat);
            let s = dec_digits(n as nat);
            assert(s != true_chars()) by {
                if s == true_chars() {
                    assert(is_digit(s[0]));
                }
            };
            assert(s != false_chars()) by {
                if s == false_chars() {
                    assert(is_digit(s[0]));
                }
            };
        },
        PropVal::Str(inner) => {
            let s = emit_spec(v);
            assert(s[0] == '"');
            assert(s[s.len() - 1] == '"');
            assert(s != true_chars()) by {
                if s == true_chars() {
                    assert(s[0] == 't');
                }
            };
            assert(s != false_chars()) by {
                if s == false_chars() {
                    assert(s[0] == 'f');
                }
            };
            assert(!is_dec_seq(s)) by {
                assert(!is_digit(s[0]));
            };
            assert(s.subrange(1, s.len() - 1) =~= inner);
        },
    }
}

} // verus!
