//! Verified text helpers: decimal digit strings, thousands grouping, and the
//! whitespace and length rules shared by names and descriptions.

use vstd::prelude::*;
use vstd::string::StrSliceExecFns;

verus! {

/// Longest accepted name, in characters, after trimming must be non-empty.
pub const NAME_MAX_CHARS: usize = 100;

/// Longest accepted description, in characters.
pub const DESCRIPTION_MAX_CHARS: usize = 500;

pub open spec fn digit_char(v: int) -> char {
    if v == 0 {
        '0'
    } else if v == 1 {
        '1'
    } else if v == 2 {
        '2'
    } else if v == 3 {
        '3'
    } else if v == 4 {
        '4'
    } else if v == 5 {
        '5'
    } else if v == 6 {
        '6'
    } else if v == 7 {
        '7'
    } else if v == 8 {
        '8'
    } else {
        '9'
    }
}

pub open spec fn is_digit_char(c: char) -> bool {
    48 <= c as u32 <= 57
}

pub open spec fn digit_char_val(c: char) -> int {
    c as u32 - 48
}

pub proof fn lemma_digit_char_val(v: int)
    requires
        0 <= v <= 9,
    ensures
        is_digit_char(digit_char(v)),
        digit_char_val(digit_char(v)) == v,
{
}

/// The decimal digit characters of `n`, most significant first, with no sign
/// and no leading zeros (a single '0' for zero).
pub open spec fn dec_digits(n: nat) -> Seq<char>
    decreases n,
{
    if n < 10 {
        seq![digit_char(n as int)]
    } else {
        dec_digits(n / 10) + seq![digit_char((n % 10) as int)]
    }
}

/// `s` with a space inserted after every digit that has a multiple of three
/// digits to its right — thousands grouping from the right.
pub open spec fn group_digits(s: Seq<char>) -> Seq<char>
    decreases s.len(),
{
    if s.len() == 0 {
        Seq::empty()
    } else {
        let rest = (s.len() - 1) as nat;
        seq![s[0]] + (if rest > 0 && rest % 3 == 0 {
            seq![' ']
        } else {
            Seq::empty()
        }) + group_digits(s.skip(1))
    }
}

/// The single-character string for a decimal digit.
pub fn digit_str(v: u8) -> (r: &'static str)
    requires
        v < 10,
    ensures
        r@ == seq![digit_char(v as int)],
{
    if v == 0 {
        proof {
            reveal_strlit("0");
            assert("0"@ =~= seq![digit_char(0int)]);
        }
        "0"
    } else if v == 1 {
        proof {
            reveal_strlit("1");
            assert("1"@ =~= seq![digit_char(1int)]);
        }
        "1"
    } else if v == 2 {
        proof {
            reveal_strlit("2");
            assert("2"@ =~= seq![digit_char(2int)]);
        }
        "2"
    } else if v == 3 {
        proof {
            reveal_strlit("3");
            assert("3"@ =~= seq![digit_char(3int)]);
        }
        "3"
    } else if v == 4 {
        proof {
            reveal_strlit("4");
            assert("4"@ =~= seq![digit_char(4int)]);
        }
        "4"
    } else if v == 5 {
        proof {
            reveal_strlit("5");
            assert("5"@ =~= seq![digit_char(5int)]);
        }
        "5"
    } else if v == 6 {
        proof {
            reveal_strlit("6");
            assert("6"@ =~= seq![digit_char(6int)]);
        }
        "6"
    } else if v == 7 {
        proof {
            reveal_strlit("7");
            assert("7"@ =~= seq![digit_char(7int)]);
        }
        "7"
    } else if v == 8 {
        proof {
            reveal_strlit("8");
            assert("8"@ =~= seq![digit_char(8int)]);
        }
        "8"
    } else {
        proof {
            reveal_strlit("9");
            assert("9"@ =~= seq![digit_char(9int)]);
        }
        "9"
    }
}

pub fn is_digit(c: char) -> (r: bool)
    ensures
        r == is_digit_char(c),
{
    let u = c as u32;
    48 <= u && u <= 57
}

pub fn digit_val(c: char) -> (r: u8)
    requires
        is_digit_char(c),
    ensures
        r == digit_char_val(c),
        r < 10,
{
    (c as u32 - 48) as u8
}

/// The digit characters of `v`, least significant digit last in the sequence
/// (so read back to front).
spec fn rev_digit_chars(v: Seq<u8>) -> Seq<char> {
    Seq::new(v.len(), |i: int| digit_char(v[v.len() - 1 - i] as int))
}

/// The decimal rendering of `n` with thousands grouping by spaces.
pub fn grouped_decimal(n: u128) -> (r: String)
    ensures
        r@ == group_digits(dec_digits(n as nat)),
{
    let mut digits: Vec<u8> = Vec::new();
    if n == 0 {
        digits.push(0);
        proof {
            assert(rev_digit_chars(digits@) =~= dec_digits(0));
        }
    } else {
        let mut m = n;
        while m > 0
            invariant
                m <= n,
                m > 0 ==> dec_digits(n as nat) =~= dec_digits(m as nat) + rev_digit_chars(
                    digits@,
                ),
                m == 0 ==> dec_digits(n as nat) =~= rev_digit_chars(digits@),
                m == 0 ==> digits@.len() > 0,
                forall|j: int| 0 <= j < digits@.len() ==> digits@[j] < 10,
            decreases m,
        {
            let ghost old_digits = digits@;
            let ghost old_m = m as nat;
            digits.push((m % 10) as u8);
            m = m / 10;
            proof {
                assert(rev_digit_chars(old_digits.push((old_m % 10) as u8)) =~= seq![
                    digit_char((old_m % 10) as int),
                ] + rev_digit_chars(old_digits));
                if old_m >= 10 {
                    assert(dec_digits(old_m) == dec_digits(old_m / 10) + seq![
                        digit_char((old_m % 10) as int),
                    ]);
                    assert(dec_digits(n as nat) =~= dec_digits(m as nat) + rev_digit_chars(
                        digits@,
                    ));
                } else {
                    assert(dec_digits(old_m) =~= seq![digit_char((old_m % 10) as int)]);
                    assert(dec_digits(n as nat) =~= rev_digit_chars(digits@));
                }
            }
        }
    }
    let ghost s = dec_digits(n as nat);
    proof {
        assert(s =~= rev_digit_chars(digits@));
        assert(s.len() == digits@.len());
    }
    let len = digits.len();
    let mut out = String::new();
    proof {
        assert(s.skip(0) =~= s);
        assert(out@ + group_digits(s) =~= group_digits(s));
    }
    let mut i: usize = 0;
    while i < len
        invariant
            len == digits@.len(),
            s == dec_digits(n as nat),
            s =~= rev_digit_chars(digits@),
            i <= len,
            forall|j: int| 0 <= j < digits@.len() ==> digits@[j] < 10,
            out@ + group_digits(s.skip(i as int)) =~= group_digits(s),
        decreases len - i,
    {
        let ghost before = out@;
        let d = digits[len - 1 - i];
        proof {
            assert(s[i as int] == digit_char(digits@[len - 1 - i as int] as int));
        }
        out.append(digit_str(d));
        let rem = len - 1 - i;
        if rem > 0 && rem % 3 == 0 {
            proof {
                reveal_strlit(" ");
            }
            out.append(" ");
        }
        proof {
            let tail = s.skip(i as int);
            assert(tail[0] == s[i as int]);
            assert(tail.skip(1) =~= s.skip(i + 1));
            assert(group_digits(tail) == seq![tail[0]] + (if tail.len() - 1 > 0 && (tail.len() - 1)
                % 3 == 0 {
                seq![' ']
            } else {
                Seq::<char>::empty()
            }) + group_digits(tail.skip(1)));
            assert(out@ + group_digits(s.skip(i + 1)) =~= group_digits(s));
        }
        i = i + 1;
    }
    proof {
        assert(s.skip(len as int) =~= Seq::<char>::empty());
        assert(group_digits(Seq::<char>::empty()) == Seq::<char>::empty());
        assert(out@ =~= group_digits(s));
    }
    out
}

/// The characters Rust's `str::trim` removes: the Unicode whitespace set.
pub open spec fn is_space_char(c: char) -> bool {
    ||| c == ' '
    ||| c == '\t'
    ||| c == '\n'
    ||| c == '\r'
    ||| c == '\u{b}'
    ||| c == '\u{c}'
    ||| c == '\u{85}'
    ||| c == '\u{a0}'
    ||| c == '\u{1680}'
    ||| (0x2000 <= c as u32 && c as u32 <= 0x200a)
    ||| c == '\u{2028}'
    ||| c == '\u{2029}'
    ||| c == '\u{202f}'
    ||| c == '\u{205f}'
    ||| c == '\u{3000}'
}

pub fn is_space(c: char) -> (r: bool)
    ensures
        r == is_space_char(c),
{
    c == ' ' || c == '\t' || c == '\n' || c == '\r' || c == '\u{b}' || c == '\u{c}' || c == '\u{85}'
        || c == '\u{a0}' || c == '\u{1680}' || (0x2000 <= c as u32 && c as u32 <= 0x200a) || c
        == '\u{2028}' || c == '\u{2029}' || c == '\u{202f}' || c == '\u{205f}' || c == '\u{3000}'
}

/// `s` without leading whitespace.
pub open spec fn trim_start_spec(s: Seq<char>) -> Seq<char>
    decreases s.len(),
{
    if s.len() > 0 && is_space_char(s[0]) {
        trim_start_spec(s.skip(1))
    } else {
        s
    }
}

/// `s` without trailing whitespace.
pub open spec fn trim_end_spec(s: Seq<char>) -> Seq<char>
    decreases s.len(),
{
    if s.len() > 0 && is_space_char(s.last()) {
        trim_end_spec(s.drop_last())
    } else {
        s
    }
}

/// `s` without leading and trailing whitespace, as `str::trim` leaves it.
pub open spec fn trim_spec(s: Seq<char>) -> Seq<char> {
    trim_end_spec(trim_start_spec(s))
}

/// Some character survives trimming.
pub open spec fn trimmed_nonempty(s: Seq<char>) -> bool {
    exists|i: int| 0 <= i < s.len() && !is_space_char(#[trigger] s[i])
}

/// The rule for names: non-empty after trimming, at most 100 characters.
pub open spec fn valid_name(s: Seq<char>) -> bool {
    s.len() <= NAME_MAX_CHARS && trimmed_nonempty(s)
}

/// The rule for descriptions: at most 500 characters.
pub open spec fn valid_description(s: Seq<char>) -> bool {
    s.len() <= DESCRIPTION_MAX_CHARS
}

pub fn name_is_valid(s: &str) -> (r: bool)
    ensures
        r == valid_name(s@),
{
    let len = s.unicode_len();
    if len > NAME_MAX_CHARS {
        return false;
    }
    let mut i: usize = 0;
    while i < len
        invariant
            len == s@.len(),
            len <= NAME_MAX_CHARS,
            i <= len,
            forall|j: int| 0 <= j < i ==> is_space_char(#[trigger] s@[j]),
        decreases len - i,
    {
        let c = s.get_char(i);
        if !is_space(c) {
            proof {
                assert(!is_space_char(s@[i as int]));
                assert(trimmed_nonempty(s@));
            }
            return true;
        }
        i = i + 1;
    }
    false
}

pub fn description_is_valid(s: &str) -> (r: bool)
    ensures
        r == valid_description(s@),
{
    s.unicode_len() <= DESCRIPTION_MAX_CHARS
}

} // verus!
