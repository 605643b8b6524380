use vstd::prelude::*;

use vstd::string::StringExecFns;

verus! {

/// The digit character of a value below ten.
pub open spec fn dec_digit(d: nat) -> char {
    if d == 0 {
        '0'
    } else if d == 1 {
        '1'
    } else if d == 2 {
        '2'
    } else if d == 3 {
        '3'
    } else if d == 4 {
        '4'
    } else if d == 5 {
        '5'
    } else if d == 6 {
        '6'
    } else if d == 7 {
        '7'
    } else if d == 8 {
        '8'
    } else {
        '9'
    }
}

/// The decimal rendering of a number, most significant digit first, with
/// no leading zeros but for the number zero itself.
pub open spec fn spec_dec(n: nat) -> Seq<char>
    decreases n,
{
    if n < 10 {
        seq![dec_digit(n)]
    } else {
        spec_dec(n / 10) + seq![dec_digit(n % 10)]
    }
}

/// The decimal rendering of a number.
pub fn dec_str(n: u64) -> (r: String)
    ensures
        r@ == spec_dec(n as nat),
    decreases n,
{
    let d = n % 10;
    let digit: &str = match d {
        0 => "0",
        1 => "1",
        2 => "2",
        3 => "3",
        4 => "4",
        5 => "5",
        6 => "6",
        7 => "7",
        8 => "8",
        _ => "9",
    };
    proof {
        reveal_strlit("0");
        reveal_strlit("1");
        reveal_strlit("2");
        reveal_strlit("3");
        reveal_strlit("4");
        reveal_strlit("5");
        reveal_strlit("6");
        reveal_strlit("7");
        reveal_strlit("8");
        reveal_strlit("9");
        assert(digit@ =~= seq![dec_digit((n % 10) as nat)]);
    }
    if n < 10 {
        let r = digit.to_owned();
        proof {
            assert(r@ =~= spec_dec(n as nat));
        }
        r
    } else {
        proof {
            assert(n / 10 < n) by (nonlinear_arith)
                requires
                    n >= 10,
            ;
        }
        let mut s = dec_str(n / 10);
        s.append(digit);
        proof {
            assert(s@ =~= spec_dec(n as nat));
        }
        s
    }
}

/// Whether every character of a string is a binary digit.
pub open spec fn spec_all_binary(s: Seq<char>) -> bool {
    forall|i: int| 0 <= i < s.len() ==> #[trigger] s[i] == '0' || s[i] == '1'
}

/// The value of a string of binary digits, most significant first.
pub open spec fn spec_bin_value(s: Seq<char>) -> nat
    decreases s.len(),
{
    if s.len() == 0 {
        0
    } else {
        2 * spec_bin_value(s.drop_last()) + (if s.last() == '1' {
            1nat
        } else {
            0nat
        })
    }
}

/// Whether every character of a string is a decimal digit.
pub open spec fn spec_all_decimal(s: Seq<char>) -> bool {
    forall|i: int| 0 <= i < s.len() ==> '0' <= #[trigger] s[i] <= '9'
}

/// Whether every character of a string is a binary digit; an empty string
/// counts, as it does for the catalog's encoding guess.
pub fn all_binary(s: &str) -> (r: bool)
    ensures
        r == spec_all_binary(s@),
{
    let n = vstd::string::StrSliceExecFns::unicode_len(s);
    let mut i: usize = 0;
    while i < n
        invariant
            i <= n,
            n == s@.len(),
            forall|j: int| 0 <= j < i ==> #[trigger] s@[j] == '0' || s@[j] == '1',
        decreases n - i,
    {
        let c = vstd::string::StrSliceExecFns::get_char(s, i);
        if !(c == '0' || c == '1') {
            return false;
        }
        i += 1;
    }
    true
}

/// Whether every character of a string is a decimal digit.
pub fn all_decimal(s: &str) -> (r: bool)
    ensures
        r == spec_all_decimal(s@),
{
    let n = vstd::string::StrSliceExecFns::unicode_len(s);
    let mut i: usize = 0;
    while i < n
        invariant
            i <= n,
            n == s@.len(),
            forall|j: int| 0 <= j < i ==> '0' <= #[trigger] s@[j] <= '9',
        decreases n - i,
    {
        let c = vstd::string::StrSliceExecFns::get_char(s, i);
        let u = c as u32;
        if !(48 <= u && u <= 57) {
            proof {
                assert(!('0' <= c <= '9'));
            }
            return false;
        }
        i += 1;
    }
    true
}

/// The value of a string of binary digits, most significant first; nothing
/// where the value passes the 64-bit range.
pub fn parse_binary(s: &str) -> (r: Option<u64>)
    requires
        spec_all_binary(s@),
    ensures
        match r {
            Some(v) => v == spec_bin_value(s@),
            None => spec_bin_value(s@) > u64::MAX,
        },
{
    let n = vstd::string::StrSliceExecFns::unicode_len(s);
    let mut acc: u64 = 0;
    let mut i: usize = 0;
    while i < n
        invariant
            i <= n,
            n == s@.len(),
            spec_all_binary(s@),
            acc == spec_bin_value(s@.take(i as int)),
        decreases n - i,
    {
        let c = vstd::string::StrSliceExecFns::get_char(s, i);
        let bit: u64 = if c == '1' {
            1
        } else {
            0
        };
        proof {
            assert(s@.take(i + 1).drop_last() =~= s@.take(i as int));
            assert(s@.take(i + 1).last() == s@[i as int]);
        }
        acc = match acc.checked_mul(2) {
            Some(doubled) => match doubled.checked_add(bit) {
                Some(v) => v,
                None => {
                    proof {
                        lemma_bin_value_take_mono(s@, i + 1);
                    }
                    return None;
                },
            },
            None => {
                proof {
                    lemma_bin_value_take_mono(s@, i + 1);
                }
                return None;
            },
        };
        i += 1;
    }
    proof {
        assert(s@.take(n as int) =~= s@);
    }
    Some(acc)
}

/// The value of a prefix never exceeds the value of the whole binary
/// string.
proof fn lemma_bin_value_take_mono(s: Seq<char>, i: int)
    requires
        0 <= i <= s.len(),
    ensures
        spec_bin_value(s.take(i)) <= spec_bin_value(s),
    decreases s.len() - i,
{
    if i < s.len() {
        lemma_bin_value_take_mono(s, i + 1);
        assert(s.take(i + 1).drop_last() =~= s.take(i));
        assert(spec_bin_value(s.take(i)) <= spec_bin_value(s.take(i + 1)));
    } else {
        assert(s.take(i) =~= s);
    }
}

} // verus!
