//! Naming of persisted clipboard artifacts.
//!
//! An extracted image is written to a scoped temporary directory under a
//! name built from a time-based identifier and the image's extension:
//! `clipboard-<identifier>.<extension>`. Distinct identifiers give distinct
//! names, which is what makes one persisted artifact never overwrite
//! another.

use vstd::prelude::*;
use vstd::string::StringExecFns;
use crate::fileurl::push_char;

verus! {

/// The character for one decimal digit.
pub open spec fn dec_digit(d: int) -> char {
    if d == 0 {
        '0'
    } else if d == 1 {
        '1'
    } else if d == 2 {
        '2'
    } else if d == 3 {
        '3'
    } else if d == 4 {
        '4'
    } else if d == 5 {
        '5'
    } else if d == 6 {
        '6'
    } else if d == 7 {
        '7'
    } else if d == 8 {
        '8'
    } else {
        '9'
    }
}

/// The decimal digits of `n`, most significant first; empty for `n <= 0`.
pub open spec fn spec_decimal(n: int) -> Seq<char>
    decreases n,
{
    if n <= 0 {
        Seq::empty()
    } else {
        spec_decimal(n / 10) + seq![dec_digit(n % 10)]
    }
}

/// The decimal rendering of a non-negative `n`, with `0` written as "0".
pub open spec fn spec_decimal_str(n: int) -> Seq<char> {
    if n == 0 {
        seq!['0']
    } else {
        spec_decimal(n)
    }
}

/// The artifact file name for identifier `ts` and extension `ext`:
/// `clipboard-<ts>.<ext>`.
pub open spec fn spec_artifact_name(ts: int, ext: Seq<char>) -> Seq<char> {
    seq!['c', 'l', 'i', 'p', 'b', 'o', 'a', 'r', 'd', '-'] + spec_decimal_str(ts) + seq!['.'] + ext
}

/// The character for the digit `d`.
fn digit_char(d: u64) -> (c: char)
    requires
        d < 10,
    ensures
        c == dec_digit(d as int),
{
    if d == 0 {
        '0'
    } else if d == 1 {
        '1'
    } else if d == 2 {
        '2'
    } else if d == 3 {
        '3'
    } else if d == 4 {
        '4'
    } else if d == 5 {
        '5'
    } else if d == 6 {
        '6'
    } else if d == 7 {
        '7'
    } else if d == 8 {
        '8'
    } else {
        '9'
    }
}

/// Builds the file name under which an extracted image is persisted:
/// `clipboard-` followed by the decimal identifier, a dot and the
/// extension.
pub fn temp_artifact_file_name(ts: u64, ext: &str) -> (r: String)
    ensures
        r@ == spec_artifact_name(ts as int, ext@),
{
    let mut out = "clipboard-".to_owned();
    proof {
        reveal_strlit("clipboard-");
        assert("clipboard-"@ =~= seq!['c', 'l', 'i', 'p', 'b', 'o', 'a', 'r', 'd', '-']);
    }
    let ghost base = out@;

    if ts == 0 {
        push_char(&mut out, '0');
        proof {
            assert(out@ =~= base + spec_decimal_str(0));
        }
    } else {
        let mut digits: Vec<char> = Vec::new();
        let mut x = ts;
        while x > 0
            invariant
                spec_decimal(ts as int) == spec_decimal(x as int) + digits@.reverse(),
            decreases x,
        {
            let d = x % 10;
            digits.push(digit_char(d));
            proof {
                assert((digits@.drop_last().push(dec_digit(d as int))).reverse() =~= seq![
                    dec_digit(d as int),
                ] + digits@.drop_last().reverse());
                assert(spec_decimal(x as int) + digits@.drop_last().reverse() =~= spec_decimal(
                    x as int / 10,
                ) + digits@.reverse());
            }
            x = x / 10;
        }
        proof {
            assert(spec_decimal(ts as int) =~= digits@.reverse());
        }
        let m = digits.len();
        let mut k: usize = 0;
        while k < m
            invariant
                k <= m,
                m == digits@.len(),
                spec_decimal(ts as int) == digits@.reverse(),
                out@ == base + digits@.reverse().take(k as int),
            decreases m - k,
        {
            let c = digits[m - 1 - k];
            push_char(&mut out, c);
            proof {
                assert(digits@.reverse()[k as int] == digits@[m - 1 - k as int]);
                assert(digits@.reverse().take(k + 1 as int) =~= digits@.reverse().take(
                    k as int,
                ).push(digits@.reverse()[k as int]));
                assert(out@ =~= base + digits@.reverse().take(k + 1 as int));
            }
            k = k + 1;
        }
        proof {
            assert(digits@.reverse().take(m as int) =~= digits@.reverse());
            assert(out@ =~= base + spec_decimal_str(ts as int));
        }
    }

    push_char(&mut out, '.');
    out.append(ext);
    proof {
        assert(out@ =~= spec_artifact_name(ts as int, ext@));
    }
    out
}

/// Equal decimal renderings come only from equal numbers.
proof fn lemma_spec_decimal_injective(a: int, b: int)
    requires
        0 <= a,
        0 <= b,
        spec_decimal_str(a) == spec_decimal_str(b),
    ensures
        a == b,
    decreases a,
{
    if a == 0 && b == 0 {
    } else if a == 0 {
        // spec_decimal(b) == seq!['0'] forces b's last digit to be 0 and the
        // rest to be empty, so b == 0 after all.
        assert(spec_decimal(b).len() == 1);
        assert(spec_decimal(b / 10).len() == 0);
        assert(spec_decimal(b).last() == dec_digit(b % 10));
        assert(dec_digit(b % 10) == '0');
        assert(b % 10 == 0);
        assert(b / 10 > 0 ==> spec_decimal(b / 10).len() >= 1);
        assert(b == 0);
        assert(false);
    } else if b == 0 {
        assert(spec_decimal(a).len() == 1);
        assert(spec_decimal(a).last() == dec_digit(a % 10));
        assert(a % 10 == 0);
        assert(a / 10 > 0 ==> spec_decimal(a / 10).len() >= 1);
        assert(a == 0);
        assert(false);
    } else {
        let s1 = spec_decimal(a);
        let s2 = spec_decimal(b);
        assert(s1.last() == dec_digit(a % 10));
        assert(s2.last() == dec_digit(b % 10));
        assert(a % 10 == b % 10);
        assert(s1.drop_last() =~= spec_decimal(a / 10));
        assert(s2.drop_last() =~= spec_decimal(b / 10));
        if a / 10 == 0 {
            assert(spec_decimal(b / 10).len() == 0);
            assert(b / 10 == 0);
        } else if b / 10 == 0 {
            assert(spec_decimal(a / 10).len() == 0);
            assert(a / 10 == 0);
        } else {
            lemma_spec_decimal_injective(a / 10, b / 10);
        }
        assert(a == b);
    }
}

/// Distinct identifiers give distinct artifact names: persisting twice with
/// two different time-based identifiers can never address the same file,
/// whatever the extension.
pub proof fn lemma_artifact_name_injective(ts1: int, ts2: int, ext: Seq<char>)
    requires
        0 <= ts1,
        0 <= ts2,
        ts1 != ts2,
    ensures
        spec_artifact_name(ts1, ext) != spec_artifact_name(ts2, ext),
{
    if spec_artifact_name(ts1, ext) == spec_artifact_name(ts2, ext) {
        let d1 = spec_decimal_str(ts1);
        let d2 = spec_decimal_str(ts2);
        assert(spec_artifact_name(ts1, ext).len() == 10 + d1.len() + 1 + ext.len());
        assert(spec_artifact_name(ts2, ext).len() == 10 + d2.len() + 1 + ext.len());
        assert(d1.len() == d2.len());
        assert(d1 =~= spec_artifact_name(ts1, ext).subrange(10, 10 + d1.len() as int));
        assert(d2 =~= spec_artifact_name(ts2, ext).subrange(10, 10 + d2.len() as int));
        lemma_spec_decimal_injective(ts1, ts2);
        assert(false);
    }
}

} // verus!
