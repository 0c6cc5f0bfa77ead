//! The staleness record: per top-level step name, the runner persists the
//! epoch seconds of the previous invocation under a fixed runner-owned
//! directory. This module decides the record's location and reads its text;
//! the file I/O around it is the caller's.

use vstd::prelude::*;
use vstd::string::StrSliceExecFns;
use vstd::string::StringExecFns;

verus! {

/// The previous-run record for one top-level step name: the epoch seconds of
/// the last invocation, or `None` when the step has never run before or the
/// record's text is not a decimal integer.
pub struct Cache {
    pub last_run: Option<u64>,
}

/// Is the character a decimal digit?
pub open spec fn is_digit(c: char) -> bool {
    48 <= c as u32 <= 57
}

/// The integer a sequence of decimal digits denotes.
pub open spec fn digits_value(s: Seq<char>) -> int
    decreases s.len(),
{
    if s.len() == 0 {
        0
    } else {
        digits_value(s.drop_last()) * 10 + (s.last() as u32 - 48)
    }
}

/// Are all characters decimal digits?
pub open spec fn all_digits(s: Seq<char>) -> bool {
    forall|i: int| 0 <= i < s.len() ==> is_digit(s[i])
}

/// The text without its optional leading `+` sign.
pub open spec fn unsigned_part(s: Seq<char>) -> Seq<char> {
    if s.len() > 0 && s[0] == '+' {
        s.drop_first()
    } else {
        s
    }
}

/// Does the text denote a 64-bit unsigned integer: an optional `+` sign, then
/// one or more decimal digits, whose value fits?
pub open spec fn parses_as_u64(s: Seq<char>) -> bool {
    let d = unsigned_part(s);
    d.len() > 0 && all_digits(d) && digits_value(d) <= u64::MAX
}

/// A digit string's value only grows as digits are appended to it.
proof fn lemma_digits_prefix_le(s: Seq<char>, k: int)
    requires
        all_digits(s),
        0 <= k <= s.len(),
    ensures
        0 <= digits_value(s.take(k)) <= digits_value(s),
    decreases s.len() - k,
{
    if k == s.len() {
        assert(s.take(k) =~= s);
        lemma_digits_nonneg(s);
    } else {
        lemma_digits_prefix_le(s, k + 1);
        assert(s.take(k + 1).drop_last() =~= s.take(k));
        assert(digits_value(s.take(k + 1)) == digits_value(s.take(k)) * 10 + (s[k] as u32 - 48));
        lemma_digits_nonneg(s.take(k));
    }
}

/// A digit string's value is never negative.
proof fn lemma_digits_nonneg(s: Seq<char>)
    requires
        all_digits(s),
    ensures
        digits_value(s) >= 0,
    decreases s.len(),
{
    if s.len() > 0 {
        assert(all_digits(s.drop_last())) by {
            assert(forall|i: int|
                0 <= i < s.len() - 1 ==> #[trigger] s.drop_last()[i] == s[i]);
        }
        lemma_digits_nonneg(s.drop_last());
    }
}

/// Reads the previous-run record's text as Rust's `u64` parse does: an
/// optional `+` sign followed by decimal digits whose value fits in 64 bits;
/// anything else — and in particular a record created but never written —
/// counts as "no previous run".
#[verifier::loop_isolation(false)]
pub fn parse_last_run(text: &str) -> (r: Option<u64>)
    ensures
        match r {
            Option::Some(v) => parses_as_u64(text@) && v == digits_value(unsigned_part(text@)),
            Option::None => !parses_as_u64(text@),
        },
{
    let n = text.unicode_len();
    let start: usize = if n > 0 && text.get_char(0) == '+' {
        1
    } else {
        0
    };
    proof {
        if start == 1 {
            assert(unsigned_part(text@) =~= text@.skip(1));
        } else {
            assert(unsigned_part(text@) =~= text@.skip(0));
        }
    }
    let ghost d = unsigned_part(text@);
    if start == n {
        return Option::None;
    }
    let mut acc: u64 = 0;
    let mut i: usize = start;
    while i < n
        invariant
            start <= i <= n,
            n == text@.len(),
            d == text@.skip(start as int),
            d.len() == n - start,
            all_digits(d.take(i - start)),
            acc == digits_value(d.take(i - start)),
        decreases n - i,
    {
        let c = text.get_char(i);
        let cv = c as u32;
        if cv < 48 || cv > 57 {
            proof {
                assert(d[i - start] == text@[i as int]);
                assert(!is_digit(d[i - start]));
            }
            return Option::None;
        }
        let digit = (cv - 48) as u64;
        proof {
            assert(d.take(i - start + 1).drop_last() =~= d.take(i - start));
            assert(d[i - start] == text@[i as int]);
            assert(digits_value(d.take(i - start + 1)) == acc * 10 + digit);
            assert(all_digits(d.take(i - start + 1)));
        }
        if acc > (u64::MAX - digit) / 10 {
            proof {
                assert(acc * 10 + digit > u64::MAX) by (nonlinear_arith)
                    requires
                        acc > (u64::MAX - digit) / 10,
                        digit <= 9,
                ;
                if all_digits(d) {
                    lemma_digits_prefix_le(d, i - start + 1);
                    assert(digits_value(d) > u64::MAX);
                }
            }
            return Option::None;
        }
        proof {
            assert(acc * 10 + digit <= u64::MAX) by (nonlinear_arith)
                requires
                    acc <= (u64::MAX - digit) / 10,
                    digit <= 9,
            ;
        }
        acc = acc * 10 + digit;
        i = i + 1;
    }
    proof {
        assert(d.take(n - start) =~= d);
    }
    Option::Some(acc)
}

/// The record's location for a step name: one small file, named after the
/// step, under the runner-owned directory; an absent step name means the
/// record of the default step.
pub fn cache_file_name(step: &Option<String>) -> (r: String)
    ensures
        r@ == ".doer/last_run/"@ + (match step {
            Option::Some(s) => s@,
            Option::None => "default"@,
        }),
{
    let tail: &str = match step {
        Option::Some(s) => s.as_str(),
        Option::None => "default",
    };
    String::from_str(".doer/last_run/").concat(tail)
}

} // verus!
