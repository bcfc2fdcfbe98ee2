//! Small verified text utilities shared by the routing and rewriting logic:
//! string equality, splitting on a separator character, and decimal
//! parsing/rendering for the typed path parameter.

use vstd::prelude::*;

verus! {

/// Splitting a character sequence on a separator, keeping empty pieces, so
/// that a path such as `/a/b` yields the pieces ` `, `a`, `b`.
pub open spec fn spec_split(s: Seq<char>, sep: char) -> Seq<Seq<char>>
    decreases s.len(),
{
    if s.len() == 0 {
        seq![Seq::<char>::empty()]
    } else if s.last() == sep {
        spec_split(s.drop_last(), sep).push(Seq::<char>::empty())
    } else {
        let r = spec_split(s.drop_last(), sep);
        r.update(r.len() - 1, r.last().push(s.last()))
    }
}

pub proof fn lemma_split_nonempty(s: Seq<char>, sep: char)
    ensures
        spec_split(s, sep).len() >= 1,
    decreases s.len(),
{
    if s.len() > 0 {
        lemma_split_nonempty(s.drop_last(), sep);
    }
}

pub open spec fn is_dec_digit(c: char) -> bool {
    48 <= c as u32 <= 57
}

pub open spec fn digit_val(c: char) -> int {
    c as u32 - 48
}

pub open spec fn all_dec_digits(s: Seq<char>) -> bool {
    forall|k: int| 0 <= k < s.len() ==> is_dec_digit(#[trigger] s[k])
}

/// The number denoted by a sequence of decimal digits, most significant first.
pub open spec fn digits_val(s: Seq<char>) -> int
    decreases s.len(),
{
    if s.len() == 0 {
        0
    } else {
        digits_val(s.drop_last()) * 10 + digit_val(s.last())
    }
}

/// A non-empty, all-digit numeral whose value fits in a `u32`; exactly the
/// path-segment texts accepted for the typed age parameter.
pub open spec fn is_u32_numeral(s: Seq<char>) -> bool {
    s.len() > 0 && all_dec_digits(s) && digits_val(s) <= u32::MAX
}

pub proof fn lemma_digits_val_nonneg(s: Seq<char>)
    requires
        all_dec_digits(s),
    ensures
        digits_val(s) >= 0,
    decreases s.len(),
{
    if s.len() > 0 {
        assert(all_dec_digits(s.drop_last())) by {
            assert(forall|k: int|
                0 <= k < s.len() - 1 ==> #[trigger] s.drop_last()[k] == s[k]);
        }
        lemma_digits_val_nonneg(s.drop_last());
    }
}

/// Extending a digit string can only increase its value.
pub proof fn lemma_digits_val_prefix(s: Seq<char>, i: int)
    requires
        all_dec_digits(s),
        0 <= i <= s.len(),
    ensures
        digits_val(s.take(i)) <= digits_val(s),
    decreases s.len() - i,
{
    if i < s.len() {
        lemma_digits_val_prefix(s, i + 1);
        assert(s.take(i + 1).drop_last() =~= s.take(i));
        assert(all_dec_digits(s.take(i))) by {
            assert(forall|k: int| 0 <= k < i ==> #[trigger] s.take(i)[k] == s[k]);
        }
        lemma_digits_val_nonneg(s.take(i));
        assert(digits_val(s.take(i + 1))
            == digits_val(s.take(i)) * 10 + digit_val(s.take(i + 1).last()));
        assert(is_dec_digit(s.take(i + 1).last()));
    } else {
        assert(s.take(i) =~= s);
    }
}

/// Compares two string slices character by character.
pub fn str_eq(a: &str, b: &str) -> (r: bool)
    ensures
        r == (a@ == b@),
{
    let a_len = a.unicode_len();
    let b_len = b.unicode_len();
    if a_len != b_len {
        return false;
    }
    let mut i: usize = 0;
    while i < a_len
        invariant
            a_len == a@.len(),
            b_len == b@.len(),
            a_len == b_len,
            i <= a_len,
            forall|k: int| 0 <= k < i ==> a@[k] == b@[k],
        decreases a_len - i,
    {
        if a.get_char(i) != b.get_char(i) {
            return false;
        }
        i = i + 1;
    }
    proof {
        assert(a@ =~= b@);
    }
    true
}

/// Relies on `String::push`: appends exactly the given character at the end.
#[verifier::external_body]
pub fn push_char(s: &mut String, c: char)
    ensures
        final(s)@ == old(s)@.push(c),
{
    s.push(c);
}

/// Splits a string on a separator character, keeping empty pieces.
pub fn split_on(s: &str, sep: char) -> (r: Vec<String>)
    ensures
        r.deep_view() == spec_split(s@, sep),
{
    let n = s.unicode_len();
    let mut parts: Vec<String> = Vec::new();
    let mut cur: String = String::new();
    let mut i: usize = 0;
    proof {
        assert(s@.take(0) =~= Seq::<char>::empty());
        assert(parts.deep_view().push(cur@) =~= spec_split(s@.take(0), sep));
    }
    while i < n
        invariant
            n == s@.len(),
            i <= n,
            parts.deep_view().push(cur@) == spec_split(s@.take(i as int), sep),
        decreases n - i,
    {
        let ghost prev_parts = parts.deep_view();
        let ghost prev_cur = cur@;
        let c = s.get_char(i);
        proof {
            assert(s@.take(i + 1).drop_last() =~= s@.take(i as int));
            assert(s@.take(i + 1).last() == s@[i as int]);
            lemma_split_nonempty(s@.take(i as int), sep);
        }
        if c == sep {
            parts.push(cur);
            cur = String::new();
            proof {
                assert(parts.deep_view() =~= prev_parts.push(prev_cur));
                assert(parts.deep_view().push(cur@)
                    =~= spec_split(s@.take(i + 1), sep));
            }
        } else {
            push_char(&mut cur, c);
            proof {
                let r = spec_split(s@.take(i as int), sep);
                assert(r.last() == prev_cur);
                assert(r.update(r.len() - 1, prev_cur.push(c))
                    =~= prev_parts.push(prev_cur.push(c)));
                assert(parts.deep_view().push(cur@)
                    =~= spec_split(s@.take(i + 1), sep));
            }
        }
        i = i + 1;
    }
    let ghost prev_parts = parts.deep_view();
    let ghost last_piece = cur@;
    parts.push(cur);
    proof {
        assert(s@.take(n as int) =~= s@);
        assert(parts.deep_view() =~= prev_parts.push(last_piece));
        assert(parts.deep_view() =~= spec_split(s@, sep));
    }
    parts
}

/// Parses a decimal `u32` numeral; rejects empty input, non-digit characters,
/// and values over `u32::MAX`, exactly as the typed route segment demands.
pub fn parse_u32(s: &str) -> (r: Option<u32>)
    ensures
        r is Some <==> is_u32_numeral(s@),
        r matches Some(v) ==> v == digits_val(s@),
{
    let n = s.unicode_len();
    if n == 0 {
        return None;
    }
    let mut i: usize = 0;
    while i < n
        invariant
            n == s@.len(),
            i <= n,
            forall|k: int| 0 <= k < i ==> is_dec_digit(#[trigger] s@[k]),
        decreases n - i,
    {
        let u = s.get_char(i) as u32;
        if u < 48 || u > 57 {
            return None;
        }
        i = i + 1;
    }
    let mut acc: u64 = 0;
    i = 0;
    while i < n
        invariant
            n == s@.len(),
            i <= n,
            all_dec_digits(s@),
            acc == digits_val(s@.take(i as int)),
            acc <= u32::MAX,
        decreases n - i,
    {
        let d = s.get_char(i) as u32 - 48;
        proof {
            assert(s@.take(i + 1).drop_last() =~= s@.take(i as int));
            assert(s@.take(i + 1).last() == s@[i as int]);
        }
        acc = acc * 10 + d as u64;
        if acc > u32::MAX as u64 {
            proof {
                lemma_digits_val_prefix(s@, i + 1);
            }
            return None;
        }
        i = i + 1;
    }
    proof {
        assert(s@.take(n as int) =~= s@);
    }
    Some(acc as u32)
}

/// The decimal rendering of a non-negative number, most significant digit
/// first, with no sign and no leading zero (except for zero itself).
pub open spec fn spec_u32_dec(n: int) -> Seq<char>
    decreases n,
{
    if n < 10 {
        seq![(48 + n) as char]
    } else {
        spec_u32_dec(n / 10).push((48 + n % 10) as char)
    }
}

fn push_dec(n: u32, out: &mut String)
    ensures
        final(out)@ == old(out)@ + spec_u32_dec(n as int),
    decreases n,
{
    if n < 10 {
        push_char(out, (48 + n as u8) as char);
        proof {
            assert(out@ =~= old(out)@ + spec_u32_dec(n as int));
        }
    } else {
        push_dec(n / 10, out);
        push_char(out, (48 + (n % 10) as u8) as char);
        proof {
            assert(out@ =~= old(out)@ + spec_u32_dec(n as int));
        }
    }
}

/// Renders a `u32` in decimal.
pub fn u32_to_dec(n: u32) -> (r: String)
    ensures
        r@ == spec_u32_dec(n as int),
{
    let mut out = String::new();
    push_dec(n, &mut out);
    proof {
        assert(out@ =~= spec_u32_dec(n as int));
    }
    out
}

} // verus!
