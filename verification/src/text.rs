//! Text helpers: byte-bounded truncation on UTF-8 character boundaries and
//! decimal rendering of play times.

use vstd::prelude::*;
use vstd::string::*;
use vstd::utf8::*;

verus! {

/// The largest character boundary of `bytes` that is at most `n` (and at least 0).
pub open spec fn boundary_at_most(bytes: Seq<u8>, n: int) -> int
    decreases n,
{
    if n <= 0 {
        0
    } else if is_char_boundary(bytes, n) {
        n
    } else {
        boundary_at_most(bytes, n - 1)
    }
}

/// The number of UTF-8 bytes of `s`.
pub open spec fn byte_len(s: Seq<char>) -> int {
    encode_utf8(s).len() as int
}

/// The number of bytes that `truncate` keeps of `s` for the limit `max`:
/// the largest character boundary not above `min(max, byte_len(s))`.
pub open spec fn truncated_len(s: Seq<char>, max: int) -> int {
    let bytes = encode_utf8(s);
    boundary_at_most(bytes, if max < bytes.len() { max } else { bytes.len() as int })
}

/// The characters that `truncate` keeps of `s` for the limit `max`.
pub open spec fn truncated(s: Seq<char>, max: int) -> Seq<char> {
    decode_utf8(encode_utf8(s).subrange(0, truncated_len(s, max)))
}

/// Cuts `s` to at most `max` bytes without splitting a character: the
/// result is the longest prefix of `s` that ends on a character boundary and
/// is no longer than `max` bytes.
pub fn truncate(s: &str, max: usize) -> (r: &str)
    ensures
        r.spec_bytes() == s.spec_bytes().subrange(0, truncated_len(s@, max as int)),
        r@ == truncated(s@, max as int),
{
    let total = s.as_bytes().len();
    let ghost bytes = s.spec_bytes();
    proof {
        encode_utf8_valid_utf8(s@);
        is_char_boundary_start_end_of_seq(bytes);
    }
    let mut len = if max < total {
        max
    } else {
        total
    };
    while !s.is_char_boundary(len)
        invariant
            total == bytes.len(),
            bytes == s.spec_bytes(),
            valid_utf8(bytes),
            is_char_boundary(bytes, 0),
            len <= total,
            boundary_at_most(bytes, len as int) == truncated_len(s@, max as int),
        decreases len,
    {
        len = len - 1;
    }
    let (head, _tail) = s.split_at(len);
    proof {
        encode_utf8_decode_utf8(head@);
    }
    head
}


/// `boundary_at_most(bytes, n)` is a character boundary in `[0, n]`, and no
/// character boundary lies above it up to `n`.
proof fn lemma_boundary_at_most(bytes: Seq<u8>, n: int)
    requires
        valid_utf8(bytes),
        n <= bytes.len(),
    ensures
        0 <= boundary_at_most(bytes, n),
        n >= 0 ==> boundary_at_most(bytes, n) <= n,
        is_char_boundary(bytes, boundary_at_most(bytes, n)),
        forall|j: int|
            boundary_at_most(bytes, n) < j <= n ==> !#[trigger] is_char_boundary(bytes, j),
    decreases n,
{
    is_char_boundary_start_end_of_seq(bytes);
    if n > 0 && !is_char_boundary(bytes, n) {
        lemma_boundary_at_most(bytes, n - 1);
    }
}

/// A boundary `k <= n` with no boundary in `(k, n]` is `boundary_at_most(bytes, n)`.
proof fn lemma_boundary_at_most_is(bytes: Seq<u8>, n: int, k: int)
    requires
        0 <= k <= n,
        is_char_boundary(bytes, k),
        forall|j: int| k < j <= n ==> !#[trigger] is_char_boundary(bytes, j),
    ensures
        boundary_at_most(bytes, n) == k,
    decreases n,
{
    if n > k {
        lemma_boundary_at_most_is(bytes, n - 1, k);
    }
}

/// Two byte sequences with the same character boundaries in `[0, n]` have the
/// same `boundary_at_most` for `n`.
proof fn lemma_boundary_at_most_same(b1: Seq<u8>, b2: Seq<u8>, n: int)
    requires
        forall|j: int| 0 <= j <= n ==> is_char_boundary(b1, j) == is_char_boundary(b2, j),
    ensures
        boundary_at_most(b1, n) == boundary_at_most(b2, n),
    decreases n,
{
    if n > 0 {
        assert(is_char_boundary(b1, n) == is_char_boundary(b2, n));
        lemma_boundary_at_most_same(b1, b2, n - 1);
    }
}

/// A prefix of valid UTF-8 that ends on a boundary has, up to its length, the
/// same character boundaries as the whole sequence.
proof fn lemma_prefix_boundaries(bytes: Seq<u8>, k: int)
    requires
        valid_utf8(bytes),
        0 <= k <= bytes.len(),
        is_char_boundary(bytes, k),
    ensures
        valid_utf8(bytes.subrange(0, k)),
        forall|j: int|
            0 <= j <= k ==> is_char_boundary(bytes.subrange(0, k), j) == is_char_boundary(
                bytes,
                j,
            ),
{
    let p = bytes.subrange(0, k);
    valid_utf8_split(bytes, k);
    is_char_boundary_start_end_of_seq(p);
    is_char_boundary_start_end_of_seq(bytes);
    assert forall|j: int| 0 <= j <= k implies is_char_boundary(p, j) == is_char_boundary(
        bytes,
        j,
    ) by {
        if 0 < j < k {
            is_char_boundary_iff_not_is_continuation_byte(p, j);
            is_char_boundary_iff_not_is_continuation_byte(bytes, j);
        }
    }
}

/// What `truncate` returns, stated over character sequences.
///
/// The kept bytes are a character boundary no larger than the limit or the
/// input; the result is a prefix of the input whose UTF-8 length is exactly
/// that many bytes; no longer prefix would fit; an input that already fits is
/// returned whole; and truncating again with the same limit changes nothing.
pub proof fn lemma_truncate(s: Seq<char>, max: int)
    ensures
        0 <= truncated_len(s, max) <= byte_len(s),
        max >= 0 ==> truncated_len(s, max) <= max,
        byte_len(truncated(s, max)) == truncated_len(s, max),
        truncated(s, max).len() <= s.len(),
        truncated(s, max) == s.subrange(0, truncated(s, max).len() as int),
        is_char_boundary(encode_utf8(s), truncated_len(s, max)),
        forall|j: int|
            truncated_len(s, max) < j <= byte_len(s) && j <= max ==> !#[trigger] is_char_boundary(
                encode_utf8(s),
                j,
            ),
        byte_len(s) <= max ==> truncated(s, max) == s,
        max >= 0 ==> truncated(truncated(s, max), max) == truncated(s, max),
{
    let bytes = encode_utf8(s);
    let n = if max < bytes.len() {
        max
    } else {
        bytes.len() as int
    };
    let k = truncated_len(s, max);
    encode_utf8_valid_utf8(s);
    encode_utf8_decode_utf8(s);
    lemma_boundary_at_most(bytes, n);
    let prefix = bytes.subrange(0, k);
    valid_utf8_split(bytes, k);
    decode_utf8_split(bytes, k);
    decode_utf8_encode_utf8(prefix);
    let t = truncated(s, max);
    assert(s == t + decode_utf8(bytes.subrange(k, bytes.len() as int)));
    assert(t == s.subrange(0, t.len() as int));
    is_char_boundary_start_end_of_seq(bytes);
    if byte_len(s) <= max {
        lemma_boundary_at_most_is(bytes, n, bytes.len() as int);
        assert(prefix == bytes);
    }
    if max >= 0 {
        let tb = encode_utf8(t);
        assert(tb == prefix);
        decode_utf8_encode_utf8(tb);
        is_char_boundary_start_end_of_seq(tb);
        lemma_boundary_at_most_is(tb, tb.len() as int, tb.len() as int);
        assert(tb.subrange(0, tb.len() as int) == tb);
    }
}

/// Truncating twice keeps what truncating once to the smaller limit keeps.
pub proof fn lemma_truncate_twice(s: Seq<char>, a: int, b: int)
    requires
        a >= 0,
        b >= 0,
    ensures
        truncated(truncated(s, a), b) == truncated(s, if a < b { a } else { b }),
{
    let m = if a < b {
        a
    } else {
        b
    };
    let bytes = encode_utf8(s);
    let t = truncated(s, a);
    let k = truncated_len(s, a);
    lemma_truncate(s, a);
    lemma_truncate(s, m);
    encode_utf8_valid_utf8(s);
    let prefix = bytes.subrange(0, k);
    valid_utf8_split(bytes, k);
    decode_utf8_encode_utf8(prefix);
    let tb = encode_utf8(t);
    assert(tb == prefix);
    lemma_prefix_boundaries(bytes, k);
    let na = if a < bytes.len() {
        a
    } else {
        bytes.len() as int
    };
    let nm = if m < bytes.len() {
        m
    } else {
        bytes.len() as int
    };
    lemma_boundary_at_most(bytes, na);
    if b >= k {
        // the second limit does not cut into the first result
        lemma_boundary_at_most_is(tb, if b < k { b } else { k }, k);
        lemma_boundary_at_most_is(bytes, nm, k);
    } else {
        lemma_boundary_at_most_same(tb, bytes, b);
        assert(nm == b);
    }
    let k2 = truncated_len(s, m);
    assert(truncated_len(t, b) == k2);
    lemma_truncate(t, b);
    assert(tb.subrange(0, k2) == bytes.subrange(0, k2));
}

/// The UTF-8 length of a concatenation is the sum of the lengths.
pub proof fn lemma_byte_len_concat(a: Seq<char>, b: Seq<char>)
    ensures
        encode_utf8(a + b) == encode_utf8(a) + encode_utf8(b),
        byte_len(a + b) == byte_len(a) + byte_len(b),
    decreases a.len(),
{
    if a.len() > 0 {
        lemma_byte_len_concat(a.drop_first(), b);
        assert((a + b).drop_first() =~= a.drop_first() + b);
        assert(encode_utf8(a) + encode_utf8(b) =~= encode_scalar(a[0] as u32) + (encode_utf8(
            a.drop_first(),
        ) + encode_utf8(b)));
    } else {
        assert(a + b =~= b);
    }
}

/// The character of decimal digit `d`.
pub open spec fn digit_char(d: int) -> char {
    (d + 48) as char
}

/// The decimal rendering of `n`, without leading zeros.
pub open spec fn decimal(n: nat) -> Seq<char>
    decreases n,
{
    if n < 10 {
        seq![digit_char(n as int)]
    } else {
        decimal(n / 10).push(digit_char((n % 10) as int))
    }
}

/// The rendering of `n < 100` on at least two digits, with a leading zero below ten.
pub open spec fn two_digits(n: nat) -> Seq<char> {
    if n < 10 {
        seq!['0', digit_char(n as int)]
    } else {
        decimal(n)
    }
}

/// The text of a play time of `total` whole seconds: minutes, a colon, and
/// the seconds on two digits.
pub open spec fn time_text(total: nat) -> Seq<char> {
    decimal(total / 60) + seq![':'] + two_digits(total % 60)
}

/// The one-character string of decimal digit `d`.
fn digit_str(d: u64) -> (r: &'static str)
    requires
        d < 10,
    ensures
        r@ == seq![digit_char(d as int)],
{
    proof {
        reveal_strlit("0");
        reveal_strlit("1");
        reveal_strlit("2");
        reveal_strlit("3");
        reveal_strlit("4");
        reveal_strlit("5");
        reveal_strlit("6");
        reveal_strlit("7");
        reveal_strlit("8");
        reveal_strlit("9");
    }
    let r = if d == 0 {
        "0"
    } else if d == 1 {
        "1"
    } else if d == 2 {
        "2"
    } else if d == 3 {
        "3"
    } else if d == 4 {
        "4"
    } else if d == 5 {
        "5"
    } else if d == 6 {
        "6"
    } else if d == 7 {
        "7"
    } else if d == 8 {
        "8"
    } else {
        "9"
    };
    assert(r@ =~= seq![digit_char(d as int)]);
    r
}

/// Renders `n` in decimal.
pub fn decimal_string(n: u64) -> (r: String)
    ensures
        r@ == decimal(n as nat),
    decreases n,
{
    if n < 10 {
        String::from_str(digit_str(n))
    } else {
        let mut r = decimal_string(n / 10);
        r.append(digit_str(n % 10));
        r
    }
}

/// Renders a play time of `total` whole seconds as `minutes:seconds`, the
/// seconds on two digits (125 gives "2:05").
pub fn format_time(total: u64) -> (r: String)
    ensures
        r@ == time_text(total as nat),
{
    let mins = total / 60;
    let secs = total % 60;
    let mut r = decimal_string(mins);
    proof {
        reveal_strlit(":");
        reveal_strlit("0");
    }
    r.append(":");
    if secs < 10 {
        r.append("0");
        r.append(digit_str(secs));
    } else {
        let s = decimal_string(secs);
        r.append(s.as_str());
    }
    assert(r@ =~= time_text(total as nat));
    r
}

/// `c` is one of the characters '0' to '9'.
pub open spec fn is_digit(c: char) -> bool {
    48 <= (c as int) <= 57
}

/// The number that the decimal digits `s` write (most significant first).
pub open spec fn digits_value(s: Seq<char>) -> nat
    decreases s.len(),
{
    if s.len() == 0 {
        0
    } else {
        digits_value(s.drop_last()) * 10 + ((s.last() as int) - 48) as nat
    }
}

/// Appending a digit multiplies the value by ten and adds the digit.
proof fn lemma_digits_value_push(s: Seq<char>, c: char)
    ensures
        digits_value(s.push(c)) == digits_value(s) * 10 + ((c as int) - 48) as nat,
        digits_value(seq![c]) == ((c as int) - 48) as nat,
{
    assert(s.push(c).drop_last() =~= s);
    assert(seq![c].drop_last() =~= Seq::<char>::empty());
    reveal_with_fuel(digits_value, 2);
}

/// The decimal rendering of `n` is made of digits, is at least one digit
/// long, has no leading zero, and reads back as `n`.
pub proof fn lemma_decimal(n: nat)
    ensures
        decimal(n).len() >= 1,
        forall|i: int| 0 <= i < decimal(n).len() ==> is_digit(#[trigger] decimal(n)[i]),
        digits_value(decimal(n)) == n,
        decimal(n).len() > 1 ==> decimal(n)[0] != '0',
    decreases n,
{
    if n >= 10 {
        lemma_decimal(n / 10);
        let d = decimal(n);
        let c = digit_char((n % 10) as int);
        assert(((c) as int) == (n % 10) + 48);
        lemma_digits_value_push(decimal(n / 10), c);
        assert(digits_value(d) == (n / 10) * 10 + n % 10);
        assert(decimal(n / 10).len() == 1 ==> decimal(n / 10)[0] != '0') by {
            if decimal(n / 10).len() == 1 {
                assert(n / 10 >= 1);
                assert(decimal(n / 10) =~= seq![decimal(n / 10)[0]]);
                lemma_digits_value_push(Seq::<char>::empty(), decimal(n / 10)[0]);
            }
        }
    } else {
        assert(((digit_char(n as int)) as int) == n + 48);
        lemma_digits_value_push(Seq::<char>::empty(), digit_char(n as int));
    }
}

/// A play time reads back as the number of seconds it was made from: its
/// last two characters are the seconds (below 60, always two digits), the
/// character before them is a colon, and before that come the minutes in
/// digits without a leading zero; minutes times 60 plus seconds is the total.
pub proof fn lemma_time_text(total: nat)
    ensures
        ({
            let t = time_text(total);
            let m = (t.len() - 3) as int;
            &&& t.len() >= 4
            &&& t[m] == ':'
            &&& forall|i: int| 0 <= i < t.len() && i != m ==> is_digit(#[trigger] t[i])
            &&& m > 1 ==> t[0] != '0'
            &&& digits_value(t.subrange(m + 1, m + 3)) < 60
            &&& digits_value(t.subrange(0, m)) * 60 + digits_value(t.subrange(m + 1, m + 3))
                == total
        }),
{
    let mins = decimal(total / 60);
    let secs = total % 60;
    lemma_decimal(total / 60);
    let sd = two_digits(secs);
    let t = time_text(total);
    if secs < 10 {
        assert(((digit_char(secs as int)) as int) == secs + 48);
        assert(sd.len() == 2);
        assert(digits_value(sd) == secs) by {
            assert(sd =~= seq!['0'].push(digit_char(secs as int)));
            lemma_digits_value_push(seq!['0'], digit_char(secs as int));
            lemma_digits_value_push(Seq::<char>::empty(), '0');
        }
    } else {
        lemma_decimal(secs);
        assert(decimal(secs).len() == 2) by {
            assert(decimal(secs / 10).len() == 1);
        }
    }
    assert(t =~= mins + seq![':'] + sd);
    let m = mins.len() as int;
    assert(t.subrange(0, m) =~= mins);
    assert(t.subrange(m + 1, m + 3) =~= sd);
    assert(forall|i: int| 0 <= i < t.len() && i != m ==> is_digit(#[trigger] t[i])) by {
        assert forall|i: int| 0 <= i < t.len() && i != m implies is_digit(#[trigger] t[i]) by {
            if i < m {
                assert(t[i] == mins[i]);
            } else {
                assert(t[i] == sd[i - m - 1]);
                if secs < 10 {
                    assert(((digit_char(secs as int)) as int) == secs + 48);
                } else {
                    assert(is_digit(decimal(secs)[i - m - 1]));
                }
            }
        }
    }
}

} // verus!
