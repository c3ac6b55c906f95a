use vstd::prelude::*;

use crate::constants::{MAX_PRICE, PRICE_SCALE};
use crate::models::{CoinbaseTickerUpdate, PriceTick};

verus! {

broadcast use vstd::string::is_ascii_spec_bytes;

/// Whether `c` is a decimal digit.
pub open spec fn is_digit(c: char) -> bool {
    '0' <= c && c <= '9'
}

/// Whether every character of `s` is a decimal digit.
pub open spec fn all_digits(s: Seq<char>) -> bool {
    forall|i: int| 0 <= i < s.len() ==> is_digit(#[trigger] s[i])
}

/// The number written by a string of decimal digits.
pub open spec fn digits_value(s: Seq<char>) -> int
    decreases s.len(),
{
    if s.len() == 0 {
        0
    } else {
        digits_value(s.drop_last()) * 10 + (s.last() as int - '0' as int)
    }
}

/// Ten to the power `n`.
pub open spec fn pow10(n: nat) -> int
    decreases n,
{
    if n == 0 {
        1
    } else {
        10 * pow10((n - 1) as nat)
    }
}

/// Index of the first `.` in `s` at or after `from`, or the length of `s`.
pub open spec fn first_dot_from(s: Seq<char>, from: int) -> int
    decreases s.len() - from,
{
    if from < 0 || from >= s.len() {
        s.len() as int
    } else if s[from] == '.' {
        from
    } else {
        first_dot_from(s, from + 1)
    }
}

/// The characters after the first `.` of `s`, if any.
pub open spec fn fraction_of(s: Seq<char>) -> Seq<char> {
    let k = first_dot_from(s, 0);
    if k < s.len() {
        s.subrange(k + 1, s.len() as int)
    } else {
        Seq::<char>::empty()
    }
}

/// The first eight fractional digits, those a price with eight decimal places keeps.
pub open spec fn kept_fraction(frac: Seq<char>) -> Seq<char> {
    frac.subrange(0, if frac.len() <= 8 { frac.len() as int } else { 8 })
}

/// The fixed-point value of a decimal price: one or more digits, optionally
/// followed by `.` and fractional digits, of which the first eight count
/// (further ones are cut off); `None` for any other text, and for a price that
/// is zero or above the largest price handled.
pub open spec fn decimal_price_spec(s: Seq<char>) -> Option<int> {
    let k = first_dot_from(s, 0);
    let whole = s.subrange(0, k);
    let frac = fraction_of(s);
    let kept = kept_fraction(frac);
    let value = digits_value(whole) * PRICE_SCALE + digits_value(kept) * pow10(
        (8 - kept.len()) as nat,
    );
    if whole.len() > 0 && all_digits(whole) && all_digits(frac) && 0 < value <= MAX_PRICE {
        Some(value)
    } else {
        None
    }
}

proof fn lemma_first_dot(s: Seq<char>, from: int, k: int)
    requires
        0 <= from <= k <= s.len(),
        forall|j: int| from <= j < k ==> s[j] != '.',
        k == s.len() || s[k] == '.',
    ensures
        first_dot_from(s, from) == k,
    decreases k - from,
{
    if from < k {
        lemma_first_dot(s, from + 1, k);
    }
}

proof fn lemma_digits_value_grows(s: Seq<char>, j: int)
    requires
        all_digits(s),
        0 <= j <= s.len(),
    ensures
        0 <= digits_value(s.subrange(0, j)) <= digits_value(s),
    decreases s.len(),
{
    if s.len() > 0 {
        assert(all_digits(s.drop_last()));
        assert(is_digit(s[s.len() - 1]));
        if j == s.len() {
            assert(s.subrange(0, j) == s);
            lemma_digits_value_grows(s.drop_last(), 0);
        } else {
            assert(s.drop_last().subrange(0, j) == s.subrange(0, j));
            lemma_digits_value_grows(s.drop_last(), j);
        }
    }
}

/// Parses the digits of `text[lo..hi]`; `None` when one is not a digit or the
/// number exceeds `limit`.
fn parse_digits(text: &str, bytes: &[u8], lo: usize, hi: usize, limit: u64) -> (r: Option<u64>)
    requires
        lo <= hi <= text@.len(),
        bytes@ == Seq::new(text@.len(), |i: int| text@[i] as u8),
        vstd::utf8::is_ascii_chars(text@),
        limit <= MAX_PRICE,
    ensures
        match r {
            Some(v) => all_digits(text@.subrange(lo as int, hi as int)) && v == digits_value(
                text@.subrange(lo as int, hi as int),
            ) && v <= limit,
            None => !all_digits(text@.subrange(lo as int, hi as int)) || digits_value(
                text@.subrange(lo as int, hi as int),
            ) > limit,
        },
{
    let ghost s = text@.subrange(lo as int, hi as int);
    let mut value: u64 = 0;
    let mut i: usize = lo;
    while i < hi
        invariant
            lo <= i <= hi <= text@.len(),
            bytes@ == Seq::new(text@.len(), |k: int| text@[k] as u8),
            vstd::utf8::is_ascii_chars(text@),
            s == text@.subrange(lo as int, hi as int),
            limit <= MAX_PRICE,
            all_digits(s.subrange(0, i - lo)),
            value == digits_value(s.subrange(0, i - lo)),
            value <= limit,
        decreases hi - i,
    {
        let b: u8 = bytes[i];
        let ghost c = text@[i as int];
        assert(b == c as u8);
        assert(s.subrange(0, i - lo + 1).drop_last() == s.subrange(0, i - lo));
        assert(s.subrange(0, i - lo + 1).last() == c);
        if b < 48 || b > 57 {
            assert(!is_digit(s[i - lo]));
            return None;
        }
        let next: u64 = value * 10 + (b - 48) as u64;
        assert(all_digits(s.subrange(0, i - lo + 1)));
        if next > limit {
            proof {
                if all_digits(s) {
                    lemma_digits_value_grows(s, i - lo + 1);
                }
            }
            return None;
        }
        value = next;
        i = i + 1;
    }
    assert(s.subrange(0, hi - lo) == s);
    Some(value)
}

proof fn lemma_first_dot_bounds(s: Seq<char>, from: int)
    requires
        0 <= from <= s.len(),
    ensures
        from <= first_dot_from(s, from) <= s.len(),
        first_dot_from(s, from) < s.len() ==> s[first_dot_from(s, from)] == '.',
    decreases s.len() - from,
{
    if from < s.len() && s[from] != '.' {
        lemma_first_dot_bounds(s, from + 1);
    }
}

proof fn lemma_digits_value_bound(s: Seq<char>)
    requires
        all_digits(s),
    ensures
        0 <= digits_value(s) < pow10(s.len()),
    decreases s.len(),
{
    if s.len() > 0 {
        assert(all_digits(s.drop_last()));
        assert(is_digit(s[s.len() - 1]));
        lemma_digits_value_bound(s.drop_last());
    }
}

/// A valid price is made of ASCII characters only.
proof fn lemma_price_text_is_ascii(s: Seq<char>)
    requires
        decimal_price_spec(s) is Some,
    ensures
        vstd::utf8::is_ascii_chars(s),
{
    let k = first_dot_from(s, 0);
    lemma_first_dot_bounds(s, 0);
    let whole = s.subrange(0, k);
    let frac = fraction_of(s);
    assert forall|j: int| 0 <= j < s.len() implies '\0' <= #[trigger] s[j] <= '\u{7f}' by {
        if j < k {
            assert(whole[j] == s[j]);
            assert(is_digit(whole[j]));
        } else if j > k {
            assert(frac[j - k - 1] == s[j]);
            assert(is_digit(frac[j - k - 1]));
        }
    }
}

/// Whether every character of `text[lo..hi]` is a decimal digit.
fn digits_only(text: &str, bytes: &[u8], lo: usize, hi: usize) -> (r: bool)
    requires
        lo <= hi <= text@.len(),
        bytes@ == Seq::new(text@.len(), |i: int| text@[i] as u8),
        vstd::utf8::is_ascii_chars(text@),
    ensures
        r == all_digits(text@.subrange(lo as int, hi as int)),
{
    let ghost s = text@.subrange(lo as int, hi as int);
    let mut i: usize = lo;
    while i < hi
        invariant
            lo <= i <= hi <= text@.len(),
            bytes@ == Seq::new(text@.len(), |k: int| text@[k] as u8),
            vstd::utf8::is_ascii_chars(text@),
            s == text@.subrange(lo as int, hi as int),
            forall|j: int| 0 <= j < i - lo ==> is_digit(#[trigger] s[j]),
        decreases hi - i,
    {
        let b: u8 = bytes[i];
        assert(b == text@[i as int] as u8);
        assert(s[i - lo] == text@[i as int]);
        if b < 48 || b > 57 {
            return false;
        }
        i = i + 1;
    }
    true
}

/// Parses a decimal price such as `96289.34` into a fixed-point value with
/// eight decimal places, cutting off further fractional digits; `None` when
/// the text is not such a price, or is zero or above the largest price.
pub fn parse_price(text: &str) -> (r: Option<u64>)
    ensures
        match r {
            Some(p) => decimal_price_spec(text@) == Some(p as int),
            None => decimal_price_spec(text@) is None,
        },
{
    assert(PRICE_SCALE == 100_000_000 && MAX_PRICE == 1_000_000_000_000_000);
    let ghost s = text@;
    if !text.is_ascii() {
        proof {
            if decimal_price_spec(s) is Some {
                lemma_price_text_is_ascii(s);
            }
        }
        return None;
    }
    let bytes: &[u8] = text.as_bytes();
    assert(bytes@ == Seq::new(s.len(), |i: int| s[i] as u8));
    let n: usize = bytes.len();
    let mut k: usize = 0;
    while k < n && bytes[k] != 46
        invariant
            0 <= k <= n,
            n == s.len(),
            bytes@ == Seq::new(s.len(), |i: int| s[i] as u8),
            vstd::utf8::is_ascii_chars(s),
            forall|j: int| 0 <= j < k ==> s[j] != '.',
        decreases n - k,
    {
        assert(bytes@[k as int] == s[k as int] as u8);
        k = k + 1;
    }
    proof {
        if k < n {
            assert(bytes@[k as int] == s[k as int] as u8);
        }
        lemma_first_dot(s, 0, k as int);
    }
    let ghost whole = s.subrange(0, k as int);
    let ghost frac = fraction_of(s);
    let ghost kept = kept_fraction(frac);
    if k == 0 {
        return None;
    }
    let whole_value: u64 = match parse_digits(text, bytes, 0, k, 10_000_000) {
        Some(v) => v,
        None => {
            proof {
                if all_digits(whole) && all_digits(frac) {
                    assert(all_digits(kept));
                    lemma_digits_value_bound(kept);
                    lemma_pow10_bound((8 - kept.len()) as nat);
                    let fv = digits_value(kept);
                    let sc = pow10((8 - kept.len()) as nat);
                    assert(fv * sc >= 0) by (nonlinear_arith)
                        requires
                            fv >= 0,
                            sc >= 1,
                    ;
                }
            }
            return None;
        },
    };
    let mut frac_value: u64 = 0;
    let mut frac_len: usize = 0;
    if k < n {
        let kept_end: usize = if n - (k + 1) > 8 {
            k + 9
        } else {
            n
        };
        assert(kept == s.subrange(k + 1, kept_end as int));
        if !digits_only(text, bytes, kept_end, n) {
            proof {
                let rest = s.subrange(kept_end as int, n as int);
                let j = choose|j: int| 0 <= j < rest.len() && !is_digit(#[trigger] rest[j]);
                assert(frac[kept_end - k - 1 + j] == rest[j]);
            }
            return None;
        }
        frac_len = kept_end - (k + 1);
        proof {
            lemma_pow10_bound(frac_len as nat);
            if all_digits(kept) {
                lemma_digits_value_bound(kept);
            }
        }
        frac_value = match parse_digits(text, bytes, k + 1, kept_end, 100_000_000) {
            Some(v) => v,
            None => {
                proof {
                    if all_digits(frac) {
                        assert(all_digits(kept));
                    }
                }
                return None;
            },
        };
        proof {
            let rest = s.subrange(kept_end as int, n as int);
            assert forall|j: int| 0 <= j < frac.len() implies is_digit(#[trigger] frac[j]) by {
                if j < kept.len() {
                    assert(frac[j] == kept[j]);
                } else {
                    assert(frac[j] == rest[j - kept.len()]);
                }
            }
        }
    }
    assert(kept.len() == frac_len);
    assert(all_digits(frac));
    assert(frac_value == digits_value(kept));
    let mut scale: u64 = 1;
    let mut j: usize = 0;
    while j < 8 - frac_len
        invariant
            frac_len <= 8,
            0 <= j <= 8 - frac_len,
            scale == pow10(j as nat),
            scale <= 100_000_000,
        decreases 8 - frac_len - j,
    {
        assert(pow10((j + 1) as nat) == 10 * pow10(j as nat));
        proof {
            lemma_pow10_bound((j + 1) as nat);
        }
        scale = scale * 10;
        j = j + 1;
    }
    assert((whole_value as u128) * 100_000_000 + (frac_value as u128) * (scale as u128) <= 100_000_000_000_000_000) by (nonlinear_arith)
        requires
            whole_value <= 10_000_000,
            frac_value <= 100_000_000,
            scale <= 100_000_000,
    ;
    let value: u128 = (whole_value as u128) * 100_000_000 + (frac_value as u128) * (scale as u128);
    if value == 0 || value > MAX_PRICE as u128 {
        return None;
    }
    Some(value as u64)
}

proof fn lemma_pow10_bound(n: nat)
    requires
        n <= 8,
    ensures
        1 <= pow10(n) <= 100_000_000,
{
    reveal_with_fuel(pow10, 9);
    assert(pow10(0) == 1 && pow10(1) == 10 && pow10(2) == 100 && pow10(3) == 1000);
    assert(pow10(4) == 10_000 && pow10(5) == 100_000 && pow10(6) == 1_000_000);
    assert(pow10(7) == 10_000_000 && pow10(8) == 100_000_000);
    assert(n == 0 || n == 1 || n == 2 || n == 3 || n == 4 || n == 5 || n == 6 || n == 7 || n == 8);
}

/// Whether `c` separates the base and quote currencies of a pair (`BTC-USD`, `BTC/USD`).
pub open spec fn is_separator(c: char) -> bool {
    c == '-' || c == '/' || c == '_'
}

/// The upper-case form of an ASCII lower-case letter; any other character unchanged.
pub open spec fn ascii_upper(c: char) -> char {
    if 'a' <= c && c <= 'z' {
        ((c as u32) - 32) as char
    } else {
        c
    }
}

/// The canonical form of a symbol: separators removed, ASCII letters in upper case.
pub open spec fn canonical_symbol_spec(s: Seq<char>) -> Seq<char>
    decreases s.len(),
{
    if s.len() == 0 {
        s
    } else {
        let rest = canonical_symbol_spec(s.drop_last());
        if is_separator(s.last()) {
            rest
        } else {
            rest.push(ascii_upper(s.last()))
        }
    }
}

/// Relies on `String::push`: appends one character to the string.
#[verifier::external_body]
fn push_char(s: &mut String, c: char)
    ensures
        final(s)@ == old(s)@.push(c),
{
    s.push(c);
}

/// Brings a symbol to canonical form, so that a position's pair and a tick's
/// symbol compare equal by plain equality (`btc-usd` and `BTCUSD` both become `BTCUSD`).
pub fn canonical_symbol(symbol: &str) -> (r: String)
    ensures
        r@ == canonical_symbol_spec(symbol@),
{
    let mut out = String::new();
    for c in it: symbol.chars()
        invariant
            it.seq() == symbol@,
            out@ == canonical_symbol_spec(symbol@.subrange(0, it.index() as int)),
    {
        let ghost i = it.index();
        assert(symbol@.subrange(0, i + 1).drop_last() == symbol@.subrange(0, i));
        if !(c == '-' || c == '/' || c == '_') {
            let upper = if 'a' <= c && c <= 'z' {
                ((c as u8) - 32) as char
            } else {
                c
            };
            push_char(&mut out, upper);
        }
    }
    assert(symbol@.subrange(0, symbol@.len() as int) == symbol@);
    out
}

/// Turns a Coinbase feed message into a price tick observed at `observed_at`.
/// Messages that are not `ticker` updates, carry no price, or whose price is
/// not a valid decimal price are dropped (`None`).
pub fn ticker_to_tick(update: &CoinbaseTickerUpdate, observed_at: i64) -> (r: Option<PriceTick>)
    ensures
        match r {
            Some(tick) => {
                &&& update.update_type@ == "ticker"@
                &&& update.price is Some
                &&& decimal_price_spec(update.price->0@) == Some(tick.price as int)
                &&& tick.symbol@ == canonical_symbol_spec(update.product_id@)
                &&& tick.observed_at == observed_at
            },
            None => update.update_type@ != "ticker"@ || update.price is None || decimal_price_spec(
                update.price->0@,
            ) is None,
        },
{
    let ticker_type: String = "ticker".to_owned();
    if update.update_type != ticker_type {
        return None;
    }
    match &update.price {
        None => None,
        Some(text) => match parse_price(text.as_str()) {
            None => None,
            Some(price) => Some(
                PriceTick { symbol: canonical_symbol(update.product_id.as_str()), price, observed_at },
            ),
        },
    }
}

} // verus!
