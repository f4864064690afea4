//! Text forms used throughout the library: zero-padded decimal numbers,
//! ticket codes, calendar-date strings and timestamp strings, together with
//! the lexicographic order under which date strings are compared.

use vstd::prelude::*;
use vstd::string::*;

verus! {

/// The character for a single decimal digit value.
pub open spec fn digit_char(d: nat) -> char {
    if d == 0 {
        '0'
    } else if d == 1 {
        '1'
    } else if d == 2 {
        '2'
    } else if d == 3 {
        '3'
    } else if d == 4 {
        '4'
    } else if d == 5 {
        '5'
    } else if d == 6 {
        '6'
    } else if d == 7 {
        '7'
    } else if d == 8 {
        '8'
    } else {
        '9'
    }
}

pub open spec fn pow10(e: nat) -> nat
    decreases e,
{
    if e == 0 {
        1nat
    } else {
        10 * pow10((e - 1) as nat)
    }
}

/// Number of digits in the decimal form of `n`.
pub open spec fn len10(n: nat) -> nat
    decreases n,
{
    if n < 10 {
        1nat
    } else {
        1 + len10(n / 10)
    }
}

/// The decimal form of `n`, zero-padded on the left to at least `width`
/// characters; numbers with more than `width` digits keep all their digits.
pub open spec fn padded(n: nat, width: nat) -> Seq<char> {
    let w = if len10(n) > width {
        len10(n)
    } else {
        width
    };
    Seq::new(w as nat, |i: int| digit_char((n / pow10((w - 1 - i) as nat)) % 10))
}

pub proof fn lemma_pow10_le(a: nat, b: nat)
    requires
        a <= b,
    ensures
        pow10(a) <= pow10(b),
    decreases b,
{
    if a < b {
        lemma_pow10_le(a, (b - 1) as nat);
    }
}

pub proof fn lemma_len10_le(n: nat, k: nat)
    requires
        k >= 1,
        n < pow10(k),
    ensures
        len10(n) <= k,
    decreases n,
{
    if n < 10 {
    } else {
        assert(pow10(k) == 10 * pow10((k - 1) as nat));
        if k == 1 {
            assert(pow10(1nat) == 10);
            assert(false);
        }
        assert(n / 10 < pow10((k - 1) as nat)) by {
            assert(n < 10 * pow10((k - 1) as nat));
        };
        lemma_len10_le(n / 10, (k - 1) as nat);
    }
}

/// Every character of a padded decimal form is a decimal digit.
pub proof fn lemma_padded_digits(n: nat, width: nat)
    ensures
        padded(n, width).len() == if len10(n) > width {
            len10(n)
        } else {
            width
        },
        forall|i: int|
            0 <= i < padded(n, width).len() ==> '0' <= #[trigger] padded(n, width)[i] <= '9',
{
    assert forall|i: int| 0 <= i < padded(n, width).len() implies '0' <= #[trigger] padded(
        n,
        width,
    )[i] <= '9' by {
        let w = padded(n, width).len() as int;
        let d = (n / pow10((w - 1 - i) as nat)) % 10;
        assert(d < 10);
        assert('0' <= digit_char(d) <= '9');
    }
}

fn digit_str(d: u8) -> (r: &'static str)
    requires
        d < 10,
    ensures
        r@ =~= seq![digit_char(d as nat)],
{
    proof {
        reveal_strlit("0");
        reveal_strlit("1");
        reveal_strlit("2");
        reveal_strlit("3");
        reveal_strlit("4");
        reveal_strlit("5");
        reveal_strlit("6");
        reveal_strlit("7");
        reveal_strlit("8");
        reveal_strlit("9");
    }
    match d {
        0 => "0",
        1 => "1",
        2 => "2",
        3 => "3",
        4 => "4",
        5 => "5",
        6 => "6",
        7 => "7",
        8 => "8",
        _ => "9",
    }
}

fn pow10_exec(e: u32) -> (r: u64)
    requires
        e <= 12,
    ensures
        r == pow10(e as nat),
    decreases e,
{
    if e == 0 {
        1
    } else {
        let sub = pow10_exec(e - 1);
        proof {
            lemma_pow10_le((e - 1) as nat, 11);
            assert(pow10(11nat) == 100_000_000_000) by {
                reveal_with_fuel(pow10, 12);
            };
        }
        10 * sub
    }
}

fn len10_exec(n: u32) -> (r: u32)
    ensures
        r == len10(n as nat),
        1 <= r <= 10,
    decreases n,
{
    proof {
        assert(pow10(10nat) == 10_000_000_000) by {
            reveal_with_fuel(pow10, 11);
        };
        lemma_len10_le(n as nat, 10);
    }
    if n < 10 {
        1
    } else {
        1 + len10_exec(n / 10)
    }
}

/// Appends the decimal form of `n`, zero-padded to at least `width` digits,
/// to the end of `s`.
pub fn append_padded(s: &mut String, n: u32, width: u32)
    requires
        1 <= width <= 9,
    ensures
        final(s)@ == old(s)@ + padded(n as nat, width as nat),
{
    let ghost target = padded(n as nat, width as nat);
    let digits = len10_exec(n);
    let w = if digits > width {
        digits
    } else {
        width
    };
    assert(target.len() == w as nat);
    let mut i: u32 = 0;
    while i < w
        invariant
            i <= w,
            w <= 10,
            w as nat == target.len(),
            w as nat == if len10(n as nat) > width as nat {
                len10(n as nat)
            } else {
                width as nat
            },
            target == padded(n as nat, width as nat),
            s@ == old(s)@ + target.subrange(0, i as int),
        decreases w - i,
    {
        let p = pow10_exec(w - 1 - i);
        proof {
            assert(p > 0) by {
                lemma_pow10_le(0nat, (w - 1 - i) as nat);
                assert(pow10(0nat) == 1);
            };
        }
        let d = ((n as u64) / p % 10) as u8;
        assert(d as nat == (n as nat / pow10((w - 1 - i) as nat)) % 10);
        assert(target[i as int] == digit_char(d as nat));
        s.append(digit_str(d));
        proof {
            assert(s@ =~= old(s)@ + target.subrange(0, i + 1));
        }
        i += 1;
    }
    proof {
        assert(target.subrange(0, w as int) =~= target);
    }
}

/// A calendar date in the fixed local offset, written `YYYY-MM-DD`.
pub open spec fn date_chars(y: nat, m: nat, d: nat) -> Seq<char> {
    padded(y, 4) + seq!['-'] + padded(m, 2) + seq!['-'] + padded(d, 2)
}

/// A timestamp in the fixed local offset, written with millisecond
/// precision: `YYYY-MM-DDTHH:MM:SS.mmmZ`.
pub open spec fn timestamp_chars(
    y: nat,
    mo: nat,
    d: nat,
    h: nat,
    mi: nat,
    s: nat,
    ms: nat,
) -> Seq<char> {
    date_chars(y, mo, d) + seq!['T'] + padded(h, 2) + seq![':'] + padded(mi, 2) + seq![':']
        + padded(s, 2) + seq!['.'] + padded(ms, 3) + seq!['Z']
}

pub proof fn lemma_date_chars_shape(y: nat, m: nat, d: nat)
    requires
        y <= 9999,
        m <= 99,
        d <= 99,
    ensures
        date_chars(y, m, d).len() == 10,
        vstd::utf8::is_ascii_chars(date_chars(y, m, d)),
{
    assert(pow10(4nat) == 10000 && pow10(2nat) == 100) by {
        reveal_with_fuel(pow10, 5);
    };
    lemma_len10_le(y, 4);
    lemma_len10_le(m, 2);
    lemma_len10_le(d, 2);
    lemma_padded_digits(y, 4);
    lemma_padded_digits(m, 2);
    lemma_padded_digits(d, 2);
    assert forall|i: int| 0 <= i < date_chars(y, m, d).len() implies '\0' <= #[trigger] date_chars(
        y,
        m,
        d,
    )[i] <= '\u{7f}' by {
        let c = date_chars(y, m, d)[i];
        assert(c == '-' || '0' <= c <= '9');
    }
}

pub proof fn lemma_timestamp_chars_shape(y: nat, mo: nat, d: nat, h: nat, mi: nat, s: nat, ms: nat)
    requires
        y <= 9999,
        mo <= 99,
        d <= 99,
        h <= 99,
        mi <= 99,
        s <= 99,
        ms <= 999,
    ensures
        timestamp_chars(y, mo, d, h, mi, s, ms).len() == 24,
        timestamp_chars(y, mo, d, h, mi, s, ms).subrange(0, 10) == date_chars(y, mo, d),
        vstd::utf8::is_ascii_chars(timestamp_chars(y, mo, d, h, mi, s, ms)),
{
    assert(pow10(3nat) == 1000 && pow10(2nat) == 100) by {
        reveal_with_fuel(pow10, 4);
    };
    lemma_date_chars_shape(y, mo, d);
    lemma_len10_le(h, 2);
    lemma_len10_le(mi, 2);
    lemma_len10_le(s, 2);
    lemma_len10_le(ms, 3);
    lemma_padded_digits(h, 2);
    lemma_padded_digits(mi, 2);
    lemma_padded_digits(s, 2);
    lemma_padded_digits(ms, 3);
    let t = timestamp_chars(y, mo, d, h, mi, s, ms);
    assert(t.subrange(0, 10) =~= date_chars(y, mo, d));
    assert forall|i: int| 0 <= i < t.len() implies '\0' <= #[trigger] t[i] <= '\u{7f}' by {
        let c = t[i];
        assert(c == '-' || c == 'T' || c == ':' || c == '.' || c == 'Z' || '0' <= c <= '9');
    }
}

/// Formats a calendar date as `YYYY-MM-DD`.
pub fn format_date(y: u32, m: u32, d: u32) -> (r: String)
    ensures
        r@ == date_chars(y as nat, m as nat, d as nat),
{
    proof {
        reveal_strlit("-");
    }
    let mut s = String::new();
    append_padded(&mut s, y, 4);
    s.append("-");
    append_padded(&mut s, m, 2);
    s.append("-");
    append_padded(&mut s, d, 2);
    proof {
        assert(s@ =~= date_chars(y as nat, m as nat, d as nat));
    }
    s
}

/// Formats a timestamp as `YYYY-MM-DDTHH:MM:SS.mmmZ`.
pub fn format_timestamp(y: u32, mo: u32, d: u32, h: u32, mi: u32, sec: u32, ms: u32) -> (r: String)
    ensures
        r@ == timestamp_chars(
            y as nat,
            mo as nat,
            d as nat,
            h as nat,
            mi as nat,
            sec as nat,
            ms as nat,
        ),
{
    proof {
        reveal_strlit("T");
        reveal_strlit(":");
        reveal_strlit(".");
        reveal_strlit("Z");
    }
    let mut s = format_date(y, mo, d);
    s.append("T");
    append_padded(&mut s, h, 2);
    s.append(":");
    append_padded(&mut s, mi, 2);
    s.append(":");
    append_padded(&mut s, sec, 2);
    s.append(".");
    append_padded(&mut s, ms, 3);
    s.append("Z");
    proof {
        assert(s@ =~= timestamp_chars(
            y as nat,
            mo as nat,
            d as nat,
            h as nat,
            mi as nat,
            sec as nat,
            ms as nat,
        ));
    }
    s
}

/// Lexicographic order on character sequences by code point; on equal-length
/// ASCII digit strings such as `YYYY-MM-DD` dates it coincides with the byte
/// order the persistent store uses to compare them.
pub open spec fn lex_lt(a: Seq<char>, b: Seq<char>) -> bool
    decreases a.len(),
{
    if b.len() == 0 {
        false
    } else if a.len() == 0 {
        true
    } else if a[0] != b[0] {
        (a[0] as nat) < (b[0] as nat)
    } else {
        lex_lt(a.drop_first(), b.drop_first())
    }
}

/// Whether the first ten characters of `row` (the calendar date of a stored
/// timestamp) are strictly before the date `cutoff`.
pub fn date_prefix_lt(row: &str, cutoff: &str) -> (r: bool)
    requires
        row.is_ascii(),
        cutoff.is_ascii(),
        row@.len() >= 10,
        cutoff@.len() == 10,
    ensures
        r == lex_lt(row@.subrange(0, 10), cutoff@),
{
    let ghost a = row@.subrange(0, 10);
    let ghost b = cutoff@;
    proof {
        assert(a.skip(0) =~= a);
        assert(b.skip(0) =~= b);
    }
    let mut j: usize = 0;
    while j < 10
        invariant
            j <= 10,
            row.is_ascii(),
            cutoff.is_ascii(),
            row@.len() >= 10,
            cutoff@.len() == 10,
            a == row@.subrange(0, 10),
            b == cutoff@,
            forall|k: int| 0 <= k < j ==> a[k] == b[k],
            lex_lt(a, b) == lex_lt(a.skip(j as int), b.skip(j as int)),
        decreases 10 - j,
    {
        let ca = row.get_ascii(j);
        let cb = cutoff.get_ascii(j);
        proof {
            vstd::utf8::is_ascii_chars_nat_bound(row@);
            vstd::utf8::is_ascii_chars_nat_bound(cutoff@);
            assert(a[j as int] == row@[j as int]);
            assert((a[j as int] as nat) < 128 && (b[j as int] as nat) < 128);
        }
        if ca != cb {
            proof {
                assert(a[j as int] != b[j as int]);
                assert(lex_lt(a.skip(j as int), b.skip(j as int)) == ((a[j as int] as nat) < (
                b[j as int] as nat)));
                assert(((a[j as int] as nat) < (b[j as int] as nat)) == (ca < cb));
            }
            return ca < cb;
        }
        proof {
            assert(a[j as int] == b[j as int]);
            assert(a.skip(j as int).drop_first() =~= a.skip(j + 1));
            assert(b.skip(j as int).drop_first() =~= b.skip(j + 1));
        }
        j += 1;
    }
    proof {
        assert(a.skip(10) =~= Seq::<char>::empty());
        assert(b.skip(10) =~= Seq::<char>::empty());
    }
    false
}

/// Whether the first ten characters of `row` equal the date `day`.
pub fn date_prefix_eq(row: &str, day: &str) -> (r: bool)
    requires
        row.is_ascii(),
        day.is_ascii(),
        row@.len() >= 10,
        day@.len() == 10,
    ensures
        r == (row@.subrange(0, 10) == day@),
{
    let ghost a = row@.subrange(0, 10);
    let ghost b = day@;
    let mut j: usize = 0;
    while j < 10
        invariant
            j <= 10,
            row.is_ascii(),
            day.is_ascii(),
            row@.len() >= 10,
            day@.len() == 10,
            a == row@.subrange(0, 10),
            b == day@,
            forall|k: int| 0 <= k < j ==> a[k] == b[k],
        decreases 10 - j,
    {
        let ca = row.get_ascii(j);
        let cb = day.get_ascii(j);
        if ca != cb {
            proof {
                assert(a[j as int] != b[j as int]);
            }
            return false;
        }
        proof {
            vstd::utf8::is_ascii_chars_nat_bound(row@);
            vstd::utf8::is_ascii_chars_nat_bound(day@);
            assert(a[j as int] == row@[j as int]);
            assert((a[j as int] as nat) < 128 && (b[j as int] as nat) < 128);
            assert(a[j as int] == b[j as int]);
        }
        j += 1;
    }
    proof {
        assert(a =~= b);
    }
    true
}

/// The ticket code: the counter identifier followed by the sequence number,
/// zero-padded to three digits.
pub open spec fn code_chars(loket: Seq<char>, n: nat) -> Seq<char> {
    loket + padded(n, 3)
}

/// Shape of a ticket code: it starts with the counter identifier, everything
/// after it is a decimal digit character, and there are exactly three digits
/// whenever the sequence number is at most 999 — so a one-letter counter
/// gives codes like `A007`.
pub proof fn lemma_code_shape(loket: Seq<char>, n: nat)
    ensures
        code_chars(loket, n).subrange(0, loket.len() as int) == loket,
        forall|i: int|
            loket.len() <= i < code_chars(loket, n).len() ==> '0' <= #[trigger] code_chars(
                loket,
                n,
            )[i] <= '9',
        n <= 999 ==> code_chars(loket, n).len() == loket.len() + 3,
{
    lemma_padded_digits(n, 3);
    if n <= 999 {
        assert(pow10(3nat) == 1000) by {
            reveal_with_fuel(pow10, 4);
        };
        lemma_len10_le(n, 3);
    }
    assert(code_chars(loket, n).subrange(0, loket.len() as int) =~= loket);
    assert forall|i: int| loket.len() <= i < code_chars(loket, n).len() implies '0'
        <= #[trigger] code_chars(loket, n)[i] <= '9' by {
        assert(code_chars(loket, n)[i] == padded(n, 3)[i - loket.len()]);
    }
}

/// Formats a ticket code from a counter identifier and a sequence number.
pub fn make_queue_code(loket: &str, number: u32) -> (r: String)
    ensures
        r@ == code_chars(loket@, number as nat),
{
    let mut s = String::from_str(loket);
    append_padded(&mut s, number, 3);
    s
}

} // verus!
