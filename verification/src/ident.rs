//! The text of the identifiers that the engine hands out.
//!
//! Orders, stop orders and trades are numbered from one by counters of their
//! own. The text of an identifier is the counter in decimal, right-aligned in
//! ten columns, behind a prefix and a dot.

use crate::numeric::pow10;
use vstd::prelude::*;
use vstd::string::StringExecFns;

verus! {

/// Columns that the number of an identifier is aligned in.
pub const ID_WIDTH: usize = 10;

/// The largest number that fits the columns of an identifier.
pub const MAX_ID: u64 = 9_999_999_999;

/// The character of one decimal digit.
pub open spec fn digit_char(d: int) -> char
    recommends
        0 <= d < 10,
{
    if d == 0 {
        '0'
    } else if d == 1 {
        '1'
    } else if d == 2 {
        '2'
    } else if d == 3 {
        '3'
    } else if d == 4 {
        '4'
    } else if d == 5 {
        '5'
    } else if d == 6 {
        '6'
    } else if d == 7 {
        '7'
    } else if d == 8 {
        '8'
    } else {
        '9'
    }
}

/// The decimal digits of a number, most significant first, without leading
/// zeros.
pub open spec fn decimal_digits(n: nat) -> Seq<char>
    decreases n,
{
    if n < 10 {
        seq![digit_char(n as int)]
    } else {
        decimal_digits(n / 10).push(digit_char((n % 10) as int))
    }
}

/// A run of spaces.
pub open spec fn spaces(k: nat) -> Seq<char> {
    Seq::new(k, |i: int| ' ')
}

/// A number in decimal, right-aligned in ten columns. A number of more than
/// ten digits is written out in full.
pub open spec fn padded_decimal(n: nat) -> Seq<char> {
    let d = decimal_digits(n);
    if d.len() >= ID_WIDTH {
        d
    } else {
        spaces((ID_WIDTH - d.len()) as nat) + d
    }
}

/// The text of a limit order's or a trade's identifier behind its gateway.
pub open spec fn gateway_id_text(n: nat) -> Seq<char> {
    "BACKTESTING"@ + "."@ + padded_decimal(n)
}

/// The text of a stop order's identifier.
pub open spec fn stop_id_text(n: nat) -> Seq<char> {
    "STOP"@ + "."@ + padded_decimal(n)
}

/// Digits given least significant first, as the characters of the number.
pub open spec fn digits_reversed(ds: Seq<u8>) -> Seq<char> {
    Seq::new(ds.len(), |i: int| digit_char(ds[ds.len() - 1 - i] as int))
}

fn digit_str(d: u8) -> (r: &'static str)
    requires
        d < 10,
    ensures
        r@ == seq![digit_char(d as int)],
{
    proof {
        reveal_strlit("0");
        reveal_strlit("1");
        reveal_strlit("2");
        reveal_strlit("3");
        reveal_strlit("4");
        reveal_strlit("5");
        reveal_strlit("6");
        reveal_strlit("7");
        reveal_strlit("8");
        reveal_strlit("9");
    }
    let r = if d == 0 {
        "0"
    } else if d == 1 {
        "1"
    } else if d == 2 {
        "2"
    } else if d == 3 {
        "3"
    } else if d == 4 {
        "4"
    } else if d == 5 {
        "5"
    } else if d == 6 {
        "6"
    } else if d == 7 {
        "7"
    } else if d == 8 {
        "8"
    } else {
        "9"
    };
    assert(r@ =~= seq![digit_char(d as int)]);
    r
}

/// The digits of `n`, least significant first.
fn digits_of(n: u64) -> (ds: Vec<u8>)
    ensures
        digits_reversed(ds@) == decimal_digits(n as nat),
        ds@.len() >= 1,
        forall|i: int| 0 <= i < ds@.len() ==> ds@[i] < 10,
{
    let mut ds: Vec<u8> = Vec::new();
    let mut m: u64 = n;
    while m >= 10
        invariant
            decimal_digits(n as nat) == decimal_digits(m as nat) + digits_reversed(ds@),
            forall|i: int| 0 <= i < ds@.len() ==> ds@[i] < 10,
        decreases m,
    {
        let d: u8 = (m % 10) as u8;
        proof {
            let old_ds = ds@;
            let new_ds = old_ds.push(d);
            assert(digits_reversed(new_ds) =~= seq![digit_char(d as int)] + digits_reversed(
                old_ds,
            ));
            assert(decimal_digits(m as nat) == decimal_digits((m / 10) as nat).push(
                digit_char(d as int),
            ));
            assert(decimal_digits((m / 10) as nat).push(digit_char(d as int)) + digits_reversed(
                old_ds,
            ) =~= decimal_digits((m / 10) as nat) + (seq![digit_char(d as int)]
                + digits_reversed(old_ds)));
        }
        ds.push(d);
        m = m / 10;
    }
    proof {
        let old_ds = ds@;
        let d: u8 = m as u8;
        assert(digits_reversed(old_ds.push(d)) =~= seq![digit_char(d as int)] + digits_reversed(
            old_ds,
        ));
        assert(decimal_digits(m as nat) =~= seq![digit_char(d as int)]);
    }
    ds.push(m as u8);
    ds
}

/// Writes a number in decimal, right-aligned in ten columns.
pub fn pad10(n: u64) -> (r: String)
    ensures
        r@ == padded_decimal(n as nat),
{
    let ds = digits_of(n);
    let mut out = String::new();
    let mut k: usize = ds.len();
    while k < ID_WIDTH
        invariant
            ds@.len() <= k,
            k <= ID_WIDTH || k == ds@.len(),
            out@ == spaces((k - ds@.len()) as nat),
        decreases ID_WIDTH - k,
    {
        proof {
            reveal_strlit(" ");
            assert(spaces((k - ds@.len()) as nat) + " "@ =~= spaces((k + 1 - ds@.len()) as nat));
        }
        out.append(" ");
        k = k + 1;
    }
    let ghost lead = out@;
    let mut i: usize = ds.len();
    while i > 0
        invariant
            i <= ds@.len(),
            forall|j: int| 0 <= j < ds@.len() ==> ds@[j] < 10,
            out@ == lead + digits_reversed(ds@).subrange(0, ds@.len() - i),
        decreases i,
    {
        i = i - 1;
        let piece = digit_str(ds[i]);
        proof {
            let all = digits_reversed(ds@);
            assert(all.subrange(0, ds@.len() - i) =~= all.subrange(0, ds@.len() - i - 1)
                + piece@);
            assert(lead + all.subrange(0, ds@.len() - i - 1) + piece@ =~= lead + all.subrange(
                0,
                ds@.len() - i,
            ));
        }
        out.append(piece);
    }
    proof {
        let all = digits_reversed(ds@);
        assert(all.subrange(0, ds@.len() as int) =~= all);
        assert(spaces(0) + all =~= all);
    }
    out
}

/// Writes a number in decimal.
pub fn decimal_string(n: u64) -> (r: String)
    ensures
        r@ == decimal_digits(n as nat),
{
    let ds = digits_of(n);
    let mut out = String::new();
    let mut i: usize = ds.len();
    proof {
        assert(digits_reversed(ds@).subrange(0, 0) =~= Seq::<char>::empty());
    }
    while i > 0
        invariant
            i <= ds@.len(),
            forall|j: int| 0 <= j < ds@.len() ==> ds@[j] < 10,
            out@ == digits_reversed(ds@).subrange(0, ds@.len() - i),
        decreases i,
    {
        i = i - 1;
        let piece = digit_str(ds[i]);
        proof {
            let all = digits_reversed(ds@);
            assert(all.subrange(0, ds@.len() - i) =~= all.subrange(0, ds@.len() - i - 1)
                + piece@);
        }
        out.append(piece);
    }
    proof {
        let all = digits_reversed(ds@);
        assert(all.subrange(0, ds@.len() as int) =~= all);
    }
    out
}

/// The text of a limit order's or a trade's identifier behind its gateway:
/// `BACKTESTING.` and the padded number.
pub fn gateway_id(n: u64) -> (r: String)
    ensures
        r@ == gateway_id_text(n as nat),
{
    let num = pad10(n);
    let mut out = String::from_str("BACKTESTING");
    out.append(".");
    out.append(num.as_str());
    out
}

/// The text of a stop order's identifier: `STOP.` and the padded number.
pub fn stop_id(n: u64) -> (r: String)
    ensures
        r@ == stop_id_text(n as nat),
{
    let num = pad10(n);
    let mut out = String::from_str("STOP");
    out.append(".");
    out.append(num.as_str());
    out
}

/// The order of texts: the first character in which two texts differ
/// decides, and a text is less than every text that it begins.
pub open spec fn lex_less(a: Seq<char>, b: Seq<char>) -> bool
    decreases a.len(),
{
    if b.len() == 0 {
        false
    } else if a.len() == 0 {
        true
    } else if a[0] != b[0] {
        (a[0] as u32) < (b[0] as u32)
    } else {
        lex_less(a.drop_first(), b.drop_first())
    }
}

/// A number written into `w` columns from the right, zero as blank
/// columns. It is the text of every positive number of at most `w` digits.
pub open spec fn column_text(n: nat, w: nat) -> Seq<char>
    decreases w,
{
    if w == 0 {
        Seq::empty()
    } else if n == 0 {
        spaces(w)
    } else {
        column_text(n / 10, (w - 1) as nat).push(digit_char((n % 10) as int))
    }
}

proof fn lemma_column_text_len(n: nat, w: nat)
    ensures
        column_text(n, w).len() == w,
    decreases w,
{
    if w > 0 && n > 0 {
        lemma_column_text_len(n / 10, (w - 1) as nat);
    }
}

/// The columns of a number are the columns of its tenth and one more
/// character: a blank for zero, else its last digit.
proof fn lemma_column_text_step(n: nat, w: nat)
    requires
        w > 0,
    ensures
        column_text(n, w) == column_text(n / 10, (w - 1) as nat).push(
            if n == 0 {
                ' '
            } else {
                digit_char((n % 10) as int)
            },
        ),
{
    if n == 0 {
        assert(column_text(0, (w - 1) as nat) =~= spaces((w - 1) as nat)) by {
            if w - 1 == 0 {
            }
        }
        assert(spaces(w) =~= spaces((w - 1) as nat).push(' '));
    }
}

proof fn lemma_lex_less_push_both(x: Seq<char>, y: Seq<char>, c: char, d: char)
    requires
        x.len() == y.len(),
        lex_less(x, y),
    ensures
        lex_less(x.push(c), y.push(d)),
    decreases x.len(),
{
    if x[0] == y[0] {
        lemma_lex_less_push_both(x.drop_first(), y.drop_first(), c, d);
        assert(x.push(c).drop_first() =~= x.drop_first().push(c));
        assert(y.push(d).drop_first() =~= y.drop_first().push(d));
    }
}

proof fn lemma_lex_less_last(x: Seq<char>, c: char, d: char)
    requires
        (c as u32) < (d as u32),
    ensures
        lex_less(x.push(c), x.push(d)),
    decreases x.len(),
{
    if x.len() > 0 {
        lemma_lex_less_last(x.drop_first(), c, d);
        assert(x.push(c).drop_first() =~= x.drop_first().push(c));
        assert(x.push(d).drop_first() =~= x.drop_first().push(d));
    }
}

/// A text behind a prefix keeps its order.
pub proof fn lemma_lex_less_prefixed(p: Seq<char>, x: Seq<char>, y: Seq<char>)
    requires
        lex_less(x, y),
    ensures
        lex_less(p + x, p + y),
    decreases p.len(),
{
    if p.len() == 0 {
        assert(p + x =~= x);
        assert(p + y =~= y);
    } else {
        lemma_lex_less_prefixed(p.drop_first(), x, y);
        assert((p + x).drop_first() =~= p.drop_first() + x);
        assert((p + y).drop_first() =~= p.drop_first() + y);
    }
}

/// No text is less than itself.
pub proof fn lemma_lex_less_irreflexive(x: Seq<char>)
    ensures
        !lex_less(x, x),
    decreases x.len(),
{
    if x.len() > 0 {
        lemma_lex_less_irreflexive(x.drop_first());
    }
}

/// Written into the same columns, the smaller of two numbers is the lesser
/// text.
proof fn lemma_column_text_ordered(a: nat, b: nat, w: nat)
    requires
        a < b < pow10(w),
    ensures
        lex_less(column_text(a, w), column_text(b, w)),
    decreases w,
{
    if w == 0 {
    } else {
        let v = (w - 1) as nat;
        lemma_column_text_step(a, w);
        lemma_column_text_step(b, w);
        let ca = if a == 0 {
            ' '
        } else {
            digit_char((a % 10) as int)
        };
        let cb = digit_char((b % 10) as int);
        assert(b / 10 < pow10(v));
        if a / 10 < b / 10 {
            lemma_column_text_ordered(a / 10, b / 10, v);
            lemma_column_text_len(a / 10, v);
            lemma_column_text_len(b / 10, v);
            lemma_lex_less_push_both(column_text(a / 10, v), column_text(b / 10, v), ca, cb);
        } else {
            assert(a / 10 == b / 10);
            assert(a % 10 < b % 10);
            lemma_lex_less_last(column_text(a / 10, v), ca, cb);
        }
    }
}

/// A positive number of at most `w` digits, written into its columns, is
/// its digits behind blanks.
proof fn lemma_column_text_is_padded(n: nat, w: nat)
    requires
        0 < n < pow10(w),
    ensures
        decimal_digits(n).len() <= w,
        column_text(n, w) == spaces((w - decimal_digits(n).len()) as nat) + decimal_digits(n),
    decreases w,
{
    if w == 0 {
    } else {
        let v = (w - 1) as nat;
        let d = digit_char((n % 10) as int);
        if n < 10 {
            assert(column_text(0, v) =~= spaces(v)) by {
                if v == 0 {
                }
            }
            assert(spaces(v).push(d) =~= spaces(v) + seq![d]);
        } else {
            assert(n / 10 < pow10(v));
            lemma_column_text_is_padded(n / 10, v);
            let head = decimal_digits(n / 10);
            assert((spaces((v - head.len()) as nat) + head).push(d) =~= spaces(
                (w - head.push(d).len()) as nat,
            ) + head.push(d));
        }
    }
}

/// The padded text of a positive number of at most ten digits is the
/// number written into ten columns.
proof fn lemma_padded_is_column_text(n: nat)
    requires
        0 < n <= MAX_ID,
    ensures
        padded_decimal(n) == column_text(n, 10),
{
    lemma_pow10_of_ten();
    lemma_column_text_is_padded(n, 10);
    if decimal_digits(n).len() == 10 {
        assert(spaces(0) + decimal_digits(n) =~= decimal_digits(n));
    }
}

proof fn lemma_pow10_of_ten()
    ensures
        pow10(10) == 10_000_000_000,
{
    reveal_with_fuel(pow10, 11);
}

/// The identifiers rise with their numbers: of two numbers from one to
/// `MAX_ID` the smaller has the lesser padded text, and so the lesser
/// identifier behind either prefix.
pub proof fn lemma_ids_rise(a: nat, b: nat)
    requires
        0 < a < b <= MAX_ID,
    ensures
        lex_less(padded_decimal(a), padded_decimal(b)),
        lex_less(gateway_id_text(a), gateway_id_text(b)),
        lex_less(stop_id_text(a), stop_id_text(b)),
{
    lemma_pow10_of_ten();
    lemma_padded_is_column_text(a);
    lemma_padded_is_column_text(b);
    lemma_column_text_ordered(a, b, 10);
    lemma_lex_less_prefixed("BACKTESTING"@ + "."@, padded_decimal(a), padded_decimal(b));
    lemma_lex_less_prefixed("STOP"@ + "."@, padded_decimal(a), padded_decimal(b));
}

/// Two numbers from one to `MAX_ID` that differ have identifiers that
/// differ.
pub proof fn lemma_ids_differ(a: nat, b: nat)
    requires
        0 < a <= MAX_ID,
        0 < b <= MAX_ID,
        a != b,
    ensures
        gateway_id_text(a) != gateway_id_text(b),
        stop_id_text(a) != stop_id_text(b),
{
    if a < b {
        lemma_ids_rise(a, b);
    } else {
        lemma_ids_rise(b, a);
    }
    lemma_lex_less_irreflexive(gateway_id_text(a));
    lemma_lex_less_irreflexive(stop_id_text(a));
}

} // verus!
