//! Decimal numbers and lines, as they stand in the persisted state files.
//!
//! A state file is a sequence of bytes: one field per line, each line closed
//! by a line feed.

use vstd::prelude::*;

verus! {

/// The line feed that closes every line.
pub const LINE_FEED: u8 = 10;

/// The carriage return that may precede a line feed.
pub const CARRIAGE_RETURN: u8 = 13;

/// The minus sign.
pub const MINUS: u8 = 45;

/// The digit zero.
pub const ZERO: u8 = 48;

/// The byte is a decimal digit.
pub open spec fn is_digit(b: u8) -> bool {
    48 <= b <= 57
}

/// Every byte of the text is a decimal digit.
pub open spec fn all_digits(s: Seq<u8>) -> bool {
    forall|i: int| 0 <= i < s.len() ==> is_digit(#[trigger] s[i])
}

/// The number that a run of decimal digits denotes.
pub open spec fn digits_value(s: Seq<u8>) -> nat
    decreases s.len(),
{
    if s.len() == 0 {
        0
    } else {
        digits_value(s.drop_last()) * 10 + (s.last() - 48) as nat
    }
}

/// The decimal digits of a number, without leading zeros.
pub open spec fn nat_digits(n: nat) -> Seq<u8>
    decreases n,
{
    if n < 10 {
        seq![(48 + n) as u8]
    } else {
        nat_digits(n / 10).push((48 + n % 10) as u8)
    }
}

/// The decimal text of an integer: a minus sign for a negative one, then the
/// digits of its magnitude.
pub open spec fn int_text(n: int) -> Seq<u8> {
    if n < 0 {
        seq![45u8] + nat_digits((-n) as nat)
    } else {
        nat_digits(n as nat)
    }
}

/// The integer that a text denotes: an optional minus sign and at least one
/// digit.  Anything else denotes nothing.
pub open spec fn text_int(s: Seq<u8>) -> Option<int> {
    if s.len() > 0 && s[0] == 45u8 {
        if s.len() > 1 && all_digits(s.skip(1)) {
            Some(-(digits_value(s.skip(1)) as int))
        } else {
            None
        }
    } else if s.len() > 0 && all_digits(s) {
        Some(digits_value(s) as int)
    } else {
        None
    }
}

/// The natural number that a text of digits denotes.
pub open spec fn text_nat(s: Seq<u8>) -> Option<nat> {
    if s.len() > 0 && all_digits(s) {
        Some(digits_value(s))
    } else {
        None
    }
}

/// Length of the first line of a text, the line feed not counted.
pub open spec fn line_end(s: Seq<u8>) -> int
    decreases s.len(),
{
    if s.len() == 0 || s[0] == 10u8 {
        0
    } else {
        1 + line_end(s.skip(1))
    }
}

/// A line without the carriage return that may close it.
pub open spec fn trim_return(line: Seq<u8>) -> Seq<u8> {
    if line.len() > 0 && line.last() == 13u8 {
        line.drop_last()
    } else {
        line
    }
}

/// The first line of a text, without its line ending.
pub open spec fn first_line(s: Seq<u8>) -> Seq<u8> {
    trim_return(s.take(line_end(s)))
}

/// What follows the first line of a text and its line feed.
pub open spec fn after_line(s: Seq<u8>) -> Seq<u8> {
    if line_end(s) < s.len() {
        s.skip(line_end(s) + 1)
    } else {
        Seq::empty()
    }
}

/// A text that can stand as a line: it holds no line feed and does not end in
/// a carriage return.
pub open spec fn is_line(l: Seq<u8>) -> bool {
    &&& forall|i: int| 0 <= i < l.len() ==> #[trigger] l[i] != 10u8
    &&& trim_return(l) == l
}

/// The first line ends within the text, at the first line feed if there is
/// one.
pub proof fn lemma_line_end_bounds(s: Seq<u8>)
    ensures
        0 <= line_end(s) <= s.len(),
        line_end(s) < s.len() ==> s[line_end(s)] == 10u8,
        forall|i: int| 0 <= i < line_end(s) ==> #[trigger] s[i] != 10u8,
    decreases s.len(),
{
    if s.len() == 0 || s[0] == 10u8 {
    } else {
        let t = s.skip(1);
        lemma_line_end_bounds(t);
        assert forall|i: int| 0 <= i < line_end(s) implies #[trigger] s[i] != 10u8 by {
            if i > 0 {
                assert(s[i] == t[i - 1]);
            }
        }
        if line_end(s) < s.len() {
            assert(s[line_end(s)] == t[line_end(t)]);
        }
    }
}

/// A line followed by a line feed and more text splits back into the line and
/// that text.
pub proof fn lemma_split_line(l: Seq<u8>, rest: Seq<u8>)
    requires
        is_line(l),
    ensures
        first_line(l + seq![10u8] + rest) == l,
        after_line(l + seq![10u8] + rest) == rest,
{
    let s = l + seq![10u8] + rest;
    lemma_line_end_of(l, rest);
    assert(s.take(l.len() as int) =~= l);
    assert(s.skip(l.len() as int + 1) =~= rest);
}

proof fn lemma_line_end_of(l: Seq<u8>, rest: Seq<u8>)
    requires
        forall|i: int| 0 <= i < l.len() ==> #[trigger] l[i] != 10u8,
    ensures
        line_end(l + seq![10u8] + rest) == l.len(),
    decreases l.len(),
{
    let s = l + seq![10u8] + rest;
    if l.len() == 0 {
        assert(s[0] == 10u8);
    } else {
        assert(s[0] == l[0]);
        let l2 = l.skip(1);
        assert(s.skip(1) =~= l2 + seq![10u8] + rest);
        assert forall|i: int| 0 <= i < l2.len() implies #[trigger] l2[i] != 10u8 by {
            assert(l2[i] == l[i + 1]);
        }
        lemma_line_end_of(l2, rest);
    }
}

/// The digits of a number are digits, there is at least one of them, they
/// denote the number, and they can stand as a line.
pub proof fn lemma_nat_digits(n: nat)
    ensures
        nat_digits(n).len() >= 1,
        all_digits(nat_digits(n)),
        digits_value(nat_digits(n)) == n,
        is_line(nat_digits(n)),
    decreases n,
{
    if n < 10 {
        let s = nat_digits(n);
        assert(s =~= seq![(48 + n) as u8]);
        assert(s.drop_last() =~= Seq::<u8>::empty());
        assert(digits_value(s.drop_last()) == 0);
    } else {
        lemma_nat_digits(n / 10);
        let s = nat_digits(n / 10);
        let t = s.push((48 + n % 10) as u8);
        assert(t.drop_last() =~= s);
        assert(t.last() == (48 + n % 10) as u8);
        assert(nat_digits(n) == t);
    }
}

/// Writing an integer and reading the text back gives the integer again, and
/// the text can stand as a line.
pub proof fn lemma_int_text_round_trip(n: int)
    ensures
        text_int(int_text(n)) == Some(n),
        is_line(int_text(n)),
        n >= 0 ==> text_nat(int_text(n)) == Some(n as nat),
{
    if n < 0 {
        let m = (-n) as nat;
        lemma_nat_digits(m);
        let s = int_text(n);
        assert(s.skip(1) =~= nat_digits(m));
        assert(s[0] == 45u8);
        assert(s.last() == nat_digits(m).last());
    } else {
        lemma_nat_digits(n as nat);
        assert(is_digit(nat_digits(n as nat)[0]));
    }
}

proof fn lemma_digits_value_prefix(s: Seq<u8>, k: int)
    requires
        0 <= k <= s.len(),
        all_digits(s),
    ensures
        digits_value(s.take(k)) <= digits_value(s),
    decreases s.len(),
{
    if k == s.len() {
        assert(s.take(k) =~= s);
    } else {
        let t = s.drop_last();
        assert(t.take(k) =~= s.take(k));
        lemma_digits_value_prefix(t, k);
    }
}

/// Appends the decimal digits of `n` to `out`.
pub fn push_digits(n: u64, out: &mut Vec<u8>)
    ensures
        final(out)@ == old(out)@ + nat_digits(n as nat),
    decreases n,
{
    if n >= 10 {
        push_digits(n / 10, out);
    }
    let d: u8 = (n % 10) as u8 + 48;
    out.push(d);
    proof {
        if n >= 10 {
            assert(out@ =~= old(out)@ + nat_digits((n / 10) as nat).push(d));
        } else {
            assert(out@ =~= old(out)@ + seq![d]);
        }
    }
}

/// Appends the decimal text of `n` to `out`.
pub fn push_int(n: i64, out: &mut Vec<u8>)
    ensures
        final(out)@ == old(out)@ + int_text(n as int),
{
    if n < 0 {
        out.push(MINUS);
        let m: u64 = (-(n + 1)) as u64 + 1;
        push_digits(m, out);
        assert(out@ =~= old(out)@ + (seq![45u8] + nat_digits((-n) as nat)));
    } else {
        push_digits(n as u64, out);
    }
}

/// Reads a run of decimal digits.
pub fn parse_digits(s: &[u8]) -> (r: Option<u64>)
    ensures
        r == match text_nat(s@) {
            Some(v) => if v <= u64::MAX {
                Some(v as u64)
            } else {
                None
            },
            None => None,
        },
{
    if s.len() == 0 {
        return None;
    }
    let mut acc: u64 = 0;
    let mut i: usize = 0;
    while i < s.len()
        invariant
            0 <= i <= s.len(),
            all_digits(s@.take(i as int)),
            acc == digits_value(s@.take(i as int)),
        decreases s.len() - i,
    {
        let b = s[i];
        if b < 48 || b > 57 {
            assert(!is_digit(s@[i as int]));
            return None;
        }
        let d: u64 = (b - 48) as u64;
        proof {
            let t = s@.take(i + 1);
            assert(t.drop_last() =~= s@.take(i as int));
            assert(t.last() == b);
            assert forall|j: int| 0 <= j < t.len() implies is_digit(#[trigger] t[j]) by {
                if j < i {
                    assert(t[j] == s@.take(i as int)[j]);
                }
            }
            assert(digits_value(t) == acc * 10 + d);
        }
        if acc > (u64::MAX - d) / 10 {
            proof {
                if all_digits(s@) {
                    lemma_digits_value_prefix(s@, i + 1);
                }
            }
            return None;
        }
        acc = acc * 10 + d;
        i = i + 1;
    }
    assert(s@.take(i as int) =~= s@);
    Some(acc)
}

/// Reads the decimal text of an integer.
pub fn parse_int(s: &[u8]) -> (r: Option<i64>)
    ensures
        r == match text_int(s@) {
            Some(v) => if i64::MIN <= v <= i64::MAX {
                Some(v as i64)
            } else {
                None
            },
            None => None,
        },
{
    if s.len() > 0 && s[0] == MINUS {
        let tail = slice_from(s, 1);
        match parse_digits(tail) {
            Some(m) => {
                if m <= 0x7fff_ffff_ffff_ffff {
                    Some(-(m as i64))
                } else if m == 0x8000_0000_0000_0000 {
                    Some(i64::MIN)
                } else {
                    None
                }
            },
            None => None,
        }
    } else {
        match parse_digits(s) {
            Some(m) => {
                if m <= 0x7fff_ffff_ffff_ffff {
                    Some(m as i64)
                } else {
                    None
                }
            },
            None => None,
        }
    }
}

/// The part of a slice from index `from` on.
pub fn slice_from(s: &[u8], from: usize) -> (r: &[u8])
    requires
        from <= s@.len(),
    ensures
        r@ == s@.skip(from as int),
{
    let r = vstd::slice::slice_subrange(s, from, s.len());
    assert(r@ =~= s@.skip(from as int));
    r
}

/// Splits a text into its first line and what follows it.
pub fn split_line(s: &[u8]) -> (r: (&[u8], &[u8]))
    ensures
        r.0@ == first_line(s@),
        r.1@ == after_line(s@),
{
    let mut e: usize = 0;
    while e < s.len() && s[e] != LINE_FEED
        invariant
            0 <= e <= s.len(),
            forall|i: int| 0 <= i < e ==> #[trigger] s@[i] != 10u8,
        decreases s.len() - e,
    {
        e = e + 1;
    }
    proof {
        lemma_line_end_is(s@, e as int);
    }
    let raw = vstd::slice::slice_subrange(s, 0, e);
    assert(raw@ =~= s@.take(e as int));
    let line = if e > 0 && raw[e - 1] == CARRIAGE_RETURN {
        let l = vstd::slice::slice_subrange(raw, 0, e - 1);
        assert(l@ =~= raw@.drop_last());
        l
    } else {
        raw
    };
    let rest = if e < s.len() {
        slice_from(s, e + 1)
    } else {
        let l = vstd::slice::slice_subrange(s, 0, 0);
        assert(l@ =~= Seq::<u8>::empty());
        l
    };
    (line, rest)
}

proof fn lemma_line_end_is(s: Seq<u8>, e: int)
    requires
        0 <= e <= s.len(),
        forall|i: int| 0 <= i < e ==> #[trigger] s[i] != 10u8,
        e < s.len() ==> s[e] == 10u8,
    ensures
        line_end(s) == e,
{
    lemma_line_end_bounds(s);
    let k = line_end(s);
    if k < e {
        assert(s[k] != 10u8);
    }
}


/// A text of bytes, read as characters.
pub open spec fn as_chars(s: Seq<u8>) -> Seq<char> {
    Seq::new(s.len(), |i: int| s[i] as char)
}

/// The decimal digits of a number, as characters.
pub open spec fn number_chars(n: nat) -> Seq<char> {
    as_chars(nat_digits(n))
}

/// The digit `d` as a string.
pub fn digit_str(d: u8) -> (r: &'static str)
    requires
        d < 10,
    ensures
        r@ == seq![(48 + d) as u8 as char],
{
    proof {
        reveal_strlit("0");
        reveal_strlit("1");
        reveal_strlit("2");
        reveal_strlit("3");
        reveal_strlit("4");
        reveal_strlit("5");
        reveal_strlit("6");
        reveal_strlit("7");
        reveal_strlit("8");
        reveal_strlit("9");
    }
    let r = if d == 0 {
        "0"
    } else if d == 1 {
        "1"
    } else if d == 2 {
        "2"
    } else if d == 3 {
        "3"
    } else if d == 4 {
        "4"
    } else if d == 5 {
        "5"
    } else if d == 6 {
        "6"
    } else if d == 7 {
        "7"
    } else if d == 8 {
        "8"
    } else {
        "9"
    };
    assert(r@ =~= seq![(48 + d) as u8 as char]);
    r
}

/// Appends the decimal digits of `n` to a string.
pub fn push_number(n: u64, out: &mut String)
    ensures
        final(out)@ == old(out)@ + number_chars(n as nat),
    decreases n,
{
    if n >= 10 {
        push_number(n / 10, out);
    }
    let d: u8 = (n % 10) as u8;
    out.append(digit_str(d));
    proof {
        if n >= 10 {
            assert(out@ =~= old(out)@ + number_chars(n as nat));
        } else {
            assert(out@ =~= old(out)@ + number_chars(n as nat));
        }
    }
}


/// The decimal text of an integer, as characters.
pub open spec fn int_chars(n: int) -> Seq<char> {
    as_chars(int_text(n))
}

/// Appends the decimal text of `n` to a string.
pub fn push_signed(n: i64, out: &mut String)
    ensures
        final(out)@ == old(out)@ + int_chars(n as int),
{
    if n < 0 {
        proof {
            reveal_strlit("-");
        }
        out.append("-");
        let m: u64 = (-(n + 1)) as u64 + 1;
        push_number(m, out);
        assert(out@ =~= old(out)@ + int_chars(n as int));
    } else {
        push_number(n as u64, out);
        assert(out@ =~= old(out)@ + int_chars(n as int));
    }
}

} // verus!
