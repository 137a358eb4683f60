//! Text helpers: decimal numbers and cell labels such as `e4`.

use vstd::prelude::*;
use vstd::string::StrSliceExecFns;

verus! {

pub open spec fn digit_char(d: nat) -> char {
    ((48 + d) as u8) as char
}

pub open spec fn is_digit(c: char) -> bool {
    '0' <= c && c <= '9'
}

pub open spec fn digit_value(c: char) -> nat {
    (c as int - 48) as nat
}

/// The decimal digits of `n`, without leading zeros.
pub open spec fn decimal(n: nat) -> Seq<char>
    decreases n,
{
    if n < 10 {
        seq![digit_char(n)]
    } else {
        decimal(n / 10).push(digit_char(n % 10))
    }
}

/// The number that a string of decimal digits spells.
pub open spec fn digits_value(t: Seq<char>) -> nat
    decreases t.len(),
{
    if t.len() == 0 {
        0
    } else {
        digits_value(t.drop_last()) * 10 + digit_value(t.last())
    }
}

pub open spec fn all_digits(t: Seq<char>) -> bool {
    forall|i: int| 0 <= i < t.len() ==> is_digit(#[trigger] t[i])
}

/// An unsigned number as `usize`'s `FromStr` reads it: an optional `+`,
/// then at least one decimal digit, with a value that fits in `usize`.
pub open spec fn parse_unsigned(t: Seq<char>) -> Option<nat> {
    let body = if t.len() > 0 && t[0] == '+' {
        t.subrange(1, t.len() as int)
    } else {
        t
    };
    if body.len() > 0 && all_digits(body) && digits_value(body) <= usize::MAX {
        Some(digits_value(body))
    } else {
        None
    }
}

/// Relies on `String::push`: appends one character.
#[verifier::external_body]
pub(crate) fn push_char(s: &mut String, c: char)
    ensures
        final(s)@ == old(s)@.push(c),
{
    s.push(c);
}

fn digit(d: usize) -> (c: char)
    requires
        d < 10,
    ensures
        c == digit_char(d as nat),
{
    (48u8 + d as u8) as char
}

/// Appends the decimal digits of `n` to `s`.
pub fn push_decimal(s: &mut String, n: usize)
    ensures
        final(s)@ == old(s)@ + decimal(n as nat),
    decreases n,
{
    if n >= 10 {
        push_decimal(s, n / 10);
    }
    push_char(s, digit(n % 10));
    assert(s@ =~= old(s)@ + decimal(n as nat));
}

proof fn lemma_digits_push(t: Seq<char>, c: char)
    ensures
        digits_value(t.push(c)) == digits_value(t) * 10 + digit_value(c),
{
    assert(t.push(c).drop_last() =~= t);
}

/// Reading back the digits of `n` gives `n`.
pub proof fn lemma_decimal_round_trip(n: nat)
    ensures
        decimal(n).len() > 0,
        all_digits(decimal(n)),
        digits_value(decimal(n)) == n,
        decimal(n)[0] != '+',
    decreases n,
{
    if n < 10 {
        assert(digits_value(decimal(n)) == digits_value(decimal(n).drop_last()) * 10 + digit_value(decimal(n).last()));
        assert(decimal(n).drop_last() =~= Seq::<char>::empty());
    } else {
        lemma_decimal_round_trip(n / 10);
        lemma_digits_push(decimal(n / 10), digit_char(n % 10));
        assert forall|i: int| 0 <= i < decimal(n).len() implies is_digit(#[trigger] decimal(n)[i]) by {
            if i < decimal(n / 10).len() {
                assert(decimal(n)[i] == decimal(n / 10)[i]);
            }
        }
    }
}

/// Reads an unsigned number from `t[from..]`, as `parse_unsigned` defines.
pub fn parse_unsigned_from(t: &str, from: usize) -> (r: Option<usize>)
    requires
        from <= t@.len(),
    ensures
        r matches Some(v) ==> parse_unsigned(t@.subrange(from as int, t@.len() as int)) == Some(v as nat),
        r is None ==> parse_unsigned(t@.subrange(from as int, t@.len() as int)) is None,
{
    let len = t.unicode_len();
    let ghost whole = t@.subrange(from as int, len as int);
    let mut i = from;
    if i < len && t.get_char(i) == '+' {
        i = i + 1;
    }
    let start = i;
    let ghost body = t@.subrange(start as int, len as int);
    assert(body =~= if whole.len() > 0 && whole[0] == '+' {
        whole.subrange(1, whole.len() as int)
    } else {
        whole
    });
    if start == len {
        return None;
    }
    let mut value: usize = 0;
    assert(t@.subrange(start as int, start as int) =~= Seq::<char>::empty());
    while i < len
        invariant
            start <= i <= len,
            len == t@.len(),
            start < len,
            whole == t@.subrange(from as int, len as int),
            body == t@.subrange(start as int, len as int),
            body == (if whole.len() > 0 && whole[0] == '+' {
                whole.subrange(1, whole.len() as int)
            } else {
                whole
            }),
            all_digits(t@.subrange(start as int, i as int)),
            value == digits_value(t@.subrange(start as int, i as int)),
        decreases len - i,
    {
        let c = t.get_char(i);
        let ghost pre = t@.subrange(start as int, i as int);
        assert(t@.subrange(start as int, i as int + 1) =~= pre.push(c));
        proof {
            lemma_digits_push(pre, c);
        }
        if c < '0' || c > '9' {
            assert(!is_digit(body[i - start]));
            return None;
        }
        let d = (c as u32 - 48) as usize;
        if value > (usize::MAX - d) / 10 {
            proof {
                lemma_digits_grow(body, (i - start + 1) as nat);
                assert(body.take((i - start + 1) as int) =~= pre.push(c));
                assert(digits_value(pre.push(c)) > usize::MAX) by (nonlinear_arith)
                    requires
                        digits_value(pre.push(c)) == value * 10 + d,
                        value > (usize::MAX - d) / 10,
                        d < 10,
                ;
            }
            return None;
        }
        value = value * 10 + d;
        i = i + 1;
    }
    assert(t@.subrange(start as int, len as int) =~= body);
    Some(value)
}

/// A prefix's value never exceeds the whole digit string's value.
proof fn lemma_digits_grow(t: Seq<char>, k: nat)
    requires
        k <= t.len(),
    ensures
        digits_value(t.take(k as int)) <= digits_value(t),
    decreases t.len() - k,
{
    if k < t.len() {
        lemma_digits_grow(t, k + 1);
        assert(t.take(k as int + 1).drop_last() =~= t.take(k as int));
    } else {
        assert(t.take(k as int) =~= t);
    }
}

/// Whether `c` has the Unicode `White_Space` property, as
/// `char::is_whitespace` tests.
pub open spec fn is_whitespace(c: char) -> bool {
    let u = c as u32;
    ||| 0x9 <= u && u <= 0xd
    ||| u == 0x20
    ||| u == 0x85
    ||| u == 0xa0
    ||| u == 0x1680
    ||| 0x2000 <= u && u <= 0x200a
    ||| u == 0x2028
    ||| u == 0x2029
    ||| u == 0x202f
    ||| u == 0x205f
    ||| u == 0x3000
}

pub open spec fn trim_start(s: Seq<char>) -> Seq<char>
    decreases s.len(),
{
    if s.len() > 0 && is_whitespace(s[0]) {
        trim_start(s.drop_first())
    } else {
        s
    }
}

pub open spec fn trim_end(s: Seq<char>) -> Seq<char>
    decreases s.len(),
{
    if s.len() > 0 && is_whitespace(s.last()) {
        trim_end(s.drop_last())
    } else {
        s
    }
}

/// The string without its leading and trailing whitespace.
pub open spec fn trim_of(s: Seq<char>) -> Seq<char> {
    trim_end(trim_start(s))
}

/// Relies on `str::trim`: the string with leading and trailing whitespace
/// (characters for which `char::is_whitespace` holds) removed.
#[verifier::external_body]
pub(crate) fn trimmed(s: &str) -> (r: &str)
    ensures
        r@ == trim_of(s@),
{
    s.trim()
}

/// What `str::to_lowercase` returns for a string.
pub uninterp spec fn lower_of(s: Seq<char>) -> Seq<char>;

/// Relies on `str::to_lowercase`: the lowercase equivalent of the string,
/// a function of the characters alone.
#[verifier::external_body]
pub(crate) fn lowercase(s: &str) -> (r: String)
    ensures
        r@ == lower_of(s@),
{
    s.to_lowercase()
}

/// The file letter of column `col`: `a` for 0.
pub open spec fn file_char(col: nat) -> char {
    ((97 + col) as u8) as char
}

/// The label of a cell: its file letter, then its one-based rank.
pub open spec fn algebraic(row: nat, col: nat) -> Seq<char> {
    seq![file_char(col)] + decimal(row + 1)
}

/// The cell that a trimmed, lowercased label names: a letter `a`..`z` for
/// the column, then a rank from 1.
pub open spec fn parse_label(t: Seq<char>) -> Option<(nat, nat)> {
    if t.len() == 0 {
        None
    } else {
        match parse_unsigned(t.subrange(1, t.len() as int)) {
            Some(rank) => if 'a' <= t[0] && t[0] <= 'z' && rank > 0 {
                Some(((rank - 1) as nat, (t[0] as int - 97) as nat))
            } else {
                None
            },
            None => None,
        }
    }
}

/// Reading a label back gives the cell it was made from.
pub proof fn lemma_label_round_trip(row: nat, col: nat)
    requires
        row < 16,
        col < 26,
    ensures
        parse_label(algebraic(row, col)) == Some((row, col)),
{
    let t = algebraic(row, col);
    lemma_decimal_round_trip(row + 1);
    assert(t.subrange(1, t.len() as int) =~= decimal(row + 1));
    assert(t[0] == file_char(col));
    assert((file_char(col) as int) == 97 + col);
}

/// Different cells have different labels.
pub proof fn lemma_label_injective(r1: nat, c1: nat, r2: nat, c2: nat)
    requires
        r1 < 16,
        c1 < 26,
        r2 < 16,
        c2 < 26,
        algebraic(r1, c1) == algebraic(r2, c2),
    ensures
        r1 == r2 && c1 == c2,
{
    lemma_label_round_trip(r1, c1);
    lemma_label_round_trip(r2, c2);
}

} // verus!
