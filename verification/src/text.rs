//! Decimal rendering and parsing, character collection, and small string
//! builders shared by the CSV, manifest, and SQL writers.

use vstd::prelude::*;

verus! {

/// The ASCII digit for `d` (0 through 9).
pub open spec fn digit_char(d: nat) -> char {
    if d == 0 { '0' }
    else if d == 1 { '1' }
    else if d == 2 { '2' }
    else if d == 3 { '3' }
    else if d == 4 { '4' }
    else if d == 5 { '5' }
    else if d == 6 { '6' }
    else if d == 7 { '7' }
    else if d == 8 { '8' }
    else { '9' }
}

/// An ASCII decimal digit.
pub open spec fn is_digit(c: char) -> bool {
    '0' <= c && c <= '9'
}

/// The value of a decimal digit.
pub open spec fn digit_value(c: char) -> nat {
    ((c as u32) - ('0' as u32)) as nat
}

/// Canonical decimal text of a natural number (no sign, no leading zeros).
pub open spec fn dec_nat(n: nat) -> Seq<char>
    decreases n,
{
    if n < 10 {
        seq![digit_char(n)]
    } else {
        dec_nat(n / 10).push(digit_char(n % 10))
    }
}

/// Canonical decimal text of an integer, as `to_string` renders it.
pub open spec fn dec_int(i: int) -> Seq<char> {
    if i < 0 {
        seq!['-'] + dec_nat((-i) as nat)
    } else {
        dec_nat(i as nat)
    }
}

/// Value of a nonempty run of ASCII digits (leading zeros allowed).
pub open spec fn digits_value(s: Seq<char>) -> nat
    decreases s.len(),
{
    if s.len() == 0 {
        0
    } else {
        digits_value(s.drop_last()) * 10 + digit_value(s.last())
    }
}

/// Every character is a decimal digit.
/// ASCII lower-casing, the comparison a case-insensitive file system makes.
pub open spec fn ascii_lowercase(s: Seq<char>) -> Seq<char> {
    s.map_values(|c: char| if 'A' <= c && c <= 'Z' { ((c as u32) + 32) as char } else { c })
}

pub open spec fn all_digits(s: Seq<char>) -> bool {
    forall|i: int| 0 <= i < s.len() ==> is_digit(#[trigger] s[i])
}

/// What `str::parse` of an unsigned integer reads: an optional `+` and at
/// least one digit. Range checks are applied by the caller.
pub open spec fn unsigned_literal_value(s: Seq<char>) -> Option<nat> {
    let body = if s.len() > 0 && s[0] == '+' { s.drop_first() } else { s };
    if body.len() > 0 && all_digits(body) {
        Some(digits_value(body))
    } else {
        None
    }
}

/// What `str::parse` of a signed integer reads: an optional sign and at
/// least one digit.
pub open spec fn signed_literal_value(s: Seq<char>) -> Option<int> {
    if s.len() > 0 && s[0] == '-' {
        let body = s.drop_first();
        if body.len() > 0 && all_digits(body) {
            Some(-(digits_value(body) as int))
        } else {
            None
        }
    } else {
        match unsigned_literal_value(s) {
            Some(v) => Some(v as int),
            None => None,
        }
    }
}

/// The digit character of `d` reads back as `d`.
pub proof fn lemma_digit_char(d: nat)
    requires
        d < 10,
    ensures
        is_digit(digit_char(d)),
        digit_value(digit_char(d)) == d,
        digit_char(d) != '-',
        digit_char(d) != '+',
        digit_char(d) != ',',
        digit_char(d) != '\n',
        digit_char(d) != '\t',
{
}

/// Decimal text is a nonempty run of digits, without a leading zero, whose value is the number.
pub proof fn lemma_dec_nat(n: nat)
    ensures
        dec_nat(n).len() > 0,
        all_digits(dec_nat(n)),
        digits_value(dec_nat(n)) == n,
        dec_nat(n)[0] != '0' || n == 0,
        dec_nat(n).len() == 1 || dec_nat(n)[0] != '0',
    decreases n,
{
    lemma_digit_char(n % 10);
    if n >= 10 {
        lemma_dec_nat(n / 10);
        let s = dec_nat(n);
        assert(s.drop_last() == dec_nat(n / 10));
        assert(s.last() == digit_char(n % 10));
        assert(n == (n / 10) * 10 + n % 10);
        assert forall|i: int| 0 <= i < s.len() implies is_digit(#[trigger] s[i]) by {
            if i < s.len() - 1 {
                assert(s[i] == dec_nat(n / 10)[i]);
            }
        }
        assert(digits_value(s) == digits_value(s.drop_last()) * 10 + digit_value(s.last()));
        assert(digits_value(s.drop_last()) == n / 10);
        assert(digit_value(s.last()) == n % 10);
    } else {
        assert(dec_nat(n).drop_last() =~= Seq::<char>::empty());
        assert(digits_value(Seq::<char>::empty()) == 0);
        assert(dec_nat(n).last() == digit_char(n));
        assert(digit_value(digit_char(n)) == n);
        assert(digits_value(dec_nat(n)) == digits_value(dec_nat(n).drop_last()) * 10 + digit_value(dec_nat(n).last()));
    }
}

/// Rendered integers contain only a sign and digits.
pub proof fn lemma_dec_int_chars(i: int)
    ensures
        dec_int(i).len() > 0,
        forall|k: int|
            0 <= k < dec_int(i).len() ==> {
                let c = #[trigger] dec_int(i)[k];
                c != ',' && c != '\n' && c != '\t' && c != '\r' && c != '\0' && c != '/'
                    && c != '\\' && c != '"'
            },
{
    if i < 0 {
        lemma_dec_nat((-i) as nat);
    } else {
        lemma_dec_nat(i as nat);
    }
}

/// Signed decimal text reads back as its value.
pub proof fn lemma_signed_literal_of_dec(i: int)
    ensures
        signed_literal_value(dec_int(i)) == Some(i),
{
    if i < 0 {
        lemma_dec_nat((-i) as nat);
        assert((seq!['-'] + dec_nat((-i) as nat)).drop_first() == dec_nat((-i) as nat));
    } else {
        lemma_dec_nat(i as nat);
    }
}

/// Decimal text reads back as its value.
pub proof fn lemma_unsigned_literal_of_dec(n: nat)
    ensures
        unsigned_literal_value(dec_nat(n)) == Some(n),
{
    lemma_dec_nat(n);
}

/// Appends one character to a `String`.
#[verifier::external_body]
pub(crate) fn push_char(s: &mut String, c: char)
    ensures
        final(s)@ == old(s)@.push(c),
{
    s.push(c);
}

fn digit_of(d: u64) -> (c: char)
    requires
        d < 10,
    ensures
        c == digit_char(d as nat),
{
    if d == 0 { '0' }
    else if d == 1 { '1' }
    else if d == 2 { '2' }
    else if d == 3 { '3' }
    else if d == 4 { '4' }
    else if d == 5 { '5' }
    else if d == 6 { '6' }
    else if d == 7 { '7' }
    else if d == 8 { '8' }
    else { '9' }
}

/// Appends the canonical decimal text of `n`.
pub fn push_u64(out: &mut String, n: u64)
    ensures
        final(out)@ == old(out)@ + dec_nat(n as nat),
    decreases n,
{
    if n >= 10 {
        push_u64(out, n / 10);
    }
    push_char(out, digit_of(n % 10));
    proof {
        if n >= 10 {
            assert(dec_nat(n as nat) == dec_nat((n / 10) as nat).push(digit_char((n % 10) as nat)));
        }
    }
}

/// Appends the canonical decimal text of `v`.
pub fn push_i64(out: &mut String, v: i64)
    ensures
        final(out)@ == old(out)@ + dec_int(v as int),
{
    if v < 0 {
        push_char(out, '-');
        let magnitude: u64 = if v == i64::MIN { 9223372036854775808u64 } else { (-v) as u64 };
        push_u64(out, magnitude);
        assert(old(out)@.push('-') + dec_nat(magnitude as nat) == old(out)@ + (seq!['-'] + dec_nat((-v) as nat)));
    } else {
        push_u64(out, v as u64);
    }
}

/// Appends the canonical decimal text of `n`.
pub fn push_u128(out: &mut String, n: u128)
    ensures
        final(out)@ == old(out)@ + dec_nat(n as nat),
    decreases n,
{
    if n >= 10 {
        push_u128(out, n / 10);
    }
    push_char(out, digit_of((n % 10) as u64));
    proof {
        if n >= 10 {
            assert(dec_nat(n as nat) == dec_nat((n / 10) as nat).push(digit_char((n % 10) as nat)));
        }
    }
}

/// The items of a row as `Debug` lists them: decimals joined by `, `.
pub open spec fn list_items(row: Seq<i32>) -> Seq<char>
    decreases row.len(),
{
    if row.len() == 0 {
        Seq::empty()
    } else if row.len() == 1 {
        dec_int(row[0] as int)
    } else {
        list_items(row.drop_last()) + ", "@ + dec_int(row.last() as int)
    }
}

/// A row as `Debug` writes a `Vec<i32>`.
pub open spec fn debug_row(row: Seq<i32>) -> Seq<char> {
    "["@ + list_items(row) + "]"@
}

/// Appends a row as `Debug` writes a `Vec<i32>`.
pub fn push_debug_row(out: &mut String, row: &Vec<i32>)
    ensures
        final(out)@ == old(out)@ + debug_row(row@),
{
    let ghost start = out@;
    push_str(out, "[");
    assert(out@ =~= start + "["@ + list_items(row@.take(0)));
    for i in 0..row.len()
        invariant
            out@ == start + "["@ + list_items(row@.take(i as int)),
    {
        let ghost before = out@;
        if i > 0 {
            push_str(out, ", ");
        }
        push_i64(out, row[i] as i64);
        proof {
            let t = row@.take(i + 1);
            assert(t.drop_last() =~= row@.take(i as int));
            assert(t.last() == row@[i as int]);
            if i == 0 {
                assert(list_items(t) == dec_int(row@[0] as int));
            }
            assert(out@ =~= start + "["@ + list_items(t));
        }
    }
    push_str(out, "]");
    assert(row@.take(row@.len() as int) =~= row@);
    assert(out@ =~= start + debug_row(row@));
}

/// The decimal text of `n` as a new `String`.
pub fn u64_text(n: u64) -> (r: String)
    ensures
        r@ == dec_nat(n as nat),
{
    let mut s = String::new();
    push_u64(&mut s, n);
    assert(s@ == Seq::<char>::empty() + dec_nat(n as nat));
    s
}

/// Appends a string slice.
pub fn push_str(out: &mut String, s: &str)
    ensures
        final(out)@ == old(out)@ + s@,
{
    out.append(s);
}

/// Collects the characters of `s`.
pub fn chars_of(s: &str) -> (r: Vec<char>)
    ensures
        r@ == s@,
{
    broadcast use vstd::string::group_string_axioms;
    let mut out: Vec<char> = Vec::new();
    for c in it: s.chars()
        invariant
            it.seq() == s@,
            out@ == it.seq().take(it.index() as int),
    {
        out.push(c);
        assert(out@ == it.seq().take(it.index() + 1));
    }
    out
}


/// Whether two character vectors are equal.
pub fn chars_equal(a: &Vec<char>, b: &Vec<char>) -> (r: bool)
    ensures
        r == (a@ == b@),
{
    if a.len() != b.len() {
        return false;
    }
    for i in 0..a.len()
        invariant
            a@.len() == b@.len(),
            forall|k: int| 0 <= k < i ==> a@[k] == b@[k],
    {
        if a[i] != b[i] {
            return false;
        }
    }
    assert(a@ =~= b@);
    true
}

/// Whether `a` holds the characters of `b`.
pub fn chars_equal_str(a: &Vec<char>, b: &str) -> (r: bool)
    ensures
        r == (a@ == b@),
{
    let bc = chars_of(b);
    chars_equal(a, &bc)
}

/// How a decimal field reads.
#[derive(Clone, Copy, Debug, PartialEq, Eq, Structural)]
pub enum Decimal<T> {
    /// `str::parse` rejects the field (bad syntax or out of range).
    Invalid,
    /// The field parses, but `to_string` would write the value differently.
    NonCanonical,
    /// The field is the canonical text of this value.
    Value(T),
}

fn is_digit_char(c: char) -> (b: bool)
    ensures
        b == is_digit(c),
{
    '0' <= c && c <= '9'
}

fn digit_to_u64(c: char) -> (d: u64)
    requires
        is_digit(c),
    ensures
        d == digit_value(c),
        d < 10,
{
    (c as u32 - '0' as u32) as u64
}

proof fn lemma_digits_value_push(s: Seq<char>, c: char)
    ensures
        digits_value(s.push(c)) == digits_value(s) * 10 + digit_value(c),
{
    assert(s.push(c).drop_last() == s);
}

proof fn lemma_digits_value_monotone(s: Seq<char>, t: Seq<char>)
    requires
        all_digits(s + t),
    ensures
        digits_value(s + t) >= digits_value(s),
    decreases t.len(),
{
    if t.len() > 0 {
        assert((s + t).drop_last() == s + t.drop_last());
        assert(all_digits(s + t.drop_last())) by {
            assert forall|i: int| 0 <= i < (s + t.drop_last()).len() implies is_digit(#[trigger] (s + t.drop_last())[i]) by {
                assert((s + t.drop_last())[i] == (s + t)[i]);
            }
        }
        lemma_digits_value_monotone(s, t.drop_last());
    } else {
        assert(s + t == s);
    }
}

/// Reads a run of digits starting at `start`, saturating above `max`.
/// Returns `None` when the run is empty, holds a non-digit, or exceeds `max`.
fn digits_at_most(s: &Vec<char>, start: usize, max: u64) -> (r: Option<u64>)
    requires
        start <= s@.len(),
    ensures
        match r {
            Some(v) => s@.skip(start as int).len() > 0 && all_digits(s@.skip(start as int))
                && v == digits_value(s@.skip(start as int)) && v <= max,
            None => !(s@.skip(start as int).len() > 0 && all_digits(s@.skip(start as int))
                && digits_value(s@.skip(start as int)) <= max),
        },
{
    let ghost body = s@.skip(start as int);
    if start >= s.len() {
        return None;
    }
    let mut value: u64 = 0;
    let mut over = false;
    let mut i = start;
    assert(body.take(0) =~= Seq::<char>::empty());
    while i < s.len()
        invariant
            start <= i <= s@.len(),
            body == s@.skip(start as int),
            all_digits(body.take(i - start)),
            !over ==> value == digits_value(body.take(i - start)) && value <= max,
            over ==> digits_value(body.take(i - start)) > max,
        decreases s@.len() - i,
    {
        let c = s[i];
        if !is_digit_char(c) {
            assert(body[i - start] == c);
            return None;
        }
        let d = digit_to_u64(c);
        proof {
            assert(body.take(i - start + 1) == body.take(i - start).push(c));
            lemma_digits_value_push(body.take(i - start), c);
            assert(all_digits(body.take(i - start + 1)));
        }
        if !over {
            if d > max || value > (max - d) / 10 {
                over = true;
                assert(value * 10 + d > max) by (nonlinear_arith)
                    requires d > max || value > (max - d) / 10, d <= 9, max >= 0, d >= 0, value >= 0;
            } else {
                assert(value * 10 + d <= max) by (nonlinear_arith)
                    requires value <= (max - d) / 10, d <= 9, value >= 0;
                value = value * 10 + d;
            }
        } else {
            assert(digits_value(body.take(i - start)) * 10 + digit_value(c) > max) by (nonlinear_arith)
                requires digits_value(body.take(i - start)) > max;
        }
        i += 1;
    }
    assert(body.take(i - start) == body);
    if over {
        None
    } else {
        Some(value)
    }
}

/// Reads an unsigned field as `str::parse` does, then accepts it only in the
/// canonical form `to_string` writes.
pub fn parse_unsigned(s: &Vec<char>, max: u64) -> (r: Decimal<u64>)
    ensures
        r is Invalid <==> !(unsigned_literal_value(s@) matches Some(v) && v <= max),
        r matches Decimal::Value(v) ==> s@ == dec_nat(v as nat) && v <= max,
        forall|n: nat| n <= max && s@ == dec_nat(n) ==> r == Decimal::Value(n as u64),
{
    let start: usize = if s.len() > 0 && s[0] == '+' { 1 } else { 0 };
    proof {
        if start == 1 {
            assert(s@.skip(1) == s@.drop_first());
        } else {
            assert(s@.skip(0) == s@);
        }
    }
    proof {
        assert forall|n: nat| n <= max && s@ == dec_nat(n) implies start == 0 && all_digits(s@) && s@.len() > 0 && digits_value(s@) == n by {
            lemma_dec_nat(n);
            lemma_digit_char(0);
            assert(is_digit(s@[0]));
        }
    }
    match digits_at_most(s, start, max) {
        None => Decimal::Invalid,
        Some(v) => {
            let text = u64_text(v);
            if chars_equal_str(s, text.as_str()) {
                Decimal::Value(v)
            } else {
                proof {
                    assert forall|n: nat| n <= max && s@ == dec_nat(n) implies false by {
                        lemma_unsigned_literal_of_dec(n);
                        lemma_dec_nat(n);
                    }
                }
                Decimal::NonCanonical
            }
        },
    }
}

/// Reads a signed 32-bit field as `str::parse` does, then accepts it only in
/// the canonical form `to_string` writes.
pub fn parse_i32(s: &Vec<char>) -> (r: Decimal<i32>)
    ensures
        r is Invalid <==> !(signed_literal_value(s@) matches Some(v) && i32::MIN <= v <= i32::MAX),
        r matches Decimal::Value(v) ==> s@ == dec_int(v as int),
        forall|v: i32| s@ == dec_int(v as int) ==> r == Decimal::Value(v),
{
    let negative = s.len() > 0 && s[0] == '-';
    let start: usize = if s.len() > 0 && (s[0] == '-' || s[0] == '+') { 1 } else { 0 };
    let max: u64 = if negative { 2147483648 } else { 2147483647 };
    proof {
        if start == 1 {
            assert(s@.skip(1) == s@.drop_first());
        } else {
            assert(s@.skip(0) == s@);
        }
    }
    proof {
        assert forall|w: i32| s@ == dec_int(w as int) implies s@.skip(start as int).len() > 0 && all_digits(s@.skip(start as int))
            && (negative ==> w < 0 && digits_value(s@.skip(start as int)) == -w)
            && (!negative ==> w >= 0 && digits_value(s@.skip(start as int)) == w) by {
            lemma_digit_char(0);
            if w < 0 {
                lemma_dec_nat((-w) as nat);
                assert(s@.drop_first() == dec_nat((-w) as nat));
                assert(s@[0] == '-');
            } else {
                lemma_dec_nat(w as nat);
                assert(is_digit(s@[0]));
            }
        }
    }
    match digits_at_most(s, start, max) {
        None => {
            proof {
                assert forall|v: i32| s@ == dec_int(v as int) implies false by {
                    lemma_signed_literal_of_dec(v as int);
                    lemma_dec_int_chars(v as int);
                    if v < 0 {
                        lemma_dec_nat((-v) as nat);
                        assert(s@.drop_first() == dec_nat((-v) as nat));
                    } else {
                        lemma_dec_nat(v as nat);
                        assert(s@[0] != '+' && s@[0] != '-') by {
                            assert(s@[0] == dec_nat(v as nat)[0]);
                            lemma_digit_char(0);
                        }
                    }
                }
            }
            Decimal::Invalid
        },
        Some(magnitude) => {
            let v: i32 = if negative {
                if magnitude == 2147483648 { i32::MIN } else { -(magnitude as i32) }
            } else {
                magnitude as i32
            };
            let text = {
                let mut t = String::new();
                push_i64(&mut t, v as i64);
                t
            };
            assert(text@ == dec_int(v as int)) by {
                assert(Seq::<char>::empty() + dec_int(v as int) == dec_int(v as int));
            }
            if chars_equal_str(s, text.as_str()) {
                Decimal::Value(v)
            } else {
                proof {
                    assert forall|w: i32| s@ == dec_int(w as int) implies false by {
                        lemma_signed_literal_of_dec(w as int);
                    }
                }
                Decimal::NonCanonical
            }
        },
    }
}

/// Reads a signed 32-bit field as `str::parse` does: an optional sign and
/// at least one digit, within range; any spelling of the value is accepted.
pub fn read_i32(s: &Vec<char>) -> (r: Option<i32>)
    ensures
        match signed_literal_value(s@) {
            Some(v) => if i32::MIN <= v <= i32::MAX { r == Some(v as i32) } else { r is None },
            None => r is None,
        },
{
    let negative = s.len() > 0 && s[0] == '-';
    let start: usize = if s.len() > 0 && (s[0] == '-' || s[0] == '+') { 1 } else { 0 };
    let max: u64 = if negative { 2147483648 } else { 2147483647 };
    proof {
        if start == 1 {
            assert(s@.skip(1) == s@.drop_first());
        } else {
            assert(s@.skip(0) == s@);
        }
    }
    match digits_at_most(s, start, max) {
        None => None,
        Some(magnitude) => {
            if negative {
                if magnitude == 2147483648 { Some(i32::MIN) } else { Some(-(magnitude as i32)) }
            } else {
                Some(magnitude as i32)
            }
        },
    }
}

/// Whether two integer rows are equal.
pub fn ints_equal(a: &Vec<i32>, b: &Vec<i32>) -> (r: bool)
    ensures
        r == (a@ == b@),
{
    if a.len() != b.len() {
        return false;
    }
    for i in 0..a.len()
        invariant
            a@.len() == b@.len(),
            forall|k: int| 0 <= k < i ==> a@[k] == b@[k],
    {
        if a[i] != b[i] {
            return false;
        }
    }
    assert(a@ =~= b@);
    true
}

/// Whether two string slices hold the same characters.
pub fn str_equal(a: &str, b: &str) -> (r: bool)
    ensures
        r == (a@ == b@),
{
    let ac = chars_of(a);
    chars_equal_str(&ac, b)
}

} // verus!
