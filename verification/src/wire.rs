//! Primitives of the text wire form: string escaping, decimal numbers, and
//! strict parsers for the canonical layout the codec emits.
//!
//! The wire form is a JSON subset: objects with string keys in a fixed
//! order, string values, and integer values.  The printers below define the
//! canonical text, and the parsers accept exactly that text (plus the named
//! escapes `\n` `\r` `\t` `\b` `\f` `\/` and `\uXXXX` for code points below
//! 256, which peer encoders produce for control characters).

use vstd::prelude::*;
use vstd::string::StrSliceExecFns;
use vstd::string::StringExecFns;

verus! {

/// Why a piece of wire text was rejected.
#[derive(Clone, Copy, Debug, PartialEq, Eq, Structural)]
pub enum DecodeError {
    /// The text is not valid structured data in the canonical layout.
    Malformed,
    /// The opcode value does not select any of the four message shapes.
    UnknownOpcode,
    /// A required payload field for the indicated opcode is missing or of
    /// the wrong type.
    SchemaMismatch,
}

// ---------------------------------------------------------------------------
// Digits
// ---------------------------------------------------------------------------

/// The hexadecimal digit character for a value in `0 .. 16`.
pub open spec fn hex_digit(n: int) -> char {
    if n == 0 { '0' } else if n == 1 { '1' } else if n == 2 { '2' }
    else if n == 3 { '3' } else if n == 4 { '4' } else if n == 5 { '5' }
    else if n == 6 { '6' } else if n == 7 { '7' } else if n == 8 { '8' }
    else if n == 9 { '9' } else if n == 10 { 'a' } else if n == 11 { 'b' }
    else if n == 12 { 'c' } else if n == 13 { 'd' } else if n == 14 { 'e' }
    else { 'f' }
}

/// The value of a hexadecimal digit character, upper or lower case.
pub open spec fn hex_val(c: char) -> Option<int> {
    if '0' as u32 <= c as u32 && c as u32 <= '9' as u32 { Some(c as u32 - '0' as u32) }
    else if 'a' as u32 <= c as u32 && c as u32 <= 'f' as u32 { Some(c as u32 - 'a' as u32 + 10) }
    else if 'A' as u32 <= c as u32 && c as u32 <= 'F' as u32 { Some(c as u32 - 'A' as u32 + 10) }
    else { None }
}

/// The decimal digit character for a value in `0 .. 10`.
pub open spec fn dec_digit(n: int) -> char {
    if n == 0 { '0' } else if n == 1 { '1' } else if n == 2 { '2' }
    else if n == 3 { '3' } else if n == 4 { '4' } else if n == 5 { '5' }
    else if n == 6 { '6' } else if n == 7 { '7' } else if n == 8 { '8' }
    else { '9' }
}

pub open spec fn is_digit(c: char) -> bool {
    '0' as u32 <= c as u32 && c as u32 <= '9' as u32
}

pub open spec fn digit_val(c: char) -> int {
    c as u32 - '0' as u32
}

/// Canonical decimal text of a natural number, most significant digit first.
pub open spec fn dec_nat(n: nat) -> Seq<char>
    decreases n,
{
    if n < 10 {
        seq![dec_digit(n as int)]
    } else {
        dec_nat(n / 10) + seq![dec_digit((n % 10) as int)]
    }
}

/// Canonical decimal text of an integer: a minus sign for negative values.
pub open spec fn dec_int(v: int) -> Seq<char> {
    if v < 0 {
        seq!['-'] + dec_nat((-v) as nat)
    } else {
        dec_nat(v as nat)
    }
}

// ---------------------------------------------------------------------------
// String escaping
// ---------------------------------------------------------------------------

/// Canonical escape of one character: `"` and `\` get a backslash, control
/// characters become `\u00XX`, and everything else stands as itself.
pub open spec fn esc_char(c: char) -> Seq<char> {
    if c == '"' {
        seq!['\\', '"']
    } else if c == '\\' {
        seq!['\\', '\\']
    } else if (c as u32) < 32 {
        seq!['\\', 'u', '0', '0', hex_digit((c as u32) as int / 16), hex_digit(
            (c as u32) as int % 16,
        )]
    } else {
        seq![c]
    }
}

/// Canonical escape of a whole string body.
pub open spec fn esc(s: Seq<char>) -> Seq<char>
    decreases s.len(),
{
    if s.len() == 0 {
        Seq::empty()
    } else {
        esc_char(s[0]) + esc(s.skip(1))
    }
}

/// A string value on the wire: the escaped body between double quotes.
pub open spec fn jstr(s: Seq<char>) -> Seq<char> {
    seq!['"'] + esc(s) + seq!['"']
}

// ---------------------------------------------------------------------------
// Parsers
// ---------------------------------------------------------------------------

/// Consume an expected literal prefix; the rest on success.
pub open spec fn p_lit(s: Seq<char>, lit: Seq<char>) -> Option<Seq<char>> {
    if lit.len() <= s.len() && s.take(lit.len() as int) == lit {
        Some(s.skip(lit.len() as int))
    } else {
        None
    }
}

/// The character named by a single-letter escape, if any.
pub open spec fn simple_unesc(c: char) -> Option<char> {
    if c == '"' { Some('"') } else if c == '\\' { Some('\\') }
    else if c == '/' { Some('/') } else if c == 'n' { Some('\n') }
    else if c == 'r' { Some('\r') } else if c == 't' { Some('\t') }
    else if c == 'b' { Some('\u{8}') } else if c == 'f' { Some('\u{c}') }
    else { None }
}

/// The code point of a `\uXXXX` escape, given the four characters after
/// `\u`; only code points below 256 are accepted.
pub open spec fn u_code(s: Seq<char>) -> Option<int> {
    if s.len() >= 4 && hex_val(s[0]) is Some && hex_val(s[1]) is Some && hex_val(s[2]) is Some
        && hex_val(s[3]) is Some {
        let v = hex_val(s[0]).unwrap() * 4096 + hex_val(s[1]).unwrap() * 256 + hex_val(
            s[2],
        ).unwrap() * 16 + hex_val(s[3]).unwrap();
        if v < 256 {
            Some(v)
        } else {
            None
        }
    } else {
        None
    }
}

/// Parse a string body up to and including its closing quote, undoing the
/// escapes; the body and the rest on success.
pub open spec fn p_jstr_body(s: Seq<char>) -> Option<(Seq<char>, Seq<char>)>
    decreases s.len(),
{
    if s.len() == 0 {
        None
    } else if s[0] == '"' {
        Some((Seq::empty(), s.skip(1)))
    } else if s[0] == '\\' {
        if s.len() >= 2 && simple_unesc(s[1]) is Some {
            match p_jstr_body(s.skip(2)) {
                Some((t, r)) => Some((seq![simple_unesc(s[1]).unwrap()] + t, r)),
                None => None,
            }
        } else if s.len() >= 6 && s[1] == 'u' && u_code(s.skip(2)) is Some {
            match p_jstr_body(s.skip(6)) {
                Some((t, r)) => Some(
                    (seq![(u_code(s.skip(2)).unwrap() as u8) as char] + t, r),
                ),
                None => None,
            }
        } else {
            None
        }
    } else if (s[0] as u32) < 32 {
        None
    } else {
        match p_jstr_body(s.skip(1)) {
            Some((t, r)) => Some((seq![s[0]] + t, r)),
            None => None,
        }
    }
}

/// Parse a whole string value: an opening quote, then the body.
pub open spec fn p_jstring(s: Seq<char>) -> Option<(Seq<char>, Seq<char>)> {
    if s.len() > 0 && s[0] == '"' {
        p_jstr_body(s.skip(1))
    } else {
        None
    }
}

/// Parse the remaining digits of an unsigned decimal number onto an
/// accumulator, rejecting values above `max`; the value and the rest.
pub open spec fn p_unum_rec(s: Seq<char>, acc: nat, max: nat) -> Option<(nat, Seq<char>)>
    decreases s.len(),
{
    if s.len() > 0 && is_digit(s[0]) {
        let a2 = acc * 10 + digit_val(s[0]);
        if a2 > max {
            None
        } else {
            p_unum_rec(s.skip(1), a2 as nat, max)
        }
    } else {
        Some((acc, s))
    }
}

/// Parse an unsigned decimal number of at least one digit, at most `max`.
pub open spec fn p_unum(s: Seq<char>, max: nat) -> Option<(nat, Seq<char>)> {
    if s.len() > 0 && is_digit(s[0]) {
        p_unum_rec(s, 0, max)
    } else {
        None
    }
}

/// Parse a signed decimal number: magnitude at most `max_pos`, or, after a
/// minus sign, at most `max_neg`.
pub open spec fn p_inum(s: Seq<char>, max_pos: nat, max_neg: nat) -> Option<(int, Seq<char>)> {
    if s.len() > 0 && s[0] == '-' {
        match p_unum(s.skip(1), max_neg) {
            Some((v, r)) => Some((-(v as int), r)),
            None => None,
        }
    } else {
        match p_unum(s, max_pos) {
            Some((v, r)) => Some((v as int, r)),
            None => None,
        }
    }
}

// ---------------------------------------------------------------------------
// Round-trip lemmas: each parser undoes the matching printer.
// ---------------------------------------------------------------------------

/// A literal prefix parses off exactly, leaving the rest.
pub proof fn lemma_p_lit_roundtrip(lit: Seq<char>, rest: Seq<char>)
    ensures
        p_lit(lit + rest, lit) == Some(rest),
{
    assert((lit + rest).take(lit.len() as int) =~= lit);
    assert((lit + rest).skip(lit.len() as int) =~= rest);
}

/// The string-body parser undoes the canonical escape: reading the escaped
/// body followed by the closing quote yields the body it was made from.
#[verifier::rlimit(60)]
pub proof fn lemma_jstr_body_roundtrip(v: Seq<char>, rest: Seq<char>)
    ensures
        p_jstr_body(esc(v) + seq!['"'] + rest) == Some((v, rest)),
    decreases v.len(),
{
    if v.len() == 0 {
        assert(esc(v) + seq!['"'] + rest =~= seq!['"'] + rest);
        let s = seq!['"'] + rest;
        assert(s[0] == '"');
        assert(s.skip(1) =~= rest);
    } else {
        let c = v[0];
        let t = v.skip(1);
        let s = esc(v) + seq!['"'] + rest;
        let s1 = esc(t) + seq!['"'] + rest;
        lemma_jstr_body_roundtrip(t, rest);
        assert(esc(v) == esc_char(c) + esc(t));
        assert(s =~= esc_char(c) + s1);
        if c == '"' {
            assert(s =~= seq!['\\', '"'] + s1);
            assert(s[0] == '\\' && s[1] == '"');
            assert(s.skip(2) =~= s1);
            assert(seq![simple_unesc('"').unwrap()] + t =~= v);
        } else if c == '\\' {
            assert(s =~= seq!['\\', '\\'] + s1);
            assert(s.skip(2) =~= s1);
            assert(seq![simple_unesc('\\').unwrap()] + t =~= v);
        } else if (c as u32) < 32 {
            let hi = (c as u32) as int / 16;
            let lo = (c as u32) as int % 16;
            assert(s =~= seq!['\\', 'u', '0', '0', hex_digit(hi), hex_digit(lo)] + s1);
            assert(s[0] == '\\' && s[1] == 'u');
            assert(simple_unesc('u') is None);
            let u = s.skip(2);
            assert(u[0] == '0' && u[1] == '0' && u[2] == hex_digit(hi) && u[3] == hex_digit(lo));
            assert(hex_val('0') == Some(0int));
            lemma_hex_digit_val(hi);
            lemma_hex_digit_val(lo);
            assert(u_code(u) == Some(hi * 16 + lo)) by {
                assert(hex_val(u[0]).unwrap() * 4096 + hex_val(u[1]).unwrap() * 256 + hex_val(
                    u[2],
                ).unwrap() * 16 + hex_val(u[3]).unwrap() == hi * 16 + lo);
            }
            assert(hi * 16 + lo == c as u32) by {
                assert((c as u32) as int / 16 * 16 + (c as u32) as int % 16 == (c as u32) as int);
            }
            let code = u_code(u).unwrap();
            assert(code == (c as u32) as int);
            lemma_u8_char_cast(c);
            assert((code as u8) as char == c);
            assert(s.skip(6) =~= s1);
            assert(seq![c] + t =~= v);
        } else {
            assert(s[0] == c);
            assert(s[0] != '"' && s[0] != '\\' && (s[0] as u32) >= 32);
            assert(s.skip(1) =~= s1);
            assert(seq![c] + t =~= v);
        }
    }
}

/// A character with a code point below 256 survives the cast through `u8`.
proof fn lemma_u8_char_cast(c: char)
    requires
        (c as u32) < 256,
    ensures
        (((c as u32) as u8) as char) == c,
{
    let u = c as u32;
    let b = u as u8;
    assert(b as u32 == u);
    assert((b as char) as u32 == b as u32);
}

/// A hexadecimal digit character evaluates back to its value.
proof fn lemma_hex_digit_val(n: int)
    requires
        0 <= n < 16,
    ensures
        hex_val(hex_digit(n)) == Some(n),
{
}

/// A whole string value parses back to the body it was printed from.
pub proof fn lemma_jstring_roundtrip(v: Seq<char>, rest: Seq<char>)
    ensures
        p_jstring(jstr(v) + rest) == Some((v, rest)),
{
    let s = jstr(v) + rest;
    assert(s[0] == '"');
    assert(s.skip(1) =~= esc(v) + seq!['"'] + rest);
    lemma_jstr_body_roundtrip(v, rest);
}

/// Escaping distributes over appending one character at the end.
pub proof fn lemma_esc_push(s: Seq<char>, c: char)
    ensures
        esc(s.push(c)) == esc(s) + esc_char(c),
    decreases s.len(),
{
    if s.len() == 0 {
        assert(s.push(c) =~= seq![c]);
        assert(seq![c].skip(1) =~= Seq::<char>::empty());
        assert(esc(seq![c]) == esc_char(c) + esc(Seq::<char>::empty()));
        assert(esc(Seq::<char>::empty()) == Seq::<char>::empty());
        assert(esc(s.push(c)) =~= esc(s) + esc_char(c));
    } else {
        assert(s.push(c).skip(1) =~= s.skip(1).push(c));
        lemma_esc_push(s.skip(1), c);
        assert(esc(s.push(c)) =~= esc(s) + esc_char(c));
    }
}

// ---------------------------------------------------------------------------
// Number round-trips
// ---------------------------------------------------------------------------

/// Value of a digit sequence folded left onto an accumulator, exactly as
/// the number parser folds it.
pub open spec fn val_acc(ds: Seq<char>, acc: nat) -> nat
    decreases ds.len(),
{
    if ds.len() == 0 {
        acc
    } else {
        val_acc(ds.skip(1), (acc * 10 + digit_val(ds[0])) as nat)
    }
}

pub open spec fn all_digits(ds: Seq<char>) -> bool {
    forall|i: int| 0 <= i < ds.len() ==> is_digit(#[trigger] ds[i])
}

/// The canonical decimal text is a non-empty run of digits.
pub proof fn lemma_dec_nat_digits(n: nat)
    ensures
        dec_nat(n).len() >= 1,
        all_digits(dec_nat(n)),
    decreases n,
{
    if n < 10 {
    } else {
        lemma_dec_nat_digits(n / 10);
        assert forall|i: int| 0 <= i < dec_nat(n).len() implies is_digit(#[trigger] dec_nat(n)[i]) by {
            if i < dec_nat(n / 10).len() {
                assert(dec_nat(n)[i] == dec_nat(n / 10)[i]);
            } else {
                assert(dec_nat(n)[i] == dec_digit((n % 10) as int));
            }
        }
    }
}

/// Folding one more digit at the end multiplies the value by ten.
proof fn lemma_val_acc_push(ds: Seq<char>, d: char, acc: nat)
    requires
        all_digits(ds),
        is_digit(d),
    ensures
        val_acc(ds.push(d), acc) == val_acc(ds, acc) * 10 + digit_val(d),
    decreases ds.len(),
{
    if ds.len() == 0 {
        assert(ds.push(d)[0] == d);
        assert(digit_val(d) >= 0);
        let a2 = (acc * 10 + digit_val(d)) as nat;
        assert(ds.push(d).skip(1) =~= Seq::<char>::empty());
        assert(val_acc(ds.push(d), acc) == val_acc(Seq::<char>::empty(), a2));
        assert(val_acc(Seq::<char>::empty(), a2) == a2);
    } else {
        assert(ds.push(d)[0] == ds[0]);
        assert(digit_val(ds[0]) >= 0);
        let a2 = (acc * 10 + digit_val(ds[0])) as nat;
        assert(ds.push(d).skip(1) =~= ds.skip(1).push(d));
        lemma_val_acc_push(ds.skip(1), d, a2);
        assert(val_acc(ds.push(d), acc) == val_acc(ds.skip(1).push(d), a2));
        assert(val_acc(ds, acc) == val_acc(ds.skip(1), a2));
    }
}

/// The canonical decimal text of `n` folds back to `n`.
pub proof fn lemma_dec_nat_val(n: nat)
    ensures
        val_acc(dec_nat(n), 0) == n,
    decreases n,
{
    if n < 10 {
        let ds = dec_nat(n);
        assert(ds == seq![dec_digit(n as int)]);
        assert(ds[0] == dec_digit(n as int));
        assert(digit_val(dec_digit(n as int)) == n);
        assert(ds.skip(1) =~= Seq::<char>::empty());
        assert(val_acc(ds, 0) == val_acc(Seq::<char>::empty(), n));
        assert(val_acc(Seq::<char>::empty(), n) == n);
    } else {
        let d = dec_digit((n % 10) as int);
        lemma_dec_nat_val(n / 10);
        lemma_dec_nat_digits(n / 10);
        assert(dec_nat(n) =~= dec_nat(n / 10).push(d));
        lemma_val_acc_push(dec_nat(n / 10), d, 0);
        assert(digit_val(d) == n % 10);
        assert(val_acc(dec_nat(n), 0) == (n / 10) * 10 + n % 10);
    }
}

/// Folding digits never decreases the accumulator.
proof fn lemma_val_acc_ge(ds: Seq<char>, acc: nat)
    requires
        all_digits(ds),
    ensures
        val_acc(ds, acc) >= acc,
    decreases ds.len(),
{
    if ds.len() == 0 {
    } else {
        lemma_val_acc_ge(ds.skip(1), (acc * 10 + digit_val(ds[0])) as nat);
    }
}

/// The digit parser consumes exactly a run of digits followed by a
/// non-digit, and folds it to its value.
proof fn lemma_p_unum_rec(ds: Seq<char>, rest: Seq<char>, acc: nat, max: nat)
    requires
        all_digits(ds),
        val_acc(ds, acc) <= max,
        rest.len() == 0 || !is_digit(rest[0]),
    ensures
        p_unum_rec(ds + rest, acc, max) == Some((val_acc(ds, acc), rest)),
    decreases ds.len(),
{
    if ds.len() == 0 {
        assert(ds + rest =~= rest);
    } else {
        let s = ds + rest;
        assert(s[0] == ds[0]);
        let a2 = (acc * 10 + digit_val(ds[0])) as nat;
        lemma_val_acc_ge(ds.skip(1), a2);
        assert(s.skip(1) =~= ds.skip(1) + rest);
        lemma_p_unum_rec(ds.skip(1), rest, a2, max);
    }
}

/// An unsigned number prints and parses back to itself, provided what
/// follows does not begin with a digit.
pub proof fn lemma_p_unum_roundtrip(n: nat, max: nat, rest: Seq<char>)
    requires
        n <= max,
        rest.len() == 0 || !is_digit(rest[0]),
    ensures
        p_unum(dec_nat(n) + rest, max) == Some((n, rest)),
{
    lemma_dec_nat_digits(n);
    lemma_dec_nat_val(n);
    assert((dec_nat(n) + rest)[0] == dec_nat(n)[0]);
    lemma_p_unum_rec(dec_nat(n), rest, 0, max);
}

// ---------------------------------------------------------------------------
// Executable printers
// ---------------------------------------------------------------------------

/// Relies on String::push: appends exactly the one character.
#[verifier::external_body]
fn push_char(s: &mut String, c: char)
    ensures
        final(s)@ == old(s)@.push(c),
{
    s.push(c)
}

/// The characters of a text, as a vector.
pub fn to_chars(s: &str) -> (r: Vec<char>)
    ensures
        r@ == s@,
{
    let n = s.unicode_len();
    let mut r: Vec<char> = Vec::new();
    let mut i: usize = 0;
    while i < n
        invariant
            n == s@.len(),
            i <= n,
            r@ == s@.take(i as int),
        decreases n - i,
    {
        let c = s.get_char(i);
        r.push(c);
        proof {
            assert(s@.take(i as int).push(s@[i as int]) =~= s@.take(i + 1));
        }
        i = i + 1;
    }
    proof {
        assert(s@.take(n as int) =~= s@);
    }
    r
}

/// The hexadecimal digit character of a value below 16.
fn hex_digit_char(n: u32) -> (r: char)
    requires
        n < 16,
    ensures
        r == hex_digit(n as int),
{
    if n == 0 { '0' } else if n == 1 { '1' } else if n == 2 { '2' }
    else if n == 3 { '3' } else if n == 4 { '4' } else if n == 5 { '5' }
    else if n == 6 { '6' } else if n == 7 { '7' } else if n == 8 { '8' }
    else if n == 9 { '9' } else if n == 10 { 'a' } else if n == 11 { 'b' }
    else if n == 12 { 'c' } else if n == 13 { 'd' } else if n == 14 { 'e' }
    else { 'f' }
}

/// The decimal digit character of a value below 10.
fn dec_digit_char(n: u64) -> (r: char)
    requires
        n < 10,
    ensures
        r == dec_digit(n as int),
{
    if n == 0 { '0' } else if n == 1 { '1' } else if n == 2 { '2' }
    else if n == 3 { '3' } else if n == 4 { '4' } else if n == 5 { '5' }
    else if n == 6 { '6' } else if n == 7 { '7' } else if n == 8 { '8' }
    else { '9' }
}

/// Append the canonical escape of one character.
fn push_esc_char(out: &mut String, c: char)
    ensures
        final(out)@ == old(out)@ + esc_char(c),
{
    let code = c as u32;
    if c == '"' {
        out.append("\\\"");
        proof {
            reveal_strlit("\\\"");
            assert(old(out)@ + "\\\""@ =~= old(out)@ + esc_char(c));
        }
    } else if c == '\\' {
        out.append("\\\\");
        proof {
            reveal_strlit("\\\\");
            assert(old(out)@ + "\\\\"@ =~= old(out)@ + esc_char(c));
        }
    } else if code < 32 {
        out.append("\\u00");
        push_char(out, hex_digit_char(code / 16));
        push_char(out, hex_digit_char(code % 16));
        proof {
            reveal_strlit("\\u00");
            assert(old(out)@ + "\\u00"@ + seq![hex_digit((c as u32) as int / 16)] + seq![
                hex_digit((c as u32) as int % 16),
            ] =~= old(out)@ + esc_char(c));
        }
    } else {
        push_char(out, c);
        proof {
            assert(old(out)@.push(c) =~= old(out)@ + esc_char(c));
        }
    }
}

/// Append the canonical escape of a whole string body.
fn push_esc(out: &mut String, s: &str)
    ensures
        final(out)@ == old(out)@ + esc(s@),
{
    let n = s.unicode_len();
    let mut i: usize = 0;
    while i < n
        invariant
            n == s@.len(),
            i <= n,
            out@ == old(out)@ + esc(s@.take(i as int)),
        decreases n - i,
    {
        let c = s.get_char(i);
        push_esc_char(out, c);
        proof {
            assert(s@.take(i as int).push(s@[i as int]) =~= s@.take(i + 1));
            lemma_esc_push(s@.take(i as int), s@[i as int]);
        }
        i = i + 1;
    }
    proof {
        assert(s@.take(n as int) =~= s@);
        assert(esc(Seq::<char>::empty()) == Seq::<char>::empty());
        assert(old(out)@ + esc(Seq::<char>::empty()) =~= old(out)@);
    }
}

/// Append a string value: the escaped body between double quotes.
pub(crate) fn push_jstr(out: &mut String, s: &str)
    ensures
        final(out)@ == old(out)@ + jstr(s@),
{
    push_char(out, '"');
    push_esc(out, s);
    push_char(out, '"');
    proof {
        assert(old(out)@.push('"') =~= old(out)@ + seq!['"']);
        assert((old(out)@ + seq!['"'] + esc(s@)).push('"') =~= old(out)@ + jstr(s@));
    }
}

/// Append the canonical decimal text of an unsigned number.
pub(crate) fn push_dec_u64(out: &mut String, n: u64)
    ensures
        final(out)@ == old(out)@ + dec_nat(n as nat),
    decreases n,
{
    if n < 10 {
        push_char(out, dec_digit_char(n));
        proof {
            assert(old(out)@.push(dec_digit(n as int)) =~= old(out)@ + dec_nat(n as nat));
        }
    } else {
        push_dec_u64(out, n / 10);
        push_char(out, dec_digit_char(n % 10));
        proof {
            assert((old(out)@ + dec_nat((n / 10) as nat)).push(dec_digit((n % 10) as int)) =~= old(
                out,
            )@ + dec_nat(n as nat));
        }
    }
}

/// Append the canonical decimal text of a signed number.
pub(crate) fn push_dec_i64(out: &mut String, v: i64)
    ensures
        final(out)@ == old(out)@ + dec_int(v as int),
{
    if v >= 0 {
        push_dec_u64(out, v as u64);
    } else {
        push_char(out, '-');
        let mag: u64 = ((-(v + 1)) as u64) + 1;
        proof {
            assert(mag as nat == (-(v as int)) as nat);
        }
        push_dec_u64(out, mag);
        proof {
            assert(old(out)@.push('-') =~= old(out)@ + seq!['-']);
            assert(old(out)@ + seq!['-'] + dec_nat(mag as nat) =~= old(out)@ + dec_int(v as int));
        }
    }
}

// ---------------------------------------------------------------------------
// Executable parsers
// ---------------------------------------------------------------------------

/// Consume an expected literal at position `i`; the position after it.
pub fn e_lit(v: &Vec<char>, i: usize, lit: &str) -> (r: Option<usize>)
    requires
        i <= v@.len(),
    ensures
        match r {
            Some(j) => i <= j <= v@.len() && p_lit(v@.skip(i as int), lit@) == Some(
                v@.skip(j as int),
            ),
            None => p_lit(v@.skip(i as int), lit@) is None,
        },
{
    let n = lit.unicode_len();
    let vn = v.len();
    if n > vn - i {
        return None;
    }
    let mut k: usize = 0;
    while k < n
        invariant
            vn == v@.len(),
            i + n <= vn,
            k <= n,
            n == lit@.len(),
            forall|t: int| 0 <= t < k ==> v@[i + t] == lit@[t],
        decreases n - k,
    {
        if v[i + k] != lit.get_char(k) {
            proof {
                let s = v@.skip(i as int);
                assert(s.take(n as int)[k as int] == v@[i + k]);
                assert(s.take(n as int) != lit@);
            }
            return None;
        }
        k = k + 1;
    }
    proof {
        let s = v@.skip(i as int);
        assert(s.take(n as int) =~= lit@);
        assert(s.skip(n as int) =~= v@.skip((i + n) as int));
    }
    Some(i + n)
}

/// Whether a character is a decimal digit.
fn is_digit_exec(c: char) -> (r: bool)
    ensures
        r == is_digit(c),
{
    let u = c as u32;
    48 <= u && u <= 57
}

/// Parse an unsigned decimal number of at least one digit, at most `max`,
/// at position `i`.
pub fn e_unum(v: &Vec<char>, i: usize, max: u64) -> (r: Option<(u64, usize)>)
    requires
        i <= v@.len(),
    ensures
        match r {
            Some(p) => i <= p.1 <= v@.len() && p.0 <= max && p_unum(v@.skip(i as int), max as nat)
                == Some((p.0 as nat, v@.skip(p.1 as int))),
            None => p_unum(v@.skip(i as int), max as nat) is None,
        },
{
    if i == v.len() {
        return None;
    }
    if !is_digit_exec(v[i]) {
        return None;
    }
    let mut acc: u64 = 0;
    let mut j: usize = i;
    proof {
        assert(v@.skip(i as int)[0] == v@[i as int]);
    }
    loop
        invariant
            i <= j <= v@.len(),
            acc <= max,
            v@.skip(i as int).len() > 0 && is_digit(v@.skip(i as int)[0]),
            p_unum_rec(v@.skip(i as int), 0, max as nat) == p_unum_rec(
                v@.skip(j as int),
                acc as nat,
                max as nat,
            ),
        decreases v@.len() - j,
    {
        if j == v.len() {
            proof {
                assert(v@.skip(j as int).len() == 0);
                assert(p_unum_rec(v@.skip(j as int), acc as nat, max as nat) == Some(
                    (acc as nat, v@.skip(j as int)),
                ));
            }
            return Some((acc, j));
        }
        let c = v[j];
        if !is_digit_exec(c) {
            proof {
                assert(v@.skip(j as int)[0] == c);
                assert(p_unum_rec(v@.skip(j as int), acc as nat, max as nat) == Some(
                    (acc as nat, v@.skip(j as int)),
                ));
            }
            return Some((acc, j));
        }
        proof {
            assert('0' as u32 == 48);
            assert(c as u32 >= 48);
        }
        let d = c as u32 - 48;
        let a2: u128 = acc as u128 * 10 + d as u128;
        proof {
            let s = v@.skip(j as int);
            assert(s[0] == v@[j as int]);
            assert(digit_val(s[0]) == d as int);
            assert(s.skip(1) =~= v@.skip(j + 1));
        }
        if a2 > max as u128 {
            return None;
        }
        acc = a2 as u64;
        j = j + 1;
    }
}

/// Parse a signed decimal number at position `i`: magnitude at most
/// `max_pos`, or `max_neg` after a minus sign.
pub fn e_inum(v: &Vec<char>, i: usize, max_pos: u64, max_neg: u64) -> (r: Option<(i64, usize)>)
    requires
        i <= v@.len(),
        max_pos <= 0x7FFF_FFFF_FFFF_FFFF,
        max_neg <= 0x8000_0000_0000_0000,
    ensures
        match r {
            Some(p) => i <= p.1 <= v@.len() && p_inum(
                v@.skip(i as int),
                max_pos as nat,
                max_neg as nat,
            ) == Some((p.0 as int, v@.skip(p.1 as int))),
            None => p_inum(v@.skip(i as int), max_pos as nat, max_neg as nat) is None,
        },
{
    if i < v.len() && v[i] == '-' {
        proof {
            assert(v@.skip(i as int).skip(1) =~= v@.skip(i + 1));
        }
        match e_unum(v, i + 1, max_neg) {
            Some((x, j)) => {
                let t: i64 = if x == 0 {
                    0
                } else {
                    -((x - 1) as i64) - 1
                };
                proof {
                    assert(t as int == -(x as int));
                }
                Some((t, j))
            },
            None => None,
        }
    } else {
        match e_unum(v, i, max_pos) {
            Some((x, j)) => Some((x as i64, j)),
            None => None,
        }
    }
}

/// The character named by a single-letter escape, if any.
fn simple_unesc_exec(c: char) -> (r: Option<char>)
    ensures
        r == simple_unesc(c),
{
    if c == '"' { Some('"') } else if c == '\\' { Some('\\') }
    else if c == '/' { Some('/') } else if c == 'n' { Some('\n') }
    else if c == 'r' { Some('\r') } else if c == 't' { Some('\t') }
    else if c == 'b' { Some('\u{8}') } else if c == 'f' { Some('\u{c}') }
    else { None }
}

/// The value of a hexadecimal digit character, if any.
fn hex_val_exec(c: char) -> (r: Option<u32>)
    ensures
        match r {
            Some(x) => hex_val(c) == Some(x as int) && x < 16,
            None => hex_val(c) is None,
        },
{
    let u = c as u32;
    if 48 <= u && u <= 57 {
        Some(u - 48)
    } else if 97 <= u && u <= 102 {
        Some(u - 97 + 10)
    } else if 65 <= u && u <= 70 {
        Some(u - 65 + 10)
    } else {
        None
    }
}

/// Parse a whole string value at position `i`, undoing the escapes.
#[verifier::rlimit(60)]
pub fn e_jstring(v: &Vec<char>, i: usize) -> (r: Option<(String, usize)>)
    requires
        i <= v@.len(),
    ensures
        match r {
            Some(p) => i <= p.1 <= v@.len() && p_jstring(v@.skip(i as int)) == Some(
                (p.0@, v@.skip(p.1 as int)),
            ),
            None => p_jstring(v@.skip(i as int)) is None,
        },
{
    if i == v.len() {
        return None;
    }
    if v[i] != '"' {
        return None;
    }
    let start = i + 1;
    proof {
        assert(v@.skip(i as int).skip(1) =~= v@.skip(start as int));
    }
    let mut acc = String::new();
    let mut cur: usize = start;
    loop
        invariant
            start <= cur <= v@.len(),
            i + 1 == start <= v@.len(),
            v@.skip(i as int).len() > 0 && v@.skip(i as int)[0] == '"',
            v@.skip(i as int).skip(1) == v@.skip(start as int),
            p_jstr_body(v@.skip(start as int)) == (match p_jstr_body(v@.skip(cur as int)) {
                Some(p) => Some((acc@ + p.0, p.1)),
                None => None::<(Seq<char>, Seq<char>)>,
            }),
        decreases v@.len() - cur,
    {
        if cur == v.len() {
            return None;
        }
        let c = v[cur];
        let ghost s = v@.skip(cur as int);
        proof {
            assert(s[0] == c);
        }
        if c == '"' {
            proof {
                assert(s.skip(1) =~= v@.skip(cur + 1));
                assert(acc@ + Seq::<char>::empty() =~= acc@);
            }
            return Some((acc, cur + 1));
        }
        if c == '\\' {
            if cur + 1 == v.len() {
                proof {
                    assert(s.len() == 1);
                }
                return None;
            }
            let e = v[cur + 1];
            proof {
                assert(s[1] == e);
            }
            match simple_unesc_exec(e) {
                Some(u) => {
                    let ghost acc0 = acc@;
                    push_char(&mut acc, u);
                    proof {
                        assert(s.skip(2) =~= v@.skip(cur + 2));
                        if p_jstr_body(v@.skip(cur + 2)) is Some {
                            let p = p_jstr_body(v@.skip(cur + 2)).unwrap();
                            assert(p_jstr_body(s) == Some((seq![u] + p.0, p.1)));
                            assert(acc0 + (seq![u] + p.0) =~= acc0.push(u) + p.0);
                        }
                    }
                    cur = cur + 2;
                },
                None => {
                    if e == 'u' {
                        if v.len() - cur < 6 {
                            proof {
                                assert(s.len() < 6);
                            }
                            return None;
                        }
                        proof {
                            assert(s.skip(2) =~= v@.skip(cur + 2));
                            assert(s.skip(2)[0] == v@[cur + 2]);
                            assert(s.skip(2)[1] == v@[cur + 3]);
                            assert(s.skip(2)[2] == v@[cur + 4]);
                            assert(s.skip(2)[3] == v@[cur + 5]);
                        }
                        let h0 = hex_val_exec(v[cur + 2]);
                        let h1 = hex_val_exec(v[cur + 3]);
                        let h2 = hex_val_exec(v[cur + 4]);
                        let h3 = hex_val_exec(v[cur + 5]);
                        if h0.is_none() || h1.is_none() || h2.is_none() || h3.is_none() {
                            proof {
                                assert(u_code(s.skip(2)) is None);
                            }
                            return None;
                        }
                        let code: u32 = h0.unwrap() * 4096 + h1.unwrap() * 256 + h2.unwrap() * 16
                            + h3.unwrap();
                        if code >= 256 {
                            proof {
                                assert(u_code(s.skip(2)) is None);
                            }
                            return None;
                        }
                        proof {
                            assert(u_code(s.skip(2)) == Some(code as int));
                        }
                        let u = (code as u8) as char;
                        let ghost acc0 = acc@;
                        push_char(&mut acc, u);
                        proof {
                            assert(s.skip(6) =~= v@.skip(cur + 6));
                            if p_jstr_body(v@.skip(cur + 6)) is Some {
                                let p = p_jstr_body(v@.skip(cur + 6)).unwrap();
                                assert(p_jstr_body(s) == Some((seq![u] + p.0, p.1)));
                                assert(acc0 + (seq![u] + p.0) =~= acc0.push(u) + p.0);
                            }
                        }
                        cur = cur + 6;
                    } else {
                        return None;
                    }
                },
            }
        } else if (c as u32) < 32 {
            return None;
        } else {
            let ghost acc0 = acc@;
            push_char(&mut acc, c);
            proof {
                assert(s.skip(1) =~= v@.skip(cur + 1));
                if p_jstr_body(v@.skip(cur + 1)) is Some {
                    let p = p_jstr_body(v@.skip(cur + 1)).unwrap();
                    assert(p_jstr_body(s) == Some((seq![c] + p.0, p.1)));
                    assert(acc0 + (seq![c] + p.0) =~= acc0.push(c) + p.0);
                }
            }
            cur = cur + 1;
        }
    }
}

/// A signed number prints and parses back to itself.
pub proof fn lemma_p_inum_roundtrip(v: int, max_pos: nat, max_neg: nat, rest: Seq<char>)
    requires
        v >= 0 ==> v <= max_pos,
        v < 0 ==> -v <= max_neg,
        rest.len() == 0 || !is_digit(rest[0]),
    ensures
        p_inum(dec_int(v) + rest, max_pos, max_neg) == Some((v, rest)),
{
    if v < 0 {
        let m = (-v) as nat;
        let s = dec_int(v) + rest;
        assert(s[0] == '-');
        lemma_dec_nat_digits(m);
        assert(s.skip(1) =~= dec_nat(m) + rest);
        lemma_p_unum_roundtrip(m, max_neg, rest);
    } else {
        lemma_dec_nat_digits(v as nat);
        assert((dec_int(v) + rest)[0] == dec_nat(v as nat)[0]);
        lemma_p_unum_roundtrip(v as nat, max_pos, rest);
    }
}

} // verus!
