//! Canonical textual forms of the scalar values that appear in a record:
//! decimal renderings of the integer cell types and the hexadecimal
//! rendering of the header bytes.

use vstd::prelude::*;

verus! {

/// The character for one digit value, in base 10 or base 16.
pub open spec fn digit_char(d: nat) -> char
    recommends
        d < 16,
{
    if d == 0 { '0' } else if d == 1 { '1' } else if d == 2 { '2' } else if d == 3 { '3' }
    else if d == 4 { '4' } else if d == 5 { '5' } else if d == 6 { '6' } else if d == 7 { '7' }
    else if d == 8 { '8' } else if d == 9 { '9' } else if d == 10 { 'a' } else if d == 11 { 'b' }
    else if d == 12 { 'c' } else if d == 13 { 'd' } else if d == 14 { 'e' } else { 'f' }
}

/// Base-10 text of a non-negative number: no leading zeros, and a single
/// `'0'` for zero itself.
pub open spec fn dec_text(n: nat) -> Seq<char>
    decreases n,
{
    if n < 10 {
        seq![digit_char(n)]
    } else {
        dec_text(n / 10) + seq![digit_char(n % 10)]
    }
}

/// Base-10 text of a signed number: a leading `'-'` exactly when negative.
pub open spec fn int_text(i: int) -> Seq<char> {
    if i < 0 {
        seq!['-'] + dec_text((-i) as nat)
    } else {
        dec_text(i as nat)
    }
}

/// Two lowercase hexadecimal digits of one byte.
pub open spec fn hex_byte(b: u8) -> Seq<char> {
    seq![digit_char((b / 16) as nat), digit_char((b % 16) as nat)]
}

/// The header-byte rendering: each byte as two lowercase hexadecimal
/// digits, bytes joined by single spaces, no leading or trailing separator.
pub open spec fn hex_text(bytes: Seq<u8>) -> Seq<char>
    decreases bytes.len(),
{
    if bytes.len() == 0 {
        Seq::empty()
    } else if bytes.len() == 1 {
        hex_byte(bytes[0])
    } else {
        hex_text(bytes.drop_last()) + seq![' '] + hex_byte(bytes.last())
    }
}

/// The rendering of `n` bytes takes `3 * n - 1` characters (two digits and
/// one separator per byte, less the missing trailing separator), and none
/// for no bytes at all.
pub proof fn lemma_hex_text_len(bytes: Seq<u8>)
    ensures
        bytes.len() == 0 ==> hex_text(bytes).len() == 0,
        bytes.len() > 0 ==> hex_text(bytes).len() == 3 * bytes.len() - 1,
    decreases bytes.len(),
{
    if bytes.len() > 1 {
        lemma_hex_text_len(bytes.drop_last());
    }
}

/// Relies on `String::push`: appends exactly the one character to the end
/// of the string.
#[verifier::external_body]
pub(crate) fn push_char(out: &mut String, c: char)
    ensures
        final(out)@ == old(out)@ + seq![c],
{
    out.push(c);
}

/// One digit value as a character.
fn digit(d: u64) -> (c: char)
    requires
        d < 16,
    ensures
        c == digit_char(d as nat),
{
    if d == 0 { '0' } else if d == 1 { '1' } else if d == 2 { '2' } else if d == 3 { '3' }
    else if d == 4 { '4' } else if d == 5 { '5' } else if d == 6 { '6' } else if d == 7 { '7' }
    else if d == 8 { '8' } else if d == 9 { '9' } else if d == 10 { 'a' } else if d == 11 { 'b' }
    else if d == 12 { 'c' } else if d == 13 { 'd' } else if d == 14 { 'e' } else { 'f' }
}

/// Appends the base-10 text of `n`.
pub fn push_u64_text(n: u64, out: &mut String)
    ensures
        final(out)@ == old(out)@ + dec_text(n as nat),
    decreases n,
{
    if n >= 10 {
        push_u64_text(n / 10, out);
    }
    push_char(out, digit(n % 10));
}

/// Appends the base-10 text of `i`, with a sign exactly when negative.
pub fn push_i32_text(i: i32, out: &mut String)
    ensures
        final(out)@ == old(out)@ + int_text(i as int),
{
    if i < 0 {
        push_char(out, '-');
        let magnitude: u64 = (-(i as i64)) as u64;
        push_u64_text(magnitude, out);
        proof {
            assert(old(out)@ + int_text(i as int) == old(out)@ + seq!['-'] + dec_text(
                (-(i as int)) as nat,
            ));
        }
        assert(out@ =~= old(out)@ + int_text(i as int));
    } else {
        push_u64_text(i as u64, out);
    }
}

/// The header bytes rendered as spaced lowercase hexadecimal.
pub fn hex_string(bytes: &Vec<u8>) -> (s: String)
    ensures
        s@ == hex_text(bytes@),
{
    let mut s = String::new();
    let mut i: usize = 0;
    while i < bytes.len()
        invariant
            i <= bytes.len(),
            s@ == hex_text(bytes@.take(i as int)),
        decreases bytes.len() - i,
    {
        if i > 0 {
            push_char(&mut s, ' ');
        }
        let b = bytes[i];
        push_char(&mut s, digit((b / 16) as u64));
        push_char(&mut s, digit((b % 16) as u64));
        proof {
            let taken = bytes@.take(i + 1);
            assert(taken.drop_last() =~= bytes@.take(i as int));
            assert(taken.last() == bytes@[i as int]);
            assert(s@ =~= hex_text(taken));
        }
        i = i + 1;
    }
    proof {
        assert(bytes@.take(bytes@.len() as int) =~= bytes@);
    }
    s
}

} // verus!
