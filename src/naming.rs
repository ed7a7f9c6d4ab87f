use vstd::prelude::*;

verus! {

/// The character of decimal digit `d`.
pub open spec fn digit_char(d: nat) -> char {
    ((d + 48) as u8) as char
}

/// The decimal digits of `n`, most significant first, without leading zeros.
pub open spec fn decimal(n: nat) -> Seq<char>
    decreases n,
{
    if n < 10 {
        seq![digit_char(n)]
    } else {
        decimal(n / 10).push(digit_char(n % 10))
    }
}

/// `n` written in decimal, with a leading minus sign when negative.
pub open spec fn signed_decimal(n: int) -> Seq<char> {
    if n < 0 {
        seq!['-'].add(decimal((-n) as nat))
    } else {
        decimal(n as nat)
    }
}

/// The name of the symbol that stands for aperture `id`.
pub open spec fn symbol_name(id: i32) -> Seq<char> {
    seq!['a', 'p', 'e', 'r', 't', 'u', 'r', 'e', '_', 'i', 'd', '_'].add(signed_decimal(id as int))
}

/// Relies on `String::push`: the string gains `c` at its end.
#[verifier::external_body]
fn push_char(s: &mut String, c: char)
    ensures
        final(s)@ == old(s)@.push(c),
{
    s.push(c)
}

fn push_decimal(s: &mut String, n: u32)
    ensures
        final(s)@ == old(s)@ + decimal(n as nat),
    decreases n,
{
    if n >= 10 {
        push_decimal(s, n / 10);
    }
    let d: u8 = (n % 10) as u8;
    push_char(s, (d + 48) as char);
    assert(final(s)@ =~= old(s)@ + decimal(n as nat));
}

/// The name of the symbol that stands for aperture `aperture_id`.
pub fn aperture_id_as_string(aperture_id: i32) -> (r: String)
    ensures
        r@ == symbol_name(aperture_id),
{
    let mut s = String::new();
    push_char(&mut s, 'a');
    push_char(&mut s, 'p');
    push_char(&mut s, 'e');
    push_char(&mut s, 'r');
    push_char(&mut s, 't');
    push_char(&mut s, 'u');
    push_char(&mut s, 'r');
    push_char(&mut s, 'e');
    push_char(&mut s, '_');
    push_char(&mut s, 'i');
    push_char(&mut s, 'd');
    push_char(&mut s, '_');
    if aperture_id < 0 {
        push_char(&mut s, '-');
        let mag: u32 = (-(aperture_id as i64)) as u32;
        push_decimal(&mut s, mag);
    } else {
        push_decimal(&mut s, aperture_id as u32);
    }
    assert(s@ =~= symbol_name(aperture_id));
    s
}

} // verus!
