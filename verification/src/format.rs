//! The shortest CSS text for a colour.
use vstd::prelude::*;

use crate::text::bytes_text;
use crate::color::model::Color;
use crate::keywords::{find_opaque_name, keyword_at, keyword_name, opaque_name_index};

verus! {

/// Calls `String::push` from std. Trusted, not proved: the text afterwards is the text before
/// with `c` appended, as the documentation of `String::push` states.
#[verifier::external_body]
fn push_char(s: &mut String, c: char)
    ensures
        final(s)@ == old(s)@.push(c),
{
    s.push(c);
}

/// The lower-case hexadecimal digit for `v < 16`.
pub open spec fn hex_char(v: u8) -> u8 {
    if v < 10 {
        (48 + v) as u8
    } else {
        (87 + v) as u8
    }
}

/// Both hexadecimal digits of `x` are equal, so `x` can be written with one digit.
pub open spec fn doubled(x: u8) -> bool {
    x / 16 == x % 16
}

/// A channel in hexadecimal: one digit when `short`, else two.
pub open spec fn channel_text(x: u8, short: bool) -> Seq<u8> {
    if short {
        seq![hex_char(x / 16)]
    } else {
        seq![hex_char(x / 16), hex_char(x % 16)]
    }
}

/// `#` and the channels in hexadecimal, with or without the alpha channel.
pub open spec fn hex_text(c: Color, alpha: bool, short: bool) -> Seq<u8> {
    seq![35u8] + channel_text(c.r, short) + channel_text(c.g, short) + channel_text(c.b, short)
        + if alpha {
        channel_text(c.a, short)
    } else {
        Seq::<u8>::empty()
    }
}

/// The shortest text for `c`: a translucent colour in 4 or 8 hex digits; an opaque
/// colour in 3 or 6 hex digits, or by the first name of that colour when the name is
/// shorter than the hex form.
pub open spec fn shortest_text(c: Color) -> Seq<u8> {
    if c.a != 255 {
        hex_text(c, true, doubled(c.r) && doubled(c.g) && doubled(c.b) && doubled(c.a))
    } else {
        let hex = hex_text(c, false, doubled(c.r) && doubled(c.g) && doubled(c.b));
        match opaque_name_index(c.r, c.g, c.b) {
            Some(i) => if keyword_name(i as usize).len() < hex.len() {
                keyword_name(i as usize)
            } else {
                hex
            },
            None => hex,
        }
    }
}

/// The lower-case hex digit for `v` (see `hex_char`).
pub fn hex_char_exec(v: u8) -> (c: u8)
    requires
        v < 16,
    ensures
        c == hex_char(v),
{
    if v < 10 {
        48 + v
    } else {
        87 + v
    }
}

/// Appends the hex digits of a channel (see `channel_text`).
fn push_channel(out: &mut Vec<u8>, x: u8, short: bool)
    ensures
        final(out)@ == old(out)@ + channel_text(x, short),
{
    out.push(hex_char_exec(x / 16));
    if !short {
        out.push(hex_char_exec(x % 16));
    }
    assert(final(out)@ =~= old(out)@ + channel_text(x, short));
}

/// The hex text of `c` (see `hex_text`).
pub fn hex_vec(c: Color, alpha: bool, short: bool) -> (s: Vec<u8>)
    ensures
        s@ == hex_text(c, alpha, short),
{
    let mut s: Vec<u8> = Vec::new();
    s.push(35);
    push_channel(&mut s, c.r, short);
    push_channel(&mut s, c.g, short);
    push_channel(&mut s, c.b, short);
    if alpha {
        push_channel(&mut s, c.a, short);
    }
    assert(s@ =~= hex_text(c, alpha, short));
    s
}

/// `x` has two equal hexadecimal digits.
pub fn doubled_exec(x: u8) -> (r: bool)
    ensures
        r == doubled(x),
{
    x / 16 == x % 16
}

/// The shortest text for `c` (see `shortest_text`).
pub fn shortest_bytes(c: Color) -> (s: Vec<u8>)
    ensures
        s@ == shortest_text(c),
{
    if c.a != 255 {
        let short = doubled_exec(c.r) && doubled_exec(c.g) && doubled_exec(c.b) && doubled_exec(c.a);
        return hex_vec(c, true, short);
    }
    let short = doubled_exec(c.r) && doubled_exec(c.g) && doubled_exec(c.b);
    let hex = hex_vec(c, false, short);
    match find_opaque_name(c.r, c.g, c.b) {
        Some(i) => {
            let (name, _) = keyword_at(i);
            let bytes = name.as_bytes();
            if bytes.len() < hex.len() {
                vstd::slice::slice_to_vec(bytes)
            } else {
                hex
            }
        },
        None => hex,
    }
}

/// The string whose characters have the code points `bytes`.
pub fn text_string(bytes: &Vec<u8>) -> (s: String)
    ensures
        s@ == bytes_text(bytes@),
{
    let mut s = String::new();
    let mut i: usize = 0;
    while i < bytes.len()
        invariant
            i <= bytes@.len(),
            s@ == bytes_text(bytes@.take(i as int)),
        decreases bytes.len() - i,
    {
        push_char(&mut s, bytes[i] as char);
        assert(bytes_text(bytes@.take(i + 1)) =~= bytes_text(bytes@.take(i as int)).push(
            bytes@[i as int] as char,
        ));
        i = i + 1;
    }
    assert(bytes@.take(bytes@.len() as int) =~= bytes@);
    s
}

} // verus!
