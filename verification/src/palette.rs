//! Colours and the terminal escape sequences that select them.
use vstd::prelude::*;
use crate::text::{decimal, push_char, push_decimal};

verus! {

/// A 24-bit colour.
#[derive(Clone, Copy, PartialEq, Eq, Debug, Structural)]
pub struct Rgb(pub u8, pub u8, pub u8);

/// The SGR sequence `ESC [ <layer> ; 2 ; r ; g ; b m` that selects a true colour;
/// `layer` is `'3'` for the foreground and `'4'` for the background.
pub open spec fn color_seq(layer: char, c: Rgb) -> Seq<char> {
    seq!['\x1b', '[', layer, '8', ';', '2', ';'] + decimal(c.0 as nat) + seq![';'] + decimal(
        c.1 as nat,
    ) + seq![';'] + decimal(c.2 as nat) + seq!['m']
}

pub open spec fn fg_seq_spec(c: Rgb) -> Seq<char> {
    color_seq('3', c)
}

pub open spec fn bg_seq_spec(c: Rgb) -> Seq<char> {
    color_seq('4', c)
}

/// Appends the colour-selecting sequence of `c` for the given layer.
pub(crate) fn push_color_seq(out: &mut String, layer: char, c: Rgb)
    ensures
        final(out)@ == old(out)@ + color_seq(layer, c),
{
    let ghost start = out@;
    push_char(out, '\x1b');
    push_char(out, '[');
    push_char(out, layer);
    push_char(out, '8');
    push_char(out, ';');
    push_char(out, '2');
    push_char(out, ';');
    push_decimal(out, c.0 as u64);
    push_char(out, ';');
    push_decimal(out, c.1 as u64);
    push_char(out, ';');
    push_decimal(out, c.2 as u64);
    push_char(out, 'm');
    assert(out@ =~= start + color_seq(layer, c));
}

/// One channel of a colour scaled by 0.35 in `f64` and truncated, as the help box dims
/// what lies behind it: 7/20 of the value rounded down, except at 180, where the binary
/// value of 0.35 (just under 0.35) makes the product fall just short of 63.
pub open spec fn backdrop_channel(c: u8) -> u8 {
    if c == 180 {
        62
    } else {
        (c as nat * 7 / 20) as u8
    }
}

pub open spec fn backdrop_spec(c: Rgb) -> Rgb {
    Rgb(backdrop_channel(c.0), backdrop_channel(c.1), backdrop_channel(c.2))
}

fn backdrop_channel_exec(c: u8) -> (r: u8)
    ensures
        r == backdrop_channel(c),
{
    if c == 180 {
        62
    } else {
        ((c as u32) * 7 / 20) as u8
    }
}

impl Rgb {
    /// The escape sequence that makes this the foreground colour.
    pub fn fg_seq(self) -> (s: String)
        ensures
            s@ == fg_seq_spec(self),
    {
        let mut s = String::new();
        push_color_seq(&mut s, '3', self);
        s
    }

    /// The escape sequence that makes this the background colour.
    pub fn bg_seq(self) -> (s: String)
        ensures
            s@ == bg_seq_spec(self),
    {
        let mut s = String::new();
        push_color_seq(&mut s, '4', self);
        s
    }

    /// This colour scaled by 0.35, as it shows behind the help box.
    pub fn backdrop(self) -> (r: Rgb)
        ensures
            r == backdrop_spec(self),
    {
        Rgb(backdrop_channel_exec(self.0), backdrop_channel_exec(self.1), backdrop_channel_exec(self.2))
    }
}

} // verus!
