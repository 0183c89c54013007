use vstd::prelude::*;
use vstd::string::StringSliceAdditionalSpecFns;
use crate::dump::{decimal, decimal_padded, push_decimal, push_decimal_padded};
use crate::level::{Colour, Level};

verus! {

/// Terminal escape sequence that selects `c`.
pub open spec fn colour_code(c: Colour) -> Seq<u8> {
    let esc: Seq<u8> = seq![27u8, 91u8];
    match c {
        Colour::Default => esc + seq![48u8, 109u8],
        Colour::Red => esc + seq![51u8, 49u8, 109u8],
        Colour::Green => esc + seq![51u8, 50u8, 109u8],
        Colour::Yellow => esc + seq![51u8, 51u8, 109u8],
        Colour::Blue => esc + seq![51u8, 52u8, 109u8],
        Colour::Purple => esc + seq![51u8, 53u8, 109u8],
        Colour::Grey => esc + seq![49u8, 59u8, 51u8, 48u8, 109u8],
    }
}

/// Record header: `<timestamp, width 6> <flag> <thread>[<source>] - `.
pub open spec fn header(timestamp: u64, level: Level, thread: u64, source: Seq<u8>) -> Seq<u8> {
    decimal_padded(timestamp as nat, 6) + seq![32u8, level.spec_flag() as u8, 32u8] + decimal(
        thread as nat,
    ) + seq![91u8] + source + seq![93u8, 32u8, 45u8, 32u8]
}

/// What `start` writes: the level's colour, then the header.
pub open spec fn start_text(timestamp: u64, level: Level, thread: u64, source: Seq<u8>) -> Seq<u8> {
    colour_code(level.spec_colour()) + header(timestamp, level, thread, source)
}

/// What `end` writes: colour reset and a newline.
pub open spec fn end_text() -> Seq<u8> {
    colour_code(Colour::Default).push(10u8)
}

/// The console sink. Bytes are collected here until the console driver takes them.
pub struct Sink {
    out: Vec<u8>,
}

impl View for Sink {
    type V = Seq<u8>;

    /// Bytes written and not yet taken.
    closed spec fn view(&self) -> Seq<u8> {
        self.out@
    }
}

fn push_all(out: &mut Vec<u8>, s: &[u8])
    ensures
        final(out)@ == old(out)@ + s@,
{
    let mut i: usize = 0;
    while i < s.len()
        invariant
            i <= s@.len(),
            out@ == old(out)@ + s@.subrange(0, i as int),
        decreases s@.len() - i,
    {
        out.push(s[i]);
        i = i + 1;
        assert(out@ =~= old(out)@ + s@.subrange(0, i as int));
    }
    assert(s@.subrange(0, s@.len() as int) =~= s@);
}

impl Sink {
    pub fn new() -> (r: Sink)
        ensures
            r@ == Seq::<u8>::empty(),
    {
        Sink { out: Vec::new() }
    }

    /// Writes the escape sequence that selects `colour`.
    pub fn set_colour(&mut self, colour: Colour)
        ensures
            final(self)@ == old(self)@ + colour_code(colour),
    {
        let ghost before = self.out@;
        self.out.push(27u8);
        self.out.push(91u8);
        match colour {
            Colour::Default => {
                self.out.push(48u8);
            },
            Colour::Red => {
                self.out.push(51u8);
                self.out.push(49u8);
            },
            Colour::Green => {
                self.out.push(51u8);
                self.out.push(50u8);
            },
            Colour::Yellow => {
                self.out.push(51u8);
                self.out.push(51u8);
            },
            Colour::Blue => {
                self.out.push(51u8);
                self.out.push(52u8);
            },
            Colour::Purple => {
                self.out.push(51u8);
                self.out.push(53u8);
            },
            Colour::Grey => {
                self.out.push(49u8);
                self.out.push(59u8);
                self.out.push(51u8);
                self.out.push(48u8);
            },
        }
        self.out.push(109u8);
        assert(self.out@ =~= before + colour_code(colour));
    }

    /// Starts a record: selects the level's colour and writes the header.
    pub fn start(&mut self, timestamp: u64, level: Level, thread: u64, source: &str)
        ensures
            final(self)@ == old(self)@ + start_text(timestamp, level, thread, source.spec_bytes()),
    {
        self.set_colour(level.to_colour());
        let ghost coloured = self.out@;
        push_decimal_padded(&mut self.out, timestamp, 6);
        self.out.push(32u8);
        self.out.push(level.to_flag() as u8);
        self.out.push(32u8);
        push_decimal(&mut self.out, thread);
        self.out.push(91u8);
        push_all(&mut self.out, source.as_bytes());
        self.out.push(93u8);
        self.out.push(32u8);
        self.out.push(45u8);
        self.out.push(32u8);
        assert(self.out@ =~= coloured + header(timestamp, level, thread, source.spec_bytes()));
        assert(self@ =~= old(self)@ + start_text(timestamp, level, thread, source.spec_bytes()));
    }

    /// Writes text as it is.
    pub fn write(&mut self, s: &str)
        ensures
            final(self)@ == old(self)@ + s.spec_bytes(),
    {
        push_all(&mut self.out, s.as_bytes());
    }

    /// Ends a record: resets the colour and writes a newline.
    pub fn end(&mut self)
        ensures
            final(self)@ == old(self)@ + end_text(),
    {
        self.set_colour(Colour::Default);
        self.out.push(10u8);
    }

    /// Hands the collected bytes to the console driver and empties the sink.
    pub fn take_output(&mut self) -> (r: Vec<u8>)
        ensures
            r@ == old(self)@,
            final(self)@ == Seq::<u8>::empty(),
    {
        let mut r: Vec<u8> = Vec::new();
        std::mem::swap(&mut r, &mut self.out);
        r
    }
}

} // verus!
