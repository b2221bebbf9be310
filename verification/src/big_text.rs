//! Headers in double height, for terminals that scale text themselves.

use crate::strings::push_char;
use vstd::prelude::*;
use vstd::string::{StrSliceExecFns, StringExecFns};

verus! {

/// A header's text and its tier, from 1 for the largest to 6.
pub struct BigText<'a> {
    pub text: &'a str,
    pub tier: u8,
}

/// The scale of a tier as a fraction of the double height: numerator and
/// denominator.
pub open spec fn size_ratio_of(tier: u8) -> (u8, u8) {
    if tier == 1 {
        (7, 7)
    } else if tier == 2 {
        (5, 6)
    } else if tier == 3 {
        (3, 4)
    } else if tier == 4 {
        (2, 3)
    } else if tier == 5 {
        (3, 5)
    } else {
        (1, 3)
    }
}

/// The character of a decimal digit.
pub open spec fn digit_char(digit: int) -> char {
    if digit == 0 {
        '0'
    } else if digit == 1 {
        '1'
    } else if digit == 2 {
        '2'
    } else if digit == 3 {
        '3'
    } else if digit == 4 {
        '4'
    } else if digit == 5 {
        '5'
    } else if digit == 6 {
        '6'
    } else if digit == 7 {
        '7'
    } else if digit == 8 {
        '8'
    } else {
        '9'
    }
}

/// A number written in decimal digits.
pub open spec fn decimal(number: nat) -> Seq<char>
    decreases number,
{
    if number < 10 {
        seq![digit_char(number as int)]
    } else {
        decimal(number / 10).push(digit_char((number % 10) as int))
    }
}

/// What erases `width` cells from the cursor on and switches line wrap
/// off.
pub open spec fn erase_sequence(width: u16) -> Seq<char> {
    "\x1b["@ + decimal(width as nat) + "X\x1B[?7l"@
}

/// What opens a piece of text at double height, scaled by `n` over `d`.
pub open spec fn chunk_head(n: u8, d: u8) -> Seq<char> {
    "\x1b]66;s=2:n="@ + decimal(n as nat) + ":d="@ + decimal(d as nat) + ":w="@ + decimal(
        n as nat,
    ) + ";"@
}

/// The text in pieces of at most `d` characters, each opened by `head` and
/// closed by the string terminator.
pub open spec fn sizing_chunks(head: Seq<char>, d: int, chars: Seq<char>) -> Seq<char>
    decreases chars.len(),
{
    if chars.len() == 0 || d <= 0 {
        Seq::empty()
    } else if chars.len() <= d {
        head + chars + "\x1b\\"@
    } else {
        head + chars.subrange(0, d) + "\x1b\\"@ + sizing_chunks(
            head,
            d,
            chars.subrange(d, chars.len() as int),
        )
    }
}

/// What a terminal that scales text is sent for a header: the two rows of
/// the header are erased, then the text follows in scaled pieces.
pub open spec fn sizing_sequence(text: Seq<char>, tier: u8, width: u16) -> Seq<char> {
    erase_sequence(width) + "\x1b[1B"@ + erase_sequence(width) + "\x1b[1A"@ + sizing_chunks(
        chunk_head(size_ratio_of(tier).0, size_ratio_of(tier).1),
        size_ratio_of(tier).1 as int,
        text,
    )
}

/// Appends a number in decimal digits.
pub fn push_decimal(out: &mut String, number: u16)
    ensures
        final(out)@ == old(out)@ + decimal(number as nat),
    decreases number,
{
    if number >= 10 {
        push_decimal(out, number / 10);
    }
    let digit = number % 10;
    let c = if digit == 0 {
        '0'
    } else if digit == 1 {
        '1'
    } else if digit == 2 {
        '2'
    } else if digit == 3 {
        '3'
    } else if digit == 4 {
        '4'
    } else if digit == 5 {
        '5'
    } else if digit == 6 {
        '6'
    } else if digit == 7 {
        '7'
    } else if digit == 8 {
        '8'
    } else {
        '9'
    };
    push_char(out, c);
    assert(out@ =~= old(out)@ + decimal(number as nat));
}

impl<'a> BigText<'a> {
    /// A header with the text `text`, of the tier `tier`.
    pub fn new(text: &'a str, tier: u8) -> (big: Self)
        ensures
            big.text@ == text@,
            big.tier == tier,
    {
        BigText { text, tier }
    }

    /// The scale of a tier: numerator and denominator, both from 1 to 7.
    pub fn size_ratio(tier: u8) -> (ratio: (u8, u8))
        ensures
            ratio == size_ratio_of(tier),
            1 <= ratio.0 <= 7,
            1 <= ratio.1 <= 7,
    {
        match tier {
            1 => (7, 7),
            2 => (5, 6),
            3 => (3, 4),
            4 => (2, 3),
            5 => (3, 5),
            _ => (1, 3),
        }
    }

    /// What the terminal is sent to show the header in an area `area_width`
    /// cells wide.
    pub fn text_sizing_sequence(&self, area_width: u16) -> (symbol: String)
        ensures
            symbol@ == sizing_sequence(self.text@, self.tier, area_width),
    {
        let (n, d) = Self::size_ratio(self.tier);
        let mut symbol = String::new();
        symbol.append("\x1b[");
        push_decimal(&mut symbol, area_width);
        symbol.append("X\x1B[?7l");
        symbol.append("\x1b[1B");
        symbol.append("\x1b[");
        push_decimal(&mut symbol, area_width);
        symbol.append("X\x1B[?7l");
        symbol.append("\x1b[1A");
        let ghost erased = symbol@;
        assert(erased =~= erase_sequence(area_width) + "\x1b[1B"@ + erase_sequence(area_width)
            + "\x1b[1A"@);

        let mut head = String::new();
        head.append("\x1b]66;s=2:n=");
        push_decimal(&mut head, n as u16);
        head.append(":d=");
        push_decimal(&mut head, d as u16);
        head.append(":w=");
        push_decimal(&mut head, n as u16);
        head.append(";");
        assert(head@ =~= chunk_head(n, d));

        let ghost chars = self.text@;
        let total = self.text.unicode_len();
        let mut start: usize = 0;
        assert(chars.subrange(0, total as int) =~= chars);
        while start < total
            invariant
                total == chars.len(),
                chars == self.text@,
                start <= total,
                1 <= d <= 7,
                symbol@ + sizing_chunks(head@, d as int, chars.subrange(start as int, total as int))
                    == erased + sizing_chunks(head@, d as int, chars),
            decreases total - start,
        {
            let end: usize = if total - start <= d as usize {
                total
            } else {
                start + d as usize
            };
            let ghost before = symbol@;
            let ghost rest = chars.subrange(start as int, total as int);
            symbol.append(head.as_str());
            let mut at: usize = start;
            while at < end
                invariant
                    total == chars.len(),
                    chars == self.text@,
                    start <= at <= end <= total,
                    symbol@ == before + head@ + chars.subrange(start as int, at as int),
                decreases end - at,
            {
                push_char(&mut symbol, self.text.get_char(at));
                assert(symbol@ =~= before + head@ + chars.subrange(start as int, at + 1));
                at += 1;
            }
            symbol.append("\x1b\\");
            proof {
                let left = chars.subrange(end as int, total as int);
                assert(chars.subrange(start as int, end as int) =~= rest.subrange(
                    0,
                    end - start,
                ));
                if end == total {
                    assert(rest.subrange(0, end - start) =~= rest);
                    assert(sizing_chunks(head@, d as int, left) =~= Seq::<char>::empty());
                } else {
                    assert(left =~= rest.subrange(d as int, rest.len() as int));
                }
                assert(symbol@ + sizing_chunks(head@, d as int, left) =~= before + sizing_chunks(
                    head@,
                    d as int,
                    rest,
                ));
            }
            start = end;
        }
        assert(chars.subrange(0, total as int) =~= chars);
        assert(symbol@ =~= erased + sizing_chunks(head@, d as int, chars));
        symbol
    }
}

} // verus!
