//! Serial debug channel.
//!
//! Debug output leaves the machine through a UART-class device, one byte
//! at a time; the host on the other end of the wire sees a plain
//! character stream. [`DebugChannel`] holds that stream: everything
//! transmitted since the device was programmed, in order. The register
//! pokes that move each byte into the transmit buffer are the
//! surrounding binary's job; what the host ends up reading is pinned
//! down here.

use vstd::prelude::*;

verus! {

use vstd::string::StringExecFns;

/// Decimal digit character, for `d` between zero and nine.
pub open spec fn digit_char(d: int) -> char {
    if d == 0 {
        '0'
    } else if d == 1 {
        '1'
    } else if d == 2 {
        '2'
    } else if d == 3 {
        '3'
    } else if d == 4 {
        '4'
    } else if d == 5 {
        '5'
    } else if d == 6 {
        '6'
    } else if d == 7 {
        '7'
    } else if d == 8 {
        '8'
    } else {
        '9'
    }
}

/// Decimal rendering of `n`, most significant digit first, no sign and
/// no leading zeros.
pub open spec fn dec_rep(n: nat) -> Seq<char>
    decreases n,
{
    if n < 10 {
        seq![digit_char(n as int)]
    } else {
        dec_rep((n / 10) as nat).push(digit_char((n % 10) as int))
    }
}

/// The serial channel as the host sees it: the character stream
/// transmitted since the device was programmed. Construction stands for
/// the one-time initialization sequence; there is no teardown.
pub struct DebugChannel {
    /// Every character transmitted so far, in order.
    pub transmitted: String,
}

impl DebugChannel {
    /// A freshly programmed channel: nothing transmitted yet.
    pub fn new() -> (channel: DebugChannel)
        ensures
            channel.transmitted@ == Seq::<char>::empty(),
    {
        DebugChannel { transmitted: String::new() }
    }

    /// Transmit a string, character by character, in order.
    pub fn serial_print(&mut self, s: &str)
        ensures
            final(self).transmitted@ == old(self).transmitted@ + s@,
    {
        self.transmitted.append(s);
    }

    /// Transmit a string followed by a line feed.
    pub fn serial_println(&mut self, s: &str)
        ensures
            final(self).transmitted@ == old(self).transmitted@ + s@ + "\n"@,
    {
        self.transmitted.append(s);
        self.transmitted.append("\n");
    }

    /// Transmit the decimal rendering of a number.
    pub fn serial_print_number(&mut self, n: usize)
        ensures
            final(self).transmitted@ == old(self).transmitted@ + dec_rep(n as nat),
    {
        let s = usize_to_string(n);
        self.transmitted.append(s.as_str());
    }
}

/// Formatted-output entry point of the channel: every higher-level
/// print goes through here with the text already laid out.
pub fn _print(channel: &mut DebugChannel, s: &str)
    ensures
        final(channel).transmitted@ == old(channel).transmitted@ + s@,
{
    channel.serial_print(s);
}

/// One decimal digit as a string slice.
fn digit_str(d: usize) -> (s: &'static str)
    requires
        d < 10,
    ensures
        s@ == seq![digit_char(d as int)],
{
    if d == 0 {
        proof {
            reveal_strlit("0");
            assert("0"@ =~= seq![digit_char(0int)]);
        }
        "0"
    } else if d == 1 {
        proof {
            reveal_strlit("1");
            assert("1"@ =~= seq![digit_char(1int)]);
        }
        "1"
    } else if d == 2 {
        proof {
            reveal_strlit("2");
            assert("2"@ =~= seq![digit_char(2int)]);
        }
        "2"
    } else if d == 3 {
        proof {
            reveal_strlit("3");
            assert("3"@ =~= seq![digit_char(3int)]);
        }
        "3"
    } else if d == 4 {
        proof {
            reveal_strlit("4");
            assert("4"@ =~= seq![digit_char(4int)]);
        }
        "4"
    } else if d == 5 {
        proof {
            reveal_strlit("5");
            assert("5"@ =~= seq![digit_char(5int)]);
        }
        "5"
    } else if d == 6 {
        proof {
            reveal_strlit("6");
            assert("6"@ =~= seq![digit_char(6int)]);
        }
        "6"
    } else if d == 7 {
        proof {
            reveal_strlit("7");
            assert("7"@ =~= seq![digit_char(7int)]);
        }
        "7"
    } else if d == 8 {
        proof {
            reveal_strlit("8");
            assert("8"@ =~= seq![digit_char(8int)]);
        }
        "8"
    } else {
        proof {
            reveal_strlit("9");
            assert("9"@ =~= seq![digit_char(9int)]);
        }
        "9"
    }
}

/// Decimal rendering of a number as an owned string.
pub fn usize_to_string(n: usize) -> (s: String)
    ensures
        s@ == dec_rep(n as nat),
    decreases n,
{
    if n < 10 {
        let mut s = String::new();
        s.append(digit_str(n));
        proof {
            assert(s@ =~= dec_rep(n as nat));
        }
        s
    } else {
        let mut s = usize_to_string(n / 10);
        s.append(digit_str(n % 10));
        proof {
            assert(s@ =~= dec_rep(n as nat));
        }
        s
    }
}

} // verus!
