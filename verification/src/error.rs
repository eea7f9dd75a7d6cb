//! Errors of loading and running programs, and their messages.

use vstd::prelude::*;
use vstd::string::*;

verus! {

/// The ways in which loading or running a CHIP-8 program can fail.
#[derive(Debug, Clone, Copy, PartialEq, Eq, Structural)]
pub enum EmulatorError {
    /// The program does not fit in the 3584 bytes above address 0x200.
    ProgramTooLarge,
    /// A `00EE` (return) was executed with no pending subroutine call.
    EmptyReturnStack,
    /// The fetched opcode is not one this interpreter implements.
    InvalidInstruction(u16),
}

/// The lower-case hexadecimal digit for `d < 16`.
pub open spec fn hex_digit(d: nat) -> char {
    if d < 10 {
        ((d + 48) as u32) as char
    } else {
        ((d + 87) as u32) as char
    }
}

/// `n` in lower-case hexadecimal, without leading zeros (`0` for zero).
pub open spec fn hex_lower(n: nat) -> Seq<char>
    decreases n,
{
    if n < 16 {
        seq![hex_digit(n)]
    } else {
        hex_lower(n / 16) + seq![hex_digit(n % 16)]
    }
}

/// The value of a lower-case hexadecimal digit, or -1 for any other character.
pub open spec fn hex_digit_value(c: char) -> int {
    let v = c as u32 as int;
    if 48 <= v <= 57 {
        v - 48
    } else if 97 <= v <= 102 {
        v - 87
    } else {
        -1
    }
}

/// The number that a string of lower-case hexadecimal digits denotes,
/// most significant digit first.
pub open spec fn hex_value(s: Seq<char>) -> int
    decreases s.len(),
{
    if s.len() == 0 {
        0
    } else {
        hex_value(s.drop_last()) * 16 + hex_digit_value(s.last())
    }
}

proof fn lemma_digit_value(d: nat)
    requires
        d < 16,
    ensures
        hex_digit_value(hex_digit(d)) == d,
{
    if d < 10 {
        assert(((d + 48) as u32) as char as u32 == d + 48);
    } else {
        assert(((d + 87) as u32) as char as u32 == d + 87);
    }
}

/// `hex_lower(n)` is a non-empty string of lower-case hexadecimal digits
/// that reads back as `n` and has no leading zero.
pub proof fn law_hex_round_trip(n: nat)
    ensures
        hex_value(hex_lower(n)) == n,
        hex_lower(n).len() >= 1,
        hex_lower(n).len() == 1 <==> n < 16,
        forall|k: int|
            0 <= k < hex_lower(n).len() ==> 0 <= #[trigger] hex_digit_value(hex_lower(n)[k]) < 16,
        hex_lower(n).len() > 1 ==> hex_digit_value(hex_lower(n)[0]) > 0,
    decreases n,
{
    if n < 16 {
        assert(hex_lower(n).drop_last() =~= Seq::<char>::empty());
        assert(hex_value(Seq::<char>::empty()) == 0);
        lemma_digit_value(n);
        assert(hex_value(hex_lower(n)) == 0 * 16 + n);
    } else {
        law_hex_round_trip(n / 16);
        lemma_digit_value(n % 16);
        let h = hex_lower(n);
        assert(h.drop_last() =~= hex_lower(n / 16));
        assert(h.last() == hex_digit(n % 16));
        assert forall|k: int| 0 <= k < h.len() implies 0 <= #[trigger] hex_digit_value(h[k]) < 16 by {
            if k < h.len() - 1 {
                assert(h[k] == hex_lower(n / 16)[k]);
            }
        }
        assert(h[0] == hex_lower(n / 16)[0]);
        if n / 16 < 16 {
            assert(hex_lower(n / 16)[0] == hex_digit(n / 16));
        }
        assert(hex_value(h) == hex_value(hex_lower(n / 16)) * 16 + (n % 16));
        assert((n / 16) * 16 + n % 16 == n);
    }
}

/// The message of an error, as the program shows it to its user.
pub open spec fn error_message(e: EmulatorError) -> Seq<char> {
    match e {
        EmulatorError::ProgramTooLarge => "program is too large (limit is 3584 bytes)"@,
        EmulatorError::EmptyReturnStack => "tried to get return adress from empty return stack"@,
        EmulatorError::InvalidInstruction(w) => "invalid or unimplemented instruction: 0x"@
            + hex_lower(w as nat),
    }
}

fn hex_digit_str(d: u16) -> (s: &'static str)
    requires
        d < 16,
    ensures
        s@ == seq![hex_digit(d as nat)],
{
    proof {
        reveal_strlit("0");
        reveal_strlit("1");
        reveal_strlit("2");
        reveal_strlit("3");
        reveal_strlit("4");
        reveal_strlit("5");
        reveal_strlit("6");
        reveal_strlit("7");
        reveal_strlit("8");
        reveal_strlit("9");
        reveal_strlit("a");
        reveal_strlit("b");
        reveal_strlit("c");
        reveal_strlit("d");
        reveal_strlit("e");
        reveal_strlit("f");
    }
    let s = match d {
        0 => "0",
        1 => "1",
        2 => "2",
        3 => "3",
        4 => "4",
        5 => "5",
        6 => "6",
        7 => "7",
        8 => "8",
        9 => "9",
        10 => "a",
        11 => "b",
        12 => "c",
        13 => "d",
        14 => "e",
        _ => "f",
    };
    assert(s@ =~= seq![hex_digit(d as nat)]);
    s
}

fn append_hex(out: &mut String, n: u16)
    ensures
        final(out)@ == old(out)@ + hex_lower(n as nat),
    decreases n,
{
    if n >= 16 {
        append_hex(out, n / 16);
    }
    out.append(hex_digit_str(n % 16));
    assert(out@ =~= old(out)@ + hex_lower(n as nat));
}

impl EmulatorError {
    /// The message shown for this error.
    pub fn message(&self) -> (s: String)
        ensures
            s@ == error_message(*self),
    {
        match self {
            EmulatorError::ProgramTooLarge => String::from_str(
                "program is too large (limit is 3584 bytes)",
            ),
            EmulatorError::EmptyReturnStack => String::from_str(
                "tried to get return adress from empty return stack",
            ),
            EmulatorError::InvalidInstruction(w) => {
                let mut s = String::from_str("invalid or unimplemented instruction: 0x");
                append_hex(&mut s, *w);
                s
            },
        }
    }
}

} // verus!
