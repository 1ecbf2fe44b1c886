//! The serial-parameter settings block and its string-form parser.
//!
//! A settings string such as `9600:8E1` names the baud rate, then after a
//! colon the character length (`7` or `8`), the parity letter (`E`, `O` or
//! `N`, either case), and the stop bits (`1`, `2` or `1.5`).
//!
//! The settings block carries the character length for host-side
//! configuration; the wire layout of serial parameters (id 8 in the message
//! catalog) does not carry it.

use vstd::prelude::*;

use crate::serial_params::CharLength;
use crate::serial_params::Parity;
use crate::serial_params::StopBits;

verus! {

/// A full set of serial-port parameters for one channel.
#[derive(Debug, PartialEq, Eq, Clone, Copy)]
pub struct SerialParams {
    pub channel: u8,
    pub baud: u32,
    pub char_len: CharLength,
    pub parity: Parity,
    pub stop: StopBits,
}

impl Default for SerialParams {
    /// Channel 0 at baud 0, eight-bit characters, no parity, one stop bit.
    fn default() -> (r: Self)
        ensures
            r == (SerialParams {
                channel: 0,
                baud: 0,
                char_len: CharLength::Eight,
                parity: Parity::NoParity,
                stop: StopBits::One,
            }),
    {
        SerialParams {
            channel: 0,
            baud: 0,
            char_len: CharLength::Eight,
            parity: Parity::NoParity,
            stop: StopBits::One,
        }
    }
}

/// Why a settings string was rejected; each kind maps to the message text
/// of [`settings_error_text`].
pub enum SettingsError {
    /// Not exactly two colon-separated parts, or the second part is neither
    /// three nor five characters long.
    Format,
    /// The part before the colon is not an unsigned decimal number that
    /// fits 32 bits (one leading `+` is allowed).
    Baud,
    /// The character-length letter is neither `7` nor `8`.
    CharLen,
    /// The parity letter is none of `E`, `O`, `N` in either case.
    Parity,
    /// The stop-bits section is none of `1`, `2`, `1.5`.
    Stop,
}

/// The message text for each rejection kind. The stop-bits check reports
/// the same text as the parity check.
pub open spec fn settings_error_text(e: SettingsError) -> Seq<char> {
    match e {
        SettingsError::Format => "invalid Params format"@,
        SettingsError::Baud => "invalid baud"@,
        SettingsError::CharLen => "invalid char length"@,
        SettingsError::Parity => "invalid parity"@,
        SettingsError::Stop => "invalid parity"@,
    }
}

/// Whether a character is a decimal digit.
pub open spec fn is_digit(c: char) -> bool {
    48 <= c as u32 <= 57
}

/// The value of a decimal digit character.
pub open spec fn digit_val(c: char) -> int {
    c as u32 - 48
}

/// Whether every character in the run is a decimal digit.
pub open spec fn all_digits(s: Seq<char>) -> bool {
    forall|i: int| 0 <= i < s.len() ==> is_digit(#[trigger] s[i])
}

/// The value of a run of decimal digit characters, most significant first.
pub open spec fn dec_value(s: Seq<char>) -> int
    decreases s.len(),
{
    if s.len() == 0 {
        0
    } else {
        10 * dec_value(s.drop_last()) + digit_val(s.last())
    }
}

/// The index of the first colon in the run, or the run's length if it has
/// none.
pub open spec fn first_colon(s: Seq<char>) -> int
    decreases s.len(),
{
    if s.len() == 0 {
        0
    } else if s[0] == ':' {
        0
    } else {
        1 + first_colon(s.skip(1))
    }
}

/// What [`first_colon`] returns: an in-range index of a colon preceded by
/// none, or the run's length when the run has no colon.
pub proof fn lemma_first_colon(s: Seq<char>)
    ensures
        0 <= first_colon(s) <= s.len(),
        first_colon(s) < s.len() ==> s[first_colon(s)] == ':',
        forall|j: int| 0 <= j < first_colon(s) ==> s[j] != ':',
    decreases s.len(),
{
    if s.len() > 0 && s[0] != ':' {
        lemma_first_colon(s.skip(1));
        assert forall|j: int| 0 <= j < first_colon(s) implies s[j] != ':' by {
            if j > 0 {
                assert(s.skip(1)[j - 1] != ':');
            }
        }
    }
}

/// A run of digits is worth no less than any of its prefixes.
pub proof fn lemma_dec_value_prefix(s: Seq<char>, m: int)
    requires
        all_digits(s),
        0 <= m <= s.len(),
    ensures
        0 <= dec_value(s.take(m)) <= dec_value(s),
    decreases s.len(),
{
    if m == s.len() {
        assert(s.take(m) =~= s);
        if s.len() > 0 {
            assert(s.drop_last() =~= s.take(s.len() - 1));
            lemma_dec_value_prefix(s.drop_last(), s.len() - 1);
        }
    } else {
        let front = s.drop_last();
        assert(forall|i: int| 0 <= i < front.len() ==> is_digit(#[trigger] front[i]));
        lemma_dec_value_prefix(front, m);
        assert(front.take(m) =~= s.take(m));
    }
}

/// The number named by a run of characters taken as decimal digits: at
/// least one character, all digits, the whole worth at most `u32::MAX`;
/// `None` otherwise.
pub open spec fn spec_parse_digits(digits: Seq<char>) -> Option<u32> {
    if digits.len() >= 1 && all_digits(digits) && dec_value(digits) <= u32::MAX {
        Some(dec_value(digits) as u32)
    } else {
        None
    }
}

/// The number named by a baud string: one optional leading `+`, then at
/// least one decimal digit, the whole worth at most `u32::MAX`; `None`
/// otherwise.
pub open spec fn spec_parse_u32(s: Seq<char>) -> Option<u32> {
    if s.len() > 0 && s[0] == '+' {
        spec_parse_digits(s.skip(1))
    } else {
        spec_parse_digits(s)
    }
}

/// The parity setting named by one settings letter, if any.
pub open spec fn parity_of_char(c: char) -> Option<Parity> {
    if c == 'e' || c == 'E' {
        Some(Parity::Even)
    } else if c == 'o' || c == 'O' {
        Some(Parity::Odd)
    } else if c == 'n' || c == 'N' {
        Some(Parity::NoParity)
    } else {
        None
    }
}

/// The stop-bits setting named by the settings characters after the parity
/// letter, if any: `1`, `2`, or `1.5`.
pub open spec fn stop_bits_of_chars(s: Seq<char>) -> Option<StopBits> {
    if s.len() == 1 {
        if s[0] == '1' {
            Some(StopBits::One)
        } else if s[0] == '2' {
            Some(StopBits::Two)
        } else {
            None
        }
    } else if s.len() == 3 {
        if s[0] == '1' && s[1] == '.' && s[2] == '5' {
            Some(StopBits::OneAndHalf)
        } else {
            None
        }
    } else {
        None
    }
}

/// What parsing a settings string yields: the parameter block, or the first
/// rejection in this order — format, baud, character length, parity, stop
/// bits.
pub open spec fn spec_from_str(channel: u8, s: Seq<char>) -> Result<SerialParams, SettingsError> {
    let fc = first_colon(s);
    if fc >= s.len() {
        Err(SettingsError::Format)
    } else {
        let head = s.take(fc);
        let tail = s.skip(fc + 1);
        if first_colon(tail) < tail.len() || (tail.len() != 3 && tail.len() != 5) {
            Err(SettingsError::Format)
        } else {
            match spec_parse_u32(head) {
                None => Err(SettingsError::Baud),
                Some(baud) => if tail[0] != '7' && tail[0] != '8' {
                    Err(SettingsError::CharLen)
                } else {
                    let char_len = if tail[0] == '7' {
                        CharLength::Seven
                    } else {
                        CharLength::Eight
                    };
                    match parity_of_char(tail[1]) {
                        None => Err(SettingsError::Parity),
                        Some(parity) => match stop_bits_of_chars(tail.skip(2)) {
                            None => Err(SettingsError::Stop),
                            Some(stop) => Ok(
                                SerialParams { channel, baud, char_len, parity, stop },
                            ),
                        },
                    }
                },
            }
        }
    }
}

/// Reads the characters at `start..end` as a decimal number, exactly as
/// [`spec_parse_digits`] says.
fn parse_decimal(settings: &str, start: usize, end: usize) -> (r: Option<u32>)
    requires
        start <= end <= settings@.len(),
    ensures
        r == spec_parse_digits(settings@.subrange(start as int, end as int)),
{
    let ghost digits = settings@.subrange(start as int, end as int);
    if start == end {
        return None;
    }
    let mut val: u32 = 0;
    let mut i: usize = start;
    while i < end
        invariant
            start <= i <= end <= settings@.len(),
            digits == settings@.subrange(start as int, end as int),
            forall|j: int| start <= j < i ==> is_digit(#[trigger] settings@[j]),
            val == dec_value(settings@.subrange(start as int, i as int)),
        decreases end - i,
    {
        let c = settings.get_char(i);
        let d = c as u32;
        if d < 48 || d > 57 {
            proof {
                assert(digits[i - start] == settings@[i as int]);
                assert(!all_digits(digits));
            }
            return None;
        }
        let d = d - 48;
        proof {
            assert(settings@.subrange(start as int, i as int + 1).drop_last() =~= settings@.subrange(
                start as int,
                i as int,
            ));
            assert(settings@.subrange(start as int, i as int + 1).last() == settings@[i as int]);
        }
        if val > (u32::MAX - d) / 10 {
            proof {
                let x = (u32::MAX - d) as int;
                vstd::arithmetic::div_mod::lemma_fundamental_div_mod(x, 10);
                vstd::arithmetic::div_mod::lemma_mod_bound(x, 10);
                assert(10 * (val as int) + d > u32::MAX);
                let upto = settings@.subrange(start as int, i as int + 1);
                assert(dec_value(upto) == 10 * (val as int) + d);
                if all_digits(digits) {
                    lemma_dec_value_prefix(digits, i - start + 1);
                    assert(digits.take(i - start + 1) =~= upto);
                    assert(dec_value(digits) > u32::MAX);
                }
            }
            return None;
        }
        proof {
            let x = (u32::MAX - d) as int;
            vstd::arithmetic::div_mod::lemma_fundamental_div_mod(x, 10);
            vstd::arithmetic::div_mod::lemma_mod_bound(x, 10);
            assert(10 * (val as int) + d <= u32::MAX);
        }
        val = val * 10 + d;
        i = i + 1;
    }
    proof {
        assert(digits =~= settings@.subrange(start as int, end as int));
    }
    Some(val)
}

/// Finds the first colon at or after `from`, returning the string's
/// character length if there is none.
fn find_colon_from(settings: &str, from: usize) -> (r: usize)
    requires
        from <= settings@.len(),
    ensures
        from <= r <= settings@.len(),
        r - from == first_colon(settings@.skip(from as int)),
{
    let ghost t = settings@.skip(from as int);
    proof {
        lemma_first_colon(t);
    }
    let n = settings.unicode_len();
    let mut i: usize = from;
    while i < n
        invariant
            from <= i <= n,
            n == settings@.len(),
            t == settings@.skip(from as int),
            i - from <= first_colon(t),
        decreases n - i,
    {
        proof {
            lemma_first_colon(t);
            assert(t[i - from] == settings@[i as int]);
        }
        if settings.get_char(i) == ':' {
            proof {
                assert(first_colon(t) <= i - from);
            }
            return i;
        }
        proof {
            assert(first_colon(t) != i - from);
        }
        i = i + 1;
    }
    proof {
        lemma_first_colon(t);
    }
    n
}

impl SerialParams {
    /// Builds a parameter block for one channel from a settings string,
    /// exactly as [`spec_from_str`] says; a rejected string names its first
    /// rejection as [`settings_error_text`] spells it.
    pub fn from_str(channel: u8, settings: &str) -> (r: Result<Self, &str>)
        ensures
            match spec_from_str(channel, settings@) {
                Ok(p) => r matches Ok(q) && q == p,
                Err(k) => r matches Err(m) && m@ == settings_error_text(k),
            },
    {
        let n = settings.unicode_len();
        let fc = find_colon_from(settings, 0);
        proof {
            assert(settings@.skip(0) =~= settings@);
        }
        if fc == n {
            return Err("invalid Params format");
        }
        let ghost tail = settings@.skip(fc as int + 1);
        let second = find_colon_from(settings, fc + 1);
        proof {
            lemma_first_colon(tail);
        }
        if second < n {
            return Err("invalid Params format");
        }
        let tail_len = n - fc - 1;
        if tail_len != 3 && tail_len != 5 {
            return Err("invalid Params format");
        }

        // Baud: one optional leading plus, then decimal digits.
        let ghost head = settings@.take(fc as int);
        let mut start: usize = 0;
        if settings.get_char(0) == '+' {
            start = 1;
        }
        proof {
            if start == 1 {
                assert(settings@[0] == '+');
                assert(first_colon(settings@) != 0);
                assert(head[0] == '+');
                assert(head.skip(1) =~= settings@.subrange(1, fc as int));
                assert(spec_parse_u32(head) == spec_parse_digits(
                    settings@.subrange(1, fc as int),
                ));
            } else {
                if fc > 0 {
                    assert(head[0] == settings@[0]);
                }
                assert(head =~= settings@.subrange(0, fc as int));
                assert(spec_parse_u32(head) == spec_parse_digits(
                    settings@.subrange(0, fc as int),
                ));
            }
        }
        let val = match parse_decimal(settings, start, fc) {
            Some(v) => v,
            None => {
                return Err("invalid baud");
            },
        };

        // Character length.
        let cl = settings.get_char(fc + 1);
        proof {
            assert(tail[0] == settings@[fc as int + 1]);
        }
        let char_len = if cl == '7' {
            CharLength::Seven
        } else if cl == '8' {
            CharLength::Eight
        } else {
            return Err("invalid char length");
        };

        // Parity letter, either case.
        let pc = settings.get_char(fc + 2);
        proof {
            assert(tail[1] == settings@[fc as int + 2]);
        }
        let parity = if pc == 'e' || pc == 'E' {
            Parity::Even
        } else if pc == 'o' || pc == 'O' {
            Parity::Odd
        } else if pc == 'n' || pc == 'N' {
            Parity::NoParity
        } else {
            return Err("invalid parity");
        };

        // Stop bits: one character, or the three characters of `1.5`.
        proof {
            assert(tail.skip(2) =~= settings@.subrange(fc as int + 3, n as int));
            assert(tail.len() == n - fc - 1);
        }
        let stop = if tail_len == 3 {
            let sc = settings.get_char(fc + 3);
            proof {
                assert(tail.skip(2)[0] == settings@[fc as int + 3]);
            }
            if sc == '1' {
                StopBits::One
            } else if sc == '2' {
                StopBits::Two
            } else {
                return Err("invalid parity");
            }
        } else {
            let s0 = settings.get_char(fc + 3);
            let s1 = settings.get_char(fc + 4);
            let s2 = settings.get_char(fc + 5);
            proof {
                assert(tail.skip(2)[0] == settings@[fc as int + 3]);
                assert(tail.skip(2)[1] == settings@[fc as int + 4]);
                assert(tail.skip(2)[2] == settings@[fc as int + 5]);
            }
            if s0 == '1' && s1 == '.' && s2 == '5' {
                StopBits::OneAndHalf
            } else {
                return Err("invalid parity");
            }
        };

        Ok(SerialParams { channel, baud: val, char_len, parity, stop })
    }
}

} // verus!
