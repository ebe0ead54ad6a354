use vstd::prelude::*;
use vstd::string::StringExecFns;

verus! {

/// `String::push` of the standard library: the string is extended at its end
/// by exactly the given character.
pub assume_specification[ String::push ](s: &mut String, c: char)
    ensures
        final(s)@ == old(s)@.push(c),
;

/// The character that stands for a single decimal digit.
pub open spec fn digit_char(d: nat) -> char {
    if d == 0 {
        '0'
    } else if d == 1 {
        '1'
    } else if d == 2 {
        '2'
    } else if d == 3 {
        '3'
    } else if d == 4 {
        '4'
    } else if d == 5 {
        '5'
    } else if d == 6 {
        '6'
    } else if d == 7 {
        '7'
    } else if d == 8 {
        '8'
    } else {
        '9'
    }
}

/// The decimal numeral of `n`: most significant digit first, no leading zero
/// except for zero itself.
pub open spec fn decimal(n: nat) -> Seq<char>
    decreases n,
{
    if n < 10 {
        seq![digit_char(n)]
    } else {
        decimal(n / 10).push(digit_char(n % 10))
    }
}

fn digit_of(d: u8) -> (c: char)
    requires
        d < 10,
    ensures
        c == digit_char(d as nat),
{
    if d == 0 {
        '0'
    } else if d == 1 {
        '1'
    } else if d == 2 {
        '2'
    } else if d == 3 {
        '3'
    } else if d == 4 {
        '4'
    } else if d == 5 {
        '5'
    } else if d == 6 {
        '6'
    } else if d == 7 {
        '7'
    } else if d == 8 {
        '8'
    } else {
        '9'
    }
}

/// Appends the decimal numeral of `n` to `out`.
pub fn push_decimal(out: &mut String, n: u64)
    ensures
        final(out)@ == old(out)@ + decimal(n as nat),
    decreases n,
{
    if n >= 10 {
        push_decimal(out, n / 10);
    }
    let d: u8 = (n % 10) as u8;
    out.push(digit_of(d));
}

/// Hundredths of a gigahertz in `mhz` megahertz, rounded to the nearest
/// hundredth, a half going up.
pub open spec fn ghz_hundredths(mhz: nat) -> nat {
    (mhz + 5) / 10
}

/// The text shown for a frequency given in megahertz: below 1000 the number
/// itself with two zero decimals and the unit `MHz`, from 1000 on the value in
/// gigahertz with two decimals and the unit `GHz`.
pub open spec fn frequency_text(mhz: nat) -> Seq<char> {
    if mhz < 1000 {
        decimal(mhz) + seq!['.', '0', '0', 'M', 'H', 'z']
    } else {
        let h = ghz_hundredths(mhz);
        decimal(h / 100) + seq!['.', digit_char(h / 10 % 10), digit_char(h % 10), 'G', 'H', 'z']
    }
}

/// Formats a frequency given in megahertz, choosing the unit by magnitude.
pub fn format_frequency(mhz: u64) -> (text: String)
    ensures
        text@ == frequency_text(mhz as nat),
{
    let mut text = String::new();
    if mhz < 1000 {
        push_decimal(&mut text, mhz);
        proof {
            reveal_strlit(".00MHz");
        }
        text.append(".00MHz");
        assert(text@ =~= frequency_text(mhz as nat));
    } else {
        let carry: u64 = if mhz % 10 >= 5 {
            1
        } else {
            0
        };
        let h: u64 = mhz / 10 + carry;
        push_decimal(&mut text, h / 100);
        text.push('.');
        text.push(digit_of((h / 10 % 10) as u8));
        text.push(digit_of((h % 10) as u8));
        proof {
            reveal_strlit("GHz");
        }
        text.append("GHz");
        assert(text@ =~= frequency_text(mhz as nat));
    }
    text
}

/// The character that stands for a four-bit value in upper-case hexadecimal.
pub open spec fn hex_char(v: nat) -> char {
    if v < 10 {
        digit_char(v)
    } else if v == 10 {
        'A'
    } else if v == 11 {
        'B'
    } else if v == 12 {
        'C'
    } else if v == 13 {
        'D'
    } else if v == 14 {
        'E'
    } else {
        'F'
    }
}

/// The four-bit group of `id` at place `i`, counted from the most significant
/// group (place 0) to the least significant one (place 15).
pub open spec fn nibble(id: u64, i: int) -> u64 {
    (id >> ((4 * (15 - i)) as u64)) & 0xf
}

/// The serial text of a device identifier: its sixteen hexadecimal digits in
/// upper case, most significant first.
pub open spec fn serial_text(id: u64) -> Seq<char> {
    Seq::new(16, |i: int| hex_char(nibble(id, i) as nat))
}

fn hex_of(v: u8) -> (c: char)
    requires
        v < 16,
    ensures
        c == hex_char(v as nat),
{
    if v < 10 {
        digit_of(v)
    } else if v == 10 {
        'A'
    } else if v == 11 {
        'B'
    } else if v == 12 {
        'C'
    } else if v == 13 {
        'D'
    } else if v == 14 {
        'E'
    } else {
        'F'
    }
}

/// Writes a device identifier as sixteen upper-case hexadecimal digits.
pub fn serial_string(unique_id: u64) -> (text: String)
    ensures
        text@ == serial_text(unique_id),
{
    let mut text = String::new();
    let mut i: u64 = 0;
    while i < 16
        invariant
            i <= 16,
            text@.len() == i,
            forall|j: int| 0 <= j < i ==> text@[j] == hex_char(nibble(unique_id, j) as nat),
        decreases 16 - i,
    {
        let shift: u64 = 4 * (15 - i);
        let v: u64 = (unique_id >> shift) & 0xf;
        assert(v < 16) by (bit_vector)
            requires
                v == (unique_id >> shift) & 0xf,
        ;
        text.push(hex_of(v as u8));
        i += 1;
    }
    assert(text@ =~= serial_text(unique_id));
    text
}

} // verus!
