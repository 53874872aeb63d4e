//! The one-line text form of a device record.
//!
//! The form is `DDDD:BB:DD.F VID=XXXX DID=XXXX SVID=XXXX SDID=XX Class=X
//! Subclass=X PIF=X Rev=X`, every number in lower-case hexadecimal. Tools
//! read this text back, so it is fixed character by character.

use crate::hex::{
    all_hex_digits, decode_hex, hex_digit_value, hex_value, is_hex_digit,
    lemma_digits_are_their_payload, HexDecodeError,
};
use crate::pci::{PciDevice, PciDeviceView};
use vstd::prelude::*;
use vstd::string::StringExecFns;

verus! {

/// The lower-case hexadecimal digit for a number below 16.
pub open spec fn hex_digit_char(digit: nat) -> char
    recommends
        digit < 16,
{
    if digit < 10 {
        ('0' as u32 + digit) as char
    } else {
        ('a' as u32 + digit - 10) as char
    }
}

/// The hexadecimal digits of `n`, most significant first, without leading
/// zeros; zero is the single digit `0`.
pub open spec fn hex_digits(n: nat) -> Seq<char>
    decreases n,
{
    if n < 16 {
        seq![hex_digit_char(n)]
    } else {
        hex_digits(n / 16).push(hex_digit_char(n % 16))
    }
}

/// The hexadecimal digits of `n`, with zeros in front up to `width` digits.
/// A number with more digits than `width` keeps them all.
pub open spec fn hex_padded(n: nat, width: nat) -> Seq<char> {
    let digits = hex_digits(n);
    if digits.len() >= width {
        digits
    } else {
        Seq::new((width - digits.len()) as nat, |i: int| '0') + digits
    }
}

/// The text form of a device.
pub open spec fn rendered(device: PciDeviceView) -> Seq<char> {
    hex_padded(device.domain as nat, 4) + ":"@ + hex_padded(device.bus as nat, 2) + ":"@
        + hex_padded(device.device as nat, 2) + "."@ + hex_padded(device.function as nat, 1)
        + " VID="@ + hex_padded(device.vendor_id as nat, 4) + " DID="@ + hex_padded(
        device.device_id as nat,
        4,
    ) + " SVID="@ + hex_padded(device.subsys_vendor_id as nat, 4) + " SDID="@ + hex_padded(
        device.subsys_device_id as nat,
        2,
    ) + " Class="@ + hex_padded(device.class as nat, 1) + " Subclass="@ + hex_padded(
        device.subclass as nat,
        1,
    ) + " PIF="@ + hex_padded(device.programming_interface as nat, 1) + " Rev="@ + hex_padded(
        device.revision_id as nat,
        1,
    )
}

/// The digits of `digits`, least significant first, as text with the most
/// significant first.
spec fn reversed_text(digits: Seq<u8>) -> Seq<char> {
    Seq::new(digits.len(), |i: int| hex_digit_char(digits[digits.len() - 1 - i] as nat))
}

fn digit_text(digit: u8) -> (text: &'static str)
    requires
        digit < 16,
    ensures
        text@ == seq![hex_digit_char(digit as nat)],
{
    proof {
        reveal_strlit("0");
        reveal_strlit("1");
        reveal_strlit("2");
        reveal_strlit("3");
        reveal_strlit("4");
        reveal_strlit("5");
        reveal_strlit("6");
        reveal_strlit("7");
        reveal_strlit("8");
        reveal_strlit("9");
        reveal_strlit("a");
        reveal_strlit("b");
        reveal_strlit("c");
        reveal_strlit("d");
        reveal_strlit("e");
        reveal_strlit("f");
    }
    match digit {
        0 => "0",
        1 => "1",
        2 => "2",
        3 => "3",
        4 => "4",
        5 => "5",
        6 => "6",
        7 => "7",
        8 => "8",
        9 => "9",
        10 => "a",
        11 => "b",
        12 => "c",
        13 => "d",
        14 => "e",
        _ => "f",
    }
}

/// Appends `value` in hexadecimal to `out`, with zeros in front up to
/// `width` digits.
fn push_hex(out: &mut String, value: u32, width: usize)
    ensures
        final(out)@ == old(out)@ + hex_padded(value as nat, width as nat),
{
    let mut digits: Vec<u8> = Vec::new();
    let mut rest: u32 = value;
    while rest >= 16
        invariant
            hex_digits(value as nat) == hex_digits(rest as nat) + reversed_text(digits@),
            forall|i: int| 0 <= i < digits@.len() ==> digits@[i] < 16,
        decreases rest,
    {
        digits.push((rest % 16) as u8);
        rest = rest / 16;
    }
    digits.push(rest as u8);
    let ghost start = out@;
    let mut written: usize = digits.len();
    while written < width
        invariant
            digits@.len() <= written,
            written <= width || written == digits@.len(),
            out@ == start + Seq::new((written - digits@.len()) as nat, |i: int| '0'),
        decreases width - written,
    {
        proof {
            reveal_strlit("0");
        }
        out.append("0");
        written += 1;
    }
    let ghost padded = out@;
    let mut left: usize = digits.len();
    while left > 0
        invariant
            left <= digits@.len(),
            forall|i: int| 0 <= i < digits@.len() ==> digits@[i] < 16,
            out@ == padded + reversed_text(digits@).take(digits@.len() - left),
        decreases left,
    {
        left -= 1;
        out.append(digit_text(digits[left]));
    }
}

impl PciDevice {
    /// The text form of the device, in one line.
    pub fn render(&self) -> (text: String)
        ensures
            text@ == rendered(self@),
    {
        let mut text = String::new();
        push_hex(&mut text, self.domain, 4);
        text.append(":");
        push_hex(&mut text, self.bus as u32, 2);
        text.append(":");
        push_hex(&mut text, self.device as u32, 2);
        text.append(".");
        push_hex(&mut text, self.function as u32, 1);
        text.append(" VID=");
        push_hex(&mut text, self.vendor_id as u32, 4);
        text.append(" DID=");
        push_hex(&mut text, self.device_id as u32, 4);
        text.append(" SVID=");
        push_hex(&mut text, self.subsys_vendor_id as u32, 4);
        text.append(" SDID=");
        push_hex(&mut text, self.subsys_device_id as u32, 2);
        text.append(" Class=");
        push_hex(&mut text, self.class as u32, 1);
        text.append(" Subclass=");
        push_hex(&mut text, self.subclass as u32, 1);
        text.append(" PIF=");
        push_hex(&mut text, self.programming_interface as u32, 1);
        text.append(" Rev=");
        push_hex(&mut text, self.revision_id as u32, 1);
        text
    }
}

proof fn lemma_digits_denote(n: nat)
    ensures
        all_hex_digits(hex_digits(n)),
        hex_value(hex_digits(n)) == n,
    decreases n,
{
    let digits = hex_digits(n);
    if n < 16 {
        assert(hex_value(digits.drop_last()) == 0);
    } else {
        lemma_digits_denote(n / 16);
        assert(digits.drop_last() =~= hex_digits(n / 16));
    }
}

proof fn lemma_zeros_in_front(count: nat, digits: Seq<char>)
    requires
        all_hex_digits(digits),
    ensures
        all_hex_digits(Seq::new(count, |i: int| '0') + digits),
        hex_value(Seq::new(count, |i: int| '0') + digits) == hex_value(digits),
    decreases digits.len(), count,
{
    let zeros = Seq::new(count, |i: int| '0');
    let padded = zeros + digits;
    if digits.len() > 0 {
        assert(padded.drop_last() =~= zeros + digits.drop_last());
        lemma_zeros_in_front(count, digits.drop_last());
    } else if count > 0 {
        assert(padded.drop_last() =~= Seq::new((count - 1) as nat, |i: int| '0') + digits);
        lemma_zeros_in_front((count - 1) as nat, digits);
    }
}

/// What is rendered can be read back. The digits that stand for a number in
/// the text form, with whatever padding, decode to that number at every
/// width that holds it.
pub proof fn lemma_rendered_number_decodes(n: nat, width: nat, max: nat)
    requires
        n <= max,
    ensures
        decode_hex(hex_padded(n, width), max) == Ok::<nat, HexDecodeError>(n),
{
    let digits = hex_digits(n);
    lemma_digits_denote(n);
    if digits.len() < width {
        lemma_zeros_in_front((width - digits.len()) as nat, digits);
    }
    lemma_digits_are_their_payload(hex_padded(n, width));
}

} // verus!
