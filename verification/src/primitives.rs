//! Fixed-size values read from a chain: 256-bit words and contract addresses.
//!
//! Both are modelled by the unsigned number that their bytes spell in
//! big-endian order.

use vstd::prelude::*;
use vstd::arithmetic::div_mod::lemma_mod_multiples_vanish;
use vstd::string::StringExecFns;
use crate::error::InspectError;

verus! {

/// 2^64.
pub open spec fn two_pow_64() -> nat {
    0x1_0000_0000_0000_0000nat
}

/// 2^128.
pub open spec fn two_pow_128() -> nat {
    0x1_0000_0000_0000_0000_0000_0000_0000_0000nat
}

/// 2^160, the number of addresses.
pub open spec fn two_pow_160() -> nat {
    0x1_0000_0000_0000_0000_0000_0000_0000_0000_0000_0000nat
}

/// A 256-bit word: an event topic, a hash, an asset id or an unsigned number.
/// `hi` holds the first sixteen bytes, `lo` the last sixteen.
#[derive(Clone, Copy, Debug, PartialEq, Eq, Hash, Structural)]
pub struct Bytes32 {
    pub hi: u128,
    pub lo: u128,
}

/// An unsigned 256-bit number, as contracts return it.
pub type Uint256 = Bytes32;

/// A 20-byte contract address. `hi` holds the first four bytes, `lo` the
/// last sixteen.
#[derive(Clone, Copy, Debug, PartialEq, Eq, Hash, Structural)]
pub struct Address {
    pub hi: u32,
    pub lo: u128,
}

impl View for Bytes32 {
    type V = nat;

    open spec fn view(&self) -> nat {
        self.hi as nat * two_pow_128() + self.lo as nat
    }
}

impl View for Address {
    type V = nat;

    open spec fn view(&self) -> nat {
        self.hi as nat * two_pow_128() + self.lo as nat
    }
}

impl Bytes32 {
    /// The word with the given halves.
    pub fn new(hi: u128, lo: u128) -> (word: Bytes32)
        ensures
            word.hi == hi,
            word.lo == lo,
    {
        Bytes32 { hi, lo }
    }

    /// The word of 32 zero bytes.
    pub fn zero() -> (word: Bytes32)
        ensures
            word@ == 0,
            word == (Bytes32 { hi: 0, lo: 0 }),
    {
        Bytes32 { hi: 0, lo: 0 }
    }

    /// The word that holds a 64-bit number.
    pub fn from_u64(value: u64) -> (word: Bytes32)
        ensures
            word@ == value as nat,
    {
        Bytes32 { hi: 0, lo: value as u128 }
    }

    /// The number cut down to its lowest 64 bits.
    pub fn low_u64(&self) -> (low: u64)
        ensures
            low as nat == self@ % two_pow_64(),
    {
        let low: u64 = #[verifier::truncate] (self.lo as u64);
        proof {
            let lo: u128 = self.lo;
            assert(low as u128 == lo % 0x1_0000_0000_0000_0000u128) by (bit_vector)
                requires
                    low == lo as u64,
            ;
            assert(self.hi as nat * two_pow_128() == (self.hi as nat * two_pow_64())
                * two_pow_64()) by (nonlinear_arith);
            lemma_mod_multiples_vanish(
                (self.hi as nat * two_pow_64()) as int,
                self.lo as int,
                two_pow_64() as int,
            );
        }
        low
    }

    /// Narrows the word to an address. A number of 2^160 or more is no
    /// address.
    pub fn to_address(&self) -> (narrowed: Result<Address, InspectError>)
        ensures
            narrowed is Ok <==> self@ < two_pow_160(),
            narrowed matches Ok(address) ==> address@ == self@,
            narrowed matches Err(e) ==> e == InspectError::Shape,
    {
        if self.hi <= 0xffff_ffff {
            Ok(Address { hi: self.hi as u32, lo: self.lo })
        } else {
            Err(InspectError::Shape)
        }
    }
}

impl Address {
    /// The address with the given parts.
    pub fn new(hi: u32, lo: u128) -> (address: Address)
        ensures
            address.hi == hi,
            address.lo == lo,
    {
        Address { hi, lo }
    }

    /// The address of 20 zero bytes, which stands for "not set".
    pub fn zero() -> (address: Address)
        ensures
            address@ == 0,
            address == (Address { hi: 0, lo: 0 }),
    {
        Address { hi: 0, lo: 0 }
    }

    /// The reserved address `0x…01` under which the native currency is
    /// tracked.
    pub fn native_currency() -> (address: Address)
        ensures
            address@ == 1,
            address == (Address { hi: 0, lo: 1 }),
    {
        Address { hi: 0, lo: 1 }
    }

    /// The address as a word, padded with zero bytes in front.
    pub fn to_word(&self) -> (word: Bytes32)
        ensures
            word@ == self@,
    {
        Bytes32 { hi: self.hi as u128, lo: self.lo }
    }
}

/// Two words that spell the same number are the same word.
pub proof fn lemma_word_view_injective(a: Bytes32, b: Bytes32)
    ensures
        a@ == b@ <==> a == b,
{
}

/// Two addresses that spell the same number are the same address, and every
/// address is below 2^160.
pub proof fn lemma_address_view_injective(a: Address, b: Address)
    ensures
        a@ == b@ <==> a == b,
        a@ < two_pow_160(),
{
}

/// The lower-case hexadecimal digit for a number below 16.
pub open spec fn hex_digit(nibble: nat) -> char {
    seq!['0', '1', '2', '3', '4', '5', '6', '7', '8', '9', 'a', 'b', 'c', 'd', 'e', 'f'][nibble as int]
}

/// The last `width` hexadecimal digits of `value`, the most significant
/// first.
pub open spec fn hex_digits(value: nat, width: nat) -> Seq<char>
    decreases width,
{
    if width == 0 {
        Seq::empty()
    } else {
        hex_digits(value / 16, (width - 1) as nat).push(hex_digit(value % 16))
    }
}

/// The upper `count` hexadecimal digits of a 128-bit number, as a number.
spec fn upper_nibbles(limb: u128, count: nat) -> nat {
    if count == 0 {
        0
    } else {
        (limb >> ((128 - 4 * count) as u128)) as nat
    }
}

/// Appends one hexadecimal digit.
fn push_hex_digit(out: &mut String, nibble: u8)
    requires
        nibble < 16,
    ensures
        final(out)@ == old(out)@.push(hex_digit(nibble as nat)),
{
    let digit: &str = match nibble {
        0 => "0",
        1 => "1",
        2 => "2",
        3 => "3",
        4 => "4",
        5 => "5",
        6 => "6",
        7 => "7",
        8 => "8",
        9 => "9",
        10 => "a",
        11 => "b",
        12 => "c",
        13 => "d",
        14 => "e",
        _ => "f",
    };
    proof {
        reveal_strlit("0");
        reveal_strlit("1");
        reveal_strlit("2");
        reveal_strlit("3");
        reveal_strlit("4");
        reveal_strlit("5");
        reveal_strlit("6");
        reveal_strlit("7");
        reveal_strlit("8");
        reveal_strlit("9");
        reveal_strlit("a");
        reveal_strlit("b");
        reveal_strlit("c");
        reveal_strlit("d");
        reveal_strlit("e");
        reveal_strlit("f");
        assert(digit@ =~= seq![hex_digit(nibble as nat)]);
        assert(old(out)@ + seq![hex_digit(nibble as nat)] =~= old(out)@.push(
            hex_digit(nibble as nat),
        ));
    }
    out.append(digit);
}

/// Appends the 32 hexadecimal digits of a 128-bit number.
fn push_hex_limb(out: &mut String, limb: u128)
    ensures
        final(out)@ == old(out)@ + hex_digits(limb as nat, 32),
{
    let mut count: u32 = 0;
    while count < 32
        invariant
            count <= 32,
            out@ == old(out)@ + hex_digits(upper_nibbles(limb, count as nat), count as nat),
        decreases 32 - count,
    {
        let shift: u32 = 124 - 4 * count;
        let nibble: u8 = ((limb >> shift) & 0xf) as u8;
        proof {
            let ghost above = upper_nibbles(limb, count as nat);
            let ghost with_digit = upper_nibbles(limb, (count + 1) as nat);
            let s: u128 = shift as u128;
            assert(with_digit == (limb >> s) as nat);
            assert((limb >> s) & 0xf < 16) by (bit_vector);
            assert(nibble as u128 == (limb >> s) & 0xf);
            if count == 0 {
                assert(limb >> 124u128 == (limb >> 124u128) & 0xf) by (bit_vector);
                assert(with_digit == above * 16 + nibble as nat);
            } else {
                let t: u128 = (s + 4) as u128;
                assert(above == (limb >> t) as nat);
                assert(limb >> s == (limb >> t) * 16 + ((limb >> s) & 0xf)) by (bit_vector)
                    requires
                        s <= 120,
                        t == s + 4,
                ;
                assert(with_digit == above * 16 + nibble as nat);
            }
            assert(with_digit / 16 == above);
            assert(with_digit % 16 == nibble as nat);
            assert(hex_digits(with_digit, (count + 1) as nat) == hex_digits(
                above,
                count as nat,
            ).push(hex_digit(nibble as nat)));
            assert((old(out)@ + hex_digits(above, count as nat)).push(hex_digit(nibble as nat))
                =~= old(out)@ + hex_digits(with_digit, (count + 1) as nat));
        }
        push_hex_digit(out, nibble);
        count += 1;
    }
    proof {
        assert(limb >> 0u128 == limb) by (bit_vector);
    }
}

impl Bytes32 {
    /// The word written out: `0x` and its 64 hexadecimal digits in lower
    /// case.
    pub open spec fn hex(self) -> Seq<char> {
        seq!['0', 'x'] + hex_digits(self.hi as nat, 32) + hex_digits(self.lo as nat, 32)
    }

    /// Writes the word out in hexadecimal.
    pub fn to_hex(&self) -> (text: String)
        ensures
            text@ == self.hex(),
    {
        let mut text = String::from_str("0x");
        proof {
            reveal_strlit("0x");
            assert(text@ =~= seq!['0', 'x']);
        }
        push_hex_limb(&mut text, self.hi);
        push_hex_limb(&mut text, self.lo);
        text
    }
}

} // verus!
