//! The binary encoding: the serializer and the encoding of the values that
//! every node is made of. Integers are written big-endian; a sequence, a
//! string and a magnitude are preceded by their length.
use vstd::prelude::*;
use vstd::string::*;
use vstd::utf8::encode_utf8;
use crate::ast::{string_views, Int, IntValue};

verus! {

/// The number that tells a consumer which variant follows. The numbers are
/// agreed with the consumer.
#[derive(Clone, Copy, Debug, PartialEq, Eq, Hash)]
pub struct MarkerId(pub u32);

/// The bytes of a marker: a byte below 255 that, added to 255 for every byte
/// 255 before it, gives the marker.
pub open spec fn marker_bytes(id: nat) -> Seq<u8>
    decreases id,
{
    if id >= 255 {
        seq![255u8] + marker_bytes((id - 255) as nat)
    } else {
        seq![id as u8]
    }
}

/// The `width` lowest digits of a number to base 256, the highest first.
pub open spec fn be_bytes(n: nat, width: nat) -> Seq<u8>
    decreases width,
{
    if width == 0 {
        Seq::empty()
    } else {
        be_bytes(n / 256, (width - 1) as nat).push((n % 256) as u8)
    }
}

/// The digits of a positive number to base 256, the highest first and not 0.
pub open spec fn be_digits(n: nat) -> Seq<u8>
    decreases n,
{
    if n == 0 {
        Seq::empty()
    } else {
        be_digits(n / 256).push((n % 256) as u8)
    }
}

/// The bytes of a magnitude: its digits to base 256, the highest first; the
/// one byte 0 for zero.
pub open spec fn magnitude_bytes(n: nat) -> Seq<u8> {
    if n == 0 {
        seq![0u8]
    } else {
        be_digits(n)
    }
}

/// The byte of a boolean: 1 for true, 0 for false.
pub open spec fn bool_bytes(b: bool) -> Seq<u8> {
    seq![if b { 1u8 } else { 0u8 }]
}

/// The bytes of a 32-bit integer: four bytes, in two's complement.
pub open spec fn int_bytes(v: Int) -> Seq<u8> {
    if v < 0 {
        be_bytes((v + 0x1_0000_0000) as nat, 4)
    } else {
        be_bytes(v as nat, 4)
    }
}

/// The bytes of a length: eight bytes.
pub open spec fn len_bytes(n: nat) -> Seq<u8> {
    be_bytes(n, 8)
}

/// The bytes of a string: the length of its UTF-8 encoding, then that.
pub open spec fn string_bytes(s: Seq<char>) -> Seq<u8> {
    len_bytes(encode_utf8(s).len()) + encode_utf8(s)
}

/// The encodings of the first `n` strings of a sequence, one after another.
pub open spec fn strings_concat(ss: Seq<Seq<char>>, n: nat) -> Seq<u8>
    decreases n,
{
    if n == 0 || n > ss.len() {
        Seq::empty()
    } else {
        strings_concat(ss, (n - 1) as nat) + string_bytes(ss[n - 1])
    }
}

/// The bytes of a sequence of strings: their number, then each of them.
pub open spec fn strings_bytes(ss: Seq<Seq<char>>) -> Seq<u8> {
    len_bytes(ss.len()) + strings_concat(ss, ss.len())
}

/// The tag of an integer's sign: 0 below zero, 1 for zero, 2 above zero.
pub open spec fn sign_tag(v: int) -> u8 {
    if v < 0 {
        0
    } else if v == 0 {
        1
    } else {
        2
    }
}

/// The bytes of an integer of any size: the tag of its sign, then its
/// magnitude, preceded by the number of the magnitude's bytes.
pub open spec fn big_int_bytes(v: int) -> Seq<u8> {
    let magnitude = magnitude_bytes((if v < 0 { -v } else { v }) as nat);
    seq![sign_tag(v)] + len_bytes(magnitude.len()) + magnitude
}

/// Bytes written one piece after another are the bytes written at once.
pub proof fn lemma_written_2(s: Seq<u8>, a: Seq<u8>, b: Seq<u8>)
    ensures
        s + a + b == s + (a + b),
{
    assert(s + a + b =~= s + (a + b));
}

pub proof fn lemma_written_3(s: Seq<u8>, a: Seq<u8>, b: Seq<u8>, c: Seq<u8>)
    ensures
        s + a + b + c == s + (a + b + c),
{
    assert(s + a + b + c =~= s + (a + b + c));
}

pub proof fn lemma_written_4(s: Seq<u8>, a: Seq<u8>, b: Seq<u8>, c: Seq<u8>, d: Seq<u8>)
    ensures
        s + a + b + c + d == s + (a + b + c + d),
{
    assert(s + a + b + c + d =~= s + (a + b + c + d));
}

pub proof fn lemma_written_5(
    s: Seq<u8>,
    a: Seq<u8>,
    b: Seq<u8>,
    c: Seq<u8>,
    d: Seq<u8>,
    e: Seq<u8>,
)
    ensures
        s + a + b + c + d + e == s + (a + b + c + d + e),
{
    assert(s + a + b + c + d + e =~= s + (a + b + c + d + e));
}

pub proof fn lemma_written_6(
    s: Seq<u8>,
    a: Seq<u8>,
    b: Seq<u8>,
    c: Seq<u8>,
    d: Seq<u8>,
    e: Seq<u8>,
    f: Seq<u8>,
)
    ensures
        s + a + b + c + d + e + f == s + (a + b + c + d + e + f),
{
    assert(s + a + b + c + d + e + f =~= s + (a + b + c + d + e + f));
}

/// Calls `num_bigint::BigUint::to_bytes_be` on the magnitude as a
/// `BigUint`: the digits to base 256 of the number, the highest first and
/// without leading zeros, and the one byte 0 for zero.
#[verifier::external_body]
fn magnitude_to_bytes_be(magnitude: u128) -> (r: Vec<u8>)
    ensures
        r@ == magnitude_bytes(magnitude as nat),
{
    num_bigint::BigUint::from(magnitude).to_bytes_be()
}

/// A serializer that collects the bytes written to it in a buffer.
pub struct BufferSerializer {
    buf: Vec<u8>,
}

impl View for BufferSerializer {
    type V = Seq<u8>;

    closed spec fn view(&self) -> Seq<u8> {
        self.buf@
    }
}

impl BufferSerializer {
    /// A serializer to which nothing was written yet.
    pub fn new() -> (r: Self)
        ensures
            r@ == Seq::<u8>::empty(),
    {
        BufferSerializer { buf: Vec::new() }
    }

    /// The bytes written so far.
    pub fn as_slice(&self) -> (r: &[u8])
        ensures
            r@ == self@,
    {
        self.buf.as_slice()
    }

    /// The bytes written, as the buffer that holds them.
    pub fn to_buffer(self) -> (r: Vec<u8>)
        ensures
            r@ == self@,
    {
        self.buf
    }

    /// Writes one byte.
    pub fn write_byte(&mut self, byte: u8)
        ensures
            final(self)@ == old(self)@.push(byte),
    {
        self.buf.push(byte);
    }

    /// Writes the bytes as they are.
    pub fn write(&mut self, bytes: &[u8])
        ensures
            final(self)@ == old(self)@ + bytes@,
    {
        let mut i: usize = 0;
        while i < bytes.len()
            invariant
                i <= bytes@.len(),
                self@ == old(self)@ + bytes@.take(i as int),
            decreases bytes.len() - i,
        {
            self.buf.push(bytes[i]);
            assert(bytes@.take(i + 1) =~= bytes@.take(i as int).push(bytes@[i as int]));
            i += 1;
        }
        assert(bytes@.take(bytes@.len() as int) =~= bytes@);
    }

    /// Writes the marker of a variant.
    pub fn write_marker(&mut self, id: MarkerId)
        ensures
            final(self)@ == old(self)@ + marker_bytes(id.0 as nat),
    {
        let mut id: u32 = id.0;
        let ghost given = id;
        let ghost mut escapes: Seq<u8> = Seq::empty();
        while id >= 255
            invariant
                self@ == old(self)@ + escapes,
                escapes + marker_bytes(id as nat) == marker_bytes(given as nat),
            decreases id,
        {
            self.buf.push(255);
            proof {
                assert((escapes.push(255u8)) + marker_bytes((id - 255) as nat) =~= escapes + (
                seq![255u8] + marker_bytes((id - 255) as nat)));
                escapes = escapes.push(255u8);
            }
            id -= 255;
        }
        self.buf.push(id as u8);
        assert(self@ =~= old(self)@ + (escapes + marker_bytes(id as nat)));
    }

    /// Writes a boolean.
    pub fn write_bool(&mut self, b: bool)
        ensures
            final(self)@ == old(self)@ + bool_bytes(b),
    {
        self.buf.push(if b { 1 } else { 0 });
        assert(self@ =~= old(self)@ + bool_bytes(b));
    }

    /// Writes the `width` lowest digits of a number to base 256.
    fn write_be(&mut self, n: u64, width: usize)
        ensures
            final(self)@ == old(self)@ + be_bytes(n as nat, width as nat),
        decreases width,
    {
        if width > 0 {
            self.write_be(n / 256, width - 1);
            self.buf.push((n % 256) as u8);
            assert(self@ =~= old(self)@ + be_bytes(n as nat, width as nat));
        } else {
            assert(self@ =~= old(self)@ + be_bytes(n as nat, width as nat));
        }
    }

    /// Writes a 32-bit integer.
    pub fn write_int(&mut self, v: Int)
        ensures
            final(self)@ == old(self)@ + int_bytes(v),
    {
        let n: u64 = if v < 0 {
            (v as i64 + 0x1_0000_0000i64) as u64
        } else {
            v as u64
        };
        self.write_be(n, 4);
    }

    /// Writes a length.
    pub fn write_len(&mut self, n: usize)
        ensures
            final(self)@ == old(self)@ + len_bytes(n as nat),
    {
        self.write_be(n as u64, 8);
    }

    /// Writes a string.
    pub fn write_str(&mut self, s: &str)
        ensures
            final(self)@ == old(self)@ + string_bytes(s@),
    {
        let bytes = s.as_bytes();
        self.write_len(bytes.len());
        self.write(bytes);
        assert(self@ =~= old(self)@ + string_bytes(s@));
    }

    /// Writes a sequence of strings.
    pub fn write_strings(&mut self, ss: &Vec<String>)
        ensures
            final(self)@ == old(self)@ + strings_bytes(string_views(ss@)),
    {
        let ghost views = string_views(ss@);
        self.write_len(ss.len());
        let ghost start = self@;
        let mut i: usize = 0;
        while i < ss.len()
            invariant
                i <= ss@.len(),
                views == string_views(ss@),
                self@ == start + strings_concat(views, i as nat),
            decreases ss.len() - i,
        {
            self.write_str(ss[i].as_str());
            assert(self@ =~= start + strings_concat(views, (i + 1) as nat));
            i += 1;
        }
        assert(self@ =~= old(self)@ + strings_bytes(views));
    }

    /// Writes an integer of any size.
    pub fn write_big_int(&mut self, v: &IntValue)
        ensures
            final(self)@ == old(self)@ + big_int_bytes(v.as_int()),
    {
        let tag: u8 = if v.magnitude == 0 {
            1
        } else if v.negative {
            0
        } else {
            2
        };
        let magnitude = magnitude_to_bytes_be(v.magnitude);
        self.buf.push(tag);
        self.write_len(magnitude.len());
        self.write(magnitude.as_slice());
        assert(self@ =~= old(self)@ + big_int_bytes(v.as_int()));
    }
}

} // verus!
