//! The checksum of a gzip stream.
//!
//! The arithmetic of CRC-32 is left to the `flate2` crate. What is taken on
//! trust is that its `Crc` is a running checksum: it stands for the bytes
//! fed to it, in order, and reports their CRC-32, which is written out
//! here, and their count modulo 2^32.

use crate::source::Source;
use vstd::prelude::*;
use vstd::slice::slice_subrange;

verus! {

#[verifier::external_type_specification]
#[verifier::external_body]
pub struct ExCrc(flate2::Crc);

/// The bytes that were fed to a checksum since it was made or last reset.
pub uninterp spec fn crc_data(c: flate2::Crc) -> Seq<u8>;

/// The generator polynomial of CRC-32, lowest bit first.
pub const POLYNOMIAL: u32 = 0xEDB8_8320u32;

/// One step of the division by the polynomial, on the lowest bit of `c`.
pub open spec fn crc_bit(c: u32) -> u32 {
    if c & 1u32 == 1u32 {
        (c >> 1u32) ^ POLYNOMIAL
    } else {
        c >> 1u32
    }
}

/// The register `c` after the byte `b` went through it: eight steps.
pub open spec fn crc_byte(c: u32, b: u8) -> u32 {
    let x: u32 = c ^ (b as u32);
    crc_bit(crc_bit(crc_bit(crc_bit(crc_bit(crc_bit(crc_bit(crc_bit(x))))))))
}

/// The register after the bytes of `data` went through it, starting from
/// all ones.
pub open spec fn crc_register(data: Seq<u8>) -> u32
    decreases data.len(),
{
    if data.len() == 0 {
        0xFFFF_FFFFu32
    } else {
        crc_byte(crc_register(data.drop_last()), data.last())
    }
}

/// The CRC-32 of a byte string, as gzip defines it: the remainder of the
/// division by the polynomial, bits reflected, register and result
/// inverted.
pub open spec fn crc32_of(data: Seq<u8>) -> u32 {
    crc_register(data) ^ 0xFFFF_FFFFu32
}

/// The checksum of no bytes is zero.
pub proof fn lemma_crc_of_nothing_is_zero()
    ensures
        crc32_of(Seq::<u8>::empty()) == 0,
{
    assert(0xFFFF_FFFFu32 ^ 0xFFFF_FFFFu32 == 0u32) by (bit_vector);
}

/// The checksum of the single letter `a` is the value that the tables of
/// CRC-32 give for it.
pub proof fn lemma_crc_of_one_letter()
    ensures
        crc32_of(seq![0x61u8]) == 0xE8B7_BE43u32,
{
    let data = seq![0x61u8];
    assert(data.drop_last() =~= Seq::<u8>::empty());
    assert(data.last() == 0x61u8);
    assert(crc_register(data) == crc_byte(0xFFFF_FFFFu32, 0x61u8)) by {
        reveal_with_fuel(crc_register, 2);
    }
    assert(0xFFFF_FFFFu32 ^ (0x61u8 as u32) == 0xFFFF_FF9Eu32) by (bit_vector);
    assert(0xFFFF_FF9Eu32 & 1u32 != 1u32) by (bit_vector);
    assert(0xFFFF_FF9Eu32 >> 1u32 == 0x7FFF_FFCFu32) by (bit_vector);
    assert(crc_bit(0xFFFF_FF9Eu32) == 0x7FFF_FFCFu32);
    assert(0x7FFF_FFCFu32 & 1u32 == 1u32) by (bit_vector);
    assert((0x7FFF_FFCFu32 >> 1u32) ^ 0xEDB8_8320u32 == 0xD247_7CC7u32) by (bit_vector);
    assert(crc_bit(0x7FFF_FFCFu32) == 0xD247_7CC7u32);
    assert(0xD247_7CC7u32 & 1u32 == 1u32) by (bit_vector);
    assert((0xD247_7CC7u32 >> 1u32) ^ 0xEDB8_8320u32 == 0x849B_3D43u32) by (bit_vector);
    assert(crc_bit(0xD247_7CC7u32) == 0x849B_3D43u32);
    assert(0x849B_3D43u32 & 1u32 == 1u32) by (bit_vector);
    assert((0x849B_3D43u32 >> 1u32) ^ 0xEDB8_8320u32 == 0xAFF5_1D81u32) by (bit_vector);
    assert(crc_bit(0x849B_3D43u32) == 0xAFF5_1D81u32);
    assert(0xAFF5_1D81u32 & 1u32 == 1u32) by (bit_vector);
    assert((0xAFF5_1D81u32 >> 1u32) ^ 0xEDB8_8320u32 == 0xBA42_0DE0u32) by (bit_vector);
    assert(crc_bit(0xAFF5_1D81u32) == 0xBA42_0DE0u32);
    assert(0xBA42_0DE0u32 & 1u32 != 1u32) by (bit_vector);
    assert(0xBA42_0DE0u32 >> 1u32 == 0x5D21_06F0u32) by (bit_vector);
    assert(crc_bit(0xBA42_0DE0u32) == 0x5D21_06F0u32);
    assert(0x5D21_06F0u32 & 1u32 != 1u32) by (bit_vector);
    assert(0x5D21_06F0u32 >> 1u32 == 0x2E90_8378u32) by (bit_vector);
    assert(crc_bit(0x5D21_06F0u32) == 0x2E90_8378u32);
    assert(0x2E90_8378u32 & 1u32 != 1u32) by (bit_vector);
    assert(0x2E90_8378u32 >> 1u32 == 0x1748_41BCu32) by (bit_vector);
    assert(crc_bit(0x2E90_8378u32) == 0x1748_41BCu32);
    assert(0x1748_41BCu32 ^ 0xFFFF_FFFFu32 == 0xE8B7_BE43u32) by (bit_vector);
}

/// `flate2::Crc::new` makes a checksum that has seen no byte.
pub assume_specification[ flate2::Crc::new ]() -> (c: flate2::Crc)
    ensures
        crc_data(c) == Seq::<u8>::empty(),
;

/// `flate2::Crc::sum` reports the CRC-32 of the bytes seen.
pub assume_specification[ flate2::Crc::sum ](c: &flate2::Crc) -> (r: u32)
    ensures
        r == crc32_of(crc_data(*c)),
;

/// `flate2::Crc::amount` reports the number of bytes seen, modulo 2^32.
pub assume_specification[ flate2::Crc::amount ](c: &flate2::Crc) -> (r: u32)
    ensures
        r == crc_data(*c).len() % 0x1_0000_0000,
;

/// `flate2::Crc::update` feeds the bytes of `data` to the checksum.
pub assume_specification[ flate2::Crc::update ](c: &mut flate2::Crc, data: &[u8])
    ensures
        crc_data(*final(c)) == crc_data(*old(c)) + data@,
;

/// `flate2::Crc::reset` makes the checksum forget what it has seen.
pub assume_specification[ flate2::Crc::reset ](c: &mut flate2::Crc)
    ensures
        crc_data(*final(c)) == Seq::<u8>::empty(),
;

/// A running CRC-32 over the bytes of a stream, with their count.
pub struct Crc32 {
    inner: flate2::Crc,
}

impl Crc32 {
    /// The bytes seen so far.
    pub closed spec fn data(&self) -> Seq<u8> {
        crc_data(self.inner)
    }

    /// A checksum that has seen no byte.
    pub fn new() -> (c: Crc32)
        ensures
            c.data() == Seq::<u8>::empty(),
    {
        Crc32 { inner: flate2::Crc::new() }
    }

    /// The CRC-32 of the bytes seen.
    pub fn sum(&self) -> (r: u32)
        ensures
            r == crc32_of(self.data()),
    {
        self.inner.sum()
    }

    /// The number of bytes seen, modulo 2^32.
    pub fn amt_as_u32(&self) -> (r: u32)
        ensures
            r == self.data().len() % 0x1_0000_0000,
    {
        self.inner.amount()
    }

    /// Takes in the bytes of `data`.
    pub fn update(&mut self, data: &[u8])
        ensures
            final(self).data() == old(self).data() + data@,
    {
        self.inner.update(data)
    }

    /// Forgets what was seen.
    pub fn reset(&mut self)
        ensures
            final(self).data() == Seq::<u8>::empty(),
    {
        self.inner.reset()
    }
}

/// A source that keeps a checksum of what is read from it.
pub struct CrcReader {
    inner: Source,
    crc: Crc32,
}

impl CrcReader {
    /// The source below.
    pub closed spec fn source(&self) -> Source {
        self.inner
    }

    /// The bytes that the checksum has seen.
    pub closed spec fn summed(&self) -> Seq<u8> {
        self.crc.data()
    }

    /// A reader over `r` whose checksum has seen no byte.
    pub fn new(r: Source) -> (c: CrcReader)
        ensures
            c.source() == r,
            c.summed() == Seq::<u8>::empty(),
    {
        CrcReader { inner: r, crc: Crc32::new() }
    }

    /// The checksum of what was read so far.
    pub fn crc(&self) -> (c: &Crc32)
        ensures
            c.data() == self.summed(),
    {
        &self.crc
    }

    /// Gives the source back.
    pub fn into_inner(self) -> (r: Source)
        ensures
            r == self.source(),
    {
        self.inner
    }

    /// The source below, for change. What is read from it directly is not
    /// seen by the checksum.
    pub fn inner(&mut self) -> (r: &mut Source)
        ensures
            *r == old(self).source(),
            final(self).source() == *final(r),
            final(self).summed() == old(self).summed(),
    {
        &mut self.inner
    }

    /// Makes the checksum forget what it has seen.
    pub fn reset(&mut self)
        ensures
            final(self).source() == old(self).source(),
            final(self).summed() == Seq::<u8>::empty(),
    {
        self.crc.reset();
    }

    /// Copies the next bytes of the source into `into`, as many as fit, and
    /// takes them into the checksum.
    pub fn read(&mut self, into: &mut [u8]) -> (amt: usize)
        ensures
            final(into)@.len() == old(into)@.len(),
            amt <= old(into)@.len(),
            amt <= old(self).source().rest().len(),
            amt == old(into)@.len() || amt == old(self).source().rest().len(),
            final(into)@.subrange(0, amt as int) == old(self).source().rest().take(amt as int),
            final(self).source().data == old(self).source().data,
            final(self).source().rest() == old(self).source().rest().skip(amt as int),
            final(self).summed() == old(self).summed() + old(self).source().rest().take(
                amt as int,
            ),
    {
        let rest = self.inner.fill_buf();
        let amt = if into.len() <= rest.len() {
            into.len()
        } else {
            rest.len()
        };
        let mut i: usize = 0;
        while i < amt
            invariant
                i <= amt,
                amt <= rest@.len(),
                amt <= into@.len(),
                into@.len() == old(into)@.len(),
                forall|j: int| 0 <= j < i ==> into@[j] == rest@[j],
            decreases amt - i,
        {
            into[i] = rest[i];
            i += 1;
        }
        assert(into@.subrange(0, amt as int) =~= rest@.take(amt as int));
        self.crc.update(slice_subrange(rest, 0, amt));
        self.inner.consume(amt);
        amt
    }

    /// The bytes not yet read; empty at the end of the input.
    pub fn fill_buf(&self) -> (r: &[u8])
        ensures
            r@ == self.source().rest(),
    {
        self.inner.fill_buf()
    }

    /// Marks the next `amt` bytes as read and takes them into the checksum.
    pub fn consume(&mut self, amt: usize)
        requires
            amt <= old(self).source().rest().len(),
        ensures
            final(self).source().data == old(self).source().data,
            final(self).source().pos == old(self).source().pos + amt,
            final(self).source().rest() == old(self).source().rest().skip(amt as int),
            final(self).summed() == old(self).summed() + old(self).source().rest().take(
                amt as int,
            ),
    {
        let rest = self.inner.fill_buf();
        self.crc.update(slice_subrange(rest, 0, amt));
        self.inner.consume(amt);
    }
}

/// The four bytes of `x`, lowest first.
pub open spec fn le32(x: u32) -> Seq<u8> {
    seq![
        (x & 0xFF) as u8,
        ((x >> 8) & 0xFF) as u8,
        ((x >> 16) & 0xFF) as u8,
        ((x >> 24) & 0xFF) as u8,
    ]
}

/// The number whose four bytes, lowest first, are `b0` to `b3`.
pub open spec fn from_le32(b0: u8, b1: u8, b2: u8, b3: u8) -> u32 {
    (b0 as u32) | ((b1 as u32) << 8) | ((b2 as u32) << 16) | ((b3 as u32) << 24)
}

/// The trailer of a gzip member: checksum and length of the data, each as
/// four bytes, lowest first.
pub open spec fn trailer_bytes(sum: u32, amount: u32) -> Seq<u8> {
    le32(sum) + le32(amount)
}

/// The trailer that belongs to the data `data`.
pub open spec fn trailer_of(data: Seq<u8>) -> Seq<u8> {
    trailer_bytes(crc32_of(data), (data.len() % 0x1_0000_0000) as u32)
}

/// Whether what is left of a source behind the deflate data starts with
/// the trailer that belongs to the data `data`.
pub open spec fn trailer_holds(rest: Seq<u8>, data: Seq<u8>) -> bool {
    rest.len() >= 8 && rest.take(8) == trailer_of(data)
}

/// Reading four bytes written lowest first gives the number back.
pub proof fn lemma_le32_round_trip(x: u32)
    ensures
        le32(x).len() == 4,
        from_le32(le32(x)[0], le32(x)[1], le32(x)[2], le32(x)[3]) == x,
{
    let b0 = (x & 0xFF) as u8;
    let b1 = ((x >> 8) & 0xFF) as u8;
    let b2 = ((x >> 16) & 0xFF) as u8;
    let b3 = ((x >> 24) & 0xFF) as u8;
    assert((b0 as u32) | ((b1 as u32) << 8) | ((b2 as u32) << 16) | ((b3 as u32) << 24) == x)
        by (bit_vector)
        requires
            b0 == (x & 0xFF) as u8,
            b1 == ((x >> 8) & 0xFF) as u8,
            b2 == ((x >> 16) & 0xFF) as u8,
            b3 == ((x >> 24) & 0xFF) as u8,
    ;
}

/// Writing a number read from four bytes gives the four bytes back.
pub proof fn lemma_from_le32_round_trip(b0: u8, b1: u8, b2: u8, b3: u8)
    ensures
        le32(from_le32(b0, b1, b2, b3)) == seq![b0, b1, b2, b3],
{
    let x = from_le32(b0, b1, b2, b3);
    assert((x & 0xFF) as u8 == b0 && ((x >> 8) & 0xFF) as u8 == b1 && ((x >> 16) & 0xFF) as u8
        == b2 && ((x >> 24) & 0xFF) as u8 == b3) by (bit_vector)
        requires
            x == (b0 as u32) | ((b1 as u32) << 8) | ((b2 as u32) << 16) | ((b3 as u32) << 24),
    ;
    assert(le32(x) =~= seq![b0, b1, b2, b3]);
}

/// Appends to `out` the four bytes of `x`, lowest first.
pub fn push_le32(out: &mut Vec<u8>, x: u32)
    ensures
        final(out)@ == old(out)@ + le32(x),
{
    out.push((x & 0xFF) as u8);
    out.push(((x >> 8) & 0xFF) as u8);
    out.push(((x >> 16) & 0xFF) as u8);
    out.push(((x >> 24) & 0xFF) as u8);
    assert(out@ =~= old(out)@ + le32(x));
}

/// Reads a number from four bytes, lowest first.
pub fn read_le32(b: &[u8], at: usize) -> (r: u32)
    requires
        at + 4 <= b@.len(),
    ensures
        r == from_le32(b@[at as int], b@[at + 1], b@[at + 2], b@[at + 3]),
{
    (b[at] as u32) | ((b[at + 1] as u32) << 8) | ((b[at + 2] as u32) << 16) | ((b[at + 3] as u32)
        << 24)
}

/// Holds the trailer of a gzip member against the checksum and the length
/// of the data that came out.
///
/// The trailer is accepted exactly where it is the eight bytes that belong
/// to `sum` and `amount`; anything else is a corrupt stream.
pub fn check_trailer(trailer: &[u8], sum: u32, amount: u32) -> (r: Result<(), GzError>)
    ensures
        r is Ok <==> trailer@ == trailer_bytes(sum, amount),
        r is Err ==> r == Err::<(), GzError>(GzError::Corrupt),
{
    if trailer.len() != 8 {
        assert(trailer_bytes(sum, amount).len() == 8);
        return Err(corrupt());
    }
    let crc = read_le32(trailer, 0);
    let amt = read_le32(trailer, 4);
    proof {
        lemma_from_le32_round_trip(trailer@[0], trailer@[1], trailer@[2], trailer@[3]);
        lemma_from_le32_round_trip(trailer@[4], trailer@[5], trailer@[6], trailer@[7]);
        lemma_le32_round_trip(sum);
        lemma_le32_round_trip(amount);
        assert(trailer@ =~= le32(crc) + le32(amt));
        if trailer@ == trailer_bytes(sum, amount) {
            let t = trailer_bytes(sum, amount);
            assert(t[0] == le32(sum)[0] && t[1] == le32(sum)[1] && t[2] == le32(sum)[2] && t[3]
                == le32(sum)[3]);
            assert(t[4] == le32(amount)[0] && t[5] == le32(amount)[1] && t[6] == le32(amount)[2]
                && t[7] == le32(amount)[3]);
        }
    }
    if crc != sum {
        return Err(corrupt());
    }
    if amt != amount {
        return Err(corrupt());
    }
    Ok(())
}

/// A single changed byte in the trailer of a stream is enough for the
/// trailer not to hold: where the bytes behind the deflate data hold as the
/// trailer of the data, the same bytes with one of the first eight changed do
/// not.
pub proof fn lemma_changed_trailer_is_corrupt(rest: Seq<u8>, data: Seq<u8>, i: int, b: u8)
    requires
        trailer_holds(rest, data),
        0 <= i < 8,
        b != rest[i],
    ensures
        !trailer_holds(rest.update(i, b), data),
{
    let changed = rest.update(i, b);
    assert(changed.take(8)[i] == b);
    assert(rest.take(8)[i] == rest[i]);
}

/// Why a gzip stream could not be read or written.
#[derive(Clone, Copy, Debug, PartialEq, Eq, Structural)]
pub enum GzError {
    /// The stream does not start with a gzip header.
    BadHeader,
    /// The stream does not have a matching checksum or length.
    Corrupt,
    /// The stream ends in the middle of its header.
    UnexpectedEof,
    /// The stream ends before its deflate data does.
    Incomplete,
    /// The deflate data inside the stream is damaged, or could not be made.
    Deflate,
}

impl GzError {
    pub open spec fn spec_message(self) -> Seq<char> {
        match self {
            GzError::BadHeader => "invalid gzip header"@,
            GzError::Corrupt => "corrupt gzip stream does not have a matching checksum"@,
            GzError::UnexpectedEof => "failed to fill whole buffer"@,
            GzError::Incomplete => "incomplete deflate stream"@,
            GzError::Deflate => "corrupt deflate stream"@,
        }
    }

    /// The text that goes with the error.
    pub fn message(&self) -> (r: &'static str)
        ensures
            r@ == self.spec_message(),
    {
        match self {
            GzError::BadHeader => "invalid gzip header",
            GzError::Corrupt => "corrupt gzip stream does not have a matching checksum",
            GzError::UnexpectedEof => "failed to fill whole buffer",
            GzError::Incomplete => "incomplete deflate stream",
            GzError::Deflate => "corrupt deflate stream",
        }
    }
}

/// The error of a stream whose checksum or length does not match.
pub fn corrupt() -> (e: GzError)
    ensures
        e == GzError::Corrupt,
{
    GzError::Corrupt
}

/// The error of a stream that does not start with a gzip header.
pub fn bad_header() -> (e: GzError)
    ensures
        e == GzError::BadHeader,
{
    GzError::BadHeader
}

} // verus!
