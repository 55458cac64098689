//! A writer that packs bit fields, most significant bit first, into bytes.

use vstd::arithmetic::power2::{lemma_pow2_unfold, pow2};
use vstd::prelude::*;

verus! {

/// Bit `k` of a byte, counted from the most significant end (`0 <= k < 8`).
pub open spec fn byte_bit(b: u8, k: int) -> bool {
    (b >> ((7 - k) as u8)) & 1u8 == 1u8
}

/// The eight bits of a byte, most significant first.
pub open spec fn byte_bits(b: u8) -> Seq<bool> {
    Seq::new(8, |k: int| byte_bit(b, k))
}

/// The bits of a byte sequence, each byte most significant bit first.
pub open spec fn bits_of(bytes: Seq<u8>) -> Seq<bool>
    decreases bytes.len(),
{
    if bytes.len() == 0 {
        Seq::empty()
    } else {
        bits_of(bytes.drop_last()) + byte_bits(bytes.last())
    }
}

/// Bit `p` of a value, counted from the least significant end (`0 <= p < 32`).
pub open spec fn value_bit(v: u32, p: int) -> bool {
    (v >> (p as u32)) & 1u32 == 1u32
}

/// The low `width` bits of `v`, most significant first.
pub open spec fn field_bits(v: u32, width: nat) -> Seq<bool> {
    Seq::new(width, |k: int| value_bit(v, width - 1 - k))
}

/// `n` zero bits.
pub open spec fn zero_bits(n: nat) -> Seq<bool> {
    Seq::new(n, |k: int| false)
}

/// A bit stream padded with zero bits up to the next byte boundary.
pub open spec fn pad_to_byte(bits: Seq<bool>) -> Seq<bool> {
    if bits.len() % 8 == 0 {
        bits
    } else {
        bits + zero_bits((8 - bits.len() % 8) as nat)
    }
}

/// The error of a bit writer.
#[derive(Clone, Copy, Debug, PartialEq, Eq, Structural)]
pub enum WriteError {
    /// A field width of 32 bits or more was asked for.
    InvalidWidth,
}

/// Relies on byteorder's `WriteBytesExt::write_u8`, which hands the byte to the
/// `io::Write` impl of `Vec<u8>`; that impl appends it to the vector and does not
/// fail.
#[verifier::external_body]
fn push_byte(sink: &mut Vec<u8>, byte: u8)
    ensures
        final(sink)@ == old(sink)@.push(byte),
{
    let _ = byteorder::WriteBytesExt::write_u8(sink, byte);
}

proof fn lemma_bits_of_len(bytes: Seq<u8>)
    ensures
        bits_of(bytes).len() == 8 * bytes.len(),
    decreases bytes.len(),
{
    if bytes.len() > 0 {
        lemma_bits_of_len(bytes.drop_last());
    }
}

proof fn lemma_bits_of_push(bytes: Seq<u8>, b: u8)
    ensures
        bits_of(bytes.push(b)) == bits_of(bytes) + byte_bits(b),
{
    assert(bytes.push(b).drop_last() =~= bytes);
}

/// Setting bit `i` (from the most significant end) of a byte whose bits from `i`
/// on are clear changes that bit alone.
proof fn lemma_set_bit(buf: u8, i: u8, k: u8)
    by (bit_vector)
    requires
        i < 8,
        k < 8,
        buf & (0xffu8 >> i) == 0,
    ensures
        ((buf | (1u8 << (7 - i) as u8)) >> (7 - k) as u8) & 1u8 == (if k == i {
            1u8
        } else {
            (buf >> (7 - k) as u8) & 1u8
        }),
        k == i ==> (buf >> (7 - k) as u8) & 1u8 == 0u8,
        i < 7 ==> (buf | (1u8 << (7 - i) as u8)) & (0xffu8 >> (i + 1) as u8) == 0,
        i < 7 ==> buf & (0xffu8 >> (i + 1) as u8) == 0,
{
}

proof fn lemma_mask_bit(v: u32, p: u32)
    by (bit_vector)
    requires
        p < 32,
    ensures
        ((v & (1u32 << p)) != 0) == ((v >> p) & 1u32 == 1u32),
        p >= 1 ==> (1u32 << p) >> 1u32 == 1u32 << (p - 1) as u32,
        (0u32 >> p) & 1u32 == 0u32,
{
}

/// Packs bit fields of varying widths into a byte vector, most significant bit
/// first, with no padding between fields.
#[derive(Debug)]
pub struct BitWriter {
    inner: Vec<u8>,
    buf: u8,
    i: usize,
}

impl BitWriter {
    /// The bytes flushed to the sink so far.
    pub closed spec fn sink(&self) -> Seq<u8> {
        self.inner@
    }

    /// The bits of the byte being assembled, in the order they were written.
    pub closed spec fn pending(&self) -> Seq<bool> {
        Seq::new(self.i as nat, |k: int| byte_bit(self.buf, k))
    }

    /// Fewer than eight bits are pending, and the accumulator holds no other bit.
    pub closed spec fn wf(&self) -> bool {
        &&& self.i < 8
        &&& self.buf & (0xffu8 >> (self.i as u8)) == 0
    }

    /// Every bit written so far, flushed or pending.
    pub open spec fn bits(&self) -> Seq<bool> {
        bits_of(self.sink()) + self.pending()
    }

    /// Creates a bit writer over a sink.
    pub fn new(inner: Vec<u8>) -> (r: Self)
        ensures
            r.wf(),
            r.sink() == inner@,
            r.pending() == Seq::<bool>::empty(),
    {
        let r = Self { inner, buf: 0, i: 0 };
        assert(r.pending() =~= Seq::<bool>::empty());
        assert(0u8 & (0xffu8 >> 0u8) == 0) by (bit_vector);
        r
    }

    /// Returns the sink.
    pub fn get_ref(&self) -> (r: &Vec<u8>)
        ensures
            r@ == self.sink(),
    {
        &self.inner
    }

    proof fn lemma_pending_len(&self)
        requires
            self.wf(),
        ensures
            self.bits().len() == 8 * self.sink().len() + self.pending().len(),
            self.pending().len() < 8,
            self.pending().len() == self.bits().len() % 8,
    {
        lemma_bits_of_len(self.sink());
    }

    fn write_bit(&mut self, is_set: bool)
        requires
            old(self).wf(),
        ensures
            final(self).wf(),
            final(self).bits() == old(self).bits().push(is_set),
    {
        let ghost old_self = *self;
        let i8: u8 = self.i as u8;
        if is_set {
            self.buf = self.buf | (1u8 << (8 - i8 - 1) as u8);
        }
        let ghost nb = self.buf;
        assert forall|k: int| 0 <= k < i8 + 1 implies byte_bit(nb, k) == old_self.pending().push(
            is_set,
        )[k] by {
            lemma_set_bit(old_self.buf, i8, k as u8);
        }
        self.i += 1;
        if self.i == 8 {
            assert(byte_bits(nb) =~= old_self.pending().push(is_set));
            push_byte(&mut self.inner, self.buf);
            proof {
                lemma_bits_of_push(old_self.inner@, nb);
            }
            self.buf = 0;
            self.i = 0;
            assert(0u8 & (0xffu8 >> 0u8) == 0) by (bit_vector);
            assert(self.pending() =~= Seq::<bool>::empty());
            assert(self.bits() =~= old_self.bits().push(is_set));
        } else {
            proof {
                lemma_set_bit(old_self.buf, i8, 0);
            }
            assert(self.pending() =~= old_self.pending().push(is_set));
            assert(self.bits() =~= old_self.bits().push(is_set));
        }
    }

    /// Writes the low `len` bits of `value`, most significant first.
    ///
    /// A width of zero writes nothing; a width of 32 or more is refused with
    /// [`WriteError::InvalidWidth`] and leaves the writer as it was.
    pub fn write_u32(&mut self, value: u32, len: usize) -> (r: Result<(), WriteError>)
        requires
            old(self).wf(),
        ensures
            final(self).wf(),
            len >= 32 ==> r == Err::<(), WriteError>(WriteError::InvalidWidth) && *final(self)
                == *old(self),
            len < 32 ==> r == Ok::<(), WriteError>(()) && final(self).bits() == old(self).bits()
                + field_bits(value, len as nat),
            len == 0 ==> *final(self) == *old(self),
    {
        if len == 0 {
            assert(field_bits(value, 0) =~= Seq::<bool>::empty());
            assert(self.bits() + field_bits(value, 0) =~= self.bits());
            return Ok(());
        } else if len >= 32 {
            return Err(WriteError::InvalidWidth);
        }
        let ghost start = self.bits();
        let mut mask: u32 = 0x01u32 << (len - 1) as u32;
        for j in 0..len
            invariant
                1 <= len < 32,
                self.wf(),
                j < len ==> mask == 1u32 << (len - 1 - j) as u32,
                self.bits() == start + field_bits(value, len as nat).take(j as int),
        {
            let ghost p: u32 = (len - 1 - j) as u32;
            proof {
                lemma_mask_bit(value, p);
            }
            let ghost prev = self.bits();
            self.write_bit(value & mask != 0);
            mask = mask >> 1;
            assert(field_bits(value, len as nat).take(j + 1) =~= field_bits(
                value,
                len as nat,
            ).take(j as int).push(value_bit(value, p as int)));
            assert(self.bits() =~= start + field_bits(value, len as nat).take(j + 1));
        }
        assert(field_bits(value, len as nat).take(len as int) =~= field_bits(value, len as nat));
        Ok(())
    }

    /// Pads the byte being assembled with zero bits and flushes it; does nothing
    /// when no bits are pending.
    pub fn try_finish(&mut self) -> (r: Result<(), WriteError>)
        requires
            old(self).wf(),
        ensures
            final(self).wf(),
            r == Ok::<(), WriteError>(()),
            final(self).pending() == Seq::<bool>::empty(),
            bits_of(final(self).sink()) == pad_to_byte(old(self).bits()),
            old(self).pending().len() == 0 ==> *final(self) == *old(self),
    {
        proof {
            self.lemma_pending_len();
        }
        if self.i > 0 {
            let ghost start = self.bits();
            let n: usize = 8 - self.i;
            let r = self.write_u32(0, n);
            assert forall|k: int| 0 <= k < n implies !#[trigger] field_bits(0, n as nat)[k] by {
                lemma_mask_bit(0, (n - 1 - k) as u32);
            }
            assert(field_bits(0, n as nat) =~= zero_bits(n as nat));
            proof {
                self.lemma_pending_len();
            }
            assert(self.pending() =~= Seq::<bool>::empty());
            assert(bits_of(self.sink()) =~= self.bits());
            r
        } else {
            assert(self.pending() =~= Seq::<bool>::empty());
            assert(self.bits() =~= bits_of(self.sink()));
            Ok(())
        }
    }

    /// Flushes the pending bits as [`BitWriter::try_finish`] does and hands the
    /// sink back.
    pub fn finish(self) -> (r: Result<Vec<u8>, WriteError>)
        requires
            self.wf(),
        ensures
            r matches Ok(v) && bits_of(v@) == pad_to_byte(self.bits()) && (self.pending().len()
                == 0 ==> v@ == self.sink()),
    {
        let mut writer = self;
        writer.try_finish()?;
        Ok(writer.inner)
    }
}

/// Reads a `width`-bit field, most significant bit first, from the front of `bits`.
pub open spec fn read_field(bits: Seq<bool>, width: nat) -> nat
    decreases width,
{
    if width == 0 {
        0
    } else {
        2 * read_field(bits, (width - 1) as nat) + if bits[width - 1] {
            1nat
        } else {
            0nat
        }
    }
}

/// The bits of fields written one after another, `values[i]` in `widths[i]` bits.
pub open spec fn fields_bits(values: Seq<u32>, widths: Seq<nat>) -> Seq<bool>
    decreases values.len(),
{
    if values.len() == 0 {
        Seq::empty()
    } else {
        fields_bits(values.drop_last(), widths.drop_last()) + field_bits(
            values.last(),
            widths[values.len() - 1],
        )
    }
}

/// Reads fields of the given widths, one after another, from the front of `bits`.
pub open spec fn unpack(bits: Seq<bool>, widths: Seq<nat>) -> Seq<nat>
    decreases widths.len(),
{
    if widths.len() == 0 {
        Seq::empty()
    } else {
        seq![read_field(bits, widths[0])] + unpack(bits.skip(widths[0] as int), widths.drop_first())
    }
}

proof fn lemma_read_field_prefix(a: Seq<bool>, b: Seq<bool>, width: nat)
    requires
        width <= a.len(),
        width <= b.len(),
        forall|k: int| 0 <= k < width ==> a[k] == b[k],
    ensures
        read_field(a, width) == read_field(b, width),
    decreases width,
{
    if width > 0 {
        lemma_read_field_prefix(a, b, (width - 1) as nat);
    }
}

proof fn lemma_shift_bits(v: u32, p: u32)
    by (bit_vector)
    requires
        p < 31,
    ensures
        (v >> (p + 1) as u32) & 1u32 == ((v >> 1u32) >> p) & 1u32,
        v == 2 * (v >> 1u32) + (v & 1u32),
        (v & 1u32) == 0u32 || (v & 1u32) == 1u32,
        (v >> 0u32) == v,
{
}

proof fn lemma_read_field_of(v: u32, width: nat)
    requires
        width <= 31,
        v < pow2(width),
    ensures
        read_field(field_bits(v, width), width) == v,
    decreases width,
{
    lemma_shift_bits(v, 0);
    if width == 0 {
        assert(pow2(0) == 1) by {
            vstd::arithmetic::power2::lemma2_to64();
        }
    } else {
        let h: u32 = v >> 1u32;
        lemma_pow2_unfold(width);
        lemma_read_field_of(h, (width - 1) as nat);
        let fv = field_bits(v, width);
        let fh = field_bits(h, (width - 1) as nat);
        assert forall|k: int| 0 <= k < width - 1 implies fv[k] == fh[k] by {
            lemma_shift_bits(v, (width - 2 - k) as u32);
        }
        lemma_read_field_prefix(fv, fh, (width - 1) as nat);
    }
}

proof fn lemma_fields_bits_front(values: Seq<u32>, widths: Seq<nat>)
    requires
        values.len() == widths.len(),
        values.len() >= 1,
    ensures
        fields_bits(values, widths) == field_bits(values[0], widths[0]) + fields_bits(
            values.drop_first(),
            widths.drop_first(),
        ),
    decreases values.len(),
{
    if values.len() == 1 {
        assert(values.drop_last().len() == 0);
        assert(values.drop_first().len() == 0);
        assert(fields_bits(values.drop_last(), widths.drop_last()) == Seq::<bool>::empty());
        assert(fields_bits(values.drop_first(), widths.drop_first()) == Seq::<bool>::empty());
        assert(fields_bits(values, widths) =~= field_bits(values[0], widths[0]) + fields_bits(
            values.drop_first(),
            widths.drop_first(),
        ));
    } else {
        lemma_fields_bits_front(values.drop_last(), widths.drop_last());
        assert(values.drop_last().drop_first() =~= values.drop_first().drop_last());
        assert(widths.drop_last().drop_first() =~= widths.drop_first().drop_last());
        assert(fields_bits(values, widths) =~= field_bits(values[0], widths[0]) + fields_bits(
            values.drop_first(),
            widths.drop_first(),
        ));
    }
}

proof fn lemma_unpack_fields(values: Seq<u32>, widths: Seq<nat>, rest: Seq<bool>)
    requires
        values.len() == widths.len(),
        forall|i: int|
            0 <= i < widths.len() ==> #[trigger] widths[i] <= 31 && values[i] < pow2(widths[i]),
    ensures
        unpack(fields_bits(values, widths) + rest, widths) == values.map_values(|v: u32| v as nat),
    decreases values.len(),
{
    if values.len() == 0 {
        assert(unpack(fields_bits(values, widths) + rest, widths) =~= values.map_values(
            |v: u32| v as nat,
        ));
    } else {
        let w = widths[0];
        let f = field_bits(values[0], w);
        let tail = fields_bits(values.drop_first(), widths.drop_first());
        let bits = fields_bits(values, widths) + rest;
        lemma_fields_bits_front(values, widths);
        assert(bits =~= f + (tail + rest));
        lemma_read_field_of(values[0], w);
        lemma_read_field_prefix(bits, f, w);
        assert(bits.skip(w as int) =~= tail + rest);
        lemma_unpack_fields(values.drop_first(), widths.drop_first(), rest);
        assert(unpack(bits, widths) =~= values.map_values(|v: u32| v as nat));
    }
}

/// Round trip: fields packed one after another with widths from 1 to 31, each
/// value fitting its width, and then padded to a whole byte, read back with the
/// same widths in the same order give the values exactly.
pub proof fn lemma_round_trip(values: Seq<u32>, widths: Seq<nat>, bytes: Seq<u8>)
    requires
        values.len() == widths.len(),
        forall|i: int|
            0 <= i < widths.len() ==> 1 <= #[trigger] widths[i] <= 31 && values[i] < pow2(
                widths[i],
            ),
        bits_of(bytes) == pad_to_byte(fields_bits(values, widths)),
    ensures
        unpack(bits_of(bytes), widths) == values.map_values(|v: u32| v as nat),
{
    let packed = fields_bits(values, widths);
    if packed.len() % 8 == 0 {
        assert(packed =~= packed + Seq::<bool>::empty());
        lemma_unpack_fields(values, widths, Seq::<bool>::empty());
    } else {
        lemma_unpack_fields(values, widths, zero_bits((8 - packed.len() % 8) as nat));
    }
}

/// A zero-width field on a fresh writer over an empty sink, then finishing,
/// produces no bytes, whatever the value.
pub proof fn lemma_zero_width_writes_nothing(value: u32, out: Seq<u8>)
    requires
        bits_of(out) == pad_to_byte(bits_of(Seq::<u8>::empty()) + field_bits(value, 0)),
    ensures
        out.len() == 0,
{
    assert(bits_of(Seq::<u8>::empty()) + field_bits(value, 0) =~= Seq::<bool>::empty());
    lemma_bits_of_len(out);
}

} // verus!
