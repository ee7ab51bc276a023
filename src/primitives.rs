//! Packed bit fields of a 16-bit bus word.
//!
//! A field of `n` bits whose least significant bit sits at position `l`
//! occupies bits `[l, l + n)` of the word. The spec functions below describe
//! the three operations on such a field (align, write, read) over `u16`, and
//! the exec functions implement them once for every layout.
use vstd::prelude::*;

verus! {

/// The low `n` bits set, for `1 <= n <= 16`.
pub open spec fn mask(n: u16) -> u16 {
    0xffffu16 >> ((16 - n) as u16)
}

/// Whether `v` fits in an `n`-bit field.
pub open spec fn fits(v: u16, n: u16) -> bool {
    v <= mask(n)
}

/// Whether an `n`-bit field whose least significant bit is at `l` lies inside a word.
pub open spec fn is_layout(n: u16, l: u16) -> bool {
    1 <= n <= 16 && n + l <= 16
}

/// `w` with bits `[l, l + n)` replaced by the low `n` bits of `v`, every other bit kept.
pub open spec fn set_bits(w: u16, v: u16, n: u16, l: u16) -> u16 {
    (w & !(mask(n) << l)) | ((v & mask(n)) << l)
}

/// The value of bits `[l, l + n)` of `w`.
pub open spec fn get_bits(w: u16, n: u16, l: u16) -> u16 {
    (w >> l) & mask(n)
}

/// An unsigned value of `SIZE` bits, `1 <= SIZE <= 8`.
#[derive(Clone, Copy, Debug, PartialEq, Eq)]
pub struct BitField<const SIZE: u8> {
    raw_value: u8,
}

impl<const SIZE: u8> View for BitField<SIZE> {
    type V = u8;

    closed spec fn view(&self) -> u8 {
        self.raw_value
    }
}

impl<const SIZE: u8> BitField<SIZE> {
    #[verifier::type_invariant]
    closed spec fn inv(&self) -> bool {
        1 <= SIZE <= 8 && fits(self.raw_value as u16, SIZE as u16)
    }

    /// The bit field holding `v`, in spec code.
    pub closed spec fn from_raw(v: u8) -> Self {
        BitField { raw_value: v }
    }

    pub proof fn lemma_from_raw_view(v: u8)
        ensures
            (#[trigger] Self::from_raw(v))@ == v,
    {
    }

    /// A bit field is determined by its value.
    pub proof fn lemma_from_raw_of_view(b: Self)
        ensures
            Self::from_raw(#[trigger] b@) == b,
    {
    }

    pub fn new(value: u8) -> (r: Self)
        requires
            1 <= SIZE <= 8,
            fits(value as u16, SIZE as u16),
        ensures
            r@ == value,
    {
        Self { raw_value: value }
    }

    pub fn value(&self) -> (r: u8)
        ensures
            r == self@,
            1 <= SIZE <= 8,
            fits(r as u16, SIZE as u16),
    {
        proof {
            use_type_invariant(self);
        }
        self.raw_value
    }
}

/// An unsigned value of `SIZE` bits, `1 <= SIZE <= 16`, for fields that span
/// more than one byte.
#[derive(Clone, Copy, Debug, PartialEq, Eq)]
pub struct ComplexBitField<const SIZE: u8> {
    raw_value: u16,
}

impl<const SIZE: u8> View for ComplexBitField<SIZE> {
    type V = u16;

    closed spec fn view(&self) -> u16 {
        self.raw_value
    }
}

impl<const SIZE: u8> ComplexBitField<SIZE> {
    #[verifier::type_invariant]
    closed spec fn inv(&self) -> bool {
        1 <= SIZE <= 16 && fits(self.raw_value, SIZE as u16)
    }

    pub fn new(value: u16) -> (r: Self)
        requires
            1 <= SIZE <= 16,
            fits(value, SIZE as u16),
        ensures
            r@ == value,
    {
        Self { raw_value: value }
    }

    pub fn value(&self) -> (r: u16)
        ensures
            r == self@,
            1 <= SIZE <= 16,
            fits(r, SIZE as u16),
    {
        proof {
            use_type_invariant(self);
        }
        self.raw_value
    }
}

/// Moves an `n`-bit value to bit position `l`.
pub fn align_field(v: u16, n: u16, l: u16) -> (r: u16)
    requires
        is_layout(n, l),
        fits(v, n),
    ensures
        r == v << l,
        r == set_bits(0, v, n, l),
{
    let r = v << l;
    assert(r == set_bits(0, v, n, l)) by (bit_vector)
        requires
            r == v << l,
            v <= mask(n),
            1 <= n <= 16,
    ;
    r
}

/// Writes an `n`-bit value into bits `[l, l + n)` of `w`, keeping every other bit.
pub fn set_field(w: u16, v: u16, n: u16, l: u16) -> (r: u16)
    requires
        is_layout(n, l),
        fits(v, n),
    ensures
        r == set_bits(w, v, n, l),
{
    let m: u16 = 0xffffu16 >> (16 - n);
    let r = (w & !(m << l)) | (v << l);
    assert(r == set_bits(w, v, n, l)) by (bit_vector)
        requires
            r == (w & !(m << l)) | (v << l),
            m == mask(n),
            v <= mask(n),
            1 <= n <= 16,
    ;
    r
}

/// Reads bits `[l, l + n)` of `w`.
pub fn read_field(w: u16, n: u16, l: u16) -> (r: u16)
    requires
        is_layout(n, l),
    ensures
        r == get_bits(w, n, l),
        fits(r, n),
        n <= 8 ==> r < 256,
{
    let m: u16 = 0xffffu16 >> (16 - n);
    let r = (w >> l) & m;
    assert(fits(r, n) && (n <= 8 ==> r < 256)) by (bit_vector)
        requires
            r == (w >> l) & m,
            m == mask(n),
            1 <= n <= 16,
    ;
    r
}

/// Reading a field after writing it gives the written value, and writing back
/// what was read leaves the word unchanged.
pub proof fn lemma_read_set_in(w: u16, v: u16, n: u16, l: u16)
    requires
        is_layout(n, l),
        fits(v, n),
    ensures
        get_bits(set_bits(w, v, n, l), n, l) == v,
        set_bits(w, get_bits(w, n, l), n, l) == w,
{
    assert(get_bits(set_bits(w, v, n, l), n, l) == v) by (bit_vector)
        requires
            1 <= n <= 16,
            n + l <= 16,
            v <= mask(n),
    ;
    assert(set_bits(w, get_bits(w, n, l), n, l) == w) by (bit_vector)
        requires
            1 <= n <= 16,
            n + l <= 16,
    ;
}

/// Writing a field leaves every field that does not overlap it unchanged.
pub proof fn lemma_set_in_keeps_others(w: u16, v: u16, n: u16, l: u16, n2: u16, l2: u16)
    requires
        is_layout(n, l),
        is_layout(n2, l2),
        l + n <= l2 || l2 + n2 <= l,
    ensures
        get_bits(set_bits(w, v, n, l), n2, l2) == get_bits(w, n2, l2),
{
    assert(get_bits(set_bits(w, v, n, l), n2, l2) == get_bits(w, n2, l2)) by (bit_vector)
        requires
            1 <= n <= 16,
            n + l <= 16,
            1 <= n2 <= 16,
            n2 + l2 <= 16,
            l + n <= l2 || l2 + n2 <= l,
    ;
}

/// A value that is written as a field of at most eight bits, `FIELD_SIZE` wide
/// with its least significant bit at `LSB_IDX`.
pub trait AlignableBitField<const FIELD_SIZE: u8, const LSB_IDX: u8>: Sized {
    /// The field value that this item is written as.
    spec fn field(&self) -> u8;

    /// The item that the field value `v` reads as.
    spec fn of_field(v: u8) -> Self;

    fn to_bit_field(&self) -> (r: BitField<FIELD_SIZE>)
        ensures
            r@ == self.field(),
    ;

    fn from_bit_field(f: BitField<FIELD_SIZE>) -> (r: Self)
        ensures
            r == Self::of_field(f@),
    ;

    /// The field moved to its position in the word, every other bit clear.
    fn align_to_word(&self) -> (r: u16)
        requires
            FIELD_SIZE <= 8,
            is_layout(FIELD_SIZE as u16, LSB_IDX as u16),
        ensures
            r == (self.field() as u16) << (LSB_IDX as u16),
            r == set_bits(0, self.field() as u16, FIELD_SIZE as u16, LSB_IDX as u16),
            fits(self.field() as u16, FIELD_SIZE as u16),
    {
        let f = self.to_bit_field();
        let v = f.value();
        align_field(v as u16, FIELD_SIZE as u16, LSB_IDX as u16)
    }

    /// `value` with this field written in, every other bit kept.
    fn set_in(&self, value: u16) -> (r: u16)
        requires
            FIELD_SIZE <= 8,
            is_layout(FIELD_SIZE as u16, LSB_IDX as u16),
        ensures
            r == set_bits(value, self.field() as u16, FIELD_SIZE as u16, LSB_IDX as u16),
            fits(self.field() as u16, FIELD_SIZE as u16),
    {
        let f = self.to_bit_field();
        let v = f.value();
        set_field(value, v as u16, FIELD_SIZE as u16, LSB_IDX as u16)
    }

    /// The field of `value` read as an item of this type.
    fn read(value: u16) -> (r: Self)
        requires
            FIELD_SIZE <= 8,
            is_layout(FIELD_SIZE as u16, LSB_IDX as u16),
        ensures
            r == Self::of_field(get_bits(value, FIELD_SIZE as u16, LSB_IDX as u16) as u8),
            get_bits(value, FIELD_SIZE as u16, LSB_IDX as u16) < 256,
    {
        let v = read_field(value, FIELD_SIZE as u16, LSB_IDX as u16);
        Self::from_bit_field(BitField::new(v as u8))
    }
}

/// A value that is written as a field of up to sixteen bits, `FIELD_SIZE` wide
/// with its least significant bit at `LSB_IDX`.
pub trait AlignableComplexBitField<const FIELD_SIZE: u8, const LSB_IDX: u8>: Sized {
    /// The field value that this item is written as.
    spec fn field(&self) -> u16;

    /// The item that the field value `v` reads as.
    spec fn of_field(v: u16) -> Self;

    fn to_bit_field(&self) -> (r: ComplexBitField<FIELD_SIZE>)
        ensures
            r@ == self.field(),
    ;

    fn from_bit_field(f: ComplexBitField<FIELD_SIZE>) -> (r: Self)
        ensures
            r == Self::of_field(f@),
    ;

    /// The field moved to its position in the word, every other bit clear.
    fn align_to_word(&self) -> (r: u16)
        requires
            is_layout(FIELD_SIZE as u16, LSB_IDX as u16),
        ensures
            r == self.field() << (LSB_IDX as u16),
            r == set_bits(0, self.field(), FIELD_SIZE as u16, LSB_IDX as u16),
            fits(self.field(), FIELD_SIZE as u16),
    {
        let f = self.to_bit_field();
        let v = f.value();
        align_field(v, FIELD_SIZE as u16, LSB_IDX as u16)
    }

    /// `value` with this field written in, every other bit kept.
    fn set_in(&self, value: u16) -> (r: u16)
        requires
            is_layout(FIELD_SIZE as u16, LSB_IDX as u16),
        ensures
            r == set_bits(value, self.field(), FIELD_SIZE as u16, LSB_IDX as u16),
            fits(self.field(), FIELD_SIZE as u16),
    {
        let f = self.to_bit_field();
        let v = f.value();
        set_field(value, v, FIELD_SIZE as u16, LSB_IDX as u16)
    }

    /// The field of `value` read as an item of this type.
    fn read(value: u16) -> (r: Self)
        requires
            is_layout(FIELD_SIZE as u16, LSB_IDX as u16),
        ensures
            r == Self::of_field(get_bits(value, FIELD_SIZE as u16, LSB_IDX as u16)),
    {
        let v = read_field(value, FIELD_SIZE as u16, LSB_IDX as u16);
        Self::from_bit_field(ComplexBitField::new(v))
    }
}

} // verus!
