use vstd::prelude::*;
use vstd::arithmetic::div_mod::{lemma_div_denominator, lemma_mod_breakdown};

verus! {

/// 256 to the power `n`.
pub open spec fn pow256(n: nat) -> nat
    decreases n,
{
    if n == 0 {
        1
    } else {
        256 * pow256((n - 1) as nat)
    }
}

/// The lowest `n` bytes of `v`, least significant first.
pub open spec fn le_bytes(v: nat, n: nat) -> Seq<u8>
    decreases n,
{
    if n == 0 {
        seq![]
    } else {
        le_bytes(v, (n - 1) as nat).push(((v / pow256((n - 1) as nat)) % 256) as u8)
    }
}

/// The number whose little-endian bytes are `s`.
pub open spec fn le_value(s: Seq<u8>) -> nat
    decreases s.len(),
{
    if s.len() == 0 {
        0
    } else {
        le_value(s.drop_last()) + pow256((s.len() - 1) as nat) * (s.last() as nat)
    }
}

proof fn lemma_pow256_positive(n: nat)
    ensures
        pow256(n) > 0,
    decreases n,
{
    if n > 0 {
        lemma_pow256_positive((n - 1) as nat);
    }
}

proof fn lemma_pow256_facts()
    ensures
        pow256(1) == 0x100,
        pow256(2) == 0x1_0000,
        pow256(4) == 0x1_0000_0000,
        pow256(8) == 0x1_0000_0000_0000_0000,
{
    reveal_with_fuel(pow256, 9);
}

/// Reading back the lowest `n` bytes of `v` gives `v` modulo 256^n.
proof fn lemma_le_round_trip(v: nat, n: nat)
    ensures
        le_bytes(v, n).len() == n,
        le_value(le_bytes(v, n)) == v % pow256(n),
    decreases n,
{
    if n == 0 {
    } else {
        let m = (n - 1) as nat;
        lemma_le_round_trip(v, m);
        lemma_pow256_positive(m);
        assert(le_bytes(v, n).drop_last() =~= le_bytes(v, m));
        lemma_mod_breakdown(v as int, pow256(m) as int, 256);
        assert(pow256(m) * 256 == pow256(n)) by (nonlinear_arith)
            requires
                pow256(n) == 256 * pow256(m),
        ;
    }
}

/// A fixed-width integer type written as little-endian bytes.
/// Signed types are written in two's complement.
pub trait LeBytes: Sized + Copy {
    /// The number of bytes of one value.
    spec fn byte_width() -> nat;

    /// The value's bits read as an unsigned number.
    spec fn encoding(self) -> nat;

    /// The value whose bits, read as an unsigned number, are `bits`.
    spec fn decoding(bits: nat) -> Self;

    proof fn lemma_encoding(self)
        ensures
            1 <= Self::byte_width() <= 8,
            self.encoding() < pow256(Self::byte_width()),
            Self::decoding(self.encoding()) == self,
    ;

    fn width() -> (r: usize)
        ensures
            r == Self::byte_width(),
            1 <= r <= 8,
    ;

    fn to_bits(&self) -> (r: u64)
        ensures
            r == self.encoding(),
    ;

    fn from_bits(bits: u64) -> (r: Self)
        requires
            bits < pow256(Self::byte_width()),
        ensures
            r == Self::decoding(bits as nat),
    ;
}

impl LeBytes for u8 {
    open spec fn byte_width() -> nat {
        1
    }

    open spec fn encoding(self) -> nat {
        self as nat
    }

    open spec fn decoding(bits: nat) -> u8 {
        bits as u8
    }

    proof fn lemma_encoding(self) {
        lemma_pow256_facts();
    }

    fn width() -> (r: usize) {
        1
    }

    fn to_bits(&self) -> (r: u64) {
        *self as u64
    }

    fn from_bits(bits: u64) -> (r: u8) {
        proof {
            lemma_pow256_facts();
        }
        bits as u8
    }
}

impl LeBytes for u16 {
    open spec fn byte_width() -> nat {
        2
    }

    open spec fn encoding(self) -> nat {
        self as nat
    }

    open spec fn decoding(bits: nat) -> u16 {
        bits as u16
    }

    proof fn lemma_encoding(self) {
        lemma_pow256_facts();
    }

    fn width() -> (r: usize) {
        2
    }

    fn to_bits(&self) -> (r: u64) {
        *self as u64
    }

    fn from_bits(bits: u64) -> (r: u16) {
        proof {
            lemma_pow256_facts();
        }
        bits as u16
    }
}

impl LeBytes for u32 {
    open spec fn byte_width() -> nat {
        4
    }

    open spec fn encoding(self) -> nat {
        self as nat
    }

    open spec fn decoding(bits: nat) -> u32 {
        bits as u32
    }

    proof fn lemma_encoding(self) {
        lemma_pow256_facts();
    }

    fn width() -> (r: usize) {
        4
    }

    fn to_bits(&self) -> (r: u64) {
        *self as u64
    }

    fn from_bits(bits: u64) -> (r: u32) {
        proof {
            lemma_pow256_facts();
        }
        bits as u32
    }
}

impl LeBytes for u64 {
    open spec fn byte_width() -> nat {
        8
    }

    open spec fn encoding(self) -> nat {
        self as nat
    }

    open spec fn decoding(bits: nat) -> u64 {
        bits as u64
    }

    proof fn lemma_encoding(self) {
        lemma_pow256_facts();
    }

    fn width() -> (r: usize) {
        8
    }

    fn to_bits(&self) -> (r: u64) {
        *self
    }

    fn from_bits(bits: u64) -> (r: u64) {
        bits
    }
}

impl LeBytes for i16 {
    open spec fn byte_width() -> nat {
        2
    }

    open spec fn encoding(self) -> nat {
        if self >= 0 {
            self as nat
        } else {
            (self + 0x1_0000) as nat
        }
    }

    open spec fn decoding(bits: nat) -> i16 {
        if bits < 0x8000 {
            bits as i16
        } else {
            (bits - 0x1_0000) as i16
        }
    }

    proof fn lemma_encoding(self) {
        lemma_pow256_facts();
    }

    fn width() -> (r: usize) {
        2
    }

    fn to_bits(&self) -> (r: u64) {
        if *self >= 0 {
            *self as u64
        } else {
            (*self as i32 + 0x1_0000) as u64
        }
    }

    fn from_bits(bits: u64) -> (r: i16) {
        proof {
            lemma_pow256_facts();
        }
        if bits < 0x8000 {
            bits as i16
        } else {
            (bits as i32 - 0x1_0000) as i16
        }
    }
}

impl LeBytes for i32 {
    open spec fn byte_width() -> nat {
        4
    }

    open spec fn encoding(self) -> nat {
        if self >= 0 {
            self as nat
        } else {
            (self + 0x1_0000_0000) as nat
        }
    }

    open spec fn decoding(bits: nat) -> i32 {
        if bits < 0x8000_0000 {
            bits as i32
        } else {
            (bits - 0x1_0000_0000) as i32
        }
    }

    proof fn lemma_encoding(self) {
        lemma_pow256_facts();
    }

    fn width() -> (r: usize) {
        4
    }

    fn to_bits(&self) -> (r: u64) {
        if *self >= 0 {
            *self as u64
        } else {
            (*self as i64 + 0x1_0000_0000) as u64
        }
    }

    fn from_bits(bits: u64) -> (r: i32) {
        proof {
            lemma_pow256_facts();
        }
        if bits < 0x8000_0000 {
            bits as i32
        } else {
            (bits as i64 - 0x1_0000_0000) as i32
        }
    }
}

impl LeBytes for i64 {
    open spec fn byte_width() -> nat {
        8
    }

    open spec fn encoding(self) -> nat {
        if self >= 0 {
            self as nat
        } else {
            (self + 0x1_0000_0000_0000_0000) as nat
        }
    }

    open spec fn decoding(bits: nat) -> i64 {
        if bits < 0x8000_0000_0000_0000 {
            bits as i64
        } else {
            (bits - 0x1_0000_0000_0000_0000) as i64
        }
    }

    proof fn lemma_encoding(self) {
        lemma_pow256_facts();
    }

    fn width() -> (r: usize) {
        8
    }

    fn to_bits(&self) -> (r: u64) {
        if *self >= 0 {
            *self as u64
        } else {
            u64::MAX - ((-(*self + 1)) as u64)
        }
    }

    fn from_bits(bits: u64) -> (r: i64) {
        proof {
            lemma_pow256_facts();
        }
        if bits < 0x8000_0000_0000_0000 {
            bits as i64
        } else {
            -((u64::MAX - bits) as i64) - 1
        }
    }
}

proof fn lemma_pow256_monotone(a: nat, b: nat)
    requires
        a <= b,
    ensures
        pow256(a) <= pow256(b),
    decreases b,
{
    if a < b {
        lemma_pow256_monotone(a, (b - 1) as nat);
        lemma_pow256_positive((b - 1) as nat);
    }
}

proof fn lemma_le_value_bound(s: Seq<u8>)
    ensures
        le_value(s) < pow256(s.len()),
    decreases s.len(),
{
    if s.len() > 0 {
        let d = s.drop_last();
        lemma_le_value_bound(d);
        let p = pow256(d.len());
        let b = s.last() as nat;
        assert(le_value(d) + p * b < 256 * p) by (nonlinear_arith)
            requires
                le_value(d) < p,
                b <= 255,
        ;
    }
}

/// Appends the lowest `width` bytes of `value`, least significant first.
pub fn push_le_bytes(value: u64, width: usize, buffer: &mut Vec<u8>)
    requires
        width <= 8,
    ensures
        final(buffer)@ == old(buffer)@ + le_bytes(value as nat, width as nat),
{
    let ghost start = buffer@;
    assert(pow256(0) == 1);
    assert(buffer@ =~= start + le_bytes(value as nat, 0));
    let mut v: u64 = value;
    let mut k: usize = 0;
    while k < width
        invariant
            k <= width <= 8,
            v == value as nat / pow256(k as nat),
            buffer@ == start + le_bytes(value as nat, k as nat),
        decreases width - k,
    {
        assert((v & 0xff) < 256) by (bit_vector);
        let byte = (v & 0xff) as u8;
        proof {
            assert(byte == (v % 256) as u8 && v >> 8 == v / 256) by (bit_vector)
                requires
                    byte == (v & 0xff) as u8,
            ;
            lemma_pow256_positive(k as nat);
            lemma_div_denominator(value as int, pow256(k as nat) as int, 256);
            assert(pow256(k as nat) * 256 == pow256((k + 1) as nat)) by (nonlinear_arith)
                requires
                    pow256((k + 1) as nat) == 256 * pow256(k as nat),
            ;
        }
        buffer.push(byte);
        v = v >> 8;
        k += 1;
        proof {
            assert(buffer@ =~= start + le_bytes(value as nat, k as nat));
        }
    }
}

/// Reads `width` bytes from `start` as a little-endian number.
pub fn read_le_bytes(bytes: &Vec<u8>, start: usize, width: usize) -> (r: u64)
    requires
        width <= 8,
        start + width <= bytes.len(),
    ensures
        r as nat == le_value(bytes@.subrange(start as int, start + width)),
{
    let mut acc: u64 = 0;
    let mut mult: u64 = 1;
    let mut j: usize = 0;
    proof {
        assert(bytes@.subrange(start as int, start as int) =~= Seq::<u8>::empty());
    }
    while j < width
        invariant
            j <= width <= 8,
            start + width <= bytes.len(),
            j < width ==> mult == pow256(j as nat),
            acc as nat == le_value(bytes@.subrange(start as int, start + j)),
        decreases width - j,
    {
        let ghost sub = bytes@.subrange(start as int, start + j + 1);
        proof {
            assert(sub.drop_last() =~= bytes@.subrange(start as int, start + j));
            lemma_le_value_bound(sub);
            lemma_pow256_monotone((j + 1) as nat, 8);
            lemma_pow256_facts();
            assert(le_value(sub) == acc + mult * (bytes[start + j as int] as nat));
        }
        acc = acc + mult * (bytes[start + j] as u64);
        if j + 1 < width {
            proof {
                lemma_pow256_monotone((j + 1) as nat, 7);
                reveal_with_fuel(pow256, 8);
            }
            mult = mult * 256;
        }
        j += 1;
    }
    acc
}

/// The little-endian bytes of the values, one after the other.
pub open spec fn values_bytes<T: LeBytes>(s: Seq<T>) -> Seq<u8>
    decreases s.len(),
{
    if s.len() == 0 {
        seq![]
    } else {
        values_bytes(s.drop_last()) + le_bytes(s.last().encoding(), T::byte_width())
    }
}

/// The values read back from consecutive little-endian groups of bytes.
pub open spec fn decode_values<T: LeBytes>(b: Seq<u8>) -> Seq<T>
    decreases b.len(),
{
    if T::byte_width() == 0 || b.len() < T::byte_width() {
        seq![]
    } else {
        let cut = b.len() - T::byte_width();
        decode_values::<T>(b.subrange(0, cut)).push(T::decoding(le_value(b.subrange(cut, b.len() as int))))
    }
}

/// The components of the pairs, in order.
pub open spec fn flatten_pairs<T>(s: Seq<(T, T)>) -> Seq<T>
    decreases s.len(),
{
    if s.len() == 0 {
        seq![]
    } else {
        flatten_pairs(s.drop_last()) + seq![s.last().0, s.last().1]
    }
}

/// The components of the triples, in order.
pub open spec fn flatten_triples<T>(s: Seq<(T, T, T)>) -> Seq<T>
    decreases s.len(),
{
    if s.len() == 0 {
        seq![]
    } else {
        flatten_triples(s.drop_last()) + seq![s.last().0, s.last().1, s.last().2]
    }
}

/// Consecutive values grouped into pairs.
pub open spec fn group_pairs<T>(s: Seq<T>) -> Seq<(T, T)>
    decreases s.len(),
{
    if s.len() < 2 {
        seq![]
    } else {
        group_pairs(s.subrange(0, s.len() - 2)).push((s[s.len() - 2], s[s.len() - 1]))
    }
}

/// Consecutive values grouped into triples.
pub open spec fn group_triples<T>(s: Seq<T>) -> Seq<(T, T, T)>
    decreases s.len(),
{
    if s.len() < 3 {
        seq![]
    } else {
        group_triples(s.subrange(0, s.len() - 3)).push((s[s.len() - 3], s[s.len() - 2], s[s.len() - 1]))
    }
}

/// Decoding the bytes of a sequence of values gives the values back.
pub proof fn lemma_values_round_trip<T: LeBytes>(s: Seq<T>)
    ensures
        decode_values::<T>(values_bytes(s)) == s,
    decreases s.len(),
{
    if s.len() == 0 {
        assert(decode_values::<T>(values_bytes(s)) =~= s);
    } else {
        let d = s.drop_last();
        let v = s.last();
        v.lemma_encoding();
        lemma_values_round_trip(d);
        let head = values_bytes(d);
        let tail = le_bytes(v.encoding(), T::byte_width());
        lemma_le_round_trip(v.encoding(), T::byte_width());
        vstd::arithmetic::div_mod::lemma_small_mod(v.encoding(), pow256(T::byte_width()));
        let b = values_bytes(s);
        assert(b == head + tail);
        assert(b.subrange(0, head.len() as int) =~= head);
        assert(b.subrange(head.len() as int, b.len() as int) =~= tail);
        assert(d.push(v) =~= s);
    }
}

proof fn lemma_pairs_round_trip<T>(s: Seq<(T, T)>)
    ensures
        group_pairs(flatten_pairs(s)) == s,
        flatten_pairs(s).len() == 2 * s.len(),
    decreases s.len(),
{
    if s.len() == 0 {
        assert(group_pairs(flatten_pairs(s)) =~= s);
    } else {
        lemma_pairs_round_trip(s.drop_last());
        let f = flatten_pairs(s);
        assert(f.subrange(0, f.len() - 2) =~= flatten_pairs(s.drop_last()));
        assert(s.drop_last().push(s.last()) =~= s);
    }
}

proof fn lemma_triples_round_trip<T>(s: Seq<(T, T, T)>)
    ensures
        group_triples(flatten_triples(s)) == s,
        flatten_triples(s).len() == 3 * s.len(),
    decreases s.len(),
{
    if s.len() == 0 {
        assert(group_triples(flatten_triples(s)) =~= s);
    } else {
        lemma_triples_round_trip(s.drop_last());
        let f = flatten_triples(s);
        assert(f.subrange(0, f.len() - 3) =~= flatten_triples(s.drop_last()));
        assert(s.drop_last().push(s.last()) =~= s);
    }
}

/// Decoding the bytes of a sequence of pairs, and grouping the values in twos,
/// gives the pairs back.
pub proof fn lemma_pairs_bytes_round_trip<T: LeBytes>(s: Seq<(T, T)>)
    ensures
        group_pairs(decode_values::<T>(values_bytes(flatten_pairs(s)))) == s,
{
    lemma_values_round_trip(flatten_pairs(s));
    lemma_pairs_round_trip(s);
}

/// Decoding the bytes of a sequence of triples, and grouping the values in
/// threes, gives the triples back.
pub proof fn lemma_triples_bytes_round_trip<T: LeBytes>(s: Seq<(T, T, T)>)
    ensures
        group_triples(decode_values::<T>(values_bytes(flatten_triples(s)))) == s,
{
    lemma_values_round_trip(flatten_triples(s));
    lemma_triples_round_trip(s);
}

/// Appends the little-endian bytes of one value.
pub fn push_value_to_buffer<T: LeBytes>(value: &T, buffer: &mut Vec<u8>)
    ensures
        final(buffer)@ == old(buffer)@ + le_bytes(value.encoding(), T::byte_width()),
{
    proof {
        value.lemma_encoding();
    }
    push_le_bytes(value.to_bits(), T::width(), buffer);
}

proof fn lemma_values_bytes_push<T: LeBytes>(s: Seq<T>, v: T)
    ensures
        values_bytes(s.push(v)) == values_bytes(s) + le_bytes(v.encoding(), T::byte_width()),
{
    assert(s.push(v).drop_last() =~= s);
}

/// Values written as a flat little-endian byte buffer, with no padding.
pub trait ByteSerializer {
    /// The bytes written for this value.
    spec fn spec_bytes(&self) -> Seq<u8>;

    fn serialize_to_bytes(&self) -> (r: Vec<u8>)
        ensures
            r@ == self.spec_bytes(),
    ;
}

impl<T: LeBytes> ByteSerializer for Vec<T> {
    open spec fn spec_bytes(&self) -> Seq<u8> {
        values_bytes(self@)
    }

    fn serialize_to_bytes(&self) -> (r: Vec<u8>) {
        let mut result: Vec<u8> = Vec::new();
        let mut i: usize = 0;
        while i < self.len()
            invariant
                i <= self.len(),
                result@ == values_bytes(self@.take(i as int)),
            decreases self.len() - i,
        {
            push_value_to_buffer(&self[i], &mut result);
            proof {
                lemma_values_bytes_push(self@.take(i as int), self@[i as int]);
                assert(self@.take(i as int).push(self@[i as int]) =~= self@.take(i + 1));
            }
            i += 1;
        }
        proof {
            assert(self@.take(self.len() as int) =~= self@);
        }
        result
    }
}

impl<T: LeBytes> ByteSerializer for Vec<(T, T)> {
    open spec fn spec_bytes(&self) -> Seq<u8> {
        values_bytes(flatten_pairs(self@))
    }

    fn serialize_to_bytes(&self) -> (r: Vec<u8>) {
        let mut result: Vec<u8> = Vec::new();
        let mut i: usize = 0;
        while i < self.len()
            invariant
                i <= self.len(),
                result@ == values_bytes(flatten_pairs(self@.take(i as int))),
            decreases self.len() - i,
        {
            let pair = self[i];
            push_value_to_buffer(&pair.0, &mut result);
            push_value_to_buffer(&pair.1, &mut result);
            proof {
                let f = flatten_pairs(self@.take(i as int));
                lemma_values_bytes_push(f, pair.0);
                lemma_values_bytes_push(f.push(pair.0), pair.1);
                assert(self@.take(i + 1).drop_last() =~= self@.take(i as int));
                assert(flatten_pairs(self@.take(i + 1)) =~= f.push(pair.0).push(pair.1));
            }
            i += 1;
        }
        proof {
            assert(self@.take(self.len() as int) =~= self@);
        }
        result
    }
}

impl<T: LeBytes> ByteSerializer for Vec<(T, T, T)> {
    open spec fn spec_bytes(&self) -> Seq<u8> {
        values_bytes(flatten_triples(self@))
    }

    fn serialize_to_bytes(&self) -> (r: Vec<u8>) {
        let mut result: Vec<u8> = Vec::new();
        let mut i: usize = 0;
        while i < self.len()
            invariant
                i <= self.len(),
                result@ == values_bytes(flatten_triples(self@.take(i as int))),
            decreases self.len() - i,
        {
            let triple = self[i];
            push_value_to_buffer(&triple.0, &mut result);
            push_value_to_buffer(&triple.1, &mut result);
            push_value_to_buffer(&triple.2, &mut result);
            proof {
                let f = flatten_triples(self@.take(i as int));
                lemma_values_bytes_push(f, triple.0);
                lemma_values_bytes_push(f.push(triple.0), triple.1);
                lemma_values_bytes_push(f.push(triple.0).push(triple.1), triple.2);
                assert(self@.take(i + 1).drop_last() =~= self@.take(i as int));
                assert(flatten_triples(self@.take(i + 1)) =~= f.push(triple.0).push(triple.1).push(triple.2));
            }
            i += 1;
        }
        proof {
            assert(self@.take(self.len() as int) =~= self@);
        }
        result
    }
}

/// Reads back a buffer written by the serializer: `None` when its length is
/// not a multiple of the value width.
pub fn deserialize_from_bytes<T: LeBytes>(bytes: &Vec<u8>) -> (r: Option<Vec<T>>)
    ensures
        r is Some <==> (bytes.len() as nat) % T::byte_width() == 0,
        r is Some ==> r->Some_0@ == decode_values::<T>(bytes@),
{
    let width = T::width();
    if width == 0 || bytes.len() % width != 0 {
        return None;
    }
    let mut result: Vec<T> = Vec::new();
    let mut start: usize = 0;
    proof {
        assert(bytes@.subrange(0, 0) =~= Seq::<u8>::empty());
    }
    while start < bytes.len()
        invariant
            1 <= width <= 8,
            width == T::byte_width(),
            bytes.len() % width == 0,
            start <= bytes.len(),
            start % width == 0,
            result@ == decode_values::<T>(bytes@.subrange(0, start as int)),
        decreases bytes.len() - start,
    {
        assert(start + width <= bytes.len()) by {
            vstd::arithmetic::div_mod::lemma_fundamental_div_mod(start as int, width as int);
            vstd::arithmetic::div_mod::lemma_fundamental_div_mod(bytes.len() as int, width as int);
            let a = start as int / width as int;
            let b = bytes.len() as int / width as int;
            assert(a * width + width <= b * width) by (nonlinear_arith)
                requires
                    a * width < b * width,
                    width > 0,
            ;
        }
        let bits = read_le_bytes(bytes, start, width);
        proof {
            lemma_le_value_bound(bytes@.subrange(start as int, start + width));
        }
        let value = T::from_bits(bits);
        result.push(value);
        proof {
            let b = bytes@.subrange(0, start + width);
            assert(b.subrange(0, start as int) =~= bytes@.subrange(0, start as int));
            assert(b.subrange(start as int, b.len() as int) =~= bytes@.subrange(start as int, start + width));
            vstd::arithmetic::div_mod::lemma_mod_adds(start as int, width as int, width as int);
            vstd::arithmetic::div_mod::lemma_mod_self_0(width as int);
        }
        start += width;
    }
    proof {
        assert(bytes@.subrange(0, bytes.len() as int) =~= bytes@);
    }
    Some(result)
}

/// The lowest `n` bytes of `v`, most significant first.
pub open spec fn be_bytes(v: nat, n: nat) -> Seq<u8> {
    Seq::new(n, |k: int| ((v / pow256((n - 1 - k) as nat)) % 256) as u8)
}

/// The big-endian bytes of the values, one after the other.
pub open spec fn values_be_bytes<T: LeBytes>(s: Seq<T>) -> Seq<u8>
    decreases s.len(),
{
    if s.len() == 0 {
        seq![]
    } else {
        values_be_bytes(s.drop_last()) + be_bytes(s.last().encoding(), T::byte_width())
    }
}

/// Appends the lowest `width` bytes of `value`, most significant first.
pub fn push_be_bytes(value: u64, width: usize, buffer: &mut Vec<u8>)
    requires
        1 <= width <= 8,
    ensures
        final(buffer)@ == old(buffer)@ + be_bytes(value as nat, width as nat),
{
    let ghost start = buffer@;
    let mut d: u64 = 1;
    let mut m: usize = 1;
    proof {
        lemma_pow256_facts();
        reveal_with_fuel(pow256, 2);
    }
    while m < width
        invariant
            1 <= m <= width <= 8,
            d == pow256((m - 1) as nat),
        decreases width - m,
    {
        proof {
            lemma_pow256_monotone(m as nat, 7);
            reveal_with_fuel(pow256, 8);
        }
        d = d * 256;
        m += 1;
    }
    let mut k: usize = 0;
    proof {
        assert(buffer@ =~= start + be_bytes(value as nat, width as nat).take(0));
    }
    while k < width
        invariant
            k <= width <= 8,
            k < width ==> d == pow256((width - 1 - k) as nat),
            buffer@ == start + be_bytes(value as nat, width as nat).take(k as int),
        decreases width - k,
    {
        proof {
            lemma_pow256_positive((width - 1 - k) as nat);
        }
        let byte = ((value / d) % 256) as u8;
        buffer.push(byte);
        if k + 1 < width {
            proof {
                let e = (width - 2 - k) as nat;
                lemma_pow256_positive(e);
                vstd::arithmetic::div_mod::lemma_div_multiples_vanish(pow256(e) as int, 256);
            }
            d = d / 256;
        }
        k += 1;
        proof {
            assert(buffer@ =~= start + be_bytes(value as nat, width as nat).take(k as int));
        }
    }
    proof {
        assert(be_bytes(value as nat, width as nat).take(width as int) =~= be_bytes(value as nat, width as nat));
    }
}

/// The values written as big-endian bytes, one after the other, as raster
/// encoders store samples wider than a byte.
pub fn write_values_be<T: LeBytes>(values: &Vec<T>) -> (r: Vec<u8>)
    ensures
        r@ == values_be_bytes(values@),
{
    let mut result: Vec<u8> = Vec::new();
    let mut i: usize = 0;
    while i < values.len()
        invariant
            i <= values.len(),
            result@ == values_be_bytes(values@.take(i as int)),
        decreases values.len() - i,
    {
        let v = values[i];
        proof {
            v.lemma_encoding();
        }
        push_be_bytes(v.to_bits(), T::width(), &mut result);
        proof {
            assert(values@.take(i + 1).drop_last() =~= values@.take(i as int));
        }
        i += 1;
    }
    proof {
        assert(values@.take(values.len() as int) =~= values@);
    }
    result
}

/// The components of the pairs, in order.
pub fn flatten_pair_vec<T: Copy>(pairs: &Vec<(T, T)>) -> (r: Vec<T>)
    ensures
        r@ == flatten_pairs(pairs@),
{
    let mut out: Vec<T> = Vec::new();
    let mut i: usize = 0;
    while i < pairs.len()
        invariant
            i <= pairs.len(),
            out@ == flatten_pairs(pairs@.take(i as int)),
        decreases pairs.len() - i,
    {
        let p = pairs[i];
        out.push(p.0);
        out.push(p.1);
        proof {
            assert(pairs@.take(i + 1).drop_last() =~= pairs@.take(i as int));
            assert(out@ =~= flatten_pairs(pairs@.take(i + 1)));
        }
        i += 1;
    }
    proof {
        assert(pairs@.take(pairs.len() as int) =~= pairs@);
    }
    out
}

/// The components of the triples, in order.
pub fn flatten_triple_vec<T: Copy>(triples: &Vec<(T, T, T)>) -> (r: Vec<T>)
    ensures
        r@ == flatten_triples(triples@),
{
    let mut out: Vec<T> = Vec::new();
    let mut i: usize = 0;
    while i < triples.len()
        invariant
            i <= triples.len(),
            out@ == flatten_triples(triples@.take(i as int)),
        decreases triples.len() - i,
    {
        let t = triples[i];
        out.push(t.0);
        out.push(t.1);
        out.push(t.2);
        proof {
            assert(triples@.take(i + 1).drop_last() =~= triples@.take(i as int));
            assert(out@ =~= flatten_triples(triples@.take(i + 1)));
        }
        i += 1;
    }
    proof {
        assert(triples@.take(triples.len() as int) =~= triples@);
    }
    out
}

} // verus!
