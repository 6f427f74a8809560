//! Linux evdev helpers: ioctl request encoding and input records.
use vstd::prelude::*;

verus! {

// Linux _IOC encoding (asm-generic/ioctl.h).
pub const IOC_NRBITS: u32 = 8;
pub const IOC_TYPEBITS: u32 = 8;
pub const IOC_SIZEBITS: u32 = 14;
pub const IOC_NRSHIFT: u32 = 0;
pub const IOC_TYPESHIFT: u32 = 8;
pub const IOC_SIZESHIFT: u32 = 16;
pub const IOC_DIRSHIFT: u32 = 30;
pub const IOC_READ: u32 = 2;

/// The `_IOR(ty, nr, size)` request number, as an integer: direction in
/// bits 30..32, size in bits 16..30, type in bits 8..16, number in bits 0..8.
pub open spec fn ior_value(ty: u8, nr: u8, size: nat) -> int {
    IOC_READ * 0x4000_0000 + size * 0x1_0000 + ty * 0x100 + nr
}

/// The fields of an `_IOR` request number decode back from it: the number
/// from bits 0..8, the type from bits 8..16, the size from bits 16..30 and
/// the read direction from bits 30..32.
pub proof fn lemma_ior_fields(ty: u8, nr: u8, size: nat)
    requires
        size < 0x4000,
    ensures
        ior_value(ty, nr, size) % 0x100 == nr,
        (ior_value(ty, nr, size) / 0x100) % 0x100 == ty,
        (ior_value(ty, nr, size) / 0x1_0000) % 0x4000 == size,
        ior_value(ty, nr, size) / 0x4000_0000 == IOC_READ,
{
    let v = ior_value(ty, nr, size);
    assert(v == nr + 0x100 * (ty + 0x100 * (size + 0x4000 * 2)));
    assert(v % 0x100 == nr && v / 0x100 == ty + 0x100 * (size + 0x4000 * 2)) by (nonlinear_arith)
        requires
            v == nr + 0x100 * (ty + 0x100 * (size + 0x4000 * 2)),
            0 <= nr < 0x100,
            0 <= ty < 0x100,
            0 <= size,
    ;
    let v1 = ty + 0x100 * (size + 0x4000 * 2);
    assert(v1 % 0x100 == ty && v1 / 0x100 == size + 0x4000 * 2) by (nonlinear_arith)
        requires
            v1 == ty + 0x100 * (size + 0x4000 * 2),
            0 <= ty < 0x100,
            0 <= size,
    ;
    assert(v / 0x1_0000 == size + 0x4000 * 2) by (nonlinear_arith)
        requires
            v / 0x100 == size * 0x100 + 0x4000 * 2 * 0x100 + ty,
            v >= 0,
            0 <= ty < 0x100,
            0 <= size,
    ;
    let v2 = size + 0x4000 * 2;
    assert(v2 % 0x4000 == size && v2 / 0x4000 == 2) by (nonlinear_arith)
        requires
            v2 == size + 0x4000 * 2,
            0 <= size < 0x4000,
    ;
    assert(v / 0x4000_0000 == 2) by (nonlinear_arith)
        requires
            v == nr + 0x100 * ty + 0x1_0000 * size + 0x8000_0000,
            0 <= nr < 0x100,
            0 <= ty < 0x100,
            0 <= size < 0x4000,
    ;
}

/// The request number that `ior` computes for any size: the size is cut to
/// the 16 bits that the shift keeps, and its top two bits fall onto the
/// direction field, whose read bit stays set.
pub open spec fn ior_bits(ty: u8, nr: u8, size: nat) -> int {
    ((((size % 0x1_0000) * 0x1_0000) as u32) | 0x8000_0000u32) + ty * 0x100 + nr
}

/// For any size, the low 16 bits of the request hold the type and number,
/// and the high 16 bits hold the size cut to 16 bits with the read bit
/// (bit 15 of that half) set.
pub proof fn lemma_ior_bits_fields(ty: u8, nr: u8, size: nat)
    ensures
        ior_bits(ty, nr, size) % 0x1_0000 == ty * 0x100 + nr,
        ior_bits(ty, nr, size) / 0x1_0000 == (if size % 0x1_0000 >= 0x8000 {
            size % 0x1_0000
        } else {
            size % 0x1_0000 + 0x8000
        }),
{
    let x: u32 = (size % 0x1_0000) as u32;
    let hi: u32 = ((size % 0x1_0000) * 0x1_0000) as u32;
    assert(hi == x * 0x1_0000);
    let o: u32 = hi | 0x8000_0000u32;
    assert(o % 0x1_0000 == 0 && o / 0x1_0000 == (if x >= 0x8000 { x as int } else { x + 0x8000 })) by (bit_vector)
        requires
            x < 0x1_0000,
            hi == x * 0x1_0000,
            o == hi | 0x8000_0000u32;
    let low = ty * 0x100 + nr;
    assert((o + low) % 0x1_0000 == low && (o + low) / 0x1_0000 == o / 0x1_0000) by (nonlinear_arith)
        requires
            o % 0x1_0000 == 0,
            0 <= low < 0x1_0000,
            o >= 0,
    ;
}

/// `_IOR(ty, nr, size)`: the request number of an ioctl that reads `size`
/// bytes from the kernel. Sizes of 14 bits or fewer, which is all the kernel
/// encodes, give the `_IOR` value exactly.
pub fn ior(ty: u8, nr: u8, size: usize) -> (r: u32)
    ensures
        r == ior_bits(ty, nr, size as nat),
        size < 0x4000 ==> r == ior_value(ty, nr, size as nat),
{
    let s: u32 = size as u32;
    let t: u32 = ty as u32;
    let n: u32 = nr as u32;
    let r: u32 = (IOC_READ << IOC_DIRSHIFT) | (t << IOC_TYPESHIFT) | (n << IOC_NRSHIFT) | (s << IOC_SIZESHIFT);
    assert(s % 0x1_0000 == size % 0x1_0000) by (bit_vector)
        requires
            s == size as u32;
    let hi: u32 = ((s % 0x1_0000) * 0x1_0000) as u32;
    assert(r == (hi | 0x8000_0000u32) + t * 0x100 + n) by (bit_vector)
        requires
            t < 0x100, n < 0x100,
            hi == ((s % 0x1_0000) * 0x1_0000) as u32,
            r == (2u32 << 30u32) | (t << 8u32) | (n << 0u32) | (s << 16u32);
    assert(size < 0x4000 ==> (hi | 0x8000_0000u32) == 0x8000_0000u32 + hi) by (bit_vector)
        requires
            hi == ((s % 0x1_0000) * 0x1_0000) as u32,
            s % 0x1_0000 == size % 0x1_0000;
    r
}

/// `struct input_absinfo`: the range and state of one absolute axis.
#[derive(Clone, Copy, Debug, PartialEq, Eq, Structural)]
pub struct InputAbsInfo {
    pub value: i32,
    pub minimum: i32,
    pub maximum: i32,
    pub fuzz: i32,
    pub flat: i32,
    pub resolution: i32,
}

impl Default for InputAbsInfo {
    fn default() -> (r: Self)
        ensures
            r == (InputAbsInfo { value: 0, minimum: 0, maximum: 0, fuzz: 0, flat: 0, resolution: 0 }),
    {
        InputAbsInfo { value: 0, minimum: 0, maximum: 0, fuzz: 0, flat: 0, resolution: 0 }
    }
}

/// Size in bytes of `struct input_absinfo` (six 32-bit fields).
pub const ABS_INFO_SIZE: usize = 24;

/// `EVIOCGABS(code)`: the request that reads the `input_absinfo` of the
/// absolute axis `code`. Its number is `0x40 + code`, cut to 8 bits.
pub fn eviocgabs(code: u16) -> (r: u32)
    requires
        code + 0x40 <= u16::MAX,
    ensures
        r == ior_value(0x45, ((code + 0x40) % 256) as u8, ABS_INFO_SIZE as nat),
{
    let nr: u16 = 0x40u16 + code;
    let nr8: u8 = (nr % 256) as u8;
    ior(0x45, nr8, ABS_INFO_SIZE)
}

/// One `struct input_event`: the timestamp (seconds and microseconds, C
/// `long`s), the event type, the code and the value.
#[derive(Clone, Copy, Debug, PartialEq, Eq, Structural)]
pub struct InputEvent {
    pub time_sec: i64,
    pub time_usec: i64,
    pub type_: u16,
    pub code: u16,
    pub value: i32,
}

/// The memory layout of `struct input_event` on the running machine: the
/// width of a C `long` (4 bytes on 32-bit ARM, 8 on 64-bit hosts) and the
/// byte order.
#[derive(Clone, Copy, Debug, PartialEq, Eq, Structural)]
pub struct EventLayout {
    pub long_bytes: usize,
    pub little_endian: bool,
}

impl EventLayout {
    pub open spec fn wf(self) -> bool {
        self.long_bytes == 4 || self.long_bytes == 8
    }

    /// Record size: two `long`s, two `u16`s and an `i32`.
    pub open spec fn spec_record_size(self) -> nat {
        (2 * self.long_bytes + 8) as nat
    }

    pub fn record_size(&self) -> (r: usize)
        requires
            self.wf(),
        ensures
            r == self.spec_record_size(),
    {
        2 * self.long_bytes + 8
    }
}

/// Value of digits in base 256, most significant first.
pub open spec fn msb_value(d: Seq<u8>) -> nat
    decreases d.len(),
{
    if d.len() == 0 {
        0
    } else {
        msb_value(d.drop_last()) * 256 + d.last() as nat
    }
}

pub open spec fn pow256(n: nat) -> nat
    decreases n,
{
    if n == 0 {
        1
    } else {
        256 * pow256((n - 1) as nat)
    }
}

/// Unsigned value of the bytes `b` in the given byte order.
pub open spec fn uint_value(b: Seq<u8>, little_endian: bool) -> nat {
    if little_endian {
        msb_value(b.reverse())
    } else {
        msb_value(b)
    }
}

/// Two's complement reading of an unsigned value `u` of `n` bytes.
pub open spec fn signed_value(u: nat, n: nat) -> int {
    if u >= pow256(n) / 2 {
        u - pow256(n)
    } else {
        u as int
    }
}

/// The event held by the record `r` (exactly one record's bytes).
pub open spec fn decode_record(r: Seq<u8>, layout: EventLayout) -> InputEvent {
    let l = layout.long_bytes as int;
    let le = layout.little_endian;
    InputEvent {
        time_sec: signed_value(uint_value(r.subrange(0, l), le), l as nat) as i64,
        time_usec: signed_value(uint_value(r.subrange(l, 2 * l), le), l as nat) as i64,
        type_: uint_value(r.subrange(2 * l, 2 * l + 2), le) as u16,
        code: uint_value(r.subrange(2 * l + 2, 2 * l + 4), le) as u16,
        value: signed_value(uint_value(r.subrange(2 * l + 4, 2 * l + 8), le), 4) as i32,
    }
}

/// The events held by the whole records at the front of `bytes`; a trailing
/// partial record is not read.
pub open spec fn decode_records(bytes: Seq<u8>, layout: EventLayout) -> Seq<InputEvent> {
    let size = layout.spec_record_size() as int;
    Seq::new(
        (bytes.len() / (size as nat)) as nat,
        |i: int| decode_record(bytes.subrange(i * size, i * size + size), layout),
    )
}

/// The low `n` bytes of `v`, least significant first.
pub open spec fn le_bytes(v: nat, n: nat) -> Seq<u8>
    decreases n,
{
    if n == 0 {
        Seq::empty()
    } else {
        seq![(v % 256) as u8] + le_bytes(v / 256, (n - 1) as nat)
    }
}

/// The `n`-byte field holding `v` in the given byte order.
pub open spec fn field_bytes(v: nat, n: nat, little_endian: bool) -> Seq<u8> {
    if little_endian {
        le_bytes(v, n)
    } else {
        le_bytes(v, n).reverse()
    }
}

/// The `n`-byte two's complement pattern of `v`, as an unsigned value.
pub open spec fn twos_complement(v: int, n: nat) -> nat {
    if v < 0 {
        (v + pow256(n)) as nat
    } else {
        v as nat
    }
}

/// The bytes of the `struct input_event` holding `e` in `layout`.
pub open spec fn encode_record(e: InputEvent, layout: EventLayout) -> Seq<u8> {
    let l = layout.long_bytes as nat;
    let le = layout.little_endian;
    field_bytes(twos_complement(e.time_sec as int, l), l, le)
        + field_bytes(twos_complement(e.time_usec as int, l), l, le)
        + field_bytes(e.type_ as nat, 2, le)
        + field_bytes(e.code as nat, 2, le)
        + field_bytes(twos_complement(e.value as int, 4), 4, le)
}

/// The bytes of the records holding `evs`, one after another.
pub open spec fn encode_records(evs: Seq<InputEvent>, layout: EventLayout) -> Seq<u8>
    decreases evs.len(),
{
    if evs.len() == 0 {
        Seq::empty()
    } else {
        encode_records(evs.drop_last(), layout) + encode_record(evs.last(), layout)
    }
}

/// An event fits the layout: its timestamp fits a C `long`.
pub open spec fn fits_layout(e: InputEvent, layout: EventLayout) -> bool {
    layout.long_bytes == 8 || (i32::MIN <= e.time_sec <= i32::MAX && i32::MIN <= e.time_usec <= i32::MAX)
}

proof fn lemma_le_bytes(v: nat, n: nat)
    ensures
        le_bytes(v, n).len() == n,
        msb_value(le_bytes(v, n).reverse()) == v % pow256(n),
    decreases n,
{
    if n == 0 {
        assert(le_bytes(v, n).reverse() =~= Seq::<u8>::empty());
    } else {
        let m = (n - 1) as nat;
        lemma_le_bytes(v / 256, m);
        let rest = le_bytes(v / 256, m);
        let b = le_bytes(v, n);
        assert(b.reverse().drop_last() =~= rest.reverse());
        assert(b.reverse().last() == (v % 256) as u8);
        lemma_pow256_monotone(m, m);
        vstd::arithmetic::div_mod::lemma_breakdown(v as int, 256, pow256(m) as int);
    }
}

proof fn lemma_field_value(v: nat, n: nat, le: bool)
    ensures
        field_bytes(v, n, le).len() == n,
        uint_value(field_bytes(v, n, le), le) == v % pow256(n),
{
    lemma_le_bytes(v, n);
    if !le {
        assert(le_bytes(v, n).reverse().reverse() =~= le_bytes(v, n));
    }
}

proof fn lemma_signed_roundtrip(v: int, n: nat)
    requires
        n == 4 || n == 8,
        -(pow256(n) / 2) <= v < pow256(n) / 2,
    ensures
        twos_complement(v, n) < pow256(n),
        twos_complement(v, n) % pow256(n) == twos_complement(v, n),
        signed_value(twos_complement(v, n), n) == v,
{
    reveal_with_fuel(pow256, 9);
    vstd::arithmetic::div_mod::lemma_small_mod(twos_complement(v, n), pow256(n));
}

/// Decoding gives back what was encoded: the record bytes of any event that
/// fits the layout (in either `long` width and byte order) decode to that
/// event, every field whole.
pub proof fn lemma_decode_encode_record(e: InputEvent, layout: EventLayout)
    requires
        layout.wf(),
        fits_layout(e, layout),
    ensures
        encode_record(e, layout).len() == layout.spec_record_size(),
        decode_record(encode_record(e, layout), layout) == e,
{
    let l = layout.long_bytes as nat;
    let li = l as int;
    let le = layout.little_endian;
    reveal_with_fuel(pow256, 9);
    let f0 = field_bytes(twos_complement(e.time_sec as int, l), l, le);
    let f1 = field_bytes(twos_complement(e.time_usec as int, l), l, le);
    let f2 = field_bytes(e.type_ as nat, 2, le);
    let f3 = field_bytes(e.code as nat, 2, le);
    let f4 = field_bytes(twos_complement(e.value as int, 4), 4, le);
    lemma_signed_roundtrip(e.time_sec as int, l);
    lemma_signed_roundtrip(e.time_usec as int, l);
    lemma_signed_roundtrip(e.value as int, 4);
    lemma_field_value(twos_complement(e.time_sec as int, l), l, le);
    lemma_field_value(twos_complement(e.time_usec as int, l), l, le);
    lemma_field_value(e.type_ as nat, 2, le);
    lemma_field_value(e.code as nat, 2, le);
    lemma_field_value(twos_complement(e.value as int, 4), 4, le);
    vstd::arithmetic::div_mod::lemma_small_mod(e.type_ as nat, pow256(2));
    vstd::arithmetic::div_mod::lemma_small_mod(e.code as nat, pow256(2));
    let r = encode_record(e, layout);
    assert(r.subrange(0, li) =~= f0);
    assert(r.subrange(li, 2 * li) =~= f1);
    assert(r.subrange(2 * li, 2 * li + 2) =~= f2);
    assert(r.subrange(2 * li + 2, 2 * li + 4) =~= f3);
    assert(r.subrange(2 * li + 4, 2 * li + 8) =~= f4);
}

proof fn lemma_encode_records_at(evs: Seq<InputEvent>, layout: EventLayout, i: int)
    requires
        layout.wf(),
        0 <= i < evs.len(),
    ensures
        encode_records(evs, layout).len() == evs.len() * layout.spec_record_size(),
        0 <= i * layout.spec_record_size(),
        i * layout.spec_record_size() + layout.spec_record_size() <= encode_records(evs, layout).len(),
        encode_records(evs, layout).subrange(
            i * layout.spec_record_size(),
            i * layout.spec_record_size() + layout.spec_record_size(),
        ) == encode_record(evs[i], layout),
    decreases evs.len(),
{
    let size = layout.spec_record_size() as int;
    let n = evs.len() as int;
    let prefix = encode_records(evs.drop_last(), layout);
    let last = encode_record(evs.last(), layout);
    lemma_record_len(evs.last(), layout);
    lemma_encode_records_len(evs.drop_last(), layout);
    assert(n * size == (n - 1) * size + size) by (nonlinear_arith);
    assert(0 <= i * size) by (nonlinear_arith)
        requires
            i >= 0,
            size > 0,
    ;
    if i == n - 1 {
        assert(encode_records(evs, layout).subrange(i * size, i * size + size) =~= last);
    } else {
        lemma_encode_records_at(evs.drop_last(), layout, i);
        assert(i * size + size <= (n - 1) * size) by (nonlinear_arith)
            requires
                i < n - 1,
                size > 0,
        ;
        assert(encode_records(evs, layout).subrange(i * size, i * size + size) =~= prefix.subrange(
            i * size,
            i * size + size,
        ));
    }
}

proof fn lemma_record_len(e: InputEvent, layout: EventLayout)
    requires
        layout.wf(),
    ensures
        encode_record(e, layout).len() == layout.spec_record_size(),
{
    let l = layout.long_bytes as nat;
    let le = layout.little_endian;
    lemma_field_value(twos_complement(e.time_sec as int, l), l, le);
    lemma_field_value(twos_complement(e.time_usec as int, l), l, le);
    lemma_field_value(e.type_ as nat, 2, le);
    lemma_field_value(e.code as nat, 2, le);
    lemma_field_value(twos_complement(e.value as int, 4), 4, le);
}

proof fn lemma_encode_records_len(evs: Seq<InputEvent>, layout: EventLayout)
    requires
        layout.wf(),
    ensures
        encode_records(evs, layout).len() == evs.len() * layout.spec_record_size(),
    decreases evs.len(),
{
    if evs.len() > 0 {
        lemma_encode_records_len(evs.drop_last(), layout);
        lemma_record_len(evs.last(), layout);
        let size = layout.spec_record_size() as int;
        let n = evs.len() as int;
        assert(n * size == (n - 1) * size + size) by (nonlinear_arith);
    }
}

/// Reading a stream of whole records gives back the events they hold, in
/// order, in either `long` width and byte order; a trailing partial record
/// adds nothing.
pub proof fn lemma_decode_encode_records(evs: Seq<InputEvent>, layout: EventLayout, tail: Seq<u8>)
    requires
        layout.wf(),
        forall|k: int| 0 <= k < evs.len() ==> fits_layout(#[trigger] evs[k], layout),
        tail.len() < layout.spec_record_size(),
    ensures
        decode_records(encode_records(evs, layout) + tail, layout) == evs,
{
    let size = layout.spec_record_size() as int;
    let bytes = encode_records(evs, layout) + tail;
    lemma_encode_records_len(evs, layout);
    let n = evs.len() as int;
    let t = tail.len() as int;
    assert((n * size + t) / size == n) by (nonlinear_arith)
        requires
            0 <= t < size,
            n >= 0,
    ;
    let d = decode_records(bytes, layout);
    assert forall|i: int| 0 <= i < n implies #[trigger] d[i] == evs[i] by {
        lemma_encode_records_at(evs, layout, i);
        assert(bytes.subrange(i * size, i * size + size) =~= encode_records(evs, layout).subrange(
            i * size,
            i * size + size,
        ));
        lemma_decode_encode_record(evs[i], layout);
    }
    assert(d =~= evs);
}

pub proof fn lemma_msb_value_bound(d: Seq<u8>)
    ensures
        msb_value(d) < pow256(d.len()),
    decreases d.len(),
{
    if d.len() > 0 {
        lemma_msb_value_bound(d.drop_last());
        let a = msb_value(d.drop_last());
        let p = pow256((d.len() - 1) as nat);
        assert(a * 256 + d.last() < p * 256) by (nonlinear_arith)
            requires
                a < p,
                d.last() < 256,
        ;
    }
}

/// Reads the `n`-byte unsigned field at `start` of `b`.
fn read_uint(b: &[u8], start: usize, n: usize, little_endian: bool) -> (r: u64)
    requires
        1 <= n <= 8,
        start + n <= b@.len(),
    ensures
        r == uint_value(b@.subrange(start as int, start + n), little_endian),
{
    let ghost field = b@.subrange(start as int, start + n);
    let ghost digits = if little_endian { field.reverse() } else { field };
    let blen: usize = b.len();
    let mut acc: u64 = 0;
    let mut j: usize = 0;
    while j < n
        invariant
            blen == b@.len(),
            1 <= n <= 8,
            start + n <= b@.len(),
            j <= n,
            field == b@.subrange(start as int, start + n),
            digits == (if little_endian { field.reverse() } else { field }),
            digits.len() == n,
            acc == msb_value(digits.take(j as int)),
        decreases n - j,
    {
        let idx: usize = if little_endian { start + (n - 1 - j) } else { start + j };
        let d: u8 = b[idx];
        assert(d == digits[j as int]);
        proof {
            lemma_msb_value_bound(digits.take(j as int));
            assert(pow256(j as nat) <= pow256(7)) by {
                lemma_pow256_monotone(j as nat, 7);
            }
            assert(pow256(7) == 0x100_0000_0000_0000) by {
                reveal_with_fuel(pow256, 8);
            }
            assert(digits.take(j + 1).drop_last() =~= digits.take(j as int));
        }
        acc = acc * 256 + d as u64;
        j = j + 1;
    }
    assert(digits.take(n as int) =~= digits);
    acc
}

pub proof fn lemma_pow256_monotone(a: nat, b: nat)
    requires
        a <= b,
    ensures
        pow256(a) <= pow256(b),
        pow256(a) >= 1,
    decreases b,
{
    if b > a {
        lemma_pow256_monotone(a, (b - 1) as nat);
    } else if a > 0 {
        lemma_pow256_monotone((a - 1) as nat, (a - 1) as nat);
    }
}

/// Reads the `n`-byte two's complement field at `start` of `b`.
fn read_int(b: &[u8], start: usize, n: usize, little_endian: bool) -> (r: i64)
    requires
        n == 4 || n == 8,
        start + n <= b@.len(),
    ensures
        r == signed_value(uint_value(b@.subrange(start as int, start + n), little_endian), n as nat),
{
    let u: u64 = read_uint(b, start, n, little_endian);
    proof {
        lemma_msb_value_bound(if little_endian {
            b@.subrange(start as int, start + n).reverse()
        } else {
            b@.subrange(start as int, start + n)
        });
        reveal_with_fuel(pow256, 9);
        assert(pow256(4) == 0x1_0000_0000);
        assert(pow256(8) == 0x1_0000_0000_0000_0000);
    }
    if n == 4 {
        if u >= 0x8000_0000 {
            u as i64 - 0x1_0000_0000i64
        } else {
            u as i64
        }
    } else {
        if u >= 0x8000_0000_0000_0000 {
            -((u64::MAX - u) as i64) - 1
        } else {
            u as i64
        }
    }
}

/// Decodes the record of `layout` that starts at `start` of `b`.
fn decode_event(b: &[u8], start: usize, layout: EventLayout) -> (e: InputEvent)
    requires
        layout.wf(),
        start + layout.spec_record_size() <= b@.len(),
    ensures
        e == decode_record(b@.subrange(start as int, start + layout.spec_record_size()), layout),
{
    let blen: usize = b.len();
    let l: usize = layout.long_bytes;
    let le: bool = layout.little_endian;
    let ghost r = b@.subrange(start as int, start + layout.spec_record_size());
    let sec: i64 = read_int(b, start, l, le);
    let usec: i64 = read_int(b, start + l, l, le);
    let ty: u64 = read_uint(b, start + 2 * l, 2, le);
    let code: u64 = read_uint(b, start + 2 * l + 2, 2, le);
    let value: i64 = read_int(b, start + 2 * l + 4, 4, le);
    proof {
        let li = l as int;
        assert(r.subrange(0, li) =~= b@.subrange(start as int, start + li));
        assert(r.subrange(li, 2 * li) =~= b@.subrange(start + li, start + 2 * li));
        assert(r.subrange(2 * li, 2 * li + 2) =~= b@.subrange(start + 2 * li, start + 2 * li + 2));
        assert(r.subrange(2 * li + 2, 2 * li + 4) =~= b@.subrange(start + 2 * li + 2, start + 2 * li + 4));
        assert(r.subrange(2 * li + 4, 2 * li + 8) =~= b@.subrange(start + 2 * li + 4, start + 2 * li + 8));
        let f1 = b@.subrange(start + 2 * li, start + 2 * li + 2);
        let f2 = b@.subrange(start + 2 * li + 2, start + 2 * li + 4);
        let f3 = b@.subrange(start + 2 * li + 4, start + 2 * li + 8);
        lemma_msb_value_bound(if le { f1.reverse() } else { f1 });
        lemma_msb_value_bound(if le { f2.reverse() } else { f2 });
        lemma_msb_value_bound(if le { f3.reverse() } else { f3 });
        reveal_with_fuel(pow256, 5);
        assert(pow256(2) == 0x1_0000);
        assert(pow256(4) == 0x1_0000_0000);
    }
    InputEvent { time_sec: sec, time_usec: usec, type_: ty as u16, code: code as u16, value: value as i32 }
}

proof fn lemma_record_fits(i: int, count: int, size: int, n: int)
    requires
        size > 0,
        n >= 0,
        count == n / size,
        0 <= i < count,
    ensures
        i * size + size <= n,
        0 <= i * size,
{
    assert(i * size + size <= count * size) by (nonlinear_arith)
        requires
            i < count,
            size > 0,
    ;
    assert(count * size <= n) by (nonlinear_arith)
        requires
            count == n / size,
            size > 0,
            n >= 0,
    ;
    assert(0 <= i * size) by (nonlinear_arith)
        requires
            i >= 0,
            size > 0,
    ;
}

/// Decodes the whole records among the first `n` bytes of `b`.
fn decode_prefix(b: &[u8], n: usize, layout: EventLayout) -> (r: Vec<InputEvent>)
    requires
        layout.wf(),
        n <= b@.len(),
    ensures
        r@ == decode_records(b@.take(n as int), layout),
{
    let size: usize = layout.record_size();
    let count: usize = n / size;
    let ghost p = b@.take(n as int);
    let mut out: Vec<InputEvent> = Vec::new();
    let mut i: usize = 0;
    while i < count
        invariant
            layout.wf(),
            size == layout.spec_record_size(),
            n <= b@.len(),
            p == b@.take(n as int),
            count == n / size,
            i <= count,
            out@.len() == i,
            forall|k: int|
                0 <= k < i ==> #[trigger] out@[k] == decode_record(
                    p.subrange(k * size, k * size + size),
                    layout,
                ),
        decreases count - i,
    {
        proof {
            lemma_record_fits(i as int, count as int, size as int, n as int);
        }
        let start: usize = i * size;
        let e = decode_event(b, start, layout);
        proof {
            assert(p.subrange(start as int, start + size) =~= b@.subrange(start as int, start + size));
        }
        out.push(e);
        i = i + 1;
    }
    assert(out@ =~= decode_records(p, layout));
    out
}

/// The outcome of one `read` on a non-blocking event device.
pub struct ReadChunk {
    /// The whole records that were read.
    pub events: Vec<InputEvent>,
    /// Whether the buffer was filled, so that more records may be waiting.
    pub more: bool,
}

/// One step of draining an event device: `bytes` is what `read` returned
/// into `buf` (nothing, or an error, when not positive). Whole records are
/// decoded; reading goes on only when every record slot of `buf` was filled.
pub fn read_step(buf: &[u8], bytes: isize, layout: EventLayout) -> (r: ReadChunk)
    requires
        layout.wf(),
        bytes <= buf@.len(),
    ensures
        bytes <= 0 ==> r.events@.len() == 0 && !r.more,
        bytes > 0 ==> r.events@ == decode_records(buf@.take(bytes as int), layout),
        bytes > 0 ==> r.more == (r.events@.len() >= buf@.len() / (layout.spec_record_size())),
{
    if bytes <= 0 {
        return ReadChunk { events: Vec::new(), more: false };
    }
    let n: usize = bytes as usize;
    let events = decode_prefix(buf, n, layout);
    let slots: usize = buf.len() / layout.record_size();
    let more: bool = events.len() >= slots;
    ReadChunk { events, more }
}

} // verus!
