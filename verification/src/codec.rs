//! Identifiers and their projection into Datadog's 64-bit identifier space.
//!
//! A trace id is sixteen bytes and a span id eight, both most significant byte
//! first. Datadog knows only unsigned 64-bit identifiers: a span id is taken
//! whole, a trace id is cut down to its last eight bytes.
use vstd::prelude::*;

verus! {

/// The number that `bytes` denote when read most significant byte first.
pub open spec fn be_value(bytes: Seq<u8>) -> nat
    decreases bytes.len(),
{
    if bytes.len() == 0 {
        0
    } else {
        be_value(bytes.drop_last()) * 256 + bytes.last() as nat
    }
}

/// The `len` bytes that denote `value` modulo `256^len`, most significant first.
pub open spec fn be_bytes(value: nat, len: nat) -> Seq<u8>
    decreases len,
{
    if len == 0 {
        Seq::empty()
    } else {
        be_bytes(value / 256, (len - 1) as nat).push((value % 256) as u8)
    }
}

/// `256^n`.
pub open spec fn pow256(n: nat) -> nat
    decreases n,
{
    if n == 0 {
        1
    } else {
        256 * pow256((n - 1) as nat)
    }
}

/// A byte string of length `n` denotes a number below `256^n`.
pub proof fn lemma_be_value_bound(bytes: Seq<u8>)
    ensures
        be_value(bytes) < pow256(bytes.len()),
    decreases bytes.len(),
{
    if bytes.len() > 0 {
        lemma_be_value_bound(bytes.drop_last());
    }
}

/// Reading back the bytes written for a number that fits gives the number.
pub proof fn lemma_be_value_of_bytes(value: nat, len: nat)
    requires
        value < pow256(len),
    ensures
        be_value(be_bytes(value, len)) == value,
    decreases len,
{
    if len > 0 {
        let rest = be_bytes(value / 256, (len - 1) as nat);
        lemma_be_value_of_bytes(value / 256, (len - 1) as nat);
        assert(be_bytes(value, len).drop_last() =~= rest);
    }
}

/// Writing the number that a byte string denotes gives the byte string back.
pub proof fn lemma_be_bytes_of_value(bytes: Seq<u8>)
    ensures
        be_bytes(be_value(bytes), bytes.len()) == bytes,
    decreases bytes.len(),
{
    if bytes.len() > 0 {
        let front = bytes.drop_last();
        lemma_be_bytes_of_value(front);
        let v = be_value(bytes);
        assert(v / 256 == be_value(front));
        assert(v % 256 == bytes.last() as nat);
        assert(be_bytes(v, bytes.len()) =~= bytes);
    } else {
        assert(be_bytes(be_value(bytes), bytes.len()) =~= bytes);
    }
}

/// The first powers of 256 that the identifier widths need.
pub proof fn lemma_pow256_values()
    ensures
        pow256(0) == 1,
        pow256(1) == 0x100,
        pow256(2) == 0x1_0000,
        pow256(3) == 0x100_0000,
        pow256(4) == 0x1_0000_0000,
        pow256(5) == 0x100_0000_0000,
        pow256(6) == 0x1_0000_0000_0000,
        pow256(7) == 0x100_0000_0000_0000,
        pow256(8) == 0x1_0000_0000_0000_0000,
{
    reveal_with_fuel(pow256, 10);
}

/// Reads at most eight bytes as an unsigned number, most significant byte first.
pub fn read_be_u64(bytes: &[u8]) -> (value: u64)
    requires
        bytes@.len() <= 8,
    ensures
        value as nat == be_value(bytes@),
{
    let mut value: u64 = 0;
    let mut i: usize = 0;
    while i < bytes.len()
        invariant
            i <= bytes@.len() <= 8,
            value as nat == be_value(bytes@.take(i as int)),
        decreases bytes@.len() - i,
    {
        proof {
            lemma_be_value_bound(bytes@.take(i as int));
            lemma_pow256_values();
            assert(bytes@.take(i + 1).drop_last() =~= bytes@.take(i as int));
        }
        value = value * 256 + bytes[i] as u64;
        i += 1;
    }
    proof {
        assert(bytes@.take(i as int) =~= bytes@);
    }
    value
}

/// Writes `value` as eight bytes, most significant byte first.
pub fn write_be_u64(value: u64) -> (bytes: [u8; 8])
    ensures
        bytes@ == be_bytes(value as nat, 8),
        be_value(bytes@) == value as nat,
{
    let mut bytes: [u8; 8] = [0u8; 8];
    let mut rest: u64 = value;
    let mut i: usize = 8;
    while i > 0
        invariant
            i <= 8,
            bytes@.len() == 8,
            be_bytes(value as nat, 8) =~= be_bytes(rest as nat, i as nat) + bytes@.skip(i as int),
        decreases i,
    {
        let ghost before = bytes@;
        i -= 1;
        bytes[i] = (rest % 256) as u8;
        proof {
            assert(be_bytes(rest as nat, (i + 1) as nat) == be_bytes(rest as nat / 256, i as nat).push(
                (rest as nat % 256) as u8,
            ));
            assert(bytes@.skip(i as int) =~= seq![(rest % 256) as u8] + before.skip(i + 1));
        }
        rest = rest / 256;
    }
    proof {
        assert(be_bytes(rest as nat, 0) =~= Seq::<u8>::empty());
        assert(bytes@.skip(0) =~= bytes@);
        lemma_pow256_values();
        lemma_be_value_of_bytes(value as nat, 8);
    }
    bytes
}

/// A 128-bit trace identifier, held as its sixteen bytes, most significant first.
#[derive(Clone, Copy, Debug, PartialEq, Eq, Hash)]
pub struct TraceId {
    pub bytes: [u8; 16],
}

/// A 64-bit span identifier, held as its eight bytes, most significant first.
#[derive(Clone, Copy, Debug, PartialEq, Eq, Hash)]
pub struct SpanId {
    pub bytes: [u8; 8],
}

/// An identifier in Datadog's space: an unsigned 64-bit integer.
#[derive(Clone, Copy, Debug, PartialEq, Eq, Hash)]
pub struct DatadogId(pub u64);

/// The Datadog identifier of a trace: the number denoted by the last eight of
/// the trace id's sixteen bytes.
pub open spec fn trace_vendor_value(bytes: Seq<u8>) -> nat {
    be_value(bytes.subrange(8, 16))
}

impl TraceId {
    /// Whether the identifier names a trace: the all-zero identifier does not.
    pub open spec fn is_valid(self) -> bool {
        self.bytes@ != Seq::new(16, |i: int| 0u8)
    }

    /// Whether the identifier lies in Datadog's space already: its first eight
    /// bytes are zero.
    pub open spec fn fits_vendor(self) -> bool {
        forall|i: int| 0 <= i < 8 ==> self.bytes@[i] == 0
    }

    /// The trace identifier made of the given bytes.
    pub fn from_bytes(bytes: [u8; 16]) -> (id: TraceId)
        ensures
            id.bytes == bytes,
    {
        TraceId { bytes }
    }

    /// The sixteen bytes of the identifier.
    pub fn to_bytes(&self) -> (bytes: [u8; 16])
        ensures
            bytes == self.bytes,
    {
        self.bytes
    }

    /// The trace identifier whose first eight bytes are zero and whose last
    /// eight denote `id`.
    pub fn from_vendor(id: DatadogId) -> (trace: TraceId)
        ensures
            trace.fits_vendor(),
            trace.bytes@.subrange(8, 16) == be_bytes(id.0 as nat, 8),
            trace_vendor_value(trace.bytes@) == id.0,
    {
        let low = write_be_u64(id.0);
        let mut bytes: [u8; 16] = [0u8; 16];
        let mut i: usize = 0;
        while i < 8
            invariant
                i <= 8,
                low@.len() == 8,
                forall|k: int| 0 <= k < 8 ==> bytes@[k] == 0,
                forall|k: int| 0 <= k < i ==> bytes@[8 + k] == low@[k],
            decreases 8 - i,
        {
            bytes[8 + i] = low[i];
            i += 1;
        }
        proof {
            assert(bytes@.subrange(8, 16) =~= low@);
        }
        TraceId { bytes }
    }

    /// Tells whether any byte of the identifier is not zero.
    pub fn check_valid(&self) -> (valid: bool)
        ensures
            valid == self.is_valid(),
    {
        let mut i: usize = 0;
        while i < 16
            invariant
                i <= 16,
                forall|k: int| 0 <= k < i ==> self.bytes@[k] == 0,
            decreases 16 - i,
        {
            if self.bytes[i] != 0 {
                return true;
            }
            i += 1;
        }
        proof {
            assert(self.bytes@ =~= Seq::new(16, |i: int| 0u8));
        }
        false
    }
}

impl SpanId {
    /// The number that the eight bytes denote.
    pub open spec fn value(self) -> nat {
        be_value(self.bytes@)
    }

    /// Whether the identifier names a span: zero does not.
    pub open spec fn is_valid(self) -> bool {
        self.value() != 0
    }

    /// The span identifier made of the given bytes.
    pub fn from_bytes(bytes: [u8; 8]) -> (id: SpanId)
        ensures
            id.bytes == bytes,
    {
        SpanId { bytes }
    }

    /// The eight bytes of the identifier.
    pub fn to_bytes(&self) -> (bytes: [u8; 8])
        ensures
            bytes == self.bytes,
    {
        self.bytes
    }

    /// The span identifier that denotes `id`.
    pub fn from_vendor(id: DatadogId) -> (span: SpanId)
        ensures
            span.bytes@ == be_bytes(id.0 as nat, 8),
            span.value() == id.0,
    {
        SpanId { bytes: write_be_u64(id.0) }
    }
}

/// Brings a trace id into Datadog's space: the last eight of its sixteen bytes,
/// read most significant byte first. The first eight bytes play no part.
pub fn trace_id_to_vendor(id: TraceId) -> (vendor: DatadogId)
    ensures
        vendor.0 as nat == trace_vendor_value(id.bytes@),
{
    let low = id.bytes.as_slice();
    let mut value: u64 = 0;
    let mut i: usize = 8;
    while i < 16
        invariant
            8 <= i <= 16,
            low@ == id.bytes@,
            low@.len() == 16,
            value as nat == be_value(id.bytes@.subrange(8, i as int)),
        decreases 16 - i,
    {
        proof {
            lemma_be_value_bound(id.bytes@.subrange(8, i as int));
            lemma_pow256_values();
            assert(id.bytes@.subrange(8, i + 1).drop_last() =~= id.bytes@.subrange(8, i as int));
        }
        value = value * 256 + low[i] as u64;
        i += 1;
    }
    DatadogId(value)
}

/// Brings a span id into Datadog's space: all eight bytes, read most
/// significant byte first. Nothing is cut off.
pub fn span_id_to_vendor(id: SpanId) -> (vendor: DatadogId)
    ensures
        vendor.0 as nat == id.value(),
{
    DatadogId(read_be_u64(id.bytes.as_slice()))
}

impl From<TraceId> for DatadogId {
    fn from(value: TraceId) -> (id: DatadogId) {
        trace_id_to_vendor(value)
    }
}

impl vstd::std_specs::convert::FromSpecImpl<TraceId> for DatadogId {
    open spec fn obeys_from_spec() -> bool {
        true
    }

    open spec fn from_spec(value: TraceId) -> DatadogId {
        DatadogId(trace_vendor_value(value.bytes@) as u64)
    }
}

impl From<SpanId> for DatadogId {
    fn from(value: SpanId) -> (id: DatadogId) {
        span_id_to_vendor(value)
    }
}

impl vstd::std_specs::convert::FromSpecImpl<SpanId> for DatadogId {
    open spec fn obeys_from_spec() -> bool {
        true
    }

    open spec fn from_spec(value: SpanId) -> DatadogId {
        DatadogId(value.value() as u64)
    }
}

/// An identifier of Datadog's space, written as eight bytes and read back, is
/// unchanged: so the projections undo `from_vendor`.
pub proof fn lemma_vendor_round_trip(id: u64)
    ensures
        be_value(be_bytes(id as nat, 8)) == id as nat,
{
    lemma_pow256_values();
    lemma_be_value_of_bytes(id as nat, 8);
}

/// A trace id that lies in Datadog's space is determined by its projection:
/// two such ids with the same Datadog identifier have the same bytes.
pub proof fn lemma_trace_id_determined(a: TraceId, b: TraceId)
    requires
        a.bytes@.len() == 16,
        b.bytes@.len() == 16,
        a.fits_vendor(),
        b.fits_vendor(),
        trace_vendor_value(a.bytes@) == trace_vendor_value(b.bytes@),
    ensures
        a.bytes@ == b.bytes@,
{
    lemma_be_bytes_of_value(a.bytes@.subrange(8, 16));
    lemma_be_bytes_of_value(b.bytes@.subrange(8, 16));
    assert(a.bytes@.subrange(8, 16) == b.bytes@.subrange(8, 16));
    assert forall|i: int| 0 <= i < 16 implies a.bytes@[i] == b.bytes@[i] by {
        if i >= 8 {
            assert(a.bytes@[i] == a.bytes@.subrange(8, 16)[i - 8]);
            assert(b.bytes@[i] == b.bytes@.subrange(8, 16)[i - 8]);
        }
    }
    assert(a.bytes@ =~= b.bytes@);
}

/// A span id is determined by its projection.
pub proof fn lemma_span_id_determined(a: SpanId, b: SpanId)
    requires
        a.bytes@.len() == 8,
        b.bytes@.len() == 8,
        a.value() == b.value(),
    ensures
        a.bytes@ == b.bytes@,
{
    lemma_be_bytes_of_value(a.bytes@);
    lemma_be_bytes_of_value(b.bytes@);
}

} // verus!
