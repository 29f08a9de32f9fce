//! The ancillary buffer model: a byte region interpreted as a sequence of
//! typed, length-prefixed control-message records.
//!
//! # Wire layout
//! Each record is a header followed by a payload padded to the platform
//! control-message alignment of 8 bytes. The header is 16 bytes: the total
//! header-plus-payload length as an 8-byte little-endian integer, then the
//! record's level and type identifiers as 4-byte little-endian integers. The
//! stored length excludes the padding; the next record begins at the padded
//! boundary, except that the last record of a buffer may omit its padding.

use vstd::prelude::*;

verus! {

/// The control-message alignment: records are padded to this boundary.
pub const CMSG_ALIGN: usize = 8;

/// The size of the fixed record header: an 8-byte length followed by two
/// 4-byte identifiers.
pub const CMSG_HEADER_SIZE: usize = 16;

/// `n` rounded up to the control-message alignment.
pub open spec fn spec_align_up(n: int) -> int {
    ((n + 7) / 8) * 8
}

/// The smaller of two integers.
pub open spec fn spec_min(a: int, b: int) -> int {
    if a <= b {
        a
    } else {
        b
    }
}

/// `256^n`: the number of values that `n` bytes can hold.
pub open spec fn pow256(n: nat) -> int
    decreases n,
{
    if n == 0 {
        1
    } else {
        256 * pow256((n - 1) as nat)
    }
}

/// The little-endian encoding of `x` in exactly `n` bytes.
pub open spec fn spec_le_bytes(x: int, n: nat) -> Seq<u8>
    decreases n,
{
    if n == 0 {
        Seq::empty()
    } else {
        seq![(x % 256) as u8] + spec_le_bytes(x / 256, (n - 1) as nat)
    }
}

/// The value a byte sequence denotes when read as a little-endian integer.
pub open spec fn spec_le_val(s: Seq<u8>) -> int
    decreases s.len(),
{
    if s.len() == 0 {
        0
    } else {
        s[0] + 256 * spec_le_val(s.drop_first())
    }
}

/// The little-endian encoding of `x` in `n` bytes has exactly `n` bytes.
pub proof fn lemma_le_bytes_len(x: int, n: nat)
    ensures
        spec_le_bytes(x, n).len() == n,
    decreases n,
{
    if n > 0 {
        lemma_le_bytes_len(x / 256, (n - 1) as nat);
    }
}

/// A byte sequence read as a little-endian integer denotes a value that fits
/// in that many bytes.
pub proof fn lemma_le_val_bound(s: Seq<u8>)
    ensures
        0 <= spec_le_val(s) < pow256(s.len()),
    decreases s.len(),
{
    if s.len() > 0 {
        lemma_le_val_bound(s.drop_first());
    }
}

/// Reading back the little-endian encoding of a value that fits in `n` bytes
/// yields that value.
pub proof fn lemma_le_bytes_val(x: int, n: nat)
    requires
        0 <= x < pow256(n),
    ensures
        spec_le_val(spec_le_bytes(x, n)) == x,
    decreases n,
{
    if n > 0 {
        let head: u8 = (x % 256) as u8;
        let tail = spec_le_bytes(x / 256, (n - 1) as nat);
        assert((seq![head] + tail).drop_first() =~= tail);
        assert(x / 256 < pow256((n - 1) as nat)) by (nonlinear_arith)
            requires
                0 <= x < 256 * pow256((n - 1) as nat),
        ;
        lemma_le_bytes_val(x / 256, (n - 1) as nat);
        vstd::arithmetic::div_mod::lemma_fundamental_div_mod(x, 256);
    }
}

/// `256^8` is one past the largest `u64`, and `256^4` one past the largest
/// `u32`.
pub proof fn lemma_pow256_values()
    ensures
        pow256(4) == 0x1_0000_0000,
        pow256(8) == 0x1_0000_0000_0000_0000,
{
    assert(pow256(8) == 0x1_0000_0000_0000_0000) by {
        reveal_with_fuel(pow256, 9);
    }
    assert(pow256(4) == 0x1_0000_0000) by {
        reveal_with_fuel(pow256, 5);
    }
}

/// Rounds a byte count up to the control-message alignment.
pub fn align_up(n: usize) -> (r: usize)
    requires
        n + 7 <= usize::MAX,
    ensures
        r == spec_align_up(n as int),
{
    ((n + 7) / 8) * 8
}

/// Appends the `n`-byte little-endian encoding of `x` to `out`.
pub(crate) fn write_uint_le(out: &mut Vec<u8>, x: u64, n: usize)
    requires
        n <= 8,
        x < pow256(n as nat),
        old(out)@.len() + n <= usize::MAX,
    ensures
        final(out)@ == old(out)@ + spec_le_bytes(x as int, n as nat),
        final(out)@.len() == old(out)@.len() + n,
{
    proof {
        lemma_le_bytes_len(x as int, n as nat);
    }
    let mut cur: u64 = x;
    let mut i: usize = 0;
    while i < n
        invariant
            i <= n,
            out@.len() == old(out)@.len() + i,
            out@ + spec_le_bytes(cur as int, (n - i) as nat) == old(out)@ + spec_le_bytes(
                x as int,
                n as nat,
            ),
        decreases n - i,
    {
        let b: u8 = (cur % 256) as u8;
        proof {
            let tail = spec_le_bytes(cur as int / 256, (n - i - 1) as nat);
            assert(out@.push(b) + tail =~= out@ + (seq![b] + tail));
            lemma_le_bytes_len(cur as int / 256, (n - i - 1) as nat);
        }
        out.push(b);
        cur = cur / 256;
        i += 1;
    }
    proof {
        assert(out@ + spec_le_bytes(cur as int, 0) =~= out@);
    }
}

/// Reads the `n`-byte little-endian integer stored at `offset` in `bytes`.
pub(crate) fn read_uint_le(bytes: &[u8], offset: usize, n: usize) -> (r: u64)
    requires
        n <= 8,
        offset + n <= bytes@.len(),
    ensures
        r == spec_le_val(bytes@.subrange(offset as int, offset + n)),
{
    proof {
        lemma_pow256_values();
    }
    let blen = bytes.len();
    let mut r: u64 = 0;
    let mut i: usize = 0;
    while i < n
        invariant
            i <= n <= 8,
            offset + n <= bytes@.len(),
            blen == bytes@.len(),
            r == spec_le_val(bytes@.subrange(offset + n - i, offset + n)),
            r < pow256(i as nat),
            pow256(8) == 0x1_0000_0000_0000_0000,
        decreases n - i,
    {
        let k = offset + n - i - 1;
        proof {
            let s = bytes@.subrange(k as int, offset + n);
            assert(s.drop_first() =~= bytes@.subrange(k + 1, offset + n));
            assert(256 * pow256(i as nat) == pow256((i + 1) as nat));
            assert(r * 256 + bytes@[k as int] < pow256((i + 1) as nat)) by (nonlinear_arith)
                requires
                    r < pow256(i as nat),
                    bytes@[k as int] < 256,
                    pow256((i + 1) as nat) == 256 * pow256(i as nat),
            ;
            assert(pow256((i + 1) as nat) <= pow256(8)) by {
                lemma_pow256_monotone((i + 1) as nat, 8);
            }
        }
        r = r * 256 + (bytes[k] as u64);
        i += 1;
    }
    proof {
        assert(bytes@.subrange(offset + n - n, offset + n) =~= bytes@.subrange(
            offset as int,
            offset + n,
        ));
    }
    r
}

/// `256^a <= 256^b` whenever `a <= b`.
pub proof fn lemma_pow256_monotone(a: nat, b: nat)
    requires
        a <= b,
    ensures
        pow256(a) <= pow256(b),
    decreases b,
{
    if a < b {
        lemma_pow256_monotone(a, (b - 1) as nat);
        assert(pow256(b) == 256 * pow256((b - 1) as nat));
        assert(pow256(a) >= 1) by {
            lemma_pow256_pos(a);
        }
        assert(256 * pow256((b - 1) as nat) >= pow256((b - 1) as nat)) by (nonlinear_arith)
            requires
                pow256((b - 1) as nat) >= 1,
        ;
        lemma_pow256_pos((b - 1) as nat);
    }
}

/// `256^n` is positive.
pub proof fn lemma_pow256_pos(n: nat)
    ensures
        pow256(n) >= 1,
    decreases n,
{
    if n > 0 {
        lemma_pow256_pos((n - 1) as nat);
    }
}

/// The mathematical model of one control-message record: its level and type
/// identifiers and its payload bytes.
pub struct CmsgModel {
    /// The originating protocol level of the record.
    pub level: u32,
    /// The protocol-specific type identifier of the record.
    pub ty: u32,
    /// The payload bytes, without padding.
    pub data: Seq<u8>,
}

impl CmsgModel {
    /// A record whose padded on-wire size fits in the address space.
    pub open spec fn wf(self) -> bool {
        self.data.len() + CMSG_HEADER_SIZE + 7 <= usize::MAX
    }

    /// The stored record length: header plus unpadded payload.
    pub open spec fn wire_len(self) -> int {
        CMSG_HEADER_SIZE + self.data.len()
    }

    /// The padded on-wire size the record occupies in a buffer.
    pub open spec fn wire_space(self) -> int {
        spec_align_up(self.wire_len())
    }
}

/// The byte encoding of one record: the 16-byte header, the payload, and
/// zero padding up to the alignment boundary.
pub open spec fn spec_encode_record(m: CmsgModel) -> Seq<u8> {
    spec_le_bytes(m.wire_len(), 8) + spec_le_bytes(m.level as int, 4) + spec_le_bytes(
        m.ty as int,
        4,
    ) + m.data + Seq::new((m.wire_space() - m.wire_len()) as nat, |i: int| 0u8)
}

/// The byte encoding of a sequence of records, first to last.
pub open spec fn spec_encode_records(rs: Seq<CmsgModel>) -> Seq<u8>
    decreases rs.len(),
{
    if rs.len() == 0 {
        Seq::empty()
    } else {
        spec_encode_record(rs[0]) + spec_encode_records(rs.drop_first())
    }
}

/// A well-formed record encodes to exactly its padded on-wire size.
pub proof fn lemma_encode_record_len(m: CmsgModel)
    requires
        m.wf(),
    ensures
        spec_encode_record(m).len() == m.wire_space(),
        m.wire_len() <= m.wire_space() < m.wire_len() + 8,
{
    lemma_le_bytes_len(m.wire_len(), 8);
    lemma_le_bytes_len(m.level as int, 4);
    lemma_le_bytes_len(m.ty as int, 4);
}

/// Appending a record to a sequence appends its encoding to the buffer.
pub proof fn lemma_encode_records_push(rs: Seq<CmsgModel>, m: CmsgModel)
    ensures
        spec_encode_records(rs.push(m)) == spec_encode_records(rs) + spec_encode_record(m),
    decreases rs.len(),
{
    if rs.len() == 0 {
        assert(rs.push(m)[0] == m);
        assert(rs.push(m).drop_first() =~= Seq::<CmsgModel>::empty());
        assert(spec_encode_records(rs.push(m)) == spec_encode_record(m) + spec_encode_records(
            Seq::<CmsgModel>::empty(),
        ));
        assert(spec_encode_record(m) + Seq::<u8>::empty() =~= spec_encode_record(m));
        assert(spec_encode_records(rs) + spec_encode_record(m) =~= spec_encode_record(m));
    } else {
        lemma_encode_records_push(rs.drop_first(), m);
        assert(rs.push(m)[0] == rs[0]);
        assert(rs.push(m).drop_first() =~= rs.drop_first().push(m));
        assert(spec_encode_record(rs[0]) + (spec_encode_records(rs.drop_first())
            + spec_encode_record(m)) =~= (spec_encode_record(rs[0]) + spec_encode_records(
            rs.drop_first(),
        )) + spec_encode_record(m));
    }
}

/// One control-message record: a (level, type, payload) triple.
#[derive(Clone, Debug, PartialEq, Eq)]
pub struct Cmsg {
    level: u32,
    ty: u32,
    data: Vec<u8>,
}

impl View for Cmsg {
    type V = CmsgModel;

    closed spec fn view(&self) -> CmsgModel {
        CmsgModel { level: self.level, ty: self.ty, data: self.data@ }
    }
}

impl Cmsg {
    /// Creates a record from its identifiers and payload.
    pub fn new(level: u32, ty: u32, data: Vec<u8>) -> (r: Self)
        requires
            data@.len() + CMSG_HEADER_SIZE + 7 <= usize::MAX,
        ensures
            r@ == (CmsgModel { level, ty, data: data@ }),
            r@.wf(),
    {
        Cmsg { level, ty, data }
    }

    /// The originating protocol level of the record.
    pub fn cmsg_level(&self) -> (r: u32)
        ensures
            r == self@.level,
    {
        self.level
    }

    /// The protocol-specific type identifier of the record.
    pub fn cmsg_type(&self) -> (r: u32)
        ensures
            r == self@.ty,
    {
        self.ty
    }

    /// The payload bytes of the record, without padding.
    pub fn data(&self) -> (r: &[u8])
        ensures
            r@ == self@.data,
    {
        self.data.as_slice()
    }

    /// The padded on-wire size of one record with a payload of the given
    /// size: callers use it to pre-size receive buffers for an expected
    /// number of records.
    pub fn cmsg_len_for_payload_size(payload_size: usize) -> (r: usize)
        requires
            payload_size + CMSG_HEADER_SIZE + 7 <= usize::MAX,
        ensures
            r == spec_align_up(CMSG_HEADER_SIZE + payload_size),
    {
        align_up(CMSG_HEADER_SIZE + payload_size)
    }
}

/// Appends `bytes[from..to]` to `out`.
pub(crate) fn push_byte_range(out: &mut Vec<u8>, bytes: &[u8], from: usize, to: usize)
    requires
        from <= to <= bytes@.len(),
        old(out)@.len() + (to - from) <= usize::MAX,
    ensures
        final(out)@ == old(out)@ + bytes@.subrange(from as int, to as int),
{
    let mut i = from;
    while i < to
        invariant
            from <= i <= to <= bytes@.len(),
            out@ == old(out)@ + bytes@.subrange(from as int, i as int),
        decreases to - i,
    {
        proof {
            assert(out@.push(bytes@[i as int]) =~= old(out)@ + bytes@.subrange(
                from as int,
                i + 1,
            ));
        }
        out.push(bytes[i]);
        i += 1;
    }
    proof {
        assert(out@ =~= old(out)@ + bytes@.subrange(from as int, to as int));
    }
}

/// A growable buffer for composing outgoing control messages.
///
/// The view of the buffer is the sequence of records added so far; `bytes`
/// is the byte region that holds their encodings, which the send path passes
/// to the kernel.
pub struct CmsgVecBuf {
    buf: Vec<u8>,
    records: Ghost<Seq<CmsgModel>>,
}

impl View for CmsgVecBuf {
    type V = Seq<CmsgModel>;

    closed spec fn view(&self) -> Seq<CmsgModel> {
        self.records@
    }
}

impl CmsgVecBuf {
    /// The composed bytes of the buffer.
    pub closed spec fn bytes(&self) -> Seq<u8> {
        self.buf@
    }

    /// The buffer holds exactly the encodings of its records, in order.
    pub closed spec fn wf(&self) -> bool {
        &&& self.buf@ == spec_encode_records(self.records@)
        &&& forall|i: int| 0 <= i < self.records@.len() ==> (#[trigger] self.records@[i]).wf()
    }

    /// Creates an empty buffer with the given initial byte capacity.
    pub fn new(capacity: usize) -> (r: Self)
        ensures
            r.wf(),
            r@ == Seq::<CmsgModel>::empty(),
            r.bytes() == Seq::<u8>::empty(),
    {
        CmsgVecBuf { buf: Vec::with_capacity(capacity), records: Ghost(Seq::empty()) }
    }

    /// Appends one record to the buffer, encoding it per the wire layout.
    pub fn add_message(&mut self, cmsg: &Cmsg)
        requires
            old(self).wf(),
            cmsg@.wf(),
            old(self).bytes().len() + spec_align_up(CMSG_HEADER_SIZE + cmsg@.data.len())
                <= usize::MAX,
        ensures
            final(self).wf(),
            final(self)@ == old(self)@.push(cmsg@),
            final(self).bytes() == old(self).bytes() + spec_encode_record(cmsg@),
    {
        proof {
            lemma_pow256_values();
            lemma_encode_record_len(cmsg@);
            lemma_le_bytes_len(cmsg@.wire_len(), 8);
            lemma_le_bytes_len(cmsg@.level as int, 4);
            lemma_le_bytes_len(cmsg@.ty as int, 4);
        }
        let data_len = cmsg.data.len();
        let len = CMSG_HEADER_SIZE + data_len;
        let space = align_up(len);
        write_uint_le(&mut self.buf, len as u64, 8);
        write_uint_le(&mut self.buf, cmsg.level as u64, 4);
        write_uint_le(&mut self.buf, cmsg.ty as u64, 4);
        push_byte_range(&mut self.buf, cmsg.data.as_slice(), 0, data_len);
        proof {
            assert(cmsg.data@.subrange(0, data_len as int) =~= cmsg@.data);
        }
        let mut p = len;
        while p < space
            invariant
                len <= p <= space,
                space == spec_align_up(len as int),
                self.records == old(self).records,
                self.buf@ == old(self).bytes() + spec_le_bytes(len as int, 8) + spec_le_bytes(
                    cmsg@.level as int,
                    4,
                ) + spec_le_bytes(cmsg@.ty as int, 4) + cmsg@.data + Seq::new(
                    (p - len) as nat,
                    |i: int| 0u8,
                ),
            decreases space - p,
        {
            proof {
                assert(self.buf@.push(0u8) =~= old(self).bytes() + spec_le_bytes(len as int, 8)
                    + spec_le_bytes(cmsg@.level as int, 4) + spec_le_bytes(cmsg@.ty as int, 4)
                    + cmsg@.data + Seq::new((p + 1 - len) as nat, |i: int| 0u8));
            }
            self.buf.push(0u8);
            p += 1;
        }
        self.records = Ghost(self.records@.push(cmsg@));
        proof {
            assert(self.buf@ =~= old(self).bytes() + spec_encode_record(cmsg@));
            lemma_encode_records_push(old(self)@, cmsg@);
        }
    }

    /// Resets the buffer for reuse: all records and bytes are discarded.
    pub fn clear(&mut self)
        ensures
            final(self).wf(),
            final(self)@ == Seq::<CmsgModel>::empty(),
            final(self).bytes() == Seq::<u8>::empty(),
    {
        self.buf.clear();
        self.records = Ghost(Seq::empty());
    }

    /// The number of bytes composed so far.
    pub fn byte_len(&self) -> (r: usize)
        ensures
            r == self.bytes().len(),
    {
        self.buf.len()
    }

    /// The composed bytes, for handing to the send path.
    pub fn as_bytes(&self) -> (r: &[u8])
        ensures
            r@ == self.bytes(),
    {
        self.buf.as_slice()
    }

    /// A well-formed buffer holds exactly the encodings of its records, in
    /// order: the bridge from the abstract well-formedness predicate to the
    /// byte region the send path transmits.
    pub proof fn lemma_wf_bytes(&self)
        requires
            self.wf(),
        ensures
            self.bytes() == spec_encode_records(self@),
            forall|i: int| 0 <= i < self@.len() ==> (#[trigger] self@[i]).wf(),
    {
    }

    /// A read-only view over the composed bytes, all of them used.
    pub fn as_ref(&self) -> (r: CmsgRef<'_>)
        ensures
            r.spec_bytes() == self.bytes(),
            r.spec_used() == self.bytes().len(),
    {
        CmsgRef::new(self.buf.as_slice(), self.buf.len())
    }
}


/// Structured decode failures: a malformed buffer is reported, never read
/// out of bounds and never treated as merely empty.
#[derive(Clone, Copy, Debug, PartialEq, Eq, Structural)]
pub enum DecodeError {
    /// The claimed used-length of the buffer is larger than its backing
    /// storage.
    UsedLengthTooLarge,
    /// Bytes remain, but fewer than a record header.
    TruncatedHeader,
    /// A record header stores a length smaller than the header itself.
    InvalidRecordLength,
    /// A record header stores a length that overruns the used region.
    TruncatedPayload,
}

/// The outcome of decoding one record from the front of a byte region.
pub enum DecodeStep {
    /// No bytes remain.
    Empty,
    /// A record was decoded; `rest` is the region after its padded end.
    Record { m: CmsgModel, rest: Seq<u8> },
    /// The region is malformed.
    Fail { e: DecodeError },
}

/// Decodes one record from the front of `b`, validating the stored length
/// against the region before any byte of the record is read.
pub open spec fn spec_decode_step(b: Seq<u8>) -> DecodeStep {
    if b.len() == 0 {
        DecodeStep::Empty
    } else if b.len() < CMSG_HEADER_SIZE {
        DecodeStep::Fail { e: DecodeError::TruncatedHeader }
    } else {
        let len = spec_le_val(b.subrange(0, 8));
        if len < CMSG_HEADER_SIZE {
            DecodeStep::Fail { e: DecodeError::InvalidRecordLength }
        } else if len > b.len() {
            DecodeStep::Fail { e: DecodeError::TruncatedPayload }
        } else {
            DecodeStep::Record {
                m: CmsgModel {
                    level: spec_le_val(b.subrange(8, 12)) as u32,
                    ty: spec_le_val(b.subrange(12, 16)) as u32,
                    data: b.subrange(CMSG_HEADER_SIZE as int, len),
                },
                rest: b.subrange(spec_min(spec_align_up(len), b.len() as int), b.len() as int),
            }
        }
    }
}

/// Decodes every record of `b`, first to last, or reports the first
/// malformation.
pub open spec fn spec_decode(b: Seq<u8>) -> Result<Seq<CmsgModel>, DecodeError>
    decreases b.len(),
{
    match spec_decode_step(b) {
        DecodeStep::Empty => Ok(Seq::empty()),
        DecodeStep::Fail { e } => Err(e),
        DecodeStep::Record { m, rest } => match spec_decode(rest) {
            Ok(tail) => Ok(seq![m] + tail),
            Err(e) => Err(e),
        },
    }
}

/// How far the cursor moves past a record whose stored length is `len`, in a
/// region of `remaining` bytes: to the padded boundary, or to the end of the
/// region when the padding of a final record was not transmitted.
fn advance_for(len: usize, remaining: usize) -> (r: usize)
    requires
        CMSG_HEADER_SIZE <= len <= remaining,
    ensures
        r == spec_min(spec_align_up(len as int), remaining as int),
        CMSG_HEADER_SIZE <= r <= remaining,
{
    let pad = len % 8;
    if pad == 0 {
        len
    } else {
        let need = 8 - pad;
        if remaining - len >= need {
            len + need
        } else {
            remaining
        }
    }
}

/// A read-only view of a composed or received ancillary buffer: the backing
/// bytes together with the claimed used-length the kernel (or the composer)
/// reported for them.
#[derive(Clone, Copy)]
pub struct CmsgRef<'a> {
    bytes: &'a [u8],
    used: usize,
}

impl<'a> CmsgRef<'a> {
    /// The backing bytes.
    pub closed spec fn spec_bytes(&self) -> Seq<u8> {
        self.bytes@
    }

    /// The claimed used-length.
    pub closed spec fn spec_used(&self) -> int {
        self.used as int
    }

    /// The region a decoder will interpret: the used prefix of the backing
    /// bytes, or the structured error when the claim overruns the storage.
    pub open spec fn to_decode(&self) -> Result<Seq<u8>, DecodeError> {
        if self.spec_used() > self.spec_bytes().len() {
            Err(DecodeError::UsedLengthTooLarge)
        } else {
            Ok(self.spec_bytes().subrange(0, self.spec_used()))
        }
    }

    /// Wraps a byte region and the used-length claimed for it. The claim is
    /// not trusted: decoding validates it.
    pub fn new(bytes: &'a [u8], used: usize) -> (r: Self)
        ensures
            r.spec_bytes() == bytes@,
            r.spec_used() == used,
    {
        CmsgRef { bytes, used }
    }

    /// Begins a fresh decode pass over the buffer. Decoding is restartable:
    /// each call yields an independent decoder positioned at the start.
    pub fn decode(&self) -> (r: CmsgDecoder<'a>)
        ensures
            r.wf(),
            r.to_decode() == self.to_decode(),
    {
        CmsgDecoder { bytes: self.bytes, used: self.used, cursor: 0 }
    }

    /// Decodes every record of the buffer, or reports the first
    /// malformation.
    pub fn decode_all(&self) -> (r: Result<Vec<Cmsg>, DecodeError>)
        ensures
            match r {
                Ok(v) => self.to_decode() matches Ok(rem) && spec_decode(rem)
                    == Ok::<Seq<CmsgModel>, DecodeError>(v@.map_values(|c: Cmsg| c@)),
                Err(e) => match self.to_decode() {
                    Err(e2) => e == e2,
                    Ok(rem) => spec_decode(rem) == Err::<Seq<CmsgModel>, DecodeError>(e),
                },
            },
    {
        let mut dec = self.decode();
        let mut out: Vec<Cmsg> = Vec::new();
        loop
            invariant
                dec.wf(),
                match self.to_decode() {
                    Err(_) => dec.to_decode() == self.to_decode() && out@.len() == 0,
                    Ok(rem0) => dec.to_decode() matches Ok(rem) && spec_decode(rem0) == (
                    match spec_decode(rem) {
                        Ok(t) => Ok::<Seq<CmsgModel>, DecodeError>(
                            out@.map_values(|c: Cmsg| c@) + t,
                        ),
                        Err(e) => Err::<Seq<CmsgModel>, DecodeError>(e),
                    }),
                },
            decreases (match dec.to_decode() {
                Ok(rem) => rem.len() as int,
                Err(_) => 0int,
            }),
        {
            let ghost prev = dec.to_decode();
            match dec.next_record() {
                Ok(None) => {
                    proof {
                        let rem = prev->Ok_0;
                        assert(spec_decode(rem) == Ok::<Seq<CmsgModel>, DecodeError>(
                            Seq::empty(),
                        ));
                        assert(out@.map_values(|c: Cmsg| c@) + Seq::<CmsgModel>::empty()
                            =~= out@.map_values(|c: Cmsg| c@));
                    }
                    return Ok(out);
                },
                Ok(Some(c)) => {
                    proof {
                        let rem = prev->Ok_0;
                        let step = spec_decode_step(rem);
                        let m = step->Record_m;
                        let t_rest = step->Record_rest;
                        assert(out@.push(c).map_values(|cc: Cmsg| cc@) =~= out@.map_values(
                            |cc: Cmsg| cc@,
                        ).push(c@));
                        assert forall|t: Seq<CmsgModel>|
                            out@.map_values(|cc: Cmsg| cc@) + (seq![m] + t) =~= out@.map_values(
                            |cc: Cmsg| cc@,
                        ).push(m) + t by {}
                    }
                    out.push(c);
                },
                Err(e) => {
                    return Err(e);
                },
            }
        }
    }
}

/// A cursor over a read-view buffer that yields one decoded record per call.
///
/// Each step validates the next stored length against the remaining region
/// before advancing; a malformed record is reported as a structured error
/// and the cursor does not move past it.
pub struct CmsgDecoder<'a> {
    bytes: &'a [u8],
    used: usize,
    cursor: usize,
}

impl<'a> CmsgDecoder<'a> {
    /// The backing bytes.
    pub closed spec fn spec_bytes(&self) -> Seq<u8> {
        self.bytes@
    }

    /// The claimed used-length.
    pub closed spec fn spec_used(&self) -> int {
        self.used as int
    }

    /// The cursor: how many bytes of the used region are already decoded.
    pub closed spec fn spec_cursor(&self) -> int {
        self.cursor as int
    }

    /// The cursor stays within the used region.
    pub open spec fn wf(&self) -> bool {
        &&& self.spec_cursor() <= self.spec_used()
        &&& (self.spec_used() > self.spec_bytes().len() ==> self.spec_cursor() == 0)
    }

    /// The region left to interpret, or the structured error when the
    /// used-length claim overruns the storage.
    pub open spec fn to_decode(&self) -> Result<Seq<u8>, DecodeError> {
        if self.spec_used() > self.spec_bytes().len() {
            Err(DecodeError::UsedLengthTooLarge)
        } else {
            Ok(self.spec_bytes().subrange(self.spec_cursor(), self.spec_used()))
        }
    }

    /// Decodes the next record, if any.
    ///
    /// Returns `Ok(None)` once the used region is exhausted, and an error —
    /// without moving the cursor — if the used-length claim overruns the
    /// backing storage or the next record is malformed. No byte outside the
    /// backing storage is ever read.
    pub fn next_record(&mut self) -> (r: Result<Option<Cmsg>, DecodeError>)
        requires
            old(self).wf(),
        ensures
            final(self).wf(),
            match r {
                Ok(None) => *final(self) == *old(self) && (old(self).to_decode() matches Ok(rem)
                    && spec_decode_step(rem) is Empty),
                Ok(Some(c)) => old(self).to_decode() matches Ok(rem) && (spec_decode_step(rem)
                    matches DecodeStep::Record { m, rest } && c@ == m
                    && final(self).to_decode() == Ok::<Seq<u8>, DecodeError>(rest)
                    && rest.len() < rem.len()),
                Err(e) => *final(self) == *old(self) && match old(self).to_decode() {
                    Err(e2) => e == e2,
                    Ok(rem) => spec_decode_step(rem) matches DecodeStep::Fail { e: e2 } && e
                        == e2,
                },
            },
    {
        proof {
            lemma_pow256_values();
        }
        let blen = self.bytes.len();
        if self.used > blen {
            return Err(DecodeError::UsedLengthTooLarge);
        }
        let ghost rem = self.bytes@.subrange(self.cursor as int, self.used as int);
        let remaining = self.used - self.cursor;
        if remaining == 0 {
            return Ok(None);
        }
        if remaining < CMSG_HEADER_SIZE {
            return Err(DecodeError::TruncatedHeader);
        }
        proof {
            assert(rem.subrange(0, 8) =~= self.bytes@.subrange(
                self.cursor as int,
                self.cursor + 8,
            ));
            lemma_le_val_bound(rem.subrange(0, 8));
        }
        let len64 = read_uint_le(self.bytes, self.cursor, 8);
        if len64 < CMSG_HEADER_SIZE as u64 {
            return Err(DecodeError::InvalidRecordLength);
        }
        if len64 > remaining as u64 {
            return Err(DecodeError::TruncatedPayload);
        }
        let len = len64 as usize;
        proof {
            assert(rem.subrange(8, 12) =~= self.bytes@.subrange(
                self.cursor + 8,
                self.cursor + 12,
            ));
            assert(rem.subrange(12, 16) =~= self.bytes@.subrange(
                self.cursor + 12,
                self.cursor + 16,
            ));
            lemma_le_val_bound(rem.subrange(8, 12));
            lemma_le_val_bound(rem.subrange(12, 16));
        }
        let level = read_uint_le(self.bytes, self.cursor + 8, 4) as u32;
        let ty = read_uint_le(self.bytes, self.cursor + 12, 4) as u32;
        let data = vstd::slice::slice_to_vec(
            vstd::slice::slice_subrange(
                self.bytes,
                self.cursor + CMSG_HEADER_SIZE,
                self.cursor + len,
            ),
        );
        proof {
            assert(rem.subrange(CMSG_HEADER_SIZE as int, len as int) =~= self.bytes@.subrange(
                self.cursor + CMSG_HEADER_SIZE,
                self.cursor + len,
            ));
        }
        let advance = advance_for(len, remaining);
        let ghost old_cursor = self.cursor as int;
        self.cursor = self.cursor + advance;
        proof {
            assert(rem.subrange(
                spec_min(spec_align_up(len as int), rem.len() as int),
                rem.len() as int,
            ) =~= self.bytes@.subrange(old_cursor + advance, self.used as int));
        }
        Ok(Some(Cmsg { level, ty, data }))
    }
}

/// Round-trip law: a buffer composed from well-formed records decodes back
/// to exactly those records, in the same order.
pub proof fn lemma_decode_encode(rs: Seq<CmsgModel>)
    requires
        forall|i: int| 0 <= i < rs.len() ==> (#[trigger] rs[i]).wf(),
    ensures
        spec_decode(spec_encode_records(rs)) == Ok::<Seq<CmsgModel>, DecodeError>(rs),
    decreases rs.len(),
{
    lemma_pow256_values();
    if rs.len() == 0 {
        assert(rs =~= Seq::<CmsgModel>::empty());
    } else {
        let m = rs[0];
        let enc = spec_encode_record(m);
        let rest_enc = spec_encode_records(rs.drop_first());
        let b = spec_encode_records(rs);
        assert(b == enc + rest_enc);
        lemma_encode_record_len(m);
        lemma_le_bytes_len(m.wire_len(), 8);
        lemma_le_bytes_len(m.level as int, 4);
        lemma_le_bytes_len(m.ty as int, 4);
        assert(b.subrange(0, 8) =~= spec_le_bytes(m.wire_len(), 8));
        lemma_le_bytes_val(m.wire_len(), 8);
        let len = spec_le_val(b.subrange(0, 8));
        assert(len == m.wire_len());
        assert(b.subrange(8, 12) =~= spec_le_bytes(m.level as int, 4));
        assert(b.subrange(12, 16) =~= spec_le_bytes(m.ty as int, 4));
        lemma_le_bytes_val(m.level as int, 4);
        lemma_le_bytes_val(m.ty as int, 4);
        assert(b.subrange(CMSG_HEADER_SIZE as int, len) =~= m.data);
        assert(spec_min(spec_align_up(len), b.len() as int) == m.wire_space());
        assert(b.subrange(m.wire_space(), b.len() as int) =~= rest_enc);
        lemma_decode_encode(rs.drop_first());
        assert(seq![m] + rs.drop_first() =~= rs);
    }
}


} // verus!
