use vstd::prelude::*;

use crate::error::ProgramError;
use crate::meta::{
    lemma_parse_meta_bytes, meta_bytes, meta_fits, meta_wf, metas_model, pack_meta, parse_meta,
    unpack_meta, zeros, ExtraAccountMeta, MetaModel, META_LEN,
};

verus! {

/// The length of the record's header: an 8-byte type tag, the 4-byte length
/// of the value and the 4-byte count of metas.
pub const HEADER_LEN: usize = 16;

/// The most metas whose value length fits the header's 32-bit length field.
pub const MAX_EXTRA_METAS: usize = 122713351;

/// The type tag that opens a validation record: the discriminator of the
/// transfer-hook execute instruction.
pub open spec fn record_tag() -> Seq<u8> {
    seq![105u8, 37, 101, 197, 75, 251, 102, 26]
}

/// A 32-bit integer in little-endian order.
pub open spec fn u32_le(v: u32) -> Seq<u8> {
    seq![(v & 0xff) as u8, ((v >> 8) & 0xff) as u8, ((v >> 16) & 0xff) as u8, ((v >> 24) & 0xff) as u8]
}

/// The little-endian 32-bit integer in the first four bytes of `b`.
pub open spec fn read_u32_le(b: Seq<u8>) -> u32 {
    (b[0] as u32) | ((b[1] as u32) << 8) | ((b[2] as u32) << 16) | ((b[3] as u32) << 24)
}

/// A 32-bit integer read back from its little-endian bytes is itself.
pub proof fn lemma_u32_le_round_trip(v: u32)
    ensures
        read_u32_le(u32_le(v)) == v,
{
    let b = u32_le(v);
    assert(((((v & 0xff) as u8) as u32) | ((((v >> 8) & 0xff) as u8) as u32) << 8 | ((((v >> 16)
        & 0xff) as u8) as u32) << 16 | ((((v >> 24) & 0xff) as u8) as u32) << 24) == v)
        by (bit_vector);
}

/// The number of bytes of a record of `n` metas.
pub open spec fn record_size(n: int) -> int {
    HEADER_LEN + META_LEN * n
}

/// The metas' encodings one after another.
pub open spec fn entries_bytes(ms: Seq<MetaModel>) -> Seq<u8>
    decreases ms.len(),
{
    if ms.len() == 0 {
        seq![]
    } else {
        entries_bytes(ms.drop_last()) + meta_bytes(ms.last())
    }
}

/// Whether a list of metas can be written as a record.
pub open spec fn record_wf(ms: Seq<MetaModel>) -> bool {
    ms.len() <= MAX_EXTRA_METAS && forall|i: int| 0 <= i < ms.len() ==> #[trigger] meta_wf(ms[i])
}

/// The record of `ms`: tag, value length, count, then the metas.
pub open spec fn record_bytes(ms: Seq<MetaModel>) -> Seq<u8> {
    record_tag() + u32_le((4 + META_LEN * ms.len()) as u32) + u32_le(ms.len() as u32) + entries_bytes(
        ms,
    )
}

/// The 35 bytes of the `i`-th meta of a record.
pub open spec fn entry_at(b: Seq<u8>, i: int) -> Seq<u8> {
    b.subrange(HEADER_LEN + META_LEN * i, HEADER_LEN + META_LEN * i + META_LEN)
}

/// The number of metas that the header of `b` announces.
pub open spec fn record_count(b: Seq<u8>) -> int {
    read_u32_le(b.subrange(12, 16)) as int
}

/// Whether `b` opens with a well-formed record header, and holds all the
/// entries that it announces.
pub open spec fn record_header_ok(b: Seq<u8>) -> bool {
    &&& b.len() >= HEADER_LEN
    &&& b.subrange(0, 8) == record_tag()
    &&& read_u32_le(b.subrange(8, 12)) as int == 4 + META_LEN * record_count(b)
    &&& b.len() >= record_size(record_count(b))
}

/// Reads a record from the start of `b`; bytes after it are ignored.
pub open spec fn parse_record(b: Seq<u8>) -> Option<Seq<MetaModel>> {
    if record_header_ok(b) && forall|i: int|
        0 <= i < record_count(b) ==> #[trigger] parse_meta(entry_at(b, i)) is Some {
        Some(Seq::new(record_count(b) as nat, |i: int| parse_meta(entry_at(b, i))->0))
    } else {
        None
    }
}

/// Whether `b` already holds a record: it opens with the record's tag.
pub open spec fn holds_record(b: Seq<u8>) -> bool {
    b.len() >= 8 && b.subrange(0, 8) == record_tag()
}

/// Well-formed metas take 35 bytes each, the `i`-th at offset `35 * i`.
pub proof fn lemma_entries_bytes(ms: Seq<MetaModel>)
    requires
        forall|i: int| 0 <= i < ms.len() ==> #[trigger] meta_wf(ms[i]),
    ensures
        entries_bytes(ms).len() == META_LEN * ms.len(),
        forall|i: int|
            0 <= i < ms.len() ==> #[trigger] entries_bytes(ms).subrange(
                META_LEN * i,
                META_LEN * i + META_LEN,
            ) == meta_bytes(ms[i]),
    decreases ms.len(),
{
    if ms.len() > 0 {
        let init = ms.drop_last();
        assert forall|i: int| 0 <= i < init.len() implies #[trigger] meta_wf(init[i]) by {
            assert(init[i] == ms[i]);
        }
        lemma_entries_bytes(init);
        lemma_parse_meta_bytes(ms.last());
        let e = entries_bytes(ms);
        assert(e == entries_bytes(init) + meta_bytes(ms.last()));
        assert forall|i: int| 0 <= i < ms.len() implies #[trigger] e.subrange(
            META_LEN * i,
            META_LEN * i + META_LEN,
        ) == meta_bytes(ms[i]) by {
            if i < init.len() {
                assert(entries_bytes(init).subrange(META_LEN * i, META_LEN * i + META_LEN)
                    == meta_bytes(init[i]));
                assert(e.subrange(META_LEN * i, META_LEN * i + META_LEN) =~= entries_bytes(
                    init,
                ).subrange(META_LEN * i, META_LEN * i + META_LEN));
            } else {
                assert(e.subrange(META_LEN * i, META_LEN * i + META_LEN) =~= meta_bytes(
                    ms.last(),
                ));
            }
        }
    }
}

/// A record read back from its encoding, with anything after it, is the list
/// of metas written.
pub proof fn lemma_record_round_trip(ms: Seq<MetaModel>, tail: Seq<u8>)
    requires
        record_wf(ms),
    ensures
        record_bytes(ms).len() == record_size(ms.len() as int),
        parse_record(record_bytes(ms) + tail) == Some(ms),
{
    lemma_entries_bytes(ms);
    let b = record_bytes(ms) + tail;
    let n = ms.len();
    assert(b.subrange(0, 8) =~= record_tag());
    assert(b.subrange(8, 12) =~= u32_le((4 + META_LEN * n) as u32));
    assert(b.subrange(12, 16) =~= u32_le(n as u32));
    lemma_u32_le_round_trip((4 + META_LEN * n) as u32);
    lemma_u32_le_round_trip(n as u32);
    assert(record_count(b) == n);
    assert forall|i: int| 0 <= i < n implies #[trigger] entry_at(b, i) == meta_bytes(ms[i]) by {
        assert(entry_at(b, i) =~= entries_bytes(ms).subrange(META_LEN * i, META_LEN * i + META_LEN));
    }
    assert forall|i: int| 0 <= i < n implies #[trigger] parse_meta(entry_at(b, i)) == Some(ms[i]) by {
        assert(meta_wf(ms[i]));
        lemma_parse_meta_bytes(ms[i]);
        assert(entry_at(b, i) == meta_bytes(ms[i]));
    }
    assert(Seq::new(n, |i: int| parse_meta(entry_at(b, i))->0) =~= ms);
}

/// Record size grows strictly with the number of metas.
pub proof fn lemma_record_size_increasing(n: int, m: int)
    requires
        0 <= n < m,
    ensures
        record_size(n) < record_size(m),
{
}

/// The encoding of a well-formed list is exactly `record_size` bytes long.
pub proof fn lemma_record_bytes_len(ms: Seq<MetaModel>)
    requires
        record_wf(ms),
    ensures
        record_bytes(ms).len() == record_size(ms.len() as int),
{
    lemma_entries_bytes(ms);
}

/// The bytes of a record of `num_items` metas; fails where that overflows.
pub fn size_of(num_items: usize) -> (r: Result<usize, ProgramError>)
    ensures
        record_size(num_items as int) <= usize::MAX ==> r == Ok::<usize, ProgramError>(
            record_size(num_items as int) as usize,
        ),
        record_size(num_items as int) > usize::MAX ==> r == Err::<usize, ProgramError>(
            ProgramError::ArithmeticOverflow,
        ),
{
    let bound: usize = (usize::MAX - HEADER_LEN) / META_LEN;
    proof {
        let m = (usize::MAX - HEADER_LEN) as int;
        assert(bound as int == m / 35);
        vstd::arithmetic::div_mod::lemma_fundamental_div_mod(m, 35);
    }
    if num_items > bound {
        proof {
            assert(num_items * META_LEN > usize::MAX - HEADER_LEN) by (nonlinear_arith)
                requires
                    num_items >= bound + 1,
                    (bound + 1) * 35 > usize::MAX - HEADER_LEN,
            ;
        }
        Err(ProgramError::ArithmeticOverflow)
    } else {
        proof {
            assert(num_items * META_LEN <= usize::MAX - HEADER_LEN) by (nonlinear_arith)
                requires
                    num_items <= bound,
                    bound * 35 <= usize::MAX - HEADER_LEN,
            ;
        }
        Ok(HEADER_LEN + META_LEN * num_items)
    }
}

/// What is wrong with a list of metas as a record, if anything: too many
/// for the header, or a meta outside the layout.
pub open spec fn encode_error(ms: Seq<MetaModel>) -> Option<ProgramError> {
    if ms.len() > MAX_EXTRA_METAS {
        Some(ProgramError::ArithmeticOverflow)
    } else if !record_wf(ms) {
        Some(ProgramError::InvalidSeedConfig)
    } else {
        None
    }
}

fn push_u32_le(out: &mut Vec<u8>, v: u32)
    ensures
        final(out)@ == old(out)@ + u32_le(v),
{
    out.push((v & 0xff) as u8);
    out.push(((v >> 8) & 0xff) as u8);
    out.push(((v >> 16) & 0xff) as u8);
    out.push(((v >> 24) & 0xff) as u8);
    proof {
        assert(final(out)@ =~= old(out)@ + u32_le(v));
    }
}

pub(crate) fn read_u32(data: &Vec<u8>, off: usize) -> (r: u32)
    requires
        off + 4 <= data.len(),
    ensures
        r == read_u32_le(data@.subrange(off as int, off + 4)),
{
    (data[off] as u32) | ((data[off + 1] as u32) << 8) | ((data[off + 2] as u32) << 16) | ((data[off
        + 3] as u32) << 24)
}

/// Whether the list can be written as a record, and if not, why.
pub fn check_encodable(metas: &Vec<ExtraAccountMeta>) -> (r: Option<ProgramError>)
    ensures
        r == encode_error(metas_model(metas@)),
{
    let ghost ms = metas_model(metas@);
    if metas.len() > MAX_EXTRA_METAS {
        return Some(ProgramError::ArithmeticOverflow);
    }
    let mut i: usize = 0;
    while i < metas.len()
        invariant
            i <= metas@.len(),
            metas@.len() <= MAX_EXTRA_METAS,
            ms == metas_model(metas@),
            forall|j: int| 0 <= j < i ==> #[trigger] meta_wf(ms[j]),
        decreases metas@.len() - i,
    {
        if !meta_fits(&metas[i]) {
            proof {
                assert(ms[i as int] == metas@[i as int]@);
                assert(!meta_wf(ms[i as int]));
                assert(ms.len() == metas@.len());
                assert(!record_wf(ms));
            }
            return Some(ProgramError::InvalidSeedConfig);
        }
        i = i + 1;
    }
    None
}

/// The record of a list of metas; fails where the list cannot be written.
pub fn encode_record(metas: &Vec<ExtraAccountMeta>) -> (r: Result<Vec<u8>, ProgramError>)
    ensures
        match encode_error(metas_model(metas@)) {
            Some(e) => r == Err::<Vec<u8>, ProgramError>(e),
            None => r matches Ok(v) && v@ == record_bytes(metas_model(metas@)),
        },
{
    let ghost ms = metas_model(metas@);
    if let Some(e) = check_encodable(metas) {
        return Err(e);
    }
    let n = metas.len();
    let mut out: Vec<u8> = vec![105u8, 37, 101, 197, 75, 251, 102, 26];
    proof {
        assert(out@ =~= record_tag());
    }
    push_u32_le(&mut out, (4 + META_LEN * n) as u32);
    push_u32_le(&mut out, n as u32);
    let ghost header = out@;
    let mut i: usize = 0;
    while i < n
        invariant
            i <= n,
            n == metas@.len(),
            ms == metas_model(metas@),
            record_wf(ms),
            out@ == header + entries_bytes(ms.subrange(0, i as int)),
        decreases n - i,
    {
        proof {
            assert(meta_wf(ms[i as int]));
        }
        pack_meta(&metas[i], &mut out);
        proof {
            assert(ms.subrange(0, i + 1).drop_last() =~= ms.subrange(0, i as int));
            assert(out@ =~= header + entries_bytes(ms.subrange(0, i + 1)));
        }
        i = i + 1;
    }
    proof {
        assert(ms.subrange(0, i as int) =~= ms);
    }
    Ok(out)
}

/// Whether `data` opens with the record's tag.
pub fn has_record_tag(data: &Vec<u8>) -> (r: bool)
    ensures
        r == holds_record(data@),
{
    if data.len() < 8 {
        return false;
    }
    let tag: [u8; 8] = [105u8, 37, 101, 197, 75, 251, 102, 26];
    let mut i: usize = 0;
    while i < 8
        invariant
            i <= 8,
            data@.len() >= 8,
            tag@ == record_tag(),
            forall|j: int| 0 <= j < i ==> data@[j] == record_tag()[j],
        decreases 8 - i,
    {
        if data[i] != tag[i] {
            return false;
        }
        i = i + 1;
    }
    proof {
        assert(data@.subrange(0, 8) =~= record_tag());
    }
    true
}

/// Reads the record at the start of `data`, as `parse_record` does.
pub fn unpack_record(data: &Vec<u8>) -> (r: Result<Vec<ExtraAccountMeta>, ProgramError>)
    ensures
        match parse_record(data@) {
            Some(ms) => r matches Ok(v) && metas_model(v@) == ms,
            None => r == Err::<Vec<ExtraAccountMeta>, ProgramError>(ProgramError::InvalidAccountData),
        },
{
    if data.len() < HEADER_LEN || !has_record_tag(data) {
        return Err(ProgramError::InvalidAccountData);
    }
    let value_len = read_u32(data, 8);
    let count = read_u32(data, 12);
    proof {
        assert(count == record_count(data@));
    }
    if value_len as u64 != 4 + 35 * (count as u64) || (data.len() as u64) < 16 + 35 * (count as u64) {
        return Err(ProgramError::InvalidAccountData);
    }
    let n = count as usize;
    let mut out: Vec<ExtraAccountMeta> = Vec::new();
    let mut i: usize = 0;
    while i < n
        invariant
            i <= n,
            n == record_count(data@),
            record_header_ok(data@),
            forall|j: int| 0 <= j < i ==> #[trigger] parse_meta(entry_at(data@, j)) is Some,
            metas_model(out@) == Seq::new(i as nat, |j: int| parse_meta(entry_at(data@, j))->0),
        decreases n - i,
    {
        proof {
            assert(META_LEN * i + META_LEN <= META_LEN * n) by (nonlinear_arith)
                requires
                    i < n,
            ;
        }
        let off = HEADER_LEN + META_LEN * i;
        match unpack_meta(data, off) {
            Some(m) => {
                let ghost prev = metas_model(out@);
                out.push(m);
                proof {
                    assert(data@.subrange(off as int, off + META_LEN) == entry_at(data@, i as int));
                    assert(metas_model(out@) =~= prev.push(m@));
                    assert(metas_model(out@) =~= Seq::new(
                        (i + 1) as nat,
                        |j: int| parse_meta(entry_at(data@, j))->0,
                    ));
                }
            },
            None => {
                proof {
                    assert(data@.subrange(off as int, off + META_LEN) == entry_at(data@, i as int));
                }
                return Err(ProgramError::InvalidAccountData);
            },
        }
        i = i + 1;
    }
    Ok(out)
}

/// The buffer after a record is written into it: the record, then zeros.
pub open spec fn written(b: Seq<u8>, ms: Seq<MetaModel>) -> Seq<u8> {
    record_bytes(ms) + zeros((b.len() - record_bytes(ms).len()) as nat)
}

/// The outcome of writing a fresh record into buffer `b`: the new buffer, or
/// the failure. A buffer that already holds a record is refused.
pub open spec fn init_outcome(b: Seq<u8>, ms: Seq<MetaModel>) -> Result<Seq<u8>, ProgramError> {
    if let Some(e) = encode_error(ms) {
        Err(e)
    } else if b.len() < record_size(ms.len() as int) {
        Err(ProgramError::AccountDataTooSmall)
    } else if holds_record(b) {
        Err(ProgramError::AccountAlreadyInitialized)
    } else {
        Ok(written(b, ms))
    }
}

/// The outcome of rewriting the record held in buffer `b`: the new buffer,
/// or the failure. A buffer that holds no record is refused.
pub open spec fn update_outcome(b: Seq<u8>, ms: Seq<MetaModel>) -> Result<Seq<u8>, ProgramError> {
    if let Some(e) = encode_error(ms) {
        Err(e)
    } else if b.len() < record_size(ms.len() as int) {
        Err(ProgramError::AccountDataTooSmall)
    } else if !holds_record(b) {
        Err(ProgramError::InvalidAccountData)
    } else {
        Ok(written(b, ms))
    }
}

fn write_over(buf: &mut Vec<u8>, bytes: &Vec<u8>)
    requires
        bytes@.len() <= old(buf)@.len(),
    ensures
        final(buf)@ == bytes@ + zeros((old(buf)@.len() - bytes@.len()) as nat),
{
    let mut i: usize = 0;
    while i < buf.len()
        invariant
            i <= buf@.len(),
            buf@.len() == old(buf)@.len(),
            bytes@.len() <= buf@.len(),
            forall|j: int| 0 <= j < i ==> buf@[j] == (if j < bytes@.len() { bytes@[j] } else { 0u8 }),
        decreases buf@.len() - i,
    {
        if i < bytes.len() {
            buf[i] = bytes[i];
        } else {
            buf[i] = 0u8;
        }
        i = i + 1;
    }
    proof {
        assert(buf@ =~= bytes@ + zeros((old(buf)@.len() - bytes@.len()) as nat));
    }
}

/// Writes a fresh record of `metas` at the start of `buf` and zeros the rest.
pub fn init_record(buf: &mut Vec<u8>, metas: &Vec<ExtraAccountMeta>) -> (r: Result<(), ProgramError>)
    ensures
        match init_outcome(old(buf)@, metas_model(metas@)) {
            Ok(nb) => r is Ok && final(buf)@ == nb,
            Err(e) => r == Err::<(), ProgramError>(e) && final(buf)@ == old(buf)@,
        },
{
    let ghost ms = metas_model(metas@);
    let bytes = match encode_record(metas) {
        Ok(b) => b,
        Err(e) => return Err(e),
    };
    proof {
        lemma_record_bytes_len(ms);
    }
    if buf.len() < bytes.len() {
        return Err(ProgramError::AccountDataTooSmall);
    }
    if has_record_tag(buf) {
        return Err(ProgramError::AccountAlreadyInitialized);
    }
    write_over(buf, &bytes);
    Ok(())
}

/// Rewrites the record held at the start of `buf` with `metas` and zeros the
/// rest.
pub fn update_record(buf: &mut Vec<u8>, metas: &Vec<ExtraAccountMeta>) -> (r: Result<(), ProgramError>)
    ensures
        match update_outcome(old(buf)@, metas_model(metas@)) {
            Ok(nb) => r is Ok && final(buf)@ == nb,
            Err(e) => r == Err::<(), ProgramError>(e) && final(buf)@ == old(buf)@,
        },
{
    let ghost ms = metas_model(metas@);
    let bytes = match encode_record(metas) {
        Ok(b) => b,
        Err(e) => return Err(e),
    };
    proof {
        lemma_record_bytes_len(ms);
    }
    if buf.len() < bytes.len() {
        return Err(ProgramError::AccountDataTooSmall);
    }
    if !has_record_tag(buf) {
        return Err(ProgramError::InvalidAccountData);
    }
    write_over(buf, &bytes);
    Ok(())
}

} // verus!
