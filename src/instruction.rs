use vstd::prelude::*;

use crate::codec::{
    check_encodable, encode_error, entries_bytes, read_u32, lemma_entries_bytes, lemma_u32_le_round_trip,
    read_u32_le, record_wf, u32_le,
};
use crate::error::ProgramError;
use crate::meta::{
    lemma_parse_meta_bytes, meta_wf, metas_model, pack_meta, parse_meta, unpack_meta,
    ExtraAccountMeta, MetaModel, META_LEN,
};

verus! {

/// The opcode of an execute instruction.
pub const EXECUTE: u8 = 0;

/// The opcode of an instruction that creates the validation record.
pub const INITIALIZE_EXTRA_ACCOUNT_META_LIST: u8 = 1;

/// The opcode of an instruction that rewrites the validation record.
pub const UPDATE_EXTRA_ACCOUNT_META_LIST: u8 = 2;

/// The requests that the program serves.
#[derive(Clone, Debug, PartialEq, Eq)]
pub enum TransferHookInstruction {
    /// A transfer of `amount` calls the hook.
    Execute { amount: u64 },
    /// Create the validation record. The list travels for its shape only: the
    /// program writes the list that it declares.
    InitializeExtraAccountMetaList { extra_account_metas: Vec<ExtraAccountMeta> },
    /// Rewrite the validation record, with the same proviso on the list.
    UpdateExtraAccountMetaList { extra_account_metas: Vec<ExtraAccountMeta> },
}

/// What an instruction is, as plain values.
pub enum InstructionModel {
    Execute(u64),
    Initialize(Seq<MetaModel>),
    Update(Seq<MetaModel>),
}

impl View for TransferHookInstruction {
    type V = InstructionModel;

    open spec fn view(&self) -> InstructionModel {
        match self {
            TransferHookInstruction::Execute { amount } => InstructionModel::Execute(*amount),
            TransferHookInstruction::InitializeExtraAccountMetaList { extra_account_metas } =>
                InstructionModel::Initialize(metas_model(extra_account_metas@)),
            TransferHookInstruction::UpdateExtraAccountMetaList { extra_account_metas } =>
                InstructionModel::Update(metas_model(extra_account_metas@)),
        }
    }
}

/// A 64-bit integer in little-endian order.
pub open spec fn u64_le(v: u64) -> Seq<u8> {
    seq![
        (v & 0xff) as u8,
        ((v >> 8) & 0xff) as u8,
        ((v >> 16) & 0xff) as u8,
        ((v >> 24) & 0xff) as u8,
        ((v >> 32) & 0xff) as u8,
        ((v >> 40) & 0xff) as u8,
        ((v >> 48) & 0xff) as u8,
        ((v >> 56) & 0xff) as u8,
    ]
}

/// The little-endian 64-bit integer in the first eight bytes of `b`.
pub open spec fn read_u64_le(b: Seq<u8>) -> u64 {
    (b[0] as u64) | ((b[1] as u64) << 8) | ((b[2] as u64) << 16) | ((b[3] as u64) << 24) | ((b[4] as u64)
        << 32) | ((b[5] as u64) << 40) | ((b[6] as u64) << 48) | ((b[7] as u64) << 56)
}

/// The entries of a meta list: a 32-bit count, then the metas.
pub open spec fn list_entry(b: Seq<u8>, i: int) -> Seq<u8> {
    b.subrange(4 + META_LEN * i, 4 + META_LEN * i + META_LEN)
}

/// Reads a meta list that fills `b` exactly.
pub open spec fn parse_meta_list(b: Seq<u8>) -> Option<Seq<MetaModel>> {
    if b.len() >= 4 && b.len() == 4 + META_LEN * read_u32_le(b) && forall|i: int|
        0 <= i < read_u32_le(b) ==> #[trigger] parse_meta(list_entry(b, i)) is Some {
        Some(Seq::new(read_u32_le(b) as nat, |i: int| parse_meta(list_entry(b, i))->0))
    } else {
        None
    }
}

/// Reads an instruction: an opcode, then an 8-byte amount or a meta list.
pub open spec fn parse_instruction(b: Seq<u8>) -> Option<InstructionModel> {
    if b.len() == 0 {
        None
    } else if b[0] == EXECUTE {
        if b.len() == 9 {
            Some(InstructionModel::Execute(read_u64_le(b.subrange(1, 9))))
        } else {
            None
        }
    } else if b[0] == INITIALIZE_EXTRA_ACCOUNT_META_LIST || b[0] == UPDATE_EXTRA_ACCOUNT_META_LIST {
        match parse_meta_list(b.subrange(1, b.len() as int)) {
            Some(ms) => if b[0] == INITIALIZE_EXTRA_ACCOUNT_META_LIST {
                Some(InstructionModel::Initialize(ms))
            } else {
                Some(InstructionModel::Update(ms))
            },
            None => None,
        }
    } else {
        None
    }
}

/// The bytes of an execute instruction for `amount`.
pub open spec fn execute_bytes(amount: u64) -> Seq<u8> {
    seq![EXECUTE] + u64_le(amount)
}

/// Writes the execute instruction for `amount`.
pub fn pack_execute(amount: u64) -> (r: Vec<u8>)
    ensures
        r@ == execute_bytes(amount),
{
    let mut r: Vec<u8> = Vec::new();
    r.push(EXECUTE);
    let mut k: u64 = 0;
    while k < 8
        invariant
            k <= 8,
            r@.len() == 1 + k,
            r@ == execute_bytes(amount).subrange(0, 1 + k as int),
        decreases 8 - k,
    {
        let byte = ((amount >> (8 * k)) & 0xff) as u8;
        proof {
            let t = execute_bytes(amount);
            assert(t[1 + k as int] == byte) by {
                if k == 0 {
                    assert(amount >> 0u64 == amount) by (bit_vector);
                }
            }
        }
        r.push(byte);
        k = k + 1;
        proof {
            assert(r@ =~= execute_bytes(amount).subrange(0, 1 + k as int));
        }
    }
    r
}

fn read_u64(data: &Vec<u8>, off: usize) -> (r: u64)
    requires
        off + 8 <= data.len(),
    ensures
        r == read_u64_le(data@.subrange(off as int, off + 8)),
{
    (data[off] as u64) | ((data[off + 1] as u64) << 8) | ((data[off + 2] as u64) << 16) | ((data[off
        + 3] as u64) << 24) | ((data[off + 4] as u64) << 32) | ((data[off + 5] as u64) << 40) | ((data[off
        + 6] as u64) << 48) | ((data[off + 7] as u64) << 56)
}

/// Reads the meta list that fills `data` from `start` on.
pub fn unpack_meta_list(data: &Vec<u8>, start: usize) -> (r: Option<Vec<ExtraAccountMeta>>)
    requires
        start <= data@.len(),
    ensures
        match parse_meta_list(data@.subrange(start as int, data@.len() as int)) {
            Some(ms) => r matches Some(v) && metas_model(v@) == ms,
            None => r is None,
        },
{
    let ghost b = data@.subrange(start as int, data@.len() as int);
    let len = data.len();
    if len - start < 4 {
        return None;
    }
    let count = read_u32(data, start);
    proof {
        assert(data@.subrange(start as int, start + 4) =~= b.subrange(0, 4));
        assert(count == read_u32_le(b));
    }
    if (len - start) as u64 != 4 + 35 * (count as u64) {
        return None;
    }
    let n = count as usize;
    let mut out: Vec<ExtraAccountMeta> = Vec::new();
    let mut i: usize = 0;
    while i < n
        invariant
            i <= n,
            len == data@.len(),
            start <= len,
            b == data@.subrange(start as int, data@.len() as int),
            n == read_u32_le(b),
            b.len() == 4 + META_LEN * n,
            forall|j: int| 0 <= j < i ==> #[trigger] parse_meta(list_entry(b, j)) is Some,
            metas_model(out@) == Seq::new(i as nat, |j: int| parse_meta(list_entry(b, j))->0),
        decreases n - i,
    {
        proof {
            assert(META_LEN * i + META_LEN <= META_LEN * n) by (nonlinear_arith)
                requires
                    i < n,
            ;
        }
        let off = start + 4 + META_LEN * i;
        proof {
            assert(data@.subrange(off as int, off + META_LEN) =~= list_entry(b, i as int));
        }
        match unpack_meta(data, off) {
            Some(m) => {
                let ghost prev = metas_model(out@);
                out.push(m);
                proof {
                    assert(metas_model(out@) =~= prev.push(m@));
                    assert(metas_model(out@) =~= Seq::new(
                        (i + 1) as nat,
                        |j: int| parse_meta(list_entry(b, j))->0,
                    ));
                }
            },
            None => {
                return None;
            },
        }
        i = i + 1;
    }
    Some(out)
}

impl TransferHookInstruction {
    /// Reads an instruction from its bytes.
    pub fn unpack(input: &Vec<u8>) -> (r: Result<TransferHookInstruction, ProgramError>)
        ensures
            match parse_instruction(input@) {
                Some(m) => r matches Ok(x) && x@ == m,
                None => r == Err::<TransferHookInstruction, ProgramError>(
                    ProgramError::InvalidInstructionData,
                ),
            },
    {
        if input.len() == 0 {
            return Err(ProgramError::InvalidInstructionData);
        }
        let tag = input[0];
        if tag == EXECUTE {
            if input.len() != 9 {
                return Err(ProgramError::InvalidInstructionData);
            }
            let amount = read_u64(input, 1);
            Ok(TransferHookInstruction::Execute { amount })
        } else if tag == INITIALIZE_EXTRA_ACCOUNT_META_LIST || tag == UPDATE_EXTRA_ACCOUNT_META_LIST {
            match unpack_meta_list(input, 1) {
                Some(extra_account_metas) => if tag == INITIALIZE_EXTRA_ACCOUNT_META_LIST {
                    Ok(TransferHookInstruction::InitializeExtraAccountMetaList { extra_account_metas })
                } else {
                    Ok(TransferHookInstruction::UpdateExtraAccountMetaList { extra_account_metas })
                },
                None => Err(ProgramError::InvalidInstructionData),
            }
        } else {
            Err(ProgramError::InvalidInstructionData)
        }
    }
}

/// The bytes of an instruction: the opcode, then the amount or the count and
/// the metas.
pub open spec fn instruction_bytes(m: InstructionModel) -> Seq<u8> {
    match m {
        InstructionModel::Execute(amount) => execute_bytes(amount),
        InstructionModel::Initialize(ms) => seq![INITIALIZE_EXTRA_ACCOUNT_META_LIST] + u32_le(
            ms.len() as u32,
        ) + entries_bytes(ms),
        InstructionModel::Update(ms) => seq![UPDATE_EXTRA_ACCOUNT_META_LIST] + u32_le(ms.len() as u32)
            + entries_bytes(ms),
    }
}

/// What is wrong with an instruction as bytes, if anything: its list of
/// metas cannot be written.
pub open spec fn instruction_error(m: InstructionModel) -> Option<ProgramError> {
    match m {
        InstructionModel::Execute(_) => None,
        InstructionModel::Initialize(ms) => encode_error(ms),
        InstructionModel::Update(ms) => encode_error(ms),
    }
}

/// A 64-bit integer read back from its little-endian bytes is itself.
pub proof fn lemma_u64_le_round_trip(v: u64)
    ensures
        read_u64_le(u64_le(v)) == v,
{
    assert(((((v & 0xff) as u8) as u64) | ((((v >> 8) & 0xff) as u8) as u64) << 8 | ((((v >> 16)
        & 0xff) as u8) as u64) << 16 | ((((v >> 24) & 0xff) as u8) as u64) << 24 | ((((v >> 32)
        & 0xff) as u8) as u64) << 32 | ((((v >> 40) & 0xff) as u8) as u64) << 40 | ((((v >> 48)
        & 0xff) as u8) as u64) << 48 | ((((v >> 56) & 0xff) as u8) as u64) << 56) == v)
        by (bit_vector);
}

/// An instruction read back from its bytes is the instruction written.
pub proof fn lemma_instruction_round_trip(m: InstructionModel)
    requires
        instruction_error(m) is None,
    ensures
        parse_instruction(instruction_bytes(m)) == Some(m),
{
    let b = instruction_bytes(m);
    match m {
        InstructionModel::Execute(amount) => {
            assert(b.subrange(1, 9) =~= u64_le(amount));
            lemma_u64_le_round_trip(amount);
        },
        InstructionModel::Initialize(ms) => {
            lemma_meta_list_round_trip(ms);
            assert(b.subrange(1, b.len() as int) =~= u32_le(ms.len() as u32) + entries_bytes(ms));
        },
        InstructionModel::Update(ms) => {
            lemma_meta_list_round_trip(ms);
            assert(b.subrange(1, b.len() as int) =~= u32_le(ms.len() as u32) + entries_bytes(ms));
        },
    }
}

proof fn lemma_meta_list_round_trip(ms: Seq<MetaModel>)
    requires
        record_wf(ms),
    ensures
        parse_meta_list(u32_le(ms.len() as u32) + entries_bytes(ms)) == Some(ms),
{
    let b = u32_le(ms.len() as u32) + entries_bytes(ms);
    lemma_entries_bytes(ms);
    lemma_u32_le_round_trip(ms.len() as u32);
    assert(read_u32_le(b) == ms.len());
    assert forall|i: int| 0 <= i < ms.len() implies #[trigger] parse_meta(list_entry(b, i)) == Some(ms[i]) by {
        assert(list_entry(b, i) =~= entries_bytes(ms).subrange(META_LEN * i, META_LEN * i + META_LEN));
        assert(meta_wf(ms[i]));
        lemma_parse_meta_bytes(ms[i]);
    }
    assert(Seq::new(ms.len(), |i: int| parse_meta(list_entry(b, i))->0) =~= ms);
}

impl TransferHookInstruction {
    /// Writes an instruction as bytes; a list of metas that cannot be
    /// written is refused.
    pub fn pack(&self) -> (r: Result<Vec<u8>, ProgramError>)
        ensures
            match instruction_error(self@) {
                Some(e) => r == Err::<Vec<u8>, ProgramError>(e),
                None => r matches Ok(v) && v@ == instruction_bytes(self@),
            },
    {
        match self {
            TransferHookInstruction::Execute { amount } => Ok(pack_execute(*amount)),
            TransferHookInstruction::InitializeExtraAccountMetaList { extra_account_metas } => pack_meta_list(
                INITIALIZE_EXTRA_ACCOUNT_META_LIST,
                extra_account_metas,
            ),
            TransferHookInstruction::UpdateExtraAccountMetaList { extra_account_metas } => pack_meta_list(
                UPDATE_EXTRA_ACCOUNT_META_LIST,
                extra_account_metas,
            ),
        }
    }
}

fn pack_meta_list(tag: u8, metas: &Vec<ExtraAccountMeta>) -> (r: Result<Vec<u8>, ProgramError>)
    ensures
        match encode_error(metas_model(metas@)) {
            Some(e) => r == Err::<Vec<u8>, ProgramError>(e),
            None => r matches Ok(v) && v@ == seq![tag] + u32_le(metas@.len() as u32) + entries_bytes(
                metas_model(metas@),
            ),
        },
{
    let ghost ms = metas_model(metas@);
    if let Some(e) = check_encodable(metas) {
        return Err(e);
    }
    let n = metas.len();
    let mut out: Vec<u8> = Vec::new();
    out.push(tag);
    let c = n as u32;
    out.push((c & 0xff) as u8);
    out.push(((c >> 8) & 0xff) as u8);
    out.push(((c >> 16) & 0xff) as u8);
    out.push(((c >> 24) & 0xff) as u8);
    let ghost header = out@;
    proof {
        assert(header =~= seq![tag] + u32_le(n as u32));
    }
    let mut i: usize = 0;
    while i < n
        invariant
            i <= n,
            n == metas@.len(),
            ms == metas_model(metas@),
            record_wf(ms),
            out@ == header + entries_bytes(ms.subrange(0, i as int)),
        decreases n - i,
    {
        proof {
            assert(meta_wf(ms[i as int]));
        }
        pack_meta(&metas[i], &mut out);
        proof {
            assert(ms.subrange(0, i + 1).drop_last() =~= ms.subrange(0, i as int));
            assert(out@ =~= header + entries_bytes(ms.subrange(0, i + 1)));
        }
        i = i + 1;
    }
    proof {
        assert(ms.subrange(0, i as int) =~= ms);
    }
    Ok(out)
}

} // verus!
