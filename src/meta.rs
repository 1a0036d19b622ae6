use vstd::prelude::*;

use crate::address::Address;

verus! {

/// One seed of a derived extra account.
#[derive(Clone, Debug, PartialEq, Eq)]
pub enum Seed {
    /// Fixed bytes.
    Literal { bytes: Vec<u8> },
    /// `length` bytes of the instruction data, from `index`.
    InstructionData { index: u8, length: u8 },
    /// The address of the supplied account at `index`.
    AccountKey { index: u8 },
    /// `length` bytes of the data of the supplied account at `account_index`,
    /// from `data_index`.
    AccountData { account_index: u8, data_index: u8, length: u8 },
}

/// What a seed is, as plain values.
pub enum SeedModel {
    Literal(Seq<u8>),
    InstructionData(u8, u8),
    AccountKey(u8),
    AccountData(u8, u8, u8),
}

impl View for Seed {
    type V = SeedModel;

    open spec fn view(&self) -> SeedModel {
        match self {
            Seed::Literal { bytes } => SeedModel::Literal(bytes@),
            Seed::InstructionData { index, length } => SeedModel::InstructionData(*index, *length),
            Seed::AccountKey { index } => SeedModel::AccountKey(*index),
            Seed::AccountData { account_index, data_index, length } => SeedModel::AccountData(
                *account_index,
                *data_index,
                *length,
            ),
        }
    }
}

/// One extra account that the hook needs, in the order the caller appends
/// them after the five fixed accounts.
#[derive(Clone, Debug, PartialEq, Eq)]
pub enum ExtraAccountMeta {
    /// A literal address.
    FixedAddress { address: Address, is_signer: bool, is_writable: bool },
    /// The program-derived address of `seeds` under the program whose address
    /// is that of the supplied account at `program_index`.
    SeedDerived { program_index: u8, seeds: Vec<Seed>, is_signer: bool, is_writable: bool },
}

/// What an extra account meta is, as plain values.
pub enum MetaModel {
    Fixed { address: Seq<u8>, is_signer: bool, is_writable: bool },
    Derived { program_index: u8, seeds: Seq<SeedModel>, is_signer: bool, is_writable: bool },
}

/// The seeds as plain values.
pub open spec fn seeds_model(seeds: Seq<Seed>) -> Seq<SeedModel> {
    seeds.map_values(|s: Seed| s@)
}

impl View for ExtraAccountMeta {
    type V = MetaModel;

    open spec fn view(&self) -> MetaModel {
        match self {
            ExtraAccountMeta::FixedAddress { address, is_signer, is_writable } => MetaModel::Fixed {
                address: address@,
                is_signer: *is_signer,
                is_writable: *is_writable,
            },
            ExtraAccountMeta::SeedDerived { program_index, seeds, is_signer, is_writable } =>
                MetaModel::Derived {
                program_index: *program_index,
                seeds: seeds_model(seeds@),
                is_signer: *is_signer,
                is_writable: *is_writable,
            },
        }
    }
}

/// The metas as plain values.
pub open spec fn metas_model(metas: Seq<ExtraAccountMeta>) -> Seq<MetaModel> {
    metas.map_values(|m: ExtraAccountMeta| m@)
}

impl MetaModel {
    /// Whether the account must sign.
    pub open spec fn is_signer(self) -> bool {
        match self {
            MetaModel::Fixed { is_signer, .. } => is_signer,
            MetaModel::Derived { is_signer, .. } => is_signer,
        }
    }

    /// Whether the account must be writable.
    pub open spec fn is_writable(self) -> bool {
        match self {
            MetaModel::Fixed { is_writable, .. } => is_writable,
            MetaModel::Derived { is_writable, .. } => is_writable,
        }
    }
}

/// The length of one encoded meta: a tag, a 32-byte configuration and the
/// two flags.
pub const META_LEN: usize = 35;

/// The length of a meta's address configuration.
pub const CONFIG_LEN: usize = 32;

/// The first tag of a derived meta; the program index is added to it.
pub const DERIVED_TAG: u8 = 128;

/// The encoding of one seed: a tag byte, then its fields.
pub open spec fn seed_bytes(s: SeedModel) -> Seq<u8> {
    match s {
        SeedModel::Literal(b) => seq![1u8, b.len() as u8] + b,
        SeedModel::InstructionData(i, l) => seq![2u8, i, l],
        SeedModel::AccountKey(i) => seq![3u8, i],
        SeedModel::AccountData(a, d, l) => seq![4u8, a, d, l],
    }
}

/// The seeds' encodings one after another.
pub open spec fn seeds_bytes(s: Seq<SeedModel>) -> Seq<u8>
    decreases s.len(),
{
    if s.len() == 0 {
        seq![]
    } else {
        seeds_bytes(s.drop_last()) + seed_bytes(s.last())
    }
}

/// `n` zero bytes.
pub open spec fn zeros(n: nat) -> Seq<u8> {
    Seq::new(n, |i: int| 0u8)
}

/// A flag as a byte: one for set, zero for clear.
pub open spec fn bool_byte(b: bool) -> u8 {
    if b {
        1
    } else {
        0
    }
}

/// Whether a meta can be written in the record's layout: a derived meta's
/// program index is below the derived tag and its seeds fit the 32-byte
/// configuration.
pub open spec fn meta_wf(m: MetaModel) -> bool {
    match m {
        MetaModel::Fixed { address, .. } => address.len() == CONFIG_LEN,
        MetaModel::Derived { program_index, seeds, .. } => program_index < DERIVED_TAG
            && seeds_bytes(seeds).len() <= CONFIG_LEN,
    }
}

/// The first byte of a meta: zero for a literal address, the derived tag
/// plus the program index for a derived one.
pub open spec fn meta_tag(m: MetaModel) -> u8 {
    match m {
        MetaModel::Fixed { .. } => 0,
        MetaModel::Derived { program_index, .. } => (DERIVED_TAG + program_index) as u8,
    }
}

/// The 32-byte address configuration of a meta: the address, or the
/// encoded seeds padded with zeros.
pub open spec fn config_bytes(m: MetaModel) -> Seq<u8> {
    match m {
        MetaModel::Fixed { address, .. } => address,
        MetaModel::Derived { seeds, .. } => seeds_bytes(seeds) + zeros(
            (CONFIG_LEN - seeds_bytes(seeds).len()) as nat,
        ),
    }
}

/// The 35 bytes of one meta: tag, configuration, signer flag, writable flag.
pub open spec fn meta_bytes(m: MetaModel) -> Seq<u8> {
    seq![meta_tag(m)] + config_bytes(m) + seq![bool_byte(m.is_signer()), bool_byte(m.is_writable())]
}

/// The length in bytes of the seed that starts `b`, where its tag is known
/// and it fits in `b`.
pub open spec fn seed_len_at(b: Seq<u8>) -> int {
    if b.len() == 0 {
        0
    } else if b[0] == 1 && b.len() >= 2 && b.len() >= 2 + b[1] {
        2 + b[1]
    } else if b[0] == 2 && b.len() >= 3 {
        3
    } else if b[0] == 3 && b.len() >= 2 {
        2
    } else if b[0] == 4 && b.len() >= 4 {
        4
    } else {
        0
    }
}

/// The seed that starts `b`, where `seed_len_at(b) > 0`.
pub open spec fn seed_at(b: Seq<u8>) -> SeedModel {
    if b[0] == 1 {
        SeedModel::Literal(b.subrange(2, 2 + b[1]))
    } else if b[0] == 2 {
        SeedModel::InstructionData(b[1], b[2])
    } else if b[0] == 3 {
        SeedModel::AccountKey(b[1])
    } else {
        SeedModel::AccountData(b[1], b[2], b[3])
    }
}

/// Reads seeds from `b` until it ends or a zero tag starts the padding.
pub open spec fn parse_seeds(b: Seq<u8>) -> Option<Seq<SeedModel>>
    decreases b.len(),
{
    if b.len() == 0 || b[0] == 0 {
        Some(seq![])
    } else if seed_len_at(b) == 0 {
        None
    } else {
        match parse_seeds(b.subrange(seed_len_at(b), b.len() as int)) {
            Some(rest) => Some(seq![seed_at(b)] + rest),
            None => None,
        }
    }
}

/// Reads one meta from its 35 bytes; a nonzero flag byte reads as set.
pub open spec fn parse_meta(b: Seq<u8>) -> Option<MetaModel> {
    let tag = b[0];
    let config = b.subrange(1, 1 + CONFIG_LEN);
    let is_signer = b[33] != 0;
    let is_writable = b[34] != 0;
    if tag == 0 {
        Some(MetaModel::Fixed { address: config, is_signer, is_writable })
    } else if tag >= DERIVED_TAG {
        match parse_seeds(config) {
            Some(seeds) => Some(
                MetaModel::Derived {
                    program_index: (tag - DERIVED_TAG) as u8,
                    seeds,
                    is_signer,
                    is_writable,
                },
            ),
            None => None,
        }
    } else {
        None
    }
}

/// The encoding of a non-empty seed list is its first seed's, then the rest's.
pub proof fn lemma_seeds_bytes_front(s: Seq<SeedModel>)
    requires
        s.len() > 0,
    ensures
        seeds_bytes(s) == seed_bytes(s[0]) + seeds_bytes(s.drop_first()),
    decreases s.len(),
{
    if s.len() == 1 {
        assert(s.drop_last() =~= seq![]);
        assert(s.drop_first() =~= seq![]);
        assert(seeds_bytes(s) =~= seed_bytes(s[0]) + seeds_bytes(s.drop_first()));
    } else {
        lemma_seeds_bytes_front(s.drop_last());
        assert(s.drop_last().drop_first() =~= s.drop_first().drop_last());
        assert(s.drop_first().last() == s.last());
        assert(seeds_bytes(s) =~= seed_bytes(s[0]) + seeds_bytes(s.drop_first()));
    }
}

/// Seeds read back from their encoding followed by zero padding are the
/// seeds written.
pub proof fn lemma_parse_seeds_bytes(s: Seq<SeedModel>, pad: nat)
    requires
        seeds_bytes(s).len() <= CONFIG_LEN,
    ensures
        parse_seeds(seeds_bytes(s) + zeros(pad)) == Some(s),
    decreases s.len(),
{
    let b = seeds_bytes(s) + zeros(pad);
    if s.len() == 0 {
        assert(seeds_bytes(s) =~= seq![]);
        assert(s =~= seq![]);
        if b.len() > 0 {
            assert(b[0] == 0);
        }
    } else {
        lemma_seeds_bytes_front(s);
        let first = seed_bytes(s[0]);
        let rest = seeds_bytes(s.drop_first());
        assert(b =~= first + (rest + zeros(pad)));
        assert(b.subrange(0, first.len() as int) =~= first);
        assert(seed_len_at(b) == first.len()) by {
            match s[0] {
                SeedModel::Literal(l) => {
                    assert(first.len() == 2 + l.len());
                    assert(b[1] == l.len() as u8);
                },
                _ => {},
            }
        }
        assert(seed_at(b) == s[0]) by {
            match s[0] {
                SeedModel::Literal(l) => {
                    assert(b.subrange(2, 2 + b[1]) =~= l);
                },
                _ => {},
            }
        }
        assert(b.subrange(seed_len_at(b), b.len() as int) =~= rest + zeros(pad));
        lemma_parse_seeds_bytes(s.drop_first(), pad);
        assert(seq![s[0]] + s.drop_first() =~= s);
    }
}

/// A well-formed meta is 35 bytes long and reads back as itself.
pub proof fn lemma_parse_meta_bytes(m: MetaModel)
    requires
        meta_wf(m),
    ensures
        meta_bytes(m).len() == META_LEN,
        parse_meta(meta_bytes(m)) == Some(m),
{
    let b = meta_bytes(m);
    assert(b.subrange(1, 1 + CONFIG_LEN) =~= config_bytes(m));
    match m {
        MetaModel::Fixed { .. } => {},
        MetaModel::Derived { seeds, .. } => {
            lemma_parse_seeds_bytes(seeds, (CONFIG_LEN - seeds_bytes(seeds).len()) as nat);
        },
    }
}

/// Encoding one more seed of a prefix appends that seed's bytes, and no
/// prefix encodes longer than the whole list.
pub proof fn lemma_seeds_bytes_prefix(s: Seq<SeedModel>, i: int)
    requires
        0 <= i < s.len(),
    ensures
        seeds_bytes(s.subrange(0, i + 1)) == seeds_bytes(s.subrange(0, i)) + seed_bytes(s[i]),
        seeds_bytes(s.subrange(0, i + 1)).len() <= seeds_bytes(s).len(),
    decreases s.len(),
{
    assert(s.subrange(0, i + 1).drop_last() =~= s.subrange(0, i));
    if i + 1 < s.len() {
        lemma_seeds_bytes_prefix(s.drop_last(), i);
        assert(s.drop_last().subrange(0, i + 1) =~= s.subrange(0, i + 1));
    } else {
        assert(s.subrange(0, i + 1) =~= s);
    }
}

/// Appends the encoding of each seed to `out`.
pub fn pack_seeds(seeds: &Vec<Seed>, out: &mut Vec<u8>)
    requires
        seeds_bytes(seeds_model(seeds@)).len() <= CONFIG_LEN,
    ensures
        final(out)@ == old(out)@ + seeds_bytes(seeds_model(seeds@)),
{
    let ghost sm = seeds_model(seeds@);
    let mut i: usize = 0;
    while i < seeds.len()
        invariant
            i <= seeds@.len(),
            sm == seeds_model(seeds@),
            seeds_bytes(sm).len() <= CONFIG_LEN,
            out@ == old(out)@ + seeds_bytes(sm.subrange(0, i as int)),
        decreases seeds@.len() - i,
    {
        proof {
            lemma_seeds_bytes_prefix(sm, i as int);
        }
        let ghost before = out@;
        match &seeds[i] {
            Seed::Literal { bytes } => {
                out.push(1u8);
                out.push(bytes.len() as u8);
                let mut j: usize = 0;
                while j < bytes.len()
                    invariant
                        j <= bytes@.len(),
                        out@ == before + seq![1u8, bytes@.len() as u8] + bytes@.subrange(0, j as int),
                    decreases bytes@.len() - j,
                {
                    out.push(bytes[j]);
                    j = j + 1;
                    proof {
                        assert(out@ =~= before + seq![1u8, bytes@.len() as u8] + bytes@.subrange(0, j as int));
                    }
                }
                proof {
                    assert(bytes@.subrange(0, j as int) =~= bytes@);
                }
            },
            Seed::InstructionData { index, length } => {
                out.push(2u8);
                out.push(*index);
                out.push(*length);
            },
            Seed::AccountKey { index } => {
                out.push(3u8);
                out.push(*index);
            },
            Seed::AccountData { account_index, data_index, length } => {
                out.push(4u8);
                out.push(*account_index);
                out.push(*data_index);
                out.push(*length);
            },
        }
        proof {
            assert(sm[i as int] == seeds@[i as int]@);
            assert(out@ =~= before + seed_bytes(sm[i as int]));
            assert(out@ =~= old(out)@ + seeds_bytes(sm.subrange(0, i + 1)));
        }
        i = i + 1;
    }
    proof {
        assert(sm.subrange(0, i as int) =~= sm);
    }
}

/// Whether the seeds' encoding fits the 32-byte configuration.
pub fn seeds_fit(seeds: &Vec<Seed>) -> (r: bool)
    ensures
        r == (seeds_bytes(seeds_model(seeds@)).len() <= CONFIG_LEN),
{
    let ghost sm = seeds_model(seeds@);
    let mut total: usize = 0;
    let mut i: usize = 0;
    while i < seeds.len()
        invariant
            i <= seeds@.len(),
            sm == seeds_model(seeds@),
            total == seeds_bytes(sm.subrange(0, i as int)).len(),
            total <= CONFIG_LEN,
        decreases seeds@.len() - i,
    {
        proof {
            lemma_seeds_bytes_prefix(sm, i as int);
            assert(sm[i as int] == seeds@[i as int]@);
        }
        let n: usize = match &seeds[i] {
            Seed::Literal { bytes } => {
                if bytes.len() > CONFIG_LEN {
                    return false;
                }
                2 + bytes.len()
            },
            Seed::InstructionData { .. } => 3,
            Seed::AccountKey { .. } => 2,
            Seed::AccountData { .. } => 4,
        };
        if total + n > CONFIG_LEN {
            return false;
        }
        total = total + n;
        i = i + 1;
    }
    proof {
        assert(sm.subrange(0, i as int) =~= sm);
    }
    true
}

/// The bytes of `data` from `start` up to `end`.
pub fn copy_bytes(data: &Vec<u8>, start: usize, end: usize) -> (r: Vec<u8>)
    requires
        start <= end <= data@.len(),
    ensures
        r@ == data@.subrange(start as int, end as int),
{
    let mut r: Vec<u8> = Vec::new();
    let mut i: usize = start;
    while i < end
        invariant
            start <= i <= end,
            end <= data@.len(),
            r@ == data@.subrange(start as int, i as int),
        decreases end - i,
    {
        r.push(data[i]);
        i = i + 1;
        proof {
            assert(r@ =~= data@.subrange(start as int, i as int));
        }
    }
    r
}

/// Whether a meta can be written in the record's layout.
pub fn meta_fits(m: &ExtraAccountMeta) -> (r: bool)
    ensures
        r == meta_wf(m@),
{
    match m {
        ExtraAccountMeta::FixedAddress { address, .. } => {
            proof {
                assert(address@.len() == CONFIG_LEN);
            }
            true
        },
        ExtraAccountMeta::SeedDerived { program_index, seeds, .. } => *program_index < DERIVED_TAG
            && seeds_fit(seeds),
    }
}

fn flag_byte(b: bool) -> (r: u8)
    ensures
        r == bool_byte(b),
{
    if b {
        1
    } else {
        0
    }
}

/// Appends the 35 bytes of a meta to `out`.
pub fn pack_meta(m: &ExtraAccountMeta, out: &mut Vec<u8>)
    requires
        meta_wf(m@),
    ensures
        final(out)@ == old(out)@ + meta_bytes(m@),
{
    match m {
        ExtraAccountMeta::FixedAddress { address, is_signer, is_writable } => {
            out.push(0u8);
            let mut a = address.to_vec();
            out.append(&mut a);
            out.push(flag_byte(*is_signer));
            out.push(flag_byte(*is_writable));
        },
        ExtraAccountMeta::SeedDerived { program_index, seeds, is_signer, is_writable } => {
            out.push(DERIVED_TAG + *program_index);
            let start = out.len();
            pack_seeds(seeds, out);
            let ghost packed = seeds_bytes(seeds_model(seeds@));
            let mut k: usize = out.len() - start;
            while k < CONFIG_LEN
                invariant
                    packed.len() <= k <= CONFIG_LEN,
                    out@.len() == start + k,
                    out@ == old(out)@ + seq![(DERIVED_TAG + *program_index) as u8] + packed + zeros(
                        (k - packed.len()) as nat,
                    ),
                decreases CONFIG_LEN - k,
            {
                out.push(0u8);
                k = k + 1;
                proof {
                    assert(out@ =~= old(out)@ + seq![(DERIVED_TAG + *program_index) as u8] + packed
                        + zeros((k - packed.len()) as nat));
                }
            }
            out.push(flag_byte(*is_signer));
            out.push(flag_byte(*is_writable));
        },
    }
    proof {
        assert(out@ =~= old(out)@ + meta_bytes(m@));
    }
}

/// Reads seeds from `data` between `start` and `end`, as `parse_seeds` does.
pub fn unpack_seeds(data: &Vec<u8>, start: usize, end: usize) -> (r: Option<Vec<Seed>>)
    requires
        start <= end <= data@.len(),
    ensures
        match parse_seeds(data@.subrange(start as int, end as int)) {
            Some(s) => r matches Some(v) && seeds_model(v@) == s,
            None => r is None,
        },
{
    let ghost whole = data@.subrange(start as int, end as int);
    let mut acc: Vec<Seed> = Vec::new();
    let mut pos: usize = start;
    while pos < end && data[pos] != 0
        invariant
            start <= pos <= end,
            end <= data@.len(),
            whole == data@.subrange(start as int, end as int),
            parse_seeds(whole) == (match parse_seeds(data@.subrange(pos as int, end as int)) {
                Some(rest) => Some(seeds_model(acc@) + rest),
                None => None::<Seq<SeedModel>>,
            }),
        decreases end - pos,
    {
        let ghost b = data@.subrange(pos as int, end as int);
        let tag = data[pos];
        let avail = end - pos;
        let (seed, n): (Seed, usize) = if tag == 1 && avail >= 2 && avail - 2 >= data[pos + 1] as usize {
            let l = data[pos + 1] as usize;
            let bytes = copy_bytes(data, pos + 2, pos + 2 + l);
            proof {
                assert(bytes@ =~= b.subrange(2, 2 + b[1]));
            }
            (Seed::Literal { bytes }, 2 + l)
        } else if tag == 2 && avail >= 3 {
            (Seed::InstructionData { index: data[pos + 1], length: data[pos + 2] }, 3)
        } else if tag == 3 && avail >= 2 {
            (Seed::AccountKey { index: data[pos + 1] }, 2)
        } else if tag == 4 && avail >= 4 {
            (Seed::AccountData { account_index: data[pos + 1], data_index: data[pos + 2], length: data[pos + 3] }, 4)
        } else {
            return None;
        };
        proof {
            assert(seed_len_at(b) == n);
            assert(seed@ == seed_at(b));
            assert(b.subrange(n as int, b.len() as int) =~= data@.subrange(pos + n, end as int));
        }
        let ghost prev = seeds_model(acc@);
        acc.push(seed);
        proof {
            assert(seeds_model(acc@) =~= prev.push(seed@));
            match parse_seeds(data@.subrange(pos + n, end as int)) {
                Some(rest) => {
                    assert(seeds_model(acc@) + rest =~= prev + (seq![seed_at(b)] + rest));
                },
                None => {},
            }
        }
        pos = pos + n;
    }
    proof {
        let b = data@.subrange(pos as int, end as int);
        assert(parse_seeds(b) == Some(Seq::<SeedModel>::empty()));
        assert(seeds_model(acc@) + Seq::<SeedModel>::empty() =~= seeds_model(acc@));
    }
    Some(acc)
}

/// Reads one meta from the 35 bytes of `data` at `off`, as `parse_meta` does.
pub fn unpack_meta(data: &Vec<u8>, off: usize) -> (r: Option<ExtraAccountMeta>)
    requires
        off + META_LEN <= data.len(),
    ensures
        match parse_meta(data@.subrange(off as int, off + META_LEN)) {
            Some(m) => r matches Some(v) && v@ == m,
            None => r is None,
        },
{
    let ghost b = data@.subrange(off as int, off + META_LEN);
    let tag = data[off];
    let is_signer = data[off + 33] != 0;
    let is_writable = data[off + 34] != 0;
    if tag == 0 {
        let mut bytes = [0u8; 32];
        let mut i: usize = 0;
        while i < CONFIG_LEN
            invariant
                i <= CONFIG_LEN,
                off + META_LEN <= data.len(),
                bytes@.len() == CONFIG_LEN,
                forall|j: int| 0 <= j < i ==> bytes@[j] == data@[off + 1 + j],
            decreases CONFIG_LEN - i,
        {
            bytes[i] = data[off + 1 + i];
            i = i + 1;
        }
        let address = Address(bytes);
        proof {
            assert(address@ =~= b.subrange(1, 1 + CONFIG_LEN));
        }
        Some(ExtraAccountMeta::FixedAddress { address, is_signer, is_writable })
    } else if tag >= DERIVED_TAG {
        proof {
            assert(b.subrange(1, 1 + CONFIG_LEN) =~= data@.subrange(off + 1, off + 1 + CONFIG_LEN));
        }
        match unpack_seeds(data, off + 1, off + 1 + CONFIG_LEN) {
            Some(seeds) => Some(
                ExtraAccountMeta::SeedDerived {
                    program_index: tag - DERIVED_TAG,
                    seeds,
                    is_signer,
                    is_writable,
                },
            ),
            None => None,
        }
    } else {
        None
    }
}

} // verus!
