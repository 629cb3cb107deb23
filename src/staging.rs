//! The staging format in which a draft is kept between the staged steps.
use vstd::prelude::*;
use crate::balance::{Input, Output, TransactionDraft, inputs_view, outputs_view, output_view};
use crate::fee::CertificateKind;
use crate::bytes::{
    append, append_be32, append_be64, be32, be64, copy_range, from_be32, from_be64,
    lemma_be32_round_trip, lemma_be64_round_trip,
};

verus! {

/// Where a transaction is kept between the staged steps: a file, or standard
/// input and output when none is given.
#[derive(Clone, Debug)]
pub struct CommonTransaction {
    pub staging_file: Option<String>,
}

#[derive(Clone, Debug)]
pub enum StagingError {
    /// The staged bytes do not hold a transaction draft.
    Malformed { path: Option<String> },
    /// The draft has a count or a byte string too long for the staging format.
    TooLarge { path: Option<String> },
}

/// A record of the staging format: a byte string and a value.
pub type RecordModel = (Seq<u8>, u64);

pub open spec fn certificate_byte(c: Option<CertificateKind>) -> u8 {
    match c {
        None => 0,
        Some(CertificateKind::PoolRegistration) => 1,
        Some(CertificateKind::StakeDelegation) => 2,
        Some(CertificateKind::OwnerStakeDelegation) => 3,
        Some(CertificateKind::VotePlan) => 4,
        Some(CertificateKind::VoteCast) => 5,
        Some(CertificateKind::Other) => 6,
    }
}

pub open spec fn certificate_of_byte(b: u8) -> Option<Option<CertificateKind>> {
    if b == 0 {
        Some(None)
    } else if b == 1 {
        Some(Some(CertificateKind::PoolRegistration))
    } else if b == 2 {
        Some(Some(CertificateKind::StakeDelegation))
    } else if b == 3 {
        Some(Some(CertificateKind::OwnerStakeDelegation))
    } else if b == 4 {
        Some(Some(CertificateKind::VotePlan))
    } else if b == 5 {
        Some(Some(CertificateKind::VoteCast))
    } else if b == 6 {
        Some(Some(CertificateKind::Other))
    } else {
        None
    }
}

/// A record: the length of its byte string (4 bytes), the string, its value (8 bytes).
pub open spec fn record_bytes(r: RecordModel) -> Seq<u8> {
    be32(r.0.len() as u32) + r.0 + be64(r.1)
}

pub open spec fn records_bytes(s: Seq<RecordModel>) -> Seq<u8>
    decreases s.len(),
{
    if s.len() == 0 {
        Seq::empty()
    } else {
        records_bytes(s.drop_last()) + record_bytes(s.last())
    }
}

/// A draft in the staging format: certificate byte, input count, inputs, output
/// count, outputs.
pub open spec fn staging_bytes(
    inputs: Seq<RecordModel>,
    outputs: Seq<RecordModel>,
    certificate: Option<CertificateKind>,
) -> Seq<u8> {
    seq![certificate_byte(certificate)] + be32(inputs.len() as u32) + records_bytes(inputs) + be32(
        outputs.len() as u32,
    ) + records_bytes(outputs)
}

/// The record that starts at `pos`, and where the next one starts.
pub open spec fn parse_record(b: Seq<u8>, pos: int) -> Option<(RecordModel, int)> {
    if 0 <= pos && pos + 4 <= b.len() {
        let l = from_be32(b.subrange(pos, pos + 4)) as int;
        if pos + 4 + l + 8 <= b.len() {
            Some(
                (
                    (b.subrange(pos + 4, pos + 4 + l), from_be64(b.subrange(pos + 4 + l, pos + 12 + l))),
                    pos + 12 + l,
                ),
            )
        } else {
            None
        }
    } else {
        None
    }
}

/// The `n` records that start at `pos`, and where they end.
pub open spec fn parse_records(b: Seq<u8>, pos: int, n: nat) -> Option<(Seq<RecordModel>, int)>
    decreases n,
{
    if n == 0 {
        Some((Seq::empty(), pos))
    } else {
        match parse_records(b, pos, (n - 1) as nat) {
            None => None,
            Some((rs, p)) => match parse_record(b, p) {
                None => None,
                Some((r, q)) => Some((rs.push(r), q)),
            },
        }
    }
}

/// The count that starts at `pos`.
pub open spec fn parse_count(b: Seq<u8>, pos: int) -> Option<nat> {
    if 0 <= pos && pos + 4 <= b.len() {
        Some(from_be32(b.subrange(pos, pos + 4)) as nat)
    } else {
        None
    }
}

/// The draft that `b` holds, if any: inputs, outputs and certificate, with nothing
/// left over.
pub open spec fn parse_staging(b: Seq<u8>) -> Option<
    (Seq<RecordModel>, Seq<RecordModel>, Option<CertificateKind>),
> {
    if b.len() == 0 {
        None
    } else {
        match certificate_of_byte(b[0]) {
            None => None,
            Some(cert) => match parse_count(b, 1) {
                None => None,
                Some(n_in) => match parse_records(b, 5, n_in) {
                    None => None,
                    Some((ins, p)) => match parse_count(b, p) {
                        None => None,
                        Some(n_out) => match parse_records(b, p + 4, n_out) {
                            None => None,
                            Some((outs, q)) => if q == b.len() {
                                Some((ins, outs, cert))
                            } else {
                                None
                            },
                        },
                    },
                },
            },
        }
    }
}

proof fn lemma_parse_records_stays_none(b: Seq<u8>, pos: int, k: nat, n: nat)
    requires
        k <= n,
        parse_records(b, pos, k) is None,
    ensures
        parse_records(b, pos, n) is None,
    decreases n - k,
{
    if k < n {
        lemma_parse_records_stays_none(b, pos, k + 1, n);
    }
}

fn read_u32(b: &Vec<u8>, pos: usize) -> (r: Option<u32>)
    ensures
        match r {
            Some(v) => parse_count(b@, pos as int) == Some(v as nat) && pos + 4 <= b@.len(),
            None => parse_count(b@, pos as int) is None,
        },
{
    if pos > b.len() || b.len() - pos < 4 {
        return None;
    }
    let v: u32 = ((b[pos] as u32) << 24u32) | ((b[pos + 1] as u32) << 16u32) | ((b[pos + 2] as u32)
        << 8u32) | (b[pos + 3] as u32);
    assert(v == from_be32(b@.subrange(pos as int, pos + 4)));
    Some(v)
}

/// The number whose big-endian bytes are the eight bytes of `b`.
fn read_u64(b: &Vec<u8>) -> (r: u64)
    requires
        b@.len() == 8,
    ensures
        r == from_be64(b@),
{
    let hi: u32 = ((b[0] as u32) << 24u32) | ((b[1] as u32) << 16u32) | ((b[2] as u32) << 8u32) | (
    b[3] as u32);
    let lo: u32 = ((b[4] as u32) << 24u32) | ((b[5] as u32) << 16u32) | ((b[6] as u32) << 8u32) | (
    b[7] as u32);
    assert(hi == from_be32(b@.subrange(0, 4)));
    assert(lo == from_be32(b@.subrange(4, 8)));
    ((hi as u64) << 32u64) | (lo as u64)
}

fn read_record(b: &Vec<u8>, pos: usize) -> (r: Option<(Vec<u8>, u64, usize)>)
    ensures
        match r {
            Some((bytes, value, next)) => parse_record(b@, pos as int) == Some(
                ((bytes@, value), next as int),
            ),
            None => parse_record(b@, pos as int) is None,
        },
{
    let l = match read_u32(b, pos) {
        Some(l) => l as usize,
        None => return None,
    };
    let n = b.len();
    if n - pos - 4 < l || n - pos - 4 - l < 8 {
        return None;
    }
    let start = pos + 4;
    let bytes = copy_range(b, start, start + l);
    let value_bytes = copy_range(b, start + l, start + l + 8);
    let value = read_u64(&value_bytes);
    Some((bytes, value, start + l + 8))
}

proof fn lemma_parse_record_at(pre: Seq<u8>, r: RecordModel, suf: Seq<u8>)
    requires
        r.0.len() <= u32::MAX,
    ensures
        parse_record(pre + record_bytes(r) + suf, pre.len() as int) == Some(
            (r, (pre.len() + record_bytes(r).len()) as int),
        ),
{
    let b = pre + record_bytes(r) + suf;
    let p = pre.len() as int;
    let l = r.0.len() as int;
    lemma_be32_round_trip(r.0.len() as u32);
    lemma_be64_round_trip(r.1);
    assert(b.subrange(p, p + 4) =~= be32(r.0.len() as u32));
    assert(b.subrange(p + 4, p + 4 + l) =~= r.0);
    assert(b.subrange(p + 4 + l, p + 12 + l) =~= be64(r.1));
}

proof fn lemma_parse_records_at(pre: Seq<u8>, rs: Seq<RecordModel>, suf: Seq<u8>)
    requires
        forall|i: int| 0 <= i < rs.len() ==> (#[trigger] rs[i]).0.len() <= u32::MAX,
    ensures
        parse_records(pre + records_bytes(rs) + suf, pre.len() as int, rs.len()) == Some(
            (rs, (pre.len() + records_bytes(rs).len()) as int),
        ),
    decreases rs.len(),
{
    if rs.len() == 0 {
        assert(rs =~= Seq::<RecordModel>::empty());
    } else {
        let init = rs.drop_last();
        let last = rs.last();
        assert(forall|i: int| 0 <= i < init.len() ==> #[trigger] init[i] == rs[i]);
        let tail = record_bytes(last) + suf;
        assert(pre + records_bytes(rs) + suf =~= pre + records_bytes(init) + tail);
        lemma_parse_records_at(pre, init, tail);
        let pre2 = pre + records_bytes(init);
        assert(pre + records_bytes(rs) + suf =~= pre2 + record_bytes(last) + suf);
        lemma_parse_record_at(pre2, last, suf);
        assert(init.push(last) =~= rs);
    }
}

/// Reading back what `staging_bytes` wrote gives the same inputs, outputs and
/// certificate, whenever every count and byte string fits the format.
pub proof fn lemma_staging_round_trip(
    inputs: Seq<RecordModel>,
    outputs: Seq<RecordModel>,
    certificate: Option<CertificateKind>,
)
    requires
        inputs.len() <= u32::MAX,
        outputs.len() <= u32::MAX,
        forall|i: int| 0 <= i < inputs.len() ==> (#[trigger] inputs[i]).0.len() <= u32::MAX,
        forall|i: int| 0 <= i < outputs.len() ==> (#[trigger] outputs[i]).0.len() <= u32::MAX,
    ensures
        parse_staging(staging_bytes(inputs, outputs, certificate)) == Some(
            (inputs, outputs, certificate),
        ),
{
    let b = staging_bytes(inputs, outputs, certificate);
    let head = seq![certificate_byte(certificate)];
    let ri = records_bytes(inputs);
    let ro = records_bytes(outputs);
    let ci = be32(inputs.len() as u32);
    let co = be32(outputs.len() as u32);
    lemma_be32_round_trip(inputs.len() as u32);
    lemma_be32_round_trip(outputs.len() as u32);
    assert(b[0] == certificate_byte(certificate));
    assert(b.subrange(1, 5) =~= ci);
    assert(b =~= (head + ci) + ri + (co + ro));
    lemma_parse_records_at(head + ci, inputs, co + ro);
    let p: int = 5 + ri.len() as int;
    assert(b.subrange(p, p + 4) =~= co);
    assert(b =~= (head + ci + ri + co) + ro + Seq::<u8>::empty());
    lemma_parse_records_at(head + ci + ri + co, outputs, Seq::<u8>::empty());
}

fn certificate_of_byte_exec(b: u8) -> (r: Option<Option<CertificateKind>>)
    ensures
        r == certificate_of_byte(b),
{
    if b == 0 {
        Some(None)
    } else if b == 1 {
        Some(Some(CertificateKind::PoolRegistration))
    } else if b == 2 {
        Some(Some(CertificateKind::StakeDelegation))
    } else if b == 3 {
        Some(Some(CertificateKind::OwnerStakeDelegation))
    } else if b == 4 {
        Some(Some(CertificateKind::VotePlan))
    } else if b == 5 {
        Some(Some(CertificateKind::VoteCast))
    } else if b == 6 {
        Some(Some(CertificateKind::Other))
    } else {
        None
    }
}

fn certificate_byte_exec(c: Option<CertificateKind>) -> (r: u8)
    ensures
        r == certificate_byte(c),
{
    match c {
        None => 0,
        Some(CertificateKind::PoolRegistration) => 1,
        Some(CertificateKind::StakeDelegation) => 2,
        Some(CertificateKind::OwnerStakeDelegation) => 3,
        Some(CertificateKind::VotePlan) => 4,
        Some(CertificateKind::VoteCast) => 5,
        Some(CertificateKind::Other) => 6,
    }
}

/// Whether the staging format can hold the draft: counts and byte strings fit in
/// a `u32`.
pub open spec fn fits_staging(d: TransactionDraft) -> bool {
    &&& d.inputs@.len() <= u32::MAX
    &&& d.outputs@.len() <= u32::MAX
    &&& forall|i: int| 0 <= i < d.inputs@.len() ==> #[trigger] d.inputs@[i].source@.len() <= u32::MAX
    &&& forall|i: int| 0 <= i < d.outputs@.len() ==> #[trigger] d.outputs@[i].address@.len()
        <= u32::MAX
}

proof fn lemma_records_bytes_push(s: Seq<RecordModel>, i: int)
    requires
        0 <= i < s.len(),
    ensures
        records_bytes(s.take(i + 1)) == records_bytes(s.take(i)) + record_bytes(s[i]),
{
    assert(s.take(i + 1).drop_last() =~= s.take(i));
}

fn append_record(dst: &mut Vec<u8>, bytes: &Vec<u8>, value: u64)
    requires
        bytes@.len() <= u32::MAX,
    ensures
        final(dst)@ == old(dst)@ + record_bytes((bytes@, value)),
{
    append_be32(dst, bytes.len() as u32);
    append(dst, bytes);
    append_be64(dst, value);
    assert(dst@ =~= old(dst)@ + record_bytes((bytes@, value)));
}

/// Appends the inputs as records; `false` when a source is too long for the format.
fn append_input_records(dst: &mut Vec<u8>, s: &Vec<Input>) -> (ok: bool)
    ensures
        ok ==> final(dst)@ == old(dst)@ + records_bytes(inputs_view(s@)),
        ok <==> forall|i: int| 0 <= i < s@.len() ==> #[trigger] s@[i].source@.len() <= u32::MAX,
{
    let ghost recs = inputs_view(s@);
    let mut i: usize = 0;
    while i < s.len()
        invariant
            i <= s.len(),
            recs == inputs_view(s@),
            dst@ == old(dst)@ + records_bytes(recs.take(i as int)),
            forall|j: int| 0 <= j < i ==> #[trigger] s@[j].source@.len() <= u32::MAX,
        decreases s.len() - i,
    {
        if s[i].source.len() > u32::MAX as usize {
            return false;
        }
        proof {
            lemma_records_bytes_push(recs, i as int);
        }
        append_record(dst, &s[i].source, s[i].value);
        i = i + 1;
    }
    assert(recs.take(i as int) =~= recs);
    true
}

/// Appends the outputs as records; `false` when an address is too long for the format.
fn append_output_records(dst: &mut Vec<u8>, s: &Vec<Output>) -> (ok: bool)
    ensures
        ok ==> final(dst)@ == old(dst)@ + records_bytes(outputs_view(s@)),
        ok <==> forall|i: int| 0 <= i < s@.len() ==> #[trigger] s@[i].address@.len() <= u32::MAX,
{
    let ghost recs = outputs_view(s@);
    let mut i: usize = 0;
    while i < s.len()
        invariant
            i <= s.len(),
            recs == outputs_view(s@),
            dst@ == old(dst)@ + records_bytes(recs.take(i as int)),
            forall|j: int| 0 <= j < i ==> #[trigger] s@[j].address@.len() <= u32::MAX,
        decreases s.len() - i,
    {
        if s[i].address.len() > u32::MAX as usize {
            return false;
        }
        proof {
            lemma_records_bytes_push(recs, i as int);
        }
        append_record(dst, &s[i].address, s[i].value);
        i = i + 1;
    }
    assert(recs.take(i as int) =~= recs);
    true
}

impl CommonTransaction {
    fn malformed(&self) -> (e: StagingError)
        ensures
            e is Malformed,
    {
        StagingError::Malformed { path: self.staging_file.clone() }
    }

    /// Reads the staged draft from the bytes read from the staging file (or from
    /// standard input).
    pub fn load(&self, contents: &Vec<u8>) -> (r: Result<TransactionDraft, StagingError>)
        ensures
            match r {
                Ok(d) => parse_staging(contents@) == Some(
                    (inputs_view(d.inputs@), outputs_view(d.outputs@), d.certificate),
                ),
                Err(e) => parse_staging(contents@) is None && e is Malformed,
            },
    {
        let ghost b = contents@;
        if contents.len() == 0 {
            return Err(self.malformed());
        }
        let certificate = match certificate_of_byte_exec(contents[0]) {
            Some(c) => c,
            None => return Err(self.malformed()),
        };
        let n_in = match read_u32(contents, 1) {
            Some(n) => n,
            None => return Err(self.malformed()),
        };
        let mut inputs: Vec<Input> = Vec::new();
        let mut pos: usize = 5;
        let mut k: u32 = 0;
        while k < n_in
            invariant
                b == contents@,
                b.len() > 0,
                certificate_of_byte(b[0]) == Some(certificate),
                parse_count(b, 1) == Some(n_in as nat),
                k <= n_in,
                pos <= b.len(),
                parse_records(b, 5, k as nat) == Some((inputs_view(inputs@), pos as int)),
            decreases n_in - k,
        {
            match read_record(contents, pos) {
                Some((source, value, next)) => {
                    let ghost before = inputs@;
                    inputs.push(Input { source, value });
                    assert(inputs_view(inputs@) =~= inputs_view(before).push((source@, value)));
                    pos = next;
                    k = k + 1;
                },
                None => {
                    proof {
                        assert(parse_records(b, 5, (k + 1) as nat) is None);
                        lemma_parse_records_stays_none(b, 5, (k + 1) as nat, n_in as nat);
                    }
                    return Err(self.malformed());
                },
            }
        }
        let n_out = match read_u32(contents, pos) {
            Some(n) => n,
            None => return Err(self.malformed()),
        };
        let ghost out_start = pos + 4;
        pos = pos + 4;
        let mut outputs: Vec<Output> = Vec::new();
        k = 0;
        while k < n_out
            invariant
                b == contents@,
                b.len() > 0,
                certificate_of_byte(b[0]) == Some(certificate),
                parse_count(b, 1) == Some(n_in as nat),
                parse_records(b, 5, n_in as nat) == Some((inputs_view(inputs@), out_start - 4)),
                parse_count(b, out_start - 4) == Some(n_out as nat),
                k <= n_out,
                pos <= b.len(),
                parse_records(b, out_start, k as nat) == Some((outputs_view(outputs@), pos as int)),
            decreases n_out - k,
        {
            match read_record(contents, pos) {
                Some((address, value, next)) => {
                    let ghost before = outputs@;
                    let o = Output { address, value };
                    outputs.push(o);
                    assert(outputs_view(outputs@) =~= outputs_view(before).push(output_view(o)));
                    pos = next;
                    k = k + 1;
                },
                None => {
                    proof {
                        assert(parse_records(b, out_start, (k + 1) as nat) is None);
                        lemma_parse_records_stays_none(b, out_start, (k + 1) as nat, n_out as nat);
                    }
                    return Err(self.malformed());
                },
            }
        }
        if pos != contents.len() {
            return Err(self.malformed());
        }
        Ok(TransactionDraft { inputs, outputs, certificate })
    }

    /// The bytes to write to the staging file (or to standard output) for `staging`.
    pub fn store(&self, staging: &TransactionDraft) -> (r: Result<Vec<u8>, StagingError>)
        ensures
            match r {
                Ok(b) => fits_staging(*staging) && b@ == staging_bytes(
                    inputs_view(staging.inputs@),
                    outputs_view(staging.outputs@),
                    staging.certificate,
                ),
                Err(e) => !fits_staging(*staging) && e is TooLarge,
            },
    {
        let too_large = StagingError::TooLarge { path: self.staging_file.clone() };
        if staging.inputs.len() > u32::MAX as usize || staging.outputs.len() > u32::MAX as usize {
            return Err(too_large);
        }
        let mut b: Vec<u8> = Vec::new();
        b.push(certificate_byte_exec(staging.certificate));
        append_be32(&mut b, staging.inputs.len() as u32);
        if !append_input_records(&mut b, &staging.inputs) {
            return Err(too_large);
        }
        append_be32(&mut b, staging.outputs.len() as u32);
        if !append_output_records(&mut b, &staging.outputs) {
            return Err(too_large);
        }
        proof {
            assert(inputs_view(staging.inputs@).len() == staging.inputs@.len());
            assert(outputs_view(staging.outputs@).len() == staging.outputs@.len());
            assert(b@ =~= staging_bytes(
                inputs_view(staging.inputs@),
                outputs_view(staging.outputs@),
                staging.certificate,
            ));
        }
        Ok(b)
    }
}

} // verus!
