//! Witnesses: the messages they sign, their binary layout and their text form.
use bech32::{FromBase32, ToBase32};
use vstd::prelude::*;
use crate::bytes::{append, append_be32, be32, copy_range, from_be32, lemma_be32_round_trip};

verus! {

/// First byte of a legacy UTxO witness and of the message it signs.
pub const WITNESS_TAG_OLDUTXO: u8 = 0;

/// First byte of a UTxO witness and of the message it signs.
pub const WITNESS_TAG_UTXO: u8 = 1;

/// First byte of an account witness (the message it signs carries no tag).
pub const WITNESS_TAG_ACCOUNT: u8 = 2;

/// Length of a chain identifier (the genesis block hash) and of a transaction digest.
pub const HASH_LEN: usize = 32;

/// Length of an Ed25519 public key.
pub const PUBLIC_KEY_LEN: usize = 32;

/// Length of an Ed25519 signature.
pub const SIGNATURE_LEN: usize = 64;

/// Length of the fixed tag that a legacy UTxO witness carries.
pub const LEGACY_TAG_LEN: usize = 32;

/// The witness kind asked for on the command line.
#[derive(Clone, Copy, Debug, PartialEq, Eq, Structural)]
pub enum WitnessType {
    UTxO,
    OldUTxO,
    Account,
}

/// A witness kind with what it needs to be built.
#[derive(Clone, Copy, Debug, PartialEq, Eq, Structural)]
pub enum WitnessKind {
    Utxo,
    LegacyUtxo,
    Account(u32),
}

#[derive(Clone, Copy, Debug, PartialEq, Eq, Structural)]
pub enum MkWitnessError {
    /// An account witness was asked for without a spending counter.
    AccountCounterMissing,
}

/// A signed witness. Its fields are public, so a value may hold byte strings of any
/// length; `wf` says which lengths the binary layout expects, and `Witness::new`
/// always meets it.
#[derive(Clone, Debug)]
pub enum Witness {
    Utxo { chain_id: Vec<u8>, signature: Vec<u8> },
    OldUtxo { chain_id: Vec<u8>, public_key: Vec<u8>, tag: Vec<u8>, signature: Vec<u8> },
    Account { chain_id: Vec<u8>, spending_counter: u32, signature: Vec<u8> },
}

/// A witness as a mathematical value.
pub enum WitnessModel {
    Utxo { chain_id: Seq<u8>, signature: Seq<u8> },
    OldUtxo { chain_id: Seq<u8>, public_key: Seq<u8>, tag: Seq<u8>, signature: Seq<u8> },
    Account { chain_id: Seq<u8>, spending_counter: u32, signature: Seq<u8> },
}

impl WitnessModel {
    pub open spec fn wf(self) -> bool {
        match self {
            WitnessModel::Utxo { chain_id, signature } => chain_id.len() == HASH_LEN
                && signature.len() == SIGNATURE_LEN,
            WitnessModel::OldUtxo { chain_id, public_key, tag, signature } => chain_id.len()
                == HASH_LEN && public_key.len() == PUBLIC_KEY_LEN && tag.len() == LEGACY_TAG_LEN
                && signature.len() == SIGNATURE_LEN,
            WitnessModel::Account { chain_id, spending_counter, signature } => chain_id.len()
                == HASH_LEN && signature.len() == SIGNATURE_LEN,
        }
    }
}

impl View for Witness {
    type V = WitnessModel;

    open spec fn view(&self) -> WitnessModel {
        match self {
            Witness::Utxo { chain_id, signature } => WitnessModel::Utxo {
                chain_id: chain_id@,
                signature: signature@,
            },
            Witness::OldUtxo { chain_id, public_key, tag, signature } => WitnessModel::OldUtxo {
                chain_id: chain_id@,
                public_key: public_key@,
                tag: tag@,
                signature: signature@,
            },
            Witness::Account { chain_id, spending_counter, signature } => WitnessModel::Account {
                chain_id: chain_id@,
                spending_counter: *spending_counter,
                signature: signature@,
            },
        }
    }
}

/// What the witness kind asked for, with the counter given, amounts to.
pub open spec fn spec_witness_kind(ty: WitnessType, counter: Option<u32>) -> Result<
    WitnessKind,
    MkWitnessError,
> {
    match ty {
        WitnessType::UTxO => Ok(WitnessKind::Utxo),
        WitnessType::OldUTxO => Ok(WitnessKind::LegacyUtxo),
        WitnessType::Account => match counter {
            Some(n) => Ok(WitnessKind::Account(n)),
            None => Err(MkWitnessError::AccountCounterMissing),
        },
    }
}

/// Combines the requested witness type with the spending counter; an account
/// witness without a counter is refused, the other kinds ignore it.
pub fn witness_kind(ty: WitnessType, counter: Option<u32>) -> (r: Result<WitnessKind, MkWitnessError>)
    ensures
        r == spec_witness_kind(ty, counter),
{
    match ty {
        WitnessType::UTxO => Ok(WitnessKind::Utxo),
        WitnessType::OldUTxO => Ok(WitnessKind::LegacyUtxo),
        WitnessType::Account => match counter {
            Some(n) => Ok(WitnessKind::Account(n)),
            None => Err(MkWitnessError::AccountCounterMissing),
        },
    }
}

/// The tag that marks a witness of this kind in its binary layout.
pub open spec fn kind_tag(kind: WitnessKind) -> u8 {
    match kind {
        WitnessKind::Utxo => WITNESS_TAG_UTXO,
        WitnessKind::LegacyUtxo => WITNESS_TAG_OLDUTXO,
        WitnessKind::Account(_) => WITNESS_TAG_ACCOUNT,
    }
}

/// The message that a witness of `kind` signs.
/// - An account witness signs the chain identifier, the transaction digest and
///   the spending counter (big-endian): `chain_id ‖ digest ‖ counter`.
/// - A UTxO witness and a legacy UTxO witness sign the chain identifier and the
///   digest after one tag byte of their kind. Without that byte the two would sign
///   the very same bytes, and a signature of one would verify as the other.
/// With hashes of `HASH_LEN` bytes, an account message is 68 bytes long and the
/// other two 65, so no two kinds share a message.
pub open spec fn message_bytes(kind: WitnessKind, chain_id: Seq<u8>, digest: Seq<u8>) -> Seq<u8> {
    match kind {
        WitnessKind::Account(n) => chain_id + digest + be32(n),
        _ => seq![kind_tag(kind)] + chain_id + digest,
    }
}

/// The bytes to sign for a witness of `kind` over the transaction `digest` on the
/// chain `chain_id`.
pub fn signing_message(kind: WitnessKind, chain_id: &Vec<u8>, digest: &Vec<u8>) -> (r: Vec<u8>)
    requires
        chain_id@.len() == HASH_LEN,
        digest@.len() == HASH_LEN,
    ensures
        r@ == message_bytes(kind, chain_id@, digest@),
{
    let mut r: Vec<u8> = Vec::new();
    match kind {
        WitnessKind::Utxo => r.push(WITNESS_TAG_UTXO),
        WitnessKind::LegacyUtxo => r.push(WITNESS_TAG_OLDUTXO),
        WitnessKind::Account(_) => {},
    }
    append(&mut r, chain_id);
    append(&mut r, digest);
    match kind {
        WitnessKind::Account(n) => append_be32(&mut r, n),
        _ => {},
    }
    assert(r@ =~= message_bytes(kind, chain_id@, digest@));
    r
}

/// Witnesses of different kinds never sign the same message: a UTxO and a legacy
/// UTxO message differ in their tag byte, an account message in its length.
pub proof fn lemma_kinds_sign_distinct_messages(
    k1: WitnessKind,
    k2: WitnessKind,
    c1: Seq<u8>,
    d1: Seq<u8>,
    c2: Seq<u8>,
    d2: Seq<u8>,
)
    requires
        kind_tag(k1) != kind_tag(k2),
        c1.len() == HASH_LEN,
        d1.len() == HASH_LEN,
        c2.len() == HASH_LEN,
        d2.len() == HASH_LEN,
    ensures
        message_bytes(k1, c1, d1) != message_bytes(k2, c2, d2),
{
    let m1 = message_bytes(k1, c1, d1);
    let m2 = message_bytes(k2, c2, d2);
    if !(k1 is Account) && !(k2 is Account) {
        assert(m1[0] == kind_tag(k1));
        assert(m2[0] == kind_tag(k2));
    } else {
        assert(m1.len() != m2.len());
    }
}

/// A UTxO witness and a legacy UTxO witness for the same chain and digest sign
/// different messages.
pub proof fn lemma_utxo_and_legacy_messages_differ(chain_id: Seq<u8>, digest: Seq<u8>)
    ensures
        message_bytes(WitnessKind::Utxo, chain_id, digest) != message_bytes(
            WitnessKind::LegacyUtxo,
            chain_id,
            digest,
        ),
{
    assert(message_bytes(WitnessKind::Utxo, chain_id, digest)[0] == WITNESS_TAG_UTXO);
    assert(message_bytes(WitnessKind::LegacyUtxo, chain_id, digest)[0] == WITNESS_TAG_OLDUTXO);
}

/// Account witnesses for two different spending counters (same chain, same digest)
/// sign different messages, so one cannot be replayed at another counter.
pub proof fn lemma_account_counter_separates(chain_id: Seq<u8>, digest: Seq<u8>, n1: u32, n2: u32)
    requires
        n1 != n2,
    ensures
        message_bytes(WitnessKind::Account(n1), chain_id, digest) != message_bytes(
            WitnessKind::Account(n2),
            chain_id,
            digest,
        ),
{
    let m1 = message_bytes(WitnessKind::Account(n1), chain_id, digest);
    let m2 = message_bytes(WitnessKind::Account(n2), chain_id, digest);
    let k: int = (chain_id.len() + digest.len()) as int;
    lemma_be32_round_trip(n1);
    lemma_be32_round_trip(n2);
    if m1 == m2 {
        assert(m1.subrange(k, k + 4) =~= be32(n1));
        assert(m2.subrange(k, k + 4) =~= be32(n2));
    }
}

impl Witness {
    pub open spec fn wf(&self) -> bool {
        self@.wf()
    }

    /// Assembles the witness of `kind` from the chain identifier, the signer's public
    /// key (kept only by a legacy witness, with an all-zero tag) and the signature
    /// over `signing_message(kind, chain_id, digest)`.
    pub fn new(kind: WitnessKind, chain_id: &Vec<u8>, public_key: &Vec<u8>, signature: &Vec<u8>) -> (r:
        Witness)
        requires
            chain_id@.len() == HASH_LEN,
            public_key@.len() == PUBLIC_KEY_LEN,
            signature@.len() == SIGNATURE_LEN,
        ensures
            r.wf(),
            r@ == match kind {
                WitnessKind::Utxo => WitnessModel::Utxo {
                    chain_id: chain_id@,
                    signature: signature@,
                },
                WitnessKind::LegacyUtxo => WitnessModel::OldUtxo {
                    chain_id: chain_id@,
                    public_key: public_key@,
                    tag: Seq::new(LEGACY_TAG_LEN as nat, |i: int| 0u8),
                    signature: signature@,
                },
                WitnessKind::Account(n) => WitnessModel::Account {
                    chain_id: chain_id@,
                    spending_counter: n,
                    signature: signature@,
                },
            },
    {
        match kind {
            WitnessKind::Utxo => Witness::Utxo {
                chain_id: chain_id.clone(),
                signature: signature.clone(),
            },
            WitnessKind::LegacyUtxo => {
                let tag: Vec<u8> = vec![0u8; LEGACY_TAG_LEN];
                assert(tag@ =~= Seq::new(LEGACY_TAG_LEN as nat, |i: int| 0u8));
                Witness::OldUtxo {
                    chain_id: chain_id.clone(),
                    public_key: public_key.clone(),
                    tag,
                    signature: signature.clone(),
                }
            },
            WitnessKind::Account(n) => Witness::Account {
                chain_id: chain_id.clone(),
                spending_counter: n,
                signature: signature.clone(),
            },
        }
    }
}

/// The canonical binary layout of a witness: tag, chain identifier, the kind's
/// own fields, signature.
pub open spec fn witness_bytes(w: WitnessModel) -> Seq<u8> {
    match w {
        WitnessModel::Utxo { chain_id, signature } => seq![WITNESS_TAG_UTXO] + chain_id + signature,
        WitnessModel::OldUtxo { chain_id, public_key, tag, signature } => seq![WITNESS_TAG_OLDUTXO]
            + chain_id + public_key + tag + signature,
        WitnessModel::Account { chain_id, spending_counter, signature } => seq![WITNESS_TAG_ACCOUNT]
            + chain_id + be32(spending_counter) + signature,
    }
}

pub open spec fn utxo_witness_len() -> nat {
    (1 + HASH_LEN + SIGNATURE_LEN) as nat
}

pub open spec fn old_utxo_witness_len() -> nat {
    (1 + HASH_LEN + PUBLIC_KEY_LEN + LEGACY_TAG_LEN + SIGNATURE_LEN) as nat
}

pub open spec fn account_witness_len() -> nat {
    (1 + HASH_LEN + 4 + SIGNATURE_LEN) as nat
}

/// The witness that `b` encodes, if any: the tag picks the kind, the length must
/// be that kind's length, and the fields are read at their fixed places.
pub open spec fn witness_of_bytes(b: Seq<u8>) -> Option<WitnessModel> {
    if b.len() == 0 {
        None
    } else if b[0] == WITNESS_TAG_UTXO && b.len() == utxo_witness_len() {
        Some(WitnessModel::Utxo { chain_id: b.subrange(1, 33), signature: b.subrange(33, 97) })
    } else if b[0] == WITNESS_TAG_OLDUTXO && b.len() == old_utxo_witness_len() {
        Some(
            WitnessModel::OldUtxo {
                chain_id: b.subrange(1, 33),
                public_key: b.subrange(33, 65),
                tag: b.subrange(65, 97),
                signature: b.subrange(97, 161),
            },
        )
    } else if b[0] == WITNESS_TAG_ACCOUNT && b.len() == account_witness_len() {
        Some(
            WitnessModel::Account {
                chain_id: b.subrange(1, 33),
                spending_counter: from_be32(b.subrange(33, 37)),
                signature: b.subrange(37, 101),
            },
        )
    } else {
        None
    }
}

/// Decoding the binary layout of a well-formed witness gives the witness back.
pub proof fn lemma_witness_round_trip(w: WitnessModel)
    requires
        w.wf(),
    ensures
        witness_of_bytes(witness_bytes(w)) == Some(w),
{
    let b = witness_bytes(w);
    match w {
        WitnessModel::Utxo { chain_id, signature } => {
            assert(b.subrange(1, 33) =~= chain_id);
            assert(b.subrange(33, 97) =~= signature);
        },
        WitnessModel::OldUtxo { chain_id, public_key, tag, signature } => {
            assert(b.subrange(1, 33) =~= chain_id);
            assert(b.subrange(33, 65) =~= public_key);
            assert(b.subrange(65, 97) =~= tag);
            assert(b.subrange(97, 161) =~= signature);
        },
        WitnessModel::Account { chain_id, spending_counter, signature } => {
            assert(b.subrange(1, 33) =~= chain_id);
            assert(b.subrange(33, 37) =~= be32(spending_counter));
            lemma_be32_round_trip(spending_counter);
            assert(b.subrange(37, 101) =~= signature);
        },
    }
}

impl Witness {
    /// The canonical binary form of the witness.
    pub fn to_bytes(&self) -> (r: Vec<u8>)
        ensures
            r@ == witness_bytes(self@),
    {
        let mut r: Vec<u8> = Vec::new();
        match self {
            Witness::Utxo { chain_id, signature } => {
                r.push(WITNESS_TAG_UTXO);
                append(&mut r, chain_id);
                append(&mut r, signature);
            },
            Witness::OldUtxo { chain_id, public_key, tag, signature } => {
                r.push(WITNESS_TAG_OLDUTXO);
                append(&mut r, chain_id);
                append(&mut r, public_key);
                append(&mut r, tag);
                append(&mut r, signature);
            },
            Witness::Account { chain_id, spending_counter, signature } => {
                r.push(WITNESS_TAG_ACCOUNT);
                append(&mut r, chain_id);
                append_be32(&mut r, *spending_counter);
                append(&mut r, signature);
            },
        }
        assert(r@ =~= witness_bytes(self@));
        r
    }

    /// Reads a witness from its canonical binary form.
    pub fn from_bytes(b: &Vec<u8>) -> (r: Option<Witness>)
        ensures
            match r {
                Some(w) => witness_of_bytes(b@) == Some(w@),
                None => witness_of_bytes(b@) is None,
            },
    {
        if b.len() == 0 {
            None
        } else if b[0] == WITNESS_TAG_UTXO && b.len() == 1 + HASH_LEN + SIGNATURE_LEN {
            Some(Witness::Utxo { chain_id: copy_range(b, 1, 33), signature: copy_range(b, 33, 97) })
        } else if b[0] == WITNESS_TAG_OLDUTXO && b.len() == 1 + HASH_LEN + PUBLIC_KEY_LEN
            + LEGACY_TAG_LEN + SIGNATURE_LEN {
            Some(
                Witness::OldUtxo {
                    chain_id: copy_range(b, 1, 33),
                    public_key: copy_range(b, 33, 65),
                    tag: copy_range(b, 65, 97),
                    signature: copy_range(b, 97, 161),
                },
            )
        } else if b[0] == WITNESS_TAG_ACCOUNT && b.len() == 1 + HASH_LEN + 4 + SIGNATURE_LEN {
            let n: u32 = ((b[33] as u32) << 24u32) | ((b[34] as u32) << 16u32) | ((b[35] as u32)
                << 8u32) | (b[36] as u32);
            let ghost c = b@.subrange(33, 37);
            assert(n == from_be32(c));
            Some(
                Witness::Account {
                    chain_id: copy_range(b, 1, 33),
                    spending_counter: n,
                    signature: copy_range(b, 37, 101),
                },
            )
        } else {
            None
        }
    }
}

/// The human-readable prefix of a witness in text form.
pub const WITNESS_HRP: &'static str = "witness";

/// The bech32 text of `data` under the prefix `hrp`.
pub uninterp spec fn bech32_text(hrp: Seq<char>, data: Seq<u8>) -> Seq<char>;

pub open spec fn is_lower_ascii(c: char) -> bool {
    'a' <= c <= 'z'
}

pub open spec fn is_upper_ascii(c: char) -> bool {
    'A' <= c <= 'Z'
}

/// A prefix that bech32 accepts: 1 to 83 printable ASCII characters, not mixing cases.
pub open spec fn valid_hrp(hrp: Seq<char>) -> bool {
    &&& 1 <= hrp.len() <= 83
    &&& forall|i: int| 0 <= i < hrp.len() ==> 33 <= #[trigger] (hrp[i] as u32) <= 126
    &&& !((exists|i: int| 0 <= i < hrp.len() && is_lower_ascii(#[trigger] hrp[i])) && (exists|
        j: int,
    | 0 <= j < hrp.len() && is_upper_ascii(#[trigger] hrp[j])))
}

/// No upper-case ASCII letter in `s`.
pub open spec fn no_upper_ascii(s: Seq<char>) -> bool {
    forall|i: int| 0 <= i < s.len() ==> !is_upper_ascii(#[trigger] s[i])
}

/// Relies on bech32::encode (0.7, applied to the bytes regrouped by `ToBase32`):
/// it fails exactly when `check_hrp` refuses the prefix, and otherwise returns the
/// bech32 text of the data. As the crate's own example shows, bech32::decode with
/// `FromBase32` reads back from that text the prefix (lower-cased) and the bytes.
#[verifier::external_body]
fn bech32_encode(hrp: &str, data: &Vec<u8>) -> (r: Option<String>)
    ensures
        match r {
            Some(text) => {
                &&& valid_hrp(hrp@)
                &&& text@ == bech32_text(hrp@, data@)
                &&& no_upper_ascii(hrp@) ==> bech32_payload(text@) == Some((hrp@, data@))
            },
            None => !valid_hrp(hrp@),
        },
{
    bech32::encode(hrp, data.to_base32()).ok()
}

/// The witness in text form: its binary form in bech32 under the prefix `witness`.
pub fn witness_to_text(w: &Witness) -> (r: String)
    ensures
        r@ == bech32_text(WITNESS_HRP@, witness_bytes(w@)),
        bech32_payload(r@) == Some((WITNESS_HRP@, witness_bytes(w@))),
{
    let bytes = w.to_bytes();
    proof {
        reveal_strlit("witness");
        assert(WITNESS_HRP@.len() == 7);
        assert forall|i: int| 0 <= i < WITNESS_HRP@.len() implies !is_upper_ascii(
            #[trigger] WITNESS_HRP@[i],
        ) && 33 <= (WITNESS_HRP@[i] as u32) <= 126 by {
            assert(WITNESS_HRP@[i] == "witness"@[i]);
        }
    }
    match bech32_encode(WITNESS_HRP, &bytes) {
        Some(text) => text,
        None => {
            proof {
                assert(false);
            }
            String::new()
        },
    }
}

/// What a bech32 text carries: its prefix in lower case and its bytes, when the
/// checksum holds and the data regroups into whole bytes.
pub uninterp spec fn bech32_payload(text: Seq<char>) -> Option<(Seq<char>, Seq<u8>)>;

/// Relies on bech32::decode (0.7) followed by `FromBase32` for bytes: the
/// prefix and bytes of a well-formed text, nothing for any other text.
#[verifier::external_body]
fn bech32_decode(text: &str) -> (r: Option<(String, Vec<u8>)>)
    ensures
        match r {
            Some((hrp, data)) => bech32_payload(text@) == Some((hrp@, data@)),
            None => bech32_payload(text@) is None,
        },
{
    let (hrp, data) = bech32::decode(text).ok()?;
    Vec::<u8>::from_base32(&data).ok().map(|bytes| (hrp, bytes))
}

#[derive(Clone, Copy, Debug, PartialEq, Eq, Structural)]
pub enum WitnessDecodeError {
    /// Not a bech32 text, or its checksum does not hold.
    InvalidText,
    /// A bech32 text whose prefix is not `witness`.
    WrongPrefix,
    /// The bytes carried are not a witness.
    InvalidWitness,
}

/// Reads a witness from its text form, the inverse of `witness_to_text`.
pub fn witness_from_text(text: &str) -> (r: Result<Witness, WitnessDecodeError>)
    ensures
        match bech32_payload(text@) {
            None => r == Err::<Witness, WitnessDecodeError>(WitnessDecodeError::InvalidText),
            Some((hrp, bytes)) => if hrp != WITNESS_HRP@ {
                r == Err::<Witness, WitnessDecodeError>(WitnessDecodeError::WrongPrefix)
            } else {
                match witness_of_bytes(bytes) {
                    None => r == Err::<Witness, WitnessDecodeError>(
                        WitnessDecodeError::InvalidWitness,
                    ),
                    Some(m) => r matches Ok(w) && w@ == m,
                }
            },
        },
{
    let (hrp, bytes) = match bech32_decode(text) {
        Some(p) => p,
        None => return Err(WitnessDecodeError::InvalidText),
    };
    if hrp != WITNESS_HRP.to_owned() {
        return Err(WitnessDecodeError::WrongPrefix);
    }
    match Witness::from_bytes(&bytes) {
        Some(w) => Ok(w),
        None => Err(WitnessDecodeError::InvalidWitness),
    }
}

/// Reading back a text that carries the prefix `witness` and the binary form of a
/// well-formed witness, as every text of `witness_to_text` does, gives that witness:
/// `witness_from_text` then returns `Ok` of it.
pub proof fn lemma_text_round_trip(w: WitnessModel, text: Seq<char>)
    requires
        w.wf(),
        bech32_payload(text) == Some((WITNESS_HRP@, witness_bytes(w))),
    ensures
        witness_of_bytes(witness_bytes(w)) == Some(w),
        match bech32_payload(text) {
            Some((hrp, bytes)) => hrp == WITNESS_HRP@ && witness_of_bytes(bytes) == Some(w),
            None => false,
        },
{
    lemma_witness_round_trip(w);
}

/// How a witness type is written on the command line.
pub open spec fn spec_parse_witness_type(s: Seq<char>) -> Option<WitnessType> {
    if s == "utxo"@ {
        Some(WitnessType::UTxO)
    } else if s == "legacy-utxo"@ {
        Some(WitnessType::OldUTxO)
    } else if s == "account"@ {
        Some(WitnessType::Account)
    } else {
        None
    }
}

impl WitnessType {
    /// Reads `utxo`, `legacy-utxo` or `account`.
    pub fn parse(s: &str) -> (r: Option<WitnessType>)
        ensures
            r == spec_parse_witness_type(s@),
    {
        let owned: String = s.to_owned();
        if owned == "utxo".to_owned() {
            Some(WitnessType::UTxO)
        } else if owned == "legacy-utxo".to_owned() {
            Some(WitnessType::OldUTxO)
        } else if owned == "account".to_owned() {
            Some(WitnessType::Account)
        } else {
            None
        }
    }
}

/// The error of `WitnessType::from_str`.
pub const INVALID_WITNESS_TYPE: &'static str =
    "Invalid witness type, expected `utxo', `legacy-utxo' or `account'";

impl std::str::FromStr for WitnessType {
    type Err = &'static str;

    fn from_str(s: &str) -> (r: Result<Self, Self::Err>)
        ensures
            match r {
                Ok(t) => spec_parse_witness_type(s@) == Some(t),
                Err(e) => spec_parse_witness_type(s@) is None && e@ == INVALID_WITNESS_TYPE@,
            },
    {
        match WitnessType::parse(s) {
            Some(t) => Ok(t),
            None => Err(INVALID_WITNESS_TYPE),
        }
    }
}

/// The value of an ASCII hexadecimal digit.
pub open spec fn hex_digit(c: u8) -> Option<u8> {
    if 48 <= c <= 57 {
        Some((c - 48) as u8)
    } else if 97 <= c <= 102 {
        Some((c - 87) as u8)
    } else if 65 <= c <= 70 {
        Some((c - 55) as u8)
    } else {
        None
    }
}

fn hex_digit_exec(c: u8) -> (r: Option<u8>)
    ensures
        r == hex_digit(c),
{
    if 48 <= c && c <= 57 {
        Some(c - 48)
    } else if 97 <= c && c <= 102 {
        Some(c - 87)
    } else if 65 <= c && c <= 70 {
        Some(c - 55)
    } else {
        None
    }
}

/// The 32-byte hash written as 64 hexadecimal digits in `text`, if it is one.
pub open spec fn hash_of_hex(text: Seq<u8>) -> Option<Seq<u8>> {
    if text.len() == 2 * HASH_LEN && forall|i: int| 0 <= i < text.len() ==> #[trigger] hex_digit(
        text[i],
    ) is Some {
        Some(
            Seq::new(
                HASH_LEN as nat,
                |i: int| (hex_digit(text[2 * i])->0 * 16 + hex_digit(text[2 * i + 1])->0) as u8,
            ),
        )
    } else {
        None
    }
}

/// Reads a hash (a chain identifier or a transaction digest) from its 64
/// hexadecimal digits.
pub fn decode_hash_hex(text: &Vec<u8>) -> (r: Option<Vec<u8>>)
    ensures
        match r {
            Some(b) => hash_of_hex(text@) == Some(b@) && b@.len() == HASH_LEN,
            None => hash_of_hex(text@) is None,
        },
{
    if text.len() != 2 * HASH_LEN {
        return None;
    }
    let mut out: Vec<u8> = Vec::new();
    let mut i: usize = 0;
    while i < HASH_LEN
        invariant
            text@.len() == 2 * HASH_LEN,
            i <= HASH_LEN,
            out@.len() == i,
            forall|j: int| 0 <= j < 2 * i ==> #[trigger] hex_digit(text@[j]) is Some,
            forall|j: int|
                0 <= j < i ==> #[trigger] out@[j] == (hex_digit(text@[2 * j])->0 * 16 + hex_digit(
                    text@[2 * j + 1],
                )->0) as u8,
        decreases HASH_LEN - i,
    {
        let hi = match hex_digit_exec(text[2 * i]) {
            Some(v) => v,
            None => return None,
        };
        let lo = match hex_digit_exec(text[2 * i + 1]) {
            Some(v) => v,
            None => return None,
        };
        assert(hi < 16 && lo < 16);
        out.push(hi * 16 + lo);
        i = i + 1;
    }
    assert(out@ =~= Seq::new(
        HASH_LEN as nat,
        |i: int| (hex_digit(text@[2 * i])->0 * 16 + hex_digit(text@[2 * i + 1])->0) as u8,
    ));
    Some(out)
}

} // verus!
