use bech32::{FromBase32, ToBase32};
use jcli_lib::WitnessDecodeError;
use jcli_lib::{signing_message, witness_kind, witness_to_text, MkWitnessError, Witness, WitnessKind, WitnessType};

fn chain_id() -> Vec<u8> {
    (0..32u8).collect()
}

fn digest() -> Vec<u8> {
    (100..132u8).collect()
}

#[test]
fn account_witness_without_counter_is_refused() {
    assert_eq!(witness_kind(WitnessType::Account, None), Err(MkWitnessError::AccountCounterMissing));
    assert_eq!(witness_kind(WitnessType::Account, Some(7)), Ok(WitnessKind::Account(7)));
    assert_eq!(witness_kind(WitnessType::UTxO, None), Ok(WitnessKind::Utxo));
    assert_eq!(witness_kind(WitnessType::OldUTxO, Some(3)), Ok(WitnessKind::LegacyUtxo));
}

#[test]
fn witness_type_parses_its_three_names() {
    assert_eq!("utxo".parse::<WitnessType>(), Ok(WitnessType::UTxO));
    assert_eq!("legacy-utxo".parse::<WitnessType>(), Ok(WitnessType::OldUTxO));
    assert_eq!("account".parse::<WitnessType>(), Ok(WitnessType::Account));
    assert!("Account".parse::<WitnessType>().is_err());
    assert_eq!(
        "UTxO".parse::<WitnessType>(),
        Err("Invalid witness type, expected `utxo', `legacy-utxo' or `account'")
    );
    assert_eq!(WitnessType::parse(""), None);
}

#[test]
fn messages_are_tagged_by_kind() {
    let u = signing_message(WitnessKind::Utxo, &chain_id(), &digest());
    let l = signing_message(WitnessKind::LegacyUtxo, &chain_id(), &digest());
    assert_eq!(u.len(), 65);
    assert_eq!(u[0], 1);
    assert_eq!(l[0], 0);
    assert_eq!(&u[1..33], &chain_id()[..]);
    assert_eq!(&u[33..65], &digest()[..]);
    assert_ne!(u, l);
    assert_eq!(&u[1..], &l[1..]);
}

#[test]
fn account_message_carries_counter_big_endian() {
    let a = signing_message(WitnessKind::Account(0x01020304), &chain_id(), &digest());
    assert_eq!(a.len(), 68);
    assert_eq!(&a[0..32], &chain_id()[..]);
    assert_eq!(&a[32..64], &digest()[..]);
    assert_eq!(&a[64..68], &[1, 2, 3, 4]);
    let b = signing_message(WitnessKind::Account(0x01020305), &chain_id(), &digest());
    assert_ne!(a, b);
    let u = signing_message(WitnessKind::Utxo, &chain_id(), &digest());
    assert_ne!(a.len(), u.len());
}

fn sample(kind: WitnessKind) -> Witness {
    let pk: Vec<u8> = vec![0x55; 32];
    let sig: Vec<u8> = (0..64u8).map(|i| i ^ 0xa5).collect();
    Witness::new(kind, &chain_id(), &pk, &sig)
}

#[test]
fn binary_round_trip_for_every_kind() {
    for kind in [WitnessKind::Utxo, WitnessKind::LegacyUtxo, WitnessKind::Account(u32::MAX)] {
        let w = sample(kind);
        let bytes = w.to_bytes();
        let back = Witness::from_bytes(&bytes).unwrap();
        assert_eq!(back.to_bytes(), bytes);
    }
}

#[test]
fn binary_layout_lengths_and_fields() {
    let u = sample(WitnessKind::Utxo).to_bytes();
    assert_eq!(u.len(), 97);
    assert_eq!(u[0], 1);
    let l = sample(WitnessKind::LegacyUtxo).to_bytes();
    assert_eq!(l.len(), 161);
    assert_eq!(l[0], 0);
    assert_eq!(&l[33..65], &[0x55; 32]);
    assert_eq!(&l[65..97], &[0u8; 32]);
    let a = sample(WitnessKind::Account(258)).to_bytes();
    assert_eq!(a.len(), 101);
    assert_eq!(&a[33..37], &[0, 0, 1, 2]);
}

#[test]
fn malformed_witness_bytes_are_refused() {
    assert!(Witness::from_bytes(&vec![]).is_none());
    let mut u = sample(WitnessKind::Utxo).to_bytes();
    u.pop();
    assert!(Witness::from_bytes(&u).is_none());
    let mut a = sample(WitnessKind::Account(1)).to_bytes();
    a[0] = 7;
    assert!(Witness::from_bytes(&a).is_none());
}

#[test]
fn text_form_is_bech32_of_the_bytes() {
    let w = sample(WitnessKind::Account(9));
    let text = witness_to_text(&w);
    assert!(text.starts_with("witness1"));
    let (hrp, data) = bech32::decode(&text).unwrap();
    assert_eq!(hrp, "witness");
    assert_eq!(Vec::<u8>::from_base32(&data).unwrap(), w.to_bytes());
}

#[test]
fn hash_hex_decoding() {
    let text = "000102030405060708090a0b0c0d0e0f101112131415161718191A1B1C1D1E1F";
    let h = jcli_lib::witness::decode_hash_hex(&text.as_bytes().to_vec()).unwrap();
    assert_eq!(h, chain_id());
    assert!(jcli_lib::witness::decode_hash_hex(&text.as_bytes()[1..].to_vec()).is_none());
    let bad = text.replace('f', "g");
    assert!(jcli_lib::witness::decode_hash_hex(&bad.as_bytes().to_vec()).is_none());
}

#[test]
fn text_round_trip_for_every_kind() {
    for kind in [WitnessKind::Utxo, WitnessKind::LegacyUtxo, WitnessKind::Account(42)] {
        let w = sample(kind);
        let back = jcli_lib::witness_from_text(&witness_to_text(&w)).unwrap();
        assert_eq!(back.to_bytes(), w.to_bytes());
    }
}

#[test]
fn text_decoding_errors() {
    let w = sample(WitnessKind::Utxo);
    let mut text = witness_to_text(&w);
    let last = text.pop().unwrap();
    text.push(if last == 'q' { 'p' } else { 'q' });
    assert_eq!(jcli_lib::witness_from_text(&text).err(), Some(WitnessDecodeError::InvalidText));
    let other = bech32::encode("address", w.to_bytes().to_base32()).unwrap();
    assert_eq!(jcli_lib::witness_from_text(&other).err(), Some(WitnessDecodeError::WrongPrefix));
    let short = bech32::encode("witness", vec![1u8, 2, 3].to_base32()).unwrap();
    assert_eq!(jcli_lib::witness_from_text(&short).err(), Some(WitnessDecodeError::InvalidWitness));
}
