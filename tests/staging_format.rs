use jcli_lib::{CertificateKind, CommonTransaction, Input, Output, StagingError, TransactionDraft};

fn common() -> CommonTransaction {
    CommonTransaction { staging_file: Some("staging.tx".to_string()) }
}

#[test]
fn store_then_load_gives_the_draft_back() {
    let d = TransactionDraft {
        inputs: vec![Input { source: vec![1, 2, 3], value: 70 }, Input { source: vec![], value: u64::MAX }],
        outputs: vec![Output { address: vec![9; 40], value: 0x0102030405060708 }],
        certificate: Some(CertificateKind::VoteCast),
    };
    let bytes = common().store(&d).unwrap();
    let back = common().load(&bytes).unwrap();
    assert_eq!(back.inputs.len(), 2);
    assert_eq!(back.inputs[0].source, vec![1, 2, 3]);
    assert_eq!(back.inputs[0].value, 70);
    assert_eq!(back.inputs[1].source, Vec::<u8>::new());
    assert_eq!(back.inputs[1].value, u64::MAX);
    assert_eq!(back.outputs.len(), 1);
    assert_eq!(back.outputs[0].address, vec![9; 40]);
    assert_eq!(back.outputs[0].value, 0x0102030405060708);
    assert_eq!(back.certificate, Some(CertificateKind::VoteCast));
}

#[test]
fn stored_layout() {
    let d = TransactionDraft {
        inputs: vec![Input { source: vec![7], value: 1 }],
        outputs: vec![],
        certificate: None,
    };
    let bytes = common().store(&d).unwrap();
    assert_eq!(bytes, vec![0, 0, 0, 0, 1, 0, 0, 0, 1, 7, 0, 0, 0, 0, 0, 0, 0, 1, 0, 0, 0, 0]);
}

#[test]
fn malformed_staging_is_refused() {
    for bad in [vec![], vec![0], vec![9, 0, 0, 0, 0, 0, 0, 0, 0], vec![0, 0, 0, 0, 0, 0, 0, 0, 0, 1], vec![0, 0, 0, 0, 1, 0, 0, 0, 5, 1]] {
        match common().load(&bad) {
            Err(StagingError::Malformed { path }) => assert_eq!(path, Some("staging.tx".to_string())),
            _ => panic!("expected a malformed staging error"),
        }
    }
    assert!(common().load(&vec![0, 0, 0, 0, 0, 0, 0, 0, 0]).is_ok());
}
