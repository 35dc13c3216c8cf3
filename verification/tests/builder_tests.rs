use sp_core::crypto::Pair as _;
use sp_core::sr25519::{Pair, Public, Signature};
use substrate_wire::builder::{compose, gather, sign_or_leave, step, Action, ChainData, Event, Intent, Stage};
use substrate_wire::era::Era;
use substrate_wire::error::BuildError;
use substrate_wire::extensions::{standard_layout, AdditionalSigned, ExtensionKind, ExtraData};
use substrate_wire::extrinsic::{
    build_signing_payload, signed_extrinsic, signing_input, unsigned_extrinsic, UnsignedCall,
};
use substrate_wire::signer::{public_key, verify, Account};
use substrate_wire::value::Value;

fn transfer() -> UnsignedCall {
    UnsignedCall {
        pallet_index: 5,
        call_index: 0,
        args: vec![
            Value::Variant(0, vec![Value::Array(public_key(Account::Bob).to_vec())]),
            Value::Compact(123456789012345),
        ],
    }
}

fn intent(era: Era, signer: Option<&str>) -> Intent {
    Intent {
        call: transfer(),
        era,
        tip: 500000000000000,
        signer: signer.map(|s| s.to_string()),
        layout: standard_layout(),
    }
}

fn fetched() -> ChainData {
    ChainData {
        nonce: Some(3),
        spec_version: Some(9110),
        transaction_version: Some(8),
        genesis_hash: Some([0x11; 32]),
        checkpoint_hash: Some([0x22; 32]),
    }
}

#[test]
fn a_signed_transfer_goes_through_every_stage() {
    let (stage, action) = compose(intent(Era::Immortal, Some("Alice")));
    assert_eq!(action, Action::Fetch);
    assert!(matches!(stage, Stage::Composing { .. }));

    let (stage, action) = step(stage, Event::Fetched(fetched())).unwrap();
    assert_eq!(action, Action::Continue);
    let (extra, additional) = match &stage {
        Stage::AdditionalDataGathered { extra, additional, signer, call, layout } => {
            assert_eq!(*layout, standard_layout());
            assert_eq!(extra.nonce, 3);
            assert_eq!(extra.tip, 500000000000000);
            assert_eq!(extra.era, Era::Immortal);
            assert_eq!(additional.spec_version, 9110);
            assert_eq!(additional.transaction_version, 8);
            assert_eq!(additional.genesis_hash, [0x11; 32]);
            // an immortal transaction is checked against the genesis block
            assert_eq!(additional.checkpoint_hash, [0x11; 32]);
            assert_eq!(signer.as_deref(), Some("Alice"));
            assert_eq!(call.encode(), transfer().encode());
            (*extra, *additional)
        }
        other => panic!("data gathered, not {:?}", other),
    };

    let (stage, action) = step(stage, Event::Proceed).unwrap();
    assert_eq!(action, Action::Continue);
    let signature = match &stage {
        Stage::Signed { call, signature, layout } => {
            assert_eq!(*layout, standard_layout());
            assert_eq!(call.encode(), transfer().encode());
            assert_eq!(signature.signer, public_key(Account::Alice));
            assert_eq!(signature.extra.nonce, 3);
            // the signature is over the payload of call, extra and additional data
            let message = signing_input(build_signing_payload(
                &transfer(),
                &extra,
                &additional,
                &standard_layout(),
            ));
            let key = Public::from_raw(signature.signer);
            assert!(Pair::verify(&Signature::from_raw(signature.signature), &message[..], &key));
            assert!(verify(&signature.signer, &message, &signature.signature));
            *signature
        }
        other => panic!("signed, not {:?}", other),
    };

    let (stage, action) = step(stage, Event::Proceed).unwrap();
    assert_eq!(action, Action::Submit);
    match &stage {
        Stage::Encoded { bytes } => {
            assert_eq!(*bytes, signed_extrinsic(&signature, &transfer(), &standard_layout()));
        }
        other => panic!("encoded, not {:?}", other),
    }

    let (stage, action) = step(stage, Event::Handed { accepted: true }).unwrap();
    assert_eq!(action, Action::Finish);
    assert!(matches!(stage, Stage::Submitted));
}

#[test]
fn an_unsigned_call_skips_the_signature() {
    let (stage, _) = compose(intent(Era::Immortal, None));
    let (stage, _) = step(stage, Event::Fetched(fetched())).unwrap();
    let (stage, action) = step(stage, Event::Proceed).unwrap();
    assert_eq!(action, Action::Continue);
    assert!(matches!(stage, Stage::Unsigned { .. }));
    let (stage, action) = step(stage, Event::Proceed).unwrap();
    assert_eq!(action, Action::Submit);
    match &stage {
        Stage::Encoded { bytes } => assert_eq!(*bytes, unsigned_extrinsic(&transfer())),
        other => panic!("encoded, not {:?}", other),
    }
    // a refusal by the node ends the attempt as well
    let (stage, action) = step(stage, Event::Handed { accepted: false }).unwrap();
    assert_eq!(action, Action::Finish);
    assert!(matches!(stage, Stage::Submitted));
}

#[test]
fn a_mortal_transaction_is_checked_against_its_checkpoint() {
    let era = Era::Mortal { period: 64, phase: 42 };
    match gather(intent(era, Some("Alice")), fetched()).unwrap() {
        Stage::AdditionalDataGathered { extra, additional, .. } => {
            assert_eq!(extra.era, era);
            assert_eq!(additional.genesis_hash, [0x11; 32]);
            assert_eq!(additional.checkpoint_hash, [0x22; 32]);
        }
        other => panic!("data gathered, not {:?}", other),
    }
}

#[test]
fn a_failed_fetch_is_a_missing_dependency() {
    let cases = [
        ChainData { nonce: None, ..fetched() },
        ChainData { spec_version: None, ..fetched() },
        ChainData { transaction_version: None, ..fetched() },
        ChainData { genesis_hash: None, ..fetched() },
    ];
    for data in cases {
        let (stage, _) = compose(intent(Era::Immortal, Some("Alice")));
        assert_eq!(
            step(stage, Event::Fetched(data)).unwrap_err(),
            BuildError::DependencyUnavailable
        );
    }
    // the checkpoint is only needed for a mortal transaction
    let no_checkpoint = ChainData { checkpoint_hash: None, ..fetched() };
    assert!(gather(intent(Era::Immortal, None), no_checkpoint).is_ok());
    assert_eq!(
        gather(intent(Era::Mortal { period: 64, phase: 0 }, None), no_checkpoint).unwrap_err(),
        BuildError::DependencyUnavailable
    );
}

#[test]
fn a_malformed_era_cannot_be_encoded() {
    let era = Era::Mortal { period: 100, phase: 0 };
    assert_eq!(gather(intent(era, None), fetched()).unwrap_err(), BuildError::Encode);
    // nor can a stage that was put together by hand around one
    let extra = ExtraData { era, nonce: 0, tip: 0 };
    let additional = AdditionalSigned {
        spec_version: 1,
        transaction_version: 1,
        genesis_hash: [0; 32],
        checkpoint_hash: [0; 32],
    };
    let stage = Stage::AdditionalDataGathered {
        call: transfer(),
        extra,
        additional,
        signer: None,
        layout: standard_layout(),
    };
    assert_eq!(step(stage, Event::Proceed).unwrap_err(), BuildError::Encode);
}

#[test]
fn an_unknown_signer_has_no_key() {
    let (stage, _) = compose(intent(Era::Immortal, Some("Mallory")));
    let (stage, _) = step(stage, Event::Fetched(fetched())).unwrap();
    assert_eq!(step(stage, Event::Proceed).unwrap_err(), BuildError::NoSigningKey);

    let extra = ExtraData { era: Era::Immortal, nonce: 0, tip: 0 };
    let additional = AdditionalSigned {
        spec_version: 1,
        transaction_version: 1,
        genesis_hash: [0; 32],
        checkpoint_hash: [0; 32],
    };
    assert_eq!(
        sign_or_leave(transfer(), extra, additional, Some("Nobody".to_string()), standard_layout())
            .unwrap_err(),
        BuildError::NoSigningKey
    );
    assert!(matches!(
        sign_or_leave(transfer(), extra, additional, None, standard_layout()),
        Ok(Stage::Unsigned { .. })
    ));
}

#[test]
fn events_out_of_turn_are_refused() {
    let (stage, _) = compose(intent(Era::Immortal, None));
    assert_eq!(step(stage, Event::Proceed).unwrap_err(), BuildError::UnexpectedEvent);

    let (stage, _) = compose(intent(Era::Immortal, None));
    assert_eq!(
        step(stage, Event::Handed { accepted: true }).unwrap_err(),
        BuildError::UnexpectedEvent
    );

    let (stage, _) = compose(intent(Era::Immortal, None));
    let (stage, _) = step(stage, Event::Fetched(fetched())).unwrap();
    assert_eq!(step(stage, Event::Fetched(fetched())).unwrap_err(), BuildError::UnexpectedEvent);

    assert_eq!(step(Stage::Submitted, Event::Proceed).unwrap_err(), BuildError::UnexpectedEvent);
    assert_eq!(
        step(Stage::Encoded { bytes: vec![] }, Event::Proceed).unwrap_err(),
        BuildError::UnexpectedEvent
    );
}

#[test]
fn a_long_call_is_signed_by_the_digest_of_its_payload() {
    let call = || UnsignedCall {
        pallet_index: 0,
        call_index: 1,
        args: vec![Value::Bytes(vec![0xab; 400])],
    };
    let extra = ExtraData { era: Era::Immortal, nonce: 1, tip: 0 };
    let additional = AdditionalSigned {
        spec_version: 1,
        transaction_version: 1,
        genesis_hash: [7; 32],
        checkpoint_hash: [7; 32],
    };
    match sign_or_leave(call(), extra, additional, Some("Bob".to_string()), standard_layout())
        .unwrap()
    {
        Stage::Signed { signature, .. } => {
            let payload = build_signing_payload(&call(), &extra, &additional, &standard_layout());
            assert!(payload.len() > 256);
            let digest = sp_crypto_hashing::blake2_256(&payload);
            let key = Public::from_raw(public_key(Account::Bob));
            let sig = Signature::from_raw(signature.signature);
            assert!(Pair::verify(&sig, &digest[..], &key));
            assert!(!Pair::verify(&sig, &payload[..], &key));
        }
        other => panic!("signed, not {:?}", other),
    }
}

#[test]
fn the_declared_extensions_shape_what_is_signed_and_sent() {
    // a runtime that only checks the nonce and the genesis block
    let layout = vec![ExtensionKind::Nonce, ExtensionKind::Genesis];
    let intent = Intent {
        call: transfer(),
        era: Era::Immortal,
        tip: 1,
        signer: Some("Alice".to_string()),
        layout: layout.clone(),
    };
    let (stage, _) = compose(intent);
    let (stage, _) = step(stage, Event::Fetched(fetched())).unwrap();
    let (stage, _) = step(stage, Event::Proceed).unwrap();
    let signature = match &stage {
        Stage::Signed { signature, .. } => *signature,
        other => panic!("signed, not {:?}", other),
    };
    // the signature covers call, nonce and genesis hash, and nothing else
    let mut message = transfer().encode();
    message.push(3 << 2);
    message.extend_from_slice(&[0x11; 32]);
    let key = Public::from_raw(public_key(Account::Alice));
    assert!(Pair::verify(&Signature::from_raw(signature.signature), &message[..], &key));

    let (stage, _) = step(stage, Event::Proceed).unwrap();
    match &stage {
        Stage::Encoded { bytes } => {
            assert_eq!(*bytes, signed_extrinsic(&signature, &transfer(), &layout));
            // version byte, address, signature, nonce, call
            let call = transfer().encode();
            assert_eq!(bytes.len(), 2 + 1 + 33 + 65 + 1 + call.len());
        }
        other => panic!("encoded, not {:?}", other),
    }
}
