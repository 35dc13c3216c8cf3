use frame_metadata::v14::{
    ExtrinsicMetadata, PalletCallMetadata, PalletConstantMetadata, PalletMetadata,
    PalletStorageMetadata, RuntimeMetadataV14, SignedExtensionMetadata, StorageEntryMetadata,
    StorageEntryModifier, StorageEntryType, StorageHasher as TheirHasher,
};
use frame_metadata::RuntimeMetadataPrefixed;
use parity_scale_codec::{Compact, Encode};
use scale_info::build::{Fields, Variants};
use scale_info::{MetaType, Path, Type, TypeInfo};
use sp_runtime::{AccountId32, MultiAddress};
use substrate_wire::codec::{decode, decode_exact};
use substrate_wire::error::{BuildError, DecodeError, MetadataError};
use substrate_wire::extensions::{extension_kind, layout_of, ExtensionKind};
use substrate_wire::storage::{build, MapKey};
use substrate_wire::value::{TypeDescriptor, Value};
use substrate_wire::hasher::StorageHasher;
use substrate_wire::metadata::Metadata;
use substrate_wire::registry::{Primitive, TypeDef};

/// The calls of a balances pallet: `transfer` at 0, `set_balance` at 1 and,
/// after a gap, `transfer_all` at 4.
struct BalancesCall;

impl TypeInfo for BalancesCall {
    type Identity = Self;

    fn type_info() -> Type {
        Type::builder().path(Path::new("Call", "balances")).variant(
            Variants::new()
                .variant("transfer", |v| {
                    v.index(0).fields(
                        Fields::unnamed()
                            .field(|f| f.ty::<MultiAddress<AccountId32, ()>>())
                            .field(|f| f.compact::<u128>()),
                    )
                })
                .variant("set_balance", |v| {
                    v.index(1).fields(
                        Fields::named()
                            .field(|f| f.name("who").ty::<[u8; 32]>())
                            .field(|f| f.name("free").ty::<u128>()),
                    )
                })
                .variant("transfer_all", |v| {
                    v.index(4).fields(Fields::unnamed().field(|f| f.ty::<bool>()))
                }),
        )
    }
}

/// A runtime type, which stands for nothing but itself here.
struct Runtime;

impl TypeInfo for Runtime {
    type Identity = Self;

    fn type_info() -> Type {
        Type::builder().path(Path::new("Runtime", "test")).composite(Fields::unit())
    }
}

fn sample() -> RuntimeMetadataV14 {
    let system = PalletMetadata {
        name: "System",
        storage: Some(PalletStorageMetadata {
            prefix: "System",
            entries: vec![
                StorageEntryMetadata {
                    name: "Account",
                    modifier: StorageEntryModifier::Default,
                    ty: StorageEntryType::Map {
                        hashers: vec![TheirHasher::Blake2_128Concat],
                        key: MetaType::new::<[u8; 32]>(),
                        value: MetaType::new::<(u32, u128)>(),
                    },
                    default: vec![0, 0, 0],
                    docs: vec!["The accounts."],
                },
                StorageEntryMetadata {
                    name: "Number",
                    modifier: StorageEntryModifier::Optional,
                    ty: StorageEntryType::Plain(MetaType::new::<u32>()),
                    default: vec![],
                    docs: vec![],
                },
            ],
        }),
        calls: None,
        event: None,
        constants: vec![PalletConstantMetadata {
            name: "BlockHashCount",
            ty: MetaType::new::<u32>(),
            value: vec![0, 16, 0, 0],
            docs: vec!["How many hashes are kept."],
        }],
        error: None,
        index: 0,
    };
    let balances = PalletMetadata {
        name: "Balances",
        storage: Some(PalletStorageMetadata {
            prefix: "Balances",
            entries: vec![StorageEntryMetadata {
                name: "TotalIssuance",
                modifier: StorageEntryModifier::Default,
                ty: StorageEntryType::Plain(MetaType::new::<u128>()),
                default: vec![0; 16],
                docs: vec![],
            }],
        }),
        calls: Some(PalletCallMetadata { ty: MetaType::new::<BalancesCall>() }),
        event: None,
        constants: vec![],
        error: None,
        index: 5,
    };
    let xcm = PalletMetadata {
        name: "XcmPallet",
        storage: Some(PalletStorageMetadata {
            prefix: "XcmPallet",
            entries: vec![StorageEntryMetadata {
                name: "VersionNotifiers",
                modifier: StorageEntryModifier::Optional,
                ty: StorageEntryType::Map {
                    hashers: vec![TheirHasher::Twox64Concat, TheirHasher::Blake2_128Concat],
                    key: MetaType::new::<(u32, Vec<u8>)>(),
                    value: MetaType::new::<u64>(),
                },
                default: vec![0],
                docs: vec![],
            }],
        }),
        calls: None,
        event: None,
        constants: vec![],
        error: None,
        index: 99,
    };
    let extrinsic = ExtrinsicMetadata {
        ty: MetaType::new::<Vec<u8>>(),
        version: 4,
        signed_extensions: vec![
            SignedExtensionMetadata {
                identifier: "CheckSpecVersion",
                ty: MetaType::new::<()>(),
                additional_signed: MetaType::new::<u32>(),
            },
            SignedExtensionMetadata {
                identifier: "CheckNonce",
                ty: MetaType::new::<u32>(),
                additional_signed: MetaType::new::<()>(),
            },
        ],
    };
    RuntimeMetadataV14::new(vec![system, balances, xcm], extrinsic, MetaType::new::<Runtime>())
}

fn sample_bytes() -> Vec<u8> {
    RuntimeMetadataPrefixed::from(sample()).encode()
}

#[test]
fn parse_reads_what_the_metadata_crate_wrote() {
    let theirs = sample();
    let ours = Metadata::parse(&sample_bytes()).unwrap();

    assert_eq!(ours.types.len(), theirs.types.types.len());
    for (mine, other) in ours.types.iter().zip(theirs.types.types.iter()) {
        assert_eq!(mine.id, other.id);
    }

    assert_eq!(ours.pallets.len(), 3);
    assert_eq!(ours.pallets[0].name, b"System");
    assert_eq!(ours.pallets[0].index, 0);
    assert_eq!(ours.pallets[0].calls, None);
    assert_eq!(ours.pallets[0].events, None);
    assert_eq!(ours.pallets[0].errors, None);
    assert_eq!(ours.pallets[0].constants.len(), 1);
    assert_eq!(ours.pallets[0].constants[0].name, b"BlockHashCount");
    assert_eq!(ours.pallets[0].constants[0].ty, theirs.pallets[0].constants[0].ty.id);
    assert_eq!(ours.pallets[0].constants[0].value, vec![0, 16, 0, 0]);
    assert!(ours.pallets[1].constants.is_empty());
    assert_eq!(ours.pallets[0].prefix, b"System");
    assert_eq!(ours.pallets[0].storage.len(), 2);
    assert_eq!(ours.pallets[0].storage[0].name, b"Account");
    assert_eq!(ours.pallets[0].storage[0].hashers, vec![StorageHasher::Blake2_128Concat]);
    assert_eq!(ours.pallets[0].storage[1].name, b"Number");
    assert_eq!(ours.pallets[0].storage[1].hashers, vec![]);
    assert_eq!(ours.pallets[0].storage[1].key, None);

    assert_eq!(ours.pallets[1].name, b"Balances");
    assert_eq!(ours.pallets[1].index, 5);
    let their_calls = theirs.pallets[1].calls.as_ref().unwrap().ty.id;
    assert_eq!(ours.pallets[1].calls, Some(their_calls));

    assert_eq!(ours.pallets[2].name, b"XcmPallet");
    assert_eq!(ours.pallets[2].index, 99);
    match &theirs.pallets[2].storage.as_ref().unwrap().entries[0].ty {
        StorageEntryType::Map { key, value, .. } => {
            assert_eq!(ours.pallets[2].storage[0].key, Some(key.id));
            assert_eq!(ours.pallets[2].storage[0].value, value.id);
        }
        StorageEntryType::Plain(_) => panic!("a map"),
    }

    assert_eq!(ours.extrinsic_version, 4);
    assert_eq!(ours.extensions.len(), 2);
    assert_eq!(ours.extensions[0].identifier, b"CheckSpecVersion");
    assert_eq!(ours.extensions[0].ty, theirs.extrinsic.signed_extensions[0].ty.id);
    assert_eq!(
        ours.extensions[0].additional_signed,
        theirs.extrinsic.signed_extensions[0].additional_signed.id
    );
    assert_eq!(ours.extensions[1].identifier, b"CheckNonce");
}

#[test]
fn pallet_index_by_name() {
    let metadata = Metadata::parse(&sample_bytes()).unwrap();
    assert_eq!(metadata.pallet_index("System"), Ok(0));
    assert_eq!(metadata.pallet_index("Balances"), Ok(5));
    assert_eq!(metadata.pallet_index("XcmPallet"), Ok(99));
}

#[test]
fn unknown_pallet_is_not_found() {
    let metadata = Metadata::parse(&sample_bytes()).unwrap();
    assert_eq!(metadata.pallet_index("Treasury"), Err(MetadataError::NotFound));
    assert_eq!(metadata.pallet_index("balances"), Err(MetadataError::NotFound));
    assert_eq!(metadata.pallet_index(""), Err(MetadataError::NotFound));
    assert_eq!(metadata.call_index("Treasury", "spend"), Err(MetadataError::NotFound));
    assert_eq!(metadata.storage_hashers("Treasury", "Proposals"), Err(MetadataError::NotFound));
}

#[test]
fn call_index_is_the_declared_index_not_the_position() {
    let metadata = Metadata::parse(&sample_bytes()).unwrap();
    assert_eq!(metadata.call_index("Balances", "transfer"), Ok(0));
    assert_eq!(metadata.call_index("Balances", "set_balance"), Ok(1));
    assert_eq!(metadata.call_index("Balances", "transfer_all"), Ok(4));
    assert_eq!(metadata.call_index("Balances", "burn"), Err(MetadataError::NotFound));
    // a pallet without calls
    assert_eq!(metadata.call_index("System", "remark"), Err(MetadataError::NotFound));
}

#[test]
fn storage_hashers_by_pallet_and_item() {
    let metadata = Metadata::parse(&sample_bytes()).unwrap();
    assert_eq!(
        metadata.storage_hashers("System", "Account"),
        Ok(vec![StorageHasher::Blake2_128Concat])
    );
    assert_eq!(metadata.storage_hashers("System", "Number"), Ok(vec![]));
    assert_eq!(metadata.storage_hashers("Balances", "TotalIssuance"), Ok(vec![]));
    assert_eq!(
        metadata.storage_hashers("XcmPallet", "VersionNotifiers"),
        Ok(vec![StorageHasher::Twox64Concat, StorageHasher::Blake2_128Concat])
    );
    assert_eq!(metadata.storage_hashers("System", "Events"), Err(MetadataError::NotFound));
}

#[test]
fn resolve_type_follows_the_registry() {
    let theirs = sample();
    let metadata = Metadata::parse(&sample_bytes()).unwrap();
    let calls = metadata.pallets[1].calls.unwrap();
    match metadata.resolve_type(calls).unwrap() {
        TypeDef::Variant(variants) => {
            assert_eq!(variants.len(), 3);
            assert_eq!(variants[0].name, b"transfer");
            assert_eq!(variants[0].index, 0);
            assert_eq!(variants[0].fields.len(), 2);
            assert_eq!(variants[2].name, b"transfer_all");
            assert_eq!(variants[2].index, 4);
            // the first argument of `transfer` is an address: an enum of five variants
            match metadata.resolve_type(variants[0].fields[0]).unwrap() {
                TypeDef::Variant(kinds) => {
                    assert_eq!(kinds.len(), 5);
                    assert_eq!(kinds[0].name, b"Id");
                    assert_eq!(kinds[4].name, b"Address20");
                }
                other => panic!("an enum, not {:?}", other),
            }
            // the first argument of `set_balance` is an array of 32 bytes
            match metadata.resolve_type(variants[1].fields[0]).unwrap() {
                TypeDef::Array(len, elem) => {
                    assert_eq!(*len, 32);
                    match metadata.resolve_type(*elem).unwrap() {
                        TypeDef::Primitive(p) => assert_eq!(*p, Primitive::U8),
                        other => panic!("a primitive, not {:?}", other),
                    }
                }
                other => panic!("an array, not {:?}", other),
            }
            // the second is a compact 128-bit integer
            match metadata.resolve_type(variants[0].fields[1]).unwrap() {
                TypeDef::Compact(inner) => match metadata.resolve_type(*inner).unwrap() {
                    TypeDef::Primitive(p) => assert_eq!(*p, Primitive::U128),
                    other => panic!("a primitive, not {:?}", other),
                },
                other => panic!("a compact, not {:?}", other),
            }
        }
        other => panic!("an enum, not {:?}", other),
    }
    // the value of System.Account is a tuple
    match metadata.resolve_type(metadata.pallets[0].storage[0].value).unwrap() {
        TypeDef::Tuple(members) => assert_eq!(members.len(), 2),
        other => panic!("a tuple, not {:?}", other),
    }
    // the key of the version notifiers holds a byte sequence
    let key = metadata.pallets[2].storage[0].key.unwrap();
    match metadata.resolve_type(key).unwrap() {
        TypeDef::Tuple(members) => match metadata.resolve_type(members[1]).unwrap() {
            TypeDef::Sequence(_) => {}
            other => panic!("a sequence, not {:?}", other),
        },
        other => panic!("a tuple, not {:?}", other),
    }
    let beyond = theirs.types.types.len() as u32;
    assert!(matches!(metadata.resolve_type(beyond), Err(MetadataError::NotFound)));
    assert!(matches!(metadata.resolve_type(u32::MAX), Err(MetadataError::NotFound)));
}

#[test]
fn other_versions_are_unsupported() {
    let mut bytes = sample_bytes();
    assert_eq!(bytes[4], 14);
    for version in [0u8, 13, 15, 16, 200, 255] {
        bytes[4] = version;
        assert!(matches!(
            Metadata::parse(&bytes),
            Err(MetadataError::UnsupportedVersion(v)) if v == version
        ));
    }
    // the version is told before anything of the body is read
    assert!(matches!(
        Metadata::parse(&[0x6d, 0x65, 0x74, 0x61, 15]),
        Err(MetadataError::UnsupportedVersion(15))
    ));
}

#[test]
fn truncated_metadata_is_a_decode_error() {
    let bytes = sample_bytes();
    assert!(matches!(
        Metadata::parse(&[]),
        Err(MetadataError::Decode(DecodeError::UnexpectedEnd))
    ));
    assert!(matches!(
        Metadata::parse(&bytes[..4]),
        Err(MetadataError::Decode(DecodeError::UnexpectedEnd))
    ));
    assert!(matches!(
        Metadata::parse(&bytes[..5]),
        Err(MetadataError::Decode(DecodeError::UnexpectedEnd))
    ));
    for cut in [6, 20, bytes.len() / 2, bytes.len() - 1] {
        assert!(matches!(
            Metadata::parse(&bytes[..cut]),
            Err(MetadataError::Decode(DecodeError::UnexpectedEnd))
        ));
    }
}

#[test]
fn bytes_after_the_metadata_are_left_unread() {
    let mut bytes = sample_bytes();
    bytes.extend_from_slice(&[1, 2, 3]);
    let metadata = Metadata::parse(&bytes).unwrap();
    assert_eq!(metadata.pallets.len(), 3);
}

#[test]
fn metadata_without_pallets() {
    let extrinsic = ExtrinsicMetadata {
        ty: MetaType::new::<()>(),
        version: 4,
        signed_extensions: vec![],
    };
    let empty = RuntimeMetadataV14::new(vec![], extrinsic, MetaType::new::<Runtime>());
    let bytes = RuntimeMetadataPrefixed::from(empty).encode();
    let metadata = Metadata::parse(&bytes).unwrap();
    assert!(metadata.pallets.is_empty());
    assert!(metadata.extensions.is_empty());
    assert_eq!(metadata.pallet_index("System"), Err(MetadataError::NotFound));
}

#[test]
fn describe_follows_the_registry() {
    let metadata = Metadata::parse(&sample_bytes()).unwrap();
    // the value of System.Account: a 32-bit counter and a 128-bit balance
    let value = metadata.pallets[0].storage[0].value;
    let described = metadata.describe(value, 8).unwrap();
    assert_eq!(format!("{:?}", described), "Tuple([U32, U128])");
    let bytes = (7u32, 1000u128).encode();
    let (decoded, used) = decode(&described, &bytes).unwrap();
    assert_eq!(used, 20);
    assert_eq!(format!("{:?}", decoded), "Tuple([U32(7), U128(1000)])");

    // the key of the version notifiers: a 32-bit version and a byte sequence
    let key = metadata.pallets[2].storage[0].key.unwrap();
    assert_eq!(
        format!("{:?}", metadata.describe(key, 8).unwrap()),
        "Tuple([U32, Sequence(U8)])"
    );
    // an account is an array of bytes
    let account = metadata.pallets[0].storage[0].key.unwrap();
    assert_eq!(format!("{:?}", metadata.describe(account, 8).unwrap()), "Array(32)");
}

#[test]
fn describe_refuses_what_it_cannot_describe() {
    let metadata = Metadata::parse(&sample_bytes()).unwrap();
    assert!(matches!(metadata.describe(u32::MAX, 8), Err(MetadataError::NotFound)));
    let value = metadata.pallets[0].storage[0].value;
    // no depth, no description; a tuple of primitives needs two levels
    assert!(matches!(metadata.describe(value, 0), Err(MetadataError::Unsupported)));
    assert!(matches!(metadata.describe(value, 1), Err(MetadataError::Unsupported)));
    assert!(metadata.describe(value, 2).is_ok());
    assert!(matches!(
        metadata.check_key(value, &[0u8; 20], 1),
        Err(MetadataError::Unsupported)
    ));
}

#[test]
fn call_signature_from_metadata() {
    let metadata = Metadata::parse(&sample_bytes()).unwrap();
    let signature = metadata.call_signature("Balances", "transfer", 8).unwrap();
    assert_eq!(signature.pallet_index, 5);
    assert_eq!(signature.call_index, 0);
    // an address is an account, an index written in compact form (a unit
    // here), raw bytes, or 32 or 20 bytes
    assert_eq!(
        format!("{:?}", signature.arguments),
        "[Variant([Some([Tuple([Array(32)])]), Some([Tuple([])]), Some([Sequence(U8)]), \
         Some([Array(32)]), Some([Array(20)])]), Compact]"
    );
    let signature = metadata.call_signature("Balances", "set_balance", 8).unwrap();
    assert_eq!(signature.call_index, 1);
    assert_eq!(format!("{:?}", signature.arguments), "[Array(32), U128]");
    let signature = metadata.call_signature("Balances", "transfer_all", 8).unwrap();
    assert_eq!(signature.call_index, 4);
    assert_eq!(format!("{:?}", signature.arguments), "[Bool]");
    assert!(matches!(
        metadata.call_signature("Balances", "burn", 8),
        Err(MetadataError::NotFound)
    ));
    assert!(matches!(
        metadata.call_signature("Nowhere", "transfer", 8),
        Err(MetadataError::NotFound)
    ));
    assert!(matches!(
        metadata.call_signature("Balances", "transfer", 0),
        Err(MetadataError::Unsupported)
    ));
    // the address needs four levels: enum, account, array, byte
    assert!(matches!(
        metadata.call_signature("Balances", "transfer", 3),
        Err(MetadataError::Unsupported)
    ));
    assert!(metadata.call_signature("Balances", "transfer", 4).is_ok());
}

#[test]
fn compose_call_checks_arguments_against_the_metadata() {
    let metadata = Metadata::parse(&sample_bytes()).unwrap();
    let bob = [8u8; 32];
    let their_call = (
        5u8,
        0u8,
        MultiAddress::<AccountId32, ()>::Id(AccountId32::new(bob)),
        Compact(123456789012345u128),
    );

    // an account address as the metadata declares it: the account is wrapped
    let dest = Value::Variant(0, vec![Value::Tuple(vec![Value::Array(bob.to_vec())])]);
    let args = vec![dest, Value::Compact(123456789012345)];
    let call = metadata.compose_call("Balances", "transfer", args, 8).unwrap();
    assert_eq!(call.pallet_index, 5);
    assert_eq!(call.call_index, 0);
    assert_eq!(call.encode(), their_call.encode());

    // the same arguments, read from their bytes under the declared types
    let signature = metadata.call_signature("Balances", "transfer", 8).unwrap();
    let mut dest_bytes = vec![0u8];
    dest_bytes.extend_from_slice(&bob);
    let dest = decode_exact(&signature.arguments[0], &dest_bytes).unwrap();
    let amount =
        decode_exact(&signature.arguments[1], &Compact(123456789012345u128).encode()).unwrap();
    let call = metadata.compose_call("Balances", "transfer", vec![dest, amount], 8).unwrap();
    assert_eq!(call.encode(), their_call.encode());

    // an account that is not wrapped is not what the metadata declares
    let bare = vec![Value::Variant(0, vec![Value::Array(bob.to_vec())]), Value::Compact(1)];
    assert_eq!(
        metadata.compose_call("Balances", "transfer", bare, 8).unwrap_err(),
        BuildError::Encode
    );
    let wrong = vec![
        Value::Variant(0, vec![Value::Tuple(vec![Value::Array(bob.to_vec())])]),
        Value::U128(1),
    ];
    assert_eq!(
        metadata.compose_call("Balances", "transfer", wrong, 8).unwrap_err(),
        BuildError::Encode
    );
    let short = vec![
        Value::Variant(0, vec![Value::Tuple(vec![Value::Array(vec![8u8; 31])])]),
        Value::Compact(1),
    ];
    assert_eq!(
        metadata.compose_call("Balances", "transfer", short, 8).unwrap_err(),
        BuildError::Encode
    );
    assert_eq!(
        metadata.compose_call("Balances", "burn", vec![], 8).unwrap_err(),
        BuildError::Metadata(MetadataError::NotFound)
    );
    assert_eq!(
        metadata.compose_call("Treasury", "spend", vec![], 8).unwrap_err(),
        BuildError::Metadata(MetadataError::NotFound)
    );
}

#[test]
fn an_index_address_in_compact_form_is_a_unit() {
    let metadata = Metadata::parse(&sample_bytes()).unwrap();
    let signature = metadata.call_signature("Balances", "transfer", 8).unwrap();
    let theirs = MultiAddress::<AccountId32, ()>::Index(()).encode();
    assert_eq!(theirs, vec![0x01]);
    let value = decode_exact(&signature.arguments[0], &theirs).unwrap();
    assert_eq!(format!("{:?}", value), "Variant(1, [Tuple([])])");
    let raw = MultiAddress::<AccountId32, ()>::Raw(vec![1, 2, 3]).encode();
    let value = decode_exact(&signature.arguments[0], &raw).unwrap();
    assert_eq!(format!("{:?}", value), "Variant(2, [Sequence([U8(1), U8(2), U8(3)])])");
    assert_eq!(substrate_wire::codec::encode(&value), raw);
}

#[test]
fn storage_key_from_metadata() {
    let metadata = Metadata::parse(&sample_bytes()).unwrap();
    assert_eq!(
        metadata.storage_key("Balances", "TotalIssuance", &vec![], 8).unwrap(),
        build("Balances", "TotalIssuance", &vec![])
    );
    let account = vec![1u8; 32];
    assert_eq!(
        metadata.storage_key("System", "Account", &vec![account.clone()], 8).unwrap(),
        build(
            "System",
            "Account",
            &vec![MapKey { hasher: StorageHasher::Blake2_128Concat, key: account.clone() }]
        )
    );
    let first = vec![2u8, 0, 0, 0];
    let second = vec![1u8, 2, 3].encode();
    assert_eq!(
        metadata
            .storage_key("XcmPallet", "VersionNotifiers", &vec![first.clone(), second.clone()], 8)
            .unwrap(),
        build(
            "XcmPallet",
            "VersionNotifiers",
            &vec![
                MapKey { hasher: StorageHasher::Twox64Concat, key: first },
                MapKey { hasher: StorageHasher::Blake2_128Concat, key: second },
            ]
        )
    );
    assert_eq!(
        metadata.storage_key("System", "Nothing", &vec![], 8),
        Err(MetadataError::NotFound)
    );
    assert_eq!(
        metadata.storage_key("Nothing", "Account", &vec![], 8),
        Err(MetadataError::NotFound)
    );
}

#[test]
fn storage_key_takes_as_many_keys_as_the_map_has() {
    let metadata = Metadata::parse(&sample_bytes()).unwrap();
    let account = vec![1u8; 32];
    assert_eq!(
        metadata.storage_key("System", "Account", &vec![], 8),
        Err(MetadataError::Unsupported)
    );
    assert_eq!(
        metadata.storage_key("System", "Account", &vec![account.clone(), account.clone()], 8),
        Err(MetadataError::Unsupported)
    );
    assert_eq!(
        metadata.storage_key("Balances", "TotalIssuance", &vec![account.clone()], 8),
        Err(MetadataError::Unsupported)
    );
    assert_eq!(
        metadata.storage_key(
            "XcmPallet",
            "VersionNotifiers",
            &vec![vec![2, 0, 0, 0], vec![0], vec![0]],
            8
        ),
        Err(MetadataError::Unsupported)
    );
}

#[test]
fn storage_key_refuses_a_key_of_the_wrong_length() {
    let metadata = Metadata::parse(&sample_bytes()).unwrap();
    // an account is 32 bytes, no fewer and no more
    assert_eq!(
        metadata.storage_key("System", "Account", &vec![vec![1u8; 31]], 8),
        Err(MetadataError::Decode(DecodeError::UnexpectedEnd))
    );
    assert_eq!(
        metadata.storage_key("System", "Account", &vec![vec![1u8; 33]], 8),
        Err(MetadataError::Decode(DecodeError::TrailingBytes))
    );
    // a version is 32 bits; the first key that does not fit is reported
    assert_eq!(
        metadata.storage_key(
            "XcmPallet",
            "VersionNotifiers",
            &vec![vec![2, 0, 0], vec![0xff]],
            8
        ),
        Err(MetadataError::Decode(DecodeError::UnexpectedEnd))
    );
    // a byte sequence carries its length
    assert_eq!(
        metadata.storage_key(
            "XcmPallet",
            "VersionNotifiers",
            &vec![vec![2, 0, 0, 0], vec![0x0c, 1, 2]],
            8
        ),
        Err(MetadataError::Decode(DecodeError::UnexpectedEnd))
    );
    // without the depth to describe the key type the key cannot be checked
    assert_eq!(
        metadata.storage_key("System", "Account", &vec![vec![1u8; 32]], 1),
        Err(MetadataError::Unsupported)
    );
    assert_eq!(metadata.check_key(metadata.pallets[0].storage[0].key.unwrap(), &[1u8; 32], 8), Ok(()));
}

#[test]
fn layout_from_declared_extensions() {
    let metadata = Metadata::parse(&sample_bytes()).unwrap();
    assert_eq!(
        layout_of(&metadata.extensions),
        Ok(vec![ExtensionKind::SpecVersion, ExtensionKind::Nonce])
    );
    assert_eq!(extension_kind(b"CheckNonZeroSender"), Some(ExtensionKind::Check));
    assert_eq!(extension_kind(b"CheckSpecVersion"), Some(ExtensionKind::SpecVersion));
    assert_eq!(extension_kind(b"CheckTxVersion"), Some(ExtensionKind::TransactionVersion));
    assert_eq!(extension_kind(b"CheckGenesis"), Some(ExtensionKind::Genesis));
    assert_eq!(extension_kind(b"CheckMortality"), Some(ExtensionKind::Mortality));
    assert_eq!(extension_kind(b"CheckEra"), Some(ExtensionKind::Mortality));
    assert_eq!(extension_kind(b"CheckNonce"), Some(ExtensionKind::Nonce));
    assert_eq!(extension_kind(b"CheckWeight"), Some(ExtensionKind::Check));
    assert_eq!(extension_kind(b"ChargeTransactionPayment"), Some(ExtensionKind::Payment));
    assert_eq!(extension_kind(b"PrevalidateAttests"), Some(ExtensionKind::Check));
    assert_eq!(extension_kind(b"CheckMetadataHash"), Some(ExtensionKind::MetadataHash));
    assert_eq!(extension_kind(b"ChargeAssetTxPayment"), None);
    assert_eq!(extension_kind(b""), None);
    assert_eq!(extension_kind(b"checknonce"), None);
}

#[test]
fn an_unknown_extension_is_refused() {
    let extrinsic = ExtrinsicMetadata {
        ty: MetaType::new::<()>(),
        version: 4,
        signed_extensions: vec![
            SignedExtensionMetadata {
                identifier: "CheckNonce",
                ty: MetaType::new::<u32>(),
                additional_signed: MetaType::new::<()>(),
            },
            SignedExtensionMetadata {
                identifier: "SomethingNew",
                ty: MetaType::new::<u32>(),
                additional_signed: MetaType::new::<()>(),
            },
        ],
    };
    let runtime = RuntimeMetadataV14::new(vec![], extrinsic, MetaType::new::<Runtime>());
    let bytes = RuntimeMetadataPrefixed::from(runtime).encode();
    let metadata = Metadata::parse(&bytes).unwrap();
    assert_eq!(
        layout_of(&metadata.extensions),
        Err(BuildError::Metadata(MetadataError::Unsupported))
    );
}

/// Metadata written by hand: no types, one pallet, no extensions.
fn by_hand(calls: Option<u32>, storage_value: Option<u32>) -> Vec<u8> {
    let no_types = Vec::<u8>::new();
    let entries: Vec<(Vec<u8>, u8, (u8, Compact<u32>), Vec<u8>, Vec<Vec<u8>>)> = storage_value
        .into_iter()
        .map(|value| (b"Item".to_vec(), 0u8, (0u8, Compact(value)), Vec::new(), Vec::new()))
        .collect();
    let storage = if entries.is_empty() { None } else { Some((b"P".to_vec(), entries)) };
    let pallet = (
        b"P".to_vec(),
        storage,
        calls.map(|id| (Compact(id),)),
        None::<(Compact<u32>,)>,
        Vec::<u8>::new(),
        None::<(Compact<u32>,)>,
        3u8,
    );
    let extrinsic = (Compact(0u32), 4u8, Vec::<u8>::new());
    (0x6174656du32, 14u8, no_types, vec![pallet], extrinsic, Compact(0u32)).encode()
}

#[test]
fn a_pallet_may_not_refer_to_a_type_that_the_registry_lacks() {
    let sound = Metadata::parse(&by_hand(None, None)).unwrap();
    assert!(sound.is_well_formed());
    assert_eq!(sound.pallet_index("P"), Ok(3));
    assert!(matches!(Metadata::parse(&by_hand(Some(5), None)), Err(MetadataError::NotFound)));
    assert!(matches!(Metadata::parse(&by_hand(None, Some(0))), Err(MetadataError::NotFound)));
    // what the metadata crate writes is well formed
    assert!(Metadata::parse(&sample_bytes()).unwrap().is_well_formed());
}

#[test]
fn a_type_id_beyond_32_bits_is_out_of_range() {
    let no_types = Vec::<u8>::new();
    let pallet = (
        b"P".to_vec(),
        None::<u8>,
        Some((Compact(1u64 << 32),)),
        None::<(Compact<u32>,)>,
        Vec::<u8>::new(),
        None::<(Compact<u32>,)>,
        3u8,
    );
    let extrinsic = (Compact(0u32), 4u8, Vec::<u8>::new());
    let bytes = (0x6174656du32, 14u8, no_types, vec![pallet], extrinsic, Compact(0u32)).encode();
    assert!(matches!(
        Metadata::parse(&bytes),
        Err(MetadataError::Decode(DecodeError::OutOfRange))
    ));
}

#[test]
fn an_enum_is_described_by_the_indices_of_its_variants() {
    let metadata = Metadata::parse(&sample_bytes()).unwrap();
    // the calls of the balances pallet: indices 0, 1 and 4
    let calls = metadata.pallets[1].calls.unwrap();
    let described = metadata.describe(calls, 8).unwrap();
    match &described {
        TypeDescriptor::Variant(table) => {
            assert_eq!(table.len(), 5);
            assert!(table[0].is_some());
            assert!(table[1].is_some());
            assert!(table[2].is_none());
            assert!(table[3].is_none());
            assert_eq!(format!("{:?}", table[4]), "Some([Bool])");
        }
        other => panic!("an enum, not {:?}", other),
    }
    // `transfer_all(true)` is read back, a call at a gap is refused
    let (value, used) = decode(&described, &[4, 1]).unwrap();
    assert_eq!(used, 2);
    assert_eq!(format!("{:?}", value), "Variant(4, [Bool(true)])");
    assert_eq!(decode(&described, &[2, 1]).unwrap_err(), DecodeError::InvalidVariantTag);
    assert_eq!(decode(&described, &[5, 1]).unwrap_err(), DecodeError::InvalidVariantTag);
}
