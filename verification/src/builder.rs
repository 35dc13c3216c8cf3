//! The life of one extrinsic, stage by stage. The decisions are taken
//! here; fetching from the node and handing the result to it are left to
//! the caller, which performs the action that each step asks for and comes
//! back with the event.

use crate::era::Era;
use crate::error::BuildError;
use crate::extensions::{AdditionalSigned, ExtensionKind, ExtraData};
use crate::extrinsic::{
    build_signing_payload, envelope, signed_extrinsic, signing_input, signing_message,
    signing_payload, unsigned_extrinsic, SignaturePart, UnsignedCall,
};
use crate::signer::{
    account_named, keyring_public, named, public_key, sign, sr25519_verifies, Account,
};
use vstd::prelude::*;

verus! {

/// What the node answered to the fetches that a signature depends on;
/// `None` where a fetch failed.
#[derive(Clone, Copy, Debug)]
pub struct ChainData {
    pub nonce: Option<u32>,
    pub spec_version: Option<u32>,
    pub transaction_version: Option<u32>,
    pub genesis_hash: Option<[u8; 32]>,
    /// The hash of the block at which a mortal era starts.
    pub checkpoint_hash: Option<[u8; 32]>,
}

/// What the caller decides when it composes a transaction.
#[derive(Debug)]
pub struct Intent {
    pub call: UnsignedCall,
    pub era: Era,
    pub tip: u128,
    /// The name of the account that signs, or `None` for an unsigned
    /// extrinsic.
    pub signer: Option<String>,
    /// The signed extensions that the runtime declares, in declared order.
    pub layout: Vec<ExtensionKind>,
}

/// Where an extrinsic stands.
#[derive(Debug)]
pub enum Stage {
    Composing { intent: Intent },
    AdditionalDataGathered {
        call: UnsignedCall,
        extra: ExtraData,
        additional: AdditionalSigned,
        signer: Option<String>,
        layout: Vec<ExtensionKind>,
    },
    Signed { call: UnsignedCall, signature: SignaturePart, layout: Vec<ExtensionKind> },
    Unsigned { call: UnsignedCall },
    Encoded { bytes: Vec<u8> },
    Submitted,
}

/// What has happened outside since the last step.
#[derive(Clone, Copy, Debug)]
pub enum Event {
    /// The fetches have come back.
    Fetched(ChainData),
    /// Nothing was asked for; go on.
    Proceed,
    /// The node has taken or refused the extrinsic.
    Handed { accepted: bool },
}

/// What the caller has to do before the next step.
#[derive(Clone, Copy, Debug, PartialEq, Eq, Structural)]
pub enum Action {
    /// Fetch nonce, runtime version, genesis hash and, for a mortal era,
    /// the checkpoint hash; come back with `Event::Fetched`.
    Fetch,
    /// Nothing; come back with `Event::Proceed`.
    Continue,
    /// Hand the encoded bytes to the node; come back with `Event::Handed`.
    Submit,
    /// Nothing more: the builder is done with this extrinsic.
    Finish,
}

/// Whether all that the signature depends on has been fetched.
pub open spec fn complete(data: ChainData, era: Era) -> bool {
    &&& data.nonce is Some
    &&& data.spec_version is Some
    &&& data.transaction_version is Some
    &&& data.genesis_hash is Some
    &&& era != Era::Immortal ==> data.checkpoint_hash is Some
}

/// The data that travels with the call.
pub open spec fn extra_of(data: ChainData, era: Era, tip: u128) -> ExtraData {
    ExtraData { era, nonce: data.nonce->Some_0, tip }
}

/// The data that is only signed: the checkpoint of an immortal
/// transaction is the genesis block.
pub open spec fn additional_of(data: ChainData, era: Era) -> AdditionalSigned {
    AdditionalSigned {
        spec_version: data.spec_version->Some_0,
        transaction_version: data.transaction_version->Some_0,
        genesis_hash: data.genesis_hash->Some_0,
        checkpoint_hash: if era == Era::Immortal {
            data.genesis_hash->Some_0
        } else {
            data.checkpoint_hash->Some_0
        },
    }
}

/// The bytes of an optional name.
pub open spec fn name_of(signer: Option<String>) -> Option<Seq<u8>> {
    match signer {
        Some(name) => Some(vstd::utf8::encode_utf8(name@)),
        None => None,
    }
}

/// The first stage of an extrinsic, and the request to fetch what its
/// signature depends on.
pub fn compose(intent: Intent) -> (r: (Stage, Action))
    ensures
        r.0 == (Stage::Composing { intent }),
        r.1 == Action::Fetch,
{
    (Stage::Composing { intent }, Action::Fetch)
}

/// From what was composed and what was fetched to the data that is sent
/// and the data that is signed.
pub fn gather(intent: Intent, data: ChainData) -> (r: Result<Stage, BuildError>)
    ensures
        !complete(data, intent.era) ==> r == Err::<Stage, BuildError>(
            BuildError::DependencyUnavailable,
        ),
        complete(data, intent.era) && !intent.era.well_formed() ==> r == Err::<Stage, BuildError>(
            BuildError::Encode,
        ),
        complete(data, intent.era) && intent.era.well_formed() ==> r == Ok::<Stage, BuildError>(
            Stage::AdditionalDataGathered {
                call: intent.call,
                extra: extra_of(data, intent.era, intent.tip),
                additional: additional_of(data, intent.era),
                signer: intent.signer,
                layout: intent.layout,
            },
        ),
{
    let nonce: u32 = match data.nonce {
        Some(n) => n,
        None => {
            return Err(BuildError::DependencyUnavailable);
        },
    };
    let spec_version: u32 = match data.spec_version {
        Some(n) => n,
        None => {
            return Err(BuildError::DependencyUnavailable);
        },
    };
    let transaction_version: u32 = match data.transaction_version {
        Some(n) => n,
        None => {
            return Err(BuildError::DependencyUnavailable);
        },
    };
    let genesis_hash: [u8; 32] = match data.genesis_hash {
        Some(h) => h,
        None => {
            return Err(BuildError::DependencyUnavailable);
        },
    };
    let checkpoint_hash: [u8; 32] = if intent.era.is_immortal() {
        genesis_hash
    } else {
        match data.checkpoint_hash {
            Some(h) => h,
            None => {
                return Err(BuildError::DependencyUnavailable);
            },
        }
    };
    if !intent.era.is_well_formed() {
        return Err(BuildError::Encode);
    }
    Ok(
        Stage::AdditionalDataGathered {
            call: intent.call,
            extra: ExtraData { era: intent.era, nonce, tip: intent.tip },
            additional: AdditionalSigned {
                spec_version,
                transaction_version,
                genesis_hash,
                checkpoint_hash,
            },
            signer: intent.signer,
            layout: intent.layout,
        },
    )
}

/// The stage after signing, once the signer's key and the signature are
/// there: the call with its signature part.
pub fn attach_signature(
    call: UnsignedCall,
    extra: ExtraData,
    key: [u8; 32],
    signature: [u8; 64],
    layout: Vec<ExtensionKind>,
) -> (stage: Stage)
    ensures
        stage == (Stage::Signed {
            call,
            signature: SignaturePart { signer: key, signature, extra },
            layout,
        }),
{
    Stage::Signed { call, signature: SignaturePart { signer: key, signature, extra }, layout }
}

/// Whether `signature` is a good signature, under the key of `account`, of
/// what is signed for the call: the payload of call, data that travels and
/// data that is only signed, or the payload's digest where the payload is
/// longer than 256 bytes.
pub open spec fn signed_by(
    account: Account,
    call: UnsignedCall,
    extra: ExtraData,
    additional: AdditionalSigned,
    layout: Seq<ExtensionKind>,
    signature: [u8; 64],
) -> bool {
    sr25519_verifies(
        keyring_public(account),
        signing_message(signing_payload(call, extra, additional, layout)),
        signature,
    )
}

/// Signs what was gathered with the key of the named account, or leaves
/// the call unsigned where no account is named. A name that is no
/// account's has no key; a malformed era cannot be written.
pub fn sign_or_leave(
    call: UnsignedCall,
    extra: ExtraData,
    additional: AdditionalSigned,
    signer: Option<String>,
    layout: Vec<ExtensionKind>,
) -> (r: Result<Stage, BuildError>)
    ensures
        !extra.era.well_formed() ==> r == Err::<Stage, BuildError>(BuildError::Encode),
        extra.era.well_formed() ==> match name_of(signer) {
            None => r == Ok::<Stage, BuildError>(Stage::Unsigned { call }),
            Some(name) => match named(name) {
                None => r == Err::<Stage, BuildError>(BuildError::NoSigningKey),
                Some(account) => r matches Ok(Stage::Signed { call: c, signature, layout: l })
                    && c == call && signature.signer == keyring_public(account)
                    && signature.extra == extra && l == layout && signed_by(
                    account,
                    call,
                    extra,
                    additional,
                    layout@,
                    signature.signature,
                ),
            },
        },
{
    if !extra.era.is_well_formed() {
        return Err(BuildError::Encode);
    }
    match signer {
        None => Ok(Stage::Unsigned { call }),
        Some(name) => {
            let account = match account_named(name.as_str()) {
                Some(account) => account,
                None => {
                    return Err(BuildError::NoSigningKey);
                },
            };
            let key: [u8; 32] = public_key(account);
            let payload: Vec<u8> = build_signing_payload(&call, &extra, &additional, &layout);
            let message: Vec<u8> = signing_input(payload);
            let signature: [u8; 64] = sign(account, message.as_slice());
            Ok(attach_signature(call, extra, key, signature, layout))
        },
    }
}

/// Whether `stage` may stand where `event` arrives.
pub open spec fn expects(stage: Stage, event: Event) -> bool {
    match (stage, event) {
        (Stage::Composing { .. }, Event::Fetched(_)) => true,
        (Stage::AdditionalDataGathered { .. }, Event::Proceed) => true,
        (Stage::Signed { .. }, Event::Proceed) => true,
        (Stage::Unsigned { .. }, Event::Proceed) => true,
        (Stage::Encoded { .. }, Event::Handed { .. }) => true,
        _ => false,
    }
}

/// Whether every era that `stage` holds is well formed: the stages that
/// `step` makes are.
pub open spec fn sound(stage: Stage) -> bool {
    match stage {
        Stage::AdditionalDataGathered { extra, .. } => extra.era.well_formed(),
        Stage::Signed { signature, .. } => signature.extra.era.well_formed(),
        _ => true,
    }
}

/// One step of the builder: from the stage and what has happened to the
/// next stage and what to do, or to the error that ends this attempt. An
/// error leaves nothing behind: a new attempt starts from `compose`.
pub fn step(stage: Stage, event: Event) -> (r: Result<(Stage, Action), BuildError>)
    ensures
        !expects(stage, event) ==> r == Err::<(Stage, Action), BuildError>(
            BuildError::UnexpectedEvent,
        ),
        expects(stage, event) && !sound(stage) ==> r == Err::<(Stage, Action), BuildError>(
            BuildError::Encode,
        ),
        r matches Ok((next, _)) ==> sound(next),
        sound(stage) ==> match (stage, event) {
            (Stage::Composing { intent }, Event::Fetched(data)) => {
                &&& !complete(data, intent.era) ==> r == Err::<(Stage, Action), BuildError>(
                    BuildError::DependencyUnavailable,
                )
                &&& complete(data, intent.era) && !intent.era.well_formed() ==> r == Err::<
                    (Stage, Action),
                    BuildError,
                >(BuildError::Encode)
                &&& complete(data, intent.era) && intent.era.well_formed() ==> r == Ok::<
                    (Stage, Action),
                    BuildError,
                >(
                    (
                        Stage::AdditionalDataGathered {
                            call: intent.call,
                            extra: extra_of(data, intent.era, intent.tip),
                            additional: additional_of(data, intent.era),
                            signer: intent.signer,
                            layout: intent.layout,
                        },
                        Action::Continue,
                    ),
                )
            },
            (
                Stage::AdditionalDataGathered { call, extra, additional, signer, layout },
                Event::Proceed,
            ) => {
                match name_of(signer) {
                    None => r == Ok::<(Stage, Action), BuildError>(
                        (Stage::Unsigned { call }, Action::Continue),
                    ),
                    Some(name) => match named(name) {
                        None => r == Err::<(Stage, Action), BuildError>(BuildError::NoSigningKey),
                        Some(account) => r matches Ok(
                            (Stage::Signed { call: c, signature, layout: l }, a),
                        ) && c == call && signature.signer == keyring_public(account)
                            && signature.extra == extra && l == layout && a == Action::Continue
                            && signed_by(
                            account,
                            call,
                            extra,
                            additional,
                            layout@,
                            signature.signature,
                        ),
                    },
                }
            },
            (Stage::Signed { call, signature, layout }, Event::Proceed) => r matches Ok(
                (Stage::Encoded { bytes }, a),
            ) && bytes@ == envelope(Some(signature.bytes(layout@)), call.bytes()) && a
                == Action::Submit,
            (Stage::Unsigned { call }, Event::Proceed) => r matches Ok(
                (Stage::Encoded { bytes }, a),
            ) && bytes@ == envelope(None, call.bytes()) && a == Action::Submit,
            (Stage::Encoded { bytes }, Event::Handed { accepted }) => r == Ok::<
                (Stage, Action),
                BuildError,
            >((Stage::Submitted, Action::Finish)),
            _ => true,
        },
{
    match (stage, event) {
        (Stage::Composing { intent }, Event::Fetched(data)) => {
            match gather(intent, data) {
                Err(e) => Err(e),
                Ok(next) => Ok((next, Action::Continue)),
            }
        },
        (
            Stage::AdditionalDataGathered { call, extra, additional, signer, layout },
            Event::Proceed,
        ) => {
            match sign_or_leave(call, extra, additional, signer, layout) {
                Err(e) => Err(e),
                Ok(next) => Ok((next, Action::Continue)),
            }
        },
        (Stage::Signed { call, signature, layout }, Event::Proceed) => {
            if !signature.extra.era.is_well_formed() {
                return Err(BuildError::Encode);
            }
            let bytes: Vec<u8> = signed_extrinsic(&signature, &call, &layout);
            Ok((Stage::Encoded { bytes }, Action::Submit))
        },
        (Stage::Unsigned { call }, Event::Proceed) => {
            let bytes: Vec<u8> = unsigned_extrinsic(&call);
            Ok((Stage::Encoded { bytes }, Action::Submit))
        },
        (Stage::Encoded { bytes }, Event::Handed { accepted }) => Ok(
            (Stage::Submitted, Action::Finish),
        ),
        _ => Err(BuildError::UnexpectedEvent),
    }
}

} // verus!
