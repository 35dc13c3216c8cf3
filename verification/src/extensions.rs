//! The signed extensions of the extrinsic format: what each puts into the
//! transaction, and what it only puts under the signature.

use crate::compact::{compact_bytes, push_compact};
use crate::era::Era;
use crate::error::{BuildError, MetadataError};
use crate::fixed::{le_bytes, lemma_pow256_values, push_le};
use crate::bytes::same_bytes;
use crate::metadata::{extension_models, ExtensionModel, SignedExtension};
use vstd::prelude::*;
use vstd::string::StringSliceAdditionalSpecFns;

verus! {

/// The signed extensions that stand in the transaction itself.
#[derive(Clone, Copy, Debug)]
pub struct ExtraData {
    pub era: Era,
    pub nonce: u32,
    pub tip: u128,
}

/// The signed extensions that are only signed, never sent.
#[derive(Clone, Copy, Debug)]
pub struct AdditionalSigned {
    pub spec_version: u32,
    pub transaction_version: u32,
    pub genesis_hash: [u8; 32],
    /// The hash of the block at which a mortal era starts; the genesis hash
    /// for an immortal transaction.
    pub checkpoint_hash: [u8; 32],
}

/// What a signed extension contributes.
#[derive(Clone, Copy, Debug, PartialEq, Eq, Structural)]
pub enum ExtensionKind {
    /// A check that sends nothing and signs nothing.
    Check,
    /// Signs the version of the runtime.
    SpecVersion,
    /// Signs the version of the transaction format.
    TransactionVersion,
    /// Signs the hash of the genesis block.
    Genesis,
    /// Sends the era and signs the hash of the block at which it starts.
    Mortality,
    /// Sends the nonce.
    Nonce,
    /// Sends the tip.
    Payment,
    /// Sends the mode of the metadata check, which is off, and signs the
    /// absence of a metadata hash.
    MetadataHash,
}

impl ExtensionKind {
    /// What the extension puts into the transaction.
    pub open spec fn sent(self, extra: ExtraData) -> Seq<u8> {
        match self {
            ExtensionKind::Mortality => extra.era.bytes(),
            ExtensionKind::Nonce => compact_bytes(extra.nonce as nat),
            ExtensionKind::Payment => compact_bytes(extra.tip as nat),
            ExtensionKind::MetadataHash => seq![0u8],
            _ => Seq::empty(),
        }
    }

    /// What the extension puts under the signature only.
    pub open spec fn signed_only(self, additional: AdditionalSigned) -> Seq<u8> {
        match self {
            ExtensionKind::SpecVersion => le_bytes(additional.spec_version as nat, 4),
            ExtensionKind::TransactionVersion => le_bytes(
                additional.transaction_version as nat,
                4,
            ),
            ExtensionKind::Genesis => additional.genesis_hash@,
            ExtensionKind::Mortality => additional.checkpoint_hash@,
            ExtensionKind::MetadataHash => seq![0u8],
            _ => Seq::empty(),
        }
    }
}

/// What the extensions of `layout` put into the transaction, in order.
pub open spec fn sent_bytes(layout: Seq<ExtensionKind>, extra: ExtraData) -> Seq<u8>
    decreases layout.len(),
{
    if layout.len() == 0 {
        Seq::empty()
    } else {
        sent_bytes(layout.drop_last(), extra) + layout.last().sent(extra)
    }
}

/// What the extensions of `layout` put under the signature only, in order.
pub open spec fn signed_only_bytes(layout: Seq<ExtensionKind>, additional: AdditionalSigned) -> Seq<
    u8,
>
    decreases layout.len(),
{
    if layout.len() == 0 {
        Seq::empty()
    } else {
        signed_only_bytes(layout.drop_last(), additional) + layout.last().signed_only(additional)
    }
}

/// The extensions of the runtimes that check versions, genesis, mortality,
/// nonce and weight, and charge a payment, in that order.
pub open spec fn standard() -> Seq<ExtensionKind> {
    seq![
        ExtensionKind::SpecVersion,
        ExtensionKind::TransactionVersion,
        ExtensionKind::Genesis,
        ExtensionKind::Mortality,
        ExtensionKind::Nonce,
        ExtensionKind::Check,
        ExtensionKind::Payment,
    ]
}

/// Under the standard extensions the transaction holds era, nonce and tip,
/// and the signature also covers the two versions and the two hashes.
pub proof fn lemma_standard_layout(extra: ExtraData, additional: AdditionalSigned)
    ensures
        sent_bytes(standard(), extra) == extra.era.bytes() + compact_bytes(extra.nonce as nat)
            + compact_bytes(extra.tip as nat),
        signed_only_bytes(standard(), additional) == le_bytes(additional.spec_version as nat, 4)
            + le_bytes(additional.transaction_version as nat, 4) + additional.genesis_hash@
            + additional.checkpoint_hash@,
{
    let l7 = standard();
    let l6 = l7.drop_last();
    let l5 = l6.drop_last();
    let l4 = l5.drop_last();
    let l3 = l4.drop_last();
    let l2 = l3.drop_last();
    let l1 = l2.drop_last();
    let l0 = l1.drop_last();
    assert(l0.len() == 0);
    assert(l1.last() == ExtensionKind::SpecVersion);
    assert(l2.last() == ExtensionKind::TransactionVersion);
    assert(l3.last() == ExtensionKind::Genesis);
    assert(l4.last() == ExtensionKind::Mortality);
    assert(l5.last() == ExtensionKind::Nonce);
    assert(l6.last() == ExtensionKind::Check);
    assert(l7.last() == ExtensionKind::Payment);
    assert(sent_bytes(l0, extra) =~= Seq::<u8>::empty());
    assert(signed_only_bytes(l0, additional) =~= Seq::<u8>::empty());
    assert(sent_bytes(l1, extra) =~= Seq::<u8>::empty());
    assert(sent_bytes(l2, extra) =~= Seq::<u8>::empty());
    assert(sent_bytes(l3, extra) =~= Seq::<u8>::empty());
    assert(sent_bytes(l4, extra) =~= extra.era.bytes());
    assert(sent_bytes(l5, extra) =~= extra.era.bytes() + compact_bytes(extra.nonce as nat));
    assert(sent_bytes(l6, extra) =~= extra.era.bytes() + compact_bytes(extra.nonce as nat));
    assert(sent_bytes(l7, extra) =~= extra.era.bytes() + compact_bytes(extra.nonce as nat)
        + compact_bytes(extra.tip as nat));
    let a1 = le_bytes(additional.spec_version as nat, 4);
    let a2 = a1 + le_bytes(additional.transaction_version as nat, 4);
    let a3 = a2 + additional.genesis_hash@;
    let a4 = a3 + additional.checkpoint_hash@;
    assert(signed_only_bytes(l1, additional) =~= a1);
    assert(signed_only_bytes(l2, additional) =~= a2);
    assert(signed_only_bytes(l3, additional) =~= a3);
    assert(signed_only_bytes(l4, additional) =~= a4);
    assert(signed_only_bytes(l5, additional) =~= a4);
    assert(signed_only_bytes(l6, additional) =~= a4);
    assert(signed_only_bytes(l7, additional) =~= a4);
}

/// What the extension with the given identifier contributes, where this
/// library knows the identifier.
pub open spec fn kind_of(identifier: Seq<u8>) -> Option<ExtensionKind> {
    if identifier == "CheckNonZeroSender".spec_bytes() {
        Some(ExtensionKind::Check)
    } else if identifier == "CheckSpecVersion".spec_bytes() {
        Some(ExtensionKind::SpecVersion)
    } else if identifier == "CheckTxVersion".spec_bytes() {
        Some(ExtensionKind::TransactionVersion)
    } else if identifier == "CheckGenesis".spec_bytes() {
        Some(ExtensionKind::Genesis)
    } else if identifier == "CheckMortality".spec_bytes() {
        Some(ExtensionKind::Mortality)
    } else if identifier == "CheckEra".spec_bytes() {
        Some(ExtensionKind::Mortality)
    } else if identifier == "CheckNonce".spec_bytes() {
        Some(ExtensionKind::Nonce)
    } else if identifier == "CheckWeight".spec_bytes() {
        Some(ExtensionKind::Check)
    } else if identifier == "ChargeTransactionPayment".spec_bytes() {
        Some(ExtensionKind::Payment)
    } else if identifier == "PrevalidateAttests".spec_bytes() {
        Some(ExtensionKind::Check)
    } else if identifier == "CheckMetadataHash".spec_bytes() {
        Some(ExtensionKind::MetadataHash)
    } else {
        None
    }
}

/// The kinds of the declared extensions, in declared order, where all are
/// known.
pub open spec fn layout_for(extensions: Seq<ExtensionModel>) -> Option<Seq<ExtensionKind>> {
    if forall|i: int|
        0 <= i < extensions.len() ==> kind_of((#[trigger] extensions[i]).identifier) is Some {
        Some(Seq::new(extensions.len(), |i: int| kind_of(extensions[i].identifier)->Some_0))
    } else {
        None
    }
}

/// What the extension with the given identifier contributes.
pub fn extension_kind(identifier: &[u8]) -> (r: Option<ExtensionKind>)
    ensures
        r == kind_of(identifier@),
{
    if same_bytes(identifier, "CheckNonZeroSender".as_bytes()) {
        Some(ExtensionKind::Check)
    } else if same_bytes(identifier, "CheckSpecVersion".as_bytes()) {
        Some(ExtensionKind::SpecVersion)
    } else if same_bytes(identifier, "CheckTxVersion".as_bytes()) {
        Some(ExtensionKind::TransactionVersion)
    } else if same_bytes(identifier, "CheckGenesis".as_bytes()) {
        Some(ExtensionKind::Genesis)
    } else if same_bytes(identifier, "CheckMortality".as_bytes()) {
        Some(ExtensionKind::Mortality)
    } else if same_bytes(identifier, "CheckEra".as_bytes()) {
        Some(ExtensionKind::Mortality)
    } else if same_bytes(identifier, "CheckNonce".as_bytes()) {
        Some(ExtensionKind::Nonce)
    } else if same_bytes(identifier, "CheckWeight".as_bytes()) {
        Some(ExtensionKind::Check)
    } else if same_bytes(identifier, "ChargeTransactionPayment".as_bytes()) {
        Some(ExtensionKind::Payment)
    } else if same_bytes(identifier, "PrevalidateAttests".as_bytes()) {
        Some(ExtensionKind::Check)
    } else if same_bytes(identifier, "CheckMetadataHash".as_bytes()) {
        Some(ExtensionKind::MetadataHash)
    } else {
        None
    }
}

/// The kinds of the extensions that the metadata declares, in declared
/// order; an extension that this library does not know is refused.
pub fn layout_of(extensions: &Vec<SignedExtension>) -> (r: Result<Vec<ExtensionKind>, BuildError>)
    ensures
        match layout_for(extension_models(extensions@)) {
            Some(layout) => r is Ok && r->Ok_0@ == layout,
            None => r == Err::<Vec<ExtensionKind>, BuildError>(
                BuildError::Metadata(MetadataError::Unsupported),
            ),
        },
{
    let ghost all = extension_models(extensions@);
    let n: usize = extensions.len();
    let mut out: Vec<ExtensionKind> = Vec::new();
    let mut i: usize = 0;
    while i < n
        invariant
            i <= n,
            n == extensions@.len(),
            all == extension_models(extensions@),
            out@.len() == i,
            forall|j: int| 0 <= j < i ==> kind_of((#[trigger] all[j]).identifier) == Some(out@[j]),
        decreases n - i,
    {
        assert(all[i as int] == extensions@[i as int]@);
        match extension_kind(extensions[i].identifier.as_slice()) {
            Some(kind) => {
                out.push(kind);
            },
            None => {
                return Err(BuildError::Metadata(MetadataError::Unsupported));
            },
        }
        i = i + 1;
    }
    assert(out@ =~= layout_for(all)->Some_0);
    Ok(out)
}

/// The standard extensions.
pub fn standard_layout() -> (layout: Vec<ExtensionKind>)
    ensures
        layout@ == standard(),
{
    let layout = vec![
        ExtensionKind::SpecVersion,
        ExtensionKind::TransactionVersion,
        ExtensionKind::Genesis,
        ExtensionKind::Mortality,
        ExtensionKind::Nonce,
        ExtensionKind::Check,
        ExtensionKind::Payment,
    ];
    assert(layout@ =~= standard());
    layout
}

impl ExtraData {
    /// The bytes that travel with the call under the given extensions.
    pub open spec fn bytes(self, layout: Seq<ExtensionKind>) -> Seq<u8> {
        sent_bytes(layout, self)
    }

    /// Appends the bytes that travel with the call.
    pub fn push_bytes(&self, layout: &Vec<ExtensionKind>, out: &mut Vec<u8>)
        requires
            self.era.well_formed(),
        ensures
            final(out)@ == old(out)@ + self.bytes(layout@),
    {
        let n: usize = layout.len();
        let mut i: usize = 0;
        assert(out@ =~= old(out)@ + sent_bytes(layout@.take(0), *self));
        while i < n
            invariant
                i <= n,
                n == layout@.len(),
                self.era.well_formed(),
                out@ == old(out)@ + sent_bytes(layout@.take(i as int), *self),
            decreases n - i,
        {
            let ghost before = out@;
            match layout[i] {
                ExtensionKind::Mortality => {
                    self.era.push_bytes(out);
                },
                ExtensionKind::Nonce => {
                    push_compact(out, self.nonce as u128);
                },
                ExtensionKind::Payment => {
                    push_compact(out, self.tip);
                },
                ExtensionKind::MetadataHash => {
                    out.push(0u8);
                    assert(out@ =~= before + seq![0u8]);
                },
                _ => {
                    assert(out@ =~= before + Seq::<u8>::empty());
                },
            }
            proof {
                let upto = layout@.take(i + 1);
                assert(upto.drop_last() =~= layout@.take(i as int));
                assert(upto.last() == layout@[i as int]);
                assert(out@ =~= old(out)@ + sent_bytes(upto, *self));
            }
            i = i + 1;
        }
        assert(layout@.take(n as int) =~= layout@);
    }
}

impl AdditionalSigned {
    /// The bytes that are only signed under the given extensions.
    pub open spec fn bytes(self, layout: Seq<ExtensionKind>) -> Seq<u8> {
        signed_only_bytes(layout, self)
    }

    /// Appends the bytes that are only signed.
    pub fn push_bytes(&self, layout: &Vec<ExtensionKind>, out: &mut Vec<u8>)
        ensures
            final(out)@ == old(out)@ + self.bytes(layout@),
    {
        let n: usize = layout.len();
        let mut i: usize = 0;
        assert(out@ =~= old(out)@ + signed_only_bytes(layout@.take(0), *self));
        while i < n
            invariant
                i <= n,
                n == layout@.len(),
                out@ == old(out)@ + signed_only_bytes(layout@.take(i as int), *self),
            decreases n - i,
        {
            let ghost before = out@;
            proof {
                lemma_pow256_values();
            }
            match layout[i] {
                ExtensionKind::SpecVersion => {
                    push_le(out, self.spec_version as u128, 4);
                },
                ExtensionKind::TransactionVersion => {
                    push_le(out, self.transaction_version as u128, 4);
                },
                ExtensionKind::Genesis => {
                    crate::bytes::push_bytes(out, self.genesis_hash.as_slice());
                },
                ExtensionKind::Mortality => {
                    crate::bytes::push_bytes(out, self.checkpoint_hash.as_slice());
                },
                ExtensionKind::MetadataHash => {
                    out.push(0u8);
                    assert(out@ =~= before + seq![0u8]);
                },
                _ => {
                    assert(out@ =~= before + Seq::<u8>::empty());
                },
            }
            proof {
                let upto = layout@.take(i + 1);
                assert(upto.drop_last() =~= layout@.take(i as int));
                assert(upto.last() == layout@[i as int]);
                assert(out@ =~= old(out)@ + signed_only_bytes(upto, *self));
            }
            i = i + 1;
        }
        assert(layout@.take(n as int) =~= layout@);
    }
}

} // verus!
