use vstd::prelude::*;

use std::collections::HashMap;

verus! {

/// What a type declares about how its values are encoded.
#[derive(Clone, Copy, Debug, PartialEq, Eq)]
pub struct CodecDescriptor {
    /// The type defines its own frame conversion.
    pub custom: bool,
    /// The type is tagged as ledger data.
    pub ledger: bool,
    /// The type is tagged as commitment data.
    pub commitment: bool,
}

/// The codec that a registered type is encoded with.
#[derive(Clone, Copy, Debug, PartialEq, Eq)]
pub enum Codec {
    Custom,
    LedgerData,
    CommitmentData,
}

/// Why a type could not be registered.
#[derive(Clone, Copy, Debug, PartialEq, Eq)]
pub enum RegistrationError {
    /// No custom codec and no usable capability tag.
    Unclassified,
    /// More than one codec applies, or the type was registered already.
    CodecConflict,
}

/// The codec that a descriptor resolves to. A custom codec may not be
/// combined with a tag, nor the two tags with each other; commitment data
/// resolves only where that capability is enabled.
pub open spec fn resolution(d: CodecDescriptor, commitment_enabled: bool) -> Result<Codec, RegistrationError> {
    if (d.custom && (d.ledger || d.commitment)) || (d.ledger && d.commitment) {
        Err(RegistrationError::CodecConflict)
    } else if d.custom {
        Ok(Codec::Custom)
    } else if d.ledger {
        Ok(Codec::LedgerData)
    } else if d.commitment && commitment_enabled {
        Ok(Codec::CommitmentData)
    } else {
        Err(RegistrationError::Unclassified)
    }
}

/// Resolves the codec of a type from what it declares.
pub fn resolve(d: CodecDescriptor, commitment_enabled: bool) -> (r: Result<Codec, RegistrationError>)
    ensures
        r == resolution(d, commitment_enabled),
{
    if (d.custom && (d.ledger || d.commitment)) || (d.ledger && d.commitment) {
        Err(RegistrationError::CodecConflict)
    } else if d.custom {
        Ok(Codec::Custom)
    } else if d.ledger {
        Ok(Codec::LedgerData)
    } else if d.commitment && commitment_enabled {
        Ok(Codec::CommitmentData)
    } else {
        Err(RegistrationError::Unclassified)
    }
}

/// Every successful resolution picks exactly one codec, and it is the one
/// the descriptor names; a descriptor with both a custom codec and a tag, or
/// with neither, is rejected.
pub proof fn lemma_resolution_unique(d: CodecDescriptor, commitment_enabled: bool)
    ensures
        resolution(d, commitment_enabled) matches Ok(c) ==> match c {
            Codec::Custom => d.custom && !d.ledger && !d.commitment,
            Codec::LedgerData => !d.custom && d.ledger && !d.commitment,
            Codec::CommitmentData => !d.custom && !d.ledger && d.commitment && commitment_enabled,
        },
        d.custom && (d.ledger || d.commitment) ==> resolution(d, commitment_enabled)
            == Err::<Codec, RegistrationError>(RegistrationError::CodecConflict),
        !d.custom && !d.ledger && !d.commitment ==> resolution(d, commitment_enabled)
            == Err::<Codec, RegistrationError>(RegistrationError::Unclassified),
{
}

/// The codecs of registered types, keyed by a type identifier.
pub struct Registry {
    commitment_enabled: bool,
    codecs: HashMap<u64, Codec>,
}

impl Registry {
    /// The codec of each registered type.
    pub closed spec fn codecs(&self) -> Map<u64, Codec> {
        self.codecs@
    }

    /// Whether commitment data can be registered.
    pub closed spec fn commitment_enabled(&self) -> bool {
        self.commitment_enabled
    }

    /// An empty registry; `commitment_enabled` says whether the commitment-data
    /// codec is available.
    pub fn new(commitment_enabled: bool) -> (r: Registry)
        ensures
            r.codecs() == Map::<u64, Codec>::empty(),
            r.commitment_enabled() == commitment_enabled,
    {
        Registry { commitment_enabled, codecs: HashMap::new() }
    }

    /// Registers a type under `type_id`: resolves its codec and records it.
    /// A type registered already is a conflict; on any error the registry
    /// is left as it was.
    pub fn register(&mut self, type_id: u64, d: CodecDescriptor) -> (r: Result<Codec, RegistrationError>)
        ensures
            final(self).commitment_enabled() == old(self).commitment_enabled(),
            old(self).codecs().contains_key(type_id) ==> r == Err::<Codec, RegistrationError>(
                RegistrationError::CodecConflict,
            ),
            !old(self).codecs().contains_key(type_id) ==> r == resolution(d, old(self).commitment_enabled()),
            r matches Ok(c) ==> final(self).codecs() == old(self).codecs().insert(type_id, c),
            r is Err ==> final(self).codecs() == old(self).codecs(),
    {
        if self.codecs.contains_key(&type_id) {
            return Err(RegistrationError::CodecConflict);
        }
        let r = resolve(d, self.commitment_enabled);
        if let Ok(c) = r {
            self.codecs.insert(type_id, c);
        }
        r
    }

    /// The codec registered for `type_id`, if any.
    pub fn codec_of(&self, type_id: u64) -> (r: Option<Codec>)
        ensures
            r == (if self.codecs().contains_key(type_id) {
                Some(self.codecs()[type_id])
            } else {
                None
            }),
    {
        match self.codecs.get(&type_id) {
            Some(c) => Some(*c),
            None => None,
        }
    }
}

} // verus!
