//! The envelope of a version-1 document: its version and generation checks,
//! and the domain unit it carries. JSON text itself is read and written by
//! the caller; this module decides what the parsed values mean.

use vstd::prelude::*;

use crate::domain::DomainState;
use crate::model::{DomainError, Timestamp};
use crate::schema::conversions::{
    fits_time, history_fits, history_from_v1, history_to_v1, id_allocators_from_v1,
    id_allocators_to_v1, progress_fits, snapshot_from_v1, snapshot_to_v1,
};
use crate::schema::dto::Envelope;
use crate::schema::values::{TimestampV1, TIMESTAMP_RANGE_ERROR};
use crate::transition::DomainModel;
use crate::validation_spec::validation;

verus! {

#[verifier::external_type_specification]
#[verifier::external_body]
pub struct ExJsonError(serde_json::Error);

/// Why a document cannot be read or written.
#[derive(Debug)]
pub enum CodecError {
    MissingVersion,
    UnsupportedVersion(u32),
    Json(serde_json::Error),
    InvalidDomain(DomainError),
    InvalidValue(&'static str),
}

impl From<serde_json::Error> for CodecError {
    fn from(value: serde_json::Error) -> (r: Self)
        ensures
            r == CodecError::Json(value),
    {
        CodecError::Json(value)
    }
}

impl vstd::std_specs::convert::FromSpecImpl<serde_json::Error> for CodecError {
    open spec fn obeys_from_spec() -> bool {
        true
    }

    open spec fn from_spec(v: serde_json::Error) -> CodecError {
        CodecError::Json(v)
    }
}

impl From<DomainError> for CodecError {
    fn from(value: DomainError) -> (r: Self)
        ensures
            r == CodecError::InvalidDomain(value),
    {
        CodecError::InvalidDomain(value)
    }
}

impl vstd::std_specs::convert::FromSpecImpl<DomainError> for CodecError {
    open spec fn obeys_from_spec() -> bool {
        true
    }

    open spec fn from_spec(v: DomainError) -> CodecError {
        CodecError::InvalidDomain(v)
    }
}

impl From<&'static str> for CodecError {
    fn from(value: &'static str) -> (r: Self)
        ensures
            r == CodecError::InvalidValue(value),
    {
        CodecError::InvalidValue(value)
    }
}

impl vstd::std_specs::convert::FromSpecImpl<&'static str> for CodecError {
    open spec fn obeys_from_spec() -> bool {
        true
    }

    open spec fn from_spec(v: &'static str) -> CodecError {
        CodecError::InvalidValue(v)
    }
}


pub const GENERATION_ERROR: &'static str = "save generation must be nonzero";

/// The only schema version this format reads and writes.
pub const SCHEMA_VERSION: u32 = 1;

/// A complete candidate, not proof that a file was written successfully.
#[derive(Debug, Clone, PartialEq, Eq)]
pub struct PersistedStateV1 {
    pub save_generation: u64,
    pub saved_at: Timestamp,
    pub domain: DomainState,
}

/// The domain unit an envelope carries.
pub open spec fn envelope_model(env: Envelope) -> DomainModel {
    DomainModel {
        snapshot: env.snapshot.to_domain(),
        sessions: env.history.session_models(),
        events: env.history.event_models(),
        ids: env.id_allocators.to_domain(),
    }
}

/// What reading a parsed envelope yields: its generation, save time and
/// domain unit, once the generation is nonzero and the unit is consistent.
pub open spec fn envelope_reading(env: Envelope) -> Result<(u64, Timestamp, DomainModel), CodecError> {
    if env.save_generation == 0 {
        Err(CodecError::InvalidValue(GENERATION_ERROR))
    } else {
        match validation(envelope_model(env)) {
            Err(e) => Err(CodecError::InvalidDomain(e)),
            Ok(_) => Ok((env.save_generation, env.saved_at@, envelope_model(env))),
        }
    }
}

/// Whether a candidate can be written: a consistent unit, a nonzero
/// generation, and IDs and times the document can represent.
pub open spec fn writable(save_generation: u64, saved_at: Timestamp, m: DomainModel) -> bool {
    &&& validation(m) is Ok
    &&& save_generation != 0
    &&& fits_time(saved_at)
    &&& progress_fits(m.snapshot.state)
    &&& history_fits(m.sessions, m.events)
}

/// The version found at the top of a document decides whether it is read.
pub fn check_version(version: Option<u32>) -> (r: Result<(), CodecError>)
    ensures
        match version {
            None => r == Err::<(), CodecError>(CodecError::MissingVersion),
            Some(v) => if v == SCHEMA_VERSION {
                r is Ok
            } else {
                r == Err::<(), CodecError>(CodecError::UnsupportedVersion(v))
            },
        },
{
    match version {
        None => Err(CodecError::MissingVersion),
        Some(v) => if v == SCHEMA_VERSION {
            Ok(())
        } else {
            Err(CodecError::UnsupportedVersion(v))
        },
    }
}

pub open spec fn is_json_whitespace(b: u8) -> bool {
    b == 32u8 || b == 10u8 || b == 13u8 || b == 9u8
}

/// Whether the first byte that is not JSON whitespace opens an object. Only
/// such a document can carry a version.
pub fn starts_with_object(bytes: &[u8]) -> (r: bool)
    ensures
        r <==> exists|i: int|
            0 <= i < bytes@.len() && bytes@[i] == 123u8 && forall|k: int|
                0 <= k < i ==> is_json_whitespace(#[trigger] bytes@[k]),
{
    let mut i: usize = 0;
    while i < bytes.len()
        invariant
            i <= bytes@.len(),
            forall|k: int| 0 <= k < i ==> is_json_whitespace(#[trigger] bytes@[k]),
        decreases bytes.len() - i,
    {
        let b = bytes[i];
        if !(b == 32u8 || b == 10u8 || b == 13u8 || b == 9u8) {
            if b == 123u8 {
                return true;
            }
            assert forall|j: int|
                0 <= j < bytes@.len() && bytes@[j] == 123u8 implies !(forall|k: int|
                0 <= k < j ==> is_json_whitespace(#[trigger] bytes@[k])) by {
                if j > i {
                    assert(!is_json_whitespace(bytes@[i as int]));
                }
            }
            return false;
        }
        i += 1;
    }
    false
}

impl PersistedStateV1 {
    /// Adopts a parsed envelope: the generation must be nonzero and the domain
    /// unit consistent. Nothing is repaired.
    pub fn from_envelope(env: Envelope) -> (r: Result<Self, CodecError>)
        ensures
            match r {
                Ok(s) => envelope_reading(env) == Ok::<(u64, Timestamp, DomainModel), CodecError>(
                    (s.save_generation, s.saved_at, s.domain@),
                ),
                Err(e) => envelope_reading(env) == Err::<(u64, Timestamp, DomainModel), CodecError>(e),
            },
    {
        if env.save_generation == 0 {
            return Err(CodecError::InvalidValue(GENERATION_ERROR));
        }
        let snapshot = snapshot_from_v1(&env.snapshot);
        let history = history_from_v1(&env.history);
        let ids = id_allocators_from_v1(&env.id_allocators);
        match DomainState::from_parts(snapshot, history, ids) {
            Ok(domain) => Ok(
                PersistedStateV1 {
                    save_generation: env.save_generation,
                    saved_at: env.saved_at.value(),
                    domain,
                },
            ),
            Err(e) => Err(CodecError::InvalidDomain(e)),
        }
    }

    /// Builds the envelope of this candidate. The unit is validated first; a
    /// written envelope reads back as exactly this candidate.
    pub fn to_envelope(&self) -> (r: Result<Envelope, CodecError>)
        ensures
            match r {
                Ok(env) => writable(self.save_generation, self.saved_at, self.domain@)
                    && env.schema_version == SCHEMA_VERSION && envelope_reading(env) == Ok::<
                    (u64, Timestamp, DomainModel),
                    CodecError,
                >((self.save_generation, self.saved_at, self.domain@)),
                Err(e) => !writable(self.save_generation, self.saved_at, self.domain@) && match validation(
                    self.domain@,
                ) {
                    Err(d) => e == CodecError::InvalidDomain(d),
                    Ok(_) => if self.save_generation == 0 {
                        e == CodecError::InvalidValue(GENERATION_ERROR)
                    } else {
                        e == CodecError::InvalidValue(TIMESTAMP_RANGE_ERROR)
                    },
                },
            },
    {
        if let Err(d) = self.domain.validate() {
            return Err(CodecError::InvalidDomain(d));
        }
        if self.save_generation == 0 {
            return Err(CodecError::InvalidValue(GENERATION_ERROR));
        }
        proof {
            crate::consistency::lemma_consistent_ids_nonzero(self.domain@);
        }
        let saved_at = match TimestampV1::new(self.saved_at) {
            Ok(v) => v,
            Err(message) => {
                return Err(CodecError::InvalidValue(message));
            },
        };
        let id_allocators = id_allocators_to_v1(&self.domain.ids);
        let snapshot = match snapshot_to_v1(&self.domain.snapshot) {
            Ok(v) => v,
            Err(e) => {
                proof {
                    self.domain.snapshot.settings.lemma_validation_ok_iff_valid();
                }
                return Err(e);
            },
        };
        let history = match history_to_v1(&self.domain.history) {
            Ok(v) => v,
            Err(e) => {
                return Err(e);
            },
        };
        let env = Envelope {
            schema_version: SCHEMA_VERSION,
            save_generation: self.save_generation,
            saved_at,
            id_allocators,
            snapshot,
            history,
        };
        assert(envelope_model(env) == self.domain@);
        Ok(env)
    }
}

} // verus!
