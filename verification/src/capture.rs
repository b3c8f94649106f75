//! The checks a quality signal passes before it is recorded.
use vstd::prelude::*;

use crate::error::ApiError;
use crate::text::{owned, push_str};

verus! {

/// What a quality signal is about.
#[derive(Debug, Clone, Copy, PartialEq, Eq)]
pub enum ArtifactKind {
    Snippet,
    External,
}

/// A signal's kind as the checks read it: its name, whether it is passive,
/// and whether an active signal of this kind needs evidence.
#[derive(Debug, Clone)]
pub struct SignalTraits {
    pub name: String,
    pub is_passive: bool,
    pub requires_evidence: bool,
}

/// A quality signal to record; identifiers are UUIDs as integers, the agent
/// context is JSON text.
#[derive(Debug, Clone)]
pub struct RecordSignalInput {
    pub artifact_kind: ArtifactKind,
    pub snippet_id: Option<u128>,
    pub external_artifact_id: Option<u128>,
    pub signal: SignalTraits,
    pub actor_user_id: Option<u128>,
    pub evidence_url: Option<String>,
    pub evidence_description: Option<String>,
    pub agent_context: Option<String>,
}

/// A snippet signal names a snippet and no external artifact; an external
/// signal names an external artifact and no snippet.
pub open spec fn reference_ok(input: RecordSignalInput) -> bool {
    match input.artifact_kind {
        ArtifactKind::Snippet => input.snippet_id is Some && input.external_artifact_id is None,
        ArtifactKind::External => input.external_artifact_id is Some && input.snippet_id is None,
    }
}

pub open spec fn reference_error(kind: ArtifactKind) -> Seq<char> {
    match kind {
        ArtifactKind::Snippet => "artifact_kind=snippet requires snippet_id only"@,
        ArtifactKind::External => "artifact_kind=external requires external_artifact_id only"@,
    }
}

/// Checks that the signal names exactly the artifact its kind calls for.
pub fn validate_artifact_reference(input: &RecordSignalInput) -> (r: Result<(), ApiError>)
    ensures
        r is Ok <==> reference_ok(*input),
        r matches Err(e) ==> e.is_bad_request(reference_error(input.artifact_kind)),
{
    match input.artifact_kind {
        ArtifactKind::Snippet => {
            if input.snippet_id.is_none() || input.external_artifact_id.is_some() {
                return Err(ApiError::bad_request("artifact_kind=snippet requires snippet_id only"));
            }
        },
        ArtifactKind::External => {
            if input.external_artifact_id.is_none() || input.snippet_id.is_some() {
                return Err(
                    ApiError::bad_request("artifact_kind=external requires external_artifact_id only"),
                );
            }
        },
    }
    Ok(())
}

/// An active signal whose kind needs evidence carries an evidence URL or
/// description.
pub open spec fn evidence_ok(input: RecordSignalInput) -> bool {
    input.signal.is_passive || !input.signal.requires_evidence || input.evidence_url is Some
        || input.evidence_description is Some
}

pub open spec fn evidence_error(name: Seq<char>) -> Seq<char> {
    "Signal '"@ + name + "' requires evidence_url or evidence_description"@
}

/// Checks that the signal carries the evidence its kind needs.
pub fn validate_evidence(input: &RecordSignalInput) -> (r: Result<(), ApiError>)
    ensures
        r is Ok <==> evidence_ok(*input),
        r matches Err(e) ==> e.is_bad_request(evidence_error(input.signal.name@)),
{
    if input.signal.is_passive {
        return Ok(());
    }
    if input.signal.requires_evidence && input.evidence_url.is_none()
        && input.evidence_description.is_none() {
        let mut message = owned("Signal '");
        push_str(&mut message, input.signal.name.as_str());
        push_str(&mut message, "' requires evidence_url or evidence_description");
        return Err(ApiError::bad_request_owned(message));
    }
    Ok(())
}

/// Both checks, the artifact reference first.
pub fn validate_signal_input(input: &RecordSignalInput) -> (r: Result<(), ApiError>)
    ensures
        r is Ok <==> reference_ok(*input) && evidence_ok(*input),
        r matches Err(e) ==> if !reference_ok(*input) {
            e.is_bad_request(reference_error(input.artifact_kind))
        } else {
            e.is_bad_request(evidence_error(input.signal.name@))
        },
{
    match validate_artifact_reference(input) {
        Ok(()) => {},
        Err(e) => {
            return Err(e);
        },
    }
    validate_evidence(input)
}

} // verus!
