use usestakly::capture::{
    validate_artifact_reference, validate_evidence, validate_signal_input, ArtifactKind,
    RecordSignalInput, SignalTraits,
};

fn input(kind: ArtifactKind, snippet: Option<u128>, external: Option<u128>) -> RecordSignalInput {
    RecordSignalInput {
        artifact_kind: kind,
        snippet_id: snippet,
        external_artifact_id: external,
        signal: SignalTraits { name: "regret".to_string(), is_passive: false, requires_evidence: true },
        actor_user_id: Some(9),
        evidence_url: None,
        evidence_description: Some("broke the build".to_string()),
        agent_context: None,
    }
}

#[test]
fn snippet_signal_needs_snippet_only() {
    assert!(validate_artifact_reference(&input(ArtifactKind::Snippet, Some(1), None)).is_ok());
    let err = validate_artifact_reference(&input(ArtifactKind::Snippet, Some(1), Some(2))).unwrap_err();
    assert_eq!(err.status, 400);
    assert_eq!(err.message, "artifact_kind=snippet requires snippet_id only");
    assert!(validate_artifact_reference(&input(ArtifactKind::Snippet, None, None)).is_err());
}

#[test]
fn external_signal_needs_external_artifact_only() {
    assert!(validate_artifact_reference(&input(ArtifactKind::External, None, Some(2))).is_ok());
    let err = validate_artifact_reference(&input(ArtifactKind::External, Some(1), Some(2))).unwrap_err();
    assert_eq!(err.message, "artifact_kind=external requires external_artifact_id only");
}

#[test]
fn active_signal_without_evidence_is_refused() {
    let mut i = input(ArtifactKind::External, None, Some(2));
    i.evidence_description = None;
    let err = validate_evidence(&i).unwrap_err();
    assert_eq!(err.status, 400);
    assert_eq!(err.message, "Signal 'regret' requires evidence_url or evidence_description");
    i.evidence_url = Some("https://example.com/issue/1".to_string());
    assert!(validate_evidence(&i).is_ok());
}

#[test]
fn passive_signal_needs_no_evidence() {
    let mut i = input(ArtifactKind::External, None, Some(2));
    i.evidence_description = None;
    i.signal.is_passive = true;
    assert!(validate_evidence(&i).is_ok());
}

#[test]
fn reference_is_checked_before_evidence() {
    let mut i = input(ArtifactKind::Snippet, None, Some(2));
    i.evidence_description = None;
    let err = validate_signal_input(&i).unwrap_err();
    assert_eq!(err.message, "artifact_kind=snippet requires snippet_id only");
    assert!(validate_signal_input(&input(ArtifactKind::External, None, Some(2))).is_ok());
}
