use usestakly::repo_owners::{
    collaborator_permission_url, collaborator_status_verdict, login_owns_repo,
    permission_grants_write, private_member_url, private_membership_verdict, public_member_url,
    public_membership_verdict, usable_login, CollaboratorLookup,
};

#[test]
fn lookup_urls_trim_their_parts() {
    assert_eq!(public_member_url(" acme ", "bob\n"), "https://api.github.com/orgs/acme/public_members/bob");
    assert_eq!(private_member_url("acme", " bob"), "https://api.github.com/orgs/acme/memberships/bob");
    assert_eq!(
        collaborator_permission_url("acme ", " tool", "bob"),
        "https://api.github.com/repos/acme/tool/collaborators/bob/permission"
    );
}

#[test]
fn blank_logins_do_not_count() {
    assert_eq!(usable_login(Some("octocat".to_string())), Some("octocat".to_string()));
    assert_eq!(usable_login(Some("   ".to_string())), None);
    assert_eq!(usable_login(None), None);
}

#[test]
fn owner_match_ignores_ascii_case() {
    assert!(login_owns_repo("OctoCat", "octocat"));
    assert!(!login_owns_repo("octo", "octocat"));
}

#[test]
fn public_membership_answers() {
    assert_eq!(public_membership_verdict(204).unwrap(), true);
    assert_eq!(public_membership_verdict(404).unwrap(), false);
    let err = public_membership_verdict(429).unwrap_err();
    assert_eq!(err.status, 403);
    assert_eq!(err.message, "GitHub org membership lookup is temporarily unavailable");
    let err = public_membership_verdict(500).unwrap_err();
    assert_eq!(err.status, 400);
    assert_eq!(err.message, "Unexpected GitHub org membership response: 500 Internal Server Error");
}

#[test]
fn private_membership_answers() {
    assert_eq!(private_membership_verdict(200).unwrap(), true);
    assert_eq!(private_membership_verdict(401).unwrap(), false);
    assert_eq!(private_membership_verdict(403).unwrap(), false);
    let err = private_membership_verdict(429).unwrap_err();
    assert_eq!(err.message, "GitHub private org membership lookup is temporarily unavailable");
    let err = private_membership_verdict(302).unwrap_err();
    assert_eq!(err.message, "Unexpected GitHub private membership response: 302 Found");
}

#[test]
fn collaborator_answers_and_permissions() {
    assert_eq!(collaborator_status_verdict(200).unwrap(), CollaboratorLookup::ReadPermission);
    assert_eq!(collaborator_status_verdict(404).unwrap(), CollaboratorLookup::NoAccess);
    let err = collaborator_status_verdict(599).unwrap_err();
    assert_eq!(err.message, "Unexpected GitHub collaborator permission response: 599 <unknown status code>");
    assert!(permission_grants_write(Some("write"), None));
    assert!(permission_grants_write(Some("read"), Some("maintain")));
    assert!(!permission_grants_write(Some("read"), Some("triage")));
    assert!(!permission_grants_write(None, None));
}
