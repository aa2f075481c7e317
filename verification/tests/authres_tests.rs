//! Tests of the authentication-results gate: comment stripping, header
//! parsing, candidate updates, and the keychange decision.

use mailparse::MailHeaderMap;

use mailsync::authres::addr_domain;
use mailsync::authres::clear_dkim_works;
use mailsync::authres::dkim_works;
use mailsync::authres::handle_authres;
use mailsync::authres::handle_authres_message;
use mailsync::authres::parse_authres_headers;
use mailsync::authres::parse_authservid_candidates_config;
use mailsync::authres::parse_one_authres_header;
use mailsync::authres::remove_comments;
use mailsync::authres::set_dkim_works;
use mailsync::authres::should_allow_keychange;
use mailsync::authres::update_authservid_candidates;
use mailsync::authres::AuthresState;
use mailsync::authres::DkimResult;

fn fresh_state() -> AuthresState {
    AuthresState { authservid_candidates: None, sending_domains: Vec::new() }
}

fn authres_values(bytes: &[u8]) -> Vec<String> {
    let mail = mailparse::parse_mail(bytes).unwrap();
    mail.get_headers().get_all_values("Authentication-Results")
}

#[test]
fn test_remove_comments() {
    let header = "Authentication-Results: mx3.messagingengine.com;\n    dkim=pass (1024-bit rsa key sha256) header.d=riseup.net;"
        .to_string();
    assert_eq!(
        remove_comments(&header),
        "Authentication-Results: mx3.messagingengine.com;\n    dkim=pass   header.d=riseup.net;"
    );

    let header = ") aaa (".to_string();
    assert_eq!(remove_comments(&header), ") aaa (");

    let header = "((something weird) no comment".to_string();
    assert_eq!(remove_comments(&header), "  no comment");

    let header = "\u{1f389}(\u{1f389}(\u{1f389}))\u{1f389}(".to_string();
    assert_eq!(remove_comments(&header), "\u{1f389} )\u{1f389}(");

    // Comments are allowed to include whitespace
    let header = "(com\n\t\r\nment) no comment (comment)".to_string();
    assert_eq!(remove_comments(&header), "  no comment  ");
}

#[test]
fn test_parse_authentication_results() {
    let bytes = b"Authentication-Results:  gmx.net; dkim=pass header.i=@slack.com\nAuthentication-Results:  gmx.net; dkim=pass header.i=@amazonses.com";
    let actual = parse_authres_headers(&authres_values(bytes), "slack.com");
    assert_eq!(
        actual,
        vec![
            ("gmx.net".to_string(), DkimResult::Passed),
            ("gmx.net".to_string(), DkimResult::Nothing)
        ]
    );

    let bytes = b"Authentication-Results:  gmx.net; dkim=pass header.i=@amazonses.com";
    let actual = parse_authres_headers(&authres_values(bytes), "slack.com");
    assert_eq!(actual, vec![("gmx.net".to_string(), DkimResult::Nothing)]);

    // Weird Authentication-Results from Outlook without an authserv-id
    let bytes = b"Authentication-Results: spf=pass (sender IP is 40.92.73.85)\n    smtp.mailfrom=hotmail.com; dkim=pass (signature was verified)\n    header.d=hotmail.com;dmarc=pass action=none\n    header.from=hotmail.com;compauth=pass reason=100";
    let actual = parse_authres_headers(&authres_values(bytes), "hotmail.com");
    // At this point, the most important thing to test is that there are no
    // authserv-ids with whitespace in them.
    assert_eq!(
        actual,
        vec![("invalidAuthservId".to_string(), DkimResult::Passed)]
    );

    let bytes = b"Authentication-Results:  gmx.net; dkim=none header.i=@slack.com\nAuthentication-Results:  gmx.net; dkim=pass header.i=@slack.com";
    let actual = parse_authres_headers(&authres_values(bytes), "slack.com");
    assert_eq!(
        actual,
        vec![
            ("gmx.net".to_string(), DkimResult::Failed),
            ("gmx.net".to_string(), DkimResult::Passed)
        ]
    );

    // ';' in comments
    let bytes = b"Authentication-Results: mx1.riseup.net;\n\tdkim=pass (1024-bit key; unprotected) header.d=yandex.ru header.i=@yandex.ru header.a=rsa-sha256 header.s=mail header.b=avNJu6sw;\n\tdkim-atps=neutral";
    let actual = parse_authres_headers(&authres_values(bytes), "yandex.ru");
    assert_eq!(
        actual,
        vec![("mx1.riseup.net".to_string(), DkimResult::Passed)]
    );
}

fn update_ids(state: &mut AuthresState, incoming_ids: &[&str]) {
    let v: Vec<(String, DkimResult)> = incoming_ids
        .iter()
        .map(|id| (id.to_string(), DkimResult::Passed))
        .collect();
    update_authservid_candidates(state, &v);
}

#[test]
fn test_update_authservid_candidates() {
    let mut t = fresh_state();

    update_ids(&mut t, &["mx3.messagingengine.com"]);
    assert_eq!(t.authservid_candidates.as_deref(), Some("mx3.messagingengine.com"));

    // A new authserv-id appears alone: accept it as a legitimate change.
    update_ids(&mut t, &["mx4.messagingengine.com"]);
    assert_eq!(t.authservid_candidates.as_deref(), Some("mx4.messagingengine.com"));

    // A message without any Authentication-Results headers shouldn't remove
    // all candidates since it could be a mailer-daemon message or so.
    update_ids(&mut t, &[]);
    assert_eq!(t.authservid_candidates.as_deref(), Some("mx4.messagingengine.com"));

    update_ids(&mut t, &["mx4.messagingengine.com", "someotherdomain.com"]);
    assert_eq!(t.authservid_candidates.as_deref(), Some("mx4.messagingengine.com"));
}

#[test]
fn test_handle_authres() {
    let mut t = fresh_state();

    // Even if the format is wrong and parsing fails, handling shouldn't
    // fail hard: the message must still be storable.
    let bytes = b"Authentication-Results: dkim=";
    let r = handle_authres_message(&mut t, bytes, "invalidfrom.com");
    assert_eq!(r, Some(false));
    assert_eq!(t.authservid_candidates, None);
    assert!(t.sending_domains.is_empty());
}

#[test]
fn comment_stripping_single_entry() {
    let values = vec!["mx.x; dkim=pass (1024-bit) header.d=riseup.net;".to_string()];
    let actual = parse_authres_headers(&values, "riseup.net");
    assert_eq!(actual, vec![("mx.x".to_string(), DkimResult::Passed)]);
}

#[test]
fn candidate_rotation_clears_sending_domains() {
    let mut t = AuthresState {
        authservid_candidates: Some("mx3.messagingengine.com".to_string()),
        sending_domains: vec!["example.org".to_string()],
    };
    let v = vec![("mx4.messagingengine.com".to_string(), DkimResult::Passed)];
    update_authservid_candidates(&mut t, &v);
    assert_eq!(t.authservid_candidates.as_deref(), Some("mx4.messagingengine.com"));
    assert!(t.sending_domains.is_empty());
}

#[test]
fn no_authres_is_a_no_op() {
    let mut t = AuthresState {
        authservid_candidates: Some("mx.example".to_string()),
        sending_domains: vec!["keep.me".to_string()],
    };
    let allow = handle_authres(&mut t, &Vec::new(), "alice@keep.me");
    assert_eq!(t.authservid_candidates.as_deref(), Some("mx.example"));
    assert_eq!(t.sending_domains, vec!["keep.me".to_string()]);
    // Filtered results are empty, so the keychange passes.
    assert!(allow);
}

#[test]
fn candidate_update_applied_twice_is_idempotent() {
    let mut once = fresh_state();
    let v = vec![
        ("mx.one".to_string(), DkimResult::Passed),
        ("mx.two".to_string(), DkimResult::Nothing),
    ];
    update_authservid_candidates(&mut once, &v);
    let mut twice = AuthresState {
        authservid_candidates: once.authservid_candidates.clone(),
        sending_domains: once.sending_domains.clone(),
    };
    update_authservid_candidates(&mut twice, &v);
    assert_eq!(once.authservid_candidates, twice.authservid_candidates);
    assert_eq!(once.sending_domains, twice.sending_domains);
}

#[test]
fn foreign_headers_do_not_change_the_verdict() {
    let genuine = vec![("our.mx".to_string(), DkimResult::Failed)];
    let mut with_attack = genuine.clone();
    with_attack.push(("attacker.example".to_string(), DkimResult::Passed));

    let mut a = AuthresState {
        authservid_candidates: Some("our.mx".to_string()),
        sending_domains: vec!["sender.example".to_string()],
    };
    let mut b = AuthresState {
        authservid_candidates: Some("our.mx".to_string()),
        sending_domains: vec!["sender.example".to_string()],
    };
    let verdict_plain = should_allow_keychange(&mut a, genuine, "sender.example");
    let verdict_attacked = should_allow_keychange(&mut b, with_attack, "sender.example");
    assert_eq!(verdict_plain, verdict_attacked);
    assert!(!verdict_attacked);
}

#[test]
fn dkim_stickiness_blocks_unauthenticated_keychange() {
    let mut t = AuthresState {
        authservid_candidates: Some("our.mx".to_string()),
        sending_domains: Vec::new(),
    };
    // A passing message pins the domain.
    let pass = vec![("our.mx".to_string(), DkimResult::Passed)];
    assert!(should_allow_keychange(&mut t, pass, "sender.example"));
    assert!(dkim_works(&t, "sender.example"));
    // A later failing message from it may not change the key.
    let fail = vec![("our.mx".to_string(), DkimResult::Failed)];
    assert!(!should_allow_keychange(&mut t, fail, "sender.example"));
    // An annotated message with no verdict counts as not passed either.
    let nothing = vec![("our.mx".to_string(), DkimResult::Nothing)];
    assert!(!should_allow_keychange(&mut t, nothing, "sender.example"));
}

#[test]
fn dkim_works_flags() {
    let mut t = fresh_state();
    assert!(!dkim_works(&t, "x.example"));
    set_dkim_works(&mut t, "x.example");
    assert!(dkim_works(&t, "x.example"));
    assert!(!dkim_works(&t, "y.example"));
    clear_dkim_works(&mut t);
    assert!(!dkim_works(&t, "x.example"));
}

#[test]
fn parse_candidates_config_splits_and_dedups() {
    let cfg = Some("mx.a mx.b  mx.a".to_string());
    let ids = parse_authservid_candidates_config(&cfg);
    assert_eq!(ids, vec!["mx.a".to_string(), "mx.b".to_string()]);
    let none: Option<String> = None;
    assert!(parse_authservid_candidates_config(&none).is_empty());
}

#[test]
fn parse_one_header_verdicts() {
    assert_eq!(
        parse_one_authres_header("gmx.net; dkim=pass header.d=x.y", "x.y"),
        DkimResult::Passed
    );
    assert_eq!(
        parse_one_authres_header("gmx.net; dkim=pass header.i=@x.y", "x.y"),
        DkimResult::Passed
    );
    assert_eq!(
        parse_one_authres_header("gmx.net; dkim=pass header.d=other.z", "x.y"),
        DkimResult::Nothing
    );
    assert_eq!(
        parse_one_authres_header("gmx.net; dkim=fail header.d=x.y", "x.y"),
        DkimResult::Failed
    );
    assert_eq!(parse_one_authres_header("gmx.net; spf=pass", "x.y"), DkimResult::Nothing);
    assert_eq!(parse_one_authres_header("gmx.net; dkim=", "x.y"), DkimResult::Failed);
}

#[test]
fn address_domains() {
    assert_eq!(addr_domain("alice@example.org"), Some("example.org".to_string()));
    assert_eq!(addr_domain("a@b@c.d"), Some("c.d".to_string()));
    assert_eq!(addr_domain("invalidfrom.com"), None);
    assert_eq!(addr_domain("@nolocal.example"), None);
    assert_eq!(addr_domain("nodomain@"), None);
    assert_eq!(addr_domain(""), None);
}

#[test]
fn message_bytes_update_candidates() {
    let mut t = fresh_state();
    let bytes = b"Authentication-Results: mx.provider.example; dkim=pass header.d=riseup.net\nFrom: someone@riseup.net\n\nhi";
    let r = handle_authres_message(&mut t, bytes, "someone@riseup.net");
    assert_eq!(r, Some(true));
    assert_eq!(t.authservid_candidates.as_deref(), Some("mx.provider.example"));
    assert!(dkim_works(&t, "riseup.net"));
}
