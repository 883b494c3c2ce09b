use digidecs::attachment::{attachment, Query as AttachmentQuery};
use digidecs::complete::{complete, complete_now, map_locale_to_email_lang, Notifications, Query as CompleteQuery};
use digidecs::config::{default_port, AppConfig, ServerConfig, SmtpConfig};
use digidecs::data::{Locale, PendingStore};
use digidecs::email::{submitter_subject, EmailLanguage};
use digidecs::error::Error;
use digidecs::ipv4::{egress_candidates, probe_target, select_egress, AddressError, Ipv4Address};
use digidecs::smtp::{smtp_next, smtp_plan, SessionAction, SessionEvent};
use digidecs::start::{start, start_now, Attachment, StartDigidecsRequest};
use digidecs::template::{render_submitter, render_treasurer, SubmitterData, TreasurerData};
use digidecs::text::{first_word, format_cents, get_ehlo_domain};
use digidecs::validate::{validate_email, validate_iban};

const NOW: i64 = 1_700_000_000;

fn config() -> AppConfig {
    AppConfig {
        server: ServerConfig::default(),
        smtp: SmtpConfig {
            from_email: "noreply@example.com".to_string(),
            from_name: "DigiDecs".to_string(),
            smtp_relay: "smtp.example.com".to_string(),
        },
        treasurer_email: "treasurer@example.com".to_string(),
    }
}

fn request(value_cents: i64, attachments: Vec<(&str, &str)>) -> StartDigidecsRequest {
    StartDigidecsRequest {
        name: "Jan de Vries".to_string(),
        iban: "NL91ABNA0417164300".to_string(),
        email: "jan@example.com".to_string(),
        value_cents,
        what: "Boodschappen".to_string(),
        commission: "Activiteiten".to_string(),
        notes: None,
        attachments: attachments
            .into_iter()
            .map(|(name, mime)| Attachment { name: name.to_string(), mime: mime.to_string() })
            .collect(),
        locale: Locale::Nl,
    }
}

fn upload(store: &mut PendingStore, id: &str, aid: &str, bytes: Vec<u8>) -> Result<(), Error> {
    let query = AttachmentQuery { tracking_id: id.to_string(), attachment_tracking_id: aid.to_string() };
    attachment(store, &query, bytes)
}

fn finish(store: &mut PendingStore, id: &str, now: i64) -> Result<Notifications, Error> {
    complete(store, &CompleteQuery { tracking_id: id.to_string() }, now, &config())
}

#[test]
fn ehlo_domain() {
    assert_eq!(get_ehlo_domain("foo@example.com"), Some("example.com".to_owned()));
    assert_eq!(get_ehlo_domain("example.org"), None);
    assert_eq!(get_ehlo_domain("example@"), Some(String::new()))
}

#[test]
fn ehlo_domain_stops_at_second_at() {
    assert_eq!(get_ehlo_domain("a@b@c"), Some("b".to_owned()));
}

#[test]
fn receipt_submission_completes_with_formatted_value() {
    let mut store = PendingStore::new();
    let resp = start(&mut store, request(4250, vec![("receipt.pdf", "application/pdf")]), NOW).ok().unwrap();
    assert_eq!(resp.attachments.len(), 1);
    assert_eq!(resp.attachments[0].name, "receipt.pdf");
    assert_eq!(resp.attachments[0].mime, "application/pdf");
    assert_eq!(store.len(), 1);
    let up = upload(&mut store, &resp.tracking_id, &resp.attachments[0].tracking_id, vec![1, 2, 3]);
    assert!(up.is_ok());
    let n = finish(&mut store, &resp.tracking_id, NOW + 10).ok().unwrap();
    assert_eq!(store.len(), 0);
    assert!(n.treasurer.html_body.contains("42.50"));
    assert!(n.treasurer.html_body.contains("Jan de Vries"));
    assert!(n.treasurer.subject.starts_with("[DigiDecs] Nieuwe declaratie: Boodschappen ("));
    assert!(n.treasurer.subject.ends_with(')'));
    assert_eq!(n.treasurer.attachments.len(), 1);
    assert_eq!(n.treasurer.attachments[0].name, "receipt.pdf");
    assert_eq!(n.treasurer.attachments[0].content, vec![1, 2, 3]);
    assert_eq!(n.treasurer.attachments[0].mime, "application/pdf");
    assert!(n.treasurer.reply_to.is_some());
    assert_eq!(n.treasurer.to.source_text(), "treasurer@example.com");
    assert_eq!(n.treasurer.to.name_text(), &None);
    assert_eq!(n.treasurer.to.mailbox().email.to_string(), "treasurer@example.com");
    assert_eq!(n.treasurer.from.source_text(), "noreply@example.com");
    assert_eq!(n.treasurer.from.name_text(), &Some("DigiDecs".to_string()));
    assert_eq!(n.treasurer.from.mailbox().email.to_string(), "noreply@example.com");
    assert_eq!(n.treasurer.from.mailbox().name, Some("DigiDecs".to_string()));
    let reply = n.treasurer.reply_to.as_ref().unwrap();
    assert_eq!(reply.source_text(), "jan@example.com");
    assert_eq!(reply.name_text(), &Some("Jan de Vries".to_string()));
    assert_eq!(reply.mailbox().email.to_string(), "jan@example.com");
    assert_eq!(n.submitter.to.source_text(), "jan@example.com");
    assert_eq!(n.submitter.to.mailbox().email.to_string(), "jan@example.com");
    assert_eq!(n.submitter.to.mailbox().name, Some("Jan de Vries".to_string()));
    assert_eq!(n.submitter.from.source_text(), "noreply@example.com");
    assert!(n.submitter.html_body.contains("Hoi Jan,"));
    assert_eq!(n.submitter.subject, "Je DigiDecs is ontvangen!");
    assert!(n.submitter.attachments.is_empty());
}

#[test]
fn zero_value_is_rejected_without_issuing() {
    let mut store = PendingStore::new();
    let r = start(&mut store, request(0, vec![("receipt.pdf", "application/pdf")]), NOW);
    assert!(matches!(r, Err(Error::ValueNegativeOrZero)));
    assert_eq!(store.len(), 0);
    let r = start(&mut store, request(-100, vec![("receipt.pdf", "application/pdf")]), NOW);
    assert!(matches!(r, Err(Error::ValueNegativeOrZero)));
}

#[test]
fn start_reports_each_invalid_field() {
    let mut store = PendingStore::new();
    let mut bad_email = request(100, vec![("a.pdf", "application/pdf")]);
    bad_email.email = "not an address".to_string();
    assert!(matches!(start(&mut store, bad_email, NOW), Err(Error::InvalidEmail)));
    let mut bad_iban = request(100, vec![("a.pdf", "application/pdf")]);
    bad_iban.iban = "NL00ABNA0000000000".to_string();
    assert!(matches!(start(&mut store, bad_iban, NOW), Err(Error::InvalidIban)));
    let no_attachments = request(100, vec![]);
    assert!(matches!(start(&mut store, no_attachments, NOW), Err(Error::MissingAttachment)));
    assert_eq!(store.len(), 0);
}

#[test]
fn tracking_ids_are_distinct() {
    let mut store = PendingStore::new();
    let a = start(&mut store, request(100, vec![("a.pdf", "application/pdf"), ("b.png", "image/png")]), NOW).ok().unwrap();
    let b = start(&mut store, request(100, vec![("c.pdf", "application/pdf")]), NOW).ok().unwrap();
    let mut ids = vec![a.tracking_id.clone(), b.tracking_id.clone()];
    ids.extend(a.attachments.iter().map(|x| x.tracking_id.clone()));
    ids.extend(b.attachments.iter().map(|x| x.tracking_id.clone()));
    for (i, x) in ids.iter().enumerate() {
        assert!(x.len() > 16);
        assert!(x.chars().all(|c| c.is_ascii_alphanumeric()));
        for y in ids.iter().skip(i + 1) {
            assert_ne!(x, y);
        }
    }
}

#[test]
fn unknown_ids_are_reported_and_change_nothing() {
    let mut store = PendingStore::new();
    let a = start(&mut store, request(100, vec![("a.pdf", "application/pdf")]), NOW).ok().unwrap();
    let b = start(&mut store, request(100, vec![("b.pdf", "application/pdf")]), NOW).ok().unwrap();
    let r = upload(&mut store, "nope", &a.attachments[0].tracking_id, vec![1]);
    assert!(matches!(r, Err(Error::UnknownTrackingId)));
    let r = upload(&mut store, &a.tracking_id, &b.attachments[0].tracking_id, vec![1]);
    assert!(matches!(r, Err(Error::UnknownAttachmentTrackingId)));
    // nothing was uploaded, so completing still misses the attachment
    let r = finish(&mut store, &a.tracking_id, NOW);
    assert!(matches!(r, Err(Error::MissingAttachment)));
}

#[test]
fn second_complete_is_unknown() {
    let mut store = PendingStore::new();
    let a = start(&mut store, request(100, vec![("a.pdf", "application/pdf")]), NOW).ok().unwrap();
    assert!(upload(&mut store, &a.tracking_id, &a.attachments[0].tracking_id, vec![7]).is_ok());
    assert!(finish(&mut store, &a.tracking_id, NOW).is_ok());
    let r = finish(&mut store, &a.tracking_id, NOW);
    assert!(matches!(r, Err(Error::UnknownTrackingId)));
}

#[test]
fn racing_completes_send_once() {
    let mut store = PendingStore::new();
    let a = start(&mut store, request(100, vec![("a.pdf", "application/pdf")]), NOW).ok().unwrap();
    assert!(upload(&mut store, &a.tracking_id, &a.attachments[0].tracking_id, vec![7]).is_ok());
    let first = finish(&mut store, &a.tracking_id, NOW);
    let second = finish(&mut store, &a.tracking_id, NOW);
    let oks = [first.is_ok(), second.is_ok()].iter().filter(|x| **x).count();
    assert_eq!(oks, 1);
    assert!(matches!(second, Err(Error::UnknownTrackingId)));
}

#[test]
fn expired_submission_fails_then_is_gone() {
    let mut store = PendingStore::new();
    let a = start(&mut store, request(100, vec![("a.pdf", "application/pdf")]), NOW).ok().unwrap();
    assert!(upload(&mut store, &a.tracking_id, &a.attachments[0].tracking_id, vec![7]).is_ok());
    let r = finish(&mut store, &a.tracking_id, NOW + 3600);
    assert!(matches!(r, Err(Error::DigidecsExpired)));
    let r = finish(&mut store, &a.tracking_id, NOW);
    assert!(matches!(r, Err(Error::UnknownTrackingId)));
}

#[test]
fn one_second_before_expiry_completes() {
    let mut store = PendingStore::new();
    let a = start(&mut store, request(100, vec![("a.pdf", "application/pdf")]), NOW).ok().unwrap();
    assert!(upload(&mut store, &a.tracking_id, &a.attachments[0].tracking_id, vec![7]).is_ok());
    assert!(finish(&mut store, &a.tracking_id, NOW + 3599).is_ok());
}

#[test]
fn missing_attachment_fails_and_discards() {
    let mut store = PendingStore::new();
    let a = start(&mut store, request(100, vec![("a.pdf", "application/pdf"), ("b.pdf", "application/pdf")]), NOW).ok().unwrap();
    assert!(upload(&mut store, &a.tracking_id, &a.attachments[0].tracking_id, vec![7]).is_ok());
    let r = finish(&mut store, &a.tracking_id, NOW);
    assert!(matches!(r, Err(Error::MissingAttachment)));
    assert_eq!(store.len(), 0);
}

#[test]
fn bad_mime_type_fails_composition() {
    let mut store = PendingStore::new();
    let a = start(&mut store, request(100, vec![("a.bin", "not a mime type")]), NOW).ok().unwrap();
    assert!(upload(&mut store, &a.tracking_id, &a.attachments[0].tracking_id, vec![7]).is_ok());
    let r = finish(&mut store, &a.tracking_id, NOW);
    assert!(matches!(r, Err(Error::Email(_))));
}

#[test]
fn egress_skips_loopback_and_link_local() {
    let addrs = vec![
        Some(Ipv4Address(127, 0, 0, 1)),
        Some(Ipv4Address(169, 254, 1, 1)),
        None,
        Some(Ipv4Address(10, 0, 0, 5)),
    ];
    let c = egress_candidates(&addrs);
    assert_eq!(c, vec![Ipv4Address(10, 0, 0, 5)]);
    let reachable = vec![true];
    assert_eq!(select_egress(&c, &reachable).ok(), Some(Ipv4Address(10, 0, 0, 5)));
    let reordered = vec![Some(Ipv4Address(10, 0, 0, 5)), Some(Ipv4Address(169, 254, 1, 1)), Some(Ipv4Address(127, 0, 0, 1))];
    assert_eq!(egress_candidates(&reordered), vec![Ipv4Address(10, 0, 0, 5)]);
}

#[test]
fn egress_fails_without_reachable_candidate() {
    let c = vec![Ipv4Address(10, 0, 0, 5), Ipv4Address(192, 168, 1, 2)];
    assert!(matches!(select_egress(&c, &vec![false, false]), Err(AddressError::Undeterminable)));
    assert_eq!(select_egress(&c, &vec![false, true]).ok(), Some(Ipv4Address(192, 168, 1, 2)));
}

#[test]
fn probe_target_takes_first_v4() {
    assert!(matches!(probe_target(&vec![None, None]), Err(AddressError::NoRemote)));
    let t = probe_target(&vec![None, Some(Ipv4Address(142, 250, 1, 1)), Some(Ipv4Address(1, 1, 1, 1))]);
    assert_eq!(t.ok(), Some(Ipv4Address(142, 250, 1, 1)));
}

#[test]
fn cents_are_formatted_with_two_decimals() {
    assert_eq!(format_cents(4250), "42.50");
    assert_eq!(format_cents(5), "0.05");
    assert_eq!(format_cents(100000), "1000.00");
    assert_eq!(format_cents(1999), "19.99");
}

#[test]
fn first_word_of_name() {
    assert_eq!(first_word("Jan de Vries"), "Jan");
    assert_eq!(first_word("Piet"), "Piet");
    assert_eq!(first_word(" leading"), "");
}

#[test]
fn validation_predicates() {
    assert!(validate_email("foo@example.com"));
    assert!(!validate_email("foo@example"));
    assert!(!validate_email("foo example.com"));
    assert!(validate_iban("NL91ABNA0417164300"));
    assert!(validate_iban("DE89370400440532013000"));
    assert!(!validate_iban("NL91ABNA0417164301"));
}

#[test]
fn status_codes() {
    assert_eq!(Error::InvalidIban.status_code(), 400);
    assert_eq!(Error::InvalidEmail.status_code(), 400);
    assert_eq!(Error::MissingAttachment.status_code(), 400);
    assert_eq!(Error::ValueNegativeOrZero.status_code(), 400);
    assert_eq!(Error::DigidecsExpired.status_code(), 400);
    assert_eq!(Error::UnknownTrackingId.status_code(), 404);
    assert_eq!(Error::UnknownAttachmentTrackingId.status_code(), 404);
    assert_eq!(Error::Email(digidecs::email::SendError::Connect).status_code(), 500);
}

#[test]
fn smtp_session_decisions() {
    assert_eq!(smtp_next(SessionEvent::Opened { starttls_offered: true }).ok(), Some(SessionAction::UpgradeTls));
    assert_eq!(smtp_next(SessionEvent::Opened { starttls_offered: false }).ok(), Some(SessionAction::CheckReady));
    assert_eq!(smtp_next(SessionEvent::Upgraded).ok(), Some(SessionAction::CheckReady));
    assert_eq!(smtp_next(SessionEvent::ReadyChecked { ready: true }).ok(), Some(SessionAction::SendMessage));
    assert!(matches!(smtp_next(SessionEvent::ReadyChecked { ready: false }), Err(digidecs::email::SendError::Connect)));
}

#[test]
fn smtp_plan_needs_sender_domain() {
    let plan = smtp_plan(&config().smtp).ok().unwrap();
    assert_eq!(plan.client_domain, "example.com");
    assert_eq!(plan.relay, "smtp.example.com");
    assert_eq!(plan.port, 587);
    let mut smtp = config().smtp;
    smtp.from_email = "noreply".to_string();
    assert!(matches!(smtp_plan(&smtp), Err(digidecs::email::SendError::EmailParse)));
}

#[test]
fn templates_render_fields() {
    let body = render_treasurer(&TreasurerData {
        name: "Jan".to_string(),
        iban: "NL91ABNA0417164300".to_string(),
        email: "jan@example.com".to_string(),
        value: "12.00".to_string(),
        what: "Taart".to_string(),
        commission: "Bestuur".to_string(),
        notes: Some("voor de vergadering".to_string()),
    })
    .ok()
    .unwrap();
    assert!(body.contains("voor de vergadering"));
    assert!(body.contains("12.00"));
    assert!(!body.contains("{{"));
    let en = render_submitter(&SubmitterData { first_name: "Ann".to_string() }, &EmailLanguage::En).ok().unwrap();
    assert!(en.contains("Hi Ann,"));
}

#[test]
fn subjects_and_languages() {
    assert_eq!(submitter_subject(&EmailLanguage::En), "Your DigiDecs has been received!");
    assert_eq!(submitter_subject(&EmailLanguage::Nl), "Je DigiDecs is ontvangen!");
    assert_eq!(map_locale_to_email_lang(&Locale::En), EmailLanguage::En);
    assert_eq!(map_locale_to_email_lang(&Locale::Nl), EmailLanguage::Nl);
    assert_eq!(default_port(), 8080);
}

#[test]
fn submission_completes_on_the_clock() {
    let mut store = PendingStore::new();
    let a = start_now(&mut store, request(1250, vec![("a.pdf", "application/pdf")])).ok().unwrap();
    assert!(upload(&mut store, &a.tracking_id, &a.attachments[0].tracking_id, vec![9]).is_ok());
    let query = CompleteQuery { tracking_id: a.tracking_id.clone() };
    let n = complete_now(&mut store, &query, &config()).ok().unwrap();
    assert!(n.treasurer.html_body.contains("12.50"));
    assert!(matches!(complete_now(&mut store, &query, &config()), Err(Error::UnknownTrackingId)));
}

#[test]
fn second_upload_replaces_the_first() {
    let mut store = PendingStore::new();
    let a = start(&mut store, request(100, vec![("a.pdf", "application/pdf"), ("b.pdf", "application/pdf")]), NOW).ok().unwrap();
    assert!(upload(&mut store, &a.tracking_id, &a.attachments[1].tracking_id, vec![1]).is_ok());
    assert!(upload(&mut store, &a.tracking_id, &a.attachments[1].tracking_id, vec![2, 2]).is_ok());
    assert!(upload(&mut store, &a.tracking_id, &a.attachments[0].tracking_id, vec![3]).is_ok());
    let n = finish(&mut store, &a.tracking_id, NOW).ok().unwrap();
    assert_eq!(n.treasurer.attachments[0].content, vec![3]);
    assert_eq!(n.treasurer.attachments[1].content, vec![2, 2]);
    assert_eq!(n.treasurer.attachments[1].name, "b.pdf");
}
