//! Instants, texts, JSON, digests, errors and models.

use rein_ops::error::OpsErrorKind;
use rein_ops::hash::{hex16, leading_u64};
use rein_ops::inventory::AuthPolicy;
use rein_ops::json::{
    bool_of, jsonl_entries, queue_position, signed_of, text_of, unsigned_of, JsonField,
};
use rein_ops::llm::{
    create_ars_extractor, create_cold_archive_extractor, create_concept_summary_extractor,
    unreadable_verdict, ExtractorKind, Provider, ResolvedLlm,
};
use rein_ops::text::split_list;
use rein_ops::time::{
    elapsed_secs, format_compact_date, format_date, format_minute, is_older_than, parse_dt_end,
    parse_dt_start, parse_rfc3339, to_rfc3339, Timestamp, MAX_SECS, MIN_SECS,
};
use rein_ops::types::{stronger_tier, Importance, MemoryTier};

#[test]
fn instants_are_those_of_the_calendar() {
    assert!(Timestamp::new(0, 999_999_999).is_some());
    assert!(Timestamp::new(0, 1_000_000_000).is_none(), "no leap second at :00");
    assert!(Timestamp::new(59, 1_500_000_000).is_some());
    assert!(Timestamp::new(-1, 1_500_000_000).is_some());
    assert!(Timestamp::new(MAX_SECS, 0).is_some());
    assert!(Timestamp::new(MAX_SECS + 1, 0).is_none());
    assert!(Timestamp::new(MIN_SECS, 0).is_some());
    assert!(Timestamp::new(MIN_SECS - 1, 0).is_none());
    // The ends of the calendar can be written.
    assert_eq!(format_date(&Timestamp::new(MAX_SECS, 0).unwrap()), "+262142-12-31");
    assert_eq!(format_date(&Timestamp::new(MIN_SECS, 0).unwrap()), "-262143-01-01");
    assert_eq!(to_rfc3339(&Timestamp::new(MAX_SECS, 0).unwrap()), "+262142-12-31T23:59:59+00:00");
    assert_eq!(to_rfc3339(&Timestamp::new(MIN_SECS, 0).unwrap()), "-262143-01-01T00:00:00+00:00");
    assert_eq!(
        elapsed_secs(
            &Timestamp::new(MAX_SECS, 0).unwrap(),
            &Timestamp::new(MIN_SECS, 0).unwrap(),
        ),
        MAX_SECS - MIN_SECS
    );
}

#[test]
fn instants_are_read_and_written() {
    let t = parse_rfc3339("2026-04-24T14:00:30.25+02:00").expect("readable");
    assert_eq!(to_rfc3339(&t), "2026-04-24T12:00:30.250+00:00");
    assert_eq!(t.subsec_nanos(), 250_000_000);
    assert_eq!(format_date(&t), "2026-04-24");
    assert_eq!(format_compact_date(&t), "20260424");
    assert_eq!(format_minute(&t), "2026-04-24 12:00");
    assert_eq!(parse_rfc3339("2026-04-24"), None);
    assert_eq!(parse_dt_start("2026-04-24").map(|t| t.unix_secs()), Some(1_776_988_800));
    assert_eq!(parse_dt_end("2026-04-24").map(|t| t.unix_secs()), Some(1_777_075_199));
    assert_eq!(parse_dt_end("1970-01-01T00:00:07Z").map(|t| t.unix_secs()), Some(7));
    assert_eq!(parse_dt_start("2026-02-30"), None);
}

#[test]
fn spans_are_counted_in_whole_seconds() {
    let a = Timestamp::new(10, 400_000_000).unwrap();
    let b = Timestamp::new(12, 300_000_000).unwrap();
    assert_eq!(elapsed_secs(&b, &a), 1);
    assert_eq!(elapsed_secs(&a, &b), -1, "rounded toward zero");
    // A leap second counts for a second of its own.
    let leap = Timestamp::new(59, 1_500_000_000).unwrap();
    assert_eq!(elapsed_secs(&leap, &Timestamp::new(59, 0).unwrap()), 1);
    assert_eq!(elapsed_secs(&leap, &Timestamp::new(0, 0).unwrap()), 60);
    assert_eq!(elapsed_secs(&Timestamp::new(60, 0).unwrap(), &leap), 0);
    assert_eq!(elapsed_secs(&Timestamp::new(120, 0).unwrap(), &leap), 60);
    assert_eq!(elapsed_secs(&leap, &Timestamp::new(120, 0).unwrap()), -60);
    // The next day its time of day lies before it.
    assert_eq!(elapsed_secs(&Timestamp::new(86_400, 0).unwrap(), &leap), 86_339);
    assert!(a.is_before(&b));
    assert_eq!(a.latest(&b), b);
    assert!(is_older_than(&a, &Timestamp::new(11, 400_000_001).unwrap(), 1));
    assert!(!is_older_than(&a, &Timestamp::new(11, 400_000_000).unwrap(), 1));
}

#[test]
fn lists_are_split_at_commas() {
    assert_eq!(split_list(" a ,, b c ,"), vec!["a", "b c"]);
    assert!(split_list(" , ").is_empty());
}

#[test]
fn queue_files_have_one_entry_a_line() {
    assert_eq!(jsonl_entries("{\"a\":1}\n\n  \n{\"b\":2}\n").len(), 2);
    assert_eq!(queue_position("{}\n{}\n"), 2);
    assert_eq!(queue_position(""), 1, "never below one");
}

#[test]
fn append_jsonl_line_increments_position() {
    let mut text = String::new();
    text.push_str("{\"x\":1}\n");
    let p1 = queue_position(&text);
    text.push_str("{\"x\":2}\n");
    let p2 = queue_position(&text);
    assert_eq!(p1, 1);
    assert_eq!(p2, 2);
    assert_eq!(text.lines().count(), 2);
}

#[test]
fn members_are_read_by_their_type() {
    let m = vec![
        ("text".to_string(), JsonField::Text("t".to_string())),
        ("yes".to_string(), JsonField::Bool(true)),
        ("less".to_string(), JsonField::Number { signed: Some(-1), unsigned: None }),
        ("more".to_string(), JsonField::Number { signed: None, unsigned: Some(u64::MAX) }),
        ("none".to_string(), JsonField::Null),
        ("list".to_string(), JsonField::Array),
    ];
    assert_eq!(text_of(&m, "text").as_deref(), Some("t"));
    assert_eq!(text_of(&m, "yes"), None);
    assert_eq!(text_of(&m, "absent"), None);
    assert_eq!(bool_of(&m, "yes"), Some(true));
    assert_eq!(bool_of(&m, "none"), None);
    assert_eq!((signed_of(&m, "less"), unsigned_of(&m, "less")), (Some(-1), None));
    assert_eq!((signed_of(&m, "more"), unsigned_of(&m, "more")), (None, Some(u64::MAX)));
    assert_eq!(signed_of(&m, "list"), None);
}

#[test]
fn digests_are_written_in_hex() {
    assert_eq!(leading_u64(&vec![1, 2, 3, 4, 5, 6, 7, 8, 9]), 0x0102_0304_0506_0708);
    assert_eq!(leading_u64(&vec![255; 8]), u64::MAX);
    assert_eq!(hex16(0), "0000000000000000");
    assert_eq!(hex16(0xdead_beef_0123_4567), "deadbeef01234567");
}

#[test]
fn errors_have_their_status() {
    let all = [
        (OpsErrorKind::BadRequest, 400),
        (OpsErrorKind::Unauthorized, 401),
        (OpsErrorKind::Forbidden, 403),
        (OpsErrorKind::NotFound, 404),
        (OpsErrorKind::Conflict, 409),
        (OpsErrorKind::Internal, 500),
    ];
    for (kind, status) in all {
        assert_eq!(kind.status_code(), status);
    }
    assert_eq!(AuthPolicy::MutationMarker.as_str(), "mutation_marker");
}

#[test]
fn levels_are_compared() {
    assert_eq!(Importance::Low.greater(Importance::High), Importance::High);
    assert_eq!(Importance::Critical.greater(Importance::Low), Importance::Critical);
    assert_eq!(Importance::Medium.as_str(), "medium");
    assert_eq!(stronger_tier(MemoryTier::Cold, MemoryTier::Warm), MemoryTier::Warm);
    assert_eq!(stronger_tier(MemoryTier::Hot, MemoryTier::Cold), MemoryTier::Hot);
}

fn resolved(provider: Provider) -> Option<ResolvedLlm> {
    Some(ResolvedLlm { provider, endpoint: "e".to_string(), model: "m".to_string() })
}

#[test]
fn models_are_chosen() {
    assert!(create_ars_extractor(None, None, Some("k".to_string()), false).is_none());
    assert!(create_ars_extractor(resolved(Provider::Disabled), None, None, false).is_none());
    assert!(
        create_concept_summary_extractor(resolved(Provider::Google), None, None, false).is_none(),
        "no key"
    );
    match create_cold_archive_extractor(
        resolved(Provider::Google),
        Some("named".to_string()),
        Some("configured".to_string()),
        false,
    ) {
        Some(model) => {
            assert_eq!(model.model_id(), "gemini:m");
            assert!(matches!(&model, ExtractorKind::Gemini { api_key, .. } if api_key == "named"));
        }
        other => panic!("got {other:?}"),
    }
    match create_ars_extractor(resolved(Provider::Omlx), None, None, true) {
        Some(model) => {
            assert_eq!(model.model_id(), "omlx:m");
            assert!(matches!(&model, ExtractorKind::Omlx { disable_thinking: true, .. }));
        }
        other => panic!("got {other:?}"),
    }
    assert!(unreadable_verdict("maybe").contains("maybe"));
}
