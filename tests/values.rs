use hse_eco_bot::feedback::{FeedbackTopic, InvalidTopicStrError};
use hse_eco_bot::ids::{DirectoryId, FullDirectoryId, FullNoteId, NoteId, ProviderId};
use hse_eco_bot::text::{decimal_text, parse_u64};
use hse_eco_bot::user::{Permissions, User};

#[test]
fn directory_id_text_round_trip() {
    let id = FullDirectoryId {
        provider: ProviderId(3),
        directory: DirectoryId(42),
    };
    assert_eq!(id.to_string(), "3:42");
    assert_eq!(FullDirectoryId::parse(&id.to_string()), Some(id));
    let big = FullDirectoryId {
        provider: ProviderId(u64::MAX),
        directory: DirectoryId(0),
    };
    assert_eq!(big.to_string(), "18446744073709551615:0");
    assert_eq!(FullDirectoryId::parse(&big.to_string()), Some(big));
}

#[test]
fn note_id_text_round_trip() {
    let id = FullNoteId {
        provider: ProviderId(0),
        note: NoteId(1007),
    };
    assert_eq!(id.to_string(), "0:1007");
    assert_eq!(FullNoteId::parse(&id.to_string()), Some(id));
}

#[test]
fn id_text_rejects_malformed_input() {
    assert_eq!(FullDirectoryId::parse("12"), None);
    assert_eq!(FullDirectoryId::parse("1:"), None);
    assert_eq!(FullDirectoryId::parse(":1"), None);
    assert_eq!(FullDirectoryId::parse("a:1"), None);
    assert_eq!(FullDirectoryId::parse("1:2:3"), None);
    assert_eq!(FullDirectoryId::parse("18446744073709551616:0"), None);
    assert_eq!(
        FullNoteId::parse("+1:2"),
        Some(FullNoteId {
            provider: ProviderId(1),
            note: NoteId(2),
        })
    );
}

#[test]
fn decimal_text_and_parse() {
    assert_eq!(decimal_text(0), "0");
    assert_eq!(decimal_text(9), "9");
    assert_eq!(decimal_text(10), "10");
    assert_eq!(decimal_text(u64::MAX), "18446744073709551615");
    assert_eq!(parse_u64("007"), Some(7));
    assert_eq!(parse_u64("+5"), Some(5));
    assert_eq!(parse_u64("+"), None);
    assert_eq!(parse_u64(""), None);
    assert_eq!(parse_u64("-1"), None);
    assert_eq!(parse_u64("18446744073709551615"), Some(u64::MAX));
    assert_eq!(parse_u64("18446744073709551616"), None);
}

#[test]
fn feedback_topics_read_back() {
    for t in [
        FeedbackTopic::HseGreen,
        FeedbackTopic::Bot,
        FeedbackTopic::SuggestEcoInitiative,
        FeedbackTopic::ReportGarbageDump,
        FeedbackTopic::Other,
    ] {
        assert_eq!(FeedbackTopic::parse(&t.to_string()), Ok(t));
    }
    assert_eq!(FeedbackTopic::ReportGarbageDump.to_string(), "report-dump");
    assert_eq!(FeedbackTopic::parse("nothing"), Err(InvalidTopicStrError));
}

#[test]
fn new_user_has_nothing() {
    let mut u = User::new();
    assert_eq!(*u.permissions(), Permissions::default());
    assert!(u.subscriptions().is_empty());
    u.permissions_mut().edit_kb = true;
    u.subscriptions_mut().insert(String::from("feedback"));
    assert!(u.permissions().edit_kb);
    assert!(u.subscriptions().contains("feedback"));
    assert!(Permissions::all().covers(&u.permissions().clone()));
    assert!(!Permissions::default().covers(&Permissions::all()));
}

use hse_eco_bot::callback_query::{parse_callback_query, Query, QueryParseError};

fn d(p: u64, x: u64) -> FullDirectoryId {
    FullDirectoryId {
        provider: ProviderId(p),
        directory: DirectoryId(x),
    }
}

#[test]
fn callback_queries_read_back() {
    let q = Query::KbNavToDir { id: d(0, 5) };
    assert_eq!(q.to_string(), "kb-nav-to-dir@0:5");
    assert_eq!(parse_callback_query("kb-nav-to-dir@0:5"), Ok(q));

    let q = Query::KbMoveNoteHere {
        destination: d(0, 1),
        note: FullNoteId {
            provider: ProviderId(0),
            note: NoteId(2),
        },
    };
    assert_eq!(q.to_string(), "kb-move-note-here@0:1,0:2");
    assert_eq!(parse_callback_query(&q.to_string()), Ok(q));

    let q = Query::KbMoveDirectoryHere {
        destination: d(0, 1),
        directory: d(0, 3),
    };
    assert_eq!(parse_callback_query("kb-move-dir-here@0:1,0:3"), Ok(q));

    assert_eq!(parse_callback_query("form-opt@3"), Ok(Query::FormOption { index: 3 }));
    assert_eq!(
        parse_callback_query("subscribe@feedback"),
        Ok(Query::Subscribe {
            newsletter: String::from("feedback")
        })
    );
    assert_eq!(
        parse_callback_query("unsubscribe@a@b"),
        Ok(Query::Unsubscribe {
            newsletter: String::from("a@b")
        })
    );
    assert_eq!(
        parse_callback_query("open-feedback-topic@bot"),
        Ok(Query::OpenFeedbackTopic {
            topic: FeedbackTopic::Bot
        })
    );
    assert_eq!(parse_callback_query("open-kb"), Ok(Query::OpenKb));
    assert_eq!(Query::ManageSubscriptions.to_string(), "open-sub-settings");
    assert_eq!(
        Query::OpenFeedbackTopic {
            topic: FeedbackTopic::Other
        }
        .to_string(),
        "open-feedback-topic@other"
    );
}

#[test]
fn callback_query_errors() {
    assert_eq!(parse_callback_query(""), Err(QueryParseError::InvalidSyntax));
    assert_eq!(parse_callback_query("a b"), Err(QueryParseError::InvalidSyntax));
    assert_eq!(parse_callback_query("@x"), Err(QueryParseError::InvalidSyntax));
    assert_eq!(
        parse_callback_query("kb-nav-to-dir@0:1\n"),
        Err(QueryParseError::InvalidSyntax)
    );
    assert_eq!(
        parse_callback_query("nope"),
        Err(QueryParseError::InvalidCommand {
            command: String::from("nope")
        })
    );
    assert_eq!(
        parse_callback_query("open-kb@x"),
        Err(QueryParseError::InvalidPayload {
            command: String::from("open-kb"),
            payload: Some(String::from("x"))
        })
    );
    assert_eq!(
        parse_callback_query("kb-nav-to-dir"),
        Err(QueryParseError::InvalidPayload {
            command: String::from("kb-nav-to-dir"),
            payload: None
        })
    );
    assert_eq!(
        parse_callback_query("kb-nav-to-note@0-1"),
        Err(QueryParseError::InvalidPayload {
            command: String::from("kb-nav-to-note"),
            payload: Some(String::from("0-1"))
        })
    );
    assert_eq!(
        parse_callback_query("form-opt@-1"),
        Err(QueryParseError::InvalidPayload {
            command: String::from("form-opt"),
            payload: Some(String::from("-1"))
        })
    );
    assert_eq!(
        parse_callback_query("subscribe"),
        Err(QueryParseError::InvalidPayload {
            command: String::from("subscribe"),
            payload: None
        })
    );
}
