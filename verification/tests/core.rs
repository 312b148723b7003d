//! Tests for the derived-value algorithms: timestamp decoding, the
//! ordering shortcut, percent-decoding, attachment resolution,
//! plain-text extraction, the participant index, conversation
//! selection and the event sort.

use hangouts_json_parser::DecodeError;
use hangouts_json_parser::json::JsonValue;
use hangouts_json_parser::raw::{
    Annotation, ChatSegment, ChatSegments, Conversation, ConversationDetails, ConversationHeader,
    ConversationId, Event, EventData, EventHeader, Formatting, HangoutEvent, NotificationLevel,
    ParticipantData, ParticipantId, ReadState, SelfConversationState, SelfEventState,
};
use hangouts_json_parser::resolve::find_local_file;
use hangouts_json_parser::sort::sort_events;
use hangouts_json_parser::timestamp::decode_timestamp;
use hangouts_json_parser::urldecode::urldecode;

fn pid(g: &str, c: &str) -> ParticipantId {
    ParticipantId {
        gaia_id: g.to_string(),
        chat_id: c.to_string(),
    }
}

fn profile(g: &str, c: &str, name: Option<&str>) -> ParticipantData {
    ParticipantData {
        id: pid(g, c),
        fallback_name: name.map(|s| s.to_string()),
        invitation_status: None,
        participant_type: None,
        new_invitation_status: None,
        in_different_customer_as_requester: None,
        domain_id: None,
        phone_number: None,
    }
}

fn read_state(g: &str, c: &str) -> ReadState {
    ReadState {
        participant_id: pid(g, c),
        latest_read_timestamp: "0".to_string(),
    }
}

fn details(id: &str, participants: Vec<ParticipantData>) -> ConversationDetails {
    ConversationDetails {
        id: ConversationId { id: id.to_string() },
        typ: "STICKY_ONE_TO_ONE".to_string(),
        name: None,
        self_conversation_state: SelfConversationState {
            self_read_state: read_state("me", "me"),
            status: "ACTIVE".to_string(),
            notification_level: NotificationLevel::Ring,
            view: vec!["INBOX_VIEW".to_string()],
            inviter_id: pid("me", "me"),
            invite_timestamp: "0".to_string(),
            invitation_display_type: None,
            invite_affinity: None,
            sort_timestamp: "0".to_string(),
            active_timestamp: None,
            delivery_medium_option: None,
            is_guest: None,
        },
        read_state: vec![],
        has_active_hangout: false,
        otr_status: "ON_THE_RECORD".to_string(),
        otr_toggle: "ENABLED".to_string(),
        current_participant: vec![],
        participant_data: participants,
        fork_on_external_invite: false,
        network_type: vec!["BABEL".to_string()],
        force_history_state: "NO_OPTIONS".to_string(),
        group_link_sharing_status: "LINK_SHARING_OFF".to_string(),
    }
}

fn conversation(id: &str, participants: Vec<ParticipantData>, events: Vec<Event>) -> Conversation {
    Conversation {
        header: ConversationHeader {
            conversation_id: ConversationId { id: id.to_string() },
            details: details(id, participants),
        },
        events,
    }
}

fn header(ts: &str) -> EventHeader {
    EventHeader {
        conversation_id: ConversationId { id: "c1".to_string() },
        sender_id: pid("g1", "c1"),
        timestamp: ts.to_string(),
        self_event_state: SelfEventState {
            user_id: pid("me", "me"),
            client_generated_id: None,
            notification_level: None,
        },
        event_id: "e1".to_string(),
        advances_sort_timestamp: false,
        event_otr: "ON_THE_RECORD".to_string(),
        delivery_medium: JsonValue::Null,
        event_version: "0".to_string(),
    }
}

fn chat_event(ts: &str, segments: Vec<ChatSegment>) -> Event {
    Event {
        header: header(ts),
        data: EventData::ChatMessage {
            message_content: ChatSegments { segments, attachments: vec![] },
            annotation: None,
        },
        event_type: "REGULAR_CHAT_MESSAGE".to_string(),
    }
}

#[test]
fn timestamp_sixteen_digits() {
    let r = decode_timestamp("1434650651571028").unwrap();
    assert_eq!(r, (1434650651, 571028000));
}

#[test]
fn timestamp_thirteen_digits() {
    // The seconds are all digits but the last six; the nanoseconds
    // are the last six digits times a thousand.
    let r = decode_timestamp("1234567890123").unwrap();
    assert_eq!(r, (1234567, 890123000));
}

#[test]
fn timestamp_seven_digits() {
    let r = decode_timestamp("1571028").unwrap();
    assert_eq!(r, (1, 571028000));
}

#[test]
fn timestamp_negative_seconds() {
    let r = decode_timestamp("-1571028").unwrap();
    assert_eq!(r, (-1, 571028000));
}

#[test]
fn timestamp_rejects_non_digit() {
    assert_eq!(
        decode_timestamp("14346a0651571028"),
        Err(DecodeError::MalformedTimestamp)
    );
}

#[test]
fn timestamp_rejects_short() {
    assert_eq!(decode_timestamp("123456"), Err(DecodeError::MalformedTimestamp));
    assert_eq!(decode_timestamp(""), Err(DecodeError::MalformedTimestamp));
}

#[test]
fn timestamp_rejects_overflow() {
    assert_eq!(
        decode_timestamp("99999999999999999999999999"),
        Err(DecodeError::MalformedTimestamp)
    );
}

#[test]
fn lex_order_matches_numeric_order() {
    // Equal-length timestamps: string order and decoded order agree.
    let a = "1434650651571028";
    let b = "1434650651571029";
    let c = "1434650652000000";
    assert!(a < b && b < c);
    let da = decode_timestamp(a).unwrap();
    let db = decode_timestamp(b).unwrap();
    let dc = decode_timestamp(c).unwrap();
    assert!(da < db && db < dc);
}

#[test]
fn urldecode_no_percent_unchanged() {
    assert_eq!(urldecode("My Photo.jpg").unwrap(), "My Photo.jpg");
    assert_eq!(urldecode("").unwrap(), "");
}

#[test]
fn urldecode_plus_sequence() {
    assert_eq!(urldecode("%2B").unwrap(), "+");
}

#[test]
fn urldecode_truncated_fails() {
    assert_eq!(urldecode("%2"), Err(DecodeError::MalformedUrlEncoding));
}

#[test]
fn urldecode_bad_hex_fails() {
    assert_eq!(urldecode("%zz"), Err(DecodeError::MalformedUrlEncoding));
}

#[test]
fn urldecode_invalid_text_fails() {
    // 0xFF alone is not well-formed text.
    assert_eq!(urldecode("%FF"), Err(DecodeError::MalformedUrlEncoding));
}

#[test]
fn urldecode_multibyte() {
    assert_eq!(urldecode("caf%C3%A9").unwrap(), "caf\u{e9}");
}

#[test]
fn iterated_decoding_terminates() {
    // "%61" decodes to "a", which is its own decoding: a fixed
    // point is reached after one step, within a bounded number of
    // passes.
    let mut s = "%61".to_string();
    let mut steps = 0;
    loop {
        steps += 1;
        assert!(steps <= 4);
        match urldecode(&s) {
            Ok(d) => {
                if d == s {
                    break;
                }
                s = d;
            }
            Err(_) => break,
        }
    }
    assert_eq!(s, "a");
}

#[test]
fn iterated_decoding_stops_on_failure() {
    // "%2525" -> "%25" -> "%" -> malformed: the ladder ends.
    let mut s = "%2525".to_string();
    let mut steps = 0;
    loop {
        steps += 1;
        assert!(steps <= 6);
        match urldecode(&s) {
            Ok(d) => {
                if d == s {
                    break;
                }
                s = d;
            }
            Err(_) => break,
        }
    }
    assert_eq!(s, "%");
}

#[test]
fn resolver_single_decode() {
    let dir = vec!["My Photo.jpg".to_string()];
    let r = find_local_file("https://host/album/My%20Photo.jpg", &dir);
    assert_eq!(r, Some("My Photo.jpg".to_string()));
}

#[test]
fn resolver_double_decode_and_extension() {
    // The segment is encoded twice and the saved file gained an
    // extension: only the extension-append and the second decode
    // together find it.
    let dir = vec!["img name.jpg".to_string()];
    let r = find_local_file("https://host/a/img%2520name", &dir);
    assert_eq!(r, Some("img name.jpg".to_string()));
}

#[test]
fn resolver_substitutes_plus_and_question_mark() {
    let dir = vec!["a b_c".to_string()];
    let r = find_local_file("https://host/a+b%3Fc", &dir);
    assert_eq!(r, Some("a b_c".to_string()));
}

#[test]
fn resolver_no_match_is_absent() {
    let dir = vec!["other.png".to_string()];
    assert_eq!(find_local_file("https://host/a/missing.jpg", &dir), None);
}

#[test]
fn resolver_empty_directory() {
    let dir: Vec<String> = vec![];
    assert_eq!(find_local_file("https://host/a/b.jpg", &dir), None);
}

#[test]
fn text_only_concatenates_segments() {
    let e = chat_event(
        "1434650651571028",
        vec![
            ChatSegment::Text { text: "Hi ".to_string(), formatting: Formatting {
                bold: false,
                italics: false,
                strikethrough: false,
                underline: false,
            } },
            ChatSegment::LineBreak { text: None },
            ChatSegment::Text { text: "there".to_string(), formatting: Formatting {
                bold: false,
                italics: false,
                strikethrough: false,
                underline: false,
            } },
        ],
    );
    assert_eq!(e.text_only(), Some("Hi \nthere".to_string()));
}

#[test]
fn text_only_line_break_with_text() {
    let e = chat_event(
        "1434650651571028",
        vec![ChatSegment::LineBreak { text: Some("\r\n".to_string()) }],
    );
    assert_eq!(e.text_only(), Some("\r\n".to_string()));
}

#[test]
fn text_only_links_contribute_nothing() {
    let e = chat_event(
        "1434650651571028",
        vec![
            ChatSegment::Text { text: "see ".to_string(), formatting: Formatting {
                bold: true,
                italics: false,
                strikethrough: false,
                underline: false,
            } },
            ChatSegment::Link {
                text: "here".to_string(),
                link_data: hangouts_json_parser::raw::LinkData {
                    link_target: "https://example.net/".to_string(),
                    display_url: None,
                },
                formatting: Formatting {
                    bold: false,
                    italics: false,
                    strikethrough: false,
                    underline: false,
                },
            },
        ],
    );
    assert_eq!(e.text_only(), Some("see ".to_string()));
}

#[test]
fn text_only_absent_for_other_kinds() {
    let e = Event {
        header: header("1434650651571028"),
        data: EventData::MembershipChange { typ: "JOIN".to_string(), participant_id: vec![] },
        event_type: "ADD_USER".to_string(),
    };
    assert_eq!(e.text_only(), None);
}

#[test]
fn text_only_empty_message() {
    let e = chat_event("1434650651571028", vec![]);
    assert_eq!(e.text_only(), Some(String::new()));
}

#[test]
fn index_first_wins() {
    // The same identifier appears with name "Alice" first and
    // "Alicia" later: the index keeps "Alice".
    let h = hangouts_json_parser::raw::Hangouts {
        conversations: vec![
            conversation("c1", vec![profile("g9", "c9", Some("Alice"))], vec![]),
            conversation("c2", vec![profile("g9", "c9", Some("Alicia"))], vec![]),
        ],
    };
    let index = h.participants();
    assert_eq!(index.len(), 1);
    let p = index.get(&pid("g9", "c9")).unwrap();
    assert_eq!(p.fallback_name.as_deref(), Some("Alice"));
}

#[test]
fn index_of_empty_document_is_empty() {
    let h = hangouts_json_parser::raw::Hangouts { conversations: vec![] };
    let index = h.participants();
    assert_eq!(index.len(), 0);
    assert!(index.get(&pid("g9", "c9")).is_none());
}

#[test]
fn index_distinct_ids_kept() {
    let h = hangouts_json_parser::raw::Hangouts {
        conversations: vec![conversation(
            "c1",
            vec![
                profile("g1", "c1", Some("Ann")),
                profile("g2", "c2", Some("Ben")),
            ],
            vec![],
        )],
    };
    let index = h.participants();
    assert_eq!(index.len(), 2);
    assert_eq!(
        index.get(&pid("g2", "c2")).unwrap().fallback_name.as_deref(),
        Some("Ben")
    );
}

#[test]
fn selector_finds_first_match() {
    let h = hangouts_json_parser::raw::Hangouts {
        conversations: vec![
            conversation("c1", vec![profile("g1", "c1", Some("Ben"))], vec![]),
            conversation("c2", vec![profile("g2", "c2", Some("Ann"))], vec![]),
            conversation("c3", vec![profile("g3", "c3", Some("Ann"))], vec![]),
        ],
    };
    assert_eq!(h.find_conversation_by_participant_name("Ann"), Some(1));
}

#[test]
fn selector_is_case_sensitive() {
    let h = hangouts_json_parser::raw::Hangouts {
        conversations: vec![conversation("c1", vec![profile("g1", "c1", Some("Ann"))], vec![])],
    };
    assert_eq!(h.find_conversation_by_participant_name("ann"), None);
}

#[test]
fn selector_ignores_absent_names() {
    let h = hangouts_json_parser::raw::Hangouts {
        conversations: vec![conversation("c1", vec![profile("g1", "c1", None)], vec![])],
    };
    assert_eq!(h.find_conversation_by_participant_name(""), None);
}

#[test]
fn sort_orders_events_by_raw_timestamp() {
    let mut events = vec![
        chat_event("1434650651571030", vec![]),
        chat_event("1434650651571028", vec![]),
        chat_event("1434650651571029", vec![]),
    ];
    sort_events(&mut events);
    let keys: Vec<&str> = events.iter().map(|e| e.header.timestamp.as_str()).collect();
    assert_eq!(
        keys,
        vec!["1434650651571028", "1434650651571029", "1434650651571030"]
    );
}

#[test]
fn sort_keeps_equal_keys_in_order() {
    let mut events = vec![
        Event { header: header("2"), data: EventData::MembershipChange {
            typ: "a".to_string(),
            participant_id: vec![],
        }, event_type: "X".to_string() },
        Event { header: header("1"), data: EventData::MembershipChange {
            typ: "b".to_string(),
            participant_id: vec![],
        }, event_type: "X".to_string() },
        Event { header: header("1"), data: EventData::MembershipChange {
            typ: "c".to_string(),
            participant_id: vec![],
        }, event_type: "X".to_string() },
    ];
    sort_events(&mut events);
    let marks: Vec<String> = events
        .iter()
        .map(|e| match &e.data {
            EventData::MembershipChange { typ, .. } => typ.clone(),
            _ => unreachable!(),
        })
        .collect();
    assert_eq!(marks, vec!["b".to_string(), "c".to_string(), "a".to_string()]);
}

#[test]
fn hangout_event_payloads() {
    let e = Event {
        header: header("1434650651571028"),
        data: EventData::HangoutEvent {
            data: HangoutEvent::EndHangout { hangout_duration_secs: "60".to_string() },
            media_type: "AUDIO_ONLY".to_string(),
            participant_id: vec![pid("g1", "c1")],
        },
        event_type: "HANGOUT_EVENT".to_string(),
    };
    assert_eq!(e.text_only(), None);
    match e.data {
        EventData::HangoutEvent { data: HangoutEvent::EndHangout { hangout_duration_secs }, .. } => {
            assert_eq!(hangout_duration_secs, "60");
        }
        _ => unreachable!(),
    }
}

#[test]
fn annotation_fields_carry_through() {
    let a = Annotation { typ: 4, value: "/me".to_string() };
    assert_eq!(a.typ, 4);
    assert_eq!(a.value, "/me");
}

#[test]
fn timestamp_most_negative_seconds() {
    let r = decode_timestamp("-9223372036854775808571028").unwrap();
    assert_eq!(r, (i64::MIN, 571028000));
    assert_eq!(
        decode_timestamp("-9223372036854775809571028"),
        Err(DecodeError::MalformedTimestamp)
    );
}

#[test]
fn resolver_trailing_slash_url() {
    let dir = vec!["x.jpg".to_string()];
    assert_eq!(find_local_file("https://host/a/", &dir), None);
}

#[test]
fn resolver_empty_url() {
    let dir = vec!["x.jpg".to_string()];
    assert_eq!(find_local_file("", &dir), None);
}

#[test]
fn resolver_candidate_without_slash() {
    let dir = vec!["plain".to_string()];
    assert_eq!(find_local_file("plain", &dir), Some("plain".to_string()));
}

#[test]
fn conversation_sort_events_method() {
    let mut c = conversation(
        "c1",
        vec![],
        vec![
            chat_event("1434650651571029", vec![]),
            chat_event("1434650651571028", vec![]),
        ],
    );
    c.sort_events();
    assert_eq!(c.events[0].header.timestamp, "1434650651571028");
    assert_eq!(c.events[1].header.timestamp, "1434650651571029");
}
