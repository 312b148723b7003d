//! Tests for schema ingestion: lenient and strict modes, required
//! and optional fields, tagged unions, defaults, and every error
//! variant.

use hangouts_json_parser::ingest::parse;
use hangouts_json_parser::json::{JsonValue, ParseMode, SchemaError};
use hangouts_json_parser::raw::{ChatSegment, EventData, HangoutEvent, NotificationLevel};

fn s(v: &str) -> JsonValue {
    JsonValue::Str(v.to_string())
}

fn obj(fields: Vec<(&str, JsonValue)>) -> JsonValue {
    JsonValue::Obj(fields.into_iter().map(|(k, v)| (k.to_string(), v)).collect())
}

fn pid(g: &str, c: &str) -> JsonValue {
    obj(vec![("gaia_id", s(g)), ("chat_id", s(c))])
}

fn read_state(g: &str, c: &str) -> JsonValue {
    obj(vec![
        ("participant_id", pid(g, c)),
        ("latest_read_timestamp", s("0")),
    ])
}

fn self_conversation_state() -> JsonValue {
    obj(vec![
        ("self_read_state", read_state("me", "me")),
        ("status", s("ACTIVE")),
        ("notification_level", s("RING")),
        ("view", JsonValue::Arr(vec![s("INBOX_VIEW")])),
        ("inviter_id", pid("me", "me")),
        ("invite_timestamp", s("0")),
        ("sort_timestamp", s("0")),
    ])
}

fn participant(g: &str, c: &str, name: Option<&str>) -> JsonValue {
    let mut fields = vec![("id", pid(g, c))];
    if let Some(n) = name {
        fields.push(("fallback_name", s(n)));
    }
    obj(fields)
}

fn details(participants: Vec<JsonValue>) -> JsonValue {
    obj(vec![
        ("id", obj(vec![("id", s("c1"))])),
        ("type", s("STICKY_ONE_TO_ONE")),
        ("self_conversation_state", self_conversation_state()),
        ("read_state", JsonValue::Arr(vec![])),
        ("has_active_hangout", JsonValue::Bool(false)),
        ("otr_status", s("ON_THE_RECORD")),
        ("otr_toggle", s("ENABLED")),
        ("current_participant", JsonValue::Arr(vec![])),
        ("participant_data", JsonValue::Arr(participants)),
        ("fork_on_external_invite", JsonValue::Bool(false)),
        ("network_type", JsonValue::Arr(vec![s("BABEL")])),
        ("force_history_state", s("NO_OPTIONS")),
        ("group_link_sharing_status", s("LINK_SHARING_OFF")),
    ])
}

fn event_header_fields() -> Vec<(&'static str, JsonValue)> {
    vec![
        ("conversation_id", obj(vec![("id", s("c1"))])),
        ("sender_id", pid("g1", "c1")),
        ("timestamp", s("1434650651571028")),
        (
            "self_event_state",
            obj(vec![("user_id", pid("me", "me"))]),
        ),
        ("event_id", s("e1")),
        ("advances_sort_timestamp", JsonValue::Bool(false)),
        ("event_otr", s("ON_THE_RECORD")),
        ("delivery_medium", JsonValue::Null),
        ("event_version", s("0")),
        ("event_type", s("REGULAR_CHAT_MESSAGE")),
    ]
}

fn chat_event(segments: Vec<JsonValue>) -> JsonValue {
    let mut fields = event_header_fields();
    fields.push((
        "chat_message",
        obj(vec![(
            "message_content",
            obj(vec![("segment", JsonValue::Arr(segments))]),
        )]),
    ));
    obj(fields)
}

fn text_segment(t: &str) -> JsonValue {
    obj(vec![("type", s("TEXT")), ("text", s(t))])
}

fn document(events: Vec<JsonValue>) -> JsonValue {
    obj(vec![(
        "conversations",
        JsonValue::Arr(vec![obj(vec![
            (
                "conversation",
                obj(vec![
                    ("conversation_id", obj(vec![("id", s("c1"))])),
                    ("conversation", details(vec![participant("g1", "c1", Some("Ann"))])),
                ]),
            ),
            ("events", JsonValue::Arr(events)),
        ])]),
    )])
}

#[test]
fn lenient_accepts_valid_document() {
    let doc = document(vec![chat_event(vec![text_segment("hello")])]);
    let h = parse(&doc, ParseMode::Lenient).unwrap();
    assert_eq!(h.conversations.len(), 1);
    let c = &h.conversations[0];
    assert_eq!(c.header.conversation_id.id, "c1");
    assert_eq!(c.header.details.typ, "STICKY_ONE_TO_ONE");
    assert_eq!(
        c.header.details.participant_data[0].fallback_name.as_deref(),
        Some("Ann")
    );
    assert_eq!(
        c.header.details.self_conversation_state.notification_level,
        NotificationLevel::Ring
    );
    assert_eq!(c.events.len(), 1);
    let e = &c.events[0];
    assert_eq!(e.header.timestamp, "1434650651571028");
    assert_eq!(e.event_type, "REGULAR_CHAT_MESSAGE");
    match &e.data {
        EventData::ChatMessage { message_content, annotation } => {
            assert!(annotation.is_none());
            assert_eq!(message_content.segments.len(), 1);
            assert!(message_content.attachments.is_empty());
            match &message_content.segments[0] {
                ChatSegment::Text { text, formatting } => {
                    assert_eq!(text, "hello");
                    assert!(!formatting.bold && !formatting.italics);
                }
                _ => unreachable!(),
            }
        }
        _ => unreachable!(),
    }
}

#[test]
fn strict_accepts_clean_document() {
    let doc = document(vec![chat_event(vec![text_segment("hello")])]);
    assert!(parse(&doc, ParseMode::Strict).is_ok());
}

#[test]
fn extra_header_field_lenient_ok_strict_rejected() {
    // One extra, undeclared field on an event header: lenient mode
    // discards it, strict mode rejects the document.
    let mut fields = event_header_fields();
    fields.push(("brand_new_field", s("surprise")));
    fields.push((
        "chat_message",
        obj(vec![(
            "message_content",
            obj(vec![("segment", JsonValue::Arr(vec![text_segment("hi")]))]),
        )]),
    ));
    let doc = document(vec![obj(fields)]);
    assert!(parse(&doc, ParseMode::Lenient).is_ok());
    assert_eq!(
        parse(&doc, ParseMode::Strict).unwrap_err(),
        SchemaError::UnexpectedField("brand_new_field".to_string())
    );
}

#[test]
fn missing_required_field() {
    let mut fields = event_header_fields();
    fields.retain(|(k, _)| *k != "timestamp");
    fields.push((
        "chat_message",
        obj(vec![(
            "message_content",
            obj(vec![]),
        )]),
    ));
    let doc = document(vec![obj(fields)]);
    assert_eq!(
        parse(&doc, ParseMode::Lenient).unwrap_err(),
        SchemaError::MissingField("timestamp".to_string())
    );
}

#[test]
fn unknown_notification_level() {
    let mut scs = self_conversation_state();
    if let JsonValue::Obj(fields) = &mut scs {
        for f in fields.iter_mut() {
            if f.0 == "notification_level" {
                f.1 = s("LOUD");
            }
        }
    }
    let doc = obj(vec![(
        "conversations",
        JsonValue::Arr(vec![obj(vec![
            (
                "conversation",
                obj(vec![
                    ("conversation_id", obj(vec![("id", s("c1"))])),
                    (
                        "conversation",
                        obj(vec![
                            ("id", obj(vec![("id", s("c1"))])),
                            ("type", s("GROUP")),
                            ("self_conversation_state", scs),
                            ("read_state", JsonValue::Arr(vec![])),
                            ("has_active_hangout", JsonValue::Bool(false)),
                            ("otr_status", s("ON_THE_RECORD")),
                            ("otr_toggle", s("ENABLED")),
                            ("current_participant", JsonValue::Arr(vec![])),
                            ("participant_data", JsonValue::Arr(vec![])),
                            ("fork_on_external_invite", JsonValue::Bool(false)),
                            ("network_type", JsonValue::Arr(vec![])),
                            ("force_history_state", s("NO_OPTIONS")),
                            ("group_link_sharing_status", s("LINK_SHARING_OFF")),
                        ]),
                    ),
                ]),
            ),
            ("events", JsonValue::Arr(vec![])),
        ])]),
    )]);
    assert_eq!(
        parse(&doc, ParseMode::Lenient).unwrap_err(),
        SchemaError::UnknownVariant("LOUD".to_string())
    );
}

#[test]
fn unknown_segment_kind() {
    let seg = obj(vec![("type", s("STICKER"))]);
    let doc = document(vec![chat_event(vec![seg])]);
    assert_eq!(
        parse(&doc, ParseMode::Lenient).unwrap_err(),
        SchemaError::UnknownVariant("STICKER".to_string())
    );
}

#[test]
fn wrong_field_shape() {
    let mut fields = event_header_fields();
    for f in fields.iter_mut() {
        if f.0 == "advances_sort_timestamp" {
            f.1 = s("yes");
        }
    }
    fields.push((
        "chat_message",
        obj(vec![("message_content", obj(vec![]))]),
    ));
    let doc = document(vec![obj(fields)]);
    assert_eq!(
        parse(&doc, ParseMode::Lenient).unwrap_err(),
        SchemaError::WrongType("advances_sort_timestamp".to_string())
    );
}

#[test]
fn event_without_payload_rejected() {
    let doc = document(vec![obj(event_header_fields())]);
    assert_eq!(
        parse(&doc, ParseMode::Lenient).unwrap_err(),
        SchemaError::MissingField("event data".to_string())
    );
}

#[test]
fn absent_lists_default_to_empty() {
    let mut fields = event_header_fields();
    fields.push(("chat_message", obj(vec![("message_content", obj(vec![]))])));
    let doc = document(vec![obj(fields)]);
    let h = parse(&doc, ParseMode::Lenient).unwrap();
    match &h.conversations[0].events[0].data {
        EventData::ChatMessage { message_content, .. } => {
            assert!(message_content.segments.is_empty());
            assert!(message_content.attachments.is_empty());
        }
        _ => unreachable!(),
    }
}

#[test]
fn formatting_flags_parsed() {
    let seg = obj(vec![
        ("type", s("TEXT")),
        ("text", s("x")),
        (
            "formatting",
            obj(vec![("bold", JsonValue::Bool(true)), ("underline", JsonValue::Bool(true))]),
        ),
    ]);
    let doc = document(vec![chat_event(vec![seg])]);
    let h = parse(&doc, ParseMode::Lenient).unwrap();
    match &h.conversations[0].events[0].data {
        EventData::ChatMessage { message_content, .. } => match &message_content.segments[0] {
            ChatSegment::Text { formatting, .. } => {
                assert!(formatting.bold && formatting.underline);
                assert!(!formatting.italics && !formatting.strikethrough);
            }
            _ => unreachable!(),
        },
        _ => unreachable!(),
    }
}

#[test]
fn null_optional_field_is_absent() {
    let doc = document(vec![]);
    let h = parse(&doc, ParseMode::Lenient).unwrap();
    assert!(h.conversations[0].header.details.name.is_none());
}

#[test]
fn hangout_event_variants() {
    let mut fields = event_header_fields();
    fields.push((
        "hangout_event",
        obj(vec![
            ("event_type", s("END_HANGOUT")),
            ("hangout_duration_secs", s("60")),
            ("media_type", s("AUDIO_ONLY")),
            ("participant_id", JsonValue::Arr(vec![pid("g1", "c1")])),
        ]),
    ));
    let doc = document(vec![obj(fields)]);
    let h = parse(&doc, ParseMode::Lenient).unwrap();
    match &h.conversations[0].events[0].data {
        EventData::HangoutEvent { data, media_type, participant_id } => {
            assert_eq!(media_type, "AUDIO_ONLY");
            assert_eq!(participant_id.len(), 1);
            match data {
                HangoutEvent::EndHangout { hangout_duration_secs } => {
                    assert_eq!(hangout_duration_secs, "60");
                }
                _ => unreachable!(),
            }
        }
        _ => unreachable!(),
    }
}

#[test]
fn unknown_hangout_tag_rejected() {
    let mut fields = event_header_fields();
    fields.push((
        "hangout_event",
        obj(vec![
            ("event_type", s("PAUSE_HANGOUT")),
            ("media_type", s("AUDIO_ONLY")),
            ("participant_id", JsonValue::Arr(vec![])),
        ]),
    ));
    let doc = document(vec![obj(fields)]);
    assert_eq!(
        parse(&doc, ParseMode::Lenient).unwrap_err(),
        SchemaError::UnknownVariant("PAUSE_HANGOUT".to_string())
    );
}

#[test]
fn conversation_rename_event() {
    let mut fields = event_header_fields();
    fields.push((
        "conversation_rename",
        obj(vec![("old_name", s("before")), ("new_name", s("after"))]),
    ));
    let doc = document(vec![obj(fields)]);
    let h = parse(&doc, ParseMode::Lenient).unwrap();
    match &h.conversations[0].events[0].data {
        EventData::ConversationRename { old_name, new_name } => {
            assert_eq!(old_name, "before");
            assert_eq!(new_name, "after");
        }
        _ => unreachable!(),
    }
}

#[test]
fn membership_change_event() {
    let mut fields = event_header_fields();
    fields.push((
        "membership_change",
        obj(vec![
            ("type", s("JOIN")),
            ("participant_id", JsonValue::Arr(vec![pid("g2", "c2")])),
        ]),
    ));
    let doc = document(vec![obj(fields)]);
    let h = parse(&doc, ParseMode::Lenient).unwrap();
    match &h.conversations[0].events[0].data {
        EventData::MembershipChange { typ, participant_id } => {
            assert_eq!(typ, "JOIN");
            assert_eq!(participant_id[0].gaia_id, "g2");
        }
        _ => unreachable!(),
    }
}

#[test]
fn photo_attachment_parsed() {
    let photo = obj(vec![
        ("album_id", s("a1")),
        ("media_type", s("PHOTO")),
        ("original_content_url", s("https://host/orig")),
        ("owner_obfuscated_id", s("o1")),
        ("photo_id", s("p1")),
        ("stream_id", JsonValue::Arr(vec![s("s1")])),
        (
            "thumbnail",
            obj(vec![
                ("height_px", JsonValue::Int(240)),
                ("width_px", JsonValue::Int(320)),
                ("image_url", s("https://host/thumb")),
            ]),
        ),
        ("url", s("https://host/a/My%20Photo.jpg")),
    ]);
    let attachment = obj(vec![
        (
            "embed_item",
            obj(vec![
                ("plus_photo", photo),
                ("type", JsonValue::Arr(vec![s("PLUS_PHOTO")])),
            ]),
        ),
        ("id", s("att1")),
    ]);
    let mut fields = event_header_fields();
    fields.push((
        "chat_message",
        obj(vec![(
            "message_content",
            obj(vec![("attachment", JsonValue::Arr(vec![attachment]))]),
        )]),
    ));
    let doc = document(vec![obj(fields)]);
    let h = parse(&doc, ParseMode::Lenient).unwrap();
    match &h.conversations[0].events[0].data {
        EventData::ChatMessage { message_content, .. } => {
            let a = &message_content.attachments[0];
            assert_eq!(a.id, "att1");
            let p = a.embed_item.plus_photo.as_ref().unwrap();
            assert_eq!(p.url, "https://host/a/My%20Photo.jpg");
            assert_eq!(p.thumbnail.width_px, 320);
            assert_eq!(p.thumbnail.height_px, 240);
            assert!(a.embed_item.place_v2.is_none());
        }
        _ => unreachable!(),
    }
}

#[test]
fn thumbnail_wrong_shape_rejected() {
    let photo = obj(vec![
        ("album_id", s("a1")),
        ("media_type", s("PHOTO")),
        ("original_content_url", s("u")),
        ("owner_obfuscated_id", s("o1")),
        ("photo_id", s("p1")),
        ("stream_id", JsonValue::Arr(vec![])),
        (
            "thumbnail",
            obj(vec![
                ("height_px", s("tall")),
                ("width_px", JsonValue::Int(320)),
                ("image_url", s("u")),
            ]),
        ),
        ("url", s("u")),
    ]);
    let attachment = obj(vec![
        (
            "embed_item",
            obj(vec![("plus_photo", photo), ("type", JsonValue::Arr(vec![]))]),
        ),
        ("id", s("att1")),
    ]);
    let mut fields = event_header_fields();
    fields.push((
        "chat_message",
        obj(vec![(
            "message_content",
            obj(vec![("attachment", JsonValue::Arr(vec![attachment]))]),
        )]),
    ));
    let doc = document(vec![obj(fields)]);
    assert_eq!(
        parse(&doc, ParseMode::Lenient).unwrap_err(),
        SchemaError::WrongType("height_px".to_string())
    );
}

#[test]
fn annotations_parsed() {
    let mut fields = event_header_fields();
    fields.push((
        "chat_message",
        obj(vec![
            ("message_content", obj(vec![])),
            (
                "annotation",
                JsonValue::Arr(vec![obj(vec![
                    ("type", JsonValue::Int(4)),
                    ("value", s("/me waves")),
                ])]),
            ),
        ]),
    ));
    let doc = document(vec![obj(fields)]);
    let h = parse(&doc, ParseMode::Lenient).unwrap();
    match &h.conversations[0].events[0].data {
        EventData::ChatMessage { annotation, .. } => {
            let ann = annotation.as_ref().unwrap();
            assert_eq!(ann[0].typ, 4);
            assert_eq!(ann[0].value, "/me waves");
        }
        _ => unreachable!(),
    }
}

#[test]
fn annotation_kind_out_of_range_rejected() {
    let mut fields = event_header_fields();
    fields.push((
        "chat_message",
        obj(vec![
            ("message_content", obj(vec![])),
            (
                "annotation",
                JsonValue::Arr(vec![obj(vec![
                    ("type", JsonValue::Int(1 << 40)),
                    ("value", s("x")),
                ])]),
            ),
        ]),
    ));
    let doc = document(vec![obj(fields)]);
    assert_eq!(
        parse(&doc, ParseMode::Lenient).unwrap_err(),
        SchemaError::WrongType("type".to_string())
    );
}

#[test]
fn document_must_be_an_object() {
    assert_eq!(
        parse(&JsonValue::Arr(vec![]), ParseMode::Lenient).unwrap_err(),
        SchemaError::WrongType("document".to_string())
    );
}

#[test]
fn extra_document_field_strict_rejected() {
    let mut doc = document(vec![]);
    if let JsonValue::Obj(fields) = &mut doc {
        fields.push(("export_version".to_string(), s("7")));
    }
    assert!(parse(&doc, ParseMode::Lenient).is_ok());
    assert_eq!(
        parse(&doc, ParseMode::Strict).unwrap_err(),
        SchemaError::UnexpectedField("export_version".to_string())
    );
}

#[test]
fn null_optional_profile_name_is_absent() {
    let mut p = participant("g1", "c1", None);
    if let JsonValue::Obj(fields) = &mut p {
        fields.push(("fallback_name".to_string(), JsonValue::Null));
    }
    let doc = obj(vec![(
        "conversations",
        JsonValue::Arr(vec![obj(vec![
            (
                "conversation",
                obj(vec![
                    ("conversation_id", obj(vec![("id", s("c1"))])),
                    ("conversation", details(vec![p])),
                ]),
            ),
            ("events", JsonValue::Arr(vec![])),
        ])]),
    )]);
    let h = parse(&doc, ParseMode::Lenient).unwrap();
    assert!(h.conversations[0].header.details.participant_data[0]
        .fallback_name
        .is_none());
}
