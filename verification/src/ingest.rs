//! Schema ingestion: turning a generic structured value into the
//! typed schema of [`crate::raw`].
//!
//! Every parser states exactly which documents it accepts
//! (`*_wf`) and what the produced value holds (`*_matches`).  In
//! strict mode any field not declared by the schema rejects the
//! document; in lenient mode unknown fields are discarded.

use vstd::prelude::*;
use crate::json::{
    JsonV, JsonValue, ParseMode, SchemaError, arr_of, bool_of, check_keys, field_is_bool, field_is_str,
    get_key, has_key, is_missing, is_str_arr,
    is_unknown_variant, is_wrong_type, jview_fields, jview_seq, keys_within,
    lemma_jview_seq, lookup, obj_of, opt_bool, opt_bool_val, opt_field_bool_ok, opt_field_str_ok,
    opt_json, opt_json_val, opt_str, opt_str_val, req_bool, req_json, req_str,
    req_str_arr, str_arr_of, str_of, str_views, views_of_strs,
};
use crate::raw::{
    Address, Annotation, AttachmentSegment, ChatSegment, ChatSegments, Conversation,
    ConversationDetails, ConversationHeader, ConversationId, EmbedItem, Event, EventData,
    EventHeader, Formatting, Geo, GeoCoordinatesV2, Hangouts, HangoutEvent, ImageObjectV2,
    LinkData, NotificationLevel, ParticipantData, ParticipantId, PlaceV2, PlusPhoto,
    PostalAddressV2, ReadState, RepresentativeImage, SelfConversationState, SelfEventState,
    Thumbnail, ThingV2,
};
use crate::strutil::str_eq;

verus! {

/// Accesses the fields of an object value.
pub fn as_obj<'a>(v: &'a JsonValue, ctx: &str) -> (r: Result<
    &'a Vec<(String, JsonValue)>,
    SchemaError,
>)
    ensures
        r is Ok <==> v@ is Obj,
        r matches Ok(fs) ==> jview_fields(fs@) == obj_of(v@),
        r matches Err(e) ==> is_wrong_type(e, ctx@),
{
    match v {
        JsonValue::Obj(fs) => Ok(fs),
        _ => Err(SchemaError::WrongType(ctx.to_owned())),
    }
}

/// Accesses the elements of an array value.
pub fn as_arr<'a>(v: &'a JsonValue, ctx: &str) -> (r: Result<&'a Vec<JsonValue>, SchemaError>)
    ensures
        r is Ok <==> v@ is Arr,
        r matches Ok(a) ==> jview_seq(a@) == arr_of(v@),
        r matches Err(e) ==> is_wrong_type(e, ctx@),
{
    match v {
        JsonValue::Arr(a) => Ok(a),
        _ => Err(SchemaError::WrongType(ctx.to_owned())),
    }
}

/// Reads the required field `key`, whatever its shape, by reference.
pub fn req_field<'a>(fs: &'a Vec<(String, JsonValue)>, key: &str) -> (r: Result<
    &'a JsonValue,
    SchemaError,
>)
    ensures
        r is Ok <==> has_key(jview_fields(fs@), key@),
        r matches Ok(v) ==> v@ == get_key(jview_fields(fs@), key@),
        r matches Err(e) ==> is_missing(e, key@),
{
    match lookup(fs, key) {
        None => Err(SchemaError::MissingField(key.to_owned())),
        Some(v) => Ok(v),
    }
}

pub open spec fn participant_id_keys() -> Seq<Seq<char>> {
    seq!["gaia_id"@, "chat_id"@]
}

pub open spec fn participant_id_wf(v: JsonV, strict: bool) -> bool {
    &&& v is Obj
    &&& field_is_str(obj_of(v), "gaia_id"@)
    &&& field_is_str(obj_of(v), "chat_id"@)
    &&& strict ==> keys_within(obj_of(v), participant_id_keys())
}

pub open spec fn participant_id_matches(p: ParticipantId, v: JsonV) -> bool {
    &&& p.gaia_id@ == str_of(get_key(obj_of(v), "gaia_id"@))
    &&& p.chat_id@ == str_of(get_key(obj_of(v), "chat_id"@))
}

pub fn parse_participant_id(v: &JsonValue, strict: bool) -> (r: Result<
    ParticipantId,
    SchemaError,
>)
    ensures
        r is Ok <==> participant_id_wf(v@, strict),
        r matches Ok(p) ==> participant_id_matches(p, v@),
{
    let fs = as_obj(v, "participant id")?;
    if strict {
        let allowed: &[&str; 2] = &["gaia_id", "chat_id"];
        let bad = check_keys(fs, allowed);
        proof {
            assert(views_of_strs(allowed@) =~= participant_id_keys());
        }
        if let Some(k) = bad {
            return Err(SchemaError::UnexpectedField(k));
        }
    }
    let gaia_id = req_str(fs, "gaia_id")?;
    let chat_id = req_str(fs, "chat_id")?;
    Ok(ParticipantId { gaia_id, chat_id })
}

pub open spec fn conversation_id_keys() -> Seq<Seq<char>> {
    seq!["id"@]
}

pub open spec fn conversation_id_wf(v: JsonV, strict: bool) -> bool {
    &&& v is Obj
    &&& field_is_str(obj_of(v), "id"@)
    &&& strict ==> keys_within(obj_of(v), conversation_id_keys())
}

pub open spec fn conversation_id_matches(c: ConversationId, v: JsonV) -> bool {
    c.id@ == str_of(get_key(obj_of(v), "id"@))
}

pub fn parse_conversation_id(v: &JsonValue, strict: bool) -> (r: Result<
    ConversationId,
    SchemaError,
>)
    ensures
        r is Ok <==> conversation_id_wf(v@, strict),
        r matches Ok(c) ==> conversation_id_matches(c, v@),
{
    let fs = as_obj(v, "conversation id")?;
    if strict {
        let allowed: &[&str; 1] = &["id"];
        let bad = check_keys(fs, allowed);
        proof {
            assert(views_of_strs(allowed@) =~= conversation_id_keys());
        }
        if let Some(k) = bad {
            return Err(SchemaError::UnexpectedField(k));
        }
    }
    let id = req_str(fs, "id")?;
    Ok(ConversationId { id })
}

pub open spec fn notification_level_wf(v: JsonV) -> bool {
    v is Str && (str_of(v) == "QUIET"@ || str_of(v) == "RING"@)
}

pub open spec fn notification_level_of(v: JsonV) -> NotificationLevel {
    if str_of(v) == "QUIET"@ {
        NotificationLevel::Quiet
    } else {
        NotificationLevel::Ring
    }
}

pub fn parse_notification_level(v: &JsonValue, ctx: &str) -> (r: Result<
    NotificationLevel,
    SchemaError,
>)
    ensures
        r is Ok <==> notification_level_wf(v@),
        r matches Ok(l) ==> l == notification_level_of(v@),
        r matches Err(e) ==> if v@ is Str {
            is_unknown_variant(e, str_of(v@))
        } else {
            is_wrong_type(e, ctx@)
        },
{
    match v {
        JsonValue::Str(s) => {
            if str_eq(s.as_str(), "QUIET") {
                Ok(NotificationLevel::Quiet)
            } else if str_eq(s.as_str(), "RING") {
                Ok(NotificationLevel::Ring)
            } else {
                Err(SchemaError::UnknownVariant(s.clone()))
            }
        },
        _ => Err(SchemaError::WrongType(ctx.to_owned())),
    }
}

pub open spec fn read_state_keys() -> Seq<Seq<char>> {
    seq!["participant_id"@, "latest_read_timestamp"@]
}

pub open spec fn read_state_wf(v: JsonV, strict: bool) -> bool {
    &&& v is Obj
    &&& has_key(obj_of(v), "participant_id"@)
    &&& participant_id_wf(get_key(obj_of(v), "participant_id"@), strict)
    &&& field_is_str(obj_of(v), "latest_read_timestamp"@)
    &&& strict ==> keys_within(obj_of(v), read_state_keys())
}

pub open spec fn read_state_matches(s: ReadState, v: JsonV) -> bool {
    &&& participant_id_matches(s.participant_id, get_key(obj_of(v), "participant_id"@))
    &&& s.latest_read_timestamp@ == str_of(get_key(obj_of(v), "latest_read_timestamp"@))
}

pub fn parse_read_state(v: &JsonValue, strict: bool) -> (r: Result<ReadState, SchemaError>)
    ensures
        r is Ok <==> read_state_wf(v@, strict),
        r matches Ok(s) ==> read_state_matches(s, v@),
{
    let fs = as_obj(v, "read state")?;
    if strict {
        let allowed: &[&str; 2] = &["participant_id", "latest_read_timestamp"];
        let bad = check_keys(fs, allowed);
        proof {
            assert(views_of_strs(allowed@) =~= read_state_keys());
        }
        if let Some(k) = bad {
            return Err(SchemaError::UnexpectedField(k));
        }
    }
    let participant_id = parse_participant_id(req_field(fs, "participant_id")?, strict)?;
    let latest_read_timestamp = req_str(fs, "latest_read_timestamp")?;
    Ok(ReadState { participant_id, latest_read_timestamp })
}


/// An optional tag field: absent and null mean no level.
pub open spec fn opt_notif_ok(fs: Seq<(Seq<char>, JsonV)>, k: Seq<char>) -> bool {
    has_key(fs, k) ==> (get_key(fs, k) is Null || notification_level_wf(get_key(fs, k)))
}

pub open spec fn opt_notif_val(fs: Seq<(Seq<char>, JsonV)>, k: Seq<char>) -> Option<
    NotificationLevel,
> {
    if has_key(fs, k) && notification_level_wf(get_key(fs, k)) {
        Some(notification_level_of(get_key(fs, k)))
    } else {
        None
    }
}

/// Reads the optional tag field `key`; absent and null mean `None`.
pub fn opt_notification_level(fs: &Vec<(String, JsonValue)>, key: &str) -> (r: Result<
    Option<NotificationLevel>,
    SchemaError,
>)
    ensures
        r is Ok <==> opt_notif_ok(jview_fields(fs@), key@),
        r matches Ok(l) ==> l == opt_notif_val(jview_fields(fs@), key@),
{
    match lookup(fs, key) {
        None => Ok(None),
        Some(v) => match v {
            JsonValue::Null => Ok(None),
            _ => {
                let l = parse_notification_level(v, key)?;
                Ok(Some(l))
            },
        },
    }
}

pub open spec fn participant_data_keys() -> Seq<Seq<char>> {
    seq![
        "id"@,
        "fallback_name"@,
        "invitation_status"@,
        "participant_type"@,
        "new_invitation_status"@,
        "in_different_customer_as_requester"@,
        "domain_id"@,
        "phone_number"@,
    ]
}

pub open spec fn participant_data_wf(v: JsonV, strict: bool) -> bool {
    &&& v is Obj
    &&& has_key(obj_of(v), "id"@)
    &&& participant_id_wf(get_key(obj_of(v), "id"@), strict)
    &&& opt_field_str_ok(obj_of(v), "fallback_name"@)
    &&& opt_field_str_ok(obj_of(v), "invitation_status"@)
    &&& opt_field_str_ok(obj_of(v), "participant_type"@)
    &&& opt_field_str_ok(obj_of(v), "new_invitation_status"@)
    &&& opt_field_bool_ok(obj_of(v), "in_different_customer_as_requester"@)
    &&& opt_field_str_ok(obj_of(v), "domain_id"@)
    &&& strict ==> keys_within(obj_of(v), participant_data_keys())
}

pub open spec fn opt_string_is(o: Option<String>, w: Option<Seq<char>>) -> bool {
    match (o, w) {
        (Some(a), Some(b)) => a@ == b,
        (None, None) => true,
        _ => false,
    }
}

pub open spec fn opt_json_is(o: Option<JsonValue>, w: Option<JsonV>) -> bool {
    match (o, w) {
        (Some(a), Some(b)) => a@ == b,
        (None, None) => true,
        _ => false,
    }
}

pub open spec fn participant_data_matches(p: ParticipantData, v: JsonV) -> bool {
    &&& participant_id_matches(p.id, get_key(obj_of(v), "id"@))
    &&& opt_string_is(p.fallback_name, opt_str_val(obj_of(v), "fallback_name"@))
    &&& opt_string_is(p.invitation_status, opt_str_val(obj_of(v), "invitation_status"@))
    &&& opt_string_is(p.participant_type, opt_str_val(obj_of(v), "participant_type"@))
    &&& opt_string_is(p.new_invitation_status, opt_str_val(obj_of(v), "new_invitation_status"@))
    &&& p.in_different_customer_as_requester == opt_bool_val(
        obj_of(v),
        "in_different_customer_as_requester"@,
    )
    &&& opt_string_is(p.domain_id, opt_str_val(obj_of(v), "domain_id"@))
    &&& opt_json_is(p.phone_number, opt_json_val(obj_of(v), "phone_number"@))
}

pub fn parse_participant_data(v: &JsonValue, strict: bool) -> (r: Result<
    ParticipantData,
    SchemaError,
>)
    ensures
        r is Ok <==> participant_data_wf(v@, strict),
        r matches Ok(p) ==> participant_data_matches(p, v@),
{
    let fs = as_obj(v, "participant data")?;
    if strict {
        let allowed: &[&str; 8] = &[
            "id",
            "fallback_name",
            "invitation_status",
            "participant_type",
            "new_invitation_status",
            "in_different_customer_as_requester",
            "domain_id",
            "phone_number",
        ];
        let bad = check_keys(fs, allowed);
        proof {
            assert(views_of_strs(allowed@) =~= participant_data_keys());
        }
        if let Some(k) = bad {
            return Err(SchemaError::UnexpectedField(k));
        }
    }
    let id = parse_participant_id(req_field(fs, "id")?, strict)?;
    let fallback_name = opt_str(fs, "fallback_name")?;
    let invitation_status = opt_str(fs, "invitation_status")?;
    let participant_type = opt_str(fs, "participant_type")?;
    let new_invitation_status = opt_str(fs, "new_invitation_status")?;
    let in_different_customer_as_requester = opt_bool(fs, "in_different_customer_as_requester")?;
    let domain_id = opt_str(fs, "domain_id")?;
    let phone_number = opt_json(fs, "phone_number");
    Ok(
        ParticipantData {
            id,
            fallback_name,
            invitation_status,
            participant_type,
            new_invitation_status,
            in_different_customer_as_requester,
            domain_id,
            phone_number,
        },
    )
}

/// Parses an array of participant identifiers.
#[verifier::loop_isolation(false)]
pub fn parse_participant_ids(v: &JsonValue, strict: bool, ctx: &str) -> (r: Result<
    Vec<ParticipantId>,
    SchemaError,
>)
    ensures
        r is Ok <==> v@ is Arr && (forall|i: int|
            0 <= i < arr_of(v@).len() ==> participant_id_wf(#[trigger] arr_of(v@)[i], strict)),
        r matches Ok(out) ==> out@.len() == arr_of(v@).len() && (forall|i: int|
            0 <= i < out@.len() ==> participant_id_matches(#[trigger] out@[i], arr_of(v@)[i])),
{
    let a = as_arr(v, ctx)?;
    let n = a.len();
    let mut out: Vec<ParticipantId> = Vec::new();
    let mut i: usize = 0;
    while i < n
        invariant
            n == a@.len(),
            i <= n,
            out@.len() == i,
            forall|j: int| 0 <= j < i ==> participant_id_wf(#[trigger] arr_of(v@)[j], strict),
            forall|j: int|
                0 <= j < i ==> participant_id_matches(#[trigger] out@[j], arr_of(v@)[j]),
        decreases n - i,
    {
        proof {
            lemma_jview_seq(a@);
        }
        match parse_participant_id(&a[i], strict) {
            Ok(e) => {
                out.push(e);
            },
            Err(err) => {
                proof {
                    assert(!participant_id_wf(arr_of(v@)[i as int], strict));
                }
                return Err(err);
            },
        }
        i += 1;
    }
    proof {
        lemma_jview_seq(a@);
    }
    Ok(out)
}

/// Parses an array of read states.
#[verifier::loop_isolation(false)]
pub fn parse_read_states(v: &JsonValue, strict: bool, ctx: &str) -> (r: Result<
    Vec<ReadState>,
    SchemaError,
>)
    ensures
        r is Ok <==> v@ is Arr && (forall|i: int|
            0 <= i < arr_of(v@).len() ==> read_state_wf(#[trigger] arr_of(v@)[i], strict)),
        r matches Ok(out) ==> out@.len() == arr_of(v@).len() && (forall|i: int|
            0 <= i < out@.len() ==> read_state_matches(#[trigger] out@[i], arr_of(v@)[i])),
{
    let a = as_arr(v, ctx)?;
    let n = a.len();
    let mut out: Vec<ReadState> = Vec::new();
    let mut i: usize = 0;
    while i < n
        invariant
            n == a@.len(),
            i <= n,
            out@.len() == i,
            forall|j: int| 0 <= j < i ==> read_state_wf(#[trigger] arr_of(v@)[j], strict),
            forall|j: int| 0 <= j < i ==> read_state_matches(#[trigger] out@[j], arr_of(v@)[j]),
        decreases n - i,
    {
        proof {
            lemma_jview_seq(a@);
        }
        match parse_read_state(&a[i], strict) {
            Ok(e) => {
                out.push(e);
            },
            Err(err) => {
                proof {
                    assert(!read_state_wf(arr_of(v@)[i as int], strict));
                }
                return Err(err);
            },
        }
        i += 1;
    }
    proof {
        lemma_jview_seq(a@);
    }
    Ok(out)
}

/// Parses an array of participant profiles.
#[verifier::loop_isolation(false)]
pub fn parse_participant_datas(v: &JsonValue, strict: bool, ctx: &str) -> (r: Result<
    Vec<ParticipantData>,
    SchemaError,
>)
    ensures
        r is Ok <==> v@ is Arr && (forall|i: int|
            0 <= i < arr_of(v@).len() ==> participant_data_wf(#[trigger] arr_of(v@)[i], strict)),
        r matches Ok(out) ==> out@.len() == arr_of(v@).len() && (forall|i: int|
            0 <= i < out@.len() ==> participant_data_matches(#[trigger] out@[i], arr_of(v@)[i])),
{
    let a = as_arr(v, ctx)?;
    let n = a.len();
    let mut out: Vec<ParticipantData> = Vec::new();
    let mut i: usize = 0;
    while i < n
        invariant
            n == a@.len(),
            i <= n,
            out@.len() == i,
            forall|j: int| 0 <= j < i ==> participant_data_wf(#[trigger] arr_of(v@)[j], strict),
            forall|j: int|
                0 <= j < i ==> participant_data_matches(#[trigger] out@[j], arr_of(v@)[j]),
        decreases n - i,
    {
        proof {
            lemma_jview_seq(a@);
        }
        match parse_participant_data(&a[i], strict) {
            Ok(e) => {
                out.push(e);
            },
            Err(err) => {
                proof {
                    assert(!participant_data_wf(arr_of(v@)[i as int], strict));
                }
                return Err(err);
            },
        }
        i += 1;
    }
    proof {
        lemma_jview_seq(a@);
    }
    Ok(out)
}

pub open spec fn self_conversation_state_keys() -> Seq<Seq<char>> {
    seq![
        "self_read_state"@,
        "status"@,
        "notification_level"@,
        "view"@,
        "inviter_id"@,
        "invite_timestamp"@,
        "invitation_display_type"@,
        "invite_affinity"@,
        "sort_timestamp"@,
        "active_timestamp"@,
        "delivery_medium_option"@,
        "is_guest"@,
    ]
}

pub open spec fn self_conversation_state_wf(v: JsonV, strict: bool) -> bool {
    &&& v is Obj
    &&& has_key(obj_of(v), "self_read_state"@)
    &&& read_state_wf(get_key(obj_of(v), "self_read_state"@), strict)
    &&& field_is_str(obj_of(v), "status"@)
    &&& has_key(obj_of(v), "notification_level"@)
    &&& notification_level_wf(get_key(obj_of(v), "notification_level"@))
    &&& has_key(obj_of(v), "view"@)
    &&& is_str_arr(get_key(obj_of(v), "view"@))
    &&& has_key(obj_of(v), "inviter_id"@)
    &&& participant_id_wf(get_key(obj_of(v), "inviter_id"@), strict)
    &&& field_is_str(obj_of(v), "invite_timestamp"@)
    &&& opt_field_str_ok(obj_of(v), "invitation_display_type"@)
    &&& opt_field_str_ok(obj_of(v), "invite_affinity"@)
    &&& field_is_str(obj_of(v), "sort_timestamp"@)
    &&& opt_field_str_ok(obj_of(v), "active_timestamp"@)
    &&& opt_field_bool_ok(obj_of(v), "is_guest"@)
    &&& strict ==> keys_within(obj_of(v), self_conversation_state_keys())
}

pub open spec fn self_conversation_state_matches(s: SelfConversationState, v: JsonV) -> bool {
    &&& read_state_matches(s.self_read_state, get_key(obj_of(v), "self_read_state"@))
    &&& s.status@ == str_of(get_key(obj_of(v), "status"@))
    &&& s.notification_level == notification_level_of(get_key(obj_of(v), "notification_level"@))
    &&& str_views(s.view@) == str_arr_of(get_key(obj_of(v), "view"@))
    &&& participant_id_matches(s.inviter_id, get_key(obj_of(v), "inviter_id"@))
    &&& s.invite_timestamp@ == str_of(get_key(obj_of(v), "invite_timestamp"@))
    &&& opt_string_is(s.invitation_display_type, opt_str_val(obj_of(v), "invitation_display_type"@))
    &&& opt_string_is(s.invite_affinity, opt_str_val(obj_of(v), "invite_affinity"@))
    &&& s.sort_timestamp@ == str_of(get_key(obj_of(v), "sort_timestamp"@))
    &&& opt_string_is(s.active_timestamp, opt_str_val(obj_of(v), "active_timestamp"@))
    &&& opt_json_is(s.delivery_medium_option, opt_json_val(obj_of(v), "delivery_medium_option"@))
    &&& s.is_guest == opt_bool_val(obj_of(v), "is_guest"@)
}

pub fn parse_self_conversation_state(v: &JsonValue, strict: bool) -> (r: Result<
    SelfConversationState,
    SchemaError,
>)
    ensures
        r is Ok <==> self_conversation_state_wf(v@, strict),
        r matches Ok(s) ==> self_conversation_state_matches(s, v@),
{
    let fs = as_obj(v, "self conversation state")?;
    if strict {
        let allowed: &[&str; 12] = &[
            "self_read_state",
            "status",
            "notification_level",
            "view",
            "inviter_id",
            "invite_timestamp",
            "invitation_display_type",
            "invite_affinity",
            "sort_timestamp",
            "active_timestamp",
            "delivery_medium_option",
            "is_guest",
        ];
        let bad = check_keys(fs, allowed);
        proof {
            assert(views_of_strs(allowed@) =~= self_conversation_state_keys());
        }
        if let Some(k) = bad {
            return Err(SchemaError::UnexpectedField(k));
        }
    }
    let self_read_state = parse_read_state(req_field(fs, "self_read_state")?, strict)?;
    let status = req_str(fs, "status")?;
    let notification_level = parse_notification_level(
        req_field(fs, "notification_level")?,
        "notification_level",
    )?;
    let view = req_str_arr(fs, "view")?;
    let inviter_id = parse_participant_id(req_field(fs, "inviter_id")?, strict)?;
    let invite_timestamp = req_str(fs, "invite_timestamp")?;
    let invitation_display_type = opt_str(fs, "invitation_display_type")?;
    let invite_affinity = opt_str(fs, "invite_affinity")?;
    let sort_timestamp = req_str(fs, "sort_timestamp")?;
    let active_timestamp = opt_str(fs, "active_timestamp")?;
    let delivery_medium_option = opt_json(fs, "delivery_medium_option");
    let is_guest = opt_bool(fs, "is_guest")?;
    Ok(
        SelfConversationState {
            self_read_state,
            status,
            notification_level,
            view,
            inviter_id,
            invite_timestamp,
            invitation_display_type,
            invite_affinity,
            sort_timestamp,
            active_timestamp,
            delivery_medium_option,
            is_guest,
        },
    )
}

pub open spec fn conversation_details_keys() -> Seq<Seq<char>> {
    seq![
        "id"@,
        "type"@,
        "name"@,
        "self_conversation_state"@,
        "read_state"@,
        "has_active_hangout"@,
        "otr_status"@,
        "otr_toggle"@,
        "current_participant"@,
        "participant_data"@,
        "fork_on_external_invite"@,
        "network_type"@,
        "force_history_state"@,
        "group_link_sharing_status"@,
    ]
}

pub open spec fn conversation_details_wf(v: JsonV, strict: bool) -> bool {
    &&& v is Obj
    &&& has_key(obj_of(v), "id"@)
    &&& conversation_id_wf(get_key(obj_of(v), "id"@), strict)
    &&& field_is_str(obj_of(v), "type"@)
    &&& opt_field_str_ok(obj_of(v), "name"@)
    &&& has_key(obj_of(v), "self_conversation_state"@)
    &&& self_conversation_state_wf(get_key(obj_of(v), "self_conversation_state"@), strict)
    &&& has_key(obj_of(v), "read_state"@)
    &&& get_key(obj_of(v), "read_state"@) is Arr
    &&& (forall|i: int|
        0 <= i < arr_of(get_key(obj_of(v), "read_state"@)).len() ==> read_state_wf(
            #[trigger] arr_of(get_key(obj_of(v), "read_state"@))[i],
            strict,
        ))
    &&& field_is_bool(obj_of(v), "has_active_hangout"@)
    &&& field_is_str(obj_of(v), "otr_status"@)
    &&& field_is_str(obj_of(v), "otr_toggle"@)
    &&& has_key(obj_of(v), "current_participant"@)
    &&& get_key(obj_of(v), "current_participant"@) is Arr
    &&& (forall|i: int|
        0 <= i < arr_of(get_key(obj_of(v), "current_participant"@)).len() ==> participant_id_wf(
            #[trigger] arr_of(get_key(obj_of(v), "current_participant"@))[i],
            strict,
        ))
    &&& has_key(obj_of(v), "participant_data"@)
    &&& get_key(obj_of(v), "participant_data"@) is Arr
    &&& (forall|i: int|
        0 <= i < arr_of(get_key(obj_of(v), "participant_data"@)).len() ==> participant_data_wf(
            #[trigger] arr_of(get_key(obj_of(v), "participant_data"@))[i],
            strict,
        ))
    &&& field_is_bool(obj_of(v), "fork_on_external_invite"@)
    &&& has_key(obj_of(v), "network_type"@)
    &&& is_str_arr(get_key(obj_of(v), "network_type"@))
    &&& field_is_str(obj_of(v), "force_history_state"@)
    &&& field_is_str(obj_of(v), "group_link_sharing_status"@)
    &&& strict ==> keys_within(obj_of(v), conversation_details_keys())
}

pub open spec fn conversation_details_matches(d: ConversationDetails, v: JsonV) -> bool {
    &&& conversation_id_matches(d.id, get_key(obj_of(v), "id"@))
    &&& d.typ@ == str_of(get_key(obj_of(v), "type"@))
    &&& opt_string_is(d.name, opt_str_val(obj_of(v), "name"@))
    &&& self_conversation_state_matches(
        d.self_conversation_state,
        get_key(obj_of(v), "self_conversation_state"@),
    )
    &&& d.read_state@.len() == arr_of(get_key(obj_of(v), "read_state"@)).len()
    &&& (forall|i: int|
        0 <= i < d.read_state@.len() ==> read_state_matches(
            #[trigger] d.read_state@[i],
            arr_of(get_key(obj_of(v), "read_state"@))[i],
        ))
    &&& d.has_active_hangout == bool_of(get_key(obj_of(v), "has_active_hangout"@))
    &&& d.otr_status@ == str_of(get_key(obj_of(v), "otr_status"@))
    &&& d.otr_toggle@ == str_of(get_key(obj_of(v), "otr_toggle"@))
    &&& d.current_participant@.len() == arr_of(get_key(obj_of(v), "current_participant"@)).len()
    &&& (forall|i: int|
        0 <= i < d.current_participant@.len() ==> participant_id_matches(
            #[trigger] d.current_participant@[i],
            arr_of(get_key(obj_of(v), "current_participant"@))[i],
        ))
    &&& d.participant_data@.len() == arr_of(get_key(obj_of(v), "participant_data"@)).len()
    &&& (forall|i: int|
        0 <= i < d.participant_data@.len() ==> participant_data_matches(
            #[trigger] d.participant_data@[i],
            arr_of(get_key(obj_of(v), "participant_data"@))[i],
        ))
    &&& d.fork_on_external_invite == bool_of(get_key(obj_of(v), "fork_on_external_invite"@))
    &&& str_views(d.network_type@) == str_arr_of(get_key(obj_of(v), "network_type"@))
    &&& d.force_history_state@ == str_of(get_key(obj_of(v), "force_history_state"@))
    &&& d.group_link_sharing_status@ == str_of(get_key(obj_of(v), "group_link_sharing_status"@))
}

pub fn parse_conversation_details(v: &JsonValue, strict: bool) -> (r: Result<
    ConversationDetails,
    SchemaError,
>)
    ensures
        r is Ok <==> conversation_details_wf(v@, strict),
        r matches Ok(d) ==> conversation_details_matches(d, v@),
{
    let fs = as_obj(v, "conversation details")?;
    if strict {
        let allowed: &[&str; 14] = &[
            "id",
            "type",
            "name",
            "self_conversation_state",
            "read_state",
            "has_active_hangout",
            "otr_status",
            "otr_toggle",
            "current_participant",
            "participant_data",
            "fork_on_external_invite",
            "network_type",
            "force_history_state",
            "group_link_sharing_status",
        ];
        let bad = check_keys(fs, allowed);
        proof {
            assert(views_of_strs(allowed@) =~= conversation_details_keys());
        }
        if let Some(k) = bad {
            return Err(SchemaError::UnexpectedField(k));
        }
    }
    let id = parse_conversation_id(req_field(fs, "id")?, strict)?;
    let typ = req_str(fs, "type")?;
    let name = opt_str(fs, "name")?;
    let self_conversation_state = parse_self_conversation_state(
        req_field(fs, "self_conversation_state")?,
        strict,
    )?;
    let read_state = parse_read_states(req_field(fs, "read_state")?, strict, "read_state")?;
    let has_active_hangout = req_bool(fs, "has_active_hangout")?;
    let otr_status = req_str(fs, "otr_status")?;
    let otr_toggle = req_str(fs, "otr_toggle")?;
    let current_participant = parse_participant_ids(
        req_field(fs, "current_participant")?,
        strict,
        "current_participant",
    )?;
    let participant_data = parse_participant_datas(
        req_field(fs, "participant_data")?,
        strict,
        "participant_data",
    )?;
    let fork_on_external_invite = req_bool(fs, "fork_on_external_invite")?;
    let network_type = req_str_arr(fs, "network_type")?;
    let force_history_state = req_str(fs, "force_history_state")?;
    let group_link_sharing_status = req_str(fs, "group_link_sharing_status")?;
    Ok(
        ConversationDetails {
            id,
            typ,
            name,
            self_conversation_state,
            read_state,
            has_active_hangout,
            otr_status,
            otr_toggle,
            current_participant,
            participant_data,
            fork_on_external_invite,
            network_type,
            force_history_state,
            group_link_sharing_status,
        },
    )
}


pub open spec fn conversation_header_keys() -> Seq<Seq<char>> {
    seq!["conversation_id"@, "conversation"@]
}

pub open spec fn conversation_header_wf(v: JsonV, strict: bool) -> bool {
    &&& v is Obj
    &&& has_key(obj_of(v), "conversation_id"@)
    &&& conversation_id_wf(get_key(obj_of(v), "conversation_id"@), strict)
    &&& has_key(obj_of(v), "conversation"@)
    &&& conversation_details_wf(get_key(obj_of(v), "conversation"@), strict)
    &&& strict ==> keys_within(obj_of(v), conversation_header_keys())
}

pub open spec fn conversation_header_matches(h: ConversationHeader, v: JsonV) -> bool {
    &&& conversation_id_matches(h.conversation_id, get_key(obj_of(v), "conversation_id"@))
    &&& conversation_details_matches(h.details, get_key(obj_of(v), "conversation"@))
}

pub fn parse_conversation_header(v: &JsonValue, strict: bool) -> (r: Result<
    ConversationHeader,
    SchemaError,
>)
    ensures
        r is Ok <==> conversation_header_wf(v@, strict),
        r matches Ok(h) ==> conversation_header_matches(h, v@),
{
    let fs = as_obj(v, "conversation header")?;
    if strict {
        let allowed: &[&str; 2] = &["conversation_id", "conversation"];
        let bad = check_keys(fs, allowed);
        proof {
            assert(views_of_strs(allowed@) =~= conversation_header_keys());
        }
        if let Some(k) = bad {
            return Err(SchemaError::UnexpectedField(k));
        }
    }
    let conversation_id = parse_conversation_id(req_field(fs, "conversation_id")?, strict)?;
    let details = parse_conversation_details(req_field(fs, "conversation")?, strict)?;
    Ok(ConversationHeader { conversation_id, details })
}

pub open spec fn self_event_state_keys() -> Seq<Seq<char>> {
    seq!["user_id"@, "client_generated_id"@, "notification_level"@]
}

pub open spec fn self_event_state_wf(v: JsonV, strict: bool) -> bool {
    &&& v is Obj
    &&& has_key(obj_of(v), "user_id"@)
    &&& participant_id_wf(get_key(obj_of(v), "user_id"@), strict)
    &&& opt_field_str_ok(obj_of(v), "client_generated_id"@)
    &&& opt_notif_ok(obj_of(v), "notification_level"@)
    &&& strict ==> keys_within(obj_of(v), self_event_state_keys())
}

pub open spec fn self_event_state_matches(s: SelfEventState, v: JsonV) -> bool {
    &&& participant_id_matches(s.user_id, get_key(obj_of(v), "user_id"@))
    &&& opt_string_is(s.client_generated_id, opt_str_val(obj_of(v), "client_generated_id"@))
    &&& s.notification_level == opt_notif_val(obj_of(v), "notification_level"@)
}

pub fn parse_self_event_state(v: &JsonValue, strict: bool) -> (r: Result<
    SelfEventState,
    SchemaError,
>)
    ensures
        r is Ok <==> self_event_state_wf(v@, strict),
        r matches Ok(s) ==> self_event_state_matches(s, v@),
{
    let fs = as_obj(v, "self event state")?;
    if strict {
        let allowed: &[&str; 3] = &["user_id", "client_generated_id", "notification_level"];
        let bad = check_keys(fs, allowed);
        proof {
            assert(views_of_strs(allowed@) =~= self_event_state_keys());
        }
        if let Some(k) = bad {
            return Err(SchemaError::UnexpectedField(k));
        }
    }
    let user_id = parse_participant_id(req_field(fs, "user_id")?, strict)?;
    let client_generated_id = opt_str(fs, "client_generated_id")?;
    let notification_level = opt_notification_level(fs, "notification_level")?;
    Ok(SelfEventState { user_id, client_generated_id, notification_level })
}

/// The header fields every event carries.  They sit at the same JSON
/// nesting level as the payload, so this is stated over the event
/// object's fields, and strict-mode key checking happens at the
/// event level.
pub open spec fn event_header_wf(fs: Seq<(Seq<char>, JsonV)>, strict: bool) -> bool {
    &&& has_key(fs, "conversation_id"@)
    &&& conversation_id_wf(get_key(fs, "conversation_id"@), strict)
    &&& has_key(fs, "sender_id"@)
    &&& participant_id_wf(get_key(fs, "sender_id"@), strict)
    &&& field_is_str(fs, "timestamp"@)
    &&& has_key(fs, "self_event_state"@)
    &&& self_event_state_wf(get_key(fs, "self_event_state"@), strict)
    &&& field_is_str(fs, "event_id"@)
    &&& field_is_bool(fs, "advances_sort_timestamp"@)
    &&& field_is_str(fs, "event_otr"@)
    &&& has_key(fs, "delivery_medium"@)
    &&& field_is_str(fs, "event_version"@)
}

pub open spec fn event_header_matches(h: EventHeader, fs: Seq<(Seq<char>, JsonV)>) -> bool {
    &&& conversation_id_matches(h.conversation_id, get_key(fs, "conversation_id"@))
    &&& participant_id_matches(h.sender_id, get_key(fs, "sender_id"@))
    &&& h.timestamp@ == str_of(get_key(fs, "timestamp"@))
    &&& self_event_state_matches(h.self_event_state, get_key(fs, "self_event_state"@))
    &&& h.event_id@ == str_of(get_key(fs, "event_id"@))
    &&& h.advances_sort_timestamp == bool_of(get_key(fs, "advances_sort_timestamp"@))
    &&& h.event_otr@ == str_of(get_key(fs, "event_otr"@))
    &&& h.delivery_medium@ == get_key(fs, "delivery_medium"@)
    &&& h.event_version@ == str_of(get_key(fs, "event_version"@))
}

pub fn parse_event_header(fs: &Vec<(String, JsonValue)>, strict: bool) -> (r: Result<
    EventHeader,
    SchemaError,
>)
    ensures
        r is Ok <==> event_header_wf(jview_fields(fs@), strict),
        r matches Ok(h) ==> event_header_matches(h, jview_fields(fs@)),
{
    let conversation_id = parse_conversation_id(req_field(fs, "conversation_id")?, strict)?;
    let sender_id = parse_participant_id(req_field(fs, "sender_id")?, strict)?;
    let timestamp = req_str(fs, "timestamp")?;
    let self_event_state = parse_self_event_state(req_field(fs, "self_event_state")?, strict)?;
    let event_id = req_str(fs, "event_id")?;
    let advances_sort_timestamp = req_bool(fs, "advances_sort_timestamp")?;
    let event_otr = req_str(fs, "event_otr")?;
    let delivery_medium = req_json(fs, "delivery_medium")?;
    let event_version = req_str(fs, "event_version")?;
    Ok(
        EventHeader {
            conversation_id,
            sender_id,
            timestamp,
            self_event_state,
            event_id,
            advances_sort_timestamp,
            event_otr,
            delivery_medium,
            event_version,
        },
    )
}

pub open spec fn formatting_keys() -> Seq<Seq<char>> {
    seq!["bold"@, "italics"@, "strikethrough"@, "underline"@]
}

pub open spec fn formatting_wf(v: JsonV, strict: bool) -> bool {
    &&& v is Obj
    &&& opt_field_bool_ok(obj_of(v), "bold"@)
    &&& opt_field_bool_ok(obj_of(v), "italics"@)
    &&& opt_field_bool_ok(obj_of(v), "strikethrough"@)
    &&& opt_field_bool_ok(obj_of(v), "underline"@)
    &&& strict ==> keys_within(obj_of(v), formatting_keys())
}

pub open spec fn flag_of(fs: Seq<(Seq<char>, JsonV)>, k: Seq<char>) -> bool {
    match opt_bool_val(fs, k) {
        Some(b) => b,
        None => false,
    }
}

pub open spec fn formatting_of(v: JsonV) -> Formatting {
    Formatting {
        bold: flag_of(obj_of(v), "bold"@),
        italics: flag_of(obj_of(v), "italics"@),
        strikethrough: flag_of(obj_of(v), "strikethrough"@),
        underline: flag_of(obj_of(v), "underline"@),
    }
}

/// Every style flag defaults to off.
pub open spec fn default_formatting() -> Formatting {
    Formatting { bold: false, italics: false, strikethrough: false, underline: false }
}

pub fn parse_formatting(v: &JsonValue, strict: bool) -> (r: Result<Formatting, SchemaError>)
    ensures
        r is Ok <==> formatting_wf(v@, strict),
        r matches Ok(f) ==> f == formatting_of(v@),
{
    let fs = as_obj(v, "formatting")?;
    if strict {
        let allowed: &[&str; 4] = &["bold", "italics", "strikethrough", "underline"];
        let bad = check_keys(fs, allowed);
        proof {
            assert(views_of_strs(allowed@) =~= formatting_keys());
        }
        if let Some(k) = bad {
            return Err(SchemaError::UnexpectedField(k));
        }
    }
    let bold = opt_bool(fs, "bold")?;
    let italics = opt_bool(fs, "italics")?;
    let strikethrough = opt_bool(fs, "strikethrough")?;
    let underline = opt_bool(fs, "underline")?;
    Ok(
        Formatting {
            bold: match bold {
                Some(b) => b,
                None => false,
            },
            italics: match italics {
                Some(b) => b,
                None => false,
            },
            strikethrough: match strikethrough {
                Some(b) => b,
                None => false,
            },
            underline: match underline {
                Some(b) => b,
                None => false,
            },
        },
    )
}

/// The optional `formatting` field of a text or link segment: absent
/// and null both mean all flags off.
pub open spec fn opt_formatting_ok(fs: Seq<(Seq<char>, JsonV)>, k: Seq<char>, strict: bool) -> bool {
    has_key(fs, k) ==> (get_key(fs, k) is Null || formatting_wf(get_key(fs, k), strict))
}

pub open spec fn opt_formatting_val(fs: Seq<(Seq<char>, JsonV)>, k: Seq<char>) -> Formatting {
    if has_key(fs, k) && get_key(fs, k) is Obj {
        formatting_of(get_key(fs, k))
    } else {
        default_formatting()
    }
}

pub fn opt_formatting(fs: &Vec<(String, JsonValue)>, key: &str, strict: bool) -> (r: Result<
    Formatting,
    SchemaError,
>)
    ensures
        r is Ok <==> opt_formatting_ok(jview_fields(fs@), key@, strict),
        r matches Ok(f) ==> f == opt_formatting_val(jview_fields(fs@), key@),
{
    match lookup(fs, key) {
        None => Ok(default_fmt()),
        Some(v) => match v {
            JsonValue::Null => Ok(default_fmt()),
            _ => parse_formatting(v, strict),
        },
    }
}

/// All flags off, as an executable value.
pub fn default_fmt() -> (r: Formatting)
    ensures
        r == default_formatting(),
{
    Formatting { bold: false, italics: false, strikethrough: false, underline: false }
}

pub open spec fn link_data_keys() -> Seq<Seq<char>> {
    seq!["link_target"@, "display_url"@]
}

pub open spec fn link_data_wf(v: JsonV, strict: bool) -> bool {
    &&& v is Obj
    &&& field_is_str(obj_of(v), "link_target"@)
    &&& opt_field_str_ok(obj_of(v), "display_url"@)
    &&& strict ==> keys_within(obj_of(v), link_data_keys())
}

pub open spec fn link_data_matches(l: LinkData, v: JsonV) -> bool {
    &&& l.link_target@ == str_of(get_key(obj_of(v), "link_target"@))
    &&& opt_string_is(l.display_url, opt_str_val(obj_of(v), "display_url"@))
}

pub fn parse_link_data(v: &JsonValue, strict: bool) -> (r: Result<LinkData, SchemaError>)
    ensures
        r is Ok <==> link_data_wf(v@, strict),
        r matches Ok(l) ==> link_data_matches(l, v@),
{
    let fs = as_obj(v, "link data")?;
    if strict {
        let allowed: &[&str; 2] = &["link_target", "display_url"];
        let bad = check_keys(fs, allowed);
        proof {
            assert(views_of_strs(allowed@) =~= link_data_keys());
        }
        if let Some(k) = bad {
            return Err(SchemaError::UnexpectedField(k));
        }
    }
    let link_target = req_str(fs, "link_target")?;
    let display_url = opt_str(fs, "display_url")?;
    Ok(LinkData { link_target, display_url })
}

pub open spec fn annotation_keys() -> Seq<Seq<char>> {
    seq!["type"@, "value"@]
}

/// The annotation's numeric kind must fit a 32-bit signed integer.
pub open spec fn field_is_i32(fs: Seq<(Seq<char>, JsonV)>, k: Seq<char>) -> bool {
    &&& has_key(fs, k)
    &&& get_key(fs, k) matches JsonV::Int(i) && i32::MIN <= i <= i32::MAX
}

pub open spec fn i32_of(v: JsonV) -> i32 {
    match v {
        JsonV::Int(i) => i as i32,
        _ => 0,
    }
}

pub open spec fn annotation_wf(v: JsonV, strict: bool) -> bool {
    &&& v is Obj
    &&& field_is_i32(obj_of(v), "type"@)
    &&& field_is_str(obj_of(v), "value"@)
    &&& strict ==> keys_within(obj_of(v), annotation_keys())
}

pub open spec fn annotation_matches(a: Annotation, v: JsonV) -> bool {
    &&& a.typ == i32_of(get_key(obj_of(v), "type"@))
    &&& a.value@ == str_of(get_key(obj_of(v), "value"@))
}

pub fn parse_annotation(v: &JsonValue, strict: bool) -> (r: Result<Annotation, SchemaError>)
    ensures
        r is Ok <==> annotation_wf(v@, strict),
        r matches Ok(a) ==> annotation_matches(a, v@),
{
    let fs = as_obj(v, "annotation")?;
    if strict {
        let allowed: &[&str; 2] = &["type", "value"];
        let bad = check_keys(fs, allowed);
        proof {
            assert(views_of_strs(allowed@) =~= annotation_keys());
        }
        if let Some(k) = bad {
            return Err(SchemaError::UnexpectedField(k));
        }
    }
    let typ: i32 = match lookup(fs, "type") {
        None => {
            return Err(SchemaError::MissingField("type".to_owned()));
        },
        Some(tv) => match tv {
            JsonValue::Int(i) => {
                if *i >= i32::MIN as i64 && *i <= i32::MAX as i64 {
                    *i as i32
                } else {
                    return Err(SchemaError::WrongType("type".to_owned()));
                }
            },
            _ => {
                return Err(SchemaError::WrongType("type".to_owned()));
            },
        },
    };
    let value = req_str(fs, "value")?;
    Ok(Annotation { typ, value })
}

/// Parses an array of annotations.
#[verifier::loop_isolation(false)]
pub fn parse_annotations(v: &JsonValue, strict: bool, ctx: &str) -> (r: Result<
    Vec<Annotation>,
    SchemaError,
>)
    ensures
        r is Ok <==> v@ is Arr && (forall|i: int|
            0 <= i < arr_of(v@).len() ==> annotation_wf(#[trigger] arr_of(v@)[i], strict)),
        r matches Ok(out) ==> out@.len() == arr_of(v@).len() && (forall|i: int|
            0 <= i < out@.len() ==> annotation_matches(#[trigger] out@[i], arr_of(v@)[i])),
{
    let a = as_arr(v, ctx)?;
    let n = a.len();
    let mut out: Vec<Annotation> = Vec::new();
    let mut i: usize = 0;
    while i < n
        invariant
            n == a@.len(),
            i <= n,
            out@.len() == i,
            forall|j: int| 0 <= j < i ==> annotation_wf(#[trigger] arr_of(v@)[j], strict),
            forall|j: int| 0 <= j < i ==> annotation_matches(#[trigger] out@[j], arr_of(v@)[j]),
        decreases n - i,
    {
        proof {
            lemma_jview_seq(a@);
        }
        match parse_annotation(&a[i], strict) {
            Ok(e) => {
                out.push(e);
            },
            Err(err) => {
                proof {
                    assert(!annotation_wf(arr_of(v@)[i as int], strict));
                }
                return Err(err);
            },
        }
        i += 1;
    }
    proof {
        lemma_jview_seq(a@);
    }
    Ok(out)
}


pub open spec fn text_segment_keys() -> Seq<Seq<char>> {
    seq!["type"@, "text"@, "formatting"@]
}

pub open spec fn link_segment_keys() -> Seq<Seq<char>> {
    seq!["type"@, "text"@, "link_data"@, "formatting"@]
}

pub open spec fn line_break_segment_keys() -> Seq<Seq<char>> {
    seq!["type"@, "text"@]
}

/// A chat segment is discriminated by its `type` tag.
pub open spec fn chat_segment_wf(v: JsonV, strict: bool) -> bool {
    let fs = obj_of(v);
    let tag = str_of(get_key(fs, "type"@));
    &&& v is Obj
    &&& field_is_str(fs, "type"@)
    &&& (tag == "TEXT"@ || tag == "LINK"@ || tag == "LINE_BREAK"@)
    &&& tag == "TEXT"@ ==> {
        &&& field_is_str(fs, "text"@)
        &&& opt_formatting_ok(fs, "formatting"@, strict)
        &&& strict ==> keys_within(fs, text_segment_keys())
    }
    &&& tag == "LINK"@ ==> {
        &&& field_is_str(fs, "text"@)
        &&& has_key(fs, "link_data"@)
        &&& link_data_wf(get_key(fs, "link_data"@), strict)
        &&& opt_formatting_ok(fs, "formatting"@, strict)
        &&& strict ==> keys_within(fs, link_segment_keys())
    }
    &&& tag == "LINE_BREAK"@ ==> {
        &&& opt_field_str_ok(fs, "text"@)
        &&& strict ==> keys_within(fs, line_break_segment_keys())
    }
}

pub open spec fn chat_segment_matches(s: ChatSegment, v: JsonV) -> bool {
    let fs = obj_of(v);
    let tag = str_of(get_key(fs, "type"@));
    if tag == "TEXT"@ {
        &&& s matches ChatSegment::Text { text, formatting }
        &&& text@ == str_of(get_key(fs, "text"@))
        &&& formatting == opt_formatting_val(fs, "formatting"@)
    } else if tag == "LINK"@ {
        &&& s matches ChatSegment::Link { text, link_data, formatting }
        &&& text@ == str_of(get_key(fs, "text"@))
        &&& link_data_matches(link_data, get_key(fs, "link_data"@))
        &&& formatting == opt_formatting_val(fs, "formatting"@)
    } else {
        &&& s matches ChatSegment::LineBreak { text }
        &&& opt_string_is(text, opt_str_val(fs, "text"@))
    }
}

pub fn parse_chat_segment(v: &JsonValue, strict: bool) -> (r: Result<ChatSegment, SchemaError>)
    ensures
        r is Ok <==> chat_segment_wf(v@, strict),
        r matches Ok(s) ==> chat_segment_matches(s, v@),
{
    proof {
        broadcast use vstd::string::group_string_axioms;
        reveal_strlit("TEXT");
        reveal_strlit("LINK");
        reveal_strlit("LINE_BREAK");
        assert("TEXT"@.len() == 4 && "LINK"@.len() == 4 && "LINE_BREAK"@.len() == 10);
        assert("TEXT"@[0] == 'T' && "LINK"@[0] == 'L');
        assert("TEXT"@ != "LINK"@ && "TEXT"@ != "LINE_BREAK"@ && "LINK"@ != "LINE_BREAK"@);
    }
    let fs = as_obj(v, "chat segment")?;
    let tag = req_str(fs, "type")?;
    if str_eq(tag.as_str(), "TEXT") {
        if strict {
            let allowed: &[&str; 3] = &["type", "text", "formatting"];
            let bad = check_keys(fs, allowed);
            proof {
                assert(views_of_strs(allowed@) =~= text_segment_keys());
            }
            if let Some(k) = bad {
                return Err(SchemaError::UnexpectedField(k));
            }
        }
        let text = req_str(fs, "text")?;
        let formatting = opt_formatting(fs, "formatting", strict)?;
        Ok(ChatSegment::Text { text, formatting })
    } else if str_eq(tag.as_str(), "LINK") {
        if strict {
            let allowed: &[&str; 4] = &["type", "text", "link_data", "formatting"];
            let bad = check_keys(fs, allowed);
            proof {
                assert(views_of_strs(allowed@) =~= link_segment_keys());
            }
            if let Some(k) = bad {
                return Err(SchemaError::UnexpectedField(k));
            }
        }
        let text = req_str(fs, "text")?;
        let link_data = parse_link_data(req_field(fs, "link_data")?, strict)?;
        let formatting = opt_formatting(fs, "formatting", strict)?;
        Ok(ChatSegment::Link { text, link_data, formatting })
    } else if str_eq(tag.as_str(), "LINE_BREAK") {
        if strict {
            let allowed: &[&str; 2] = &["type", "text"];
            let bad = check_keys(fs, allowed);
            proof {
                assert(views_of_strs(allowed@) =~= line_break_segment_keys());
            }
            if let Some(k) = bad {
                return Err(SchemaError::UnexpectedField(k));
            }
        }
        let text = opt_str(fs, "text")?;
        Ok(ChatSegment::LineBreak { text })
    } else {
        Err(SchemaError::UnknownVariant(tag))
    }
}

/// Parses an array of chat segments.
#[verifier::loop_isolation(false)]
pub fn parse_chat_segment_arr(v: &JsonValue, strict: bool, ctx: &str) -> (r: Result<
    Vec<ChatSegment>,
    SchemaError,
>)
    ensures
        r is Ok <==> v@ is Arr && (forall|i: int|
            0 <= i < arr_of(v@).len() ==> chat_segment_wf(#[trigger] arr_of(v@)[i], strict)),
        r matches Ok(out) ==> out@.len() == arr_of(v@).len() && (forall|i: int|
            0 <= i < out@.len() ==> chat_segment_matches(#[trigger] out@[i], arr_of(v@)[i])),
{
    let a = as_arr(v, ctx)?;
    let n = a.len();
    let mut out: Vec<ChatSegment> = Vec::new();
    let mut i: usize = 0;
    while i < n
        invariant
            n == a@.len(),
            i <= n,
            out@.len() == i,
            forall|j: int| 0 <= j < i ==> chat_segment_wf(#[trigger] arr_of(v@)[j], strict),
            forall|j: int| 0 <= j < i ==> chat_segment_matches(#[trigger] out@[j], arr_of(v@)[j]),
        decreases n - i,
    {
        proof {
            lemma_jview_seq(a@);
        }
        match parse_chat_segment(&a[i], strict) {
            Ok(e) => {
                out.push(e);
            },
            Err(err) => {
                proof {
                    assert(!chat_segment_wf(arr_of(v@)[i as int], strict));
                }
                return Err(err);
            },
        }
        i += 1;
    }
    proof {
        lemma_jview_seq(a@);
    }
    Ok(out)
}

pub open spec fn chat_segments_keys() -> Seq<Seq<char>> {
    seq!["segment"@, "attachment"@]
}

pub open spec fn chat_segments_wf(v: JsonV, strict: bool) -> bool {
    let fs = obj_of(v);
    &&& v is Obj
    &&& has_key(fs, "segment"@) ==> {
        &&& get_key(fs, "segment"@) is Arr
        &&& (forall|i: int|
            0 <= i < arr_of(get_key(fs, "segment"@)).len() ==> chat_segment_wf(
                #[trigger] arr_of(get_key(fs, "segment"@))[i],
                strict,
            ))
    }
    &&& has_key(fs, "attachment"@) ==> {
        &&& get_key(fs, "attachment"@) is Arr
        &&& (forall|i: int|
            0 <= i < arr_of(get_key(fs, "attachment"@)).len()
                ==> crate::embed::attachment_segment_wf(
                #[trigger] arr_of(get_key(fs, "attachment"@))[i],
                strict,
            ))
    }
    &&& strict ==> keys_within(fs, chat_segments_keys())
}

pub open spec fn chat_segments_matches(c: ChatSegments, v: JsonV) -> bool {
    let fs = obj_of(v);
    &&& c.segments@.len() == if has_key(fs, "segment"@) {
        arr_of(get_key(fs, "segment"@)).len()
    } else {
        0
    }
    &&& (forall|i: int|
        0 <= i < c.segments@.len() ==> chat_segment_matches(
            #[trigger] c.segments@[i],
            arr_of(get_key(fs, "segment"@))[i],
        ))
    &&& c.attachments@.len() == if has_key(fs, "attachment"@) {
        arr_of(get_key(fs, "attachment"@)).len()
    } else {
        0
    }
    &&& (forall|i: int|
        0 <= i < c.attachments@.len() ==> crate::embed::attachment_segment_matches(
            #[trigger] c.attachments@[i],
            arr_of(get_key(fs, "attachment"@))[i],
        ))
}

pub fn parse_chat_segments(v: &JsonValue, strict: bool) -> (r: Result<ChatSegments, SchemaError>)
    ensures
        r is Ok <==> chat_segments_wf(v@, strict),
        r matches Ok(c) ==> chat_segments_matches(c, v@),
{
    let fs = as_obj(v, "message content")?;
    if strict {
        let allowed: &[&str; 2] = &["segment", "attachment"];
        let bad = check_keys(fs, allowed);
        proof {
            assert(views_of_strs(allowed@) =~= chat_segments_keys());
        }
        if let Some(k) = bad {
            return Err(SchemaError::UnexpectedField(k));
        }
    }
    let segments = match lookup(fs, "segment") {
        None => Vec::new(),
        Some(sv) => parse_chat_segment_arr(sv, strict, "segment")?,
    };
    let attachments = match lookup(fs, "attachment") {
        None => Vec::new(),
        Some(av) => crate::embed::parse_attachment_segments(av, strict, "attachment")?,
    };
    Ok(ChatSegments { segments, attachments })
}

pub open spec fn chat_message_keys() -> Seq<Seq<char>> {
    seq!["message_content"@, "annotation"@]
}

/// The payload of a chat message event.
pub open spec fn chat_message_wf(v: JsonV, strict: bool) -> bool {
    let fs = obj_of(v);
    &&& v is Obj
    &&& has_key(fs, "message_content"@)
    &&& chat_segments_wf(get_key(fs, "message_content"@), strict)
    &&& (has_key(fs, "annotation"@) && !(get_key(fs, "annotation"@) is Null)) ==> {
        &&& get_key(fs, "annotation"@) is Arr
        &&& (forall|i: int|
            0 <= i < arr_of(get_key(fs, "annotation"@)).len() ==> annotation_wf(
                #[trigger] arr_of(get_key(fs, "annotation"@))[i],
                strict,
            ))
    }
    &&& strict ==> keys_within(fs, chat_message_keys())
}

pub open spec fn chat_message_matches(
    message_content: ChatSegments,
    annotation: Option<Vec<Annotation>>,
    v: JsonV,
) -> bool {
    let fs = obj_of(v);
    &&& chat_segments_matches(message_content, get_key(fs, "message_content"@))
    &&& (annotation is Some) == (has_key(fs, "annotation"@) && !(get_key(fs, "annotation"@)
        is Null))
    &&& annotation matches Some(ann) ==> {
        &&& ann@.len() == arr_of(get_key(fs, "annotation"@)).len()
        &&& (forall|i: int|
            0 <= i < ann@.len() ==> annotation_matches(
                #[trigger] ann@[i],
                arr_of(get_key(fs, "annotation"@))[i],
            ))
    }
}

pub open spec fn hangout_start_keys() -> Seq<Seq<char>> {
    seq!["event_type"@, "media_type"@, "participant_id"@]
}

pub open spec fn hangout_end_keys() -> Seq<Seq<char>> {
    seq!["event_type"@, "hangout_duration_secs"@, "media_type"@, "participant_id"@]
}

/// The payload of a call event, discriminated by its own inner
/// `event_type` tag.
pub open spec fn hangout_event_wf(v: JsonV, strict: bool) -> bool {
    let fs = obj_of(v);
    let tag = str_of(get_key(fs, "event_type"@));
    &&& v is Obj
    &&& field_is_str(fs, "event_type"@)
    &&& (tag == "START_HANGOUT"@ || tag == "END_HANGOUT"@)
    &&& tag == "END_HANGOUT"@ ==> field_is_str(fs, "hangout_duration_secs"@)
    &&& field_is_str(fs, "media_type"@)
    &&& has_key(fs, "participant_id"@)
    &&& get_key(fs, "participant_id"@) is Arr
    &&& (forall|i: int|
        0 <= i < arr_of(get_key(fs, "participant_id"@)).len() ==> participant_id_wf(
            #[trigger] arr_of(get_key(fs, "participant_id"@))[i],
            strict,
        ))
    &&& strict ==> keys_within(
        fs,
        if tag == "END_HANGOUT"@ {
            hangout_end_keys()
        } else {
            hangout_start_keys()
        },
    )
}

pub open spec fn hangout_event_matches(
    data: HangoutEvent,
    media_type: String,
    participant_id: Seq<ParticipantId>,
    v: JsonV,
) -> bool {
    let fs = obj_of(v);
    let tag = str_of(get_key(fs, "event_type"@));
    &&& if tag == "START_HANGOUT"@ {
        data is StartHangout
    } else {
        &&& data matches HangoutEvent::EndHangout { hangout_duration_secs }
        &&& hangout_duration_secs@ == str_of(get_key(fs, "hangout_duration_secs"@))
    }
    &&& media_type@ == str_of(get_key(fs, "media_type"@))
    &&& participant_id.len() == arr_of(get_key(fs, "participant_id"@)).len()
    &&& (forall|i: int|
        0 <= i < participant_id.len() ==> participant_id_matches(
            #[trigger] participant_id[i],
            arr_of(get_key(fs, "participant_id"@))[i],
        ))
}

pub open spec fn membership_change_keys() -> Seq<Seq<char>> {
    seq!["type"@, "participant_id"@]
}

pub open spec fn membership_change_wf(v: JsonV, strict: bool) -> bool {
    let fs = obj_of(v);
    &&& v is Obj
    &&& field_is_str(fs, "type"@)
    &&& has_key(fs, "participant_id"@)
    &&& get_key(fs, "participant_id"@) is Arr
    &&& (forall|i: int|
        0 <= i < arr_of(get_key(fs, "participant_id"@)).len() ==> participant_id_wf(
            #[trigger] arr_of(get_key(fs, "participant_id"@))[i],
            strict,
        ))
    &&& strict ==> keys_within(fs, membership_change_keys())
}

pub open spec fn membership_change_matches(
    typ: String,
    participant_id: Seq<ParticipantId>,
    v: JsonV,
) -> bool {
    let fs = obj_of(v);
    &&& typ@ == str_of(get_key(fs, "type"@))
    &&& participant_id.len() == arr_of(get_key(fs, "participant_id"@)).len()
    &&& (forall|i: int|
        0 <= i < participant_id.len() ==> participant_id_matches(
            #[trigger] participant_id[i],
            arr_of(get_key(fs, "participant_id"@))[i],
        ))
}

pub open spec fn conversation_rename_keys() -> Seq<Seq<char>> {
    seq!["old_name"@, "new_name"@]
}

pub open spec fn conversation_rename_wf(v: JsonV, strict: bool) -> bool {
    let fs = obj_of(v);
    &&& v is Obj
    &&& field_is_str(fs, "old_name"@)
    &&& field_is_str(fs, "new_name"@)
    &&& strict ==> keys_within(fs, conversation_rename_keys())
}

pub open spec fn conversation_rename_matches(old_name: String, new_name: String, v: JsonV) -> bool {
    let fs = obj_of(v);
    &&& old_name@ == str_of(get_key(fs, "old_name"@))
    &&& new_name@ == str_of(get_key(fs, "new_name"@))
}

pub fn parse_hangout_event(v: &JsonValue, strict: bool) -> (r: Result<
    (HangoutEvent, String, Vec<ParticipantId>),
    SchemaError,
>)
    ensures
        r is Ok <==> hangout_event_wf(v@, strict),
        r matches Ok(t) ==> hangout_event_matches(t.0, t.1, t.2@, v@),
{
    proof {
        broadcast use vstd::string::group_string_axioms;
        reveal_strlit("START_HANGOUT");
        reveal_strlit("END_HANGOUT");
        assert("START_HANGOUT"@.len() == 13 && "END_HANGOUT"@.len() == 11);
        assert("START_HANGOUT"@ != "END_HANGOUT"@);
    }
    let fs = as_obj(v, "hangout event")?;
    let tag = req_str(fs, "event_type")?;
    let data: HangoutEvent = if str_eq(tag.as_str(), "START_HANGOUT") {
        if strict {
            let allowed: &[&str; 3] = &["event_type", "media_type", "participant_id"];
            let bad = check_keys(fs, allowed);
            proof {
                assert(views_of_strs(allowed@) =~= hangout_start_keys());
            }
            if let Some(k) = bad {
                return Err(SchemaError::UnexpectedField(k));
            }
        }
        HangoutEvent::StartHangout
    } else if str_eq(tag.as_str(), "END_HANGOUT") {
        if strict {
            let allowed: &[&str; 4] = &[
                "event_type",
                "hangout_duration_secs",
                "media_type",
                "participant_id",
            ];
            let bad = check_keys(fs, allowed);
            proof {
                assert(views_of_strs(allowed@) =~= hangout_end_keys());
            }
            if let Some(k) = bad {
                return Err(SchemaError::UnexpectedField(k));
            }
        }
        let hangout_duration_secs = req_str(fs, "hangout_duration_secs")?;
        HangoutEvent::EndHangout { hangout_duration_secs }
    } else {
        return Err(SchemaError::UnknownVariant(tag));
    };
    let media_type = req_str(fs, "media_type")?;
    let participant_id = parse_participant_ids(
        req_field(fs, "participant_id")?,
        strict,
        "participant_id",
    )?;
    Ok((data, media_type, participant_id))
}

/// The declared keys of an event object: the flattened header, the
/// outer kind tag, and the payload keys.
pub open spec fn event_keys() -> Seq<Seq<char>> {
    seq![
        "conversation_id"@,
        "sender_id"@,
        "timestamp"@,
        "self_event_state"@,
        "event_id"@,
        "advances_sort_timestamp"@,
        "event_otr"@,
        "delivery_medium"@,
        "event_version"@,
        "event_type"@,
        "chat_message"@,
        "hangout_event"@,
        "membership_change"@,
        "conversation_rename"@,
    ]
}

/// Which payload key an event carries; the first of the declared
/// payload keys that is present wins.
pub open spec fn event_payload_kind(fs: Seq<(Seq<char>, JsonV)>) -> int {
    if has_key(fs, "chat_message"@) {
        0int
    } else if has_key(fs, "hangout_event"@) {
        1int
    } else if has_key(fs, "membership_change"@) {
        2int
    } else if has_key(fs, "conversation_rename"@) {
        3int
    } else {
        -1int
    }
}

pub open spec fn event_wf(v: JsonV, strict: bool) -> bool {
    let fs = obj_of(v);
    let kind = event_payload_kind(fs);
    &&& v is Obj
    &&& event_header_wf(fs, strict)
    &&& field_is_str(fs, "event_type"@)
    &&& kind >= 0
    &&& kind == 0 ==> chat_message_wf(get_key(fs, "chat_message"@), strict)
    &&& kind == 1 ==> hangout_event_wf(get_key(fs, "hangout_event"@), strict)
    &&& kind == 2 ==> membership_change_wf(get_key(fs, "membership_change"@), strict)
    &&& kind == 3 ==> conversation_rename_wf(get_key(fs, "conversation_rename"@), strict)
    &&& strict ==> keys_within(fs, event_keys())
}

pub open spec fn event_matches(e: Event, v: JsonV) -> bool {
    let fs = obj_of(v);
    let kind = event_payload_kind(fs);
    &&& event_header_matches(e.header, fs)
    &&& e.event_type@ == str_of(get_key(fs, "event_type"@))
    &&& kind == 0 ==> {
        &&& e.data matches EventData::ChatMessage { message_content, annotation }
        &&& chat_message_matches(message_content, annotation, get_key(fs, "chat_message"@))
    }
    &&& kind == 1 ==> {
        &&& e.data matches EventData::HangoutEvent { data, media_type, participant_id }
        &&& hangout_event_matches(data, media_type, participant_id@, get_key(fs, "hangout_event"@))
    }
    &&& kind == 2 ==> {
        &&& e.data matches EventData::MembershipChange { typ, participant_id }
        &&& membership_change_matches(typ, participant_id@, get_key(fs, "membership_change"@))
    }
    &&& kind == 3 ==> {
        &&& e.data matches EventData::ConversationRename { old_name, new_name }
        &&& conversation_rename_matches(old_name, new_name, get_key(fs, "conversation_rename"@))
    }
}

pub fn parse_event(v: &JsonValue, strict: bool) -> (r: Result<Event, SchemaError>)
    ensures
        r is Ok <==> event_wf(v@, strict),
        r matches Ok(e) ==> event_matches(e, v@),
{
    let fs = as_obj(v, "event")?;
    if strict {
        let allowed: &[&str; 14] = &[
            "conversation_id",
            "sender_id",
            "timestamp",
            "self_event_state",
            "event_id",
            "advances_sort_timestamp",
            "event_otr",
            "delivery_medium",
            "event_version",
            "event_type",
            "chat_message",
            "hangout_event",
            "membership_change",
            "conversation_rename",
        ];
        let bad = check_keys(fs, allowed);
        proof {
            assert(views_of_strs(allowed@) =~= event_keys());
        }
        if let Some(k) = bad {
            return Err(SchemaError::UnexpectedField(k));
        }
    }
    let header = parse_event_header(fs, strict)?;
    let event_type = req_str(fs, "event_type")?;
    let data: EventData = if let Some(pv) = lookup(fs, "chat_message") {
        let pfs = as_obj(pv, "chat_message")?;
        if strict {
            let allowed: &[&str; 2] = &["message_content", "annotation"];
            let bad = check_keys(pfs, allowed);
            proof {
                assert(views_of_strs(allowed@) =~= chat_message_keys());
            }
            if let Some(k) = bad {
                return Err(SchemaError::UnexpectedField(k));
            }
        }
        let message_content = parse_chat_segments(req_field(pfs, "message_content")?, strict)?;
        let annotation = match lookup(pfs, "annotation") {
            None => None,
            Some(av) => match av {
                JsonValue::Null => None,
                _ => Some(parse_annotations(av, strict, "annotation")?),
            },
        };
        EventData::ChatMessage { message_content, annotation }
    } else if let Some(pv) = lookup(fs, "hangout_event") {
        let (data, media_type, participant_id) = parse_hangout_event(pv, strict)?;
        EventData::HangoutEvent { data, media_type, participant_id }
    } else if let Some(pv) = lookup(fs, "membership_change") {
        let pfs = as_obj(pv, "membership_change")?;
        if strict {
            let allowed: &[&str; 2] = &["type", "participant_id"];
            let bad = check_keys(pfs, allowed);
            proof {
                assert(views_of_strs(allowed@) =~= membership_change_keys());
            }
            if let Some(k) = bad {
                return Err(SchemaError::UnexpectedField(k));
            }
        }
        let typ = req_str(pfs, "type")?;
        let participant_id = parse_participant_ids(
            req_field(pfs, "participant_id")?,
            strict,
            "participant_id",
        )?;
        EventData::MembershipChange { typ, participant_id }
    } else if let Some(pv) = lookup(fs, "conversation_rename") {
        let pfs = as_obj(pv, "conversation_rename")?;
        if strict {
            let allowed: &[&str; 2] = &["old_name", "new_name"];
            let bad = check_keys(pfs, allowed);
            proof {
                assert(views_of_strs(allowed@) =~= conversation_rename_keys());
            }
            if let Some(k) = bad {
                return Err(SchemaError::UnexpectedField(k));
            }
        }
        let old_name = req_str(pfs, "old_name")?;
        let new_name = req_str(pfs, "new_name")?;
        EventData::ConversationRename { old_name, new_name }
    } else {
        return Err(SchemaError::MissingField("event data".to_owned()));
    };
    Ok(Event { header, data, event_type })
}

/// Parses an array of events.
#[verifier::loop_isolation(false)]
pub fn parse_events(v: &JsonValue, strict: bool, ctx: &str) -> (r: Result<Vec<Event>, SchemaError>)
    ensures
        r is Ok <==> v@ is Arr && (forall|i: int|
            0 <= i < arr_of(v@).len() ==> event_wf(#[trigger] arr_of(v@)[i], strict)),
        r matches Ok(out) ==> out@.len() == arr_of(v@).len() && (forall|i: int|
            0 <= i < out@.len() ==> event_matches(#[trigger] out@[i], arr_of(v@)[i])),
{
    let a = as_arr(v, ctx)?;
    let n = a.len();
    let mut out: Vec<Event> = Vec::new();
    let mut i: usize = 0;
    while i < n
        invariant
            n == a@.len(),
            i <= n,
            out@.len() == i,
            forall|j: int| 0 <= j < i ==> event_wf(#[trigger] arr_of(v@)[j], strict),
            forall|j: int| 0 <= j < i ==> event_matches(#[trigger] out@[j], arr_of(v@)[j]),
        decreases n - i,
    {
        proof {
            lemma_jview_seq(a@);
        }
        match parse_event(&a[i], strict) {
            Ok(e) => {
                out.push(e);
            },
            Err(err) => {
                proof {
                    assert(!event_wf(arr_of(v@)[i as int], strict));
                }
                return Err(err);
            },
        }
        i += 1;
    }
    proof {
        lemma_jview_seq(a@);
    }
    Ok(out)
}

pub open spec fn conversation_keys() -> Seq<Seq<char>> {
    seq!["conversation"@, "events"@]
}

pub open spec fn conversation_wf(v: JsonV, strict: bool) -> bool {
    let fs = obj_of(v);
    &&& v is Obj
    &&& has_key(fs, "conversation"@)
    &&& conversation_header_wf(get_key(fs, "conversation"@), strict)
    &&& has_key(fs, "events"@)
    &&& get_key(fs, "events"@) is Arr
    &&& (forall|i: int|
        0 <= i < arr_of(get_key(fs, "events"@)).len() ==> event_wf(
            #[trigger] arr_of(get_key(fs, "events"@))[i],
            strict,
        ))
    &&& strict ==> keys_within(fs, conversation_keys())
}

pub open spec fn conversation_matches(c: Conversation, v: JsonV) -> bool {
    let fs = obj_of(v);
    &&& conversation_header_matches(c.header, get_key(fs, "conversation"@))
    &&& c.events@.len() == arr_of(get_key(fs, "events"@)).len()
    &&& (forall|i: int|
        0 <= i < c.events@.len() ==> event_matches(
            #[trigger] c.events@[i],
            arr_of(get_key(fs, "events"@))[i],
        ))
}

pub fn parse_conversation(v: &JsonValue, strict: bool) -> (r: Result<Conversation, SchemaError>)
    ensures
        r is Ok <==> conversation_wf(v@, strict),
        r matches Ok(c) ==> conversation_matches(c, v@),
{
    let fs = as_obj(v, "conversation")?;
    if strict {
        let allowed: &[&str; 2] = &["conversation", "events"];
        let bad = check_keys(fs, allowed);
        proof {
            assert(views_of_strs(allowed@) =~= conversation_keys());
        }
        if let Some(k) = bad {
            return Err(SchemaError::UnexpectedField(k));
        }
    }
    let header = parse_conversation_header(req_field(fs, "conversation")?, strict)?;
    let events = parse_events(req_field(fs, "events")?, strict, "events")?;
    Ok(Conversation { header, events })
}

pub open spec fn hangouts_keys() -> Seq<Seq<char>> {
    seq!["conversations"@]
}

pub open spec fn hangouts_wf(v: JsonV, strict: bool) -> bool {
    let fs = obj_of(v);
    &&& v is Obj
    &&& has_key(fs, "conversations"@)
    &&& get_key(fs, "conversations"@) is Arr
    &&& (forall|i: int|
        0 <= i < arr_of(get_key(fs, "conversations"@)).len() ==> conversation_wf(
            #[trigger] arr_of(get_key(fs, "conversations"@))[i],
            strict,
        ))
    &&& strict ==> keys_within(fs, hangouts_keys())
}

pub open spec fn hangouts_matches(h: Hangouts, v: JsonV) -> bool {
    let fs = obj_of(v);
    &&& h.conversations@.len() == arr_of(get_key(fs, "conversations"@)).len()
    &&& (forall|i: int|
        0 <= i < h.conversations@.len() ==> conversation_matches(
            #[trigger] h.conversations@[i],
            arr_of(get_key(fs, "conversations"@))[i],
        ))
}

pub open spec fn strict_of(mode: ParseMode) -> bool {
    mode is Strict
}

/// Ingests a whole export document: accepts it exactly when it is
/// well-formed for the chosen mode, and then every typed field holds
/// the corresponding document value.
#[verifier::loop_isolation(false)]
pub fn parse(v: &JsonValue, mode: ParseMode) -> (r: Result<Hangouts, SchemaError>)
    ensures
        r is Ok <==> hangouts_wf(v@, strict_of(mode)),
        r matches Ok(h) ==> hangouts_matches(h, v@),
{
    let strict = match mode {
        ParseMode::Strict => true,
        ParseMode::Lenient => false,
    };
    let fs = as_obj(v, "document")?;
    if strict {
        let allowed: &[&str; 1] = &["conversations"];
        let bad = check_keys(fs, allowed);
        proof {
            assert(views_of_strs(allowed@) =~= hangouts_keys());
        }
        if let Some(k) = bad {
            return Err(SchemaError::UnexpectedField(k));
        }
    }
    let cv = req_field(fs, "conversations")?;
    let a = as_arr(cv, "conversations")?;
    let n = a.len();
    let mut out: Vec<Conversation> = Vec::new();
    let mut i: usize = 0;
    while i < n
        invariant
            n == a@.len(),
            i <= n,
            out@.len() == i,
            forall|j: int|
                0 <= j < i ==> conversation_wf(
                    #[trigger] arr_of(get_key(obj_of(v@), "conversations"@))[j],
                    strict,
                ),
            forall|j: int|
                0 <= j < i ==> conversation_matches(
                    #[trigger] out@[j],
                    arr_of(get_key(obj_of(v@), "conversations"@))[j],
                ),
        decreases n - i,
    {
        proof {
            lemma_jview_seq(a@);
        }
        match parse_conversation(&a[i], strict) {
            Ok(c) => {
                out.push(c);
            },
            Err(err) => {
                proof {
                    assert(!conversation_wf(
                        arr_of(get_key(obj_of(v@), "conversations"@))[i as int],
                        strict,
                    ));
                }
                return Err(err);
            },
        }
        i += 1;
    }
    proof {
        lemma_jview_seq(a@);
    }
    Ok(Hangouts { conversations: out })
}

} // verus!
