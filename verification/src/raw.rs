//! The typed schema of the export document: conversations,
//! participants, events, chat segments and attachments.
//!
//! Field presence follows the known producer versions: structurally
//! required fields are plain, semantically optional ones are
//! `Option`, and fields whose content this crate never interprets
//! are carried through as raw [`crate::json::JsonValue`]s.

use vstd::prelude::*;
use crate::json::JsonValue;

verus! {

/// The whole export: an ordered sequence of conversations.
#[derive(Debug)]
pub struct Hangouts {
    pub conversations: Vec<Conversation>,
}

#[derive(Debug)]
pub struct Conversation {
    /// The JSON key of this block is `conversation`.
    pub header: ConversationHeader,
    pub events: Vec<Event>,
}

#[derive(Debug)]
pub struct ConversationHeader {
    pub conversation_id: ConversationId,
    /// The JSON key of this block is `conversation` as well.
    pub details: ConversationDetails,
}

#[derive(Debug)]
pub struct ConversationDetails {
    pub id: ConversationId,
    /// The JSON key of this field is `type`.
    pub typ: String,
    /// Set for group conversations only.
    pub name: Option<String>,
    pub self_conversation_state: SelfConversationState,
    pub read_state: Vec<ReadState>,
    pub has_active_hangout: bool,
    pub otr_status: String,
    pub otr_toggle: String,
    pub current_participant: Vec<ParticipantId>,
    pub participant_data: Vec<ParticipantData>,
    pub fork_on_external_invite: bool,
    pub network_type: Vec<String>,
    pub force_history_state: String,
    pub group_link_sharing_status: String,
}

#[derive(Debug, PartialEq)]
pub struct ConversationId {
    pub id: String,
}

#[derive(Debug)]
pub struct SelfConversationState {
    pub self_read_state: ReadState,
    pub status: String,
    pub notification_level: NotificationLevel,
    pub view: Vec<String>,
    pub inviter_id: ParticipantId,
    pub invite_timestamp: String,
    pub invitation_display_type: Option<String>,
    pub invite_affinity: Option<String>,
    pub sort_timestamp: String,
    pub active_timestamp: Option<String>,
    /// Opaque passthrough; this crate never interprets it.
    pub delivery_medium_option: Option<JsonValue>,
    pub is_guest: Option<bool>,
}

#[derive(Debug)]
pub struct ReadState {
    pub participant_id: ParticipantId,
    pub latest_read_timestamp: String,
}

/// Compound identifier for a chat participant, stable across
/// conversations.  Equality is exact structural equality of both
/// components.
#[derive(Debug, PartialEq, Eq, Hash)]
pub struct ParticipantId {
    pub gaia_id: String,
    pub chat_id: String,
}

/// A participant's profile attributes as one conversation lists them.
#[derive(Debug)]
pub struct ParticipantData {
    pub id: ParticipantId,
    /// A possibly unknown display name; never defaulted to empty.
    pub fallback_name: Option<String>,
    pub invitation_status: Option<String>,
    pub participant_type: Option<String>,
    pub new_invitation_status: Option<String>,
    pub in_different_customer_as_requester: Option<bool>,
    pub domain_id: Option<String>,
    /// Opaque passthrough; this crate never interprets it.
    pub phone_number: Option<JsonValue>,
}

/// One timestamped event.  The header fields sit at the same JSON
/// nesting level as the payload (they are flattened siblings of the
/// payload key), and every event carries them whatever its kind.
#[derive(Debug)]
pub struct Event {
    pub header: EventHeader,
    pub data: EventData,
    pub event_type: String,
}

#[derive(Debug)]
pub struct EventHeader {
    pub conversation_id: ConversationId,
    pub sender_id: ParticipantId,
    /// Microseconds since the epoch as one undelimited decimal
    /// numeral; see [`crate::timestamp`].
    pub timestamp: String,
    pub self_event_state: SelfEventState,
    pub event_id: String,
    pub advances_sort_timestamp: bool,
    pub event_otr: String,
    /// Opaque passthrough; this crate never interprets it.
    pub delivery_medium: JsonValue,
    pub event_version: String,
}

#[derive(Debug)]
pub struct SelfEventState {
    pub user_id: ParticipantId,
    pub client_generated_id: Option<String>,
    pub notification_level: Option<NotificationLevel>,
}

/// The JSON tag values are `QUIET` and `RING`.
#[derive(Debug, Clone, Copy, PartialEq, Eq, Structural)]
pub enum NotificationLevel {
    Quiet,
    Ring,
}

/// The payload of an event, discriminated by which payload key the
/// event object carries.  Producer versions differ in which kinds
/// exist; an unknown payload key is a schema error.
#[derive(Debug)]
pub enum EventData {
    /// JSON key `chat_message`.
    ChatMessage { message_content: ChatSegments, annotation: Option<Vec<Annotation>> },
    /// JSON key `hangout_event`.
    HangoutEvent { data: HangoutEvent, media_type: String, participant_id: Vec<ParticipantId> },
    /// JSON key `membership_change`.
    MembershipChange { typ: String, participant_id: Vec<ParticipantId> },
    /// JSON key `conversation_rename`.
    ConversationRename { old_name: String, new_name: String },
}

#[derive(Debug)]
pub struct ChatSegments {
    /// The JSON key of this list is `segment`; an absent list means
    /// an empty one.
    pub segments: Vec<ChatSegment>,
    /// The JSON key of this list is `attachment`; an absent list
    /// means an empty one.
    pub attachments: Vec<AttachmentSegment>,
}

/// One piece of a chat message, discriminated by the JSON tag field
/// `type` with values `TEXT`, `LINK` and `LINE_BREAK`.
#[derive(Debug)]
pub enum ChatSegment {
    Text { text: String, formatting: Formatting },
    Link { text: String, link_data: LinkData, formatting: Formatting },
    LineBreak { text: Option<String> },
}

#[derive(Debug)]
pub struct Annotation {
    /// The JSON key of this field is `type`.
    pub typ: i32,
    pub value: String,
}

#[derive(Debug)]
pub struct LinkData {
    pub link_target: String,
    pub display_url: Option<String>,
}

/// Four independent style flags; they compose freely and each
/// defaults to off when absent.
#[derive(Debug, Clone, Copy, PartialEq, Eq, Structural)]
pub struct Formatting {
    pub bold: bool,
    pub italics: bool,
    pub strikethrough: bool,
    pub underline: bool,
}

#[derive(Debug)]
pub struct AttachmentSegment {
    pub embed_item: EmbedItem,
    pub id: String,
}

/// An attachment payload.  Only photos have defined structure; every
/// other embed kind is opaque data a renderer may show generically.
#[derive(Debug)]
pub struct EmbedItem {
    pub id: Option<String>,
    pub plus_photo: Option<PlusPhoto>,
    pub place_v2: Option<PlaceV2>,
    pub thing_v2: Option<ThingV2>,
    /// The JSON key of this list is `type`.
    pub types: Vec<String>,
}

#[derive(Debug)]
pub struct PlusPhoto {
    pub album_id: String,
    pub media_type: String,
    pub original_content_url: String,
    pub owner_obfuscated_id: String,
    pub photo_id: String,
    pub stream_id: Vec<String>,
    pub thumbnail: Thumbnail,
    /// The remote URL whose last segment names the locally saved
    /// file; see [`crate::resolve`].
    pub url: String,
    pub download_url: Option<String>,
}

#[derive(Debug)]
pub struct Thumbnail {
    pub height_px: u64,
    pub width_px: u64,
    pub image_url: String,
    pub url: Option<String>,
}

#[derive(Debug)]
pub struct PlaceV2 {
    pub url: String,
    pub name: Option<String>,
    pub address: Address,
    pub geo: Geo,
    pub representative_image: RepresentativeImage,
    pub place_id: Option<String>,
    pub cluster_id: Option<String>,
    pub reference_id: Option<String>,
}

#[derive(Debug)]
pub struct Address {
    /// The JSON key of this list is `type`; an absent list means an
    /// empty one.
    pub types: Vec<String>,
    pub postal_address_v2: PostalAddressV2,
}

#[derive(Debug)]
pub struct PostalAddressV2 {
    pub name: Option<String>,
    pub street_address: Option<String>,
    pub address_locality: Option<String>,
    pub address_region: Option<String>,
    pub address_country: Option<String>,
    pub postal_code: Option<String>,
}

#[derive(Debug)]
pub struct Geo {
    /// The JSON key of this list is `type`; an absent list means an
    /// empty one.
    pub types: Vec<String>,
    pub geo_coordinates_v2: GeoCoordinatesV2,
}

/// Coordinates are carried as the raw numerals of the document; this
/// crate never computes with them.
#[derive(Debug)]
pub struct GeoCoordinatesV2 {
    pub latitude: JsonValue,
    pub longitude: JsonValue,
}

#[derive(Debug)]
pub struct RepresentativeImage {
    /// The JSON key of this list is `type`.
    pub types: Vec<String>,
    pub id: String,
    pub image_object_v2: ImageObjectV2,
}

#[derive(Debug)]
pub struct ImageObjectV2 {
    pub url: String,
    pub width: Option<String>,
    pub height: Option<String>,
}

#[derive(Debug)]
pub struct ThingV2 {
    pub url: String,
    pub name: Option<String>,
    pub representative_image: RepresentativeImage,
}

/// A call event, discriminated by the JSON tag field `event_type`
/// inside the payload, with values `START_HANGOUT` and `END_HANGOUT`.
#[derive(Debug)]
pub enum HangoutEvent {
    StartHangout,
    EndHangout { hangout_duration_secs: String },
}

/// Copies an optional string, keeping its view.
pub fn clone_opt_string(o: &Option<String>) -> (r: Option<String>)
    ensures
        match (r, o) {
            (Some(a), Some(b)) => a@ == b@,
            (None, None) => true,
            _ => false,
        },
{
    match o {
        Some(s) => Some(s.clone()),
        None => None,
    }
}

impl Clone for ParticipantId {
    /// Copy of the identifier, equal in view to the original.
    fn clone(&self) -> (r: Self)
        ensures
            r.gaia_id@ == self.gaia_id@,
            r.chat_id@ == self.chat_id@,
    {
        ParticipantId { gaia_id: self.gaia_id.clone(), chat_id: self.chat_id.clone() }
    }
}

impl Clone for ParticipantData {
    /// Copy of the profile, equal in view to the original, field by
    /// field.
    fn clone(&self) -> (r: Self)
        ensures
            r.id.gaia_id@ == self.id.gaia_id@,
            r.id.chat_id@ == self.id.chat_id@,
            match (r.fallback_name, self.fallback_name) {
                (Some(a), Some(b)) => a@ == b@,
                (None, None) => true,
                _ => false,
            },
            match (r.invitation_status, self.invitation_status) {
                (Some(a), Some(b)) => a@ == b@,
                (None, None) => true,
                _ => false,
            },
            match (r.participant_type, self.participant_type) {
                (Some(a), Some(b)) => a@ == b@,
                (None, None) => true,
                _ => false,
            },
            match (r.new_invitation_status, self.new_invitation_status) {
                (Some(a), Some(b)) => a@ == b@,
                (None, None) => true,
                _ => false,
            },
            r.in_different_customer_as_requester == self.in_different_customer_as_requester,
            match (r.domain_id, self.domain_id) {
                (Some(a), Some(b)) => a@ == b@,
                (None, None) => true,
                _ => false,
            },
            match (r.phone_number, self.phone_number) {
                (Some(a), Some(b)) => a@ == b@,
                (None, None) => true,
                _ => false,
            },
    {
        ParticipantData {
            id: self.id.clone(),
            fallback_name: clone_opt_string(&self.fallback_name),
            invitation_status: clone_opt_string(&self.invitation_status),
            participant_type: clone_opt_string(&self.participant_type),
            new_invitation_status: clone_opt_string(&self.new_invitation_status),
            in_different_customer_as_requester: self.in_different_customer_as_requester,
            domain_id: clone_opt_string(&self.domain_id),
            phone_number: match &self.phone_number {
                Some(v) => Some(v.clone()),
                None => None,
            },
        }
    }
}

} // verus!
