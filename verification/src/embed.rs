//! Schema ingestion for the attachment subtree: embed items, photos,
//! places and things.  Only photos carry data this crate interprets;
//! the rest is typed passthrough for generic rendering.

use vstd::prelude::*;
use crate::json::{
    JsonV, JsonValue, SchemaError, arr_of, check_keys, field_is_str, field_is_u64, get_key,
    has_key, is_missing, is_num, is_str_arr, is_wrong_type, jview_fields,
    keys_within, lemma_jview_seq, lookup, obj_of, opt_field_str_ok, opt_str,
    opt_str_arr, opt_str_val, req_str, req_str_arr, req_u64, json_clone, str_arr_of,
    str_of, str_views, u64_of, views_of_strs,
};
use crate::ingest::{as_obj, as_arr, req_field, opt_string_is};
use crate::raw::{
    Address, AttachmentSegment, EmbedItem, Geo, GeoCoordinatesV2, ImageObjectV2, PlaceV2,
    PlusPhoto, PostalAddressV2, RepresentativeImage, Thumbnail, ThingV2,
};

verus! {

/// Reads the required numeric field `key`, kept as its raw value.
pub fn req_num(fs: &Vec<(String, JsonValue)>, key: &str) -> (r: Result<JsonValue, SchemaError>)
    ensures
        r is Ok <==> has_key(jview_fields(fs@), key@) && is_num(get_key(jview_fields(fs@), key@)),
        r matches Ok(v) ==> v@ == get_key(jview_fields(fs@), key@),
        r matches Err(e) ==> if !has_key(jview_fields(fs@), key@) {
            is_missing(e, key@)
        } else {
            is_wrong_type(e, key@)
        },
{
    match lookup(fs, key) {
        None => Err(SchemaError::MissingField(key.to_owned())),
        Some(v) => match v {
            JsonValue::Int(_) => Ok(json_clone(v)),
            JsonValue::UInt(_) => Ok(json_clone(v)),
            JsonValue::NumText(_) => Ok(json_clone(v)),
            _ => Err(SchemaError::WrongType(key.to_owned())),
        },
    }
}

pub open spec fn image_object_v2_keys() -> Seq<Seq<char>> {
    seq!["url"@, "width"@, "height"@]
}

pub open spec fn image_object_v2_wf(v: JsonV, strict: bool) -> bool {
    &&& v is Obj
    &&& field_is_str(obj_of(v), "url"@)
    &&& opt_field_str_ok(obj_of(v), "width"@)
    &&& opt_field_str_ok(obj_of(v), "height"@)
    &&& strict ==> keys_within(obj_of(v), image_object_v2_keys())
}

pub open spec fn image_object_v2_matches(x: ImageObjectV2, v: JsonV) -> bool {
    &&& x.url@ == str_of(get_key(obj_of(v), "url"@))
    &&& opt_string_is(x.width, opt_str_val(obj_of(v), "width"@))
    &&& opt_string_is(x.height, opt_str_val(obj_of(v), "height"@))
}

pub fn parse_image_object_v2(v: &JsonValue, strict: bool) -> (r: Result<
    ImageObjectV2,
    SchemaError,
>)
    ensures
        r is Ok <==> image_object_v2_wf(v@, strict),
        r matches Ok(x) ==> image_object_v2_matches(x, v@),
{
    let fs = as_obj(v, "image object")?;
    if strict {
        let allowed: &[&str; 3] = &["url", "width", "height"];
        let bad = check_keys(fs, allowed);
        proof {
            assert(views_of_strs(allowed@) =~= image_object_v2_keys());
        }
        if let Some(k) = bad {
            return Err(SchemaError::UnexpectedField(k));
        }
    }
    let url = req_str(fs, "url")?;
    let width = opt_str(fs, "width")?;
    let height = opt_str(fs, "height")?;
    Ok(ImageObjectV2 { url, width, height })
}

pub open spec fn representative_image_keys() -> Seq<Seq<char>> {
    seq!["type"@, "id"@, "image_object_v2"@]
}

pub open spec fn representative_image_wf(v: JsonV, strict: bool) -> bool {
    &&& v is Obj
    &&& has_key(obj_of(v), "type"@)
    &&& is_str_arr(get_key(obj_of(v), "type"@))
    &&& field_is_str(obj_of(v), "id"@)
    &&& has_key(obj_of(v), "image_object_v2"@)
    &&& image_object_v2_wf(get_key(obj_of(v), "image_object_v2"@), strict)
    &&& strict ==> keys_within(obj_of(v), representative_image_keys())
}

pub open spec fn representative_image_matches(x: RepresentativeImage, v: JsonV) -> bool {
    &&& str_views(x.types@) == str_arr_of(get_key(obj_of(v), "type"@))
    &&& x.id@ == str_of(get_key(obj_of(v), "id"@))
    &&& image_object_v2_matches(x.image_object_v2, get_key(obj_of(v), "image_object_v2"@))
}

pub fn parse_representative_image(v: &JsonValue, strict: bool) -> (r: Result<
    RepresentativeImage,
    SchemaError,
>)
    ensures
        r is Ok <==> representative_image_wf(v@, strict),
        r matches Ok(x) ==> representative_image_matches(x, v@),
{
    let fs = as_obj(v, "representative image")?;
    if strict {
        let allowed: &[&str; 3] = &["type", "id", "image_object_v2"];
        let bad = check_keys(fs, allowed);
        proof {
            assert(views_of_strs(allowed@) =~= representative_image_keys());
        }
        if let Some(k) = bad {
            return Err(SchemaError::UnexpectedField(k));
        }
    }
    let types = req_str_arr(fs, "type")?;
    let id = req_str(fs, "id")?;
    let image_object_v2 = parse_image_object_v2(req_field(fs, "image_object_v2")?, strict)?;
    Ok(RepresentativeImage { types, id, image_object_v2 })
}

pub open spec fn postal_address_v2_keys() -> Seq<Seq<char>> {
    seq![
        "name"@,
        "street_address"@,
        "address_locality"@,
        "address_region"@,
        "address_country"@,
        "postal_code"@,
    ]
}

pub open spec fn postal_address_v2_wf(v: JsonV, strict: bool) -> bool {
    &&& v is Obj
    &&& opt_field_str_ok(obj_of(v), "name"@)
    &&& opt_field_str_ok(obj_of(v), "street_address"@)
    &&& opt_field_str_ok(obj_of(v), "address_locality"@)
    &&& opt_field_str_ok(obj_of(v), "address_region"@)
    &&& opt_field_str_ok(obj_of(v), "address_country"@)
    &&& opt_field_str_ok(obj_of(v), "postal_code"@)
    &&& strict ==> keys_within(obj_of(v), postal_address_v2_keys())
}

pub open spec fn postal_address_v2_matches(x: PostalAddressV2, v: JsonV) -> bool {
    &&& opt_string_is(x.name, opt_str_val(obj_of(v), "name"@))
    &&& opt_string_is(x.street_address, opt_str_val(obj_of(v), "street_address"@))
    &&& opt_string_is(x.address_locality, opt_str_val(obj_of(v), "address_locality"@))
    &&& opt_string_is(x.address_region, opt_str_val(obj_of(v), "address_region"@))
    &&& opt_string_is(x.address_country, opt_str_val(obj_of(v), "address_country"@))
    &&& opt_string_is(x.postal_code, opt_str_val(obj_of(v), "postal_code"@))
}

pub fn parse_postal_address_v2(v: &JsonValue, strict: bool) -> (r: Result<
    PostalAddressV2,
    SchemaError,
>)
    ensures
        r is Ok <==> postal_address_v2_wf(v@, strict),
        r matches Ok(x) ==> postal_address_v2_matches(x, v@),
{
    let fs = as_obj(v, "postal address")?;
    if strict {
        let allowed: &[&str; 6] = &[
            "name",
            "street_address",
            "address_locality",
            "address_region",
            "address_country",
            "postal_code",
        ];
        let bad = check_keys(fs, allowed);
        proof {
            assert(views_of_strs(allowed@) =~= postal_address_v2_keys());
        }
        if let Some(k) = bad {
            return Err(SchemaError::UnexpectedField(k));
        }
    }
    let name = opt_str(fs, "name")?;
    let street_address = opt_str(fs, "street_address")?;
    let address_locality = opt_str(fs, "address_locality")?;
    let address_region = opt_str(fs, "address_region")?;
    let address_country = opt_str(fs, "address_country")?;
    let postal_code = opt_str(fs, "postal_code")?;
    Ok(
        PostalAddressV2 {
            name,
            street_address,
            address_locality,
            address_region,
            address_country,
            postal_code,
        },
    )
}

pub open spec fn address_keys() -> Seq<Seq<char>> {
    seq!["type"@, "postal_address_v2"@]
}

pub open spec fn address_wf(v: JsonV, strict: bool) -> bool {
    &&& v is Obj
    &&& has_key(obj_of(v), "type"@) ==> is_str_arr(get_key(obj_of(v), "type"@))
    &&& has_key(obj_of(v), "postal_address_v2"@)
    &&& postal_address_v2_wf(get_key(obj_of(v), "postal_address_v2"@), strict)
    &&& strict ==> keys_within(obj_of(v), address_keys())
}

pub open spec fn address_matches(x: Address, v: JsonV) -> bool {
    &&& str_views(x.types@) == if has_key(obj_of(v), "type"@) {
        str_arr_of(get_key(obj_of(v), "type"@))
    } else {
        Seq::<Seq<char>>::empty()
    }
    &&& postal_address_v2_matches(x.postal_address_v2, get_key(obj_of(v), "postal_address_v2"@))
}

pub fn parse_address(v: &JsonValue, strict: bool) -> (r: Result<Address, SchemaError>)
    ensures
        r is Ok <==> address_wf(v@, strict),
        r matches Ok(x) ==> address_matches(x, v@),
{
    let fs = as_obj(v, "address")?;
    if strict {
        let allowed: &[&str; 2] = &["type", "postal_address_v2"];
        let bad = check_keys(fs, allowed);
        proof {
            assert(views_of_strs(allowed@) =~= address_keys());
        }
        if let Some(k) = bad {
            return Err(SchemaError::UnexpectedField(k));
        }
    }
    let types = opt_str_arr(fs, "type")?;
    let postal_address_v2 = parse_postal_address_v2(req_field(fs, "postal_address_v2")?, strict)?;
    Ok(Address { types, postal_address_v2 })
}

pub open spec fn geo_coordinates_v2_keys() -> Seq<Seq<char>> {
    seq!["latitude"@, "longitude"@]
}

pub open spec fn geo_coordinates_v2_wf(v: JsonV, strict: bool) -> bool {
    &&& v is Obj
    &&& has_key(obj_of(v), "latitude"@)
    &&& is_num(get_key(obj_of(v), "latitude"@))
    &&& has_key(obj_of(v), "longitude"@)
    &&& is_num(get_key(obj_of(v), "longitude"@))
    &&& strict ==> keys_within(obj_of(v), geo_coordinates_v2_keys())
}

pub open spec fn geo_coordinates_v2_matches(x: GeoCoordinatesV2, v: JsonV) -> bool {
    &&& x.latitude@ == get_key(obj_of(v), "latitude"@)
    &&& x.longitude@ == get_key(obj_of(v), "longitude"@)
}

pub fn parse_geo_coordinates_v2(v: &JsonValue, strict: bool) -> (r: Result<
    GeoCoordinatesV2,
    SchemaError,
>)
    ensures
        r is Ok <==> geo_coordinates_v2_wf(v@, strict),
        r matches Ok(x) ==> geo_coordinates_v2_matches(x, v@),
{
    let fs = as_obj(v, "geo coordinates")?;
    if strict {
        let allowed: &[&str; 2] = &["latitude", "longitude"];
        let bad = check_keys(fs, allowed);
        proof {
            assert(views_of_strs(allowed@) =~= geo_coordinates_v2_keys());
        }
        if let Some(k) = bad {
            return Err(SchemaError::UnexpectedField(k));
        }
    }
    let latitude = req_num(fs, "latitude")?;
    let longitude = req_num(fs, "longitude")?;
    Ok(GeoCoordinatesV2 { latitude, longitude })
}

pub open spec fn geo_keys() -> Seq<Seq<char>> {
    seq!["type"@, "geo_coordinates_v2"@]
}

pub open spec fn geo_wf(v: JsonV, strict: bool) -> bool {
    &&& v is Obj
    &&& has_key(obj_of(v), "type"@) ==> is_str_arr(get_key(obj_of(v), "type"@))
    &&& has_key(obj_of(v), "geo_coordinates_v2"@)
    &&& geo_coordinates_v2_wf(get_key(obj_of(v), "geo_coordinates_v2"@), strict)
    &&& strict ==> keys_within(obj_of(v), geo_keys())
}

pub open spec fn geo_matches(x: Geo, v: JsonV) -> bool {
    &&& str_views(x.types@) == if has_key(obj_of(v), "type"@) {
        str_arr_of(get_key(obj_of(v), "type"@))
    } else {
        Seq::<Seq<char>>::empty()
    }
    &&& geo_coordinates_v2_matches(x.geo_coordinates_v2, get_key(obj_of(v), "geo_coordinates_v2"@))
}

pub fn parse_geo(v: &JsonValue, strict: bool) -> (r: Result<Geo, SchemaError>)
    ensures
        r is Ok <==> geo_wf(v@, strict),
        r matches Ok(x) ==> geo_matches(x, v@),
{
    let fs = as_obj(v, "geo")?;
    if strict {
        let allowed: &[&str; 2] = &["type", "geo_coordinates_v2"];
        let bad = check_keys(fs, allowed);
        proof {
            assert(views_of_strs(allowed@) =~= geo_keys());
        }
        if let Some(k) = bad {
            return Err(SchemaError::UnexpectedField(k));
        }
    }
    let types = opt_str_arr(fs, "type")?;
    let geo_coordinates_v2 = parse_geo_coordinates_v2(req_field(fs, "geo_coordinates_v2")?, strict)?;
    Ok(Geo { types, geo_coordinates_v2 })
}

pub open spec fn thing_v2_keys() -> Seq<Seq<char>> {
    seq!["url"@, "name"@, "representative_image"@]
}

pub open spec fn thing_v2_wf(v: JsonV, strict: bool) -> bool {
    &&& v is Obj
    &&& field_is_str(obj_of(v), "url"@)
    &&& opt_field_str_ok(obj_of(v), "name"@)
    &&& has_key(obj_of(v), "representative_image"@)
    &&& representative_image_wf(get_key(obj_of(v), "representative_image"@), strict)
    &&& strict ==> keys_within(obj_of(v), thing_v2_keys())
}

pub open spec fn thing_v2_matches(x: ThingV2, v: JsonV) -> bool {
    &&& x.url@ == str_of(get_key(obj_of(v), "url"@))
    &&& opt_string_is(x.name, opt_str_val(obj_of(v), "name"@))
    &&& representative_image_matches(
        x.representative_image,
        get_key(obj_of(v), "representative_image"@),
    )
}

pub fn parse_thing_v2(v: &JsonValue, strict: bool) -> (r: Result<ThingV2, SchemaError>)
    ensures
        r is Ok <==> thing_v2_wf(v@, strict),
        r matches Ok(x) ==> thing_v2_matches(x, v@),
{
    let fs = as_obj(v, "thing")?;
    if strict {
        let allowed: &[&str; 3] = &["url", "name", "representative_image"];
        let bad = check_keys(fs, allowed);
        proof {
            assert(views_of_strs(allowed@) =~= thing_v2_keys());
        }
        if let Some(k) = bad {
            return Err(SchemaError::UnexpectedField(k));
        }
    }
    let url = req_str(fs, "url")?;
    let name = opt_str(fs, "name")?;
    let representative_image = parse_representative_image(
        req_field(fs, "representative_image")?,
        strict,
    )?;
    Ok(ThingV2 { url, name, representative_image })
}

pub open spec fn place_v2_keys() -> Seq<Seq<char>> {
    seq![
        "url"@,
        "name"@,
        "address"@,
        "geo"@,
        "representative_image"@,
        "place_id"@,
        "cluster_id"@,
        "reference_id"@,
    ]
}

pub open spec fn place_v2_wf(v: JsonV, strict: bool) -> bool {
    &&& v is Obj
    &&& field_is_str(obj_of(v), "url"@)
    &&& opt_field_str_ok(obj_of(v), "name"@)
    &&& has_key(obj_of(v), "address"@)
    &&& address_wf(get_key(obj_of(v), "address"@), strict)
    &&& has_key(obj_of(v), "geo"@)
    &&& geo_wf(get_key(obj_of(v), "geo"@), strict)
    &&& has_key(obj_of(v), "representative_image"@)
    &&& representative_image_wf(get_key(obj_of(v), "representative_image"@), strict)
    &&& opt_field_str_ok(obj_of(v), "place_id"@)
    &&& opt_field_str_ok(obj_of(v), "cluster_id"@)
    &&& opt_field_str_ok(obj_of(v), "reference_id"@)
    &&& strict ==> keys_within(obj_of(v), place_v2_keys())
}

pub open spec fn place_v2_matches(x: PlaceV2, v: JsonV) -> bool {
    &&& x.url@ == str_of(get_key(obj_of(v), "url"@))
    &&& opt_string_is(x.name, opt_str_val(obj_of(v), "name"@))
    &&& address_matches(x.address, get_key(obj_of(v), "address"@))
    &&& geo_matches(x.geo, get_key(obj_of(v), "geo"@))
    &&& representative_image_matches(
        x.representative_image,
        get_key(obj_of(v), "representative_image"@),
    )
    &&& opt_string_is(x.place_id, opt_str_val(obj_of(v), "place_id"@))
    &&& opt_string_is(x.cluster_id, opt_str_val(obj_of(v), "cluster_id"@))
    &&& opt_string_is(x.reference_id, opt_str_val(obj_of(v), "reference_id"@))
}

pub fn parse_place_v2(v: &JsonValue, strict: bool) -> (r: Result<PlaceV2, SchemaError>)
    ensures
        r is Ok <==> place_v2_wf(v@, strict),
        r matches Ok(x) ==> place_v2_matches(x, v@),
{
    let fs = as_obj(v, "place")?;
    if strict {
        let allowed: &[&str; 8] = &[
            "url",
            "name",
            "address",
            "geo",
            "representative_image",
            "place_id",
            "cluster_id",
            "reference_id",
        ];
        let bad = check_keys(fs, allowed);
        proof {
            assert(views_of_strs(allowed@) =~= place_v2_keys());
        }
        if let Some(k) = bad {
            return Err(SchemaError::UnexpectedField(k));
        }
    }
    let url = req_str(fs, "url")?;
    let name = opt_str(fs, "name")?;
    let address = parse_address(req_field(fs, "address")?, strict)?;
    let geo = parse_geo(req_field(fs, "geo")?, strict)?;
    let representative_image = parse_representative_image(
        req_field(fs, "representative_image")?,
        strict,
    )?;
    let place_id = opt_str(fs, "place_id")?;
    let cluster_id = opt_str(fs, "cluster_id")?;
    let reference_id = opt_str(fs, "reference_id")?;
    Ok(
        PlaceV2 {
            url,
            name,
            address,
            geo,
            representative_image,
            place_id,
            cluster_id,
            reference_id,
        },
    )
}

pub open spec fn thumbnail_keys() -> Seq<Seq<char>> {
    seq!["height_px"@, "width_px"@, "image_url"@, "url"@]
}

pub open spec fn thumbnail_wf(v: JsonV, strict: bool) -> bool {
    &&& v is Obj
    &&& field_is_u64(obj_of(v), "height_px"@)
    &&& field_is_u64(obj_of(v), "width_px"@)
    &&& field_is_str(obj_of(v), "image_url"@)
    &&& opt_field_str_ok(obj_of(v), "url"@)
    &&& strict ==> keys_within(obj_of(v), thumbnail_keys())
}

pub open spec fn thumbnail_matches(x: Thumbnail, v: JsonV) -> bool {
    &&& x.height_px == u64_of(get_key(obj_of(v), "height_px"@))
    &&& x.width_px == u64_of(get_key(obj_of(v), "width_px"@))
    &&& x.image_url@ == str_of(get_key(obj_of(v), "image_url"@))
    &&& opt_string_is(x.url, opt_str_val(obj_of(v), "url"@))
}

pub fn parse_thumbnail(v: &JsonValue, strict: bool) -> (r: Result<Thumbnail, SchemaError>)
    ensures
        r is Ok <==> thumbnail_wf(v@, strict),
        r matches Ok(x) ==> thumbnail_matches(x, v@),
{
    let fs = as_obj(v, "thumbnail")?;
    if strict {
        let allowed: &[&str; 4] = &["height_px", "width_px", "image_url", "url"];
        let bad = check_keys(fs, allowed);
        proof {
            assert(views_of_strs(allowed@) =~= thumbnail_keys());
        }
        if let Some(k) = bad {
            return Err(SchemaError::UnexpectedField(k));
        }
    }
    let height_px = req_u64(fs, "height_px")?;
    let width_px = req_u64(fs, "width_px")?;
    let image_url = req_str(fs, "image_url")?;
    let url = opt_str(fs, "url")?;
    Ok(Thumbnail { height_px, width_px, image_url, url })
}

pub open spec fn plus_photo_keys() -> Seq<Seq<char>> {
    seq![
        "album_id"@,
        "media_type"@,
        "original_content_url"@,
        "owner_obfuscated_id"@,
        "photo_id"@,
        "stream_id"@,
        "thumbnail"@,
        "url"@,
        "download_url"@,
    ]
}

pub open spec fn plus_photo_wf(v: JsonV, strict: bool) -> bool {
    &&& v is Obj
    &&& field_is_str(obj_of(v), "album_id"@)
    &&& field_is_str(obj_of(v), "media_type"@)
    &&& field_is_str(obj_of(v), "original_content_url"@)
    &&& field_is_str(obj_of(v), "owner_obfuscated_id"@)
    &&& field_is_str(obj_of(v), "photo_id"@)
    &&& has_key(obj_of(v), "stream_id"@)
    &&& is_str_arr(get_key(obj_of(v), "stream_id"@))
    &&& has_key(obj_of(v), "thumbnail"@)
    &&& thumbnail_wf(get_key(obj_of(v), "thumbnail"@), strict)
    &&& field_is_str(obj_of(v), "url"@)
    &&& opt_field_str_ok(obj_of(v), "download_url"@)
    &&& strict ==> keys_within(obj_of(v), plus_photo_keys())
}

pub open spec fn plus_photo_matches(x: PlusPhoto, v: JsonV) -> bool {
    &&& x.album_id@ == str_of(get_key(obj_of(v), "album_id"@))
    &&& x.media_type@ == str_of(get_key(obj_of(v), "media_type"@))
    &&& x.original_content_url@ == str_of(get_key(obj_of(v), "original_content_url"@))
    &&& x.owner_obfuscated_id@ == str_of(get_key(obj_of(v), "owner_obfuscated_id"@))
    &&& x.photo_id@ == str_of(get_key(obj_of(v), "photo_id"@))
    &&& str_views(x.stream_id@) == str_arr_of(get_key(obj_of(v), "stream_id"@))
    &&& thumbnail_matches(x.thumbnail, get_key(obj_of(v), "thumbnail"@))
    &&& x.url@ == str_of(get_key(obj_of(v), "url"@))
    &&& opt_string_is(x.download_url, opt_str_val(obj_of(v), "download_url"@))
}

pub fn parse_plus_photo(v: &JsonValue, strict: bool) -> (r: Result<PlusPhoto, SchemaError>)
    ensures
        r is Ok <==> plus_photo_wf(v@, strict),
        r matches Ok(x) ==> plus_photo_matches(x, v@),
{
    let fs = as_obj(v, "photo")?;
    if strict {
        let allowed: &[&str; 9] = &[
            "album_id",
            "media_type",
            "original_content_url",
            "owner_obfuscated_id",
            "photo_id",
            "stream_id",
            "thumbnail",
            "url",
            "download_url",
        ];
        let bad = check_keys(fs, allowed);
        proof {
            assert(views_of_strs(allowed@) =~= plus_photo_keys());
        }
        if let Some(k) = bad {
            return Err(SchemaError::UnexpectedField(k));
        }
    }
    let album_id = req_str(fs, "album_id")?;
    let media_type = req_str(fs, "media_type")?;
    let original_content_url = req_str(fs, "original_content_url")?;
    let owner_obfuscated_id = req_str(fs, "owner_obfuscated_id")?;
    let photo_id = req_str(fs, "photo_id")?;
    let stream_id = req_str_arr(fs, "stream_id")?;
    let thumbnail = parse_thumbnail(req_field(fs, "thumbnail")?, strict)?;
    let url = req_str(fs, "url")?;
    let download_url = opt_str(fs, "download_url")?;
    Ok(
        PlusPhoto {
            album_id,
            media_type,
            original_content_url,
            owner_obfuscated_id,
            photo_id,
            stream_id,
            thumbnail,
            url,
            download_url,
        },
    )
}

pub open spec fn embed_item_keys() -> Seq<Seq<char>> {
    seq!["id"@, "plus_photo"@, "place_v2"@, "thing_v2"@, "type"@]
}

/// An optional nested block: absent and null both mean "not there".
pub open spec fn opt_block(fs: Seq<(Seq<char>, JsonV)>, k: Seq<char>) -> bool {
    has_key(fs, k) && !(get_key(fs, k) is Null)
}

pub open spec fn embed_item_wf(v: JsonV, strict: bool) -> bool {
    &&& v is Obj
    &&& opt_field_str_ok(obj_of(v), "id"@)
    &&& opt_block(obj_of(v), "plus_photo"@) ==> plus_photo_wf(
        get_key(obj_of(v), "plus_photo"@),
        strict,
    )
    &&& opt_block(obj_of(v), "place_v2"@) ==> place_v2_wf(get_key(obj_of(v), "place_v2"@), strict)
    &&& opt_block(obj_of(v), "thing_v2"@) ==> thing_v2_wf(get_key(obj_of(v), "thing_v2"@), strict)
    &&& has_key(obj_of(v), "type"@)
    &&& is_str_arr(get_key(obj_of(v), "type"@))
    &&& strict ==> keys_within(obj_of(v), embed_item_keys())
}

pub open spec fn embed_item_matches(x: EmbedItem, v: JsonV) -> bool {
    &&& opt_string_is(x.id, opt_str_val(obj_of(v), "id"@))
    &&& (x.plus_photo is Some) == opt_block(obj_of(v), "plus_photo"@)
    &&& x.plus_photo matches Some(p) ==> plus_photo_matches(p, get_key(obj_of(v), "plus_photo"@))
    &&& (x.place_v2 is Some) == opt_block(obj_of(v), "place_v2"@)
    &&& x.place_v2 matches Some(p) ==> place_v2_matches(p, get_key(obj_of(v), "place_v2"@))
    &&& (x.thing_v2 is Some) == opt_block(obj_of(v), "thing_v2"@)
    &&& x.thing_v2 matches Some(t) ==> thing_v2_matches(t, get_key(obj_of(v), "thing_v2"@))
    &&& str_views(x.types@) == str_arr_of(get_key(obj_of(v), "type"@))
}

pub fn parse_embed_item(v: &JsonValue, strict: bool) -> (r: Result<EmbedItem, SchemaError>)
    ensures
        r is Ok <==> embed_item_wf(v@, strict),
        r matches Ok(x) ==> embed_item_matches(x, v@),
{
    let fs = as_obj(v, "embed item")?;
    if strict {
        let allowed: &[&str; 5] = &["id", "plus_photo", "place_v2", "thing_v2", "type"];
        let bad = check_keys(fs, allowed);
        proof {
            assert(views_of_strs(allowed@) =~= embed_item_keys());
        }
        if let Some(k) = bad {
            return Err(SchemaError::UnexpectedField(k));
        }
    }
    let id = opt_str(fs, "id")?;
    let plus_photo = match lookup(fs, "plus_photo") {
        None => None,
        Some(pv) => match pv {
            JsonValue::Null => None,
            _ => Some(parse_plus_photo(pv, strict)?),
        },
    };
    let place_v2 = match lookup(fs, "place_v2") {
        None => None,
        Some(pv) => match pv {
            JsonValue::Null => None,
            _ => Some(parse_place_v2(pv, strict)?),
        },
    };
    let thing_v2 = match lookup(fs, "thing_v2") {
        None => None,
        Some(pv) => match pv {
            JsonValue::Null => None,
            _ => Some(parse_thing_v2(pv, strict)?),
        },
    };
    let types = req_str_arr(fs, "type")?;
    Ok(EmbedItem { id, plus_photo, place_v2, thing_v2, types })
}

pub open spec fn attachment_segment_keys() -> Seq<Seq<char>> {
    seq!["embed_item"@, "id"@]
}

pub open spec fn attachment_segment_wf(v: JsonV, strict: bool) -> bool {
    &&& v is Obj
    &&& has_key(obj_of(v), "embed_item"@)
    &&& embed_item_wf(get_key(obj_of(v), "embed_item"@), strict)
    &&& field_is_str(obj_of(v), "id"@)
    &&& strict ==> keys_within(obj_of(v), attachment_segment_keys())
}

pub open spec fn attachment_segment_matches(x: AttachmentSegment, v: JsonV) -> bool {
    &&& embed_item_matches(x.embed_item, get_key(obj_of(v), "embed_item"@))
    &&& x.id@ == str_of(get_key(obj_of(v), "id"@))
}

pub fn parse_attachment_segment(v: &JsonValue, strict: bool) -> (r: Result<
    AttachmentSegment,
    SchemaError,
>)
    ensures
        r is Ok <==> attachment_segment_wf(v@, strict),
        r matches Ok(x) ==> attachment_segment_matches(x, v@),
{
    let fs = as_obj(v, "attachment")?;
    if strict {
        let allowed: &[&str; 2] = &["embed_item", "id"];
        let bad = check_keys(fs, allowed);
        proof {
            assert(views_of_strs(allowed@) =~= attachment_segment_keys());
        }
        if let Some(k) = bad {
            return Err(SchemaError::UnexpectedField(k));
        }
    }
    let embed_item = parse_embed_item(req_field(fs, "embed_item")?, strict)?;
    let id = req_str(fs, "id")?;
    Ok(AttachmentSegment { embed_item, id })
}

/// Parses an array of attachments.
#[verifier::loop_isolation(false)]
pub fn parse_attachment_segments(v: &JsonValue, strict: bool, ctx: &str) -> (r: Result<
    Vec<AttachmentSegment>,
    SchemaError,
>)
    ensures
        r is Ok <==> v@ is Arr && (forall|i: int|
            0 <= i < arr_of(v@).len() ==> attachment_segment_wf(#[trigger] arr_of(v@)[i], strict)),
        r matches Ok(out) ==> out@.len() == arr_of(v@).len() && (forall|i: int|
            0 <= i < out@.len() ==> attachment_segment_matches(
                #[trigger] out@[i],
                arr_of(v@)[i],
            )),
{
    let a = as_arr(v, ctx)?;
    let n = a.len();
    let mut out: Vec<AttachmentSegment> = Vec::new();
    let mut i: usize = 0;
    while i < n
        invariant
            n == a@.len(),
            i <= n,
            out@.len() == i,
            forall|j: int| 0 <= j < i ==> attachment_segment_wf(#[trigger] arr_of(v@)[j], strict),
            forall|j: int|
                0 <= j < i ==> attachment_segment_matches(#[trigger] out@[j], arr_of(v@)[j]),
        decreases n - i,
    {
        proof {
            lemma_jview_seq(a@);
        }
        match parse_attachment_segment(&a[i], strict) {
            Ok(e) => {
                out.push(e);
            },
            Err(err) => {
                proof {
                    assert(!attachment_segment_wf(arr_of(v@)[i as int], strict));
                }
                return Err(err);
            },
        }
        i += 1;
    }
    proof {
        lemma_jview_seq(a@);
    }
    Ok(out)
}

} // verus!
