use vstd::prelude::*;
use crate::store::NewMediaData;
use crate::text::{parse_scaled, spec_parse_scaled, spec_trim, trim, str_eq,
    spec_is_digit};
use crate::geo::push_char;

verus! {

// The metadata extractor's view of the outside world: the EXIF and probe
// tools run host-side (they are subprocesses), but everything they print is
// parsed and applied here. What serde_json parses out of a text is a
// function of the text alone, so the parse result is named below as a ghost
// document; every wrapper's contract speaks over that one model, and every
// policy decision over it is verified code with an exact contract.

/// The abstract content of a parsed JSON document. A number is carried as
/// the decimal text its serialized form writes; an object maps member names
/// to members.
pub enum JsonModel {
    Null,
    Truth(bool),
    Num(Seq<char>),
    Text(Seq<char>),
    Arr(Seq<JsonModel>),
    Obj(Map<Seq<char>, JsonModel>),
}

/// What `serde_json::from_str` parses out of a text: a function of the text
/// alone, nothing for malformed input. The grammar itself is serde_json's
/// and is not restated; this name ties every reading of the document
/// together.
pub uninterp spec fn json_doc(text: Seq<char>) -> Option<JsonModel>;

/// The document carried by a parsed `serde_json::Value`.
pub uninterp spec fn value_model(v: serde_json::Value) -> JsonModel;

#[verifier::external_type_specification]
#[verifier::external_body]
pub struct ExJsonValue(serde_json::Value);

/// Relies on `serde_json::from_str::<Vec<Value>>`: succeeds exactly on a
/// well-formed JSON array, handing out its elements in order.
#[verifier::external_body]
fn parse_json_array(text: &str) -> (r: Option<Vec<serde_json::Value>>)
    ensures
        match json_doc(text@) {
            Some(JsonModel::Arr(elems)) => r is Some && r->0@.len() == elems.len()
                && forall|i: int| 0 <= i < elems.len()
                    ==> #[trigger] value_model(r->0@[i]) == elems[i],
            _ => r is None,
        },
{
    serde_json::from_str::<Vec<serde_json::Value>>(text).ok()
}

/// Relies on `serde_json::from_str::<Value>`: succeeds exactly on a
/// well-formed JSON document, handing out its parse.
#[verifier::external_body]
fn parse_json(text: &str) -> (r: Option<serde_json::Value>)
    ensures
        r is Some <==> json_doc(text@) is Some,
        r is Some ==> Some(value_model(r->0)) == json_doc(text@),
{
    serde_json::from_str::<serde_json::Value>(text).ok()
}

/// Relies on `serde_json::Value::get`: the member of an object under a key,
/// nothing on a missing key or a non-object.
#[verifier::external_body]
fn json_get<'a>(v: &'a serde_json::Value, key: &str) -> (r: Option<&'a serde_json::Value>)
    ensures
        match value_model(*v) {
            JsonModel::Obj(fields) => {
                match r {
                    Some(w) => fields.contains_key(key@)
                        && value_model(*w) == fields[key@],
                    None => !fields.contains_key(key@),
                }
            },
            _ => r is None,
        },
{
    v.get(key)
}

/// Relies on `serde_json::Value::as_str`: the contents of a string value,
/// nothing for any other shape.
#[verifier::external_body]
fn json_as_string(v: &serde_json::Value) -> (r: Option<String>)
    ensures
        match value_model(*v) {
            JsonModel::Text(s) => r is Some && r->0@ == s,
            _ => r is None,
        },
{
    v.as_str().map(|s| s.to_string())
}

/// Relies on `serde_json::Value::as_array`: the elements of an array value
/// in order, nothing for any other shape.
#[verifier::external_body]
fn json_as_array<'a>(v: &'a serde_json::Value) -> (r: Option<&'a Vec<serde_json::Value>>)
    ensures
        match value_model(*v) {
            JsonModel::Arr(elems) => r is Some && r->0@.len() == elems.len()
                && forall|i: int| 0 <= i < elems.len()
                    ==> #[trigger] value_model(r->0@[i]) == elems[i],
            _ => r is None,
        },
{
    v.as_array()
}

/// Relies on `serde_json::Value::is_number` to tell the number variant, and
/// on `Value`'s serialized form, which writes a number as its decimal text.
#[verifier::external_body]
fn json_number_text(v: &serde_json::Value) -> (r: Option<String>)
    ensures
        match value_model(*v) {
            JsonModel::Num(t) => r is Some && r->0@ == t,
            _ => r is None,
        },
{
    if v.is_number() { Some(v.to_string()) } else { None }
}

// ---- reading one member of a document, in the model and in exec ----

/// The member of an object document under a key.
pub open spec fn model_get(m: JsonModel, key: Seq<char>) -> Option<JsonModel> {
    match m {
        JsonModel::Obj(fields) => if fields.contains_key(key) {
            Some(fields[key])
        } else {
            None
        },
        _ => None,
    }
}

/// A member that is a string, as its text.
pub open spec fn model_text(m: JsonModel, key: Seq<char>) -> Option<Seq<char>> {
    match model_get(m, key) {
        Some(JsonModel::Text(s)) => Some(s),
        _ => None,
    }
}

/// A member that is a number, as its decimal text.
pub open spec fn model_num_text(m: JsonModel, key: Seq<char>) -> Option<Seq<char>> {
    match model_get(m, key) {
        Some(JsonModel::Num(t)) => Some(t),
        _ => None,
    }
}

/// A member that is a number, read as a whole number; a fraction truncates,
/// an unreadable number is treated as absent.
pub open spec fn model_int(m: JsonModel, key: Seq<char>) -> Option<int> {
    match model_num_text(m, key) {
        Some(t) => spec_parse_scaled(t, 0),
        None => None,
    }
}

/// A member that is a number, scaled to an integer.
pub open spec fn model_scaled(m: JsonModel, key: Seq<char>, scale: nat) -> Option<int> {
    match model_num_text(m, key) {
        Some(t) => spec_parse_scaled(t, scale),
        None => None,
    }
}

/// The first present of two optional readings: the tag-fallback policy.
pub open spec fn first_of<A>(a: Option<A>, b: Option<A>) -> Option<A> {
    if a is Some { a } else { b }
}

/// An optional text result agrees with its model reading.
pub open spec fn matches_text(o: Option<String>, s: Option<Seq<char>>) -> bool {
    match (o, s) {
        (Some(a), Some(b)) => a@ == b,
        (None, None) => true,
        _ => false,
    }
}

/// An optional integer result agrees with its model reading.
pub open spec fn matches_int(o: Option<i64>, s: Option<int>) -> bool {
    match (o, s) {
        (Some(a), Some(b)) => a as int == b,
        (None, None) => true,
        _ => false,
    }
}

fn get_text(data: &serde_json::Value, key: &str) -> (r: Option<String>)
    ensures
        matches_text(r, model_text(value_model(*data), key@)),
{
    match json_get(data, key) {
        Some(v) => json_as_string(v),
        None => None,
    }
}

fn get_num_text(data: &serde_json::Value, key: &str) -> (r: Option<String>)
    ensures
        matches_text(r, model_num_text(value_model(*data), key@)),
{
    match json_get(data, key) {
        Some(v) => json_number_text(v),
        None => None,
    }
}

fn get_int(data: &serde_json::Value, key: &str) -> (r: Option<i64>)
    ensures
        matches_int(r, model_int(value_model(*data), key@)),
{
    match get_num_text(data, key) {
        Some(t) => parse_scaled(t.as_str(), 0),
        None => None,
    }
}

fn get_scaled(data: &serde_json::Value, key: &str, scale: u64) -> (r: Option<i64>)
    requires
        scale <= 6,
    ensures
        matches_int(r, model_scaled(value_model(*data), key@, scale as nat)),
{
    match get_num_text(data, key) {
        Some(t) => parse_scaled(t.as_str(), scale),
        None => None,
    }
}

/// Everything the EXIF reader can contribute to a record, as plain values.
#[derive(Debug)]
pub struct ExifFields {
    pub width: Option<i64>,
    pub height: Option<i64>,
    pub date_taken: Option<String>,
    pub gps_latitude_e6: Option<i64>,
    pub gps_longitude_e6: Option<i64>,
    pub gps_altitude_e6: Option<i64>,
    pub camera_make: Option<String>,
    pub camera_model: Option<String>,
    pub lens_make: Option<String>,
    pub lens_model: Option<String>,
    pub iso: Option<i64>,
    pub exposure_time: Option<String>,
    pub f_number_e6: Option<i64>,
    pub focal_length_e6: Option<i64>,
    pub focal_length_35mm_e6: Option<i64>,
    pub keywords: Option<String>,
    pub mime_type: Option<String>,
}

// ---- the tag-reading policy, one spec per field ----

pub open spec fn spec_width_of(m: JsonModel) -> Option<int> {
    first_of(model_int(m, "ImageWidth"@), first_of(model_int(m, "ExifImageWidth"@),
        model_int(m, "SourceImageWidth"@)))
}

pub open spec fn spec_height_of(m: JsonModel) -> Option<int> {
    first_of(model_int(m, "ImageHeight"@), first_of(model_int(m, "ExifImageHeight"@),
        model_int(m, "SourceImageHeight"@)))
}

/// Capture time: the first of the three date tags that holds a string,
/// parsed; a malformed date degrades to absent.
pub open spec fn spec_date_of(m: JsonModel) -> Option<Seq<char>> {
    match first_of(model_text(m, "DateTimeOriginal"@), first_of(
        model_text(m, "CreateDate"@), model_text(m, "ModifyDate"@))) {
        Some(s) => spec_exif_datetime(s),
        None => None,
    }
}

pub open spec fn spec_camera_model_of(m: JsonModel) -> Option<Seq<char>> {
    first_of(model_text(m, "Model"@), model_text(m, "HostComputer"@))
}

pub open spec fn spec_lens_model_of(m: JsonModel) -> Option<Seq<char>> {
    first_of(model_text(m, "LensModel"@), model_text(m, "LensID"@))
}

/// Exposure: the first of the two shutter tags that holds a number, written
/// in the reciprocal form.
pub open spec fn spec_exposure_of(m: JsonModel) -> Option<Seq<char>> {
    match first_of(model_num_text(m, "ExposureTime"@), model_num_text(m,
        "ShutterSpeed"@)) {
        Some(t) => spec_format_exposure(t),
        None => None,
    }
}

pub open spec fn spec_f_number_of(m: JsonModel) -> Option<int> {
    first_of(model_scaled(m, "FNumber"@, 6), model_scaled(m, "Aperture"@, 6))
}

pub open spec fn spec_focal_35_of(m: JsonModel) -> Option<int> {
    first_of(model_scaled(m, "FocalLengthIn35mmFormat"@, 6),
        model_scaled(m, "FocalLength35efl"@, 6))
}

/// The string elements of an array, in order, anything else dropped.
pub open spec fn spec_str_elems(elems: Seq<JsonModel>) -> Seq<Seq<char>>
    decreases elems.len(),
{
    if elems.len() == 0 {
        Seq::<Seq<char>>::empty()
    } else {
        spec_str_elems(elems.drop_last()) + (match elems.last() {
            JsonModel::Text(s) => seq![s],
            _ => Seq::<Seq<char>>::empty(),
        })
    }
}

/// Keywords: a string tag as it stands, an array tag as its string elements
/// joined by commas, absent when neither or when the array holds no strings.
pub open spec fn spec_keywords_of(m: JsonModel) -> Option<Seq<char>> {
    match model_get(m, "Keywords"@) {
        Some(JsonModel::Text(s)) => Some(s),
        Some(JsonModel::Arr(elems)) => if spec_str_elems(elems).len() > 0 {
            Some(spec_join_comma(spec_str_elems(elems)))
        } else {
            None
        },
        _ => None,
    }
}

/// The whole tag-reading policy over one output object: every field of the
/// extraction equals its documented tag chain, absent tags and malformed
/// values degrading to `None`.
pub open spec fn exif_fields_match(f: ExifFields, m: JsonModel) -> bool {
    &&& matches_int(f.width, spec_width_of(m))
    &&& matches_int(f.height, spec_height_of(m))
    &&& matches_text(f.date_taken, spec_date_of(m))
    &&& matches_int(f.gps_latitude_e6, model_scaled(m, "GPSLatitude"@, 6))
    &&& matches_int(f.gps_longitude_e6, model_scaled(m, "GPSLongitude"@, 6))
    &&& matches_int(f.gps_altitude_e6, model_scaled(m, "GPSAltitude"@, 6))
    &&& matches_text(f.camera_make, model_text(m, "Make"@))
    &&& matches_text(f.camera_model, spec_camera_model_of(m))
    &&& matches_text(f.lens_make, model_text(m, "LensMake"@))
    &&& matches_text(f.lens_model, spec_lens_model_of(m))
    &&& matches_int(f.iso, model_int(m, "ISO"@))
    &&& matches_text(f.exposure_time, spec_exposure_of(m))
    &&& matches_int(f.f_number_e6, spec_f_number_of(m))
    &&& matches_int(f.focal_length_e6, model_scaled(m, "FocalLength"@, 6))
    &&& matches_int(f.focal_length_35mm_e6, spec_focal_35_of(m))
    &&& matches_text(f.keywords, spec_keywords_of(m))
    &&& matches_text(f.mime_type, model_text(m, "MIMEType"@))
}

/// Every field absent: what a missing or unreadable tool run contributes.
pub open spec fn exif_all_none(f: ExifFields) -> bool {
    &&& f.width is None && f.height is None && f.date_taken is None
    &&& f.gps_latitude_e6 is None && f.gps_longitude_e6 is None
    &&& f.gps_altitude_e6 is None
    &&& f.camera_make is None && f.camera_model is None
    &&& f.lens_make is None && f.lens_model is None
    &&& f.iso is None && f.exposure_time is None
    &&& f.f_number_e6 is None && f.focal_length_e6 is None
    &&& f.focal_length_35mm_e6 is None
    &&& f.keywords is None && f.mime_type is None
}

/// Read the EXIF tags out of one tool-output object, with the original's
/// fallback chains: capture time from DateTimeOriginal, CreateDate, then
/// ModifyDate; camera model from Model then HostComputer; lens model from
/// LensModel then LensID; aperture from FNumber then Aperture; exposure from
/// ExposureTime then ShutterSpeed; keywords a string or an array joined by
/// commas. Missing or malformed tags degrade to `None`, never abort.
pub fn exif_fields_from_json(data: &serde_json::Value) -> (f: ExifFields)
    ensures
        exif_fields_match(f, value_model(*data)),
{
    let ghost m = value_model(*data);
    let width = match get_int(data, "ImageWidth") {
        Some(v) => Some(v),
        None => match get_int(data, "ExifImageWidth") {
            Some(v) => Some(v),
            None => get_int(data, "SourceImageWidth"),
        },
    };
    let height = match get_int(data, "ImageHeight") {
        Some(v) => Some(v),
        None => match get_int(data, "ExifImageHeight") {
            Some(v) => Some(v),
            None => get_int(data, "SourceImageHeight"),
        },
    };
    let date_raw = match get_text(data, "DateTimeOriginal") {
        Some(s) => Some(s),
        None => match get_text(data, "CreateDate") {
            Some(s) => Some(s),
            None => get_text(data, "ModifyDate"),
        },
    };
    let date_taken = match date_raw {
        Some(s) => parse_exif_datetime(s.as_str()),
        None => None,
    };
    let camera_model = match get_text(data, "Model") {
        Some(s) => Some(s),
        None => get_text(data, "HostComputer"),
    };
    let lens_model = match get_text(data, "LensModel") {
        Some(s) => Some(s),
        None => get_text(data, "LensID"),
    };
    let exposure_raw = match get_num_text(data, "ExposureTime") {
        Some(t) => Some(t),
        None => get_num_text(data, "ShutterSpeed"),
    };
    let exposure_time = match exposure_raw {
        Some(t) => format_exposure(t),
        None => None,
    };
    let f_number_e6 = match get_scaled(data, "FNumber", 6) {
        Some(v) => Some(v),
        None => get_scaled(data, "Aperture", 6),
    };
    let focal_length_35mm_e6 = match get_scaled(data, "FocalLengthIn35mmFormat", 6) {
        Some(v) => Some(v),
        None => get_scaled(data, "FocalLength35efl", 6),
    };
    let keywords = keywords_from_json(data);
    ExifFields {
        width,
        height,
        date_taken,
        gps_latitude_e6: get_scaled(data, "GPSLatitude", 6),
        gps_longitude_e6: get_scaled(data, "GPSLongitude", 6),
        gps_altitude_e6: get_scaled(data, "GPSAltitude", 6),
        camera_make: get_text(data, "Make"),
        camera_model,
        lens_make: get_text(data, "LensMake"),
        lens_model,
        iso: get_int(data, "ISO"),
        exposure_time,
        f_number_e6,
        focal_length_e6: get_scaled(data, "FocalLength", 6),
        focal_length_35mm_e6,
        keywords,
        mime_type: get_text(data, "MIMEType"),
    }
}

/// The Keywords tag: a string kept whole, an array joined.
fn keywords_from_json(data: &serde_json::Value) -> (r: Option<String>)
    ensures
        matches_text(r, spec_keywords_of(value_model(*data))),
{
    let kw = match json_get(data, "Keywords") {
        Some(kw) => kw,
        None => {
            return None;
        }
    };
    if let Some(s) = json_as_string(kw) {
        return Some(s);
    }
    let items = match json_as_array(kw) {
        Some(items) => items,
        None => {
            return None;
        }
    };
    let ghost elems = value_model(*kw)->Arr_0;
    let mut strs: Vec<String> = Vec::new();
    let mut i: usize = 0;
    while i < items.len()
        invariant
            i <= items@.len() == elems.len(),
            forall|j: int| 0 <= j < elems.len()
                ==> #[trigger] value_model(items@[j]) == elems[j],
            strs.deep_view() == spec_str_elems(elems.take(i as int)),
        decreases items@.len() - i,
    {
        proof {
            assert(elems.take(i + 1).drop_last() =~= elems.take(i as int));
            assert(elems.take(i + 1).last() == elems[i as int]);
        }
        if let Some(s) = json_as_string(&items[i]) {
            strs.push(s);
            assert(strs.deep_view() =~= spec_str_elems(elems.take(i + 1)));
        } else {
            assert(strs.deep_view() =~= spec_str_elems(elems.take(i + 1)));
        }
        i = i + 1;
    }
    assert(elems.take(elems.len() as int) =~= elems);
    join_comma(&strs)
}

/// The EXIF fields of the first object in the tool's JSON output, every
/// field absent when the output cannot be parsed or holds no object.
pub fn exif_fields_from_output(exif_json: &str) -> (f: ExifFields)
    ensures
        match json_doc(exif_json@) {
            Some(JsonModel::Arr(elems)) => if elems.len() > 0 {
                exif_fields_match(f, elems[0])
            } else {
                exif_all_none(f)
            },
            _ => exif_all_none(f),
        },
{
    match parse_json_array(exif_json) {
        Some(items) => {
            if items.len() > 0 {
                exif_fields_from_json(&items[0])
            } else {
                empty_exif_fields()
            }
        }
        None => empty_exif_fields(),
    }
}

/// No tags at all: what a failed or missing tool run contributes.
pub fn empty_exif_fields() -> (f: ExifFields)
    ensures
        exif_all_none(f),
{
    ExifFields {
        width: None, height: None, date_taken: None,
        gps_latitude_e6: None, gps_longitude_e6: None, gps_altitude_e6: None,
        camera_make: None, camera_model: None, lens_make: None, lens_model: None,
        iso: None, exposure_time: None, f_number_e6: None, focal_length_e6: None,
        focal_length_35mm_e6: None, keywords: None, mime_type: None,
    }
}

/// What applying extracted tags does to a bundle: every present tag
/// overwrites its field, every absent tag leaves the field as it was, and
/// nothing else moves.
pub open spec fn spec_apply_exif(m: NewMediaData, f: ExifFields, out: NewMediaData) -> bool {
    &&& out.width == (if f.width is Some { f.width } else { m.width })
    &&& out.height == (if f.height is Some { f.height } else { m.height })
    &&& out.date_taken == (if f.date_taken is Some { f.date_taken } else { m.date_taken })
    &&& out.gps_latitude_e6 == (if f.gps_latitude_e6 is Some { f.gps_latitude_e6 }
        else { m.gps_latitude_e6 })
    &&& out.gps_longitude_e6 == (if f.gps_longitude_e6 is Some { f.gps_longitude_e6 }
        else { m.gps_longitude_e6 })
    &&& out.gps_altitude_e6 == (if f.gps_altitude_e6 is Some { f.gps_altitude_e6 }
        else { m.gps_altitude_e6 })
    &&& out.camera_make == (if f.camera_make is Some { f.camera_make }
        else { m.camera_make })
    &&& out.camera_model == (if f.camera_model is Some { f.camera_model }
        else { m.camera_model })
    &&& out.lens_make == (if f.lens_make is Some { f.lens_make } else { m.lens_make })
    &&& out.lens_model == (if f.lens_model is Some { f.lens_model } else { m.lens_model })
    &&& out.iso == (if f.iso is Some { f.iso } else { m.iso })
    &&& out.exposure_time == (if f.exposure_time is Some { f.exposure_time }
        else { m.exposure_time })
    &&& out.f_number_e6 == (if f.f_number_e6 is Some { f.f_number_e6 }
        else { m.f_number_e6 })
    &&& out.focal_length_e6 == (if f.focal_length_e6 is Some { f.focal_length_e6 }
        else { m.focal_length_e6 })
    &&& out.focal_length_35mm_e6 == (if f.focal_length_35mm_e6 is Some {
        f.focal_length_35mm_e6 } else { m.focal_length_35mm_e6 })
    &&& out.keywords == (if f.keywords is Some { f.keywords } else { m.keywords })
    &&& out.mime_type == (if f.mime_type is Some { f.mime_type } else { m.mime_type })
    &&& out == (NewMediaData {
        width: out.width,
        height: out.height,
        date_taken: out.date_taken,
        gps_latitude_e6: out.gps_latitude_e6,
        gps_longitude_e6: out.gps_longitude_e6,
        gps_altitude_e6: out.gps_altitude_e6,
        camera_make: out.camera_make,
        camera_model: out.camera_model,
        lens_make: out.lens_make,
        lens_model: out.lens_model,
        iso: out.iso,
        exposure_time: out.exposure_time,
        f_number_e6: out.f_number_e6,
        focal_length_e6: out.focal_length_e6,
        focal_length_35mm_e6: out.focal_length_35mm_e6,
        keywords: out.keywords,
        mime_type: out.mime_type,
        ..m
    })
}

/// Apply extracted EXIF tags to a metadata bundle: every present tag
/// overwrites its field, every absent tag leaves the field as it was.
pub fn apply_exif_fields(m: NewMediaData, f: ExifFields) -> (out: NewMediaData)
    ensures
        spec_apply_exif(m, f, out),
{
    NewMediaData {
        width: if f.width.is_some() { f.width } else { m.width },
        height: if f.height.is_some() { f.height } else { m.height },
        date_taken: if f.date_taken.is_some() { f.date_taken } else { m.date_taken },
        gps_latitude_e6: if f.gps_latitude_e6.is_some() { f.gps_latitude_e6 }
            else { m.gps_latitude_e6 },
        gps_longitude_e6: if f.gps_longitude_e6.is_some() { f.gps_longitude_e6 }
            else { m.gps_longitude_e6 },
        gps_altitude_e6: if f.gps_altitude_e6.is_some() { f.gps_altitude_e6 }
            else { m.gps_altitude_e6 },
        camera_make: if f.camera_make.is_some() { f.camera_make } else { m.camera_make },
        camera_model: if f.camera_model.is_some() { f.camera_model }
            else { m.camera_model },
        lens_make: if f.lens_make.is_some() { f.lens_make } else { m.lens_make },
        lens_model: if f.lens_model.is_some() { f.lens_model } else { m.lens_model },
        iso: if f.iso.is_some() { f.iso } else { m.iso },
        exposure_time: if f.exposure_time.is_some() { f.exposure_time }
            else { m.exposure_time },
        f_number_e6: if f.f_number_e6.is_some() { f.f_number_e6 } else { m.f_number_e6 },
        focal_length_e6: if f.focal_length_e6.is_some() { f.focal_length_e6 }
            else { m.focal_length_e6 },
        focal_length_35mm_e6: if f.focal_length_35mm_e6.is_some() {
            f.focal_length_35mm_e6 } else { m.focal_length_35mm_e6 },
        keywords: if f.keywords.is_some() { f.keywords } else { m.keywords },
        mime_type: if f.mime_type.is_some() { f.mime_type } else { m.mime_type },
        ..m
    }
}

/// Comma-joined keyword list: `None` when there is nothing to join.
pub open spec fn spec_join_comma(items: Seq<Seq<char>>) -> Seq<char>
    decreases items.len(),
{
    if items.len() == 0 {
        Seq::<char>::empty()
    } else if items.len() == 1 {
        items[0]
    } else {
        spec_join_comma(items.drop_last()) + seq![','] + items.last()
    }
}

pub fn join_comma(items: &Vec<String>) -> (r: Option<String>)
    ensures
        r is Some <==> items@.len() > 0,
        r is Some ==> r->0@ == spec_join_comma(items.deep_view()),
{
    if items.len() == 0 {
        return None;
    }
    let mut out: String = items[0].clone();
    let mut i: usize = 1;
    while i < items.len()
        invariant
            1 <= i <= items@.len(),
            out@ == spec_join_comma(items.deep_view().take(i as int)),
        decreases items@.len() - i,
    {
        push_char(&mut out, ',');
        let mut piece = items[i].clone();
        out.append(piece.as_str());
        proof {
            let dv = items.deep_view();
            assert(dv.take(i + 1).drop_last() =~= dv.take(i as int));
            assert(dv.take(i + 1).last() == dv[i as int]);
            assert(out@ =~= spec_join_comma(dv.take(i + 1)));
        }
        i = i + 1;
    }
    assert(items.deep_view().take(items@.len() as int) =~= items.deep_view());
    Some(out)
}

} // verus!

verus! {

/// The two-digit number at position `i` of a timestamp.
pub open spec fn spec_two_digit(t: Seq<char>, i: int) -> int {
    (t[i] as int - '0' as int) * 10 + (t[i + 1] as int - '0' as int)
}

/// The four-digit number at position `i` of a timestamp.
pub open spec fn spec_four_digit(t: Seq<char>, i: int) -> int {
    spec_two_digit(t, i) * 100 + spec_two_digit(t, i + 2)
}

pub open spec fn spec_is_leap_year(y: int) -> bool {
    y % 4 == 0 && (y % 100 != 0 || y % 400 == 0)
}

/// How many days the month holds, leap Februaries included.
pub open spec fn spec_days_in_month(y: int, mo: int) -> int {
    if mo == 2 {
        if spec_is_leap_year(y) { 29 } else { 28 }
    } else if mo == 4 || mo == 6 || mo == 9 || mo == 11 {
        30
    } else {
        31
    }
}

/// A well-shaped EXIF timestamp: `YYYY:MM:DD HH:MM:SS` (or with `-` in the
/// date), digits elsewhere, and fields naming a real calendar date.
pub open spec fn spec_exif_dt_ok(t: Seq<char>) -> bool {
    &&& t.len() == 19
    &&& forall|i: int| 0 <= i < 19 && i != 4 && i != 7 && i != 10 && i != 13 && i != 16
        ==> spec_is_digit(#[trigger] t[i])
    &&& (t[4] == ':' || t[4] == '-') && t[7] == t[4]
    &&& t[10] == ' '
    &&& t[13] == ':' && t[16] == ':'
    &&& 1 <= spec_two_digit(t, 5) <= 12
    &&& 1 <= spec_two_digit(t, 8) <= spec_days_in_month(spec_four_digit(t, 0),
        spec_two_digit(t, 5))
    &&& spec_two_digit(t, 11) <= 23
    &&& spec_two_digit(t, 14) <= 59
    &&& spec_two_digit(t, 17) <= 59
}

/// The canonical form of an accepted EXIF timestamp: dashes in the date and
/// a `T` between date and time.
pub open spec fn spec_exif_datetime(s: Seq<char>) -> Option<Seq<char>> {
    let t = spec_trim(s);
    if spec_exif_dt_ok(t) {
        Some(Seq::new(19, |i: int|
            if i == 4 || i == 7 { '-' } else if i == 10 { 'T' } else { t[i] }))
    } else {
        None
    }
}

/// Parse a capture timestamp as the EXIF tool writes it, into the canonical
/// form records and cluster keys use. Anything malformed degrades to `None`.
pub fn parse_exif_datetime(s: &str) -> (r: Option<String>)
    ensures
        match r {
            Some(out) => spec_exif_datetime(s@) == Some(out@),
            None => spec_exif_datetime(s@) is None,
        },
{
    let t = trim(s);
    let ts = t.as_str();
    if ts.unicode_len() != 19 {
        return None;
    }
    let sep = ts.get_char(4);
    if !(sep == ':' || sep == '-') {
        return None;
    }
    if ts.get_char(7) != sep || ts.get_char(10) != ' '
        || ts.get_char(13) != ':' || ts.get_char(16) != ':' {
        return None;
    }
    let mut i: usize = 0;
    while i < 19
        invariant
            i <= 19,
            t@.len() == 19,
            ts@ == t@,
            t@ == spec_trim(s@),
            forall|j: int| 0 <= j < i && j != 4 && j != 7 && j != 10 && j != 13 && j != 16
                ==> spec_is_digit(#[trigger] t@[j]),
        decreases 19 - i,
    {
        if i != 4 && i != 7 && i != 10 && i != 13 && i != 16 {
            let c = ts.get_char(i);
            if c < '0' || c > '9' {
                assert(!spec_is_digit(t@[i as int]));
                return None;
            }
        }
        i = i + 1;
    }
    let year = two_digit_at(ts, 0) * 100 + two_digit_at(ts, 2);
    let month = two_digit_at(ts, 5);
    let day = two_digit_at(ts, 8);
    let hour = two_digit_at(ts, 11);
    let minute = two_digit_at(ts, 14);
    let second = two_digit_at(ts, 17);
    if month < 1 || month > 12 || hour > 23 || minute > 59 || second > 59 {
        return None;
    }
    if day < 1 || day > days_in_month(year, month) {
        return None;
    }
    assert(spec_exif_dt_ok(t@));
    let mut out = String::new();
    let mut k: usize = 0;
    while k < 19
        invariant
            k <= 19,
            t@.len() == 19,
            ts@ == t@,
            t@ == spec_trim(s@),
            spec_exif_dt_ok(t@),
            out@.len() == k,
            forall|j: int| 0 <= j < k ==> out@[j]
                == (if j == 4 || j == 7 { '-' } else if j == 10 { 'T' } else { t@[j] }),
        decreases 19 - k,
    {
        let c = if k == 4 || k == 7 { '-' } else if k == 10 { 'T' } else { ts.get_char(k) };
        push_char(&mut out, c);
        k = k + 1;
    }
    proof {
        assert(out@ =~= spec_exif_datetime(s@)->0);
    }
    Some(out)
}

fn two_digit_at(s: &str, i: usize) -> (v: u64)
    requires
        i <= 17,
        i + 1 < s@.len(),
        spec_is_digit(s@[i as int]),
        spec_is_digit(s@[i as int + 1]),
    ensures
        v == spec_two_digit(s@, i as int),
{
    let hi = s.get_char(i);
    let lo = s.get_char(i + 1);
    (hi as u64 - '0' as u64) * 10 + (lo as u64 - '0' as u64)
}

/// How the exposure field is written: a shutter faster than a second is
/// written as the rounded reciprocal (`1/250`), anything else keeps the
/// tool's decimal text.
pub open spec fn spec_format_exposure(s: Seq<char>) -> Option<Seq<char>> {
    match spec_parse_scaled(s, 6) {
        None => None,
        Some(v) => {
            if 0 < v < 1_000_000 {
                Some(seq!['1', '/'] + crate::text::spec_u64_digits(
                    (((1_000_000 + v / 2) / v) as nat)))
            } else {
                Some(s)
            }
        },
    }
}

pub fn format_exposure(t: String) -> (r: Option<String>)
    ensures
        match r {
            Some(out) => spec_format_exposure(t@) == Some(out@),
            None => spec_format_exposure(t@) is None,
        },
{
    match parse_scaled(t.as_str(), 6) {
        None => None,
        Some(v) => {
            if v > 0 && v < 1_000_000 {
                let vu = v as u64;
                let q = (1_000_000u64 + vu / 2) / vu;
                let mut out: String = "1/".to_owned();
                let digits = crate::text::u64_to_string(q);
                out.append(digits.as_str());
                proof {
                    reveal_strlit("1/");
                    assert(out@ =~= seq!['1', '/'] + digits@);
                }
                Some(out)
            } else {
                Some(t)
            }
        },
    }
}

} // verus!

verus! {

/// The MIME type assigned to an image by its lowercased extension; anything
/// unrecognized is a plain byte stream.
pub open spec fn spec_image_mime(e: Seq<char>) -> Seq<char> {
    if e == "jpg"@ || e == "jpeg"@ { "image/jpeg"@ }
    else if e == "png"@ { "image/png"@ }
    else if e == "gif"@ { "image/gif"@ }
    else if e == "webp"@ { "image/webp"@ }
    else if e == "heic"@ || e == "heif"@ { "image/heic"@ }
    else if e == "tiff"@ || e == "tif"@ { "image/tiff"@ }
    else if e == "bmp"@ { "image/bmp"@ }
    else if e == "avif"@ { "image/avif"@ }
    else if e == "svg"@ { "image/svg+xml"@ }
    else { "application/octet-stream"@ }
}

/// The MIME type assigned to a video by its lowercased extension; anything
/// unrecognized is treated as MP4.
pub open spec fn spec_video_mime(e: Seq<char>) -> Seq<char> {
    if e == "mp4"@ { "video/mp4"@ }
    else if e == "mov"@ { "video/quicktime"@ }
    else if e == "avi"@ { "video/x-msvideo"@ }
    else if e == "mkv"@ { "video/x-matroska"@ }
    else if e == "webm"@ { "video/webm"@ }
    else if e == "m4v"@ { "video/x-m4v"@ }
    else { "video/mp4"@ }
}

pub fn image_mime_from_extension(e: &str) -> (r: String)
    ensures
        r@ == spec_image_mime(e@),
{
    if str_eq(e, "jpg") || str_eq(e, "jpeg") { "image/jpeg".to_owned() }
    else if str_eq(e, "png") { "image/png".to_owned() }
    else if str_eq(e, "gif") { "image/gif".to_owned() }
    else if str_eq(e, "webp") { "image/webp".to_owned() }
    else if str_eq(e, "heic") || str_eq(e, "heif") { "image/heic".to_owned() }
    else if str_eq(e, "tiff") || str_eq(e, "tif") { "image/tiff".to_owned() }
    else if str_eq(e, "bmp") { "image/bmp".to_owned() }
    else if str_eq(e, "avif") { "image/avif".to_owned() }
    else if str_eq(e, "svg") { "image/svg+xml".to_owned() }
    else { "application/octet-stream".to_owned() }
}

pub fn video_mime_from_extension(e: &str) -> (r: String)
    ensures
        r@ == spec_video_mime(e@),
{
    if str_eq(e, "mp4") { "video/mp4".to_owned() }
    else if str_eq(e, "mov") { "video/quicktime".to_owned() }
    else if str_eq(e, "avi") { "video/x-msvideo".to_owned() }
    else if str_eq(e, "mkv") { "video/x-matroska".to_owned() }
    else if str_eq(e, "webm") { "video/webm".to_owned() }
    else if str_eq(e, "m4v") { "video/x-m4v".to_owned() }
    else { "video/mp4".to_owned() }
}

/// Complete an image metadata bundle per the fallback policy: capture time
/// from tags, else the file's modification time, else now — never left
/// unset; MIME type from tags, else the extension table.
/// What completing an image bundle does: the capture-time fallback chain
/// and the MIME fallback, nothing else moved.
pub open spec fn spec_finish_image(
    m: NewMediaData, mtime: Option<String>, now: String, ext_lower: Seq<char>,
    out: NewMediaData,
) -> bool {
    &&& out.date_taken is Some
    &&& out.date_taken == (if m.date_taken is Some { m.date_taken }
        else if mtime is Some { mtime } else { Some(now) })
    &&& (m.mime_type is Some ==> out.mime_type == m.mime_type)
    &&& (m.mime_type is None ==> out.mime_type is Some
        && out.mime_type->0@ == spec_image_mime(ext_lower))
    &&& out == (NewMediaData {
        date_taken: out.date_taken,
        mime_type: out.mime_type,
        ..m
    })
}

pub fn finish_image_metadata(
    m: NewMediaData, mtime: Option<String>, now: String, ext_lower: &str,
) -> (out: NewMediaData)
    ensures
        spec_finish_image(m, mtime, now, ext_lower@, out),
{
    let date_taken = if m.date_taken.is_some() {
        m.date_taken
    } else if mtime.is_some() {
        mtime
    } else {
        Some(now)
    };
    let mime_type = if m.mime_type.is_some() {
        m.mime_type
    } else {
        Some(image_mime_from_extension(ext_lower))
    };
    NewMediaData { date_taken, mime_type, ..m }
}

/// Complete a video metadata bundle: the same capture-time fallback chain, a
/// MIME type always taken from the extension table, and a zero duration when
/// the probe contributed none.
/// What completing a video bundle does: the same capture-time chain, the
/// MIME type always from the extension table, a zero duration when the
/// probe contributed none, nothing else moved.
pub open spec fn spec_finish_video(
    m: NewMediaData, mtime: Option<String>, now: String, ext_lower: Seq<char>,
    out: NewMediaData,
) -> bool {
    &&& out.date_taken is Some
    &&& out.date_taken == (if m.date_taken is Some { m.date_taken }
        else if mtime is Some { mtime } else { Some(now) })
    &&& out.mime_type is Some && out.mime_type->0@ == spec_video_mime(ext_lower)
    &&& out.duration_ms == (if m.duration_ms is Some { m.duration_ms } else { Some(0i64) })
    &&& out == (NewMediaData {
        date_taken: out.date_taken,
        mime_type: out.mime_type,
        duration_ms: out.duration_ms,
        ..m
    })
}

pub fn finish_video_metadata(
    m: NewMediaData, mtime: Option<String>, now: String, ext_lower: &str,
) -> (out: NewMediaData)
    ensures
        spec_finish_video(m, mtime, now, ext_lower@, out),
{
    let date_taken = if m.date_taken.is_some() {
        m.date_taken
    } else if mtime.is_some() {
        mtime
    } else {
        Some(now)
    };
    let duration_ms = if m.duration_ms.is_some() { m.duration_ms } else { Some(0i64) };
    NewMediaData {
        date_taken,
        mime_type: Some(video_mime_from_extension(ext_lower)),
        duration_ms,
        ..m
    }
}

/// Merge a reverse-geocoding answer into a bundle: each returned place name
/// fills its field only where nothing is known yet.
pub fn merge_geocode(
    m: NewMediaData, city: Option<String>, state: Option<String>, country: Option<String>,
) -> (out: NewMediaData)
    ensures
        out.location_city == (if m.location_city is Some { m.location_city } else { city }),
        out.location_state == (if m.location_state is Some { m.location_state }
            else { state }),
        out.location_country == (if m.location_country is Some { m.location_country }
            else { country }),
        out == (NewMediaData {
            location_city: out.location_city,
            location_state: out.location_state,
            location_country: out.location_country,
            ..m
        }),
{
    NewMediaData {
        location_city: if m.location_city.is_some() { m.location_city } else { city },
        location_state: if m.location_state.is_some() { m.location_state } else { state },
        location_country: if m.location_country.is_some() { m.location_country }
            else { country },
        ..m
    }
}

/// Whether a file's bundle calls for the one reverse-geocoding request: the
/// service is enabled, the file is geotagged, and state or country is still
/// unknown.
pub fn should_reverse_geocode(enabled: bool, m: &NewMediaData) -> (r: bool)
    ensures
        r == (enabled && m.gps_latitude_e6 is Some && m.gps_longitude_e6 is Some
            && (m.location_state is None || m.location_country is None)),
{
    enabled && m.gps_latitude_e6.is_some() && m.gps_longitude_e6.is_some()
        && (m.location_state.is_none() || m.location_country.is_none())
}

/// The city of a geocoding address: the first of the four place tags.
pub open spec fn spec_city_of(addr: JsonModel) -> Option<Seq<char>> {
    first_of(model_text(addr, "city"@), first_of(model_text(addr, "town"@),
        first_of(model_text(addr, "village"@), model_text(addr, "hamlet"@))))
}

/// The state of a geocoding address: the first of the three region tags.
pub open spec fn spec_state_of(addr: JsonModel) -> Option<Seq<char>> {
    first_of(model_text(addr, "state"@), first_of(model_text(addr, "region"@),
        model_text(addr, "province"@)))
}

/// The place names in a reverse-geocoding response: the first present of
/// city/town/village/hamlet, the first of state/region/province, and the
/// country, each read defensively out of the nested address object; an
/// unreadable response yields nothing.
pub fn geocode_fields_from_response(body: &str)
    -> (r: (Option<String>, Option<String>, Option<String>))
    ensures
        match json_doc(body@) {
            Some(model) => {
                match model_get(model, "address"@) {
                    Some(addr) => matches_text(r.0, spec_city_of(addr))
                        && matches_text(r.1, spec_state_of(addr))
                        && matches_text(r.2, model_text(addr, "country"@)),
                    None => r.0 is None && r.1 is None && r.2 is None,
                }
            },
            None => r.0 is None && r.1 is None && r.2 is None,
        },
{
    let doc = match parse_json(body) {
        Some(d) => d,
        None => {
            return (None, None, None);
        }
    };
    let addr = match json_get(&doc, "address") {
        Some(a) => a,
        None => {
            return (None, None, None);
        }
    };
    let city = match get_text(addr, "city") {
        Some(s) => Some(s),
        None => match get_text(addr, "town") {
            Some(s) => Some(s),
            None => match get_text(addr, "village") {
                Some(s) => Some(s),
                None => get_text(addr, "hamlet"),
            },
        },
    };
    let state = match get_text(addr, "state") {
        Some(s) => Some(s),
        None => match get_text(addr, "region") {
            Some(s) => Some(s),
            None => get_text(addr, "province"),
        },
    };
    let country = get_text(addr, "country");
    (city, state, country)
}

} // verus!

verus! {

/// A location string with trailing slashes removed, as the quicktime tag
/// writes it (`+40.7128-074.0060+011.0/`).
pub open spec fn spec_strip_slashes(s: Seq<char>) -> Seq<char>
    decreases s.len(),
{
    if s.len() > 0 && s.last() == '/' {
        spec_strip_slashes(s.drop_last())
    } else {
        s
    }
}

proof fn lemma_strip_take(s: Seq<char>, b: int)
    requires
        0 <= b <= s.len(),
        forall|i: int| b <= i < s.len() ==> s[i] == '/',
        b > 0 ==> s[b - 1] != '/',
    ensures
        spec_strip_slashes(s) == s.take(b),
    decreases s.len() - b,
{
    if b == s.len() {
        if s.len() > 0 && s.last() == '/' {
            assert(false);
        }
        assert(s.take(b) =~= s);
    } else {
        lemma_strip_take(s.drop_last(), b);
        assert(s.drop_last().take(b) =~= s.take(b));
    }
}

/// The first index at or after `from` holding a sign character, or the
/// length when there is none.
pub open spec fn spec_find_sign(s: Seq<char>, from: int) -> int
    decreases s.len() - from,
{
    if from < 0 || from >= s.len() {
        s.len() as int
    } else if s[from] == '+' || s[from] == '-' {
        from
    } else {
        spec_find_sign(s, from + 1)
    }
}

proof fn lemma_find_sign_at(s: Seq<char>, from: int, d: int)
    requires
        0 <= from <= d <= s.len(),
        forall|j: int| from <= j < d ==> !(s[j] == '+' || s[j] == '-'),
        d < s.len() ==> (s[d] == '+' || s[d] == '-'),
    ensures
        spec_find_sign(s, from) == d,
    decreases d - from,
{
    if from < d {
        lemma_find_sign_at(s, from + 1, d);
    }
}

/// A latitude/longitude pair read from a location string: the latitude up to
/// the second sign, the longitude up to the next sign (cutting any altitude
/// suffix), both as plain decimals in microdegrees.
pub open spec fn spec_iso6709(s: Seq<char>) -> Option<(int, int)> {
    let t = spec_strip_slashes(s);
    if t.len() < 2 {
        None
    } else {
        let i = spec_find_sign(t, 1);
        if i >= t.len() {
            None
        } else {
            let lat_txt = t.take(i);
            let lon_txt = t.subrange(i, spec_find_sign(t, i + 1));
            match (spec_parse_scaled(lat_txt, 6), spec_parse_scaled(lon_txt, 6)) {
                (Some(la), Some(lo)) => Some((la, lo)),
                _ => None,
            }
        }
    }
}

/// Parse an ISO6709-style location into microdegree coordinates; anything
/// malformed degrades to `None`.
pub fn parse_iso6709_location(s: &str) -> (r: Option<(i64, i64)>)
    ensures
        match r {
            Some(pair) => spec_iso6709(s@) == Some((pair.0 as int, pair.1 as int)),
            None => spec_iso6709(s@) is None,
        },
{
    let n = s.unicode_len();
    let mut b: usize = n;
    while b > 0 && s.get_char(b - 1) == '/'
        invariant
            b <= n == s@.len(),
            forall|i: int| b <= i < n ==> s@[i] == '/',
        decreases b,
    {
        b = b - 1;
    }
    proof {
        lemma_strip_take(s@, b as int);
    }
    let t: &str = s.substring_char(0, b);
    assert(t@ == spec_strip_slashes(s@));
    if b < 2 {
        return None;
    }
    let mut i: usize = 1;
    while i < b && !(t.get_char(i) == '+' || t.get_char(i) == '-')
        invariant
            1 <= i <= b == t@.len(),
            forall|j: int| 1 <= j < i ==> !(t@[j] == '+' || t@[j] == '-'),
        decreases b - i,
    {
        i = i + 1;
    }
    proof {
        lemma_find_sign_at(t@, 1, i as int);
    }
    if i >= b {
        return None;
    }
    let mut j: usize = i + 1;
    while j < b && !(t.get_char(j) == '+' || t.get_char(j) == '-')
        invariant
            i + 1 <= j <= b == t@.len(),
            forall|k: int| i + 1 <= k < j ==> !(t@[k] == '+' || t@[k] == '-'),
        decreases b - j,
    {
        j = j + 1;
    }
    proof {
        lemma_find_sign_at(t@, i as int + 1, j as int);
    }
    let lat_txt = t.substring_char(0, i);
    let lon_txt = t.substring_char(i, j);
    assert(lat_txt@ == t@.take(i as int));
    assert(lon_txt@ == t@.subrange(i as int, j as int));
    match (parse_scaled(lat_txt, 6), parse_scaled(lon_txt, 6)) {
        (Some(la), Some(lo)) => Some((la, lo)),
        _ => None,
    }
}

/// A well-shaped probe timestamp prefix: `YYYY-MM-DD HH:MM:SS`, a `T` or a
/// space between date and time, fields in plausible ranges; anything after
/// the seconds (zone, fraction) is ignored.
pub open spec fn spec_probe_dt_ok(t: Seq<char>) -> bool {
    &&& t.len() >= 19
    &&& forall|i: int| 0 <= i < 19 && i != 4 && i != 7 && i != 10 && i != 13 && i != 16
        ==> spec_is_digit(#[trigger] t[i])
    &&& t[4] == '-' && t[7] == '-'
    &&& (t[10] == 'T' || t[10] == ' ')
    &&& t[13] == ':' && t[16] == ':'
    &&& 1 <= spec_two_digit(t, 5) <= 12
    &&& 1 <= spec_two_digit(t, 8) <= spec_days_in_month(spec_four_digit(t, 0),
        spec_two_digit(t, 5))
    &&& spec_two_digit(t, 11) <= 23
    &&& spec_two_digit(t, 14) <= 59
    &&& spec_two_digit(t, 17) <= 59
    &&& spec_probe_suffix_ok(t)
}

/// A zone marker this pipeline takes as already-UTC: none at all, `Z`, or a
/// zero offset. A non-zero offset would need calendar conversion to stay
/// truthful, so it is left to the modification-time fallback instead.
pub open spec fn spec_utc_zone(z: Seq<char>) -> bool {
    z.len() == 0 || z == seq!['Z'] || z == "+00:00"@ || z == "-00:00"@
}

/// The first index at or after `from` that is not a digit, or the length.
pub open spec fn spec_digits_end(s: Seq<char>, from: int) -> int
    decreases s.len() - from,
{
    if from < 0 || from >= s.len() {
        s.len() as int
    } else if spec_is_digit(s[from]) {
        spec_digits_end(s, from + 1)
    } else {
        from
    }
}

/// What may follow the seconds of a probe timestamp: an optional fraction,
/// then an already-UTC zone marker.
pub open spec fn spec_probe_suffix_ok(s: Seq<char>) -> bool {
    if s.len() >= 20 && s[19] == '.' {
        spec_digits_end(s, 20) > 20 && spec_utc_zone(s.skip(spec_digits_end(s, 20)))
    } else {
        spec_utc_zone(s.skip(19))
    }
}

pub open spec fn spec_probe_datetime(s: Seq<char>) -> Option<Seq<char>> {
    if spec_probe_dt_ok(s) {
        Some(Seq::new(19, |i: int| if i == 10 { 'T' } else { s[i] }))
    } else {
        None
    }
}

fn days_in_month(year: u64, month: u64) -> (d: u64)
    requires
        1 <= month <= 12,
    ensures
        d == spec_days_in_month(year as int, month as int),
{
    if month == 2 {
        if year % 4 == 0 && (year % 100 != 0 || year % 400 == 0) { 29 } else { 28 }
    } else if month == 4 || month == 6 || month == 9 || month == 11 {
        30
    } else {
        31
    }
}

proof fn lemma_digits_end_at(s: Seq<char>, from: int, d: int)
    requires
        0 <= from <= d <= s.len(),
        forall|j: int| from <= j < d ==> spec_is_digit(s[j]),
        d < s.len() ==> !spec_is_digit(s[d]),
    ensures
        spec_digits_end(s, from) == d,
    decreases d - from,
{
    if from < d {
        lemma_digits_end_at(s, from + 1, d);
    }
}

fn digits_end_from(s: &str, from: usize) -> (d: usize)
    requires
        from <= s@.len(),
    ensures
        from <= d <= s@.len(),
        d == spec_digits_end(s@, from as int),
{
    let n = s.unicode_len();
    let mut i: usize = from;
    while i < n
        invariant
            from <= i <= n == s@.len(),
            forall|j: int| from <= j < i ==> spec_is_digit(s@[j]),
        decreases n - i,
    {
        let c = s.get_char(i);
        if c < '0' || c > '9' {
            proof {
                lemma_digits_end_at(s@, from as int, i as int);
            }
            return i;
        }
        i = i + 1;
    }
    proof {
        lemma_digits_end_at(s@, from as int, n as int);
    }
    n
}

fn utc_zone_ok(s: &str, from: usize) -> (r: bool)
    requires
        from <= s@.len(),
    ensures
        r == spec_utc_zone(s@.skip(from as int)),
{
    proof {
        reveal_strlit("+00:00");
        reveal_strlit("-00:00");
    }
    let ghost z = s@.skip(from as int);
    let n = s.unicode_len();
    let len = n - from;
    if len == 0 {
        return true;
    }
    if len == 1 {
        let c = s.get_char(from);
        proof {
            if c == 'Z' {
                assert(z =~= seq!['Z']);
            } else {
                assert(z[0] != 'Z');
            }
        }
        return c == 'Z';
    }
    if len == 6 {
        let c0 = s.get_char(from);
        let ok = (c0 == '+' || c0 == '-') && s.get_char(from + 1) == '0'
            && s.get_char(from + 2) == '0' && s.get_char(from + 3) == ':'
            && s.get_char(from + 4) == '0' && s.get_char(from + 5) == '0';
        proof {
            if ok {
                if c0 == '+' {
                    assert(z =~= "+00:00"@);
                } else {
                    assert(z =~= "-00:00"@);
                }
            } else {
                if z == "+00:00"@ {
                    assert(z[0] == '+' && z[1] == '0' && z[2] == '0' && z[3] == ':'
                        && z[4] == '0' && z[5] == '0');
                    assert(false);
                }
                if z == "-00:00"@ {
                    assert(z[0] == '-' && z[1] == '0' && z[2] == '0' && z[3] == ':'
                        && z[4] == '0' && z[5] == '0');
                    assert(false);
                }
            }
        }
        return ok;
    }
    proof {
        assert("+00:00"@.len() == 6);
        assert("-00:00"@.len() == 6);
        assert(z.len() == len && len != 0 && len != 1 && len != 6);
    }
    false
}

/// The canonical 19-character prefix of a stream-container creation time.
pub fn parse_probe_datetime(s: &str) -> (r: Option<String>)
    ensures
        match r {
            Some(out) => spec_probe_datetime(s@) == Some(out@),
            None => spec_probe_datetime(s@) is None,
        },
{
    if s.unicode_len() < 19 {
        return None;
    }
    if s.get_char(4) != '-' || s.get_char(7) != '-' || s.get_char(13) != ':'
        || s.get_char(16) != ':' {
        return None;
    }
    let c10 = s.get_char(10);
    if !(c10 == 'T' || c10 == ' ') {
        return None;
    }
    let mut i: usize = 0;
    while i < 19
        invariant
            i <= 19,
            s@.len() >= 19,
            forall|j: int| 0 <= j < i && j != 4 && j != 7 && j != 10 && j != 13 && j != 16
                ==> spec_is_digit(#[trigger] s@[j]),
        decreases 19 - i,
    {
        if i != 4 && i != 7 && i != 10 && i != 13 && i != 16 {
            let c = s.get_char(i);
            if c < '0' || c > '9' {
                assert(!spec_is_digit(s@[i as int]));
                return None;
            }
        }
        i = i + 1;
    }
    let year = two_digit_at(s, 0) * 100 + two_digit_at(s, 2);
    let month = two_digit_at(s, 5);
    let day = two_digit_at(s, 8);
    let hour = two_digit_at(s, 11);
    let minute = two_digit_at(s, 14);
    let second = two_digit_at(s, 17);
    if month < 1 || month > 12 || hour > 23 || minute > 59 || second > 59 {
        return None;
    }
    if day < 1 || day > days_in_month(year, month) {
        return None;
    }
    let n = s.unicode_len();
    let suffix_ok = if n > 19 && s.get_char(19) == '.' {
        let de = digits_end_from(s, 20);
        de > 20 && utc_zone_ok(s, de)
    } else {
        utc_zone_ok(s, 19)
    };
    if !suffix_ok {
        return None;
    }
    assert(spec_probe_dt_ok(s@));
    let mut out = String::new();
    let mut k: usize = 0;
    while k < 19
        invariant
            k <= 19,
            s@.len() >= 19,
            spec_probe_dt_ok(s@),
            out@.len() == k,
            forall|j: int| 0 <= j < k ==> out@[j] == (if j == 10 { 'T' } else { s@[j] }),
        decreases 19 - k,
    {
        let c = if k == 10 { 'T' } else { s.get_char(k) };
        push_char(&mut out, c);
        k = k + 1;
    }
    proof {
        assert(out@ =~= spec_probe_datetime(s@)->0);
    }
    Some(out)
}

/// A probe stream describing video: its codec_type tag says so.
pub open spec fn spec_is_video_stream(e: JsonModel) -> bool {
    model_text(e, "codec_type"@) == Some("video"@)
}

/// The first video stream of a stream list.
pub open spec fn spec_find_video(elems: Seq<JsonModel>) -> Option<JsonModel>
    decreases elems.len(),
{
    if elems.len() == 0 {
        None
    } else if spec_is_video_stream(elems.first()) {
        Some(elems.first())
    } else {
        spec_find_video(elems.drop_first())
    }
}

/// The first video stream of a probe document, if its streams member is an
/// array holding one.
pub open spec fn spec_video_stream_of(m: JsonModel) -> Option<JsonModel> {
    match model_get(m, "streams"@) {
        Some(JsonModel::Arr(elems)) => spec_find_video(elems),
        _ => None,
    }
}

/// The container duration of a probe document, in milliseconds: ffprobe
/// writes it as a decimal string under format.duration.
pub open spec fn spec_probe_duration_of(m: JsonModel) -> Option<int> {
    match model_get(m, "format"@) {
        Some(fm) => match model_get(fm, "duration"@) {
            Some(JsonModel::Text(t)) => spec_parse_scaled(t, 3),
            _ => None,
        },
        None => None,
    }
}

/// The container tags of a probe document.
pub open spec fn spec_probe_tags_of(m: JsonModel) -> Option<JsonModel> {
    match model_get(m, "format"@) {
        Some(fm) => model_get(fm, "tags"@),
        None => None,
    }
}

/// The capture time a probe contributes: the first of the two creation-time
/// tags, in canonical form; a zoned or malformed stamp contributes nothing.
pub open spec fn spec_probe_date_of(m: JsonModel) -> Option<Seq<char>> {
    match spec_probe_tags_of(m) {
        Some(tags) => match first_of(model_text(tags, "creation_time"@),
            model_text(tags, "com.apple.quicktime.creationdate"@)) {
            Some(ct) => spec_probe_datetime(ct),
            None => None,
        },
        None => None,
    }
}

/// The location a probe contributes: the first of the two location tags,
/// parsed as microdegree coordinates.
pub open spec fn spec_probe_loc_of(m: JsonModel) -> Option<(int, int)> {
    match spec_probe_tags_of(m) {
        Some(tags) => match first_of(model_text(tags, "location"@),
            model_text(tags, "com.apple.quicktime.location.ISO6709"@)) {
            Some(loc) => spec_iso6709(loc),
            None => None,
        },
        None => None,
    }
}

/// A present reading overwrites the field, an absent one keeps it.
pub open spec fn set_or_keep_int(out: Option<i64>, prev: Option<i64>, s: Option<int>) -> bool {
    match s {
        Some(v) => out is Some && out->0 == v,
        None => out == prev,
    }
}

pub open spec fn set_or_keep_text(
    out: Option<String>, prev: Option<String>, s: Option<Seq<char>>,
) -> bool {
    match s {
        Some(t) => out is Some && out->0@ == t,
        None => out == prev,
    }
}

/// What folding a parsed probe document into a bundle does: dimensions and
/// codec from the first video stream, duration from the container, capture
/// time and location from the tags, each kept when its reading is absent,
/// and nothing else moved.
pub open spec fn spec_probe_applied(
    m: NewMediaData, model: JsonModel, out: NewMediaData,
) -> bool {
    &&& set_or_keep_int(out.width, m.width, match spec_video_stream_of(model) {
        Some(st) => model_int(st, "width"@),
        None => None,
    })
    &&& set_or_keep_int(out.height, m.height, match spec_video_stream_of(model) {
        Some(st) => model_int(st, "height"@),
        None => None,
    })
    &&& set_or_keep_text(out.video_codec, m.video_codec,
        match spec_video_stream_of(model) {
            Some(st) => model_text(st, "codec_name"@),
            None => None,
        })
    &&& set_or_keep_int(out.duration_ms, m.duration_ms, spec_probe_duration_of(model))
    &&& set_or_keep_text(out.date_taken, m.date_taken, spec_probe_date_of(model))
    &&& (match spec_probe_loc_of(model) {
        Some(pair) => out.gps_latitude_e6 is Some && out.gps_latitude_e6->0 == pair.0
            && out.gps_longitude_e6 is Some && out.gps_longitude_e6->0 == pair.1,
        None => out.gps_latitude_e6 == m.gps_latitude_e6
            && out.gps_longitude_e6 == m.gps_longitude_e6,
    })
    &&& out == (NewMediaData {
        width: out.width,
        height: out.height,
        video_codec: out.video_codec,
        duration_ms: out.duration_ms,
        date_taken: out.date_taken,
        gps_latitude_e6: out.gps_latitude_e6,
        gps_longitude_e6: out.gps_longitude_e6,
        ..m
    })
}

/// Fold the stream/container probe's output into a bundle: dimensions and
/// codec from the first video stream, duration from the container, capture
/// time and location from the container tags. A probe that cannot be parsed
/// changes nothing.
pub fn apply_probe_data(m: NewMediaData, probe_json: &str) -> (out: NewMediaData)
    ensures
        match json_doc(probe_json@) {
            Some(model) => spec_probe_applied(m, model, out),
            None => out == m,
        },
{
    let doc = match parse_json(probe_json) {
        Some(d) => d,
        None => {
            return m;
        }
    };
    let ghost model = value_model(doc);
    let mut width = m.width;
    let mut height = m.height;
    let mut video_codec = m.video_codec;
    let stream = find_video_stream(&doc);
    if let Some(st) = stream {
        if let Some(n) = get_int(st, "width") {
            width = Some(n);
        }
        if let Some(n) = get_int(st, "height") {
            height = Some(n);
        }
        if let Some(name) = get_text(st, "codec_name") {
            video_codec = Some(name);
        }
    }
    let mut duration_ms = m.duration_ms;
    let mut date_taken = m.date_taken;
    let mut gps_latitude_e6 = m.gps_latitude_e6;
    let mut gps_longitude_e6 = m.gps_longitude_e6;
    if let Some(format_v) = json_get(&doc, "format") {
        if let Some(d) = json_get(format_v, "duration") {
            if let Some(text) = json_as_string(d) {
                if let Some(ms) = parse_scaled(text.as_str(), 3) {
                    duration_ms = Some(ms);
                }
            }
        }
        if let Some(tags) = json_get(format_v, "tags") {
            let ct_raw = match get_text(tags, "creation_time") {
                Some(s) => Some(s),
                None => get_text(tags, "com.apple.quicktime.creationdate"),
            };
            if let Some(ct) = ct_raw {
                if let Some(dt) = parse_probe_datetime(ct.as_str()) {
                    date_taken = Some(dt);
                }
            }
            let loc_raw = match get_text(tags, "location") {
                Some(s) => Some(s),
                None => get_text(tags, "com.apple.quicktime.location.ISO6709"),
            };
            if let Some(loc) = loc_raw {
                if let Some(pair) = parse_iso6709_location(loc.as_str()) {
                    gps_latitude_e6 = Some(pair.0);
                    gps_longitude_e6 = Some(pair.1);
                }
            }
        }
    }
    NewMediaData {
        width,
        height,
        video_codec,
        duration_ms,
        date_taken,
        gps_latitude_e6,
        gps_longitude_e6,
        ..m
    }
}

/// The first stream of the probe document whose codec type says video.
fn find_video_stream<'a>(doc: &'a serde_json::Value) -> (r: Option<&'a serde_json::Value>)
    ensures
        match spec_video_stream_of(value_model(*doc)) {
            Some(st) => r is Some && value_model(*r->0) == st,
            None => r is None,
        },
{
    let sv = match json_get(doc, "streams") {
        Some(sv) => sv,
        None => {
            return None;
        }
    };
    let streams = match json_as_array(sv) {
        Some(streams) => streams,
        None => {
            return None;
        }
    };
    let ghost elems = value_model(*sv)->Arr_0;
    let ghost model = value_model(*doc);
    proof {
        assert(elems.skip(0) =~= elems);
        assert(spec_video_stream_of(model) == spec_find_video(elems));
    }
    let mut i: usize = 0;
    while i < streams.len()
        invariant
            i <= streams@.len() == elems.len(),
            model == value_model(*doc),
            spec_video_stream_of(model) == spec_find_video(elems),
            forall|j: int| 0 <= j < elems.len()
                ==> #[trigger] value_model(streams@[j]) == elems[j],
            spec_find_video(elems) == spec_find_video(elems.skip(i as int)),
        decreases streams@.len() - i,
    {
        let is_video = match get_text(&streams[i], "codec_type") {
            Some(name) => str_eq(name.as_str(), "video"),
            None => false,
        };
        proof {
            assert(elems.skip(i as int).first() == elems[i as int]);
            assert(elems.skip(i as int).drop_first() =~= elems.skip(i + 1));
        }
        if is_video {
            proof {
                assert(spec_is_video_stream(elems[i as int]));
                assert(spec_find_video(elems.skip(i as int)) == Some(elems[i as int]));
            }
            return Some(&streams[i]);
        }
        assert(!spec_is_video_stream(elems[i as int]));
        i = i + 1;
    }
    assert(elems.skip(elems.len() as int) =~= Seq::<JsonModel>::empty());
    None
}

} // verus!

verus! {

/// The parsed EXIF output constrains the fields: the first object's tags
/// when the output is a non-empty array, nothing at all otherwise.
pub open spec fn spec_exif_output(text: Seq<char>, f: ExifFields) -> bool {
    match json_doc(text) {
        Some(JsonModel::Arr(elems)) => if elems.len() > 0 {
            exif_fields_match(f, elems[0])
        } else {
            exif_all_none(f)
        },
        _ => exif_all_none(f),
    }
}

/// The whole image-metadata policy for one file: the EXIF tool's output
/// read under the tag policy, applied over the bundle, then the
/// capture-time and MIME fallbacks. Capture time is never left unset.
pub fn image_metadata_from_exif(
    m: NewMediaData, exif_json: &str, mtime: Option<String>, now: String, ext_lower: &str,
) -> (out: NewMediaData)
    ensures
        out.date_taken is Some,
        out.mime_type is Some,
        exists|f: ExifFields, mid: NewMediaData| {
            &&& #[trigger] spec_exif_output(exif_json@, f)
            &&& #[trigger] spec_apply_exif(m, f, mid)
            &&& spec_finish_image(mid, mtime, now, ext_lower@, out)
        },
{
    let fields = exif_fields_from_output(exif_json);
    let ghost f_w = fields;
    let applied = apply_exif_fields(m, fields);
    let ghost mid_w = applied;
    let out = finish_image_metadata(applied, mtime, now, ext_lower);
    proof {
        assert(spec_exif_output(exif_json@, f_w) && spec_apply_exif(m, f_w, mid_w)
            && spec_finish_image(mid_w, mtime, now, ext_lower@, out));
    }
    out
}

/// The whole video-metadata policy for one file: EXIF tags, then the
/// stream/container probe, then the fallbacks. Capture time is never left
/// unset, the MIME type always comes from the extension table, and a file
/// the probe could not measure gets a zero duration.
pub fn video_metadata_from_probe(
    m: NewMediaData, exif_json: &str, probe_json: &str, mtime: Option<String>,
    now: String, ext_lower: &str,
) -> (out: NewMediaData)
    ensures
        out.date_taken is Some,
        out.mime_type is Some && out.mime_type->0@ == spec_video_mime(ext_lower@),
        out.duration_ms is Some,
        exists|f: ExifFields, mid1: NewMediaData, mid2: NewMediaData| {
            &&& #[trigger] spec_exif_output(exif_json@, f)
            &&& #[trigger] spec_apply_exif(m, f, mid1)
            &&& #[trigger] spec_finish_video(mid2, mtime, now, ext_lower@, out)
            &&& (match json_doc(probe_json@) {
                Some(model) => spec_probe_applied(mid1, model, mid2),
                None => mid2 == mid1,
            })
        },
{
    let fields = exif_fields_from_output(exif_json);
    let ghost f_w = fields;
    let applied = apply_exif_fields(m, fields);
    let ghost mid1_w = applied;
    let probed = apply_probe_data(applied, probe_json);
    let ghost mid2_w = probed;
    let out = finish_video_metadata(probed, mtime, now, ext_lower);
    proof {
        assert(spec_exif_output(exif_json@, f_w) && spec_apply_exif(m, f_w, mid1_w)
            && (match json_doc(probe_json@) {
                Some(model) => spec_probe_applied(mid1_w, model, mid2_w),
                None => mid2_w == mid1_w,
            })
            && spec_finish_video(mid2_w, mtime, now, ext_lower@, out));
    }
    out
}

} // verus!
