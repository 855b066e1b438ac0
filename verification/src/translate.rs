//! Translation of raw upstream text into typed records.
//!
//! The upstream body is parsed as JSON and checked against the provider's
//! schema shape; on any structural mismatch the translator fails closed with
//! an `UpstreamError` whose message carries the parse detail for the caller
//! and leaves the raw body out. On success the record keeps the raw body
//! verbatim (the pipeline forwards it unchanged) together with the plain
//! fields the gateway itself reads.
//!
//! The parser's outcome on a given text is given a name, [`spec_json_doc`],
//! over a ghost model of JSON documents, and each parsed value carries its
//! model through [`value_model`]; the shape walk itself is verified, so
//! success and the record's fields are fixed exactly in terms of the named
//! document.

use vstd::prelude::*;

use crate::errors::GatewayError;

verus! {

#[verifier::external_type_specification]
#[verifier::external_body]
pub struct ExValue(serde_json::Value);

/// The ghost model of a JSON value: the parts the gateway reads. Numbers,
/// booleans and null are carried through verbatim and never read, so they
/// share one variant.
pub enum JsonModel {
    Obj(Map<Seq<char>, JsonModel>),
    Arr(Seq<JsonModel>),
    Str(Seq<char>),
    Prim,
}

/// What a parsed JSON value holds, as the model above.
pub uninterp spec fn value_model(v: serde_json::Value) -> JsonModel;

/// The document that the parser yields for a text, `None` where the parser
/// rejects it. This names the parser's outcome — a function of the text
/// alone — not a grammar of its own.
pub uninterp spec fn spec_json_doc(s: Seq<char>) -> Option<JsonModel>;

/// Relies on serde_json::from_str: parses the text as JSON, yielding the
/// document on success and the parser's message on malformed input. The
/// outcome depends on the text alone.
#[verifier::external_body]
fn parse_json(raw: &str) -> (r: Result<serde_json::Value, String>)
    ensures
        r matches Ok(v) ==> spec_json_doc(raw@) == Some(value_model(v)),
        r is Err <==> spec_json_doc(raw@) is None,
{
    match serde_json::from_str::<serde_json::Value>(raw) {
        Ok(v) => Ok(v),
        Err(e) => Err(format!("{}", e)),
    }
}

/// Relies on serde_json::Value::get: on a JSON object, the named field when
/// it is there; `None` when the value is no object or lacks the field.
#[verifier::external_body]
fn json_get<'a>(v: &'a serde_json::Value, key: &str) -> (r: Option<&'a serde_json::Value>)
    ensures
        match value_model(*v) {
            JsonModel::Obj(fields) => {
                &&& (r is Some <==> fields.dom().contains(key@))
                &&& (r matches Some(f) ==> value_model(*f) == fields[key@])
            },
            _ => r is None,
        },
{
    v.get(key)
}

/// Relies on serde_json::Value::as_str: the borrowed string when the value
/// is a JSON string, `None` otherwise.
#[verifier::external_body]
fn json_as_str<'a>(v: &'a serde_json::Value) -> (r: Option<&'a str>)
    ensures
        match value_model(*v) {
            JsonModel::Str(s) => r matches Some(rs) && rs@ == s,
            _ => r is None,
        },
{
    v.as_str()
}

/// Relies on serde_json::Value::as_array: the borrowed elements when the
/// value is a JSON array, `None` otherwise.
#[verifier::external_body]
fn json_as_array<'a>(v: &'a serde_json::Value) -> (r: Option<&'a Vec<serde_json::Value>>)
    ensures
        match value_model(*v) {
            JsonModel::Arr(elems) => r matches Some(a) && a@.len() == elems.len() && (forall|
                i: int,
            |
                0 <= i < elems.len() ==> #[trigger] value_model(a@[i]) == elems[i]),
            _ => r is None,
        },
{
    v.as_array()
}

/// The named field of a document, when the document is an object carrying it.
pub open spec fn spec_obj_field(doc: JsonModel, key: Seq<char>) -> Option<JsonModel> {
    match doc {
        JsonModel::Obj(fields) => if fields.dom().contains(key) {
            Some(fields[key])
        } else {
            None
        },
        _ => None,
    }
}

/// The characters of a value, when it is a string.
pub open spec fn spec_str_of(v: JsonModel) -> Option<Seq<char>> {
    match v {
        JsonModel::Str(s) => Some(s),
        _ => None,
    }
}

/// `location.name` of a forecast document, when the path is there and a
/// string.
pub open spec fn spec_forecast_name(doc: Option<JsonModel>) -> Option<Seq<char>> {
    match doc {
        Some(root) => match spec_obj_field(root, "location"@) {
            Some(loc) => match spec_obj_field(loc, "name"@) {
                Some(nv) => spec_str_of(nv),
                None => None,
            },
            None => None,
        },
        None => None,
    }
}

/// The length of `forecast.forecastday`, when the path is there and an
/// array.
pub open spec fn spec_forecast_days(doc: Option<JsonModel>) -> Option<int> {
    match doc {
        Some(root) => match spec_obj_field(root, "forecast"@) {
            Some(f) => match spec_obj_field(f, "forecastday"@) {
                Some(JsonModel::Arr(elems)) => Some(elems.len() as int),
                _ => None,
            },
            None => None,
        },
        None => None,
    }
}

/// Whether the document carries a `current` object at top level.
pub open spec fn spec_has_current(doc: Option<JsonModel>) -> bool {
    match doc {
        Some(root) => spec_obj_field(root, "current"@) is Some,
        None => false,
    }
}

/// The shape a forecast body must have: `location.name` a string, `current`
/// present, `forecast.forecastday` an array.
pub open spec fn spec_forecast_ok(doc: Option<JsonModel>) -> bool {
    spec_forecast_name(doc) is Some && spec_has_current(doc) && spec_forecast_days(doc) is Some
}

/// The named string field of one location entry, when present.
pub open spec fn spec_entry_field(e: JsonModel, key: Seq<char>) -> Option<Seq<char>> {
    match spec_obj_field(e, key) {
        Some(v) => spec_str_of(v),
        None => None,
    }
}

/// One location entry's required string fields are all present.
pub open spec fn spec_location_entry_ok(e: JsonModel) -> bool {
    &&& spec_entry_field(e, "name"@) is Some
    &&& spec_entry_field(e, "region"@) is Some
    &&& spec_entry_field(e, "country"@) is Some
    &&& spec_entry_field(e, "url"@) is Some
}

/// The entries of a location-search body, when it is an array.
pub open spec fn spec_locations_entries(doc: Option<JsonModel>) -> Option<Seq<JsonModel>> {
    match doc {
        Some(JsonModel::Arr(elems)) => Some(elems),
        _ => None,
    }
}

/// The shape a location-search body must have: an array whose every entry
/// carries the four string fields.
pub open spec fn spec_locations_ok(doc: Option<JsonModel>) -> bool {
    match spec_locations_entries(doc) {
        Some(elems) => forall|i: int|
            0 <= i < elems.len() ==> spec_location_entry_ok(#[trigger] elems[i]),
        None => false,
    }
}

/// A successfully translated forecast document: the raw body to forward
/// verbatim, and the plain fields the gateway reads of it.
pub struct ForecastRecord {
    /// The upstream body, kept unchanged.
    pub raw: String,
    /// `location.name` of the document.
    pub location_name: String,
    /// The length of `forecast.forecastday`.
    pub forecast_days: usize,
}

/// A successfully translated location-search entry: the plain string fields
/// of one result.
pub struct LocationRecord {
    pub name: String,
    pub region: String,
    pub country: String,
    pub url: String,
}

/// The `condition` object of the upstream schema, mirrored field for field.
pub struct Condition {
    pub text: String,
    pub icon: String,
    pub code: i32,
}

/// The `astro` object of the upstream schema, mirrored field for field.
pub struct AstroDay {
    pub sunrise: String,
    pub sunset: String,
    pub moonrise: String,
    pub moonset: String,
    pub moon_phase: String,
    pub moon_illumination: i32,
    pub is_moon_up: i32,
    pub is_sun_up: i32,
}

/// The prefix of every forecast translation failure message.
pub open spec fn spec_forecast_err_prefix() -> Seq<char> {
    "Invalid response from weather service: "@
}

/// The prefix of every location translation failure message.
pub open spec fn spec_location_err_prefix() -> Seq<char> {
    "Invalid response from location service: "@
}

fn forecast_err(detail: &str) -> (e: GatewayError)
    ensures
        e matches GatewayError::UpstreamError(m) && m@ == spec_forecast_err_prefix() + detail@,
{
    GatewayError::UpstreamError(
        String::from_str("Invalid response from weather service: ").concat(detail),
    )
}

fn location_err(detail: &str) -> (e: GatewayError)
    ensures
        e matches GatewayError::UpstreamError(m) && m@ == spec_location_err_prefix() + detail@,
{
    GatewayError::UpstreamError(
        String::from_str("Invalid response from location service: ").concat(detail),
    )
}

/// Whether a message starts with the given prefix.
pub open spec fn spec_has_prefix(m: Seq<char>, prefix: Seq<char>) -> bool {
    m.len() >= prefix.len() && m.subrange(0, prefix.len() as int) == prefix
}

fn forecast_err_fact(detail: &str) -> (e: GatewayError)
    ensures
        e matches GatewayError::UpstreamError(m) && spec_has_prefix(
            m@,
            spec_forecast_err_prefix(),
        ),
{
    let e = forecast_err(detail);
    proof {
        lemma_prefix_of_concat(spec_forecast_err_prefix(), detail@);
    }
    e
}

fn location_err_fact(detail: &str) -> (e: GatewayError)
    ensures
        e matches GatewayError::UpstreamError(m) && spec_has_prefix(
            m@,
            spec_location_err_prefix(),
        ),
{
    let e = location_err(detail);
    proof {
        lemma_prefix_of_concat(spec_location_err_prefix(), detail@);
    }
    e
}

proof fn lemma_prefix_of_concat(prefix: Seq<char>, rest: Seq<char>)
    ensures
        spec_has_prefix(prefix + rest, prefix),
{
    assert((prefix + rest).subrange(0, prefix.len() as int) =~= prefix);
}

/// Parses a raw forecast body. Succeeds exactly when the parsed document has
/// the shape the gateway relies on; then the raw body is kept verbatim and
/// the record's fields equal the named document's. Any other body fails
/// closed with `UpstreamError`, whose message starts with the fixed
/// translation-failure prefix and never holds the raw body.
pub fn translate_forecast(raw: &str) -> (r: Result<ForecastRecord, GatewayError>)
    ensures
        r is Ok <==> spec_forecast_ok(spec_json_doc(raw@)),
        r matches Ok(rec) ==> rec.raw@ == raw@ && Some(rec.location_name@) == spec_forecast_name(
            spec_json_doc(raw@),
        ) && Some(rec.forecast_days as int) == spec_forecast_days(spec_json_doc(raw@)),
        r matches Err(e) ==> e matches GatewayError::UpstreamError(m) && spec_has_prefix(
            m@,
            spec_forecast_err_prefix(),
        ),
{
    let doc = match parse_json(raw) {
        Ok(v) => v,
        Err(detail) => {
            let e = forecast_err(detail.as_str());
            proof {
                lemma_prefix_of_concat(spec_forecast_err_prefix(), detail@);
            }
            return Err(e);
        },
    };
    let location = match json_get(&doc, "location") {
        Some(v) => v,
        None => {
            return Err(forecast_err_fact("missing location object"));
        },
    };
    let name_value = match json_get(location, "name") {
        Some(v) => v,
        None => {
            return Err(forecast_err_fact("missing location name"));
        },
    };
    let name = match json_as_str(name_value) {
        Some(s) => s,
        None => {
            return Err(forecast_err_fact("location name is not a string"));
        },
    };
    if json_get(&doc, "current").is_none() {
        return Err(forecast_err_fact("missing current conditions"));
    }
    let forecast = match json_get(&doc, "forecast") {
        Some(v) => v,
        None => {
            return Err(forecast_err_fact("missing forecast object"));
        },
    };
    let days_value = match json_get(forecast, "forecastday") {
        Some(v) => v,
        None => {
            return Err(forecast_err_fact("missing forecastday array"));
        },
    };
    let days = match json_as_array(days_value) {
        Some(a) => a,
        None => {
            return Err(forecast_err_fact("forecastday is not an array"));
        },
    };
    Ok(
        ForecastRecord {
            raw: raw.to_owned(),
            location_name: name.to_owned(),
            forecast_days: days.len(),
        },
    )
}

/// Parses a raw location-search body. Succeeds exactly when the parsed
/// document is an array whose every entry carries the four string fields;
/// then the records equal those fields, entry for entry, in order. Any
/// other body fails closed like the forecast translation.
pub fn translate_locations(raw: &str) -> (r: Result<Vec<LocationRecord>, GatewayError>)
    ensures
        r is Ok <==> spec_locations_ok(spec_json_doc(raw@)),
        r matches Ok(records) ==> ({
            match spec_locations_entries(spec_json_doc(raw@)) {
                Some(elems) => {
                    &&& records@.len() == elems.len()
                    &&& forall|i: int|
                        0 <= i < elems.len() ==> {
                            &&& Some(#[trigger] records@[i].name@) == spec_entry_field(
                                elems[i],
                                "name"@,
                            )
                            &&& Some(records@[i].region@) == spec_entry_field(elems[i], "region"@)
                            &&& Some(records@[i].country@) == spec_entry_field(
                                elems[i],
                                "country"@,
                            )
                            &&& Some(records@[i].url@) == spec_entry_field(elems[i], "url"@)
                        }
                },
                None => false,
            }
        }),
        r matches Err(e) ==> e matches GatewayError::UpstreamError(m) && spec_has_prefix(
            m@,
            spec_location_err_prefix(),
        ),
{
    let doc = match parse_json(raw) {
        Ok(v) => v,
        Err(detail) => {
            let e = location_err(detail.as_str());
            proof {
                lemma_prefix_of_concat(spec_location_err_prefix(), detail@);
            }
            return Err(e);
        },
    };
    let entries = match json_as_array(&doc) {
        Some(a) => a,
        None => {
            return Err(location_err_fact("expected an array of locations"));
        },
    };
    let ghost elems = spec_locations_entries(spec_json_doc(raw@)).unwrap();
    let mut records: Vec<LocationRecord> = Vec::new();
    let n = entries.len();
    let mut i: usize = 0;
    while i < n
        invariant
            n == entries@.len(),
            i <= n,
            spec_locations_entries(spec_json_doc(raw@)) == Some(elems),
            elems.len() == n,
            forall|j: int| 0 <= j < n ==> #[trigger] value_model(entries@[j]) == elems[j],
            records@.len() == i,
            forall|j: int| 0 <= j < i ==> spec_location_entry_ok(#[trigger] elems[j]),
            forall|j: int|
                0 <= j < i ==> {
                    &&& Some(#[trigger] records@[j].name@) == spec_entry_field(elems[j], "name"@)
                    &&& Some(records@[j].region@) == spec_entry_field(elems[j], "region"@)
                    &&& Some(records@[j].country@) == spec_entry_field(elems[j], "country"@)
                    &&& Some(records@[j].url@) == spec_entry_field(elems[j], "url"@)
                },
        decreases n - i,
    {
        let entry = &entries[i];
        let name = match field_string(entry, "name") {
            Some(s) => s,
            None => {
                proof {
                    assert(value_model(entries@[i as int]) == elems[i as int]);
                    assert(!spec_location_entry_ok(elems[i as int]));
                }
                return Err(location_err_fact("location entry without a name"));
            },
        };
        let region = match field_string(entry, "region") {
            Some(s) => s,
            None => {
                proof {
                    assert(value_model(entries@[i as int]) == elems[i as int]);
                    assert(!spec_location_entry_ok(elems[i as int]));
                }
                return Err(location_err_fact("location entry without a region"));
            },
        };
        let country = match field_string(entry, "country") {
            Some(s) => s,
            None => {
                proof {
                    assert(value_model(entries@[i as int]) == elems[i as int]);
                    assert(!spec_location_entry_ok(elems[i as int]));
                }
                return Err(location_err_fact("location entry without a country"));
            },
        };
        let url = match field_string(entry, "url") {
            Some(s) => s,
            None => {
                proof {
                    assert(value_model(entries@[i as int]) == elems[i as int]);
                    assert(!spec_location_entry_ok(elems[i as int]));
                }
                return Err(location_err_fact("location entry without a url"));
            },
        };
        records.push(LocationRecord { name, region, country, url });
        i += 1;
    }
    Ok(records)
}

/// The named field of a parsed JSON object, when it is a string.
fn field_string(v: &serde_json::Value, key: &str) -> (r: Option<String>)
    ensures
        match r {
            Some(s) => spec_entry_field(value_model(*v), key@) == Some(s@),
            None => spec_entry_field(value_model(*v), key@) is None,
        },
{
    match json_get(v, key) {
        Some(f) => match json_as_str(f) {
            Some(s) => Some(s.to_owned()),
            None => None,
        },
        None => None,
    }
}

} // verus!
