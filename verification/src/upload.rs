//! The uploader: builds the JSON document, the headers and the target URL of
//! the HTTPS POST that carries one measurement to the document store, and
//! classifies the outcome of the exchange.  The socket work happens outside
//! the library; what stands here is the exact wire format and the rule that
//! only transport failures — never a response status — are errors.
use vstd::prelude::*;
use vstd::string::*;

use crate::config::Config;
use crate::error::Error;
use crate::json::{
    check_json_number,
    dec_chars,
    is_json_number,
    is_number_char,
    json_escape,
    json_escaped,
    lemma_number_chars,
    u64_to_dec,
};
use vstd::utf8::encode_utf8;

verus! {

/// One sensor reading, carried as the two JSON number texts that will stand
/// in the document verbatim.  The texts are produced outside the library by
/// whatever renders the sensor's floating-point values; the library passes
/// them through bit for bit and only checks that they obey the JSON number
/// grammar.
#[derive(Clone, Debug)]
pub struct Measurement {
    /// Degrees Celsius, as a JSON number text.
    pub temperature: String,
    /// Relative humidity in percent, as a JSON number text.
    pub humidity: String,
}

impl Measurement {
    /// Both texts obey the JSON number grammar.
    pub open spec fn wf(self) -> bool {
        is_json_number(self.temperature@) && is_json_number(self.humidity@)
    }

    /// Accepts the two number texts exactly when both obey the JSON number
    /// grammar, and keeps them unchanged.
    pub fn new(temperature: String, humidity: String) -> (r: Result<Measurement, Error>)
        ensures
            r is Ok <==> is_json_number(temperature@) && is_json_number(humidity@),
            r matches Ok(m) ==> m.temperature@ == temperature@ && m.humidity@ == humidity@
                && m.wf(),
            r matches Err(e) ==> e == Error::InvalidMeasurement,
    {
        if check_json_number(temperature.as_str()) && check_json_number(humidity.as_str()) {
            Ok(Measurement { temperature, humidity })
        } else {
            Err(Error::InvalidMeasurement)
        }
    }
}

/// The document up to and including the `"temperature":` key: the three
/// configuration strings stand escaped inside their string literals.
pub open spec fn prefix_chars(
    data_source: Seq<char>,
    database: Seq<char>,
    collection: Seq<char>,
) -> Seq<char> {
    "{\"dataSource\":\""@ + json_escaped(data_source) + "\",\"database\":\""@ + json_escaped(
        database,
    ) + "\",\"collection\":\""@ + json_escaped(collection) + "\",\"document\":{\"temperature\":"@
}

/// The whole document: fixed keys, the escaped configuration strings, and
/// the two measurement texts verbatim.
pub open spec fn payload_chars(
    data_source: Seq<char>,
    database: Seq<char>,
    collection: Seq<char>,
    temperature: Seq<char>,
    humidity: Seq<char>,
) -> Seq<char> {
    prefix_chars(data_source, database, collection) + temperature + ",\"humidity\":"@ + humidity
        + "}}"@
}

/// The target URL: the fixed endpoint with the application identifier
/// spliced in verbatim.
pub open spec fn url_chars(app_id: Seq<char>) -> Seq<char> {
    "https://data.mongodb-api.com/app/"@ + app_id + "/endpoint/data/v1/action/insertOne"@
}

/// The UTF-8 byte length of a text.
pub open spec fn byte_len(s: Seq<char>) -> nat {
    encode_utf8(s).len()
}

/// Serializes the document for one measurement, exactly as
/// [`payload_chars`] states.
pub fn build_payload(measurement: &Measurement, config: &Config) -> (r: String)
    ensures
        r@ == payload_chars(
            config.data_source@,
            config.database@,
            config.collection@,
            measurement.temperature@,
            measurement.humidity@,
        ),
{
    let mut out = "{\"dataSource\":\"".to_owned();
    let piece = json_escape(config.data_source.as_str());
    out.append(piece.as_str());
    out.append("\",\"database\":\"");
    let piece = json_escape(config.database.as_str());
    out.append(piece.as_str());
    out.append("\",\"collection\":\"");
    let piece = json_escape(config.collection.as_str());
    out.append(piece.as_str());
    out.append("\",\"document\":{\"temperature\":");
    out.append(measurement.temperature.as_str());
    out.append(",\"humidity\":");
    out.append(measurement.humidity.as_str());
    out.append("}}");
    proof {
        assert(out@ =~= payload_chars(
            config.data_source@,
            config.database@,
            config.collection@,
            measurement.temperature@,
            measurement.humidity@,
        ));
    }
    out
}

/// Builds the target URL for the configured application identifier, exactly
/// as [`url_chars`] states.
pub fn build_url(config: &Config) -> (r: String)
    ensures
        r@ == url_chars(config.app_id@),
{
    let mut out = "https://data.mongodb-api.com/app/".to_owned();
    out.append(config.app_id.as_str());
    out.append("/endpoint/data/v1/action/insertOne");
    proof {
        assert(out@ =~= url_chars(config.app_id@));
    }
    out
}

/// The three request headers, in order: the fixed content type, the API key
/// from the configuration, and the content length rendered in decimal.
pub fn build_headers(config: &Config, content_length: u64) -> (r: Vec<(String, String)>)
    ensures
        r@.len() == 3,
        r@[0].0@ == "Content-Type"@ && r@[0].1@ == "application/json"@,
        r@[1].0@ == "api-key"@ && r@[1].1@ == config.api_key@,
        r@[2].0@ == "content-length"@ && r@[2].1@ == dec_chars(content_length as nat),
{
    let mut headers: Vec<(String, String)> = Vec::new();
    headers.push(("Content-Type".to_owned(), "application/json".to_owned()));
    headers.push(("api-key".to_owned(), config.api_key.clone()));
    headers.push(("content-length".to_owned(), u64_to_dec(content_length)));
    headers
}

/// Everything the driver needs to issue the HTTPS POST for one measurement:
/// the URL, the headers, the body, and the body's byte length.
pub struct UploadRequest {
    pub url: String,
    pub headers: Vec<(String, String)>,
    pub body: String,
    pub content_length: u64,
}

/// Assembles the whole request for one measurement.  The body is the exact
/// document of [`payload_chars`]; the `content-length` header carries the
/// exact UTF-8 byte length of that body; the URL is the exact endpoint of
/// [`url_chars`].
pub fn build_request(measurement: &Measurement, config: &Config) -> (r: UploadRequest)
    ensures
        r.body@ == payload_chars(
            config.data_source@,
            config.database@,
            config.collection@,
            measurement.temperature@,
            measurement.humidity@,
        ),
        r.content_length == byte_len(r.body@) as usize as u64,
        byte_len(r.body@) <= usize::MAX ==> r.content_length == byte_len(r.body@),
        r.url@ == url_chars(config.app_id@),
        r.headers@.len() == 3,
        r.headers@[0].0@ == "Content-Type"@ && r.headers@[0].1@ == "application/json"@,
        r.headers@[1].0@ == "api-key"@ && r.headers@[1].1@ == config.api_key@,
        r.headers@[2].0@ == "content-length"@ && r.headers@[2].1@ == dec_chars(
            r.content_length as nat,
        ),
{
    let body = build_payload(measurement, config);
    let content_length = body.as_str().len() as u64;
    let headers = build_headers(config, content_length);
    let url = build_url(config);
    UploadRequest { url, headers, body, content_length }
}

/// The first position at or after `i` that holds `c`; the length of `s`
/// when none does.
pub open spec fn first_at_or_after(s: Seq<char>, c: char, i: int) -> int
    decreases s.len() - i,
    when 0 <= i <= s.len()
{
    if i < s.len() {
        if s[i] == c {
            i
        } else {
            first_at_or_after(s, c, i + 1)
        }
    } else {
        i
    }
}

proof fn lemma_first_at(s: Seq<char>, c: char, i: int, k: int)
    requires
        0 <= i <= k < s.len(),
        s[k] == c,
        forall|j: int| i <= j < k ==> s[j] != c,
    ensures
        first_at_or_after(s, c, i) == k,
    decreases k - i,
{
    if i < k {
        lemma_first_at(s, c, i + 1, k);
    }
}

/// Reads the two measurement texts back out of a serialized document, given
/// the configuration strings the document was built with: after the fixed
/// prefix the temperature text runs to the first comma, and after the
/// `"humidity":` key the humidity text runs to the first closing brace.
pub open spec fn extracted_measurement(
    body: Seq<char>,
    data_source: Seq<char>,
    database: Seq<char>,
    collection: Seq<char>,
) -> Option<(Seq<char>, Seq<char>)> {
    let p = prefix_chars(data_source, database, collection);
    let mid = ",\"humidity\":"@;
    if p.len() <= body.len() && body.take(p.len() as int) == p {
        let tend = first_at_or_after(body, ',', p.len() as int);
        if tend + mid.len() <= body.len() && body.subrange(tend, tend + mid.len()) == mid {
            let hstart = tend + mid.len();
            let hend = first_at_or_after(body, '}', hstart);
            Some((body.subrange(p.len() as int, tend), body.subrange(hstart, hend)))
        } else {
            Option::None
        }
    } else {
        Option::None
    }
}

/// Serialization round-trip: for any measurement texts that obey the JSON
/// number grammar and any configuration strings, reading the document of
/// [`payload_chars`] back with [`extracted_measurement`] returns exactly the
/// texts that went in — the document carries them bit for bit.
pub proof fn lemma_payload_round_trip(
    data_source: Seq<char>,
    database: Seq<char>,
    collection: Seq<char>,
    temperature: Seq<char>,
    humidity: Seq<char>,
)
    requires
        is_json_number(temperature),
        is_json_number(humidity),
    ensures
        extracted_measurement(
            payload_chars(data_source, database, collection, temperature, humidity),
            data_source,
            database,
            collection,
        ) == Some((temperature, humidity)),
{
    reveal_strlit(",\"humidity\":");
    reveal_strlit("}}");
    let p = prefix_chars(data_source, database, collection);
    let mid = ",\"humidity\":"@;
    let suf = "}}"@;
    let body = payload_chars(data_source, database, collection, temperature, humidity);
    assert(mid.len() == 12);
    assert(mid[0] == ',');
    assert(suf[0] == '}');
    lemma_number_chars(temperature);
    lemma_number_chars(humidity);
    assert(body.len() == p.len() + temperature.len() + 12 + humidity.len() + 2);
    assert(body.take(p.len() as int) =~= p);
    let ts = p.len() as int;
    let tend = ts + temperature.len() as int;
    assert(body[tend] == ',');
    assert forall|j: int| ts <= j < tend implies body[j] != ',' by {
        assert(body[j] == temperature[j - ts]);
        assert(is_number_char(temperature[j - ts]));
    }
    lemma_first_at(body, ',', ts, tend);
    assert(body.subrange(ts, tend) =~= temperature);
    assert(body.subrange(tend, tend + 12) =~= mid);
    let hs = tend + 12;
    let hend = hs + humidity.len() as int;
    assert(body[hend] == '}');
    assert forall|j: int| hs <= j < hend implies body[j] != '}' by {
        assert(body[j] == humidity[j - hs]);
        assert(is_number_char(humidity[j - hs]));
    }
    lemma_first_at(body, '}', hs, hend);
    assert(body.subrange(hs, hend) =~= humidity);
}

/// How one HTTPS exchange went, as the driver reports it: the response
/// status when the request was written and a response was read, or a
/// transport-level failure.
#[derive(Clone, Copy, Debug, PartialEq, Eq, Structural)]
pub enum UploadOutcome {
    /// The exchange completed and the server answered with this status.
    Completed { status: u16 },
    /// The connection, the write or the read failed.
    IoFailed,
}

/// The uploader's verdict on one exchange: a completed exchange succeeds
/// whatever the status — a non-2xx status is logged by the caller, never
/// raised as an error — and only a transport-level failure is an error.
pub fn post_outcome(outcome: UploadOutcome) -> (r: Result<u16, Error>)
    ensures
        outcome matches UploadOutcome::Completed { status } ==> r == Ok::<u16, Error>(status),
        outcome is IoFailed ==> r == Err::<u16, Error>(Error::TransportFailure),
{
    match outcome {
        UploadOutcome::Completed { status } => Ok(status),
        UploadOutcome::IoFailed => Err(Error::TransportFailure),
    }
}

} // verus!
