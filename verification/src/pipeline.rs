//! The course of one request: alias, record, picture, answer.
//!
//! The host does the outside work (store queries, tile downloads, text
//! rasterising) and reports each result as an event; `advance` decides what
//! the request has come to.

use vstd::prelude::*;
use vstd::string::{StrSliceExecFns, StringExecFns, StringSliceAdditionalSpecFns};
use crate::canvas::{encoded_png, Canvas};
use crate::compose::FetchError;
use crate::format::{Language, PreviewFormat};
use crate::render::encode_preview;
use crate::resolver::{
    redirect_key, redirect_url, resolve_alias, select_record, selected, AliasEntry, AliasLookup,
    LocationRecord, LookupError, RecordLookup,
};
use crate::text::{normalize_id, normalized};

verus! {

/// Where a request stands.
#[derive(Debug)]
pub enum Stage {
    /// The alias of `id` is being looked up.
    Start { id: String, lang: Language, format: PreviewFormat },
    /// `id` is no alias; its record is being looked up.
    Lookup { id: String, lang: Language, format: PreviewFormat },
    /// The record is there; the picture is being rendered.
    Render { record: LocationRecord, format: PreviewFormat },
    /// Ended: the request is sent on to `url`.
    Redirected { url: String },
    /// Ended: there is no picture, for this reason.
    Failed { error: LookupError },
    /// Ended: rendering failed and the default image is sent.
    FallbackImage { body: Vec<u8> },
    /// Ended: the rendered picture is sent.
    Rendered { body: Vec<u8> },
}

/// What the host reports.
#[derive(Debug)]
pub enum Event {
    /// The alias table's answer.
    Alias(AliasLookup),
    /// The language table's answer.
    Record(RecordLookup),
    /// The rendered PNG file, or `None` if composing, drawing or encoding
    /// failed.
    Image(Option<Vec<u8>>),
}

/// What the host does at a stage.
#[derive(Debug)]
pub enum Action {
    /// Ask the alias table for `id`.
    LookupAlias { id: String },
    /// Ask the German or the English table for `id`.
    FetchRecord { id: String, use_english: bool },
    /// Fetch the tiles and render the picture of `record`.
    RenderImage,
    /// Send the answer.
    Respond(Response),
}

/// An answer, in plain values.
#[derive(Debug)]
pub struct Response {
    pub status: u16,
    /// `Content-Type`, if the answer has a body.
    pub content_type: Option<String>,
    /// `Location`, if the answer redirects.
    pub location: Option<String>,
    pub body: Vec<u8>,
}

impl Stage {
    /// Whether the request has ended.
    pub open spec fn is_final(self) -> bool {
        self is Redirected || self is Failed || self is FallbackImage || self is Rendered
    }
}

/// Whether `next` is the stage that follows `stage` on `event`.
///
/// An alias that names another key ends the request with a redirect to
/// that key's preview; any other alias answer, a store failure included,
/// leads on to the record. No row, or a store failure, ends the request
/// without a picture; else the first row is rendered. A rendered file ends
/// the request with that file, a failed rendering with the default image.
/// An event that the stage does not wait for changes nothing.
pub open spec fn follows(
    stage: Stage,
    event: Event,
    host: Seq<char>,
    default_image: Seq<u8>,
    next: Stage,
) -> bool {
    match (stage, event) {
        (Stage::Start { id, lang, format }, Event::Alias(lookup)) => match redirect_key(
            id@,
            lookup,
        ) {
            Some(key) => next matches Stage::Redirected { url } && url@ == redirect_url(
                host,
                key,
                lang,
                format,
            ),
            None => next == (Stage::Lookup { id, lang, format }),
        },
        (Stage::Lookup { id, lang, format }, Event::Record(lookup)) => match selected(lookup) {
            Ok(record) => next == (Stage::Render { record, format }),
            Err(error) => next == (Stage::Failed { error }),
        },
        (Stage::Render { record, format }, Event::Image(Some(body))) => next == (Stage::Rendered {
            body,
        }),
        (Stage::Render { record, format }, Event::Image(None)) => next matches Stage::FallbackImage {
            body,
        } && body@ == default_image,
        _ => next == stage,
    }
}

/// The stage a request starts in: the identifier is cleaned of white
/// space and control characters before anything is looked up.
pub fn begin(raw_id: &str, lang: Language, format: PreviewFormat) -> (stage: Stage)
    ensures
        stage matches Stage::Start { id, lang: l, format: f } && id@ == normalized(raw_id@) && l
            == lang && f == format,
{
    Stage::Start { id: normalize_id(raw_id), lang, format }
}

/// Moves a request on by one event.
pub fn advance(stage: Stage, event: Event, host: &str, default_image: &Vec<u8>) -> (next: Stage)
    ensures
        follows(stage, event, host@, default_image@, next),
        stage.is_final() ==> next == stage,
{
    match stage {
        Stage::Start { id, lang, format } => match event {
            Event::Alias(lookup) => match resolve_alias(id.as_str(), lookup, lang, format) {
                Some(target) => Stage::Redirected { url: target.url(host) },
                None => Stage::Lookup { id, lang, format },
            },
            other => Stage::Start { id, lang, format },
        },
        Stage::Lookup { id, lang, format } => match event {
            Event::Record(lookup) => match select_record(lookup) {
                Ok(record) => Stage::Render { record, format },
                Err(error) => Stage::Failed { error },
            },
            other => Stage::Lookup { id, lang, format },
        },
        Stage::Render { record, format } => match event {
            Event::Image(Some(body)) => Stage::Rendered { body },
            Event::Image(None) => Stage::FallbackImage { body: default_image.clone() },
            other => Stage::Render { record, format },
        },
        done => done,
    }
}

/// Status of a permanent redirect that keeps the request method.
pub const STATUS_PERMANENT_REDIRECT: u16 = 308;

/// Status of an answer with a picture.
pub const STATUS_OK: u16 = 200;

/// Status when there is no record.
pub const STATUS_NOT_FOUND: u16 = 404;

/// Status when the store failed.
pub const STATUS_INTERNAL: u16 = 500;

/// Whether `response` is the answer of a request that ended in `stage`.
/// Error bodies are plain text and say nothing of the cause.
pub open spec fn answers(stage: Stage, response: Response) -> bool {
    match stage {
        Stage::Redirected { url } => {
            &&& response.status == STATUS_PERMANENT_REDIRECT
            &&& response.location matches Some(to) && to@ == url@
            &&& response.content_type is None
            &&& response.body@.len() == 0
        },
        Stage::Failed { error: LookupError::NotFound } => {
            &&& response.status == STATUS_NOT_FOUND
            &&& response.location is None
            &&& response.content_type matches Some(kind) && kind@ == "text/plain"@
            &&& response.body@ == "Not found".spec_bytes()
        },
        Stage::Failed { error: LookupError::Internal } => {
            &&& response.status == STATUS_INTERNAL
            &&& response.location is None
            &&& response.content_type matches Some(kind) && kind@ == "text/plain"@
            &&& response.body@ == "Internal Server Error".spec_bytes()
        },
        Stage::FallbackImage { body } => {
            &&& response.status == STATUS_OK
            &&& response.location is None
            &&& response.content_type matches Some(kind) && kind@ == "image/png"@
            &&& response.body@ == body@
        },
        Stage::Rendered { body } => {
            &&& response.status == STATUS_OK
            &&& response.location is None
            &&& response.content_type matches Some(kind) && kind@ == "image/png"@
            &&& response.body@ == body@
        },
        _ => false,
    }
}

/// The answer of an ended request; `None` while the request is under way.
pub fn respond(stage: &Stage) -> (response: Option<Response>)
    ensures
        response is Some <==> stage.is_final(),
        response is Some ==> answers(*stage, response->0),
{
    match stage {
        Stage::Redirected { url } => Some(
            Response {
                status: STATUS_PERMANENT_REDIRECT,
                content_type: None,
                location: Some(url.clone()),
                body: Vec::new(),
            },
        ),
        Stage::Failed { error } => match error {
            LookupError::NotFound => Some(
                Response {
                    status: STATUS_NOT_FOUND,
                    content_type: Some(String::from_str("text/plain")),
                    location: None,
                    body: "Not found".as_bytes_vec(),
                },
            ),
            LookupError::Internal => Some(
                Response {
                    status: STATUS_INTERNAL,
                    content_type: Some(String::from_str("text/plain")),
                    location: None,
                    body: "Internal Server Error".as_bytes_vec(),
                },
            ),
        },
        Stage::FallbackImage { body } => Some(
            Response {
                status: STATUS_OK,
                content_type: Some(String::from_str("image/png")),
                location: None,
                body: body.clone(),
            },
        ),
        Stage::Rendered { body } => Some(
            Response {
                status: STATUS_OK,
                content_type: Some(String::from_str("image/png")),
                location: None,
                body: body.clone(),
            },
        ),
        _ => None,
    }
}

/// What the host does at a stage: the outside work the stage waits for,
/// or sending the answer.
pub fn next_action(stage: &Stage) -> (action: Action)
    ensures
        match *stage {
            Stage::Start { id, lang, format } => action matches Action::LookupAlias { id: asked }
                && asked@ == id@,
            Stage::Lookup { id, lang, format } => action matches Action::FetchRecord {
                id: asked,
                use_english,
            } && asked@ == id@ && use_english == (lang == Language::En),
            Stage::Render { record, format } => action is RenderImage,
            _ => action matches Action::Respond(response) && answers(*stage, response),
        },
{
    match stage {
        Stage::Start { id, lang, format } => Action::LookupAlias { id: id.clone() },
        Stage::Lookup { id, lang, format } => Action::FetchRecord {
            id: id.clone(),
            use_english: lang.should_use_english(),
        },
        Stage::Render { record, format } => Action::RenderImage,
        _ => match respond(stage) {
            Some(response) => Action::Respond(response),
            None => Action::RenderImage,
        },
    }
}

/// The event that reports a rendering. `drawn` is the canvas with the text
/// on it, or the fault that stopped the rendering. A canvas that has a PNG
/// file is reported with that file; a fault, or a canvas without one, is
/// reported as a failed rendering.
pub fn image_event(drawn: Result<Canvas, FetchError>) -> (event: Event)
    ensures
        match drawn {
            Ok(canvas) => match encoded_png(canvas@) {
                Some(bytes) => event matches Event::Image(Some(body)) && body@ == bytes,
                None => event == Event::Image(None),
            },
            Err(_) => event == Event::Image(None),
        },
{
    match drawn {
        Ok(canvas) => Event::Image(encode_preview(&canvas)),
        Err(_) => Event::Image(None),
    }
}

/// A request for an alias of another key ends with a permanent redirect to
/// that key's preview, with the language and format of the request. A row
/// that names the requested key itself redirects nowhere: the request goes
/// on to the record.
pub proof fn lemma_alias_redirect(
    id: String,
    lang: Language,
    format: PreviewFormat,
    entry: AliasEntry,
    host: Seq<char>,
    default_image: Seq<u8>,
    next: Stage,
    response: Response,
)
    requires
        follows(
            Stage::Start { id, lang, format },
            Event::Alias(AliasLookup::Found(entry)),
            host,
            default_image,
            next,
        ),
        next.is_final() ==> answers(next, response),
    ensures
        entry.key@ != id@ ==> {
            &&& next matches Stage::Redirected { url }
            &&& url@ == redirect_url(host, entry.key@, lang, format)
            &&& response.status == 308
            &&& response.location matches Some(to)
            &&& to@ == redirect_url(host, entry.key@, lang, format)
        },
        entry.key@ == id@ ==> next == (Stage::Lookup { id, lang, format }),
{
}

/// A request for a key that is no alias and has no record ends with the
/// not-found answer, which carries plain text and no picture.
pub proof fn lemma_unknown_key(
    id: String,
    lang: Language,
    format: PreviewFormat,
    rows: Vec<LocationRecord>,
    host: Seq<char>,
    default_image: Seq<u8>,
    second: Stage,
    third: Stage,
    response: Response,
)
    requires
        rows@.len() == 0,
        follows(
            Stage::Start { id, lang, format },
            Event::Alias(AliasLookup::Missing),
            host,
            default_image,
            second,
        ),
        follows(second, Event::Record(RecordLookup::Rows(rows)), host, default_image, third),
        answers(third, response),
    ensures
        second == (Stage::Lookup { id, lang, format }),
        third == (Stage::Failed { error: LookupError::NotFound }),
        response.status == 404,
        response.content_type matches Some(kind) && kind@ == "text/plain"@,
        response.body@ == "Not found".spec_bytes(),
{
}

/// When the rendering of a found record fails, the request ends with the
/// default image, sent as a picture with the status of success.
pub proof fn lemma_fallback(
    record: LocationRecord,
    format: PreviewFormat,
    host: Seq<char>,
    default_image: Seq<u8>,
    next: Stage,
    response: Response,
)
    requires
        follows(Stage::Render { record, format }, Event::Image(None), host, default_image, next),
        answers(next, response),
    ensures
        next is FallbackImage,
        response.status == 200,
        response.content_type matches Some(kind) && kind@ == "image/png"@,
        response.body@ == default_image,
{
}

/// Once a request has ended, no event moves it.
pub proof fn lemma_final_stays(
    stage: Stage,
    event: Event,
    host: Seq<char>,
    default_image: Seq<u8>,
    next: Stage,
)
    requires
        stage.is_final(),
        follows(stage, event, host, default_image, next),
    ensures
        next == stage,
{
}

} // verus!
