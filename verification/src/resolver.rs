//! Deciding on what the metadata store answered: whether a requested key is
//! an alias that redirects, and which record a lookup yields.

use vstd::prelude::*;
use vstd::string::StringExecFns;
use crate::format::{format_token, language_token, str_equal, Language, PreviewFormat};

verus! {

/// A row of the alias table: `key` is the canonical key that the alias
/// stands for.
#[derive(Clone, Debug)]
pub struct AliasEntry {
    pub key: String,
    pub visible_id: String,
    pub kind: String,
}

/// What the store answered when asked for the alias row of a key.
#[derive(Clone, Debug)]
pub enum AliasLookup {
    /// The row for the requested key.
    Found(AliasEntry),
    /// There is no row for the requested key.
    Missing,
    /// The store failed.
    Failed,
}

/// Where a request for an alias is sent instead.
#[derive(Clone, Debug)]
pub struct RedirectTarget {
    pub key: String,
    pub lang: Language,
    pub format: PreviewFormat,
}

/// A location as the store holds it for one language. Latitude and
/// longitude are in units of 1e-7 degrees.
#[derive(Clone, Debug)]
pub struct LocationRecord {
    pub name: String,
    pub calendar_url: Option<String>,
    /// Seconds since the Unix epoch.
    pub last_calendar_scrape_at: Option<i64>,
    pub kind: String,
    pub kind_display_name: String,
    pub latitude_e7: i64,
    pub longitude_e7: i64,
}

/// What the store answered when asked for the records of a key.
#[derive(Clone, Debug)]
pub enum RecordLookup {
    /// The rows with that key, in the order the store gave them.
    Rows(Vec<LocationRecord>),
    /// The store failed.
    Failed,
}

/// Why a lookup yields no record.
#[derive(Clone, Copy, Debug, PartialEq, Eq, Structural)]
pub enum LookupError {
    /// The selected table has no row with the key.
    NotFound,
    /// The store failed.
    Internal,
}

/// The canonical key a lookup redirects to, if it redirects: the store
/// found a row, and the row's key is not the requested key itself.
pub open spec fn redirect_key(query: Seq<char>, lookup: AliasLookup) -> Option<Seq<char>> {
    match lookup {
        AliasLookup::Found(entry) => if entry.key@ != query {
            Some(entry.key@)
        } else {
            None
        },
        AliasLookup::Missing => None,
        AliasLookup::Failed => None,
    }
}

/// The address of the preview of `key`.
pub open spec fn redirect_url(
    host: Seq<char>,
    key: Seq<char>,
    lang: Language,
    format: PreviewFormat,
) -> Seq<char> {
    "https://"@ + host + "/api/preview/"@ + key + "?lang="@ + language_token(lang) + "&format="@
        + format_token(format)
}

/// Decides whether a request for `query` is redirected. A store failure
/// counts as "no alias": the request then goes on to the direct lookup.
pub fn resolve_alias(query: &str, lookup: AliasLookup, lang: Language, format: PreviewFormat) -> (target:
    Option<RedirectTarget>)
    ensures
        match redirect_key(query@, lookup) {
            Some(key) => target is Some && target->0.key@ == key && target->0.lang == lang
                && target->0.format == format,
            None => target is None,
        },
{
    match lookup {
        AliasLookup::Found(entry) => {
            if str_equal(entry.key.as_str(), query) {
                None
            } else {
                Some(RedirectTarget { key: entry.key, lang, format })
            }
        },
        AliasLookup::Missing => None,
        AliasLookup::Failed => None,
    }
}

impl RedirectTarget {
    /// The address to redirect to on `host`; language and format of the
    /// request are kept.
    pub fn url(&self, host: &str) -> (url: String)
        ensures
            url@ == redirect_url(host@, self.key@, self.lang, self.format),
    {
        let mut url = String::from_str("https://");
        url.append(host);
        url.append("/api/preview/");
        url.append(self.key.as_str());
        url.append("?lang=");
        url.append(self.lang.serialise().as_str());
        url.append("&format=");
        url.append(self.format.serialise().as_str());
        url
    }
}

/// The name of the table that holds the records of a language.
pub open spec fn table_name(use_english: bool) -> Seq<char> {
    if use_english {
        "en"@
    } else {
        "de"@
    }
}

/// The table to read records from.
pub fn record_table(use_english: bool) -> (table: String)
    ensures
        table@ == table_name(use_english),
{
    if use_english {
        String::from_str("en")
    } else {
        String::from_str("de")
    }
}

/// The record a lookup yields: the first row; `NotFound` when there is no
/// row; `Internal` when the store failed.
pub open spec fn selected(lookup: RecordLookup) -> Result<LocationRecord, LookupError> {
    match lookup {
        RecordLookup::Rows(rows) => if rows@.len() == 0 {
            Err(LookupError::NotFound)
        } else {
            Ok(rows@[0])
        },
        RecordLookup::Failed => Err(LookupError::Internal),
    }
}

/// Picks the record of a lookup. More than one row is not an error: the
/// first one is taken.
pub fn select_record(lookup: RecordLookup) -> (r: Result<LocationRecord, LookupError>)
    ensures
        r == selected(lookup),
{
    match lookup {
        RecordLookup::Rows(rows) => {
            let mut rows = rows;
            if rows.len() == 0 {
                Err(LookupError::NotFound)
            } else {
                Ok(rows.remove(0))
            }
        },
        RecordLookup::Failed => Err(LookupError::Internal),
    }
}

} // verus!
