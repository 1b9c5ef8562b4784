//! Rendering options of a preview request and their wire tokens.

use vstd::prelude::*;
use vstd::string::StringExecFns;

verus! {

/// Canvas shape of a preview.
#[derive(Clone, Copy, Debug, PartialEq, Eq, Structural)]
pub enum PreviewFormat {
    /// 1200 x 630, the shape link previews use.
    OpenGraph,
    /// 1200 x 1200.
    Square,
}

/// Language a record is looked up and labelled in.
#[derive(Clone, Copy, Debug, PartialEq, Eq, Structural)]
pub enum Language {
    De,
    En,
}

/// Width in pixels of every preview.
pub const PREVIEW_WIDTH: u32 = 1200;

/// Height in pixels of an open-graph preview.
pub const OPEN_GRAPH_HEIGHT: u32 = 630;

/// Height in pixels of a square preview.
pub const SQUARE_HEIGHT: u32 = 1200;

/// The token of a format in query strings and redirect URLs.
pub open spec fn format_token(format: PreviewFormat) -> Seq<char> {
    match format {
        PreviewFormat::OpenGraph => "open_graph"@,
        PreviewFormat::Square => "square"@,
    }
}

/// The format a token names, if it names one.
pub open spec fn format_of_token(token: Seq<char>) -> Option<PreviewFormat> {
    if token == "open_graph"@ {
        Some(PreviewFormat::OpenGraph)
    } else if token == "square"@ {
        Some(PreviewFormat::Square)
    } else {
        None
    }
}

/// The token of a language in query strings and redirect URLs.
pub open spec fn language_token(lang: Language) -> Seq<char> {
    match lang {
        Language::De => "de"@,
        Language::En => "en"@,
    }
}

/// The language a token names, if it names one.
pub open spec fn language_of_token(token: Seq<char>) -> Option<Language> {
    if token == "de"@ {
        Some(Language::De)
    } else if token == "en"@ {
        Some(Language::En)
    } else {
        None
    }
}

/// The four tokens are pairwise different.
pub proof fn lemma_tokens_distinct()
    ensures
        "open_graph"@ != "square"@,
        "de"@ != "en"@,
        "open_graph"@.len() == 10,
        "square"@.len() == 6,
        "de"@.len() == 2,
        "en"@.len() == 2,
{
    reveal_strlit("open_graph");
    reveal_strlit("square");
    reveal_strlit("de");
    reveal_strlit("en");
    assert("open_graph"@.len() == 10);
    assert("square"@.len() == 6);
    assert("de"@[0] == 'd');
    assert("en"@[0] == 'e');
}

impl PreviewFormat {
    /// Canvas width of the format.
    pub open spec fn spec_width(self) -> nat {
        PREVIEW_WIDTH as nat
    }

    /// Canvas height of the format.
    pub open spec fn spec_height(self) -> nat {
        match self {
            PreviewFormat::OpenGraph => OPEN_GRAPH_HEIGHT as nat,
            PreviewFormat::Square => SQUARE_HEIGHT as nat,
        }
    }

    /// Canvas width in pixels.
    pub fn width(&self) -> (w: u32)
        ensures
            w == self.spec_width(),
            w == 1200,
    {
        PREVIEW_WIDTH
    }

    /// Canvas height in pixels.
    pub fn height(&self) -> (h: u32)
        ensures
            h == self.spec_height(),
            *self == PreviewFormat::OpenGraph ==> h == 630,
            *self == PreviewFormat::Square ==> h == 1200,
    {
        match self {
            PreviewFormat::OpenGraph => OPEN_GRAPH_HEIGHT,
            PreviewFormat::Square => SQUARE_HEIGHT,
        }
    }

    /// The token written into URLs for this format.
    pub fn serialise(&self) -> (token: String)
        ensures
            token@ == format_token(*self),
    {
        match self {
            PreviewFormat::OpenGraph => String::from_str("open_graph"),
            PreviewFormat::Square => String::from_str("square"),
        }
    }

    /// Reads a format token; anything but the two tokens is rejected.
    pub fn parse(token: &str) -> (format: Option<PreviewFormat>)
        ensures
            format == format_of_token(token@),
    {
        if str_equal(token, "open_graph") {
            Some(PreviewFormat::OpenGraph)
        } else if str_equal(token, "square") {
            Some(PreviewFormat::Square)
        } else {
            None
        }
    }
}

impl Default for PreviewFormat {
    /// A request that names no format gets the open-graph shape.
    fn default() -> (format: PreviewFormat)
        ensures
            format == PreviewFormat::OpenGraph,
    {
        PreviewFormat::OpenGraph
    }
}

impl Language {
    /// The token written into URLs for this language.
    pub fn serialise(&self) -> (token: String)
        ensures
            token@ == language_token(*self),
    {
        match self {
            Language::De => String::from_str("de"),
            Language::En => String::from_str("en"),
        }
    }

    /// Reads a language token; anything but the two tokens is rejected.
    pub fn parse(token: &str) -> (lang: Option<Language>)
        ensures
            lang == language_of_token(token@),
    {
        if str_equal(token, "de") {
            Some(Language::De)
        } else if str_equal(token, "en") {
            Some(Language::En)
        } else {
            None
        }
    }

    /// Whether records are read from the English table.
    pub fn should_use_english(&self) -> (english: bool)
        ensures
            english == (*self == Language::En),
    {
        match self {
            Language::De => false,
            Language::En => true,
        }
    }
}

impl Default for Language {
    /// A request that names no language is answered in German.
    fn default() -> (lang: Language)
        ensures
            lang == Language::De,
    {
        Language::De
    }
}

/// Whether two strings hold the same characters.
pub fn str_equal(a: &str, b: &str) -> (same: bool)
    ensures
        same == (a@ == b@),
{
    let n = a.unicode_len();
    if n != b.unicode_len() {
        return false;
    }
    let mut i: usize = 0;
    while i < n
        invariant
            i <= n,
            n == a@.len(),
            n == b@.len(),
            forall|j: int| 0 <= j < i ==> a@[j] == b@[j],
        decreases n - i,
    {
        if a.get_char(i) != b.get_char(i) {
            return false;
        }
        i += 1;
    }
    assert(a@ =~= b@);
    true
}

/// Reading a written format token gives the format back.
pub proof fn lemma_format_round_trip(format: PreviewFormat)
    ensures
        format_of_token(format_token(format)) == Some(format),
{
    lemma_tokens_distinct();
}

/// Reading a written language token gives the language back.
pub proof fn lemma_language_round_trip(lang: Language)
    ensures
        language_of_token(language_token(lang)) == Some(lang),
{
    lemma_tokens_distinct();
}

} // verus!
