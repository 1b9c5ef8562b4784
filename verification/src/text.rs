//! Text rules: cleaning a requested identifier and cutting the footer title.

use vstd::prelude::*;
use vstd::string::StringExecFns;
use unicode_segmentation::UnicodeSegmentation;

verus! {

/// Number of characters from which on a name is cut for the footer, and
/// the largest number of characters that remain before the ellipsis.
pub const TITLE_LIMIT: usize = 45;

/// Whether `c` is white space: one of the 25 characters that Unicode gives
/// the property `White_Space`.
pub open spec fn whitespace(c: char) -> bool {
    let u = c as u32;
    ||| 0x09 <= u <= 0x0d
    ||| u == 0x20
    ||| u == 0x85
    ||| u == 0xa0
    ||| u == 0x1680
    ||| 0x2000 <= u <= 0x200a
    ||| u == 0x2028
    ||| u == 0x2029
    ||| u == 0x202f
    ||| u == 0x205f
    ||| u == 0x3000
}

/// Whether `c` is a control character: U+0000 to U+001F and U+007F to
/// U+009F, Unicode's category `Cc`.
pub open spec fn control(c: char) -> bool {
    let u = c as u32;
    u <= 0x1f || 0x7f <= u <= 0x9f
}

/// The extended grapheme clusters of a text, in order, as the crate
/// `unicode-segmentation` splits it.
pub uninterp spec fn grapheme_clusters(s: Seq<char>) -> Seq<Seq<char>>;

/// `char::is_whitespace`: true exactly for the characters with the Unicode
/// property `White_Space`, which `whitespace` lists.
#[verifier::external_body]
fn is_whitespace(c: char) -> (b: bool)
    ensures
        b == whitespace(c),
{
    c.is_whitespace()
}

/// `char::is_control`: true exactly for the characters of the Unicode
/// category `Cc`, which `control` lists.
#[verifier::external_body]
fn is_control(c: char) -> (b: bool)
    ensures
        b == control(c),
{
    c.is_control()
}

/// `String::from_iter` over the characters of a vector: the string that
/// holds exactly those characters in that order.
#[verifier::external_body]
pub(crate) fn string_from_chars(chars: &Vec<char>) -> (s: String)
    ensures
        s@ == chars@,
{
    String::from_iter(chars.iter())
}

/// Whether every character is printable ASCII, U+0020 to U+007E.
pub open spec fn plain_ascii(s: Seq<char>) -> bool {
    forall|i: int| 0 <= i < s.len() ==> ' ' <= #[trigger] s[i] <= '~'
}

/// The texts of a list of strings.
pub open spec fn texts_of(parts: Seq<String>) -> Seq<Seq<char>> {
    Seq::new(parts.len(), |i: int| parts[i]@)
}

/// Number of characters in the first `k` clusters.
pub open spec fn chars_in(clusters: Seq<Seq<char>>, k: int) -> int
    decreases k,
{
    if k <= 0 {
        0
    } else {
        chars_in(clusters, k - 1) + clusters[k - 1].len()
    }
}

/// The first `k` clusters, joined.
pub open spec fn text_of(clusters: Seq<Seq<char>>, k: int) -> Seq<char>
    decreases k,
{
    if k <= 0 {
        Seq::empty()
    } else {
        text_of(clusters, k - 1) + clusters[k - 1]
    }
}

/// Whether `clusters` splits `s`: none of them is empty, and joined in
/// order they give `s`.
pub open spec fn splits(clusters: Seq<Seq<char>>, s: Seq<char>) -> bool {
    &&& forall|i: int| 0 <= i < clusters.len() ==> (#[trigger] clusters[i]).len() >= 1
    &&& text_of(clusters, clusters.len() as int) == s
}

/// `UnicodeSegmentation::graphemes` with extended clusters, each cluster
/// copied into a string. The crate hands out consecutive non-empty slices
/// of the text, from its start to its end. Between two printable ASCII
/// characters it always breaks, so in a text made only of those every
/// cluster is one character.
#[verifier::external_body]
fn split_graphemes(s: &str) -> (clusters: Vec<String>)
    ensures
        texts_of(clusters@) == grapheme_clusters(s@),
        splits(texts_of(clusters@), s@),
        plain_ascii(s@) ==> forall|i: int|
            0 <= i < clusters@.len() ==> (#[trigger] clusters@[i])@.len() == 1,
{
    s.graphemes(true).map(String::from).collect()
}

/// Whether a character of a requested identifier is kept.
pub open spec fn kept(c: char) -> bool {
    !whitespace(c) && !control(c)
}

/// A requested identifier without its white space and control characters.
pub open spec fn normalized(raw: Seq<char>) -> Seq<char> {
    raw.filter(|c: char| kept(c))
}

/// Strips white space and control characters from a requested identifier.
pub fn normalize_id(raw: &str) -> (id: String)
    ensures
        id@ == normalized(raw@),
{
    let mut out: Vec<char> = Vec::new();
    proof {
        reveal(Seq::filter);
        assert(raw@.take(0) =~= Seq::<char>::empty());
    }
    for c in it: raw.chars()
        invariant
            it.seq() == raw@,
            out@ == normalized(raw@.take(it.index() as int)),
    {
        proof {
            reveal(Seq::filter);
            let next = raw@.take(it.index() + 1);
            assert(next.drop_last() =~= raw@.take(it.index() as int));
            assert(next.last() == c);
        }
        let drop = is_whitespace(c) || is_control(c);
        if !drop {
            out.push(c);
        }
    }
    proof {
        assert(raw@.take(raw@.len() as int) =~= raw@);
    }
    string_from_chars(&out)
}

/// An identifier that holds no white space and no control character is
/// left as it is.
pub proof fn lemma_clean_id_unchanged(raw: Seq<char>)
    requires
        forall|i: int| 0 <= i < raw.len() ==> kept(#[trigger] raw[i]),
    ensures
        normalized(raw) == raw,
    decreases raw.len(),
{
    reveal(Seq::filter);
    if raw.len() > 0 {
        lemma_clean_id_unchanged(raw.drop_last());
        assert(raw.drop_last().push(raw.last()) =~= raw);
    }
}

/// How many whole clusters fit into `limit` characters, counting on from
/// `k` clusters that fit.
pub open spec fn fitting(clusters: Seq<Seq<char>>, limit: int, k: int) -> int
    decreases clusters.len() - k,
{
    if 0 <= k < clusters.len() && chars_in(clusters, k + 1) <= limit {
        fitting(clusters, limit, k + 1)
    } else {
        k
    }
}

/// The largest cluster boundary that is not beyond `limit` characters, as
/// a number of characters from the start.
pub open spec fn cut_point(clusters: Seq<Seq<char>>, limit: int) -> int {
    chars_in(clusters, fitting(clusters, limit, 0))
}

/// The joined clusters have as many characters as the clusters together.
pub proof fn lemma_text_len(clusters: Seq<Seq<char>>, k: int)
    requires
        0 <= k <= clusters.len(),
    ensures
        text_of(clusters, k).len() == chars_in(clusters, k),
        chars_in(clusters, k) >= 0,
    decreases k,
{
    if k > 0 {
        lemma_text_len(clusters, k - 1);
    }
}

/// More clusters hold no fewer characters, and the text of fewer clusters
/// starts the text of more.
pub proof fn lemma_text_grows(clusters: Seq<Seq<char>>, j: int, k: int)
    requires
        0 <= j <= k <= clusters.len(),
    ensures
        chars_in(clusters, j) <= chars_in(clusters, k),
        text_of(clusters, j) == text_of(clusters, k).take(chars_in(clusters, j)),
    decreases k - j,
{
    lemma_text_len(clusters, j);
    if j == k {
        assert(text_of(clusters, k).take(chars_in(clusters, j)) =~= text_of(clusters, j));
    } else {
        lemma_text_grows(clusters, j, k - 1);
        lemma_text_len(clusters, k - 1);
        assert(text_of(clusters, k).take(chars_in(clusters, j)) =~= text_of(clusters, k - 1).take(
            chars_in(clusters, j),
        ));
    }
}

/// The clusters counted by `fitting` fit, and one more does not.
pub proof fn lemma_fitting(clusters: Seq<Seq<char>>, limit: int, k: int)
    requires
        0 <= k <= clusters.len(),
        chars_in(clusters, k) <= limit,
    ensures
        k <= fitting(clusters, limit, k) <= clusters.len(),
        chars_in(clusters, fitting(clusters, limit, k)) <= limit,
        fitting(clusters, limit, k) == clusters.len() || chars_in(
            clusters,
            fitting(clusters, limit, k) + 1,
        ) > limit,
    decreases clusters.len() - k,
{
    if k < clusters.len() && chars_in(clusters, k + 1) <= limit {
        lemma_fitting(clusters, limit, k + 1);
    }
}

/// The cut is a cluster boundary not beyond the limit, and no cluster
/// boundary between it and the limit was passed over.
pub proof fn lemma_cut_is_largest(clusters: Seq<Seq<char>>, limit: int, j: int)
    requires
        limit >= 0,
        0 <= j <= clusters.len(),
        chars_in(clusters, j) <= limit,
    ensures
        0 <= cut_point(clusters, limit) <= limit,
        chars_in(clusters, j) <= cut_point(clusters, limit),
{
    lemma_fitting(clusters, limit, 0);
    let k = fitting(clusters, limit, 0);
    lemma_text_len(clusters, k);
    if j <= k {
        lemma_text_grows(clusters, j, k);
    } else {
        lemma_text_grows(clusters, k + 1, j);
    }
}

/// Where each of the first `limit` clusters is one character, the cut
/// falls after exactly `limit` characters.
pub proof fn lemma_single_clusters(clusters: Seq<Seq<char>>, limit: int)
    requires
        0 <= limit <= clusters.len(),
        forall|i: int| 0 <= i < limit ==> (#[trigger] clusters[i]).len() == 1,
        forall|i: int| 0 <= i < clusters.len() ==> (#[trigger] clusters[i]).len() >= 1,
    ensures
        cut_point(clusters, limit) == limit,
{
    lemma_count_singles(clusters, limit, limit);
    let k = fitting(clusters, limit, 0);
    lemma_fitting(clusters, limit, 0);
    if k < limit {
        lemma_count_singles(clusters, limit, k + 1);
    } else if k > limit {
        lemma_text_grows(clusters, limit + 1, k);
        assert(chars_in(clusters, limit + 1) == chars_in(clusters, limit) + clusters[limit].len());
    }
}

/// Clusters of one character each hold as many characters as there are
/// clusters.
pub proof fn lemma_count_singles(clusters: Seq<Seq<char>>, limit: int, k: int)
    requires
        0 <= k <= limit <= clusters.len(),
        forall|i: int| 0 <= i < limit ==> (#[trigger] clusters[i]).len() == 1,
    ensures
        chars_in(clusters, k) == k,
    decreases k,
{
    if k > 0 {
        lemma_count_singles(clusters, limit, k - 1);
    }
}

/// The number of characters before the cut: the largest cluster boundary
/// that is not beyond `limit` characters.
pub fn cut_at(clusters: &Vec<String>, limit: usize) -> (cut: usize)
    ensures
        cut == cut_point(texts_of(clusters@), limit as int),
        cut <= limit,
{
    let ghost texts = texts_of(clusters@);
    let mut k: usize = 0;
    let mut total: usize = 0;
    while k < clusters.len()
        invariant
            texts == texts_of(clusters@),
            k <= clusters@.len(),
            total == chars_in(texts, k as int),
            total <= limit,
            fitting(texts, limit as int, 0) == fitting(texts, limit as int, k as int),
        decreases clusters@.len() - k,
    {
        let len = clusters[k].as_str().unicode_len();
        assert(texts[k as int] == clusters@[k as int]@);
        if len > limit - total {
            return total;
        }
        total = total + len;
        k += 1;
    }
    total
}

/// Whether `cut` is where a name is cut: a boundary between two of its
/// clusters, or its start or end, not beyond `limit` characters, with the
/// next boundary beyond them.
pub open spec fn is_cut(name: Seq<char>, clusters: Seq<Seq<char>>, limit: int, cut: int) -> bool {
    exists|k: int|
        {
            &&& 0 <= k <= clusters.len()
            &&& #[trigger] chars_in(clusters, k) == cut
            &&& 0 <= cut <= limit
            &&& cut <= name.len()
            &&& text_of(clusters, k) == name.take(cut)
            &&& (k == clusters.len() || chars_in(clusters, k + 1) > limit)
        }
}

/// The footer title of a name: the name itself while it has fewer than 45
/// characters; else its first 45 characters, cut back to the nearest
/// boundary between grapheme clusters, followed by three full stops.
pub open spec fn title_of(name: Seq<char>) -> Seq<char> {
    if name.len() >= TITLE_LIMIT {
        name.take(cut_point(grapheme_clusters(name), TITLE_LIMIT as int)) + "..."@
    } else {
        name
    }
}

/// Nothing behind the 45th character reaches the title: two long names
/// with the same first 45 characters and the same cut have the same
/// title. The cut itself can differ, since whether the 45th character ends
/// a cluster depends on the character that follows it.
pub proof fn lemma_title_from_head(a: Seq<char>, b: Seq<char>)
    requires
        a.len() >= TITLE_LIMIT,
        b.len() >= TITLE_LIMIT,
        a.take(TITLE_LIMIT as int) == b.take(TITLE_LIMIT as int),
        cut_point(grapheme_clusters(a), TITLE_LIMIT as int) == cut_point(
            grapheme_clusters(b),
            TITLE_LIMIT as int,
        ),
    ensures
        title_of(a) == title_of(b),
{
    let cut = cut_point(grapheme_clusters(a), TITLE_LIMIT as int);
    lemma_cut_is_largest(grapheme_clusters(a), TITLE_LIMIT as int, 0);
    assert(a.take(cut) =~= a.take(TITLE_LIMIT as int).take(cut));
    assert(b.take(cut) =~= b.take(TITLE_LIMIT as int).take(cut));
}

/// Marks a cut name as cut: three full stops are put behind it.
pub fn mark_cut(prefix: String) -> (title: String)
    ensures
        title@ == prefix@ + "..."@,
{
    prefix.concat("...")
}

/// The title drawn in the footer for a location name. A name of fewer
/// than 45 characters is drawn as it is. A longer one keeps its first 45
/// characters and gets an ellipsis; where the 45th character is inside a
/// grapheme cluster, the whole cluster is left out. Characters are counted
/// one each, whatever their bytes or width.
pub fn footer_title(name: &str) -> (title: String)
    ensures
        title@ == title_of(name@),
        name@.len() < TITLE_LIMIT ==> title@ == name@,
        name@.len() >= TITLE_LIMIT ==> {
            let clusters = grapheme_clusters(name@);
            let cut = cut_point(clusters, TITLE_LIMIT as int);
            &&& splits(clusters, name@)
            &&& is_cut(name@, clusters, TITLE_LIMIT as int, cut)
            &&& title@ == name@.take(TITLE_LIMIT as int).take(cut) + "..."@
            &&& (clusters.len() >= TITLE_LIMIT && (forall|i: int|
                0 <= i < TITLE_LIMIT ==> (#[trigger] clusters[i]).len() == 1) ==> cut
                == TITLE_LIMIT)
        },
        name@.len() >= TITLE_LIMIT && plain_ascii(name@) ==> title@ == name@.take(
            TITLE_LIMIT as int,
        ) + "..."@,
{
    if name.unicode_len() >= TITLE_LIMIT {
        let clusters = split_graphemes(name);
        let cut = cut_at(&clusters, TITLE_LIMIT);
        proof {
            let texts = texts_of(clusters@);
            let k = fitting(texts, TITLE_LIMIT as int, 0);
            lemma_fitting(texts, TITLE_LIMIT as int, 0);
            lemma_text_grows(texts, k, texts.len() as int);
            lemma_text_len(texts, texts.len() as int);
            lemma_text_len(texts, k);
            assert(name@.take(TITLE_LIMIT as int).take(cut as int) =~= name@.take(cut as int));
            if texts.len() >= TITLE_LIMIT && (forall|i: int|
                0 <= i < TITLE_LIMIT ==> (#[trigger] texts[i]).len() == 1) {
                lemma_single_clusters(texts, TITLE_LIMIT as int);
            }
            if plain_ascii(name@) {
                assert forall|i: int| 0 <= i < texts.len() implies (#[trigger] texts[i]).len()
                    == 1 by {
                    assert(texts[i] == clusters@[i]@);
                }
                lemma_count_singles(texts, texts.len() as int, texts.len() as int);
                lemma_single_clusters(texts, TITLE_LIMIT as int);
            }
        }
        let head = name.substring_char(0, cut);
        proof {
            assert(head@ =~= name@.take(cut as int));
        }
        mark_cut(String::from_str(head))
    } else {
        String::from_str(name)
    }
}

} // verus!
