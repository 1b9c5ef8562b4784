//! Talking to the tile server: what is asked of it, and what its answer
//! holds.
//!
//! The server is asked over HTTP/1.0 and closes the connection after its
//! answer, so the answer is read to its end and taken apart here. A tile
//! is in it when the status is 200; its bytes are all that follows the
//! first empty line.

use vstd::prelude::*;
use crate::store::{decimal, push_decimal, push_str};
use crate::text::string_from_chars;
use crate::tiles::TileKey;

verus! {

/// The request for a tile, as it is written to the server `host`.
pub open spec fn request_text(host: Seq<char>, key: TileKey) -> Seq<char> {
    "GET /"@ + decimal(key.zoom as nat) + "/"@ + decimal(key.column as nat) + "/"@ + decimal(
        key.row as nat,
    ) + ".png HTTP/1.0\r\nHost: "@ + host + "\r\nConnection: close\r\n\r\n"@
}

/// Writes the request for a tile.
pub fn tile_request(host: &str, key: TileKey) -> (request: String)
    ensures
        request@ == request_text(host@, key),
{
    let mut out: Vec<char> = Vec::new();
    push_str("GET /", &mut out);
    push_decimal(key.zoom, &mut out);
    push_str("/", &mut out);
    push_decimal(key.column, &mut out);
    push_str("/", &mut out);
    push_decimal(key.row, &mut out);
    push_str(".png HTTP/1.0\r\nHost: ", &mut out);
    push_str(host, &mut out);
    push_str("\r\nConnection: close\r\n\r\n", &mut out);
    proof {
        assert(out@ =~= request_text(host@, key));
    }
    string_from_chars(&out)
}

/// Whether a byte separates the words of the answer's head: space, tab,
/// carriage return or line feed.
pub open spec fn blank(b: u8) -> bool {
    b == 32 || b == 9 || b == 13 || b == 10
}

/// Whether the empty line that ends the head starts at `i`: carriage
/// return, line feed, carriage return, line feed.
pub open spec fn break_at(answer: Seq<u8>, i: int) -> bool {
    &&& 0 <= i
    &&& i + 4 <= answer.len()
    &&& answer[i] == 13
    &&& answer[i + 1] == 10
    &&& answer[i + 2] == 13
    &&& answer[i + 3] == 10
}

/// Where the first empty line at or after `from` starts, if there is one.
pub open spec fn first_break(answer: Seq<u8>, from: int) -> Option<int>
    decreases answer.len() - from,
{
    if from < 0 || from + 4 > answer.len() {
        None
    } else if break_at(answer, from) {
        Some(from)
    } else {
        first_break(answer, from + 1)
    }
}

/// Where the run of blank bytes (`blanks`) or of other bytes (`!blanks`)
/// that starts at `from` ends.
pub open spec fn run_end(s: Seq<u8>, from: int, blanks: bool) -> int
    decreases s.len() - from,
{
    if 0 <= from < s.len() && blank(s[from]) == blanks {
        run_end(s, from + 1, blanks)
    } else {
        from
    }
}

/// The second word of the head: the status.
pub open spec fn status_of(head: Seq<u8>) -> Seq<u8> {
    let first_word = run_end(head, 0, true);
    let gap = run_end(head, first_word, false);
    let status = run_end(head, gap, true);
    let end = run_end(head, status, false);
    head.subrange(status, end)
}

/// The tile in an answer: the bytes behind the first empty line, if there
/// is one and the status before it is `200`.
pub open spec fn body_of(answer: Seq<u8>) -> Option<Seq<u8>> {
    match first_break(answer, 0) {
        None => None,
        Some(i) => if status_of(answer.take(i)) == seq![50u8, 48u8, 48u8] {
            Some(answer.skip(i + 4))
        } else {
            None
        },
    }
}

/// A run ends inside the text, and not before it starts.
pub proof fn lemma_run_end(s: Seq<u8>, from: int, blanks: bool)
    requires
        0 <= from <= s.len(),
    ensures
        from <= run_end(s, from, blanks) <= s.len(),
    decreases s.len() - from,
{
    if from < s.len() && blank(s[from]) == blanks {
        lemma_run_end(s, from + 1, blanks);
    }
}

/// Finds the empty line that ends the head.
fn find_break(answer: &[u8]) -> (at: Option<usize>)
    ensures
        at is Some <==> first_break(answer@, 0) is Some,
        at is Some ==> at->0 as int == first_break(answer@, 0)->0 && at->0 + 4 <= answer@.len(),
{
    let n = answer.len();
    if n < 4 {
        return None;
    }
    let mut i: usize = 0;
    while i <= n - 4
        invariant
            n == answer@.len(),
            n >= 4,
            i <= n - 3,
            first_break(answer@, 0) == first_break(answer@, i as int),
        decreases n - i,
    {
        if answer[i] == 13 && answer[i + 1] == 10 && answer[i + 2] == 13 && answer[i + 3] == 10 {
            return Some(i);
        }
        i += 1;
    }
    None
}

/// Walks to the end of a run in the first `end` bytes.
fn skip_run(s: &[u8], from: usize, end: usize, blanks: bool) -> (to: usize)
    requires
        from <= end <= s@.len(),
    ensures
        to == run_end(s@.take(end as int), from as int, blanks),
        from <= to <= end,
{
    let ghost head = s@.take(end as int);
    let mut i = from;
    while i < end
        invariant
            head == s@.take(end as int),
            from <= i <= end <= s@.len(),
            run_end(head, from as int, blanks) == run_end(head, i as int, blanks),
        decreases end - i,
    {
        let b = s[i];
        assert(head[i as int] == b);
        let is_blank = b == 32 || b == 9 || b == 13 || b == 10;
        if is_blank != blanks {
            return i;
        }
        i += 1;
    }
    i
}

/// Takes the tile out of the server's answer. There is none when the
/// answer has no empty line after its head, or when the status, the second
/// word of the head, is not `200`.
pub fn tile_body(answer: &[u8]) -> (body: Option<Vec<u8>>)
    ensures
        match body_of(answer@) {
            Some(bytes) => body is Some && body->0@ == bytes,
            None => body is None,
        },
{
    let head_end = match find_break(answer) {
        Some(i) => i,
        None => {
            return None;
        },
    };
    let first_word = skip_run(answer, 0, head_end, true);
    let gap = skip_run(answer, first_word, head_end, false);
    let status = skip_run(answer, gap, head_end, true);
    let end = skip_run(answer, status, head_end, false);
    let ghost head = answer@.take(head_end as int);
    let ok = end - status == 3 && answer[status] == 50 && answer[status + 1] == 48 && answer[status
        + 2] == 48;
    proof {
        let word = head.subrange(status as int, end as int);
        if ok {
            assert(word =~= seq![50u8, 48u8, 48u8]);
        } else if word.len() == 3 {
            assert(word[0] == answer@[status as int]);
            assert(word[1] == answer@[status + 1]);
            assert(word[2] == answer@[status + 2]);
        }
    }
    if !ok {
        return None;
    }
    let mut body: Vec<u8> = Vec::new();
    let mut i = head_end + 4;
    while i < answer.len()
        invariant
            head_end + 4 <= i <= answer@.len(),
            body@ == answer@.subrange(head_end + 4, i as int),
        decreases answer@.len() - i,
    {
        body.push(answer[i]);
        i += 1;
        assert(body@ =~= answer@.subrange(head_end + 4, i as int));
    }
    assert(body@ =~= answer@.skip(head_end + 4));
    Some(body)
}

} // verus!
