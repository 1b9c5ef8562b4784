//! The tile cache: where a tile's file lies, and what to do for a request
//! given what the cache holds and which downloads are running.

use vstd::prelude::*;
use crate::flight::{joined_once, FlightTable};
use crate::text::string_from_chars;
use crate::tiles::TileKey;

verus! {

/// The character of a decimal digit.
pub open spec fn digit(d: nat) -> char
    recommends
        d < 10,
{
    (48 + d) as char
}

/// A number written in decimal, without sign or leading zeros.
pub open spec fn decimal(n: nat) -> Seq<char>
    decreases n,
{
    if n < 10 {
        seq![digit(n)]
    } else {
        decimal(n / 10).push(digit(n % 10))
    }
}

/// Appends the decimal digits of `n`.
pub(crate) fn push_decimal(n: u32, out: &mut Vec<char>)
    ensures
        final(out)@ == old(out)@ + decimal(n as nat),
    decreases n,
{
    if n >= 10 {
        push_decimal(n / 10, out);
    }
    let d = (n % 10) as u8;
    out.push((48u8 + d) as char);
    proof {
        if n >= 10 {
            assert((old(out)@ + decimal((n / 10) as nat)).push(digit((n % 10) as nat)) =~= old(
                out,
            )@ + decimal(n as nat));
        } else {
            assert(old(out)@.push(digit(n as nat)) =~= old(out)@ + decimal(n as nat));
        }
    }
}

/// Appends the characters of a string.
pub(crate) fn push_str(s: &str, out: &mut Vec<char>)
    ensures
        final(out)@ == old(out)@ + s@,
{
    proof {
        assert(old(out)@ + s@.take(0) =~= old(out)@);
    }
    for c in it: s.chars()
        invariant
            it.seq() == s@,
            out@ == old(out)@ + s@.take(it.index() as int),
    {
        out.push(c);
        proof {
            assert((old(out)@ + s@.take(it.index() as int)).push(c) =~= old(out)@ + s@.take(
                it.index() + 1,
            ));
        }
    }
    proof {
        assert(s@.take(s@.len() as int) =~= s@);
    }
}

/// The name of a tile's file in the cache directory:
/// zoom, column and row in decimal, joined by underscores, then `.png`.
pub open spec fn file_name(key: TileKey) -> Seq<char> {
    decimal(key.zoom as nat) + "_"@ + decimal(key.column as nat) + "_"@ + decimal(
        key.row as nat,
    ) + ".png"@
}

/// The path of a tile's file below the cache directory `base`.
pub open spec fn cache_path(base: Seq<char>, key: TileKey) -> Seq<char> {
    base + "/"@ + file_name(key)
}

/// The path a download is written to before it is renamed to the tile's
/// path, so that a reader never sees half a file.
pub open spec fn temp_path(base: Seq<char>, key: TileKey) -> Seq<char> {
    cache_path(base, key) + ".part"@
}

/// A number's decimal form is not empty and holds digits only.
pub proof fn lemma_decimal_digits(n: nat)
    ensures
        decimal(n).len() >= 1,
        n >= 10 ==> decimal(n).len() >= 2,
        forall|i: int| 0 <= i < decimal(n).len() ==> '0' <= #[trigger] decimal(n)[i] <= '9',
    decreases n,
{
    if n >= 10 {
        lemma_decimal_digits(n / 10);
    }
}

/// Different numbers have different decimal forms.
pub proof fn lemma_decimal_injective(m: nat, n: nat)
    requires
        decimal(m) == decimal(n),
    ensures
        m == n,
    decreases m,
{
    lemma_decimal_digits(m);
    lemma_decimal_digits(n);
    if m < 10 && n < 10 {
        assert(decimal(m)[0] == digit(m));
        assert(decimal(n)[0] == digit(n));
    } else if m >= 10 && n >= 10 {
        assert(decimal(m).last() == digit(m % 10));
        assert(decimal(n).last() == digit(n % 10));
        assert(decimal(m).drop_last() =~= decimal(m / 10));
        assert(decimal(n).drop_last() =~= decimal(n / 10));
        lemma_decimal_injective(m / 10, n / 10);
    }
}

/// Two texts that agree after a separator was put behind separator-free
/// heads have the same head and the same rest.
pub proof fn lemma_split_at_separator(
    head: Seq<char>,
    rest: Seq<char>,
    other_head: Seq<char>,
    other_rest: Seq<char>,
    separator: char,
)
    requires
        head + seq![separator] + rest == other_head + seq![separator] + other_rest,
        forall|i: int| 0 <= i < head.len() ==> head[i] != separator,
        forall|i: int| 0 <= i < other_head.len() ==> other_head[i] != separator,
    ensures
        head == other_head,
        rest == other_rest,
{
    let left = head + seq![separator] + rest;
    let right = other_head + seq![separator] + other_rest;
    if head.len() < other_head.len() {
        assert(left[head.len() as int] == separator);
        assert(right[head.len() as int] == other_head[head.len() as int]);
    }
    if other_head.len() < head.len() {
        assert(right[other_head.len() as int] == separator);
        assert(left[other_head.len() as int] == head[other_head.len() as int]);
    }
    assert(head.len() == other_head.len());
    assert(head =~= left.take(head.len() as int));
    assert(other_head =~= right.take(head.len() as int));
    assert(rest =~= left.skip(head.len() as int + 1));
    assert(other_rest =~= right.skip(head.len() as int + 1));
}

/// Every tile has a file of its own: tiles with the same file name are the
/// same tile.
pub proof fn lemma_file_name_injective(a: TileKey, b: TileKey)
    requires
        file_name(a) == file_name(b),
    ensures
        a == b,
{
    reveal_strlit("_");
    reveal_strlit(".png");
    let sep = seq!['_'];
    assert("_"@ =~= sep);
    let (az, ac, ar) = (
        decimal(a.zoom as nat),
        decimal(a.column as nat),
        decimal(a.row as nat),
    );
    let (bz, bc, br) = (
        decimal(b.zoom as nat),
        decimal(b.column as nat),
        decimal(b.row as nat),
    );
    lemma_decimal_digits(a.zoom as nat);
    lemma_decimal_digits(a.column as nat);
    lemma_decimal_digits(a.row as nat);
    lemma_decimal_digits(b.zoom as nat);
    lemma_decimal_digits(b.column as nat);
    lemma_decimal_digits(b.row as nat);
    let a_tail = ac + sep + (ar + ".png"@);
    let b_tail = bc + sep + (br + ".png"@);
    assert(file_name(a) =~= az + sep + a_tail);
    assert(file_name(b) =~= bz + sep + b_tail);
    lemma_split_at_separator(az, a_tail, bz, b_tail, '_');
    lemma_split_at_separator(ac, ar + ".png"@, bc, br + ".png"@, '_');
    assert(ar =~= (ar + ".png"@).take(ar.len() as int));
    assert(br =~= (br + ".png"@).take(br.len() as int));
    lemma_decimal_injective(a.zoom as nat, b.zoom as nat);
    lemma_decimal_injective(a.column as nat, b.column as nat);
    lemma_decimal_injective(a.row as nat, b.row as nat);
}

/// What the host does next for a request.
#[derive(Debug)]
pub enum StoreStep {
    /// The cache holds the tile: hand out these bytes.
    Deliver(Vec<u8>),
    /// Download the tile, store it, then call `TileStore::finish`.
    Download,
    /// Someone is downloading the tile: wait for the result.
    Wait,
}

/// The result of a download, addressed to one of those who waited for it.
#[derive(Debug)]
pub struct Delivery {
    pub waiter: u64,
    /// The tile's bytes, or `None` if the download failed.
    pub bytes: Option<Vec<u8>>,
}

/// Whether `deliveries` hands the one `outcome` to each of `waiters`, in
/// their order.
pub open spec fn fans_out(
    deliveries: Seq<Delivery>,
    waiters: Seq<u64>,
    outcome: Option<Vec<u8>>,
) -> bool {
    &&& deliveries.len() == waiters.len()
    &&& forall|i: int|
        0 <= i < deliveries.len() ==> (#[trigger] deliveries[i]).waiter == waiters[i]
            && same_bytes(deliveries[i].bytes, outcome)
}

/// Whether two download results are the same: both failed, or both hold
/// the same bytes.
pub open spec fn same_bytes(a: Option<Vec<u8>>, b: Option<Vec<u8>>) -> bool {
    match (a, b) {
        (Some(x), Some(y)) => x@ == y@,
        (None, None) => true,
        _ => false,
    }
}

/// Where to write a downloaded tile.
#[derive(Clone, Debug)]
pub struct PersistPlan {
    /// Write the bytes here first.
    pub temp: String,
    /// Then rename the file to this.
    pub path: String,
}

/// The tile cache of one directory, with its downloads in progress.
pub struct TileStore {
    base: String,
    flights: FlightTable,
}

impl TileStore {
    /// The cache directory.
    pub closed spec fn base(&self) -> Seq<char> {
        self.base@
    }

    /// The downloads in progress, each with those who wait for it.
    pub closed spec fn flights(&self) -> Map<TileKey, Seq<u64>> {
        self.flights@
    }

    /// Whether the table of downloads is in order.
    pub closed spec fn wf(&self) -> bool {
        self.flights.wf()
    }

    /// A store over the cache directory `base`, with nothing in progress.
    pub fn new(base: String) -> (store: TileStore)
        ensures
            store.wf(),
            store.base() == base@,
            store.flights() == Map::<TileKey, Seq<u64>>::empty(),
    {
        TileStore { base, flights: FlightTable::new() }
    }

    /// The path of a tile's file.
    pub fn path_of(&self, key: TileKey) -> (path: String)
        ensures
            path@ == cache_path(self.base(), key),
    {
        let mut out: Vec<char> = Vec::new();
        push_str(self.base.as_str(), &mut out);
        push_str("/", &mut out);
        push_decimal(key.zoom, &mut out);
        push_str("_", &mut out);
        push_decimal(key.column, &mut out);
        push_str("_", &mut out);
        push_decimal(key.row, &mut out);
        push_str(".png", &mut out);
        proof {
            assert(out@ =~= cache_path(self.base(), key));
        }
        string_from_chars(&out)
    }

    /// Where a download of `key` is written: to a file beside the tile's
    /// own, which is then renamed.
    pub fn persist_plan(&self, key: TileKey) -> (plan: PersistPlan)
        ensures
            plan.path@ == cache_path(self.base(), key),
            plan.temp@ == temp_path(self.base(), key),
    {
        let path = self.path_of(key);
        let mut out: Vec<char> = Vec::new();
        push_str(path.as_str(), &mut out);
        push_str(".part", &mut out);
        proof {
            assert(out@ =~= temp_path(self.base(), key));
        }
        PersistPlan { temp: string_from_chars(&out), path }
    }

    /// Decides a request of `waiter` for `key`. `cached` is what reading the
    /// tile's file gave, `None` if the file is missing or unreadable. A
    /// cached tile is handed out and nothing is recorded. Otherwise the
    /// waiter is recorded, and it downloads exactly when nobody else does.
    pub fn request(&mut self, key: TileKey, waiter: u64, cached: Option<Vec<u8>>) -> (step:
        StoreStep)
        requires
            old(self).wf(),
        ensures
            final(self).wf(),
            final(self).base() == old(self).base(),
            match cached {
                Some(bytes) => step == StoreStep::Deliver(bytes) && final(self).flights() == old(
                    self,
                ).flights(),
                None => final(self).flights() == joined_once(old(self).flights(), key, waiter)
                    && (if old(self).flights().contains_key(key) {
                    step == StoreStep::Wait
                } else {
                    step == StoreStep::Download
                }),
            },
    {
        match cached {
            Some(bytes) => StoreStep::Deliver(bytes),
            None => {
                if self.flights.join(key, waiter) {
                    StoreStep::Download
                } else {
                    StoreStep::Wait
                }
            },
        }
    }

    /// Ends the download of `key` with its `outcome`, the tile's bytes or
    /// `None` for a failed download, and hands that one outcome to everyone
    /// who waited, the one who downloaded first.
    pub fn finish(&mut self, key: TileKey, outcome: Option<Vec<u8>>) -> (deliveries: Vec<Delivery>)
        requires
            old(self).wf(),
        ensures
            final(self).wf(),
            final(self).base() == old(self).base(),
            final(self).flights() == old(self).flights().remove(key),
            fans_out(
                deliveries@,
                if old(self).flights().contains_key(key) {
                    old(self).flights()[key]
                } else {
                    Seq::<u64>::empty()
                },
                outcome,
            ),
    {
        let waiters = self.flights.complete(key);
        let mut deliveries: Vec<Delivery> = Vec::new();
        let mut i: usize = 0;
        while i < waiters.len()
            invariant
                i <= waiters@.len(),
                deliveries@.len() == i,
                forall|j: int|
                    0 <= j < i ==> (#[trigger] deliveries@[j]).waiter == waiters@[j] && same_bytes(
                        deliveries@[j].bytes,
                        outcome,
                    ),
            decreases waiters@.len() - i,
        {
            let bytes = match &outcome {
                Some(b) => Some(b.clone()),
                None => None,
            };
            deliveries.push(Delivery { waiter: waiters[i], bytes });
            i += 1;
        }
        deliveries
    }
}

} // verus!
