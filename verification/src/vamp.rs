//! Parody coins: the coins and trends that they are made from, and the state
//! that is shared.
use vstd::prelude::*;
use vstd::utf8::*;

use crate::bytes;
use crate::error;
use crate::ids::Uuid;
use crate::lines;
use crate::outside;
use crate::passages;
use crate::patterns;
use crate::patterns::Pattern;
use crate::rank;
use crate::storage;
use crate::text;
use crate::time;
use crate::time::Timestamp;

verus! {

// ---------------------------------------------------------------------------
// Configuration
// ---------------------------------------------------------------------------

#[derive(Clone, Debug)]
pub struct VampConfig {
    pub auto_enabled: bool,
    pub interval_secs: u64,
    pub scrape_enabled: bool,
    pub scrape_interval_secs: u64,
    pub coin_chain: String,
    pub listings_dir: String,
    pub max_trends: usize,
}

/// The seconds after which a scraper that is switched off looks again.
pub const SCRAPE_IDLE_SECS: u64 = 15;

/// The seconds after which a schedule that is switched off looks again.
pub const SCHEDULE_IDLE_SECS: u64 = 10;

/// What the scraper does next.
#[derive(Clone, Copy, Debug, PartialEq, Eq, Structural)]
pub enum ScrapeStep {
    /// Scrape at most so many trends.
    Scrape(usize),
    /// Look again after so many seconds.
    Idle(u64),
}

/// What the schedule does next.
#[derive(Clone, Copy, Debug, PartialEq, Eq, Structural)]
pub enum ScheduleStep {
    /// Make a coin.
    Mint,
    /// Look again after so many seconds.
    Idle(u64),
}

impl Default for VampConfig {
    fn default() -> (r: Self)
        ensures
            !r.auto_enabled,
            r.interval_secs == 3600,
            r.scrape_enabled,
            r.scrape_interval_secs == 1800,
            r.coin_chain@ == "solana"@,
            r.listings_dir@ == "out/listings"@,
            r.max_trends == 12,
    {
        VampConfig {
            auto_enabled: false,
            interval_secs: 3600,
            scrape_enabled: true,
            scrape_interval_secs: 1800,
            coin_chain: "solana".to_owned(),
            listings_dir: "out/listings".to_owned(),
            max_trends: 12,
        }
    }
}

impl VampConfig {
    /// The configurations have the same contents.
    pub open spec fn same_as(self, other: Self) -> bool {
        &&& self.auto_enabled == other.auto_enabled
        &&& self.interval_secs == other.interval_secs
        &&& self.scrape_enabled == other.scrape_enabled
        &&& self.scrape_interval_secs == other.scrape_interval_secs
        &&& self.coin_chain@ == other.coin_chain@
        &&& self.listings_dir@ == other.listings_dir@
        &&& self.max_trends == other.max_trends
    }

    /// A second configuration with the same contents.
    pub fn copy(&self) -> (r: Self)
        ensures
            r.same_as(*self),
    {
        VampConfig {
            auto_enabled: self.auto_enabled,
            interval_secs: self.interval_secs,
            scrape_enabled: self.scrape_enabled,
            scrape_interval_secs: self.scrape_interval_secs,
            coin_chain: self.coin_chain.clone(),
            listings_dir: self.listings_dir.clone(),
            max_trends: self.max_trends,
        }
    }

    /// What the scraper does next: it scrapes where it is switched on.
    pub fn scrape_step(&self) -> (r: ScrapeStep)
        ensures
            r == if self.scrape_enabled {
                ScrapeStep::Scrape(self.max_trends)
            } else {
                ScrapeStep::Idle(SCRAPE_IDLE_SECS)
            },
    {
        if self.scrape_enabled {
            ScrapeStep::Scrape(self.max_trends)
        } else {
            ScrapeStep::Idle(SCRAPE_IDLE_SECS)
        }
    }

    /// What the schedule does next: it makes a coin where it is switched on.
    pub fn schedule_step(&self) -> (r: ScheduleStep)
        ensures
            r == if self.auto_enabled {
                ScheduleStep::Mint
            } else {
                ScheduleStep::Idle(SCHEDULE_IDLE_SECS)
            },
    {
        if self.auto_enabled {
            ScheduleStep::Mint
        } else {
            ScheduleStep::Idle(SCHEDULE_IDLE_SECS)
        }
    }

    /// The seconds between two scrapes: at least a minute.
    pub fn scrape_wait(&self) -> (r: u64)
        ensures
            r == if self.scrape_interval_secs < 60 {
                60
            } else {
                self.scrape_interval_secs
            },
    {
        if self.scrape_interval_secs < 60 {
            60
        } else {
            self.scrape_interval_secs
        }
    }

    /// The seconds between two coins: at least five.
    pub fn schedule_wait(&self) -> (r: u64)
        ensures
            r == if self.interval_secs < 5 {
                5
            } else {
                self.interval_secs
            },
    {
        if self.interval_secs < 5 {
            5
        } else {
            self.interval_secs
        }
    }
}

// ---------------------------------------------------------------------------
// Trends
// ---------------------------------------------------------------------------

#[derive(Clone, Debug)]
pub struct ScrapedTweet {
    pub url: String,
    pub author: String,
    pub text: String,
}

#[derive(Clone, Debug)]
pub struct ScrapedTrend {
    pub name: String,
    pub category: Option<String>,
    pub post_count: Option<String>,
    pub top_tweet: Option<ScrapedTweet>,
    pub scraped_at: Timestamp,
}

impl ScrapedTweet {
    /// The tweets have the same contents.
    pub open spec fn same_as(self, other: Self) -> bool {
        &&& self.url@ == other.url@
        &&& self.author@ == other.author@
        &&& self.text@ == other.text@
    }
}

/// The tweets have the same contents, or there is none on either side.
pub open spec fn same_tweet(a: Option<ScrapedTweet>, b: Option<ScrapedTweet>) -> bool {
    match (a, b) {
        (Some(x), Some(y)) => x.same_as(y),
        (None, None) => true,
        _ => false,
    }
}

impl ScrapedTrend {
    /// The trends have the same contents.
    pub open spec fn same_as(self, other: Self) -> bool {
        &&& self.name@ == other.name@
        &&& text::opt_text(self.category) == text::opt_text(other.category)
        &&& text::opt_text(self.post_count) == text::opt_text(other.post_count)
        &&& same_tweet(self.top_tweet, other.top_tweet)
        &&& self.scraped_at == other.scraped_at
    }

    /// A second trend with the same contents.
    pub fn copy(&self) -> (r: Self)
        ensures
            r.same_as(*self),
    {
        let top_tweet = match &self.top_tweet {
            Some(t) => Some(
                ScrapedTweet { url: t.url.clone(), author: t.author.clone(), text: t.text.clone() },
            ),
            None => None,
        };
        ScrapedTrend {
            name: self.name.clone(),
            category: self.category.clone(),
            post_count: self.post_count.clone(),
            top_tweet,
            scraped_at: self.scraped_at,
        }
    }
}

/// The lines of a text that are not blank.
pub open spec fn shown_lines(s: Seq<char>) -> Seq<Seq<char>> {
    lines::lines_of(s).filter(|l: Seq<char>| text::trimmed(l).len() > 0)
}

/// The lines of a text that are not blank.
fn lines_shown(s: &str) -> (r: Vec<String>)
    ensures
        text::texts(r@) == shown_lines(s@),
{
    let ls = lines::lines(s);
    let ghost all = lines::lines_of(s@);
    let ghost p = |l: Seq<char>| text::trimmed(l).len() > 0;
    let mut out: Vec<String> = Vec::new();
    let mut i: usize = 0;
    proof {
        reveal(Seq::filter);
        assert(all.take(0).filter(p) =~= Seq::<Seq<char>>::empty());
        assert(text::texts(out@) =~= all.take(0).filter(p));
    }
    while i < ls.len()
        invariant
            i <= ls@.len() == all.len(),
            all == text::texts(ls@),
            p == (|l: Seq<char>| text::trimmed(l).len() > 0),
            text::texts(out@) == all.take(i as int).filter(p),
        decreases ls.len() - i,
    {
        proof {
            reveal(Seq::filter);
            assert(all.take(i + 1).drop_last() =~= all.take(i as int));
            assert(all[i as int] == ls@[i as int]@);
        }
        let t = text::trim(ls[i].as_str());
        if t.as_str().unicode_len() > 0 {
            let ghost before = out@;
            out.push(ls[i].clone());
            assert(text::texts(out@) =~= text::texts(before).push(all[i as int]));
        }
        i = i + 1;
    }
    assert(all.take(all.len() as int) =~= all);
    out
}

/// The position of the longest of the first `n` texts, in bytes; of several, the
/// last.
pub open spec fn longest(v: Seq<Seq<char>>, n: nat) -> int
    decreases n,
{
    if n <= 1 {
        0
    } else {
        let k = longest(v, (n - 1) as nat);
        if bytes::byte_len(v[n - 1]) >= bytes::byte_len(v[k]) {
            n - 1
        } else {
            k
        }
    }
}

/// The position of the longest text.
fn find_longest(v: &Vec<String>) -> (r: usize)
    requires
        v@.len() > 0,
    ensures
        r == longest(text::texts(v@), v@.len()),
        r < v@.len(),
{
    let ghost all = text::texts(v@);
    let mut k: usize = 0;
    let mut i: usize = 1;
    while i < v.len()
        invariant
            1 <= i <= v@.len() == all.len(),
            all == text::texts(v@),
            k == longest(all, i as nat),
            k < i,
        decreases v.len() - i,
    {
        assert(all[i as int] == v@[i as int]@ && all[k as int] == v@[k as int]@);
        if bytes::len(v[i].as_str()) >= bytes::len(v[k].as_str()) {
            k = i;
        }
        i = i + 1;
    }
    k
}

/// The first text at or after `from` that, in lower case, speaks of posts.
pub open spec fn first_posts(lowered: Seq<Seq<char>>, from: int) -> Option<int>
    decreases lowered.len() - from,
{
    if from < 0 || from >= lowered.len() {
        None
    } else if text::has(lowered[from], "post"@) {
        Some(from)
    } else {
        first_posts(lowered, from + 1)
    }
}

/// The first text that speaks of posts, of texts in lower case.
pub fn find_posts(lowered: &Vec<String>) -> (r: Option<usize>)
    ensures
        match r {
            Some(i) => i < lowered@.len() && first_posts(text::texts(lowered@), 0) == Some(
                i as int,
            ),
            None => first_posts(text::texts(lowered@), 0) is None,
        },
{
    let ghost all = text::texts(lowered@);
    let mut i: usize = 0;
    while i < lowered.len()
        invariant
            i <= lowered@.len() == all.len(),
            all == text::texts(lowered@),
            first_posts(all, 0) == first_posts(all, i as int),
        decreases lowered.len() - i,
    {
        assert(all[i as int] == lowered@[i as int]@);
        if text::contains(lowered[i].as_str(), "post") {
            return Some(i);
        }
        i = i + 1;
    }
    None
}

/// Texts in lower case.
pub open spec fn lowered(v: Seq<Seq<char>>) -> Seq<Seq<char>> {
    v.map_values(|s: Seq<char>| outside::lowercase(s))
}

/// Texts in lower case.
fn lower_all(v: &Vec<String>) -> (r: Vec<String>)
    ensures
        text::texts(r@) == lowered(text::texts(v@)),
{
    let ghost all = lowered(text::texts(v@));
    let mut out: Vec<String> = Vec::new();
    let mut i: usize = 0;
    assert(text::texts(out@) =~= all.take(0));
    while i < v.len()
        invariant
            i <= v@.len() == all.len(),
            all == lowered(text::texts(v@)),
            text::texts(out@) == all.take(i as int),
        decreases v.len() - i,
    {
        let low = outside::to_lowercase(v[i].as_str());
        let ghost before = out@;
        out.push(low);
        proof {
            assert(text::texts(out@) =~= text::texts(before).push(low@));
            assert(all.take(i + 1) =~= all.take(i as int).push(all[i as int]));
        }
        i = i + 1;
    }
    assert(all.take(all.len() as int) =~= all);
    out
}

/// The trend that a cell with these lines shows: the longest is its name, the
/// first, unless it is the name, its category, and one that speaks of posts
/// their number.
pub open spec fn cell_shows(
    ls: Seq<Seq<char>>,
    posts: Option<int>,
    at: Timestamp,
    t: ScrapedTrend,
) -> bool {
    let name = text::trimmed(ls[longest(ls, ls.len())]);
    let first = text::trimmed(ls[0]);
    &&& t.name@ == name
    &&& text::opt_text(t.category) == if first != name {
        Some(first)
    } else {
        None
    }
    &&& text::opt_text(t.post_count) == (match posts {
        Some(i) => Some(text::trimmed(ls[i])),
        None => None,
    })
    &&& t.top_tweet is None
    &&& t.scraped_at == at
}

/// The trend that lines show, `posts` being the line that speaks of posts.
pub fn trend_from_lines(ls: &Vec<String>, posts: Option<usize>, at: Timestamp) -> (r: ScrapedTrend)
    requires
        ls@.len() > 0,
        posts is Some ==> posts.unwrap() < ls@.len(),
    ensures
        cell_shows(
            text::texts(ls@),
            match posts {
                Some(i) => Some(i as int),
                None => None,
            },
            at,
            r,
        ),
{
    let ghost all = text::texts(ls@);
    let k = find_longest(ls);
    assert(all[k as int] == ls@[k as int]@ && all[0] == ls@[0]@);
    let name = text::trim(ls[k].as_str());
    let first = text::trim(ls[0].as_str());
    let category = if text::same(first.as_str(), name.as_str()) {
        None
    } else {
        Some(first)
    };
    let post_count = match posts {
        Some(i) => {
            assert(all[i as int] == ls@[i as int]@);
            Some(text::trim(ls[i].as_str()))
        },
        None => None,
    };
    ScrapedTrend { name, category, post_count, top_tweet: None, scraped_at: at }
}

/// The trend that the text of a cell shows; none where it is blank.
pub fn trend_of_cell(cell: &str, at: Timestamp) -> (r: Option<ScrapedTrend>)
    ensures
        match r {
            Some(t) => shown_lines(cell@).len() > 0 && cell_trend(cell@, at, t),
            None => shown_lines(cell@).len() == 0,
        },
{
    let ls = lines_shown(cell);
    assert(text::texts(ls@).len() == ls@.len());
    if ls.len() == 0 {
        return None;
    }
    let low = lower_all(&ls);
    assert(text::texts(low@).len() == low@.len());
    let posts = find_posts(&low);
    Some(trend_from_lines(&ls, posts, at))
}

/// A trend always has a name.
pub proof fn trends_are_named(cell: Seq<char>, at: Timestamp, t: ScrapedTrend)
    requires
        shown_lines(cell).len() > 0,
        cell_trend(cell, at, t),
    ensures
        t.name@.len() > 0,
{
    let ls = shown_lines(cell);
    let p = |l: Seq<char>| text::trimmed(l).len() > 0;
    lemma_longest_in(ls, ls.len());
    let k = longest(ls, ls.len());
    lemma_filter_keeps(lines::lines_of(cell), p, k);
    assert(p(ls[k]));
}

proof fn lemma_longest_in(v: Seq<Seq<char>>, n: nat)
    requires
        0 < n <= v.len(),
    ensures
        0 <= longest(v, n) < n,
    decreases n,
{
    if n > 1 {
        lemma_longest_in(v, (n - 1) as nat);
    }
}

proof fn lemma_filter_keeps(s: Seq<Seq<char>>, p: spec_fn(Seq<char>) -> bool, i: int)
    requires
        0 <= i < s.filter(p).len(),
    ensures
        p(s.filter(p)[i]),
    decreases s.len(),
{
    reveal(Seq::filter);
    if s.len() > 0 {
        let front = s.drop_last().filter(p);
        if i < front.len() {
            lemma_filter_keeps(s.drop_last(), p, i);
        }
    }
}

/// The trend that the text of a cell shows at a time.
pub open spec fn cell_trend(cell: Seq<char>, at: Timestamp, t: ScrapedTrend) -> bool {
    cell_shows(shown_lines(cell), first_posts(lowered(shown_lines(cell)), 0), at, t)
}

/// The first `max` cells, without those that are blank.
pub open spec fn shown_cells(cells: Seq<Seq<char>>, max: nat) -> Seq<Seq<char>> {
    cells.take(if max < cells.len() { max as int } else { cells.len() as int }).filter(
        |c: Seq<char>| shown_lines(c).len() > 0,
    )
}

/// The trends that cells show: one for each of the first `max_trends` that is not
/// blank, in order.
pub fn trends_of_cells(cells: &Vec<String>, max_trends: usize) -> (r: Vec<ScrapedTrend>)
    ensures
        r@.len() == shown_cells(text::texts(cells@), max_trends as nat).len(),
        forall|k: int|
            0 <= k < r@.len() ==> (#[trigger] r@[k]).scraped_at.valid() && cell_trend(
                shown_cells(text::texts(cells@), max_trends as nat)[k],
                r@[k].scraped_at,
                r@[k],
            ),
{
    let n: usize = if max_trends < cells.len() {
        max_trends
    } else {
        cells.len()
    };
    let ghost all = text::texts(cells@);
    let ghost p = |c: Seq<char>| shown_lines(c).len() > 0;
    let mut out: Vec<ScrapedTrend> = Vec::new();
    let mut i: usize = 0;
    proof {
        reveal(Seq::filter);
        assert(all.take(0).filter(p) =~= Seq::<Seq<char>>::empty());
    }
    while i < n
        invariant
            i <= n <= cells@.len() == all.len(),
            all == text::texts(cells@),
            p == (|c: Seq<char>| shown_lines(c).len() > 0),
            out@.len() == all.take(i as int).filter(p).len(),
            forall|k: int|
                0 <= k < out@.len() ==> (#[trigger] out@[k]).scraped_at.valid() && cell_trend(
                    all.take(i as int).filter(p)[k],
                    out@[k].scraped_at,
                    out@[k],
                ),
        decreases n - i,
    {
        proof {
            reveal(Seq::filter);
            assert(all.take(i + 1).drop_last() =~= all.take(i as int));
            assert(all.take(i + 1).last() == cells@[i as int]@);
        }
        if let Some(t) = trend_of_cell(cells[i].as_str(), time::now()) {
            out.push(t);
        }
        i = i + 1;
    }
    out
}

/// The number of trends for which a tweet is looked up.
pub const TWEET_LOOKUPS: usize = 5;

/// An upper-case hexadecimal digit.
pub open spec fn upper_hex(n: int) -> char {
    if n < 10 {
        ('0' as u32 + n) as char
    } else {
        ('A' as u32 + n - 10) as char
    }
}

/// A byte that stands for itself in a URL.
pub open spec fn unreserved(b: u8) -> bool {
    (65 <= b <= 90) || (97 <= b <= 122) || (48 <= b <= 57) || b == 45 || b == 95 || b == 46 || b
        == 126
}

/// A byte in a URL.
pub open spec fn url_byte(b: u8) -> Seq<char> {
    if unreserved(b) {
        seq![b as char]
    } else {
        seq!['%', upper_hex(b as int / 16), upper_hex(b as int % 16)]
    }
}

/// Bytes in a URL.
pub open spec fn url_bytes(b: Seq<u8>) -> Seq<char>
    decreases b.len(),
{
    if b.len() == 0 {
        Seq::empty()
    } else {
        url_bytes(b.drop_last()) + url_byte(b.last())
    }
}

/// An upper-case hexadecimal digit.
fn hex_upper(n: u8) -> (r: char)
    requires
        n < 16,
    ensures
        r == upper_hex(n as int),
{
    if n < 10 {
        (48 + n) as char
    } else {
        (55 + n) as char
    }
}

/// A text as a parameter of a URL: each byte of its encoding that is no letter,
/// digit or one of `-_.~` is written as a percent sign and two digits.
pub fn urlencoding_encode(s: &str) -> (r: String)
    ensures
        r@ == url_bytes(encode_utf8(s@)),
{
    let b = s.as_bytes();
    let mut out = String::new();
    let mut i: usize = 0;
    assert(out@ =~= url_bytes(b@.take(0)));
    while i < b.len()
        invariant
            i <= b@.len(),
            b@ == encode_utf8(s@),
            out@ == url_bytes(b@.take(i as int)),
        decreases b.len() - i,
    {
        assert(b@.take(i + 1).drop_last() =~= b@.take(i as int));
        let x: u8 = b[i];
        let ghost before = out@;
        if (65 <= x && x <= 90) || (97 <= x && x <= 122) || (48 <= x && x <= 57) || x == 45 || x
            == 95 || x == 46 || x == 126 {
            out.push(x as char);
            assert(out@ =~= before + url_byte(x));
        } else {
            out.push('%');
            out.push(hex_upper(x / 16));
            out.push(hex_upper(x % 16));
            assert(out@ =~= before + url_byte(x));
        }
        i = i + 1;
    }
    assert(b@.take(b@.len() as int) =~= b@);
    out
}

/// The value of an upper-case hexadecimal digit.
pub open spec fn hex_value(c: char) -> int {
    if c <= '9' {
        c as int - '0' as int
    } else {
        c as int - 'A' as int + 10
    }
}

/// The bytes that a text in a URL stands for.
pub open spec fn url_decoded(s: Seq<char>) -> Seq<u8>
    decreases s.len(),
{
    if s.len() == 0 {
        Seq::empty()
    } else if s[0] == '%' && s.len() >= 3 {
        seq![(hex_value(s[1]) * 16 + hex_value(s[2])) as u8] + url_decoded(s.skip(3))
    } else {
        seq![s[0] as u8] + url_decoded(s.drop_first())
    }
}

/// A text that can stand in a URL: letters, digits, `-_.~`, and percent signs with
/// two upper-case hexadecimal digits each.
pub open spec fn url_safe(s: Seq<char>) -> bool
    decreases s.len(),
{
    if s.len() == 0 {
        true
    } else if s[0] == '%' {
        s.len() >= 3 && is_upper_hex(s[1]) && is_upper_hex(s[2]) && url_safe(s.skip(3))
    } else {
        (s[0] as u32) < 128 && unreserved(s[0] as u8) && url_safe(s.drop_first())
    }
}

/// An upper-case hexadecimal digit.
pub open spec fn is_upper_hex(c: char) -> bool {
    '0' <= c <= '9' || 'A' <= c <= 'F'
}

/// Bytes one after the other stand in a URL one after the other.
proof fn lemma_url_concat(a: Seq<u8>, b: Seq<u8>)
    ensures
        url_bytes(a + b) == url_bytes(a) + url_bytes(b),
    decreases b.len(),
{
    if b.len() == 0 {
        assert(a + b =~= a);
        assert(url_bytes(a) + url_bytes(b) =~= url_bytes(a));
    } else {
        assert((a + b).drop_last() =~= a + b.drop_last());
        lemma_url_concat(a, b.drop_last());
        assert(url_bytes(a) + url_bytes(b.drop_last()) + url_byte(b.last()) =~= url_bytes(a)
            + url_bytes(b));
    }
}

/// What one byte becomes is read back from the beginning of a text.
proof fn lemma_url_byte(b: u8, rest: Seq<char>)
    ensures
        url_decoded(url_byte(b) + rest) == seq![b] + url_decoded(rest),
        url_safe(url_byte(b) + rest) == url_safe(rest),
{
    let s = url_byte(b) + rest;
    if unreserved(b) {
        let c = b as char;
        assert(s[0] == c);
        assert(c as u8 == b);
        assert(s.drop_first() =~= rest);
    } else {
        let h = b as int / 16;
        let l = b as int % 16;
        assert(s[0] == '%' && s[1] == upper_hex(h) && s[2] == upper_hex(l));
        assert(0 <= h < 16 && 0 <= l < 16);
        assert(hex_value(upper_hex(h)) == h && is_upper_hex(upper_hex(h)));
        assert(hex_value(upper_hex(l)) == l && is_upper_hex(upper_hex(l)));
        assert(h * 16 + l == b);
        assert(s.skip(3) =~= rest);
    }
}

/// What bytes become in a URL can stand there, and is read back.
proof fn lemma_url_bytes(b: Seq<u8>)
    ensures
        url_decoded(url_bytes(b)) == b,
        url_safe(url_bytes(b)),
    decreases b.len(),
{
    if b.len() == 0 {
        assert(url_decoded(url_bytes(b)) =~= b);
    } else {
        let rest = b.drop_first();
        lemma_url_bytes(rest);
        assert(b =~= seq![b[0]] + rest);
        lemma_url_concat(seq![b[0]], rest);
        assert(seq![b[0]].drop_last() =~= Seq::<u8>::empty());
        assert(url_bytes(seq![b[0]]) =~= url_byte(b[0])) by {
            reveal_with_fuel(url_bytes, 2);
        }
        lemma_url_byte(b[0], url_bytes(rest));
    }
}

/// A text as a parameter of a URL can stand there, stands for the bytes of the
/// text, and what two texts become one after the other is what both together
/// become.
pub proof fn parameters_read_back(s: Seq<char>, t: Seq<char>)
    ensures
        url_decoded(url_bytes(encode_utf8(s))) == encode_utf8(s),
        url_safe(url_bytes(encode_utf8(s))),
        url_bytes(encode_utf8(s + t)) == url_bytes(encode_utf8(s)) + url_bytes(encode_utf8(t)),
{
    lemma_url_bytes(encode_utf8(s));
    bytes::lemma_encode_concat(s, t);
    lemma_url_concat(encode_utf8(s), encode_utf8(t));
}

/// The address of the live search for a trend.
pub open spec fn search_address(name: Seq<char>) -> Seq<char> {
    "https://x.com/search?q="@ + url_bytes(encode_utf8(name)) + "&src=trend_click&f=live"@
}

/// The address of the live search for a trend.
pub fn trend_search_url(name: &str) -> (r: String)
    ensures
        r@ == search_address(name@),
{
    let mut url = error::prefixed("https://x.com/search?q=", urlencoding_encode(name).as_str());
    url.append("&src=trend_click&f=live");
    url
}

/// The tweets of the first trends are looked up at these addresses.
pub open spec fn are_looked_up(trends: Seq<ScrapedTrend>, addresses: Seq<Seq<char>>) -> bool {
    &&& addresses.len() == if trends.len() < TWEET_LOOKUPS {
        trends.len() as int
    } else {
        TWEET_LOOKUPS as int
    }
    &&& forall|k: int|
        0 <= k < addresses.len() ==> #[trigger] addresses[k] == search_address(trends[k].name@)
}

/// The addresses at which the tweets of the first trends are looked up.
pub fn trend_lookups(trends: &Vec<ScrapedTrend>) -> (r: Vec<String>)
    ensures
        are_looked_up(trends@, text::texts(r@)),
{
    let mut out: Vec<String> = Vec::new();
    while out.len() < trends.len() && out.len() < TWEET_LOOKUPS
        invariant
            out@.len() <= trends@.len(),
            out@.len() <= TWEET_LOOKUPS,
            forall|k: int|
                0 <= k < out@.len() ==> (#[trigger] out@[k])@ == search_address(trends@[k].name@),
        decreases trends.len() - out.len(),
    {
        let url = trend_search_url(trends[out.len()].name.as_str());
        out.push(url);
    }
    assert forall|k: int| 0 <= k < out@.len() implies #[trigger] text::texts(out@)[k]
        == search_address(trends@[k].name@) by {
        assert(text::texts(out@)[k] == out@[k]@);
    }
    out
}

/// Each of the first trends has been given the tweet that was found for it; a trend for
/// which none was found has stayed as it was.
pub open spec fn are_attached(
    before: Seq<ScrapedTrend>,
    tweets: Seq<Option<ScrapedTweet>>,
    after: Seq<ScrapedTrend>,
) -> bool {
    &&& after.len() == before.len()
    &&& forall|k: int|
        0 <= k < before.len() ==> (#[trigger] after[k]) == (ScrapedTrend {
            top_tweet: if k < tweets.len() && tweets[k] is Some {
                tweets[k]
            } else {
                before[k].top_tweet
            },
            ..before[k]
        })
}

/// Gives each of the first trends the tweet that was found for it; a trend for
/// which none was found stays as it is.
pub fn attach_tweets(trends: &mut Vec<ScrapedTrend>, tweets: Vec<Option<ScrapedTweet>>)
    ensures
        are_attached(old(trends)@, tweets@, final(trends)@),
{
    let ghost before = trends@;
    let ghost found = tweets@;
    let mut left = tweets;
    while left.len() > 0
        invariant
            left@.len() <= found.len(),
            left@ == found.take(left@.len() as int),
            trends@.len() == before.len(),
            forall|k: int|
                0 <= k < before.len() ==> (#[trigger] trends@[k]) == (ScrapedTrend {
                    top_tweet: if left@.len() <= k < found.len() && found[k] is Some {
                        found[k]
                    } else {
                        before[k].top_tweet
                    },
                    ..before[k]
                }),
        decreases left.len(),
    {
        let tweet = left.pop();
        let i: usize = left.len();
        if i < trends.len() {
            if let Some(Some(t)) = tweet {
                let mut trend = trends.remove(i);
                trend.top_tweet = Some(t);
                trends.insert(i, trend);
            }
        }
    }
}

/// The address of a tweet, from the link to it.
pub open spec fn tweet_address(href: Seq<char>) -> Seq<char> {
    if text::begins_with(href, "http"@) {
        href
    } else {
        "https://x.com"@ + href
    }
}

/// The first lines, at most so many.
pub open spec fn first_lines(s: Seq<char>, n: nat) -> Seq<Seq<char>> {
    let ls = lines::lines_of(s);
    if ls.len() > n {
        ls.take(n as int)
    } else {
        ls
    }
}

/// Who wrote a tweet, from the text of the name: its first line.
pub open spec fn tweet_author(name: Option<Seq<char>>) -> Seq<char> {
    match name {
        Some(n) => if lines::lines_of(n).len() > 0 {
            lines::lines_of(n)[0]
        } else {
            "anon"@
        },
        None => "anon"@,
    }
}

/// An article shows this tweet, from its text, the link to it and the text of its
/// author's name; none without a link.
pub open spec fn article_shows(
    article: Seq<char>,
    href: Option<Seq<char>>,
    name: Option<Seq<char>>,
    r: Option<ScrapedTweet>,
) -> bool {
    &&& r is Some <==> href is Some
    &&& r is Some ==> {
        &&& r.unwrap().url@ == tweet_address(href.unwrap())
        &&& r.unwrap().author@ == tweet_author(name)
        &&& r.unwrap().text@ == lines::joined(first_lines(article, 8), " "@)
    }
}

/// The tweet that an article shows, from its text, the link to it and the text of
/// its author's name; none without a link.
pub fn tweet_of_article(
    article: &str,
    href: &Option<String>,
    name: &Option<String>,
) -> (r: Option<ScrapedTweet>)
    ensures
        article_shows(article@, text::opt_text(*href), text::opt_text(*name), r),
{
    let url = match href {
        Some(h) => if text::starts_with(h.as_str(), "http") {
            h.clone()
        } else {
            error::prefixed("https://x.com", h.as_str())
        },
        None => {
            return None;
        },
    };
    let mut ls = lines::lines(article);
    let ghost all = ls@;
    assert(text::texts(all).len() == all.len());
    if ls.len() > 8 {
        ls.truncate(8);
        assert(text::texts(ls@) =~= text::texts(all).take(8));
    }
    let author = match name {
        Some(n) => {
            let mut names = lines::lines(n.as_str());
            assert(text::texts(names@).len() == names@.len());
            if names.len() > 0 {
                assert(text::texts(names@)[0] == names@[0]@);
                names.remove(0)
            } else {
                "anon".to_owned()
            }
        },
        None => "anon".to_owned(),
    };
    Some(ScrapedTweet { url, author, text: lines::join(&ls, " ") })
}

// ---------------------------------------------------------------------------
// Trending coins
// ---------------------------------------------------------------------------

/// A coin that is traded. Amounts are given by the bit patterns of doubles.
#[derive(Clone, Debug)]
pub struct TrendingCoin {
    pub symbol: String,
    pub name: String,
    pub chain: String,
    pub address: String,
    pub price_usd: Option<String>,
    pub volume_24h_usd: Option<u64>,
    pub fdv_usd: Option<u64>,
    pub url: String,
}

/// A coin over the texts of its strings.
pub struct CoinView {
    pub symbol: Seq<char>,
    pub name: Seq<char>,
    pub chain: Seq<char>,
    pub address: Seq<char>,
    pub price_usd: Option<Seq<char>>,
    pub volume_24h_usd: Option<u64>,
    pub fdv_usd: Option<u64>,
    pub url: Seq<char>,
}

impl View for TrendingCoin {
    type V = CoinView;

    open spec fn view(&self) -> CoinView {
        CoinView {
            symbol: self.symbol@,
            name: self.name@,
            chain: self.chain@,
            address: self.address@,
            price_usd: text::opt_text(self.price_usd),
            volume_24h_usd: self.volume_24h_usd,
            fdv_usd: self.fdv_usd,
            url: self.url@,
        }
    }
}

impl TrendingCoin {
    /// A second coin with the same contents.
    pub fn copy(&self) -> (r: Self)
        ensures
            r@ == self@,
    {
        TrendingCoin {
            symbol: self.symbol.clone(),
            name: self.name.clone(),
            chain: self.chain.clone(),
            address: self.address.clone(),
            price_usd: self.price_usd.clone(),
            volume_24h_usd: self.volume_24h_usd,
            fdv_usd: self.fdv_usd,
            url: self.url.clone(),
        }
    }
}

/// The views of coins.
pub open spec fn coin_views(v: Seq<TrendingCoin>) -> Seq<CoinView> {
    v.map_values(|c: TrendingCoin| c@)
}

/// A token of a pair.
#[derive(Clone, Debug)]
pub struct TokenInfo {
    pub address: String,
    pub name: String,
    pub symbol: String,
}

/// A pair that a search finds. The chain and the token may come under either of
/// two names.
#[derive(Clone, Debug)]
pub struct SearchPair {
    pub chain_id: String,
    pub chain_id_camel: String,
    pub url: String,
    pub base_token: Option<TokenInfo>,
    pub base_token_camel: Option<TokenInfo>,
    pub price_usd: Option<String>,
    pub fdv: Option<u64>,
    pub volume_h24: Option<u64>,
}

/// The chain of a pair.
pub open spec fn pair_chain(p: SearchPair) -> Seq<char> {
    if p.chain_id@.len() == 0 {
        p.chain_id_camel@
    } else {
        p.chain_id@
    }
}

/// The token of a pair.
pub open spec fn pair_token(p: SearchPair) -> Option<TokenInfo> {
    if p.base_token is Some {
        p.base_token
    } else {
        p.base_token_camel
    }
}

/// The coin of a pair, where it is one of the chain and has a symbol.
pub open spec fn pair_coin(p: SearchPair, chain: Seq<char>) -> Option<CoinView> {
    if !lines::same_ignoring_case(pair_chain(p), chain) {
        None
    } else {
        match pair_token(p) {
            Some(t) => if t.symbol@.len() == 0 {
                None
            } else {
                Some(
                    CoinView {
                        symbol: t.symbol@,
                        name: if t.name@.len() == 0 {
                            "Unknown"@
                        } else {
                            t.name@
                        },
                        chain: pair_chain(p),
                        address: t.address@,
                        price_usd: text::opt_text(p.price_usd),
                        volume_24h_usd: p.volume_h24,
                        fdv_usd: p.fdv,
                        url: p.url@,
                    },
                )
            },
            None => None,
        }
    }
}

/// The coin of a pair.
fn coin_of_pair(p: &SearchPair, chain: &str) -> (r: Option<TrendingCoin>)
    ensures
        match r {
            Some(c) => pair_coin(*p, chain@) == Some(c@),
            None => pair_coin(*p, chain@) is None,
        },
{
    let own_chain = if p.chain_id.as_str().unicode_len() == 0 {
        p.chain_id_camel.clone()
    } else {
        p.chain_id.clone()
    };
    if !lines::eq_ignore_ascii_case(own_chain.as_str(), chain) {
        return None;
    }
    let token = match &p.base_token {
        Some(t) => t,
        None => match &p.base_token_camel {
            Some(t) => t,
            None => {
                return None;
            },
        },
    };
    if token.symbol.as_str().unicode_len() == 0 {
        return None;
    }
    let name = if token.name.as_str().unicode_len() == 0 {
        "Unknown".to_owned()
    } else {
        token.name.clone()
    };
    Some(
        TrendingCoin {
            symbol: token.symbol.clone(),
            name,
            chain: own_chain,
            address: token.address.clone(),
            price_usd: p.price_usd.clone(),
            volume_24h_usd: p.volume_h24,
            fdv_usd: p.fdv,
            url: p.url.clone(),
        },
    )
}

/// The coins of pairs, in order.
pub open spec fn pair_coins(pairs: Seq<SearchPair>, chain: Seq<char>) -> Seq<CoinView>
    decreases pairs.len(),
{
    if pairs.len() == 0 {
        Seq::empty()
    } else {
        let front = pair_coins(pairs.drop_last(), chain);
        match pair_coin(pairs.last(), chain) {
            Some(c) => front.push(c),
            None => front,
        }
    }
}

/// The volume by which a coin is ranked: that of one without a volume is zero.
pub open spec fn volume_key(c: CoinView) -> i64 {
    match c.volume_24h_usd {
        Some(v) => rank::float_order(v) as i64,
        None => 0,
    }
}

/// The volumes by which coins are ranked.
pub open spec fn volume_keys(coins: Seq<CoinView>) -> Seq<i64> {
    coins.map_values(|c: CoinView| volume_key(c))
}

/// Coins in another order.
pub open spec fn reordered(coins: Seq<CoinView>, order: Seq<usize>) -> Seq<CoinView> {
    order.map_values(|i: usize| coins[i as int])
}

/// One of the coins has this symbol, whatever its case.
pub open spec fn has_symbol(coins: Seq<CoinView>, symbol: Seq<char>) -> bool {
    exists|i: int|
        0 <= i < coins.len() && outside::lowercase((#[trigger] coins[i]).symbol)
            == outside::lowercase(symbol)
}

/// The coins, the first with each symbol only.
pub open spec fn first_of_each(coins: Seq<CoinView>) -> Seq<CoinView>
    decreases coins.len(),
{
    if coins.len() == 0 {
        Seq::empty()
    } else {
        let front = first_of_each(coins.drop_last());
        if has_symbol(coins.drop_last(), coins.last().symbol) {
            front
        } else {
            front.push(coins.last())
        }
    }
}

/// At most so many coins.
pub open spec fn first_coins(coins: Seq<CoinView>, limit: nat) -> Seq<CoinView> {
    if coins.len() > limit {
        coins.take(limit as int)
    } else {
        coins
    }
}

/// The trending coins: those of the pairs by their volume, the first with each
/// symbol, at most so many.
pub open spec fn are_trending(
    pairs: Seq<SearchPair>,
    chain: Seq<char>,
    limit: nat,
    r: Seq<CoinView>,
) -> bool {
    let coins = pair_coins(pairs, chain);
    exists|order: Seq<usize>| #[trigger]
        rank::is_ranking(volume_keys(coins), order) && r == first_coins(
            first_of_each(reordered(coins, order)),
            limit,
        )
}

/// No coin's volume is a bit pattern of no number.
pub open spec fn volumes_are_numbers(pairs: Seq<SearchPair>, chain: Seq<char>) -> bool {
    forall|i: int|
        0 <= i < pairs.len() && pair_coin(#[trigger] pairs[i], chain) is Some
            && pairs[i].volume_h24 is Some ==> !storage::is_nan(pairs[i].volume_h24.unwrap())
}

/// The coins of pairs.
fn coins_of_pairs(pairs: &Vec<SearchPair>, chain: &str) -> (r: Vec<TrendingCoin>)
    ensures
        coin_views(r@) == pair_coins(pairs@, chain@),
{
    let mut out: Vec<TrendingCoin> = Vec::new();
    let mut i: usize = 0;
    assert(coin_views(out@) =~= pair_coins(pairs@.take(0), chain@));
    while i < pairs.len()
        invariant
            i <= pairs@.len(),
            coin_views(out@) == pair_coins(pairs@.take(i as int), chain@),
        decreases pairs.len() - i,
    {
        assert(pairs@.take(i + 1).drop_last() =~= pairs@.take(i as int));
        match coin_of_pair(&pairs[i], chain) {
            Some(c) => {
                let ghost before = out@;
                out.push(c);
                assert(coin_views(out@) =~= coin_views(before).push(c@));
            },
            None => {},
        }
        i = i + 1;
    }
    assert(pairs@.take(pairs@.len() as int) =~= pairs@);
    out
}

/// Whether a text is among others.
fn is_among(v: &Vec<String>, s: &str) -> (r: bool)
    ensures
        r == text::texts(v@).contains(s@),
{
    let ghost all = text::texts(v@);
    let mut i: usize = 0;
    while i < v.len()
        invariant
            i <= v@.len() == all.len(),
            all == text::texts(v@),
            forall|k: int| 0 <= k < i ==> #[trigger] all[k] != s@,
        decreases v.len() - i,
    {
        assert(all[i as int] == v@[i as int]@);
        if text::same(v[i].as_str(), s) {
            assert(all.contains(s@));
            return true;
        }
        i = i + 1;
    }
    false
}

/// The symbols of coins in lower case.
pub open spec fn symbols_lowered(coins: Seq<CoinView>) -> Seq<Seq<char>> {
    coins.map_values(|c: CoinView| outside::lowercase(c.symbol))
}

/// The coins in this order, the first with each symbol only.
fn keep_first_of_each(coins: &Vec<TrendingCoin>, order: &Vec<usize>) -> (r: Vec<TrendingCoin>)
    requires
        forall|p: int| 0 <= p < order@.len() ==> (#[trigger] order@[p]) < coins@.len(),
    ensures
        coin_views(r@) == first_of_each(reordered(coin_views(coins@), order@)),
{
    let ghost all = reordered(coin_views(coins@), order@);
    let mut out: Vec<TrendingCoin> = Vec::new();
    let mut seen: Vec<String> = Vec::new();
    let mut i: usize = 0;
    proof {
        assert(coin_views(out@) =~= first_of_each(all.take(0)));
        assert(text::texts(seen@) =~= symbols_lowered(all.take(0)));
    }
    while i < order.len()
        invariant
            i <= order@.len() == all.len(),
            all == reordered(coin_views(coins@), order@),
            forall|p: int| 0 <= p < order@.len() ==> (#[trigger] order@[p]) < coins@.len(),
            coin_views(out@) == first_of_each(all.take(i as int)),
            text::texts(seen@) == symbols_lowered(all.take(i as int)),
        decreases order.len() - i,
    {
        let c = &coins[order[i]];
        let ghost front = all.take(i as int);
        let low = outside::to_lowercase(c.symbol.as_str());
        proof {
            assert(all.take(i + 1).drop_last() =~= front);
            assert(all[i as int] == c@);
            assert(all.take(i + 1).last() == c@);
        }
        let known = is_among(&seen, low.as_str());
        proof {
            let sl = symbols_lowered(front);
            if sl.contains(low@) {
                let k = choose|k: int| 0 <= k < sl.len() && sl[k] == low@;
                assert(outside::lowercase(front[k].symbol) == low@);
                assert(has_symbol(front, c.symbol@));
            }
            if has_symbol(front, c.symbol@) {
                let k = choose|k: int|
                    0 <= k < front.len() && outside::lowercase((#[trigger] front[k]).symbol)
                        == outside::lowercase(c.symbol@);
                assert(sl[k] == low@);
                assert(sl.contains(low@));
            }
        }
        if !known {
            let ghost before = out@;
            let one = c.copy();
            out.push(one);
            assert(coin_views(out@) =~= coin_views(before).push(c@));
        }
        let ghost seen_before = seen@;
        seen.push(low);
        proof {
            assert(text::texts(seen@) =~= text::texts(seen_before).push(low@));
            assert(symbols_lowered(all.take(i + 1)) =~= symbols_lowered(front).push(low@));
        }
        i = i + 1;
    }
    assert(all.take(all.len() as int) =~= all);
    out
}

/// The trending coins among the pairs that a search found.
pub fn trending_coins(pairs: &Vec<SearchPair>, chain: &str, limit: usize) -> (r: Vec<TrendingCoin>)
    requires
        volumes_are_numbers(pairs@, chain@),
    ensures
        are_trending(pairs@, chain@, limit as nat, coin_views(r@)),
{
    let coins = coins_of_pairs(pairs, chain);
    let ghost views = coin_views(coins@);
    let ghost all = volume_keys(views);
    let mut keys: Vec<i64> = Vec::new();
    let mut i: usize = 0;
    while i < coins.len()
        invariant
            i <= coins@.len() == all.len(),
            views == coin_views(coins@),
            all == volume_keys(views),
            keys@ == all.take(i as int),
        decreases coins.len() - i,
    {
        let key: i64 = match coins[i].volume_24h_usd {
            Some(v) => rank::float_key(v),
            None => 0,
        };
        keys.push(key);
        assert(views[i as int] == coins@[i as int]@);
        i = i + 1;
        assert(keys@ =~= all.take(i as int));
    }
    assert(all.take(all.len() as int) =~= all);
    let order = rank::descending(&keys);
    let mut out = keep_first_of_each(&coins, &order);
    let ghost kept = out@;
    assert(coin_views(kept).len() == kept.len());
    if out.len() > limit {
        out.truncate(limit);
        assert(coin_views(out@) =~= coin_views(kept).take(limit as int));
    }
    assert(coin_views(out@) == first_coins(first_of_each(reordered(views, order@)), limit as nat));
    out
}

/// The address of the search for a chain.
pub fn search_url(chain: &str) -> (r: String)
    ensures
        r@ == "https://api.dexscreener.com/latest/dex/search?q="@ + chain@,
{
    error::prefixed("https://api.dexscreener.com/latest/dex/search?q=", chain)
}

/// The address of the coins that are advertised, which are taken where the search
/// finds none.
pub const BOOSTS_URL: &'static str = "https://api.dexscreener.com/token-boosts/latest/v1";

/// What follows the answer to the search.
#[derive(Clone, Debug)]
pub enum CoinStep {
    /// Coins were found.
    Found(Vec<TrendingCoin>),
    /// None was found, and the advertised ones are asked for.
    AskBoosts,
}

/// What follows the answer to the search: the trending coins, where there are any.
pub fn after_search(pairs: &Vec<SearchPair>, chain: &str, limit: usize) -> (r: CoinStep)
    requires
        volumes_are_numbers(pairs@, chain@),
    ensures
        match r {
            CoinStep::Found(coins) => coins@.len() > 0 && are_trending(
                pairs@,
                chain@,
                limit as nat,
                coin_views(coins@),
            ),
            CoinStep::AskBoosts => are_trending(pairs@, chain@, limit as nat, Seq::empty()),
        },
{
    let coins = trending_coins(pairs, chain, limit);
    if coins.len() > 0 {
        CoinStep::Found(coins)
    } else {
        assert(coin_views(coins@) =~= Seq::empty());
        CoinStep::AskBoosts
    }
}

/// A coin that is advertised.
#[derive(Clone, Debug)]
pub struct BoostEntry {
    pub chain_id: String,
    pub token_address: String,
    pub description: Option<String>,
    pub url: Option<String>,
}

/// The symbol that a description names behind a dollar sign.
pub open spec fn described_symbol(desc: Option<Seq<char>>) -> Option<Seq<char>> {
    match desc {
        Some(d) => patterns::first_symbol(d, 0),
        None => None,
    }
}

/// The symbol that a description names behind a dollar sign.
pub fn derive_symbol_from_description(desc: &Option<String>) -> (r: Option<String>)
    ensures
        text::opt_text(r) == described_symbol(text::opt_text(*desc)),
{
    match desc {
        Some(d) => {
            proof {
                assert(Pattern::Symbol.source() == patterns::SYMBOL@);
            }
            let matches = outside::regex_captures(patterns::SYMBOL, d.as_str());
            let ghost m = patterns::groups_of(matches@);
            proof {
                assert(m == Pattern::Symbol.matches(d@, 0));
                patterns::lemma_first_symbol(d@, 0);
            }
            if matches.len() == 0 {
                return None;
            }
            proof {
                patterns::lemma_all_take_part(Pattern::Symbol, d@, 0, 0);
            }
            assert(m[0][1] == text::opt_text(matches@[0]@[1]));
            matches[0][1].clone()
        },
        None => None,
    }
}

/// An address, shortened to its ends.
pub open spec fn shortened(addr: Seq<char>) -> Seq<char> {
    if bytes::byte_len(addr) < 8 {
        addr
    } else {
        bytes::byte_prefix(addr, 4) + "…"@ + bytes::byte_suffix(addr, bytes::byte_len(addr) - 4)
    }
}

/// The address can be cut at its ends.
pub open spec fn can_shorten(addr: Seq<char>) -> bool {
    bytes::byte_len(addr) >= 8 ==> bytes::cuts_at(addr, 4) && bytes::cuts_at(
        addr,
        bytes::byte_len(addr) - 4,
    )
}

/// Whether the address can be cut at its ends.
pub fn is_shortenable(addr: &str) -> (r: bool)
    ensures
        r == can_shorten(addr@),
{
    let n = bytes::len(addr);
    n < 8 || (bytes::cuts(addr, 4) && bytes::cuts(addr, n - 4))
}

/// An address, shortened to its ends.
pub fn short_address(addr: &str) -> (r: String)
    requires
        can_shorten(addr@),
    ensures
        r@ == shortened(addr@),
{
    let n = bytes::len(addr);
    if n < 8 {
        addr.to_owned()
    } else {
        let (mut out, _rest) = bytes::cut(addr, 4);
        let (_front, tail) = bytes::cut(addr, n - 4);
        out.append("…");
        out.append(tail.as_str());
        out
    }
}

/// The coin that is advertised.
pub open spec fn boost_coin(b: BoostEntry) -> CoinView {
    CoinView {
        symbol: match described_symbol(text::opt_text(b.description)) {
            Some(s) => s,
            None => shortened(b.token_address@),
        },
        name: match b.description {
            Some(d) => d@,
            None => "Boosted Token"@,
        },
        chain: b.chain_id@,
        address: b.token_address@,
        price_usd: None,
        volume_24h_usd: None,
        fdv_usd: None,
        url: text::text_or_empty(b.url),
    }
}

/// The coins of a chain that are advertised, at most so many.
pub open spec fn boost_coins(
    boosts: Seq<BoostEntry>,
    chain: Seq<char>,
    limit: nat,
) -> Seq<CoinView>
    decreases boosts.len(),
{
    if boosts.len() == 0 {
        Seq::empty()
    } else {
        let front = boost_coins(boosts.drop_last(), chain, limit);
        if front.len() < limit && lines::same_ignoring_case(boosts.last().chain_id@, chain) {
            front.push(boost_coin(boosts.last()))
        } else {
            front
        }
    }
}

/// An advertised coin is one of the chain, and goes by its address.
pub open spec fn goes_by_address(b: BoostEntry, chain: Seq<char>) -> bool {
    lines::same_ignoring_case(b.chain_id@, chain) && described_symbol(
        text::opt_text(b.description),
    ) is None
}

/// The address of the `i`-th advertised coin can be shortened, where it stands for
/// the symbol of a coin that is taken.
pub open spec fn boost_fits(
    boosts: Seq<BoostEntry>,
    chain: Seq<char>,
    limit: nat,
    i: int,
) -> bool {
    goes_by_address(boosts[i], chain) && boost_coins(boosts.take(i), chain, limit).len() < limit
        ==> can_shorten(boosts[i].token_address@)
}

/// The addresses that stand for a symbol can be shortened.
pub open spec fn boosts_can_shorten(
    boosts: Seq<BoostEntry>,
    chain: Seq<char>,
    limit: nat,
) -> bool {
    forall|i: int| 0 <= i < boosts.len() ==> #[trigger] boost_fits(boosts, chain, limit, i)
}

/// Whether an advertised coin is one of the chain, and goes by its address.
fn is_by_address(b: &BoostEntry, chain: &str) -> (r: bool)
    ensures
        r == goes_by_address(*b, chain@),
{
    lines::eq_ignore_ascii_case(b.chain_id.as_str(), chain) && derive_symbol_from_description(
        &b.description,
    ).is_none()
}

/// Whether the addresses that stand for a symbol can be shortened.
pub fn are_shortenable(boosts: &Vec<BoostEntry>, chain: &str, limit: usize) -> (r: bool)
    ensures
        r == boosts_can_shorten(boosts@, chain@, limit as nat),
{
    let ghost l = limit as nat;
    let mut taken: usize = 0;
    let mut i: usize = 0;
    while i < boosts.len()
        invariant
            i <= boosts@.len(),
            l == limit,
            taken == boost_coins(boosts@.take(i as int), chain@, l).len(),
            taken <= limit,
            forall|k: int| 0 <= k < i ==> #[trigger] boost_fits(boosts@, chain@, l, k),
        decreases boosts.len() - i,
    {
        let ghost next = boosts@.take(i + 1);
        proof {
            assert(next.drop_last() =~= boosts@.take(i as int));
            assert(next.last() == boosts@[i as int]);
        }
        if taken < limit {
            if is_by_address(&boosts[i], chain) && !is_shortenable(
                boosts[i].token_address.as_str(),
            ) {
                assert(!boost_fits(boosts@, chain@, l, i as int));
                return false;
            }
            if lines::eq_ignore_ascii_case(boosts[i].chain_id.as_str(), chain) {
                taken = taken + 1;
            }
        }
        assert(boost_fits(boosts@, chain@, l, i as int));
        i = i + 1;
    }
    true
}

/// The coin that is advertised.
fn coin_of_boost(b: &BoostEntry) -> (r: TrendingCoin)
    requires
        described_symbol(text::opt_text(b.description)) is None ==> can_shorten(b.token_address@),
    ensures
        r@ == boost_coin(*b),
{
    let symbol = match derive_symbol_from_description(&b.description) {
        Some(s) => s,
        None => short_address(b.token_address.as_str()),
    };
    let name = match &b.description {
        Some(d) => d.clone(),
        None => "Boosted Token".to_owned(),
    };
    let url = match &b.url {
        Some(u) => u.clone(),
        None => {
            let u = String::new();
            assert(u@ =~= Seq::<char>::empty());
            u
        },
    };
    TrendingCoin {
        symbol,
        name,
        chain: b.chain_id.clone(),
        address: b.token_address.clone(),
        price_usd: None,
        volume_24h_usd: None,
        fdv_usd: None,
        url,
    }
}

/// The coins of a chain that are advertised, at most so many.
pub fn boosted_coins(boosts: &Vec<BoostEntry>, chain: &str, limit: usize) -> (r: Vec<TrendingCoin>)
    requires
        boosts_can_shorten(boosts@, chain@, limit as nat),
    ensures
        coin_views(r@) == boost_coins(boosts@, chain@, limit as nat),
{
    let mut out: Vec<TrendingCoin> = Vec::new();
    let mut i: usize = 0;
    assert(coin_views(out@) =~= boost_coins(boosts@.take(0), chain@, limit as nat));
    while i < boosts.len()
        invariant
            i <= boosts@.len(),
            boosts_can_shorten(boosts@, chain@, limit as nat),
            coin_views(out@) == boost_coins(boosts@.take(i as int), chain@, limit as nat),
        decreases boosts.len() - i,
    {
        assert(boosts@.take(i + 1).drop_last() =~= boosts@.take(i as int));
        let b = &boosts[i];
        assert(coin_views(out@).len() == out@.len());
        if out.len() < limit && lines::eq_ignore_ascii_case(b.chain_id.as_str(), chain) {
            assert(boost_fits(boosts@, chain@, limit as nat, i as int));
            let coin = coin_of_boost(b);
            let ghost before = out@;
            out.push(coin);
            assert(coin_views(out@) =~= coin_views(before).push(coin@));
        }
        i = i + 1;
    }
    assert(boosts@.take(boosts@.len() as int) =~= boosts@);
    out
}

/// One of the coins at random; none only where there is none.
pub fn pick_random(coins: &Vec<TrendingCoin>) -> (r: Option<TrendingCoin>)
    ensures
        match r {
            Some(c) => coin_views(coins@).contains(c@),
            None => coins@.len() == 0,
        },
{
    match outside::choose_one(coins) {
        Some(coin) => {
            proof {
                let i = choose|i: int| 0 <= i < coins@.len() && coins@[i] == *coin;
                assert(coin_views(coins@)[i] == coins@[i]@);
            }
            Some(coin.copy())
        },
        None => None,
    }
}

/// No two trending coins have one symbol, whatever its case.
pub proof fn trending_symbols_differ(coins: Seq<CoinView>, i: int, j: int)
    requires
        0 <= i < j < first_of_each(coins).len(),
    ensures
        outside::lowercase(first_of_each(coins)[i].symbol) != outside::lowercase(
            first_of_each(coins)[j].symbol,
        ),
    decreases coins.len(),
{
    if coins.len() > 0 {
        let front = first_of_each(coins.drop_last());
        if j < front.len() {
            trending_symbols_differ(coins.drop_last(), i, j);
        } else {
            lemma_first_of_each_among(coins.drop_last(), i);
            if outside::lowercase(front[i].symbol) == outside::lowercase(coins.last().symbol) {
                let k = choose|k: int|
                    0 <= k < coins.drop_last().len() && coins.drop_last()[k] == front[i];
                assert(has_symbol(coins.drop_last(), coins.last().symbol));
            }
        }
    }
}

proof fn lemma_first_of_each_among(coins: Seq<CoinView>, i: int)
    requires
        0 <= i < first_of_each(coins).len(),
    ensures
        exists|k: int| 0 <= k < coins.len() && coins[k] == first_of_each(coins)[i],
    decreases coins.len(),
{
    if coins.len() > 0 {
        let front = first_of_each(coins.drop_last());
        if i < front.len() {
            lemma_first_of_each_among(coins.drop_last(), i);
            let k = choose|k: int| 0 <= k < coins.len() - 1 && coins.drop_last()[k] == front[i];
            assert(coins[k] == front[i]);
        } else {
            assert(coins[coins.len() - 1] == first_of_each(coins)[i]);
        }
    }
}

// ---------------------------------------------------------------------------
// The shared state
// ---------------------------------------------------------------------------

/// A parody coin.
#[derive(Clone, Debug)]
pub struct GeneratedCoin {
    pub id: Uuid,
    pub created_at: Timestamp,
    pub name: String,
    pub ticker: String,
    pub blurb: String,
    pub website: String,
    pub source_coin: TrendingCoin,
    pub source_trend: Option<ScrapedTrend>,
    pub listing_path: String,
}

/// The most coins that are remembered.
pub const MAX_COINS: usize = 200;

/// What the services and the interface share.
pub struct VampState {
    pub config: VampConfig,
    pub trends: Vec<ScrapedTrend>,
    pub coins: Vec<GeneratedCoin>,
    pub last_scrape: Option<Timestamp>,
    pub last_generate: Option<Timestamp>,
}

/// The last `n` of a sequence.
pub open spec fn last_of<T>(s: Seq<T>, n: nat) -> Seq<T> {
    if s.len() > n {
        s.skip(s.len() - n)
    } else {
        s
    }
}

impl VampState {
    /// The state before anything happened.
    pub fn new(config: VampConfig) -> (r: Self)
        ensures
            r.config == config,
            r.trends@.len() == 0,
            r.coins@.len() == 0,
            r.last_scrape is None,
            r.last_generate is None,
    {
        VampState {
            config,
            trends: Vec::new(),
            coins: Vec::new(),
            last_scrape: None,
            last_generate: None,
        }
    }

    /// The configuration.
    pub fn config(&self) -> (r: VampConfig)
        ensures
            r.same_as(self.config),
    {
        self.config.copy()
    }

    /// Replaces the configuration.
    pub fn update_config(&mut self, config: VampConfig) -> (r: VampConfig)
        ensures
            *final(self) == (VampState { config, ..*old(self) }),
            r.same_as(config),
    {
        self.config = config;
        self.config.copy()
    }

    /// Replaces the trends by those of a new scrape.
    pub fn replace_trends(&mut self, trends: Vec<ScrapedTrend>, at: Timestamp)
        ensures
            *final(self) == (VampState { trends, last_scrape: Some(at), ..*old(self) }),
    {
        self.trends = trends;
        self.last_scrape = Some(at);
    }

    /// Takes over what a scrape found: nothing changes where it found nothing.
    pub fn scraped(&mut self, trends: Vec<ScrapedTrend>, at: Timestamp)
        ensures
            *final(self) == if trends@.len() > 0 {
                VampState { trends, last_scrape: Some(at), ..*old(self) }
            } else {
                *old(self)
            },
    {
        if trends.len() > 0 {
            self.replace_trends(trends, at);
        }
    }

    /// Remembers a coin; of more coins than are remembered, the oldest are
    /// forgotten.
    pub fn push_coin(&mut self, coin: GeneratedCoin, at: Timestamp)
        ensures
            final(self).coins@ == last_of(old(self).coins@.push(coin), MAX_COINS as nat),
            final(self).last_generate == Some(at),
            final(self).config == old(self).config,
            final(self).trends == old(self).trends,
            final(self).last_scrape == old(self).last_scrape,
    {
        let mut coins: Vec<GeneratedCoin> = Vec::new();
        std::mem::swap(&mut coins, &mut self.coins);
        coins.push(coin);
        let ghost all = coins@;
        let ghost mut dropped: int = 0;
        assert(all.skip(0) =~= all);
        while coins.len() > MAX_COINS
            invariant
                0 <= dropped <= all.len(),
                coins@ == all.skip(dropped),
                all.len() > MAX_COINS ==> coins@.len() >= MAX_COINS,
                all.len() <= MAX_COINS ==> dropped == 0,
            decreases coins.len(),
        {
            coins.remove(0);
            proof {
                dropped = dropped + 1;
                assert(coins@ =~= all.skip(dropped));
            }
        }
        assert(coins@ =~= last_of(all, MAX_COINS as nat));
        self.coins = coins;
        self.last_generate = Some(at);
    }

    pub fn trends(&self) -> (r: &Vec<ScrapedTrend>)
        ensures
            *r == self.trends,
    {
        &self.trends
    }

    pub fn coins(&self) -> (r: &Vec<GeneratedCoin>)
        ensures
            *r == self.coins,
    {
        &self.coins
    }

    pub fn last_scrape(&self) -> (r: Option<Timestamp>)
        ensures
            r == self.last_scrape,
    {
        self.last_scrape
    }

    pub fn last_generate(&self) -> (r: Option<Timestamp>)
        ensures
            r == self.last_generate,
    {
        self.last_generate
    }
}

/// A coin that was just remembered is the last, and no more are remembered than
/// there may be.
pub proof fn newest_coin_is_kept(coins: Seq<GeneratedCoin>, coin: GeneratedCoin)
    ensures
        last_of(coins.push(coin), MAX_COINS as nat).len() <= MAX_COINS,
        last_of(coins.push(coin), MAX_COINS as nat).last() == coin,
{
}

// ---------------------------------------------------------------------------
// What trends and coins are taken, and how
// ---------------------------------------------------------------------------

/// The longest of the texts is as long as any.
proof fn lemma_longest(v: Seq<Seq<char>>, n: nat)
    requires
        0 < n <= v.len(),
    ensures
        0 <= longest(v, n) < n,
        forall|i: int|
            0 <= i < n ==> bytes::byte_len(#[trigger] v[i]) <= bytes::byte_len(v[longest(v, n)]),
        forall|i: int|
            longest(v, n) < i < n ==> bytes::byte_len(#[trigger] v[i]) < bytes::byte_len(
                v[longest(v, n)],
            ),
    decreases n,
{
    if n > 1 {
        lemma_longest(v, (n - 1) as nat);
    }
}

/// The text that is found is the first that speaks of posts.
proof fn lemma_first_posts(v: Seq<Seq<char>>, from: int)
    requires
        0 <= from,
    ensures
        match first_posts(v, from) {
            Some(k) => from <= k < v.len() && text::has(v[k], "post"@) && forall|i: int|
                from <= i < k ==> !text::has(#[trigger] v[i], "post"@),
            None => forall|i: int| from <= i < v.len() ==> !text::has(#[trigger] v[i], "post"@),
        },
    decreases v.len() - from,
{
    if from < v.len() && !text::has(v[from], "post"@) {
        lemma_first_posts(v, from + 1);
    }
}

/// The name of a trend is a line of its cell than which no other is longer, the last of
/// several. Its category is the first line, and it has one exactly where that is not the
/// name. Its number of posts is the first line that speaks of posts, and it has one exactly
/// where a line does.
pub proof fn trends_are_read(cell: Seq<char>, at: Timestamp, t: ScrapedTrend)
    requires
        shown_lines(cell).len() > 0,
        cell_trend(cell, at, t),
    ensures
        t.scraped_at == at,
        exists|k: int|
            0 <= k < shown_lines(cell).len() && t.name@ == text::trimmed(
                #[trigger] shown_lines(cell)[k],
            ) && (forall|i: int|
                0 <= i < shown_lines(cell).len() ==> bytes::byte_len(
                    #[trigger] shown_lines(cell)[i],
                ) <= bytes::byte_len(shown_lines(cell)[k])) && (forall|i: int|
                k < i < shown_lines(cell).len() ==> bytes::byte_len(
                    #[trigger] shown_lines(cell)[i],
                ) < bytes::byte_len(shown_lines(cell)[k])),
        t.category is Some <==> text::trimmed(shown_lines(cell)[0]) != t.name@,
        t.category is Some ==> t.category.unwrap()@ == text::trimmed(shown_lines(cell)[0]),
        t.post_count is Some <==> exists|i: int|
            0 <= i < shown_lines(cell).len() && text::has(
                outside::lowercase(#[trigger] shown_lines(cell)[i]),
                "post"@,
            ),
        forall|i: int|
            0 <= i < shown_lines(cell).len() && text::has(
                outside::lowercase(#[trigger] shown_lines(cell)[i]),
                "post"@,
            ) && (forall|j: int|
                0 <= j < i ==> !text::has(
                    outside::lowercase(#[trigger] shown_lines(cell)[j]),
                    "post"@,
                )) ==> text::opt_text(t.post_count) == Some(text::trimmed(shown_lines(cell)[i])),
{
    let ls = shown_lines(cell);
    let low = lowered(ls);
    lemma_longest(ls, ls.len());
    lemma_first_posts(low, 0);
    assert forall|i: int| 0 <= i < ls.len() implies #[trigger] low[i] == outside::lowercase(
        ls[i],
    ) by {}
    let k = longest(ls, ls.len());
    assert(t.name@ == text::trimmed(ls[k]));
    match first_posts(low, 0) {
        Some(p) => {
            assert(text::has(low[p], "post"@));
            assert(text::has(outside::lowercase(ls[p]), "post"@));
            assert forall|i: int|
                0 <= i < ls.len() && text::has(outside::lowercase(#[trigger] ls[i]), "post"@) && (
                forall|j: int|
                    0 <= j < i ==> !text::has(
                        outside::lowercase(#[trigger] ls[j]),
                        "post"@,
                    )) implies text::opt_text(t.post_count) == Some(text::trimmed(ls[i])) by {
                assert(text::has(low[i], "post"@));
                if p < i {
                    assert(text::has(outside::lowercase(ls[p]), "post"@));
                }
                assert(i == p);
            }
        },
        None => {
            assert forall|i: int| 0 <= i < ls.len() implies !text::has(
                outside::lowercase(#[trigger] ls[i]),
                "post"@,
            ) by {
                assert(!text::has(low[i], "post"@));
            }
        },
    }
}

/// The tweet of a trend is looked up at an address that tells the trend's name, and the
/// tweet that was found there becomes that trend's. Everything else of the trends stays.
pub proof fn tweets_belong_to_their_trends(
    before: Seq<ScrapedTrend>,
    addresses: Seq<Seq<char>>,
    tweets: Seq<Option<ScrapedTweet>>,
    after: Seq<ScrapedTrend>,
    k: int,
)
    requires
        are_looked_up(before, addresses),
        are_attached(before, tweets, after),
        tweets.len() == addresses.len(),
        0 <= k < before.len(),
    ensures
        after.len() == before.len(),
        addresses.len() <= 5,
        k < addresses.len() ==> text::has(addresses[k], url_bytes(encode_utf8(before[k].name@))),
        k < addresses.len() && tweets[k] is Some ==> after[k].top_tweet == tweets[k],
        k >= addresses.len() || tweets[k] is None ==> after[k] == before[k],
        after[k].name == before[k].name,
        after[k].category == before[k].category,
        after[k].post_count == before[k].post_count,
        after[k].scraped_at == before[k].scraped_at,
{
    assert(after[k].name == before[k].name);
    if k < addresses.len() {
        passages::lemma_stands(
            "https://x.com/search?q="@,
            url_bytes(encode_utf8(before[k].name@)),
            "&src=trend_click&f=live"@,
        );
        assert(addresses[k] == search_address(before[k].name@));
    }
}

/// An article with a link shows a tweet that stands where the link leads, by the author
/// that the first line of the name tells, with the first lines of the article, eight at
/// most, in their order.
pub proof fn articles_are_read(
    article: Seq<char>,
    href: Seq<char>,
    name: Seq<char>,
    r: Option<ScrapedTweet>,
)
    requires
        article_shows(article, Some(href), Some(name), r),
    ensures
        r is Some,
        text::ends_in(r.unwrap().url@, href),
        text::begins_with(r.unwrap().url@, "http"@),
        lines::lines_of(name).len() > 0 ==> r.unwrap().author@ == lines::lines_of(name)[0],
        lines::lines_of(article).len() <= 8 ==> passages::in_order(
            r.unwrap().text@,
            lines::lines_of(article),
        ),
        lines::lines_of(article).len() > 8 ==> passages::in_order(
            r.unwrap().text@,
            lines::lines_of(article).take(8),
        ),
{
    passages::lemma_joined(first_lines(article, 8), " "@);
    let url = r.unwrap().url@;
    assert(url.subrange(url.len() - href.len(), url.len() as int) =~= href);
    if !text::begins_with(href, "http"@) {
        reveal_strlit("https://x.com");
        reveal_strlit("http");
        assert(url.subrange(0, 4) =~= "http"@);
    }
}

/// The coin of a pair is that of its token: one of the chain, with a symbol, and with what
/// the pair tells of it.
pub proof fn coins_are_those_of_pairs(p: SearchPair, chain: Seq<char>, token: TokenInfo)
    requires
        p.base_token == Some(token) || p.base_token is None && p.base_token_camel == Some(token),
    ensures
        p.chain_id@.len() > 0 ==> (pair_coin(p, chain) is Some <==> lines::same_ignoring_case(
            p.chain_id@,
            chain,
        ) && token.symbol@.len() > 0),
        p.chain_id@.len() == 0 ==> (pair_coin(p, chain) is Some <==> lines::same_ignoring_case(
            p.chain_id_camel@,
            chain,
        ) && token.symbol@.len() > 0),
        pair_coin(p, chain) is Some ==> ({
            let c = pair_coin(p, chain).unwrap();
            &&& c.symbol == token.symbol@
            &&& token.name@.len() > 0 ==> c.name == token.name@
            &&& c.address == token.address@
            &&& lines::same_ignoring_case(c.chain, chain)
            &&& c.url == p.url@
            &&& c.price_usd == text::opt_text(p.price_usd)
            &&& c.volume_24h_usd == p.volume_h24
            &&& c.fdv_usd == p.fdv
        }),
{
}

/// The coins of pairs are those of the pairs that have one, in the order of the pairs.
proof fn lemma_pair_coins(pairs: Seq<SearchPair>, chain: Seq<char>)
    ensures
        forall|i: int|
            0 <= i < pairs.len() && pair_coin(#[trigger] pairs[i], chain) is Some ==> pair_coins(
                pairs,
                chain,
            ).contains(pair_coin(pairs[i], chain).unwrap()),
        forall|k: int|
            0 <= k < pair_coins(pairs, chain).len() ==> comes_from(
                pairs,
                chain,
                #[trigger] pair_coins(pairs, chain)[k],
            ),
    decreases pairs.len(),
{
    if pairs.len() > 0 {
        let front = pairs.drop_last();
        let before = pair_coins(front, chain);
        let all = pair_coins(pairs, chain);
        lemma_pair_coins(front, chain);
        assert forall|i: int| 0 <= i < pairs.len() && pair_coin(
            #[trigger] pairs[i],
            chain,
        ) is Some implies all.contains(pair_coin(pairs[i], chain).unwrap()) by {
            let c = pair_coin(pairs[i], chain).unwrap();
            if i < front.len() {
                assert(front[i] == pairs[i]);
                assert(before.contains(c));
                let k = choose|k: int| 0 <= k < before.len() && before[k] == c;
                assert(all[k] == c);
            } else {
                assert(all[all.len() - 1] == c);
            }
        }
        assert forall|k: int| 0 <= k < all.len() implies comes_from(
            pairs,
            chain,
            #[trigger] all[k],
        ) by {
            if k < before.len() {
                assert(all[k] == before[k]);
                assert(comes_from(front, chain, before[k]));
                let i = choose|i: int|
                    0 <= i < front.len() && pair_coin(#[trigger] front[i], chain) == Some(
                        before[k],
                    );
                assert(pair_coin(pairs[i], chain) == Some(all[k]));
            } else {
                assert(pair_coin(pairs[pairs.len() - 1], chain) == Some(all[k]));
            }
        }
    }
}

/// The coin is that of one of the pairs.
pub open spec fn comes_from(pairs: Seq<SearchPair>, chain: Seq<char>, c: CoinView) -> bool {
    exists|i: int| 0 <= i < pairs.len() && pair_coin(#[trigger] pairs[i], chain) == Some(c)
}

/// Of the coins one with each symbol is kept, in their order.
proof fn lemma_first_of_each(coins: Seq<CoinView>)
    ensures
        first_of_each(coins).len() <= coins.len(),
        forall|i: int|
            0 <= i < coins.len() ==> has_symbol(
                first_of_each(coins),
                (#[trigger] coins[i]).symbol,
            ),
        forall|i: int, j: int|
            0 <= i < j < first_of_each(coins).len() ==> #[trigger] stand_so(
                coins,
                first_of_each(coins)[i],
                first_of_each(coins)[j],
            ),
    decreases coins.len(),
{
    if coins.len() > 0 {
        let front = coins.drop_last();
        let before = first_of_each(front);
        let all = first_of_each(coins);
        lemma_first_of_each(front);
        assert forall|i: int| 0 <= i < coins.len() implies has_symbol(
            all,
            (#[trigger] coins[i]).symbol,
        ) by {
            if i < front.len() || has_symbol(front, coins.last().symbol) {
                let q = if i < front.len() {
                    i
                } else {
                    choose|q: int|
                        0 <= q < front.len() && outside::lowercase((#[trigger] front[q]).symbol)
                            == outside::lowercase(coins.last().symbol)
                };
                assert(has_symbol(before, front[q].symbol));
                let k = choose|k: int|
                    0 <= k < before.len() && outside::lowercase((#[trigger] before[k]).symbol)
                        == outside::lowercase(front[q].symbol);
                assert(all[k] == before[k]);
            } else {
                assert(all[all.len() - 1] == coins.last());
            }
        }
        assert forall|i: int, j: int| 0 <= i < j < all.len() implies #[trigger] stand_so(
            coins,
            all[i],
            all[j],
        ) by {
            assert(all[i] == before[i]);
            if j < before.len() {
                assert(all[j] == before[j]);
                assert(stand_so(front, before[i], before[j]));
                let (p, q) = choose|p: int, q: int|
                    0 <= p < q < front.len() && #[trigger] front[p] == before[i]
                        && #[trigger] front[q] == before[j];
                assert(coins[p] == all[i] && coins[q] == all[j]);
            } else {
                lemma_first_of_each_among(front, i);
                let p = choose|p: int| 0 <= p < front.len() && front[p] == before[i];
                assert(coins[p] == all[i] && coins[coins.len() - 1] == all[j]);
            }
        }
    }
}

/// The one coin stands before the other.
pub open spec fn stand_so(coins: Seq<CoinView>, a: CoinView, b: CoinView) -> bool {
    exists|p: int, q: int|
        0 <= p < q < coins.len() && #[trigger] coins[p] == a && #[trigger] coins[q] == b
}

/// The trending coins are coins of the pairs, no more than are wanted, no two with one
/// symbol, and none behind one that was traded less. Where fewer are given than are wanted,
/// there is one for the symbol of every coin of the pairs.
pub proof fn coins_trend_by_volume(
    pairs: Seq<SearchPair>,
    chain: Seq<char>,
    limit: nat,
    r: Seq<CoinView>,
)
    requires
        are_trending(pairs, chain, limit, r),
        pair_coins(pairs, chain).len() <= usize::MAX,
    ensures
        r.len() <= limit,
        forall|k: int| 0 <= k < r.len() ==> comes_from(pairs, chain, #[trigger] r[k]),
        forall|i: int, j: int|
            0 <= i < j < r.len() ==> outside::lowercase((#[trigger] r[i]).symbol)
                != outside::lowercase((#[trigger] r[j]).symbol) && volume_key(r[i]) >= volume_key(
                r[j],
            ),
        r.len() < limit ==> forall|i: int|
            0 <= i < pairs.len() && pair_coin(#[trigger] pairs[i], chain) is Some ==> has_symbol(
                r,
                pair_coin(pairs[i], chain).unwrap().symbol,
            ),
{
    let coins = pair_coins(pairs, chain);
    let keys = volume_keys(coins);
    let order = choose|order: Seq<usize>| #[trigger]
        rank::is_ranking(keys, order) && r == first_coins(
            first_of_each(reordered(coins, order)),
            limit,
        );
    let ranked = reordered(coins, order);
    let kept = first_of_each(ranked);
    lemma_pair_coins(pairs, chain);
    lemma_first_of_each(ranked);
    assert forall|k: int| 0 <= k < r.len() implies comes_from(pairs, chain, #[trigger] r[k]) by {
        lemma_first_of_each_among(ranked, k);
        assert(r[k] == kept[k]);
        let q = choose|q: int| 0 <= q < ranked.len() && ranked[q] == kept[k];
        assert(ranked[q] == coins[order[q] as int]);
        assert(comes_from(pairs, chain, coins[order[q] as int]));
    }
    assert forall|i: int, j: int| 0 <= i < j < r.len() implies outside::lowercase(
        (#[trigger] r[i]).symbol,
    ) != outside::lowercase((#[trigger] r[j]).symbol) && volume_key(r[i]) >= volume_key(r[j]) by {
        trending_symbols_differ(ranked, i, j);
        assert(r[i] == kept[i] && r[j] == kept[j]);
        assert(stand_so(ranked, kept[i], kept[j]));
        let (p, q) = choose|p: int, q: int|
            0 <= p < q < ranked.len() && #[trigger] ranked[p] == kept[i] && #[trigger] ranked[q]
                == kept[j];
        assert(rank::outranks(keys, order[p] as int, order[q] as int));
        assert(keys[order[p] as int] == volume_key(coins[order[p] as int]));
        assert(keys[order[q] as int] == volume_key(coins[order[q] as int]));
    }
    if r.len() < limit {
        assert(r == kept);
        assert forall|i: int| 0 <= i < pairs.len() && pair_coin(
            #[trigger] pairs[i],
            chain,
        ) is Some implies has_symbol(r, pair_coin(pairs[i], chain).unwrap().symbol) by {
            let c = pair_coin(pairs[i], chain).unwrap();
            assert(coins.contains(c));
            let k = choose|k: int| 0 <= k < coins.len() && coins[k] == c;
            assert(order.contains(k as usize));
            let q = choose|q: int| 0 <= q < order.len() && order[q] == k as usize;
            assert(ranked[q] == c);
        }
    }
}

/// The advertised coins that are taken are those of the chain, the first so many: what is
/// taken of more entries begins with what is taken of the first, and one entry gives its
/// coin where there is room and it is one of the chain.
pub proof fn advertised_coins_are_taken(
    boosts: Seq<BoostEntry>,
    b: BoostEntry,
    chain: Seq<char>,
    limit: nat,
)
    ensures
        boost_coins(boosts, chain, limit).len() <= limit,
        boost_coins(boosts, chain, limit).is_prefix_of(boost_coins(boosts.push(b), chain, limit)),
        boost_coins(boosts, chain, limit).len() < limit && lines::same_ignoring_case(
            b.chain_id@,
            chain,
        ) ==> ({
            let all = boost_coins(boosts.push(b), chain, limit);
            &&& all.len() == boost_coins(boosts, chain, limit).len() + 1
            &&& all.last().address == b.token_address@
            &&& all.last().chain == b.chain_id@
            &&& b.description is Some ==> all.last().name == b.description.unwrap()@
            &&& b.url is Some ==> all.last().url == b.url.unwrap()@
            &&& all.last().volume_24h_usd is None
        }),
        !lines::same_ignoring_case(b.chain_id@, chain) ==> boost_coins(
            boosts.push(b),
            chain,
            limit,
        ) == boost_coins(boosts, chain, limit),
    decreases boosts.len(),
{
    assert(boosts.push(b).drop_last() =~= boosts);
    if boosts.len() > 0 {
        advertised_coins_are_taken(boosts.drop_last(), boosts.last(), chain, limit);
        assert(boosts.drop_last().push(boosts.last()) =~= boosts);
    }
    let before = boost_coins(boosts, chain, limit);
    let all = boost_coins(boosts.push(b), chain, limit);
    assert(all.subrange(0, before.len() as int) =~= before);
}

/// The symbol of an advertised coin stands in its description behind a dollar sign, or else
/// is made of the ends of its address.
pub proof fn advertised_coins_are_named(b: BoostEntry)
    ensures
        described_symbol(text::opt_text(b.description)) is Some ==> text::has(
            b.description.unwrap()@,
            seq!['$'] + boost_coin(b).symbol,
        ),
        described_symbol(text::opt_text(b.description)) is None && bytes::byte_len(
            b.token_address@,
        ) < 8 ==> boost_coin(b).symbol == b.token_address@,
        described_symbol(text::opt_text(b.description)) is None && bytes::byte_len(
            b.token_address@,
        ) >= 8 ==> text::begins_with(
            boost_coin(b).symbol,
            bytes::byte_prefix(b.token_address@, 4),
        ) && text::ends_in(
            boost_coin(b).symbol,
            bytes::byte_suffix(b.token_address@, bytes::byte_len(b.token_address@) - 4),
        ),
{
    match b.description {
        Some(d) => {
            if described_symbol(Some(d@)) is Some {
                lemma_symbol_stands(d@, 0);
            }
        },
        None => {},
    }
    let a = b.token_address@;
    if bytes::byte_len(a) >= 8 {
        let head = bytes::byte_prefix(a, 4);
        let tail = bytes::byte_suffix(a, bytes::byte_len(a) - 4);
        let s = shortened(a);
        assert(s.subrange(0, head.len() as int) =~= head);
        assert(s.subrange(s.len() - tail.len(), s.len() as int) =~= tail);
    }
}

proof fn lemma_symbol_stands(s: Seq<char>, i: int)
    requires
        0 <= i,
        patterns::first_symbol(s, i) is Some,
    ensures
        text::has(s, seq!['$'] + patterns::first_symbol(s, i).unwrap()),
    decreases s.len() - i,
{
    let found = patterns::first_symbol(s, i).unwrap();
    if s[i] == '$' && patterns::symbol_len(s, i + 1, 12) >= 2 {
        patterns::lemma_symbol_len(s, i + 1, 12);
        assert(s.subrange(i, i + 1 + found.len()) =~= seq!['$'] + found);
        assert(text::occurs_at(s, seq!['$'] + found, i));
    } else {
        lemma_symbol_stands(s, i + 1);
    }
}

/// Up to two hundred coins are remembered, all of them in the order in which they were
/// made; beyond that each new one takes the place of the oldest.
pub proof fn oldest_coins_are_forgotten(coins: Seq<GeneratedCoin>, coin: GeneratedCoin)
    requires
        coins.len() <= 200,
    ensures
        coins.len() < 200 ==> last_of(coins.push(coin), MAX_COINS as nat) == coins.push(coin),
        coins.len() == 200 ==> last_of(coins.push(coin), MAX_COINS as nat)
            == coins.drop_first().push(coin),
{
    if coins.len() == 200 {
        assert(coins.push(coin).skip(1) =~= coins.drop_first().push(coin));
    }
}

} // verus!
