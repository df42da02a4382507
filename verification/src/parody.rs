//! Parody coins: what the model is asked for one, what is made of its answer, and
//! the page that lists the coin.
use vstd::prelude::*;

use crate::bytes;
use crate::error;
use crate::error::RustlizaError;
use crate::ids;
use crate::ids::Uuid;
use crate::lines;
use crate::number;
use crate::outside;
use crate::passages;
use crate::respond;
use crate::runtime::Plugin;
use crate::text;
use crate::time;
use crate::types::{ActionResult, GenerateTextParams, ModelType};
use crate::vamp::{GeneratedCoin, ScrapedTrend, ScrapedTweet, TrendingCoin};

verus! {

// ---------------------------------------------------------------------------
// The choice of a trend
// ---------------------------------------------------------------------------

/// The most bytes of a word that counts only where it is a word of the name.
pub const SHORT_WORD: usize = 3;

/// The word is found in the name: a short one among its words, any other
/// anywhere.
pub open spec fn found_in(word: Seq<char>, name: Seq<char>) -> bool {
    if bytes::byte_len(word) <= SHORT_WORD {
        lines::words_of(name).contains(word)
    } else {
        text::has(name, word)
    }
}

/// Whether the word is found in the name, which has these words.
fn is_found(word: &str, name: &str, name_words: &Vec<String>) -> (r: bool)
    requires
        text::texts(name_words@) == lines::words_of(name@),
    ensures
        r == found_in(word@, name@),
{
    if bytes::len(word) > SHORT_WORD {
        return text::contains(name, word);
    }
    let ghost all = text::texts(name_words@);
    let mut i: usize = 0;
    while i < name_words.len()
        invariant
            i <= name_words@.len() == all.len(),
            all == text::texts(name_words@),
            all == lines::words_of(name@),
            bytes::byte_len(word@) <= SHORT_WORD,
            forall|k: int| 0 <= k < i ==> #[trigger] all[k] != word@,
        decreases name_words.len() - i,
    {
        assert(all[i as int] == name_words@[i as int]@);
        if text::same(name_words[i].as_str(), word) {
            return true;
        }
        i = i + 1;
    }
    false
}

/// One of the words is found in the name.
pub open spec fn overlaps(words: Seq<Seq<char>>, name: Seq<char>) -> bool {
    exists|i: int| 0 <= i < words.len() && found_in(#[trigger] words[i], name)
}

/// Whether one of the words is found in the name.
fn do_overlap(words: &Vec<String>, name: &str) -> (r: bool)
    ensures
        r == overlaps(text::texts(words@), name@),
{
    let ghost all = text::texts(words@);
    let name_words = lines::words(name);
    let mut i: usize = 0;
    while i < words.len()
        invariant
            i <= words@.len() == all.len(),
            all == text::texts(words@),
            text::texts(name_words@) == lines::words_of(name@),
            forall|k: int| 0 <= k < i ==> !found_in(#[trigger] all[k], name@),
        decreases words.len() - i,
    {
        assert(all[i as int] == words@[i as int]@);
        if is_found(words[i].as_str(), name, &name_words) {
            return true;
        }
        i = i + 1;
    }
    false
}

/// The first name at or after `from` that a word is found in.
pub open spec fn first_overlap(
    words: Seq<Seq<char>>,
    names: Seq<Seq<char>>,
    from: int,
) -> Option<int>
    decreases names.len() - from,
{
    if from < 0 || from >= names.len() {
        None
    } else if overlaps(words, names[from]) {
        Some(from)
    } else {
        first_overlap(words, names, from + 1)
    }
}

/// The first of the names that a word is found in.
pub fn find_overlap(words: &Vec<String>, names: &Vec<String>) -> (r: Option<usize>)
    ensures
        match r {
            Some(i) => i < names@.len() && first_overlap(
                text::texts(words@),
                text::texts(names@),
                0,
            ) == Some(i as int),
            None => first_overlap(text::texts(words@), text::texts(names@), 0) is None,
        },
{
    let ghost ws = text::texts(words@);
    let ghost all = text::texts(names@);
    let mut i: usize = 0;
    while i < names.len()
        invariant
            i <= names@.len() == all.len(),
            ws == text::texts(words@),
            all == text::texts(names@),
            first_overlap(ws, all, 0) == first_overlap(ws, all, i as int),
        decreases names.len() - i,
    {
        assert(all[i as int] == names@[i as int]@);
        if do_overlap(words, names[i].as_str()) {
            return Some(i);
        }
        i = i + 1;
    }
    None
}

/// The words by which a coin is matched with trends.
pub open spec fn coin_words(name: Seq<char>, symbol: Seq<char>) -> Seq<Seq<char>> {
    lines::words_of(outside::lowercase(name + " "@ + symbol))
}

/// The names of trends in lower case.
pub open spec fn trend_names(trends: Seq<ScrapedTrend>) -> Seq<Seq<char>> {
    trends.map_values(|t: ScrapedTrend| outside::lowercase(t.name@))
}

/// The first trend whose name overlaps with the coin's name or symbol.
pub fn relevant_trend(trends: &Vec<ScrapedTrend>, coin: &TrendingCoin) -> (r: Option<usize>)
    ensures
        match r {
            Some(i) => i < trends@.len() && first_overlap(
                coin_words(coin.name@, coin.symbol@),
                trend_names(trends@),
                0,
            ) == Some(i as int),
            None => first_overlap(
                coin_words(coin.name@, coin.symbol@),
                trend_names(trends@),
                0,
            ) is None,
        },
{
    let mut needle = error::prefixed(coin.name.as_str(), " ");
    needle.append(coin.symbol.as_str());
    let words = lines::words(outside::to_lowercase(needle.as_str()).as_str());
    let ghost all = trend_names(trends@);
    let mut names: Vec<String> = Vec::new();
    let mut i: usize = 0;
    assert(text::texts(names@) =~= all.take(0));
    while i < trends.len()
        invariant
            i <= trends@.len() == all.len(),
            all == trend_names(trends@),
            text::texts(names@) == all.take(i as int),
            names@.len() == i,
        decreases trends.len() - i,
    {
        let low = outside::to_lowercase(trends[i].name.as_str());
        let ghost before = names@;
        names.push(low);
        proof {
            assert(text::texts(names@) =~= text::texts(before).push(low@));
            assert(all.take(i + 1) =~= all.take(i as int).push(all[i as int]));
        }
        i = i + 1;
    }
    assert(all.take(all.len() as int) =~= all);
    find_overlap(&words, &names)
}

/// A coin is paired with this trend: the first that overlaps with it, or else any; none
/// only where there is none.
pub open spec fn is_picked(
    r: Option<ScrapedTrend>,
    trends: Seq<ScrapedTrend>,
    coin: TrendingCoin,
) -> bool {
    &&& match r {
        Some(t) => exists|i: int| 0 <= i < trends.len() && t.same_as(#[trigger] trends[i]),
        None => trends.len() == 0,
    }
    &&& match first_overlap(coin_words(coin.name@, coin.symbol@), trend_names(trends), 0) {
        Some(k) => r is Some && r.unwrap().same_as(trends[k]),
        None => true,
    }
}

/// The trend that a coin is paired with: the first that overlaps with it, or else
/// any; none only where there is none.
pub fn pick_relevant_trend(trends: &Vec<ScrapedTrend>, coin: &TrendingCoin) -> (r: Option<
    ScrapedTrend,
>)
    ensures
        is_picked(r, trends@, *coin),
{
    if trends.len() == 0 {
        return None;
    }
    match relevant_trend(trends, coin) {
        Some(i) => Some(trends[i].copy()),
        None => match outside::choose_one(trends) {
            Some(t) => {
                proof {
                    let i = choose|i: int| 0 <= i < trends@.len() && trends@[i] == *t;
                    assert(t.same_as(trends@[i]));
                }
                Some(t.copy())
            },
            None => None,
        },
    }
}

// ---------------------------------------------------------------------------
// The prompt
// ---------------------------------------------------------------------------

/// The first `n` characters, or all where there are fewer.
pub open spec fn at_most(s: Seq<char>, n: nat) -> Seq<char> {
    if s.len() > n {
        s.take(n as int)
    } else {
        s
    }
}

/// The first `n` characters.
fn first_chars(s: &str, n: usize) -> (r: String)
    ensures
        r@ == at_most(s@, n as nat),
{
    let cs = text::chars_of(s);
    if cs.len() > n {
        let r = text::text_between(&cs, 0, n);
        assert(r@ =~= s@.take(n as int));
        r
    } else {
        s.to_owned()
    }
}

/// What the model is told of a tweet.
pub open spec fn tweet_block(t: Option<ScrapedTweet>) -> Seq<char> {
    match t {
        Some(tw) => "Paired tweet (you may riff on it): @"@ + tw.author@ + ": \""@ + at_most(
            tw.text@,
            280,
        ) + "\"\nTweet URL: "@ + tw.url@,
        None => Seq::empty(),
    }
}

/// What the model is told of a trend.
pub open spec fn trend_block(t: Option<ScrapedTrend>) -> Seq<char> {
    match t {
        Some(tr) => "Current X trend to riff on: \""@ + tr.name@ + "\""@ + (match tr.category {
            Some(c) => " (category: "@ + c@ + ")"@,
            None => Seq::empty(),
        }) + (match tr.post_count {
            Some(p) => " — "@ + p@,
            None => Seq::empty(),
        }) + "\n"@ + tweet_block(tr.top_tweet),
        None => "No current trend available — invent something topical and unhinged."@,
    }
}

/// What the model is told of a trend.
pub fn describe_trend(t: &Option<ScrapedTrend>) -> (r: String)
    ensures
        r@ == trend_block(*t),
{
    match t {
        Some(tr) => {
            let mut out = error::prefixed("Current X trend to riff on: \"", tr.name.as_str());
            out.append("\"");
            let ghost base = out@;
            match &tr.category {
                Some(c) => {
                    let mut part = error::prefixed(" (category: ", c.as_str());
                    part.append(")");
                    out.append(part.as_str());
                },
                None => {
                    assert(base + Seq::<char>::empty() =~= base);
                },
            }
            let ghost named = out@;
            match &tr.post_count {
                Some(p) => {
                    let part = error::prefixed(" — ", p.as_str());
                    out.append(part.as_str());
                },
                None => {
                    assert(named + Seq::<char>::empty() =~= named);
                },
            }
            out.append("\n");
            let ghost counted = out@;
            match &tr.top_tweet {
                Some(tw) => {
                    let mut part = error::prefixed(
                        "Paired tweet (you may riff on it): @",
                        tw.author.as_str(),
                    );
                    part.append(": \"");
                    part.append(first_chars(tw.text.as_str(), 280).as_str());
                    part.append("\"\nTweet URL: ");
                    part.append(tw.url.as_str());
                    out.append(part.as_str());
                },
                None => {
                    assert(counted + Seq::<char>::empty() =~= counted);
                },
            }
            out
        },
        None => "No current trend available — invent something topical and unhinged.".to_owned(),
    }
}

/// The head of the prompt for a parody coin.
pub const PARODY_RULES: &'static str =
    r#"You are a memecoin parody factory. Given a currently-pumping coin and a current X trend, invent a parody coin that puns on the original's name in the spirit of the trend.

Rules:
- The new name MUST be a pun on the original coin's name — not a copy.
- The ticker is 3-7 uppercase letters or digits, no leading $.
- The blurb is one or two sentences, in-character for crypto Twitter (irreverent, knowing, no buzzwords like "revolutionary").
- The website is a single funny but plausible domain (e.g. "wifegavemecancer.fail") with NO scheme, NO path, NO http://. Use a non-malicious TLD (.com, .lol, .fail, .biz, .wtf, .gay, .xyz, .meme).
- Output VALID JSON ONLY, no markdown fences, no commentary, matching exactly:
  { "name": "...", "ticker": "...", "blurb": "...", "website": "..." }

The original (vamp target):
- Name: "#;

/// The prompt for a parody coin.
pub open spec fn parody_prompt(
    name: Seq<char>,
    symbol: Seq<char>,
    chain: Seq<char>,
    trend: Seq<char>,
) -> Seq<char> {
    PARODY_RULES@ + name + "\n- Symbol: "@ + symbol + "\n- Chain: "@ + chain + "\n\n"@ + trend
        + "\n\nJSON response:"@
}

/// The model is asked this for a parody coin.
pub open spec fn asks_for_parody(
    p: GenerateTextParams,
    coin: TrendingCoin,
    trend: Option<ScrapedTrend>,
) -> bool {
    p.asks(
        ModelType::TextLarge,
        "You are a memecoin parody copywriter. You respond with valid JSON only — no markdown, no prose."@,
        parody_prompt(coin.name@, coin.symbol@, coin.chain@, trend_block(trend)),
        400,
        number::POINT_95,
    )
}

/// What the model is asked for a parody coin.
pub fn parody_params(coin: &TrendingCoin, trend: &Option<ScrapedTrend>) -> (r: GenerateTextParams)
    ensures
        asks_for_parody(r, *coin, *trend),
{
    let mut prompt = error::prefixed(PARODY_RULES, coin.name.as_str());
    prompt.append("\n- Symbol: ");
    prompt.append(coin.symbol.as_str());
    prompt.append("\n- Chain: ");
    prompt.append(coin.chain.as_str());
    prompt.append("\n\n");
    prompt.append(describe_trend(trend).as_str());
    prompt.append("\n\nJSON response:");
    GenerateTextParams::new(
        ModelType::TextLarge,
        "You are a memecoin parody copywriter. You respond with valid JSON only — no markdown, no prose.".to_owned(),
        prompt,
        400,
        number::POINT_95,
    )
}

// ---------------------------------------------------------------------------
// The answer
// ---------------------------------------------------------------------------

/// What stands from the first opening to the last closing brace of a text without
/// the white space at its ends; nothing where the last closing brace does not
/// stand behind the first opening one.
pub open spec fn braced(s: Seq<char>) -> Option<Seq<char>> {
    let t = text::trimmed(s);
    match (respond::first_char(t, '{'), respond::last_char(t, '}')) {
        (Some(a), Some(b)) => if b > a {
            Some(t.subrange(a, b + 1))
        } else {
            None
        },
        _ => None,
    }
}

/// Where a model's answer may hold JSON: as a whole, without the white space at
/// its ends, or else between its outermost braces.
pub fn json_candidates(response: &str) -> (r: (String, Option<String>))
    ensures
        r.0@ == text::trimmed(response@),
        text::opt_text(r.1) == braced(response@),
{
    let whole = text::trim(response);
    let t = text::chars_of(whole.as_str());
    let part = match respond::bracket_span(&t, '{', '}') {
        Some((a, b)) => if b > a {
            Some(text::text_between(&t, a, b + 1))
        } else {
            None
        },
        None => None,
    };
    (whole, part)
}

/// The parody that a model's answer gives.
#[derive(Clone, Debug)]
pub struct ParodyResponse {
    pub name: String,
    pub ticker: String,
    pub blurb: String,
    pub website: String,
}

/// This is read in a model's answer: what was read in the whole, or else what was read
/// between its outermost braces; an error where neither could be read.
pub open spec fn is_chosen(
    r: Result<ParodyResponse, RustlizaError>,
    whole: Option<ParodyResponse>,
    part: Option<ParodyResponse>,
    response: Seq<char>,
) -> bool {
    match r {
        Ok(p) => whole == Some(p) || (whole is None && part == Some(p)),
        Err(e) => whole is None && part is None && e is Other && e->Other_0@
            == "model did not return valid JSON: "@ + response,
    }
}

/// What is read in a model's answer: what was read in the whole, or else what was
/// read between its outermost braces; an error where neither could be read.
pub fn choose_parody(
    whole: Option<ParodyResponse>,
    part: Option<ParodyResponse>,
    response: &str,
) -> (r: Result<ParodyResponse, RustlizaError>)
    ensures
        is_chosen(r, whole, part, response@),
{
    match whole {
        Some(p) => Ok(p),
        None => match part {
            Some(p) => Ok(p),
            None => Err(
                RustlizaError::Other(
                    error::prefixed("model did not return valid JSON: ", response),
                ),
            ),
        },
    }
}

/// The letters and digits of a text, in upper case.
pub open spec fn letters_upper(s: Seq<char>) -> Seq<char>
    decreases s.len(),
{
    if s.len() == 0 {
        Seq::empty()
    } else {
        let front = letters_upper(s.drop_last());
        if lines::alnum(s.last()) {
            front.push(lines::upper(s.last()))
        } else {
            front
        }
    }
}

/// A ticker made fit: its ASCII letters and digits in upper case, at most eight,
/// and a ticker for one that has none.
pub open spec fn fit_ticker(s: Seq<char>) -> Seq<char> {
    let t = letters_upper(text::drop_while(s, |c: char| c == '$'));
    if t.len() == 0 {
        "VAMP"@
    } else {
        at_most(t, 8)
    }
}

/// A ticker made fit.
pub fn clean_ticker(s: &str) -> (r: String)
    ensures
        r@ == fit_ticker(s@),
{
    let bare = text::trim_start_char(s, '$');
    let cs = text::chars_of(bare.as_str());
    let mut out = String::new();
    let mut i: usize = 0;
    assert(out@ =~= letters_upper(cs@.take(0)));
    while i < cs.len()
        invariant
            i <= cs@.len(),
            out@ == letters_upper(cs@.take(i as int)),
        decreases cs.len() - i,
    {
        assert(cs@.take(i + 1).drop_last() =~= cs@.take(i as int));
        if lines::is_alnum(cs[i]) {
            out.push(lines::to_upper(cs[i]));
        }
        i = i + 1;
    }
    assert(cs@.take(cs@.len() as int) =~= cs@);
    if out.as_str().unicode_len() == 0 {
        return "VAMP".to_owned();
    }
    first_chars(out.as_str(), 8)
}

/// A website without scheme and trailing slashes.
pub open spec fn bare_website(s: Seq<char>) -> Seq<char> {
    let t = text::trimmed(s);
    let t = text::drop_prefixes(t, "https://"@);
    let t = text::drop_prefixes(t, "http://"@);
    text::drop_while_end(t, |c: char| c == '/')
}

/// A website without scheme and trailing slashes.
pub fn clean_website(s: &str) -> (r: String)
    ensures
        r@ == bare_website(s@),
{
    proof {
        reveal_strlit("https://");
        reveal_strlit("http://");
    }
    let t = text::trim(s);
    let t = text::trim_start_text(t.as_str(), "https://");
    let t = text::trim_start_text(t.as_str(), "http://");
    text::trim_end_char(t.as_str(), '/')
}

/// The parody is another with its ticker and its website made fit.
pub open spec fn is_cleaned(r: ParodyResponse, p: ParodyResponse) -> bool {
    &&& r.name == p.name
    &&& r.ticker@ == fit_ticker(p.ticker@)
    &&& r.blurb == p.blurb
    &&& r.website@ == bare_website(p.website@)
}

/// The parody with its ticker and its website made fit.
pub fn clean_parody(p: ParodyResponse) -> (r: ParodyResponse)
    ensures
        is_cleaned(r, p),
{
    let ticker = clean_ticker(p.ticker.as_str());
    let website = clean_website(p.website.as_str());
    ParodyResponse { name: p.name, ticker, blurb: p.blurb, website }
}

/// A ticker has one to eight characters, all of them upper-case ASCII letters or
/// digits.
pub proof fn tickers_are_fit(s: Seq<char>)
    ensures
        1 <= fit_ticker(s).len() <= 8,
        forall|i: int|
            0 <= i < fit_ticker(s).len() ==> crate::patterns::symbol_char(
                #[trigger] fit_ticker(s)[i],
            ),
{
    reveal_strlit("VAMP");
    lemma_letters_upper(text::drop_while(s, |c: char| c == '$'));
}

proof fn lemma_letters_upper(s: Seq<char>)
    ensures
        forall|i: int|
            0 <= i < letters_upper(s).len() ==> crate::patterns::symbol_char(
                #[trigger] letters_upper(s)[i],
            ),
    decreases s.len(),
{
    if s.len() > 0 {
        lemma_letters_upper(s.drop_last());
        let front = letters_upper(s.drop_last());
        assert forall|i: int| 0 <= i < letters_upper(s).len() implies crate::patterns::symbol_char(
            #[trigger] letters_upper(s)[i],
        ) by {
            if i < front.len() {
                assert(letters_upper(s)[i] == front[i]);
            }
        }
    }
}

/// A parody makes this coin, under a random identifier and with the current time.
pub open spec fn is_minted(
    r: GeneratedCoin,
    p: ParodyResponse,
    coin: TrendingCoin,
    trend: Option<ScrapedTrend>,
    listing_path: String,
) -> bool {
    &&& ids::is_v4(r.id.bits as nat)
    &&& r.created_at.valid()
    &&& r.name == p.name
    &&& r.ticker == p.ticker
    &&& r.blurb == p.blurb
    &&& r.website == p.website
    &&& r.source_coin == coin
    &&& r.source_trend == trend
    &&& r.listing_path == listing_path
}

/// The coin that a parody makes, under a random identifier and with the current
/// time.
pub fn mint(
    p: ParodyResponse,
    coin: TrendingCoin,
    trend: Option<ScrapedTrend>,
    listing_path: String,
) -> (r: GeneratedCoin)
    ensures
        is_minted(r, p, coin, trend, listing_path),
{
    GeneratedCoin {
        id: Uuid::new_v4(),
        created_at: time::now(),
        name: p.name,
        ticker: p.ticker,
        blurb: p.blurb,
        website: p.website,
        source_coin: coin,
        source_trend: trend,
        listing_path,
    }
}

/// The key under which the agent's database keeps a coin.
pub fn coin_key(coin: &GeneratedCoin) -> (r: String)
    ensures
        r@ == "vamp_coin:"@ + coin.id.text(),
{
    error::prefixed("vamp_coin:", coin.id.to_text().as_str())
}

// ---------------------------------------------------------------------------
// The listing
// ---------------------------------------------------------------------------

/// A part of the page.
pub const LISTING_HEAD: &'static str = r##"<!DOCTYPE html>
<html lang="en">
<head>
<meta charset="utf-8">
<meta name="viewport" content="width=device-width,initial-scale=1">
<title>$"##;

/// A part of the page.
pub const LISTING_STYLE: &'static str = r##"</title>
<style>
:root {
  --bg:#0b0b14; --panel:#15151f; --border:#22223a;
  --text:#e8e8f0; --dim:#9999b5; --accent:#ec4899; --accent2:#a78bfa; --green:#10b981;
}
* { box-sizing:border-box; margin:0; padding:0; }
body { font-family:'Inter',-apple-system,BlinkMacSystemFont,sans-serif; background:var(--bg); color:var(--text); min-height:100vh; }
main { max-width:720px; margin:0 auto; padding:72px 24px 96px; }
.parody-tag { display:inline-block; font-size:11px; letter-spacing:0.18em; text-transform:uppercase; color:var(--dim); border:1px solid var(--border); padding:4px 10px; border-radius:999px; }
h1 { font-size:64px; line-height:1.05; margin:20px 0 8px; letter-spacing:-0.03em; }
h1 .ticker { background:linear-gradient(135deg,var(--accent),var(--accent2)); -webkit-background-clip:text; background-clip:text; color:transparent; }
.subtitle { color:var(--dim); font-size:18px; margin-bottom:32px; }
.blurb { font-size:18px; line-height:1.6; background:var(--panel); border:1px solid var(--border); border-radius:12px; padding:24px; margin:24px 0; }
.meta { display:grid; grid-template-columns:1fr 1fr; gap:12px; margin:24px 0; }
.meta .cell { background:var(--panel); border:1px solid var(--border); padding:14px 16px; border-radius:10px; }
.meta .label { font-size:11px; letter-spacing:0.12em; text-transform:uppercase; color:var(--dim); }
.meta .value { font-size:15px; margin-top:4px; word-break:break-all; }
.tweet { background:var(--panel); border:1px solid var(--border); border-radius:12px; padding:20px 22px; margin:24px 0; }
.tweet-head { color:var(--dim); font-size:12px; text-transform:uppercase; letter-spacing:0.1em; margin-bottom:8px; }
.tweet-body { font-size:16px; line-height:1.5; margin-bottom:10px; }
.tweet-link { color:var(--accent2); font-size:12px; text-decoration:none; word-break:break-all; }
.actions { display:flex; gap:12px; margin-top:32px; flex-wrap:wrap; }
.button { display:inline-block; padding:12px 18px; border-radius:10px; text-decoration:none; font-weight:600; font-size:14px; }
.primary { background:var(--accent); color:#fff; }
.secondary { background:var(--panel); color:var(--text); border:1px solid var(--border); }
.footer { color:var(--dim); font-size:12px; margin-top:48px; line-height:1.6; }
.footer a { color:var(--accent2); }
em { color:var(--text); font-style:normal; font-weight:600; }
</style>
</head>
<body>
<main>
  <span class="parody-tag">parody · not financial advice</span>
  <h1>"##;

/// A part of the page.
pub const LISTING_SOURCE: &'static str = r##"</div>

  <div class="meta">
    <div class="cell">
      <div class="label">vamped coin</div>
      <div class="value">"##;

/// A part of the page.
pub const LISTING_CHART: &'static str = r##")</div>
    </div>
    <div class="cell">
      <div class="label">source chart</div>
      <div class="value"><a href=""##;

/// A part of the page.
pub const LISTING_END: &'static str = r##"" target="_blank" rel="noopener">view original on dexscreener</a>
  </div>

  <p class="footer">
    Generated "##;

/// A part of the page.
pub const LISTING_FOOT: &'static str = r##" by rustliza-vamp. This is a parody concept — no token has been minted, no liquidity exists, and no one is selling you anything.
  </p>
</main>
</body>
</html>"##;

/// The part of the page that shows a tweet.
pub open spec fn tweet_section(t: Option<ScrapedTweet>) -> Seq<char> {
    match t {
        Some(tw) => "\n    <section class=\"tweet\">\n      <div class=\"tweet-head\">paired tweet · @"@ + outside::html_safe(tw.author@) + "</div>\n      <p class=\"tweet-body\">"@ + outside::html_safe(tw.text@) + "</p>\n      <a class=\"tweet-link\" href=\""@ + outside::html_safe(tw.url@) + "\" target=\"_blank\" rel=\"noopener\">"@ + outside::html_safe(tw.url@) + "</a>\n    </section>"@,
        None => Seq::empty(),
    }
}

/// The part of the page that names the trend.
pub open spec fn trend_line(t: Option<ScrapedTrend>) -> Seq<char> {
    match t {
        Some(tr) => "inspired by trending topic <em>"@ + outside::html_safe(tr.name@) + "</em>"@,
        None => Seq::empty(),
    }
}

/// The tweet that a coin is paired with.
pub open spec fn paired_tweet(t: Option<ScrapedTrend>) -> Option<ScrapedTweet> {
    match t {
        Some(tr) => tr.top_tweet,
        None => None,
    }
}

/// The part of the page that shows a tweet.
fn render_tweet(t: &Option<ScrapedTrend>) -> (r: String)
    ensures
        r@ == tweet_section(paired_tweet(*t)),
{
    match t {
        Some(tr) => match &tr.top_tweet {
            Some(tw) => {
                let url = outside::encode_safe(tw.url.as_str());
                let author = outside::encode_safe(tw.author.as_str());
                let text = outside::encode_safe(tw.text.as_str());
                let mut out = "\n    <section class=\"tweet\">\n      <div class=\"tweet-head\">paired tweet · @".to_owned();
                out.append(author.as_str());
                out.append("</div>\n      <p class=\"tweet-body\">");
                out.append(text.as_str());
                out.append("</p>\n      <a class=\"tweet-link\" href=\"");
                out.append(url.as_str());
                out.append("\" target=\"_blank\" rel=\"noopener\">");
                out.append(url.as_str());
                out.append("</a>\n    </section>");
                out
            },
            None => {
                let out = String::new();
                assert(out@ =~= Seq::<char>::empty());
                out
            },
        },
        None => {
            let out = String::new();
            assert(out@ =~= Seq::<char>::empty());
            out
        },
    }
}

/// The part of the page that names the trend.
fn render_trend(t: &Option<ScrapedTrend>) -> (r: String)
    ensures
        r@ == trend_line(*t),
{
    match t {
        Some(tr) => {
            let mut out = "inspired by trending topic <em>".to_owned();
            out.append(outside::encode_safe(tr.name.as_str()).as_str());
            out.append("</em>");
            out
        },
        None => {
            let out = String::new();
            assert(out@ =~= Seq::<char>::empty());
            out
        },
    }
}

/// The page from its parts, all of them safe in HTML.
pub open spec fn page(
    name: Seq<char>,
    ticker: Seq<char>,
    blurb: Seq<char>,
    website: Seq<char>,
    src_name: Seq<char>,
    src_symbol: Seq<char>,
    src_url: Seq<char>,
    created: Seq<char>,
    trend_line: Seq<char>,
    tweet_block: Seq<char>,
) -> Seq<char> {
    LISTING_HEAD@
        + ticker
        + " — "@
        + name
        + LISTING_STYLE@
        + name
        + " <span class=\"ticker\">$"@
        + ticker
        + "</span></h1>\n  <p class=\"subtitle\">A pseudo-vamp of <strong>"@
        + src_name
        + "</strong> ("@
        + src_symbol
        + "). "@
        + trend_line
        + "</p>\n\n  <div class=\"blurb\">"@
        + blurb
        + LISTING_SOURCE@
        + src_name
        + " ("@
        + src_symbol
        + LISTING_CHART@
        + src_url
        + "\" target=\"_blank\" rel=\"noopener\">"@
        + src_url
        + "</a></div>\n    </div>\n  </div>\n\n  "@
        + tweet_block
        + "\n\n  <div class=\"actions\">\n    <a class=\"button primary\" href=\"https://"@
        + website
        + "\" target=\"_blank\" rel=\"noopener\">visit "@
        + website
        + "</a>\n    <a class=\"button secondary\" href=\""@
        + src_url
        + LISTING_END@
        + created
        + LISTING_FOOT@
}

/// The page that lists a coin.
pub open spec fn listing(coin: GeneratedCoin) -> Seq<char> {
    page(
        outside::html_safe(coin.name@),
        outside::html_safe(coin.ticker@),
        outside::html_safe(coin.blurb@),
        outside::html_safe(coin.website@),
        outside::html_safe(coin.source_coin.name@),
        outside::html_safe(coin.source_coin.symbol@),
        outside::html_safe(coin.source_coin.url@),
        coin.created_at.text(),
        trend_line(coin.source_trend),
        tweet_section(paired_tweet(coin.source_trend)),
    )
}

/// The page that lists a coin.
pub fn render(coin: &GeneratedCoin) -> (r: String)
    requires
        coin.created_at.valid(),
    ensures
        r@ == listing(*coin),
{
    let name = outside::encode_safe(coin.name.as_str());
    let ticker = outside::encode_safe(coin.ticker.as_str());
    let blurb = outside::encode_safe(coin.blurb.as_str());
    let website = outside::encode_safe(coin.website.as_str());
    let src_name = outside::encode_safe(coin.source_coin.name.as_str());
    let src_symbol = outside::encode_safe(coin.source_coin.symbol.as_str());
    let src_url = outside::encode_safe(coin.source_coin.url.as_str());
    let created = coin.created_at.to_rfc3339();
    let trend_line = render_trend(&coin.source_trend);
    let tweet_block = render_tweet(&coin.source_trend);
    let mut out = LISTING_HEAD.to_owned();
    out.append(ticker.as_str());
    out.append(" — ");
    out.append(name.as_str());
    out.append(LISTING_STYLE);
    out.append(name.as_str());
    out.append(" <span class=\"ticker\">$");
    out.append(ticker.as_str());
    out.append("</span></h1>\n  <p class=\"subtitle\">A pseudo-vamp of <strong>");
    out.append(src_name.as_str());
    out.append("</strong> (");
    out.append(src_symbol.as_str());
    out.append("). ");
    out.append(trend_line.as_str());
    out.append("</p>\n\n  <div class=\"blurb\">");
    out.append(blurb.as_str());
    out.append(LISTING_SOURCE);
    out.append(src_name.as_str());
    out.append(" (");
    out.append(src_symbol.as_str());
    out.append(LISTING_CHART);
    out.append(src_url.as_str());
    out.append("\" target=\"_blank\" rel=\"noopener\">");
    out.append(src_url.as_str());
    out.append("</a></div>\n    </div>\n  </div>\n\n  ");
    out.append(tweet_block.as_str());
    out.append("\n\n  <div class=\"actions\">\n    <a class=\"button primary\" href=\"https://");
    out.append(website.as_str());
    out.append("\" target=\"_blank\" rel=\"noopener\">visit ");
    out.append(website.as_str());
    out.append("</a>\n    <a class=\"button secondary\" href=\"");
    out.append(src_url.as_str());
    out.append(LISTING_END);
    out.append(created.as_str());
    out.append(LISTING_FOOT);
    out
}

/// A text that was made safe holds no character that begins or ends a tag or a
/// quoted value.
pub proof fn safe_text_is_inert(s: Seq<char>)
    ensures
        forall|i: int|
            0 <= i < outside::html_safe(s).len() ==> (#[trigger] outside::html_safe(s)[i]) != '<'
                && outside::html_safe(s)[i] != '>' && outside::html_safe(s)[i] != '"'
                && outside::html_safe(s)[i] != '\'',
    decreases s.len(),
{
    if s.len() > 0 {
        safe_text_is_inert(s.drop_last());
        reveal_strlit("&amp;");
        reveal_strlit("&lt;");
        reveal_strlit("&gt;");
        reveal_strlit("&quot;");
        reveal_strlit("&#x27;");
        reveal_strlit("&#x2F;");
        let front = outside::html_safe(s.drop_last());
        let all = outside::html_safe(s);
        assert forall|i: int| 0 <= i < all.len() implies (#[trigger] all[i]) != '<' && all[i] != '>'
            && all[i] != '"' && all[i] != '\'' by {
            if i < front.len() {
                assert(all[i] == front[i]);
            } else {
                assert(all[i] == outside::html_entity(s.last())[i - front.len()]);
            }
        }
    }
}

/// A text as the name of a file: every character that is no ASCII letter, digit,
/// hyphen or underscore becomes a hyphen.
pub open spec fn file_name(s: Seq<char>) -> Seq<char> {
    s.map_values(
        |c: char|
            if lines::alnum(c) || c == '-' || c == '_' {
                c
            } else {
                '-'
            },
    )
}

/// A text as the name of a file.
pub fn sanitize_filename(s: &str) -> (r: String)
    ensures
        r@ == file_name(s@),
{
    let cs = text::chars_of(s);
    let mut out = String::new();
    let mut i: usize = 0;
    while i < cs.len()
        invariant
            i <= cs@.len(),
            out@ == file_name(cs@.take(i as int)),
        decreases cs.len() - i,
    {
        if lines::is_alnum(cs[i]) || cs[i] == '-' || cs[i] == '_' {
            out.push(cs[i]);
        } else {
            out.push('-');
        }
        i = i + 1;
        assert(out@ =~= file_name(cs@.take(i as int)));
    }
    assert(cs@.take(cs@.len() as int) =~= cs@);
    out
}

/// The file that a coin is listed in.
pub fn listing_file(ticker: &str) -> (r: String)
    ensures
        r@ == file_name(outside::lowercase(ticker@)) + ".html"@,
{
    let low = outside::to_lowercase(ticker);
    let name = sanitize_filename(low.as_str());
    error::prefixed(name.as_str(), ".html")
}

/// A file name leads into no other directory.
pub proof fn listing_files_stay_in_place(s: Seq<char>)
    ensures
        forall|i: int|
            0 <= i < file_name(s).len() ==> (#[trigger] file_name(s)[i]) != '/' && file_name(s)[i]
                != '.' && file_name(s)[i] != '\\',
{
}

// ---------------------------------------------------------------------------
// The action and the plugin
// ---------------------------------------------------------------------------

/// What went wrong in making a coin.
#[derive(Clone, Copy, Debug, PartialEq, Eq, Structural)]
pub enum MintTrouble {
    Fetch,
    Listing,
    Store,
}

impl MintTrouble {
    /// The words for it.
    pub open spec fn words(self) -> Seq<char> {
        match self {
            MintTrouble::Fetch => "coin fetch failed: "@,
            MintTrouble::Listing => "write listing: "@,
            MintTrouble::Store => "store coin: "@,
        }
    }

    /// The error for it.
    pub fn error(&self, why: &str) -> (r: RustlizaError)
        ensures
            r is Other,
            r->Other_0@ == self.words() + why@,
    {
        let head = match self {
            MintTrouble::Fetch => "coin fetch failed: ",
            MintTrouble::Listing => "write listing: ",
            MintTrouble::Store => "store coin: ",
        };
        RustlizaError::Other(error::prefixed(head, why))
    }
}

/// The coin that was picked, or the error where there was none.
pub fn require_coin(coin: Option<TrendingCoin>) -> (r: Result<TrendingCoin, RustlizaError>)
    ensures
        match r {
            Ok(c) => coin == Some(c),
            Err(e) => coin is None && e is Other && e->Other_0@ == "no trending coins available"@,
        },
{
    match coin {
        Some(c) => Ok(c),
        None => Err(RustlizaError::Other("no trending coins available".to_owned())),
    }
}

/// The number of coins of which one is picked.
pub const PICK_FROM: usize = 20;

/// The result tells of a coin that was made, with the coin's JSON text.
pub open spec fn tells_minted(r: ActionResult, coin: GeneratedCoin, data: Option<String>) -> bool {
    &&& r.success
    &&& text::opt_text(r.text) == Some(
        "Minted parody coin $"@ + coin.ticker@ + ": "@ + coin.name@ + " — paired website "@
            + coin.website@,
    )
    &&& r.data == data
    &&& r.error is None
    &&& !r.continue_chain
}

/// The action that makes a parody coin.
#[derive(Clone, Copy, Debug, PartialEq, Eq, Structural)]
pub struct GenerateVampCoinAction;

impl GenerateVampCoinAction {
    pub fn name(&self) -> (r: &'static str)
        ensures
            r@ == "GENERATE_VAMP_COIN"@,
    {
        "GENERATE_VAMP_COIN"
    }

    pub fn description(&self) -> (r: &'static str)
        ensures
            r@
                == "Generate a parody (pseudo-vamp) coin from a currently trending memecoin, paired with a current Twitter trend and a fitting funny website."@,
    {
        "Generate a parody (pseudo-vamp) coin from a currently trending memecoin, paired with a current Twitter trend and a fitting funny website."
    }

    pub fn similes(&self) -> (r: Vec<String>)
        ensures
            text::texts(r@) == seq!["VAMP_COIN"@, "PARODY_COIN"@, "MINT_PARODY"@],
    {
        let r = vec![
            "VAMP_COIN".to_owned(),
            "PARODY_COIN".to_owned(),
            "MINT_PARODY".to_owned(),
        ];
        assert(text::texts(r@) =~= seq!["VAMP_COIN"@, "PARODY_COIN"@, "MINT_PARODY"@]);
        r
    }

    pub fn priority(&self) -> (r: i32)
        ensures
            r == 50,
    {
        50
    }

    /// The result of the action for a coin that was made, with the coin's JSON text.
    pub fn minted(&self, coin: &GeneratedCoin, data: Option<String>) -> (r: ActionResult)
        ensures
            tells_minted(r, *coin, data),
    {
        let mut out = error::prefixed("Minted parody coin $", coin.ticker.as_str());
        out.append(": ");
        out.append(coin.name.as_str());
        out.append(" — paired website ");
        out.append(coin.website.as_str());
        ActionResult { success: true, text: Some(out), data, error: None, continue_chain: false }
    }

    /// The result of the action where no coin could be made.
    pub fn failed(&self, e: &RustlizaError) -> (r: ActionResult)
        ensures
            r.is_err(e.text()),
    {
        ActionResult::err(e.message().as_str())
    }
}

/// The services that run beside the action.
#[derive(Clone, Copy, Debug, PartialEq, Eq, Structural)]
pub enum VampService {
    TrendScraper,
    Scheduler,
}

impl VampService {
    pub fn name(&self) -> (r: &'static str)
        ensures
            r@ == (match *self {
                VampService::TrendScraper => "vamp.trend_scraper"@,
                VampService::Scheduler => "vamp.scheduler"@,
            }),
    {
        match self {
            VampService::TrendScraper => "vamp.trend_scraper",
            VampService::Scheduler => "vamp.scheduler",
        }
    }
}

/// The plugin: the action and the two services.
pub fn vamp_plugin<E, P>() -> (r: Plugin<GenerateVampCoinAction, E, P, VampService>)
    ensures
        r.name@ == "vamp"@,
        r.description@ == "Pseudo-vamp parody coin generator"@,
        r.actions@ == seq![GenerateVampCoinAction],
        r.evaluators@.len() == 0,
        r.providers@.len() == 0,
        r.services@ == seq![VampService::TrendScraper, VampService::Scheduler],
{
    let mut plugin: Plugin<GenerateVampCoinAction, E, P, VampService> = Plugin::new(
        "vamp",
        "Pseudo-vamp parody coin generator",
    );
    plugin.actions.push(GenerateVampCoinAction);
    plugin.services.push(VampService::TrendScraper);
    plugin.services.push(VampService::Scheduler);
    plugin
}

// ---------------------------------------------------------------------------
// From a trend to a listing
// ---------------------------------------------------------------------------

/// The name that is found is the first in which a word is found; where none is found, no
/// word is found in any.
pub proof fn the_first_overlap_is_found(words: Seq<Seq<char>>, names: Seq<Seq<char>>, from: int)
    requires
        0 <= from,
    ensures
        match first_overlap(words, names, from) {
            Some(k) => from <= k < names.len() && overlaps(words, names[k]) && forall|i: int|
                from <= i < k ==> !overlaps(words, #[trigger] names[i]),
            None => forall|i: int| from <= i < names.len() ==> !overlaps(words, #[trigger] names[i]),
        },
    decreases names.len() - from,
{
    if from < names.len() && !overlaps(words, names[from]) {
        the_first_overlap_is_found(words, names, from + 1);
    }
}

/// A trend is picked wherever there is one, and it is one of the trends. Where the name of
/// one, in lower case, holds a word of at least four bytes of the coin's name or symbol, the
/// trend that is picked is one whose name a word is found in.
pub proof fn relevant_trends_are_picked(
    trends: Seq<ScrapedTrend>,
    coin: TrendingCoin,
    r: Option<ScrapedTrend>,
    i: int,
    word: Seq<char>,
)
    requires
        is_picked(r, trends, coin),
    ensures
        r is Some <==> trends.len() > 0,
        r is Some ==> exists|k: int| 0 <= k < trends.len() && r.unwrap().same_as(#[trigger] trends[k]),
        0 <= i < trends.len() && bytes::byte_len(word) > 3 && lines::words_of(
            outside::lowercase(coin.name@ + seq![' '] + coin.symbol@),
        ).contains(word) && text::has(outside::lowercase(trends[i].name@), word) ==> r is Some
            && overlaps(
            lines::words_of(outside::lowercase(coin.name@ + seq![' '] + coin.symbol@)),
            outside::lowercase(r.unwrap().name@),
        ),
{
    let words = lines::words_of(outside::lowercase(coin.name@ + seq![' '] + coin.symbol@));
    let names = trend_names(trends);
    reveal_strlit(" ");
    assert(" "@ =~= seq![' ']);
    assert(coin_words(coin.name@, coin.symbol@) == words);
    the_first_overlap_is_found(words, names, 0);
    if 0 <= i < trends.len() && bytes::byte_len(word) > 3 && words.contains(word) && text::has(
        outside::lowercase(trends[i].name@),
        word,
    ) {
        let k = choose|k: int| 0 <= k < words.len() && words[k] == word;
        assert(found_in(words[k], names[i]));
        assert(overlaps(words, names[i]));
    }
}

/// The model is told the name, the symbol and the chain of the coin, in this order, and
/// behind them all that is told of the trend.
pub proof fn models_are_told_of_the_coin(
    p: GenerateTextParams,
    coin: TrendingCoin,
    trend: Option<ScrapedTrend>,
)
    requires
        asks_for_parody(p, coin, trend),
    ensures
        passages::in_order(
            p.prompt@,
            seq![coin.name@, coin.symbol@, coin.chain@, trend_block(trend)],
        ),
{
    let told = trend_block(trend);
    let a = PARODY_RULES@ + coin.name@;
    let b = a + "\n- Symbol: "@ + coin.symbol@;
    let c = b + "\n- Chain: "@ + coin.chain@;
    let d = c + "\n\n"@ + told;
    passages::lemma_single(PARODY_RULES@, coin.name@, Seq::empty());
    assert(a + Seq::<char>::empty() =~= a);
    passages::lemma_behind(a, seq![coin.name@], "\n- Symbol: "@, coin.symbol@);
    assert(seq![coin.name@].push(coin.symbol@) =~= seq![coin.name@, coin.symbol@]);
    passages::lemma_behind(b, seq![coin.name@, coin.symbol@], "\n- Chain: "@, coin.chain@);
    assert(seq![coin.name@, coin.symbol@].push(coin.chain@) =~= seq![
        coin.name@,
        coin.symbol@,
        coin.chain@,
    ]);
    passages::lemma_behind(c, seq![coin.name@, coin.symbol@, coin.chain@], "\n\n"@, told);
    let all = seq![coin.name@, coin.symbol@, coin.chain@, told];
    assert(seq![coin.name@, coin.symbol@, coin.chain@].push(told) =~= all);
    passages::lemma_in_order(Seq::empty(), d, "\n\nJSON response:"@, all);
    assert(Seq::<char>::empty() + d + "\n\nJSON response:"@ =~= p.prompt@);
}

/// What is told of a trend tells its name, its category and its number of posts, where
/// they are known, and of its tweet who wrote it, what it says, up to 280 characters, and
/// where it stands.
pub proof fn trends_are_told(tr: ScrapedTrend)
    ensures
        text::has(trend_block(Some(tr)), tr.name@),
        tr.category is Some ==> passages::in_order(
            trend_block(Some(tr)),
            seq![tr.name@, tr.category.unwrap()@],
        ),
        tr.post_count is Some ==> passages::in_order(
            trend_block(Some(tr)),
            seq![tr.name@, tr.post_count.unwrap()@],
        ),
        tr.top_tweet is Some ==> passages::in_order(
            trend_block(Some(tr)),
            seq![tr.name@, tr.top_tweet.unwrap().author@],
        ) && text::has(trend_block(Some(tr)), tr.top_tweet.unwrap().url@) && (
        tr.top_tweet.unwrap().text@.len() <= 280 ==> passages::in_order(
            trend_block(Some(tr)),
            seq![tr.top_tweet.unwrap().author@, tr.top_tweet.unwrap().text@],
        )) && (tr.top_tweet.unwrap().text@.len() > 280 ==> passages::in_order(
            trend_block(Some(tr)),
            seq![tr.top_tweet.unwrap().author@, tr.top_tweet.unwrap().text@.take(280)],
        )),
{
    let tail = trend_tail(tr);
    passages::lemma_stands("Current X trend to riff on: \""@, tr.name@, tail);
    lemma_trend_block(tr);
    if tr.category is Some {
        lemma_trend_category(tr);
    }
    if tr.post_count is Some {
        lemma_trend_posts(tr);
    }
    if tr.top_tweet is Some {
        lemma_trend_author(tr);
        lemma_trend_tweet(tr);
    }
}

/// What is told of a trend's category.
spec fn category_told(tr: ScrapedTrend) -> Seq<char> {
    match tr.category {
        Some(c) => " (category: "@ + c@ + ")"@,
        None => Seq::empty(),
    }
}

/// What is told of the number of a trend's posts.
spec fn posts_told(tr: ScrapedTrend) -> Seq<char> {
    match tr.post_count {
        Some(p) => " — "@ + p@,
        None => Seq::empty(),
    }
}

/// What is told of a trend behind its name.
spec fn trend_tail(tr: ScrapedTrend) -> Seq<char> {
    "\""@ + category_told(tr) + posts_told(tr) + "\n"@ + tweet_block(tr.top_tweet)
}

proof fn lemma_trend_block(tr: ScrapedTrend)
    ensures
        trend_block(Some(tr)) == "Current X trend to riff on: \""@ + tr.name@ + trend_tail(tr),
{
    assert(trend_block(Some(tr)) =~= "Current X trend to riff on: \""@ + tr.name@ + trend_tail(tr));
}

/// What stands in what is told behind the name stands behind the name.
proof fn lemma_in_tail(tr: ScrapedTrend, a: Seq<char>, p: Seq<char>, b: Seq<char>)
    requires
        trend_tail(tr) == a + p + b,
    ensures
        passages::in_order(trend_block(Some(tr)), seq![tr.name@, p]),
{
    let head = "Current X trend to riff on: \""@;
    lemma_trend_block(tr);
    passages::lemma_two(head, tr.name@, a, p, b);
    assert(head + tr.name@ + (a + p + b) =~= head + tr.name@ + a + p + b);
}

proof fn lemma_trend_category(tr: ScrapedTrend)
    requires
        tr.category is Some,
    ensures
        passages::in_order(trend_block(Some(tr)), seq![tr.name@, tr.category.unwrap()@]),
{
    let c = tr.category.unwrap()@;
    let a = "\""@ + " (category: "@;
    let b = ")"@ + posts_told(tr) + "\n"@ + tweet_block(tr.top_tweet);
    assert(trend_tail(tr) =~= a + c + b);
    lemma_in_tail(tr, a, c, b);
}

proof fn lemma_trend_posts(tr: ScrapedTrend)
    requires
        tr.post_count is Some,
    ensures
        passages::in_order(trend_block(Some(tr)), seq![tr.name@, tr.post_count.unwrap()@]),
{
    let p = tr.post_count.unwrap()@;
    let a = "\""@ + category_told(tr) + " — "@;
    let b = "\n"@ + tweet_block(tr.top_tweet);
    assert(trend_tail(tr) =~= a + p + b);
    lemma_in_tail(tr, a, p, b);
}

proof fn lemma_trend_author(tr: ScrapedTrend)
    requires
        tr.top_tweet is Some,
    ensures
        passages::in_order(trend_block(Some(tr)), seq![tr.name@, tr.top_tweet.unwrap().author@]),
{
    let tw = tr.top_tweet.unwrap();
    let lead = "Paired tweet (you may riff on it): @"@;
    let rest = ": \""@ + at_most(tw.text@, 280) + "\"\nTweet URL: "@ + tw.url@;
    let front = "\""@ + category_told(tr) + posts_told(tr) + "\n"@;
    assert(tweet_block(tr.top_tweet) =~= lead + tw.author@ + rest);
    assert(front + (lead + tw.author@ + rest) =~= (front + lead) + tw.author@ + rest);
    lemma_in_tail(tr, front + lead, tw.author@, rest);
}

proof fn lemma_trend_tweet(tr: ScrapedTrend)
    requires
        tr.top_tweet is Some,
    ensures
        passages::in_order(
            trend_block(Some(tr)),
            seq![tr.top_tweet.unwrap().author@, at_most(tr.top_tweet.unwrap().text@, 280)],
        ),
        text::has(trend_block(Some(tr)), tr.top_tweet.unwrap().url@),
{
    let tw = tr.top_tweet.unwrap();
    let e = Seq::<char>::empty();
    let said = at_most(tw.text@, 280);
    let lead = "Paired tweet (you may riff on it): @"@;
    let mid = ": \""@;
    let link = "\"\nTweet URL: "@;
    let block = tweet_block(tr.top_tweet);
    passages::lemma_two(lead, tw.author@, mid, said, link + tw.url@);
    assert(lead + tw.author@ + mid + said + (link + tw.url@) =~= block);
    passages::lemma_stands(lead + tw.author@ + mid + said + link, tw.url@, e);
    assert(lead + tw.author@ + mid + said + link + tw.url@ + e =~= block);
    let front = "Current X trend to riff on: \""@ + tr.name@ + "\""@ + category_told(tr) + posts_told(
        tr,
    ) + "\n"@;
    assert(trend_block(Some(tr)) == front + block);
    passages::lemma_in_order(front, block, e, seq![tw.author@, said]);
    passages::lemma_has(front, block, e, tw.url@);
    assert(front + block + e =~= front + block);
}

/// A parody that could be read is taken, the one in the whole answer before the one
/// between its braces, and only where none could be read the answer is refused, as a whole.
pub proof fn parodies_are_read(
    r: Result<ParodyResponse, RustlizaError>,
    whole: Option<ParodyResponse>,
    part: Option<ParodyResponse>,
    response: Seq<char>,
)
    requires
        is_chosen(r, whole, part, response),
    ensures
        r is Err <==> whole is None && part is None,
        whole is Some ==> r == Ok::<ParodyResponse, RustlizaError>(whole.unwrap()),
        whole is None && part is Some ==> r == Ok::<ParodyResponse, RustlizaError>(part.unwrap()),
        r is Err ==> r->Err_0 is Other && text::has(r->Err_0->Other_0@, response),
{
    if r is Err {
        let head = "model did not return valid JSON: "@;
        passages::lemma_stands(head, response, Seq::empty());
        assert(head + response + Seq::<char>::empty() =~= head + response);
    }
}

/// A ticker that is fit stays as it is, also behind a dollar sign.
pub proof fn fit_tickers_stay(t: Seq<char>)
    requires
        1 <= t.len() <= 8,
        forall|i: int| 0 <= i < t.len() ==> crate::patterns::symbol_char(#[trigger] t[i]),
    ensures
        fit_ticker(t) == t,
        fit_ticker(seq!['$'] + t) == t,
{
    let p = |c: char| c == '$';
    assert(crate::patterns::symbol_char(t[0]));
    text::lemma_drop_while(t, p, 0);
    assert(t.subrange(0, t.len() as int) =~= t);
    let s = seq!['$'] + t;
    assert(s[1] == t[0]);
    text::lemma_drop_while(s, p, 1);
    assert(s.subrange(1, s.len() as int) =~= t);
    lemma_fit_letters(t);
}

proof fn lemma_fit_letters(t: Seq<char>)
    requires
        forall|i: int| 0 <= i < t.len() ==> crate::patterns::symbol_char(#[trigger] t[i]),
    ensures
        letters_upper(t) == t,
    decreases t.len(),
{
    if t.len() > 0 {
        let front = t.drop_last();
        assert forall|i: int| 0 <= i < front.len() implies crate::patterns::symbol_char(
            #[trigger] front[i],
        ) by {
            assert(front[i] == t[i]);
        }
        lemma_fit_letters(front);
        assert(crate::patterns::symbol_char(t[t.len() - 1]));
        assert(front.push(t.last()) =~= t);
    } else {
        assert(letters_upper(t) =~= t);
    }
}

/// The letters and digits of a text are those of its parts in their order: a letter or
/// digit adds itself, as a capital, and any other character adds nothing.
pub proof fn letters_are_kept(a: Seq<char>, b: Seq<char>, c: char)
    ensures
        letters_upper(a + b) == letters_upper(a) + letters_upper(b),
        'a' <= c <= 'z' ==> letters_upper(seq![c]) == seq![(c as u32 - 32) as char],
        'A' <= c <= 'Z' || '0' <= c <= '9' ==> letters_upper(seq![c]) == seq![c],
        !('a' <= c <= 'z' || 'A' <= c <= 'Z' || '0' <= c <= '9') ==> letters_upper(
            seq![c],
        ).len() == 0,
    decreases b.len(),
{
    reveal_with_fuel(letters_upper, 2);
    assert(seq![c].drop_last() =~= Seq::<char>::empty());
    assert(Seq::<char>::empty().push(lines::upper(c)) =~= seq![lines::upper(c)]);
    if b.len() == 0 {
        assert(a + b =~= a);
        assert(letters_upper(a) + letters_upper(b) =~= letters_upper(a));
    } else {
        letters_are_kept(a, b.drop_last(), c);
        assert((a + b).drop_last() =~= a + b.drop_last());
        assert((a + b).last() == b.last());
        assert(letters_upper(a + b) =~= letters_upper(a) + letters_upper(b));
    }
}

/// A website is kept, without the scheme before it and the slash behind it.
pub proof fn websites_are_kept(d: Seq<char>)
    requires
        d.len() > 0,
        !text::white(d[0]) && !text::white(d.last()),
        d.last() != '/',
        !text::begins_with(d, "https://"@) && !text::begins_with(d, "http://"@),
    ensures
        bare_website(d) == d,
        bare_website("https://"@ + d) == d,
        bare_website("https://"@ + d + seq!['/']) == d,
        bare_website("http://"@ + d) == d,
{
    let e = Seq::<char>::empty();
    lemma_bare(e, d, e);
    assert(e + d + e =~= d);
    lemma_bare("https://"@, d, e);
    assert("https://"@ + d + e =~= "https://"@ + d);
    lemma_bare("https://"@, d, seq!['/']);
    lemma_bare("http://"@, d, e);
    assert("http://"@ + d + e =~= "http://"@ + d);
}

proof fn lemma_bare(scheme: Seq<char>, d: Seq<char>, end: Seq<char>)
    requires
        d.len() > 0,
        !text::white(d[0]) && !text::white(d.last()),
        d.last() != '/',
        !text::begins_with(d, "https://"@) && !text::begins_with(d, "http://"@),
        scheme == "https://"@ || scheme == "http://"@ || scheme.len() == 0,
        end.len() == 0 || end == seq!['/'] && scheme == "https://"@,
    ensures
        bare_website(scheme + d + end) == d,
{
    reveal_strlit("https://");
    reveal_strlit("http://");
    let s = scheme + d + end;
    let w = |c: char| text::white(c);
    let slash = |c: char| c == '/';
    let n = s.len() as int;
    assert(!text::white('h') && !text::white('/'));
    assert(s[0] == if scheme.len() == 0 { d[0] } else { 'h' });
    assert(s[n - 1] == if end.len() == 0 { d.last() } else { '/' });
    text::lemma_drop_while(s, w, 0);
    assert(s.subrange(0, n) =~= s);
    text::lemma_drop_while_end(s, w, n);
    assert(text::trimmed(s) == s);
    let rest = d + end;
    lemma_no_scheme(d, end, "https://"@);
    lemma_no_scheme(d, end, "http://"@);
    if scheme.len() == 0 {
        assert(s =~= rest);
    } else if scheme == "https://"@ {
        assert(s.subrange(0, 8) =~= "https://"@);
        assert(s.subrange(8, n) =~= rest);
        reveal_with_fuel(text::drop_prefixes, 2);
    } else {
        assert(s.subrange(0, 7) =~= "http://"@);
        assert(s.subrange(7, n) =~= rest);
        assert(!text::begins_with(s, "https://"@)) by {
            assert(s[4] == ':');
            if text::begins_with(s, "https://"@) {
                assert(s.subrange(0, 8)[4] == 's');
            }
        }
        reveal_with_fuel(text::drop_prefixes, 2);
    }
    text::lemma_drop_while_end(rest, slash, d.len() as int);
    assert(rest.subrange(0, d.len() as int) =~= d);
}

/// A text that does not begin with a scheme does not with a slash behind it.
proof fn lemma_no_scheme(d: Seq<char>, end: Seq<char>, scheme: Seq<char>)
    requires
        d.len() > 0,
        d.last() != '/',
        end.len() == 0 || end == seq!['/'],
        scheme == "https://"@ || scheme == "http://"@,
        !text::begins_with(d, scheme),
    ensures
        !text::begins_with(d + end, scheme),
{
    reveal_strlit("https://");
    reveal_strlit("http://");
    let s = d + end;
    let k = scheme.len() as int;
    if text::begins_with(s, scheme) {
        assert(s.subrange(0, k) == scheme);
        if d.len() >= k {
            assert(d.subrange(0, k) =~= scheme);
        } else {
            assert(s.subrange(0, k)[k - 2] == s[k - 2]);
            assert(scheme[k - 2] == '/');
            assert(s[k - 2] == d.last());
        }
    }
}

/// The page of a coin tells all of it, made safe, in this order: the ticker and the name;
/// the name and the ticker again; the name and the symbol of the coin that it is a parody
/// of; the trend; the blurb; the other coin's name and symbol again; its address, twice; the
/// tweet; the website, twice; that address again; and when the coin was made.
#[verifier::rlimit(50)]
pub proof fn listings_tell_the_coin(coin: GeneratedCoin)
    ensures
        ({
            let name = outside::html_safe(coin.name@);
            let ticker = outside::html_safe(coin.ticker@);
            let website = outside::html_safe(coin.website@);
            let other = outside::html_safe(coin.source_coin.name@);
            let symbol = outside::html_safe(coin.source_coin.symbol@);
            let url = outside::html_safe(coin.source_coin.url@);
            passages::in_order(
                listing(coin),
                seq![
                    ticker,
                    name,
                    name,
                    ticker,
                    other,
                    symbol,
                    trend_line(coin.source_trend),
                    outside::html_safe(coin.blurb@),
                    other,
                    symbol,
                    url,
                    url,
                    tweet_section(paired_tweet(coin.source_trend)),
                    website,
                    website,
                    url,
                    coin.created_at.text(),
                ],
            )
        }),
{
    let name = outside::html_safe(coin.name@);
    let ticker = outside::html_safe(coin.ticker@);
    let blurb = outside::html_safe(coin.blurb@);
    let website = outside::html_safe(coin.website@);
    let other = outside::html_safe(coin.source_coin.name@);
    let symbol = outside::html_safe(coin.source_coin.symbol@);
    let url = outside::html_safe(coin.source_coin.url@);
    let created = coin.created_at.text();
    let trend = trend_line(coin.source_trend);
    let tweet = tweet_section(paired_tweet(coin.source_trend));
    let t0 = LISTING_HEAD@ + ticker;
    let p0 = seq![ticker];
    passages::lemma_single(LISTING_HEAD@, ticker, Seq::empty());
    assert(t0 + Seq::<char>::empty() =~= t0);
    let t1 = t0 + " — "@ + name;
    let p1 = p0.push(name);
    passages::lemma_behind(t0, p0, " — "@, name);
    let t2 = t1 + LISTING_STYLE@ + name;
    let p2 = p1.push(name);
    passages::lemma_behind(t1, p1, LISTING_STYLE@, name);
    let t3 = t2 + " <span class=\"ticker\">$"@ + ticker;
    let p3 = p2.push(ticker);
    passages::lemma_behind(t2, p2, " <span class=\"ticker\">$"@, ticker);
    let t4 = t3 + "</span></h1>\n  <p class=\"subtitle\">A pseudo-vamp of <strong>"@ + other;
    let p4 = p3.push(other);
    passages::lemma_behind(t3, p3, "</span></h1>\n  <p class=\"subtitle\">A pseudo-vamp of <strong>"@, other);
    let t5 = t4 + "</strong> ("@ + symbol;
    let p5 = p4.push(symbol);
    passages::lemma_behind(t4, p4, "</strong> ("@, symbol);
    let t6 = t5 + "). "@ + trend;
    let p6 = p5.push(trend);
    passages::lemma_behind(t5, p5, "). "@, trend);
    let t7 = t6 + "</p>\n\n  <div class=\"blurb\">"@ + blurb;
    let p7 = p6.push(blurb);
    passages::lemma_behind(t6, p6, "</p>\n\n  <div class=\"blurb\">"@, blurb);
    let t8 = t7 + LISTING_SOURCE@ + other;
    let p8 = p7.push(other);
    passages::lemma_behind(t7, p7, LISTING_SOURCE@, other);
    let t9 = t8 + " ("@ + symbol;
    let p9 = p8.push(symbol);
    passages::lemma_behind(t8, p8, " ("@, symbol);
    let t10 = t9 + LISTING_CHART@ + url;
    let p10 = p9.push(url);
    passages::lemma_behind(t9, p9, LISTING_CHART@, url);
    let t11 = t10 + "\" target=\"_blank\" rel=\"noopener\">"@ + url;
    let p11 = p10.push(url);
    passages::lemma_behind(t10, p10, "\" target=\"_blank\" rel=\"noopener\">"@, url);
    let t12 = t11 + "</a></div>\n    </div>\n  </div>\n\n  "@ + tweet;
    let p12 = p11.push(tweet);
    passages::lemma_behind(t11, p11, "</a></div>\n    </div>\n  </div>\n\n  "@, tweet);
    let t13 = t12 + "\n\n  <div class=\"actions\">\n    <a class=\"button primary\" href=\"https://"@ + website;
    let p13 = p12.push(website);
    passages::lemma_behind(t12, p12, "\n\n  <div class=\"actions\">\n    <a class=\"button primary\" href=\"https://"@, website);
    let t14 = t13 + "\" target=\"_blank\" rel=\"noopener\">visit "@ + website;
    let p14 = p13.push(website);
    passages::lemma_behind(t13, p13, "\" target=\"_blank\" rel=\"noopener\">visit "@, website);
    let t15 = t14 + "</a>\n    <a class=\"button secondary\" href=\""@ + url;
    let p15 = p14.push(url);
    passages::lemma_behind(t14, p14, "</a>\n    <a class=\"button secondary\" href=\""@, url);
    let t16 = t15 + LISTING_END@ + created;
    let p16 = p15.push(created);
    passages::lemma_behind(t15, p15, LISTING_END@, created);

    passages::lemma_in_order(Seq::empty(), t16, LISTING_FOOT@, p16);
    assert(Seq::<char>::empty() + t16 + LISTING_FOOT@ =~= listing(coin));
    assert(p16 =~= seq![
        ticker,
        name,
        name,
        ticker,
        other,
        symbol,
        trend,
        blurb,
        other,
        symbol,
        url,
        url,
        tweet,
        website,
        website,
        url,
        created,
    ]);
}

/// The parts of the page that tell of the trend and its tweet hold them, made safe.
#[verifier::rlimit(50)]
pub proof fn listings_tell_the_trend(tr: ScrapedTrend)
    ensures
        text::has(trend_line(Some(tr)), outside::html_safe(tr.name@)),
        tr.top_tweet is Some ==> passages::in_order(
            tweet_section(paired_tweet(Some(tr))),
            seq![
                outside::html_safe(tr.top_tweet.unwrap().author@),
                outside::html_safe(tr.top_tweet.unwrap().text@),
                outside::html_safe(tr.top_tweet.unwrap().url@),
            ],
        ),
        tr.top_tweet is None ==> tweet_section(paired_tweet(Some(tr))).len() == 0,
{
    passages::lemma_stands(
        "inspired by trending topic <em>"@,
        outside::html_safe(tr.name@),
        "</em>"@,
    );
    if tr.top_tweet is Some {
        let tw = tr.top_tweet.unwrap();
        let author = outside::html_safe(tw.author@);
        let said = outside::html_safe(tw.text@);
        let url = outside::html_safe(tw.url@);
        let head = "\n    <section class=\"tweet\">\n      <div class=\"tweet-head\">paired tweet · @"@;
        let t0 = head + author;
        passages::lemma_single(head, author, Seq::empty());
        assert(t0 + Seq::<char>::empty() =~= t0);
        let b1 = "</div>\n      <p class=\"tweet-body\">"@;
        passages::lemma_behind(t0, seq![author], b1, said);
        let b2 = "</p>\n      <a class=\"tweet-link\" href=\""@;
        passages::lemma_behind(t0 + b1 + said, seq![author].push(said), b2, url);
        let t2 = t0 + b1 + said + b2 + url;
        let rest = "\" target=\"_blank\" rel=\"noopener\">"@ + url + "</a>\n    </section>"@;
        passages::lemma_in_order(Seq::empty(), t2, rest, seq![author].push(said).push(url));
        assert(Seq::<char>::empty() + t2 + rest =~= tweet_section(Some(tw)));
        assert(seq![author].push(said).push(url) =~= seq![author, said, url]);
    }
}

/// A coin that was made is told with its ticker, its name and its website, and with its
/// JSON text.
pub proof fn minted_coins_are_told(r: ActionResult, coin: GeneratedCoin, data: Option<String>)
    requires
        tells_minted(r, coin, data),
    ensures
        r.success && r.data == data,
        r.text is Some,
        passages::in_order(r.text.unwrap()@, seq![coin.ticker@, coin.name@]),
        passages::in_order(r.text.unwrap()@, seq![coin.name@, coin.website@]),
{
    let e = Seq::<char>::empty();
    let a = "Minted parody coin $"@;
    let b = " — paired website "@;
    let whole = r.text.unwrap()@;
    passages::lemma_two(a, coin.ticker@, ": "@, coin.name@, b + coin.website@);
    assert(a + coin.ticker@ + ": "@ + coin.name@ + (b + coin.website@) =~= whole);
    passages::lemma_two(a + coin.ticker@ + ": "@, coin.name@, b, coin.website@, e);
    assert(a + coin.ticker@ + ": "@ + coin.name@ + b + coin.website@ + e =~= whole);
}

/// An object that stands in an answer without other braces around it is what is taken of it.
pub proof fn objects_are_taken_out(before: Seq<char>, inside: Seq<char>, behind: Seq<char>)
    requires
        !before.contains('{'),
        !behind.contains('}'),
        text::trimmed(before + seq!['{'] + inside + seq!['}'] + behind) == before + seq!['{']
            + inside + seq!['}'] + behind,
    ensures
        braced(before + seq!['{'] + inside + seq!['}'] + behind) == Some(
            seq!['{'] + inside + seq!['}'],
        ),
{
    let t = before + seq!['{'] + inside + seq!['}'] + behind;
    let a = before.len() as int;
    let b = a + 1 + inside.len();
    let o = seq!['{'];
    let c = seq!['}'];
    assert(t.subrange(a, a + 1) =~= o);
    assert forall|j: int| 0 <= j < a implies !#[trigger] text::occurs_at(t, o, j) by {
        if text::occurs_at(t, o, j) {
            assert(t.subrange(j, j + 1)[0] == before[j]);
            assert(before.contains(before[j]));
        }
    }
    text::lemma_first_at_is(t, o, 0, a);
    assert(t.subrange(b, b + 1) =~= c);
    assert forall|j: int| b < j < t.len() implies #[trigger] t[j] != c[0] by {
        assert(t[j] == behind[j - b - 1]);
        assert(behind.contains(behind[j - b - 1]));
    }
    respond::lemma_last(t, c, b, t.len() as int);
    assert(t.subrange(a, b + 1) =~= o + inside + c);
}

} // verus!
