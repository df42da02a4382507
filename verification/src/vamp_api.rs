//! The interface over HTTP to the parody coins.
use vstd::prelude::*;

use crate::api::Refusal;
use crate::error;
use crate::lines;
use crate::outside;
use crate::parody;
use crate::parody::ParodyResponse;
use crate::passages;
use crate::text;
use crate::time::Timestamp;
use crate::vamp::{GeneratedCoin, ScrapedTrend, TrendingCoin, VampConfig, VampState};

verus! {

/// The refusal where there are no parody coins.
pub fn vamp_disabled() -> (r: Refusal)
    ensures
        r.is(503, "vamp plugin not enabled in this build"@),
{
    Refusal::new(503, "vamp plugin not enabled in this build")
}

// ---------------------------------------------------------------------------
// Coins
// ---------------------------------------------------------------------------

/// What is answered for a coin.
#[derive(Clone, Debug)]
pub struct CoinAnswer {
    pub id: String,
    pub created_at: String,
    pub name: String,
    pub ticker: String,
    pub blurb: String,
    pub website: String,
    pub source_name: String,
    pub source_symbol: String,
    pub source_chain: String,
    pub source_url: String,
    pub trend: Option<String>,
    pub tweet_url: Option<String>,
    pub tweet_author: Option<String>,
    pub tweet_text: Option<String>,
    pub listing_url: String,
}

/// The answer shows the coin.
pub open spec fn shows_coin(a: CoinAnswer, c: GeneratedCoin) -> bool {
    let tweet = parody::paired_tweet(c.source_trend);
    &&& a.id@ == c.id.text()
    &&& a.created_at@ == c.created_at.text()
    &&& a.name@ == c.name@
    &&& a.ticker@ == c.ticker@
    &&& a.blurb@ == c.blurb@
    &&& a.website@ == c.website@
    &&& a.source_name@ == c.source_coin.name@
    &&& a.source_symbol@ == c.source_coin.symbol@
    &&& a.source_chain@ == c.source_coin.chain@
    &&& a.source_url@ == c.source_coin.url@
    &&& text::opt_text(a.trend) == (match c.source_trend {
        Some(t) => Some(t.name@),
        None => None,
    })
    &&& text::opt_text(a.tweet_url) == (match tweet {
        Some(t) => Some(t.url@),
        None => None,
    })
    &&& text::opt_text(a.tweet_author) == (match tweet {
        Some(t) => Some(t.author@),
        None => None,
    })
    &&& text::opt_text(a.tweet_text) == (match tweet {
        Some(t) => Some(t.text@),
        None => None,
    })
    &&& a.listing_url@ == "/vamp/listings/"@ + outside::lowercase(c.ticker@)
}

/// What is answered for a coin.
pub fn coin_answer(c: &GeneratedCoin) -> (r: CoinAnswer)
    requires
        c.created_at.valid(),
    ensures
        shows_coin(r, *c),
{
    let (trend, tweet_url, tweet_author, tweet_text) = match &c.source_trend {
        Some(t) => match &t.top_tweet {
            Some(tw) => (
                Some(t.name.clone()),
                Some(tw.url.clone()),
                Some(tw.author.clone()),
                Some(tw.text.clone()),
            ),
            None => (Some(t.name.clone()), None, None, None),
        },
        None => (None, None, None, None),
    };
    let low = outside::to_lowercase(c.ticker.as_str());
    CoinAnswer {
        id: c.id.to_text(),
        created_at: c.created_at.to_rfc3339(),
        name: c.name.clone(),
        ticker: c.ticker.clone(),
        blurb: c.blurb.clone(),
        website: c.website.clone(),
        source_name: c.source_coin.name.clone(),
        source_symbol: c.source_coin.symbol.clone(),
        source_chain: c.source_coin.chain.clone(),
        source_url: c.source_coin.url.clone(),
        trend,
        tweet_url,
        tweet_author,
        tweet_text,
        listing_url: error::prefixed("/vamp/listings/", low.as_str()),
    }
}

/// The times of coins are valid.
pub open spec fn coin_times_valid(coins: Seq<GeneratedCoin>) -> bool {
    forall|i: int| 0 <= i < coins.len() ==> (#[trigger] coins[i]).created_at.valid()
}

/// This is answered for coins: the newest first.
pub open spec fn lists(r: Seq<CoinAnswer>, coins: Seq<GeneratedCoin>) -> bool {
    &&& r.len() == coins.len()
    &&& forall|i: int|
        0 <= i < coins.len() ==> shows_coin(#[trigger] r[i], coins[coins.len() - 1 - i])
}

/// What is answered for coins: the newest first.
pub fn list_coins(coins: &Vec<GeneratedCoin>) -> (r: Vec<CoinAnswer>)
    requires
        coin_times_valid(coins@),
    ensures
        lists(r@, coins@),
{
    let mut out: Vec<CoinAnswer> = Vec::new();
    let mut n: usize = coins.len();
    while n > 0
        invariant
            n <= coins@.len(),
            coin_times_valid(coins@),
            out@.len() == coins@.len() - n,
            forall|i: int|
                0 <= i < out@.len() ==> shows_coin(
                    #[trigger] out@[i],
                    coins@[coins@.len() - 1 - i],
                ),
        decreases n,
    {
        assert(coins@[n - 1].created_at.valid());
        out.push(coin_answer(&coins[n - 1]));
        n = n - 1;
    }
    out
}

/// The last of the first `n` coins with this ticker, whatever the case of ASCII
/// letters.
pub open spec fn newest_with(coins: Seq<GeneratedCoin>, ticker: Seq<char>, n: nat) -> Option<int>
    decreases n,
{
    if n == 0 {
        None
    } else if lines::same_ignoring_case(coins[n - 1].ticker@, ticker) {
        Some(n - 1)
    } else {
        newest_with(coins, ticker, (n - 1) as nat)
    }
}

/// The newest coin with this ticker.
pub fn find_coin(coins: &Vec<GeneratedCoin>, ticker: &str) -> (r: Option<usize>)
    ensures
        match r {
            Some(i) => i < coins@.len() && newest_with(coins@, ticker@, coins@.len()) == Some(
                i as int,
            ),
            None => newest_with(coins@, ticker@, coins@.len()) is None,
        },
{
    let mut n: usize = coins.len();
    while n > 0
        invariant
            n <= coins@.len(),
            newest_with(coins@, ticker@, coins@.len()) == newest_with(coins@, ticker@, n as nat),
        decreases n,
    {
        if lines::eq_ignore_ascii_case(coins[n - 1].ticker.as_str(), ticker) {
            return Some(n - 1);
        }
        n = n - 1;
    }
    None
}

/// This is served where a ticker is asked for: the page of the newest coin with it, or
/// the refusal where there is none.
pub open spec fn serves(
    coins: Seq<GeneratedCoin>,
    ticker: Seq<char>,
    r: Result<String, Refusal>,
) -> bool {
    match newest_with(coins, outside::lowercase(ticker), coins.len()) {
        Some(i) => r is Ok && r->Ok_0@ == parody::listing(coins[i]),
        None => r is Err && r->Err_0.is(404, "no generated coin with ticker "@ + ticker),
    }
}

/// The page of the newest coin with the ticker that is asked for, or the refusal
/// where there is none.
pub fn serve_listing(coins: &Vec<GeneratedCoin>, ticker: &str) -> (r: Result<String, Refusal>)
    requires
        coin_times_valid(coins@),
    ensures
        serves(coins@, ticker@, r),
{
    let want = outside::to_lowercase(ticker);
    match find_coin(coins, want.as_str()) {
        Some(i) => {
            assert(coins@[i as int].created_at.valid());
            Ok(parody::render(&coins[i]))
        },
        None => Err(
            Refusal::new(404, error::prefixed("no generated coin with ticker ", ticker).as_str()),
        ),
    }
}

// ---------------------------------------------------------------------------
// Trends
// ---------------------------------------------------------------------------

/// What is answered for a trend.
#[derive(Clone, Debug)]
pub struct TrendAnswer {
    pub name: String,
    pub category: Option<String>,
    pub post_count: Option<String>,
    pub tweet_url: Option<String>,
    pub scraped_at: String,
}

/// The answer shows the trend.
pub open spec fn shows_trend(a: TrendAnswer, t: ScrapedTrend) -> bool {
    &&& a.name@ == t.name@
    &&& text::opt_text(a.category) == text::opt_text(t.category)
    &&& text::opt_text(a.post_count) == text::opt_text(t.post_count)
    &&& text::opt_text(a.tweet_url) == (match t.top_tweet {
        Some(tw) => Some(tw.url@),
        None => None,
    })
    &&& a.scraped_at@ == t.scraped_at.text()
}

/// The times of trends are valid.
pub open spec fn trend_times_valid(trends: Seq<ScrapedTrend>) -> bool {
    forall|i: int| 0 <= i < trends.len() ==> (#[trigger] trends[i]).scraped_at.valid()
}

/// What is answered for trends.
pub fn list_trends(trends: &Vec<ScrapedTrend>) -> (r: Vec<TrendAnswer>)
    requires
        trend_times_valid(trends@),
    ensures
        r@.len() == trends@.len(),
        forall|i: int| 0 <= i < trends@.len() ==> shows_trend(#[trigger] r@[i], trends@[i]),
{
    let mut out: Vec<TrendAnswer> = Vec::new();
    let mut i: usize = 0;
    while i < trends.len()
        invariant
            i <= trends@.len(),
            trend_times_valid(trends@),
            out@.len() == i,
            forall|k: int| 0 <= k < i ==> shows_trend(#[trigger] out@[k], trends@[k]),
        decreases trends.len() - i,
    {
        assert(trends@[i as int].scraped_at.valid());
        let t = &trends[i];
        let tweet_url = match &t.top_tweet {
            Some(tw) => Some(tw.url.clone()),
            None => None,
        };
        out.push(
            TrendAnswer {
                name: t.name.clone(),
                category: t.category.clone(),
                post_count: t.post_count.clone(),
                tweet_url,
                scraped_at: t.scraped_at.to_rfc3339(),
            },
        );
        i = i + 1;
    }
    out
}

// ---------------------------------------------------------------------------
// Configuration
// ---------------------------------------------------------------------------

/// What is answered for the configuration.
#[derive(Clone, Debug)]
pub struct ConfigResponse {
    pub auto_enabled: bool,
    pub interval_secs: u64,
    pub scrape_enabled: bool,
    pub scrape_interval_secs: u64,
    pub coin_chain: String,
    pub max_trends: usize,
    pub last_scrape: Option<String>,
    pub last_generate: Option<String>,
    pub coin_count: usize,
    pub trend_count: usize,
    pub has_state: bool,
}

/// The text of a point in time, where there is one.
pub open spec fn opt_time(t: Option<Timestamp>) -> Option<Seq<char>> {
    match t {
        Some(at) => Some(at.text()),
        None => None,
    }
}

/// The text of a point in time, where there is one.
fn opt_time_text(t: &Option<Timestamp>) -> (r: Option<String>)
    requires
        t is Some ==> t.unwrap().valid(),
    ensures
        text::opt_text(r) == opt_time(*t),
{
    match t {
        Some(at) => Some(at.to_rfc3339()),
        None => None,
    }
}

/// The times of the state are valid.
pub open spec fn state_times_valid(s: VampState) -> bool {
    &&& s.last_scrape is Some ==> s.last_scrape.unwrap().valid()
    &&& s.last_generate is Some ==> s.last_generate.unwrap().valid()
}

/// This is answered for the configuration; where there are no parody coins, one in
/// which all is switched off.
pub open spec fn shows_config(r: ConfigResponse, state: Option<VampState>) -> bool {
    &&& r.has_state == (state is Some)
    &&& match state {
        Some(s) => {
            &&& r.auto_enabled == s.config.auto_enabled
            &&& r.interval_secs == s.config.interval_secs
            &&& r.scrape_enabled == s.config.scrape_enabled
            &&& r.scrape_interval_secs == s.config.scrape_interval_secs
            &&& r.coin_chain@ == s.config.coin_chain@
            &&& r.max_trends == s.config.max_trends
            &&& text::opt_text(r.last_scrape) == opt_time(s.last_scrape)
            &&& text::opt_text(r.last_generate) == opt_time(s.last_generate)
            &&& r.coin_count == s.coins@.len()
            &&& r.trend_count == s.trends@.len()
        },
        None => {
            &&& !r.auto_enabled
            &&& r.interval_secs == 0
            &&& !r.scrape_enabled
            &&& r.scrape_interval_secs == 0
            &&& r.coin_chain@.len() == 0
            &&& r.max_trends == 0
            &&& r.last_scrape is None
            &&& r.last_generate is None
            &&& r.coin_count == 0
            &&& r.trend_count == 0
        },
    }
}

/// What is answered for the configuration; where there are no parody coins, one
/// in which all is switched off.
pub fn config_response(state: &Option<VampState>) -> (r: ConfigResponse)
    requires
        state is Some ==> state_times_valid(state.unwrap()),
    ensures
        shows_config(r, *state),
{
    match state {
        Some(s) => ConfigResponse {
            auto_enabled: s.config.auto_enabled,
            interval_secs: s.config.interval_secs,
            scrape_enabled: s.config.scrape_enabled,
            scrape_interval_secs: s.config.scrape_interval_secs,
            coin_chain: s.config.coin_chain.clone(),
            max_trends: s.config.max_trends,
            last_scrape: opt_time_text(&s.last_scrape),
            last_generate: opt_time_text(&s.last_generate),
            coin_count: s.coins.len(),
            trend_count: s.trends.len(),
            has_state: true,
        },
        None => ConfigResponse {
            auto_enabled: false,
            interval_secs: 0,
            scrape_enabled: false,
            scrape_interval_secs: 0,
            coin_chain: String::new(),
            max_trends: 0,
            last_scrape: None,
            last_generate: None,
            coin_count: 0,
            trend_count: 0,
            has_state: false,
        },
    }
}

/// A change of the configuration: what is not given stays.
#[derive(Clone, Debug)]
pub struct ConfigUpdate {
    pub auto_enabled: Option<bool>,
    pub interval_secs: Option<u64>,
    pub scrape_enabled: Option<bool>,
    pub scrape_interval_secs: Option<u64>,
    pub coin_chain: Option<String>,
}

/// The configuration after a change.
pub open spec fn config_changed(old: VampConfig, u: ConfigUpdate, new: VampConfig) -> bool {
    &&& new.auto_enabled == (match u.auto_enabled {
        Some(v) => v,
        None => old.auto_enabled,
    })
    &&& new.interval_secs == (match u.interval_secs {
        Some(v) => v,
        None => old.interval_secs,
    })
    &&& new.scrape_enabled == (match u.scrape_enabled {
        Some(v) => v,
        None => old.scrape_enabled,
    })
    &&& new.scrape_interval_secs == (match u.scrape_interval_secs {
        Some(v) => v,
        None => old.scrape_interval_secs,
    })
    &&& new.coin_chain@ == (match u.coin_chain {
        Some(v) => v@,
        None => old.coin_chain@,
    })
    &&& new.listings_dir@ == old.listings_dir@
    &&& new.max_trends == old.max_trends
}

/// The configuration after a change.
pub fn change_config(config: &VampConfig, update: &ConfigUpdate) -> (r: VampConfig)
    ensures
        config_changed(*config, *update, r),
{
    let mut r = config.copy();
    match update.auto_enabled {
        Some(v) => {
            r.auto_enabled = v;
        },
        None => {},
    }
    match update.interval_secs {
        Some(v) => {
            r.interval_secs = v;
        },
        None => {},
    }
    match update.scrape_enabled {
        Some(v) => {
            r.scrape_enabled = v;
        },
        None => {},
    }
    match update.scrape_interval_secs {
        Some(v) => {
            r.scrape_interval_secs = v;
        },
        None => {},
    }
    match &update.coin_chain {
        Some(v) => {
            r.coin_chain = v.clone();
        },
        None => {},
    }
    r
}

/// An empty change changes nothing.
pub proof fn empty_change_keeps_config(old: VampConfig, u: ConfigUpdate, new: VampConfig)
    requires
        u.auto_enabled is None,
        u.interval_secs is None,
        u.scrape_enabled is None,
        u.scrape_interval_secs is None,
        u.coin_chain is None,
        config_changed(old, u, new),
    ensures
        new.same_as(old),
{
}

/// What a model's answer says of a parody is what is shown of the coin, first among all
/// coins once it is the newest, with the coin that it is a parody of, the trend and the
/// trend's tweet.
pub proof fn new_coins_are_shown(
    said: ParodyResponse,
    p: ParodyResponse,
    source: TrendingCoin,
    trend: Option<ScrapedTrend>,
    path: String,
    coin: GeneratedCoin,
    coins: Seq<GeneratedCoin>,
    r: Seq<CoinAnswer>,
)
    requires
        parody::is_cleaned(p, said),
        parody::is_minted(coin, p, source, trend, path),
        lists(r, coins.push(coin)),
    ensures
        r.len() == coins.len() + 1,
        r[0].name@ == said.name@,
        r[0].blurb@ == said.blurb@,
        r[0].ticker@ == parody::fit_ticker(said.ticker@),
        r[0].website@ == parody::bare_website(said.website@),
        r[0].source_name@ == source.name@,
        r[0].source_symbol@ == source.symbol@,
        r[0].source_chain@ == source.chain@,
        r[0].source_url@ == source.url@,
        r[0].id@ == coin.id.text(),
        trend is None ==> r[0].trend is None && r[0].tweet_url is None,
        trend is Some ==> text::opt_text(r[0].trend) == Some(trend.unwrap().name@),
        trend is Some && trend.unwrap().top_tweet is Some ==> text::opt_text(r[0].tweet_url)
            == Some(trend.unwrap().top_tweet.unwrap().url@) && text::opt_text(r[0].tweet_author)
            == Some(trend.unwrap().top_tweet.unwrap().author@) && text::opt_text(r[0].tweet_text)
            == Some(trend.unwrap().top_tweet.unwrap().text@),
        coins.len() > 0 ==> r[1].id@ == coins.last().id.text(),
        text::has(r[0].listing_url@, outside::lowercase(coin.ticker@)),
{
    let all = coins.push(coin);
    assert(shows_coin(r[0], all[all.len() - 1 - 0]));
    if coins.len() > 0 {
        assert(shows_coin(r[1], all[all.len() - 1 - 1]));
    }
    let low = outside::lowercase(coin.ticker@);
    passages::lemma_stands("/vamp/listings/"@, low, Seq::empty());
    assert("/vamp/listings/"@ + low + Seq::<char>::empty() =~= "/vamp/listings/"@ + low);
}

/// The coin that is found is the last with the ticker.
proof fn lemma_newest_with(coins: Seq<GeneratedCoin>, ticker: Seq<char>, n: nat)
    requires
        n <= coins.len(),
    ensures
        match newest_with(coins, ticker, n) {
            Some(i) => 0 <= i < n && lines::same_ignoring_case(coins[i].ticker@, ticker) && (
            forall|j: int|
                i < j < n ==> !lines::same_ignoring_case((#[trigger] coins[j]).ticker@, ticker)),
            None => forall|j: int|
                0 <= j < n ==> !lines::same_ignoring_case((#[trigger] coins[j]).ticker@, ticker),
        },
    decreases n,
{
    if n > 0 && !lines::same_ignoring_case(coins[n - 1].ticker@, ticker) {
        lemma_newest_with(coins, ticker, (n - 1) as nat);
    }
}

/// Where a ticker is asked for, the page of the newest coin with it is served. Where no
/// coin has it, the request is refused as one for something that is not there, with the
/// ticker.
pub proof fn listings_are_served(
    coins: Seq<GeneratedCoin>,
    ticker: Seq<char>,
    r: Result<String, Refusal>,
    i: int,
)
    requires
        serves(coins, ticker, r),
    ensures
        0 <= i < coins.len() && lines::same_ignoring_case(
            coins[i].ticker@,
            outside::lowercase(ticker),
        ) && (forall|j: int|
            i < j < coins.len() ==> !lines::same_ignoring_case(
                (#[trigger] coins[j]).ticker@,
                outside::lowercase(ticker),
            )) ==> r is Ok && r->Ok_0@ == parody::listing(coins[i]),
        r is Err <==> forall|j: int|
            0 <= j < coins.len() ==> !lines::same_ignoring_case(
                (#[trigger] coins[j]).ticker@,
                outside::lowercase(ticker),
            ),
        r is Err ==> r->Err_0.status == 404 && text::has(r->Err_0.body.error@, ticker),
{
    lemma_newest_with(coins, outside::lowercase(ticker), coins.len());
    if r is Err {
        let head = "no generated coin with ticker "@;
        passages::lemma_stands(head, ticker, Seq::empty());
        assert(head + ticker + Seq::<char>::empty() =~= head + ticker);
    }
}

/// What is shown of a trend is its name, its category and its number of posts, where its
/// tweet stands, and when it was scraped.
pub proof fn trends_are_shown(a: TrendAnswer, t: ScrapedTrend)
    requires
        shows_trend(a, t),
    ensures
        a.name@ == t.name@,
        text::opt_text(a.category) == text::opt_text(t.category),
        text::opt_text(a.post_count) == text::opt_text(t.post_count),
        a.tweet_url is Some <==> t.top_tweet is Some,
        t.top_tweet is Some ==> a.tweet_url.unwrap()@ == t.top_tweet.unwrap().url@,
        a.scraped_at@ == t.scraped_at.text(),
{
}

/// What is changed of the configuration is what is then shown of it, and what is not
/// changed is shown as before.
pub proof fn changes_are_shown(
    before: VampState,
    u: ConfigUpdate,
    after: VampState,
    r: ConfigResponse,
    s: ConfigResponse,
)
    requires
        shows_config(r, Some(before)),
        config_changed(before.config, u, after.config),
        after.coins == before.coins && after.trends == before.trends,
        shows_config(s, Some(after)),
    ensures
        r.has_state && s.has_state,
        u.auto_enabled is Some ==> s.auto_enabled == u.auto_enabled.unwrap(),
        u.auto_enabled is None ==> s.auto_enabled == r.auto_enabled,
        u.interval_secs is Some ==> s.interval_secs == u.interval_secs.unwrap(),
        u.interval_secs is None ==> s.interval_secs == r.interval_secs,
        u.scrape_enabled is Some ==> s.scrape_enabled == u.scrape_enabled.unwrap(),
        u.scrape_enabled is None ==> s.scrape_enabled == r.scrape_enabled,
        u.scrape_interval_secs is Some ==> s.scrape_interval_secs
            == u.scrape_interval_secs.unwrap(),
        u.scrape_interval_secs is None ==> s.scrape_interval_secs == r.scrape_interval_secs,
        u.coin_chain is Some ==> s.coin_chain@ == u.coin_chain.unwrap()@,
        u.coin_chain is None ==> s.coin_chain@ == r.coin_chain@,
        s.max_trends == r.max_trends,
        s.coin_count == r.coin_count && s.coin_count == before.coins@.len(),
        s.trend_count == r.trend_count && s.trend_count == before.trends@.len(),
{
}

} // verus!
