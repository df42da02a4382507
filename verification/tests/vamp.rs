use rustliza::ids::Uuid;
use rustliza::parody::{
    choose_parody, clean_parody, clean_ticker, clean_website, find_overlap, json_candidates,
    listing_file, mint, parody_params, pick_relevant_trend, relevant_trend, render, require_coin,
    sanitize_filename, vamp_plugin, GenerateVampCoinAction, MintTrouble, ParodyResponse,
    VampService,
};
use rustliza::runtime::Plugin;
use rustliza::time::Timestamp;
use rustliza::vamp::{
    after_search, attach_tweets, are_shortenable, boosted_coins, derive_symbol_from_description, is_shortenable, pick_random,
    search_url, short_address, trend_lookups, trend_of_cell, trend_search_url, trending_coins,
    trends_of_cells, tweet_of_article,
    urlencoding_encode, BoostEntry, CoinStep, GeneratedCoin, ScheduleStep, ScrapeStep, ScrapedTrend,
    ScrapedTweet, SearchPair, TokenInfo, TrendingCoin, VampConfig, VampState,
};
use rustliza::vamp_api::{
    change_config, coin_answer, config_response, list_coins, list_trends, serve_listing,
    vamp_disabled, ConfigUpdate,
};

fn at() -> Timestamp {
    Timestamp { secs: 1_700_000_000, nanos: 0 }
}

fn pair(symbol: &str, volume: Option<f64>) -> SearchPair {
    SearchPair {
        chain_id: "".into(),
        chain_id_camel: "Solana".into(),
        url: format!("u/{}", symbol),
        base_token: None,
        base_token_camel: Some(TokenInfo {
            address: "addr".into(),
            name: "".into(),
            symbol: symbol.into(),
        }),
        price_usd: Some("1".into()),
        fdv: None,
        volume_h24: volume.map(|v| v.to_bits()),
    }
}

#[test]
fn coins_by_volume_without_repetition() {
    let mut other = pair("ETH", Some(9e9));
    other.chain_id = "ethereum".into();
    let mut bare = pair("X", Some(9e9));
    bare.base_token_camel = None;
    let pairs = vec![
        pair("AAA", Some(1.5)),
        pair("bbb", Some(7.0)),
        other,
        bare,
        pair("", Some(5.0)),
        pair("BBB", Some(3.0)),
        pair("CCC", None),
        pair("DDD", Some(-1.0)),
    ];
    let coins = trending_coins(&pairs, "solana", 10);
    let symbols: Vec<&str> = coins.iter().map(|c| c.symbol.as_str()).collect();
    assert_eq!(symbols, vec!["bbb", "AAA", "CCC", "DDD"]);
    assert_eq!(coins[0].name, "Unknown");
    assert_eq!(coins[0].chain, "Solana");
    assert_eq!(trending_coins(&pairs, "solana", 1).len(), 1);
    assert!(trending_coins(&pairs, "base", 10).is_empty());
    assert_eq!(search_url("solana"), "https://api.dexscreener.com/latest/dex/search?q=solana");
}

fn boost(chain: &str, address: &str, description: Option<&str>) -> BoostEntry {
    BoostEntry {
        chain_id: chain.into(),
        token_address: address.into(),
        description: description.map(|s| s.to_string()),
        url: None,
    }
}

#[test]
fn advertised_coins() {
    let boosts = vec![
        boost("solana", "ABCDEFGHIJ", Some("buy $FOO and $BAR")),
        boost("base", "x", None),
        boost("SOLANA", "ABCDEFGHIJ", None),
        boost("solana", "short", Some("no $symbol")),
    ];
    assert!(are_shortenable(&boosts, "solana", 2));
    let coins = boosted_coins(&boosts, "solana", 2);
    assert_eq!(coins.len(), 2);
    assert_eq!(coins[0].symbol, "FOO");
    assert_eq!(coins[1].symbol, "ABCD…GHIJ");
    assert_eq!(coins[1].name, "Boosted Token");
    assert_eq!(boosted_coins(&boosts, "solana", 9)[2].symbol, "short");
    assert!(!are_shortenable(&vec![boost("solana", "abcéefgh", None)], "solana", 2));
    assert!(are_shortenable(&vec![boost("base", "abcéefgh", None)], "solana", 2));
    assert!(!is_shortenable("abcéefgh"));
    assert_eq!(short_address("1234567"), "1234567");
    assert_eq!(short_address("12345678"), "1234…5678");
    let d = |s: &str| derive_symbol_from_description(&Some(s.to_string()));
    assert_eq!(d("$A $ABCDEFGHIJKLMNO"), Some("ABCDEFGHIJKL".to_string()));
    assert_eq!(d("cost: $5"), None);
    assert_eq!(derive_symbol_from_description(&None), None);
}

#[test]
fn a_coin_is_picked() {
    let coins = trending_coins(&vec![pair("A", None), pair("B", None)], "solana", 9);
    let c = pick_random(&coins).unwrap();
    assert!(c.symbol == "A" || c.symbol == "B");
    assert!(pick_random(&vec![]).is_none());
    assert_eq!(require_coin(None).unwrap_err().message(), "no trending coins available");
    assert!(require_coin(Some(c)).is_ok());
    assert_eq!(MintTrouble::Fetch.error("e").message(), "coin fetch failed: e");
    assert_eq!(MintTrouble::Listing.error("e").message(), "write listing: e");
    assert_eq!(MintTrouble::Store.error("e").message(), "store coin: e");
}

#[test]
fn cells_show_trends() {
    let t = trend_of_cell(" Music · Trending \n\nThe longest line here\n12K posts\n", at()).unwrap();
    assert_eq!(t.name, "The longest line here");
    assert_eq!(t.category, Some("Music · Trending".to_string()));
    assert_eq!(t.post_count, Some("12K posts".to_string()));
    assert!(t.top_tweet.is_none());
    let t = trend_of_cell("abc\nxyz", at()).unwrap();
    assert_eq!(t.name, "xyz");
    assert_eq!(t.category, Some("abc".to_string()));
    let t = trend_of_cell("POSTS", at()).unwrap();
    assert_eq!(t.post_count, Some("POSTS".to_string()));
    assert!(t.category.is_none());
    assert!(trend_of_cell("  \n ", at()).is_none());
    assert!(trend_of_cell("", at()).is_none());
}

#[test]
fn cells_become_trends() {
    let cells: Vec<String> =
        ["One", " \n", "Two\nTwo trends", "Three"].iter().map(|s| s.to_string()).collect();
    let names = |max: usize| -> Vec<String> {
        trends_of_cells(&cells, max).into_iter().map(|t| t.name).collect()
    };
    assert_eq!(names(3), vec!["One".to_string(), "Two trends".to_string()]);
    assert_eq!(names(9).len(), 3);
    assert!(names(0).is_empty());
}

#[test]
fn tweets_are_looked_up_for_the_first_trends() {
    let cells: Vec<String> = (0..7).map(|i| format!("trend {}", i)).collect();
    let mut trends = trends_of_cells(&cells, 12);
    let urls = trend_lookups(&trends);
    assert_eq!(urls.len(), 5);
    assert_eq!(urls[4], "https://x.com/search?q=trend%204&src=trend_click&f=live");
    assert_eq!(trend_lookups(&trends_of_cells(&cells, 2)).len(), 2);
    let tweet = |u: &str| ScrapedTweet { url: u.into(), author: "a".into(), text: "t".into() };
    attach_tweets(&mut trends, vec![Some(tweet("0")), None, Some(tweet("2")), None, None]);
    let found: Vec<Option<String>> =
        trends.iter().map(|t| t.top_tweet.as_ref().map(|w| w.url.clone())).collect();
    assert_eq!(found[0], Some("0".to_string()));
    assert_eq!(found[2], Some("2".to_string()));
    assert_eq!(found.iter().filter(|f| f.is_some()).count(), 2);
    attach_tweets(&mut trends, vec![None]);
    assert!(trends[0].top_tweet.is_some());
    let mut none = Vec::new();
    attach_tweets(&mut none, vec![Some(tweet("x"))]);
    assert!(none.is_empty());
}

#[test]
fn boosts_are_asked_for_where_no_coin_was_found() {
    let pairs = vec![pair("A", Some(1.0)), pair("B", Some(2.0))];
    match after_search(&pairs, "SOLANA", 1) {
        CoinStep::Found(coins) => {
            assert_eq!(coins.len(), 1);
            assert_eq!(coins[0].symbol, "B");
        }
        CoinStep::AskBoosts => panic!("coins were found"),
    }
    assert!(matches!(after_search(&pairs, "base", 5), CoinStep::AskBoosts));
    assert!(matches!(after_search(&pairs, "solana", 0), CoinStep::AskBoosts));
    assert!(matches!(after_search(&vec![], "solana", 5), CoinStep::AskBoosts));
}

#[test]
fn articles_show_tweets() {
    let article = "1\n2\n3\n4\n5\n6\n7\n8\n9";
    let t = tweet_of_article(article, &Some("/a/status/1".into()), &Some("Ada\n@ada".into())).unwrap();
    assert_eq!(t.url, "https://x.com/a/status/1");
    assert_eq!(t.author, "Ada");
    assert_eq!(t.text, "1 2 3 4 5 6 7 8");
    let t = tweet_of_article("x", &Some("http://y".into()), &Some("".into())).unwrap();
    assert_eq!((t.url.as_str(), t.author.as_str()), ("http://y", "anon"));
    assert_eq!(tweet_of_article("x", &Some("http".into()), &None).unwrap().author, "anon");
    assert!(tweet_of_article("x", &None, &None).is_none());
}

#[test]
fn names_in_addresses() {
    assert_eq!(urlencoding_encode("aZ09-_.~"), "aZ09-_.~");
    assert_eq!(urlencoding_encode("a b/é#"), "a%20b%2F%C3%A9%23");
    assert_eq!(urlencoding_encode("a b~é"), "a%20b~%C3%A9");
    assert_eq!(
        urlencoding_encode("a b~é"),
        format!("{}{}", urlencoding_encode("a b"), urlencoding_encode("~é"))
    );
    assert_eq!(trend_search_url("#x"), "https://x.com/search?q=%23x&src=trend_click&f=live");
}

fn coin() -> TrendingCoin {
    TrendingCoin {
        symbol: "DOGE".into(),
        name: "Dogecoin & co".into(),
        chain: "solana".into(),
        address: "a".into(),
        price_usd: None,
        volume_24h_usd: None,
        fdv_usd: None,
        url: "http://d".into(),
    }
}

fn trend(name: &str) -> ScrapedTrend {
    ScrapedTrend {
        name: name.into(),
        category: Some("News".into()),
        post_count: Some("5 posts".into()),
        top_tweet: Some(ScrapedTweet {
            url: "http://t".into(),
            author: "bob".into(),
            text: "<b>\"hi\"</b>".into(),
        }),
        scraped_at: at(),
    }
}

#[test]
fn a_trend_is_picked() {
    let trends = vec![trend("weather"), trend("All about DOGECOIN"), trend("doge")];
    assert_eq!(relevant_trend(&trends, &coin()), Some(1));
    assert_eq!(pick_relevant_trend(&trends, &coin()).unwrap().name, trends[1].name);
    let others = vec![trend("weather")];
    assert_eq!(relevant_trend(&others, &coin()), None);
    assert_eq!(pick_relevant_trend(&others, &coin()).unwrap().name, others[0].name);
    assert!(pick_relevant_trend(&vec![], &coin()).is_none());
    assert_eq!(find_overlap(&vec!["abc".into()], &vec!["abc".into()]), Some(0));
    assert_eq!(find_overlap(&vec!["abc".into()], &vec!["ab".into()]), None);
    let mut dog = coin();
    dog.name = "Dog".into();
    dog.symbol = "DOG".into();
    let days = vec![trend("Cat day"), trend("Dog day")];
    assert_eq!(pick_relevant_trend(&days, &dog).unwrap().name, "Dog day");
    let mut short = coin();
    short.name = "A".into();
    short.symbol = "Q".into();
    let days = vec![trend("Great day"), trend("A day")];
    assert_eq!(pick_relevant_trend(&days, &short).unwrap().name, "A day");
    assert_eq!(find_overlap(&vec!["abc".into()], &vec!["abcd".into(), "d abc".into()]), Some(1));
    assert_eq!(find_overlap(&vec!["abcd".into()], &vec!["x".into(), "xabcdx".into()]), Some(1));
}

#[test]
fn the_prompt_for_a_parody() {
    let p = parody_params(&coin(), &Some(trend("rain")));
    assert!(p.prompt.contains(
        "- Name: Dogecoin & co\n- Symbol: DOGE\n- Chain: solana\n\n\
         Current X trend to riff on: \"rain\" (category: News) — 5 posts\n\
         Paired tweet (you may riff on it): @bob: \"<b>\"hi\"</b>\"\nTweet URL: http://t\n\nJSON response:"
    ));
    assert!(p.prompt.contains("{ \"name\": \"...\", \"ticker\": \"...\""));
    assert_eq!((p.max_tokens, p.temperature), (Some(400), Some(0.95f32.to_bits())));
    let p = parody_params(&coin(), &None);
    assert!(p.prompt.contains("\n\nNo current trend available — invent something"));
}

fn parody(ticker: &str, website: &str) -> ParodyResponse {
    ParodyResponse {
        name: "Dog <e>".into(),
        ticker: ticker.into(),
        blurb: "b".into(),
        website: website.into(),
    }
}

#[test]
fn answers_are_made_fit() {
    assert_eq!(clean_ticker("$$wif-é hat too long"), "WIFHATTO");
    assert_eq!(clean_ticker("$ é"), "VAMP");
    assert_eq!(clean_website(" https://http://a.lol// "), "a.lol");
    assert_eq!(clean_website("http://https://a.lol"), "https://a.lol");
    let p = clean_parody(parody("$a", "http://x/"));
    assert_eq!((p.ticker.as_str(), p.website.as_str()), ("A", "x"));
    assert_eq!(
        json_candidates(" so: {\"a\": {}} ok "),
        ("so: {\"a\": {}} ok".to_string(), Some("{\"a\": {}}".to_string()))
    );
    assert_eq!(json_candidates("} {").1, None);
    assert_eq!(json_candidates("{").1, None);
    assert_eq!(choose_parody(Some(parody("w", "")), Some(parody("p", "")), "").unwrap().ticker, "w");
    assert_eq!(choose_parody(None, Some(parody("p", "")), "").unwrap().ticker, "p");
    assert_eq!(
        choose_parody(None, None, "hm").unwrap_err().message(),
        "model did not return valid JSON: hm"
    );
}

fn minted() -> GeneratedCoin {
    let mut c = mint(
        clean_parody(parody("dog", "dog.lol")),
        coin(),
        Some(trend("rain & sun")),
        "out/dog.html".into(),
    );
    c.created_at = at();
    c
}

#[test]
fn listings_are_safe() {
    let html = render(&minted());
    assert!(html.starts_with("<!DOCTYPE html>\n<html lang=\"en\">"));
    assert!(html.contains("<title>$DOG — Dog &lt;e&gt;</title>"));
    assert!(html.contains("A pseudo-vamp of <strong>Dogecoin &amp; co</strong> (DOGE). inspired by trending topic <em>rain &amp; sun</em></p>"));
    assert!(html.contains("<p class=\"tweet-body\">&lt;b&gt;&quot;hi&quot;&lt;&#x2F;b&gt;</p>"));
    assert!(html.contains("href=\"https://dog.lol\""));
    assert!(html.contains("Generated 2023-11-14T22:13:20+00:00 by rustliza-vamp."));
    assert!(html.contains(":root {\n  --bg:#0b0b14;"));
    assert!(html.ends_with("</html>"));
    let mut bare = minted();
    bare.source_trend = None;
    let html = render(&bare);
    assert!(!html.contains("paired tweet"));
    assert!(html.contains("(DOGE). </p>"));
    assert_eq!(sanitize_filename("../a_b-C é"), "---a_b-C--");
    assert_eq!(listing_file("DOG.X"), "dog-x.html");
}

#[test]
fn the_vamp_plugin() {
    let p: Plugin<GenerateVampCoinAction, (), (), VampService> = vamp_plugin();
    assert_eq!(p.actions[0].name(), "GENERATE_VAMP_COIN");
    assert_eq!(p.actions[0].priority(), 50);
    assert_eq!(p.services[0].name(), "vamp.trend_scraper");
    assert_eq!(p.services[1].name(), "vamp.scheduler");
    let r = p.actions[0].minted(&minted(), Some("{}".into()));
    assert_eq!(r.text.unwrap(), "Minted parody coin $DOG: Dog <e> — paired website dog.lol");
    let r = p.actions[0].failed(&MintTrouble::Fetch.error("e"));
    assert_eq!(r.error.unwrap(), "coin fetch failed: e");
}

#[test]
fn the_state_remembers_two_hundred_coins() {
    let mut s = VampState::new(VampConfig::default());
    for i in 0..205u32 {
        let mut c = minted();
        c.name = i.to_string();
        s.push_coin(c, at());
    }
    assert_eq!(s.coins().len(), 200);
    assert_eq!(s.coins()[0].name, "5");
    assert_eq!(s.coins()[199].name, "204");
    assert_eq!(s.last_generate(), Some(at()));
    s.scraped(vec![], at());
    assert!(s.last_scrape().is_none());
    s.scraped(vec![trend("x")], at());
    assert_eq!(s.trends().len(), 1);
    assert_eq!(s.last_scrape(), Some(at()));
}

#[test]
fn waits_have_a_least_length() {
    let mut c = VampConfig::default();
    assert_eq!((c.scrape_wait(), c.schedule_wait()), (1800, 3600));
    c.scrape_interval_secs = 1;
    c.interval_secs = 0;
    assert_eq!((c.scrape_wait(), c.schedule_wait()), (60, 5));
    c.scrape_interval_secs = 60;
    c.interval_secs = 5;
    assert_eq!((c.scrape_wait(), c.schedule_wait()), (60, 5));
}

#[test]
fn work_is_done_where_it_is_switched_on() {
    let mut c = VampConfig::default();
    assert_eq!(c.scrape_step(), ScrapeStep::Scrape(12));
    assert_eq!(c.schedule_step(), ScheduleStep::Idle(10));
    c.scrape_enabled = false;
    c.auto_enabled = true;
    assert_eq!(c.scrape_step(), ScrapeStep::Idle(15));
    assert_eq!(c.schedule_step(), ScheduleStep::Mint);
}

#[test]
fn answers_about_coins() {
    let a = coin_answer(&minted());
    assert_eq!(a.listing_url, "/vamp/listings/dog");
    assert_eq!(a.trend, Some("rain & sun".to_string()));
    assert_eq!(a.tweet_author, Some("bob".to_string()));
    assert_eq!(a.created_at, "2023-11-14T22:13:20+00:00");
    let mut second = minted();
    second.name = "second".into();
    let coins = vec![minted(), second];
    assert_eq!(list_coins(&coins)[0].name, "second");
    assert!(serve_listing(&coins, "Dog").unwrap().contains("<h1>second "));
    let r = serve_listing(&coins, "cat").unwrap_err();
    assert_eq!((r.status, r.body.error.as_str()), (404, "no generated coin with ticker cat"));
    assert_eq!(list_trends(&vec![trend("x")])[0].tweet_url, Some("http://t".to_string()));
    assert_eq!(vamp_disabled().status, 503);
}

#[test]
fn configuration_is_changed_in_part() {
    let mut u = ConfigUpdate {
        auto_enabled: None,
        interval_secs: None,
        scrape_enabled: None,
        scrape_interval_secs: None,
        coin_chain: None,
    };
    let old = VampConfig::default();
    let same = change_config(&old, &u);
    assert_eq!((same.interval_secs, same.coin_chain.as_str()), (3600, "solana"));
    u.auto_enabled = Some(true);
    u.coin_chain = Some("base".into());
    let new = change_config(&old, &u);
    assert!(new.auto_enabled && new.scrape_enabled);
    assert_eq!((new.coin_chain.as_str(), new.max_trends), ("base", 12));
    let r = config_response(&None);
    assert!(!r.has_state && r.interval_secs == 0);
    let mut s = VampState::new(old);
    let shown = s.update_config(new);
    assert_eq!(shown.coin_chain, "base");
    s.push_coin(minted(), at());
    let r = config_response(&Some(s));
    assert!(r.has_state && r.auto_enabled);
    assert_eq!(r.coin_count, 1);
    assert_eq!(r.last_generate, Some("2023-11-14T22:13:20+00:00".to_string()));
    assert_eq!(minted().source_coin.copy().symbol, "DOGE");
    assert_ne!(minted().id, Uuid::nil());
}
