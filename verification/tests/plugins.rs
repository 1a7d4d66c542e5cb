use karakeep_sync::readwise::{
    category_passes, export_page_request, export_url, parse_categories, title_with_author, token_authorization,
    ExportResponse, ExportResult, ReadwiseExport, ReadwiseHighlights,
};
use karakeep_sync::reddit_feed::{RedditSavedFeed, RedditUpvotedFeed};
use karakeep_sync::settings::{
    get_settings, schedule_defaults, GitHubSettings, HNSettings, KarakeepSettings,
    PinboardSettings, ReadwiseSettings, RedditFeedSettings, RedditSettings, Settings,
    SettingsSlot, YouTubeSettings,
};
use karakeep_sync::youtube_liked::YouTubeLiked;

fn s(v: &str) -> String {
    v.to_string()
}

fn sample_settings() -> Settings {
    Settings {
        hn: HNSettings { auth: None, schedule: s("@daily") },
        karakeep: KarakeepSettings { auth: s("key"), url: s("https://k.example.com") },
        reddit: RedditSettings { clientid: None, clientsecret: None, refreshtoken: None, schedule: s("@daily") },
        redditfeed: RedditFeedSettings {
            savedurl: Some(s("https://r.com/saved.json?feed=x")),
            upvotedurl: None,
            sincetimestamp: Some(1700000000),
            excludensfw: true,
            schedule: s("@hourly"),
        },
        github: GitHubSettings { token: None, schedule: s("@daily") },
        pinboard: PinboardSettings { token: None, schedule: s("@daily") },
        readwise: ReadwiseSettings {
            token: Some(s("rw")),
            categories: None,
            schedule: s("0 0 * * *"),
            fullsync: true,
        },
        youtube: YouTubeSettings {
            clientid: Some(s("id")),
            clientsecret: Some(s("")),
            refreshtoken: Some(s("rt")),
            excludecategories: None,
            schedule: s("@weekly"),
        },
    }
}

fn result(url: Option<&str>, title: &str, category: &str, author: Option<&str>) -> ExportResult {
    ExportResult {
        source_url: url.map(s),
        title: s(title),
        category: s(category),
        author: author.map(s),
        updated: Some(s("2024-05-01")),
    }
}

#[test]
fn readwise_urls_and_header() {
    assert_eq!(export_url(""), "https://readwise.io/api/v2/export/");
    assert_eq!(export_url("abc"), "https://readwise.io/api/v2/export/?pageCursor=abc");
    assert_eq!(export_page_request(&Some(s(""))), Some(s("https://readwise.io/api/v2/export/")));
    assert_eq!(export_page_request(&None), None);
    assert_eq!(token_authorization("t0k"), "Token t0k");
}

#[test]
fn readwise_categories_are_trimmed_and_lowercased() {
    assert_eq!(parse_categories(&Some(s("Articles, BOOKS ,tweets"))), vec!["articles", "books", "tweets"]);
    assert_eq!(parse_categories(&Some(s("ÄRTICLES"))), vec!["ärticles"]);
    assert!(parse_categories(&None).is_empty());
}

#[test]
fn readwise_titles() {
    assert_eq!(title_with_author(&s("Book"), &Some(s("Ann"))), "Book - Ann");
    assert_eq!(title_with_author(&s("Book"), &None), "Book");
}

#[test]
fn readwise_pages_deduplicate_sources() {
    let mut export = ReadwiseExport::new(&None);
    let page = ExportResponse {
        results: vec![
            result(Some("https://a.com"), "A", "articles", Some("Ann")),
            result(None, "NoUrl", "books", None),
            result(Some("https://a.com"), "A again", "articles", None),
            result(Some("https://b.com"), "B", "books", None),
        ],
        next_page_cursor: Some(s("c2")),
    };
    let (bookmarks, next) = export.process_page(page).unwrap();
    assert_eq!(next, Some(s("c2")));
    assert_eq!(bookmarks.len(), 2);
    assert_eq!(bookmarks[0].url, "https://a.com");
    assert_eq!(bookmarks[0].title, "A - Ann");
    assert_eq!(bookmarks[0].created_at, Some(s("2024-05-01")));
    assert_eq!(bookmarks[1].url, "https://b.com");
    let page = ExportResponse {
        results: vec![
            result(Some("https://b.com"), "B", "books", None),
            result(Some("https://c.com"), "C", "tweets", None),
        ],
        next_page_cursor: None,
    };
    let (bookmarks, next) = export.process_page(page).unwrap();
    assert_eq!(next, None);
    assert_eq!(bookmarks.len(), 1);
    assert_eq!(bookmarks[0].url, "https://c.com");
    let page = ExportResponse {
        results: vec![result(Some("https://c.com"), "C", "tweets", None)],
        next_page_cursor: None,
    };
    assert!(export.process_page(page).is_none());
}

#[test]
fn readwise_category_filter() {
    let mut export = ReadwiseExport::new(&Some(s("Books")));
    let page = ExportResponse {
        results: vec![
            result(Some("https://a.com"), "A", "articles", None),
            result(Some("https://b.com"), "B", "BOOKS", None),
            result(Some("https://a.com"), "A2", "books", None),
        ],
        next_page_cursor: None,
    };
    let (bookmarks, _) = export.process_page(page).unwrap();
    assert_eq!(bookmarks.len(), 2);
    assert_eq!(bookmarks[0].url, "https://b.com");
    assert_eq!(bookmarks[1].url, "https://a.com");
    assert_eq!(bookmarks[1].title, "A2");
}

#[test]
fn readwise_plugin_settings() {
    let settings = sample_settings();
    let p = ReadwiseHighlights {};
    assert_eq!(p.list_name(), "Readwise");
    assert!(p.is_activated(&settings));
    assert_eq!(p.recurring_schedule(&settings), "0 0 * * *");
    assert!(p.force_full_sync(&settings));
    let mut other = sample_settings();
    other.readwise.token = Some(s(""));
    assert!(!p.is_activated(&other));
    other.readwise.token = None;
    assert!(!p.is_activated(&other));
}

#[test]
fn reddit_plugins_settings() {
    let settings = sample_settings();
    let saved = RedditSavedFeed {};
    assert_eq!(saved.list_name(), "Reddit Saved");
    assert!(saved.is_activated(&settings));
    assert_eq!(saved.recurring_schedule(&settings), "@hourly");
    let config = saved.stream_config(&settings).unwrap();
    assert_eq!(config.feed_url, "https://r.com/saved.json?feed=x");
    assert_eq!(config.filter.since_timestamp, Some(1700000000));
    assert!(config.filter.exclude_nsfw);
    let upvoted = RedditUpvotedFeed {};
    assert_eq!(upvoted.list_name(), "Reddit Upvoted");
    assert!(!upvoted.is_activated(&settings));
    match upvoted.stream_config(&settings) {
        Err(e) => assert_eq!(e, "Reddit upvoted feed URL not configured"),
        Ok(_) => panic!("expected an error"),
    }
    let mut other = sample_settings();
    other.redditfeed.savedurl = None;
    match saved.stream_config(&other) {
        Err(e) => assert_eq!(e, "Reddit saved feed URL not configured"),
        Ok(_) => panic!("expected an error"),
    }
}

#[test]
fn youtube_plugin_settings() {
    let mut settings = sample_settings();
    let p = YouTubeLiked {};
    assert_eq!(p.list_name(), "YouTube Liked");
    assert!(!p.is_activated(&settings));
    settings.youtube.clientsecret = Some(s("secret"));
    assert!(p.is_activated(&settings));
    assert_eq!(p.recurring_schedule(&settings), "@weekly");
}

#[test]
fn settings_load_once() {
    let mut slot = SettingsSlot::new();
    let mut calls = 0;
    let first = get_settings(&mut slot, || {
        calls += 1;
        sample_settings()
    })
    .karakeep
    .url
    .clone();
    assert_eq!(first, "https://k.example.com");
    let again = get_settings(&mut slot, || {
        let mut other = sample_settings();
        other.karakeep.url = s("https://other");
        other
    })
    .karakeep
    .url
    .clone();
    assert_eq!(again, "https://k.example.com");
    assert_eq!(calls, 1);
}

#[test]
fn schedules_default_to_daily() {
    let d = schedule_defaults();
    let keys: Vec<&str> = d.iter().map(|(k, _)| k.as_str()).collect();
    assert_eq!(
        keys,
        vec![
            "hn.schedule",
            "reddit.schedule",
            "redditfeed.schedule",
            "github.schedule",
            "pinboard.schedule",
            "readwise.schedule",
            "youtube.schedule"
        ]
    );
    assert!(d.iter().all(|(_, v)| v == "@daily"));
}

#[test]
fn readwise_category_setting_scenario() {
    let mut export = ReadwiseExport::new(&Some(s(" Articles , BOOKS")));
    let page = ExportResponse {
        results: vec![
            result(Some("https://b.com"), "B", "Books", None),
            result(Some("https://t.com"), "T", "tweets", None),
        ],
        next_page_cursor: None,
    };
    let (bookmarks, next) = export.process_page(page).unwrap();
    assert_eq!(next, None);
    assert_eq!(bookmarks.len(), 1);
    assert_eq!(bookmarks[0].url, "https://b.com");
}

#[test]
fn readwise_filter_only_narrows() {
    let pages = || {
        vec![
            ExportResponse {
                results: vec![
                    result(Some("https://a.com"), "A", "articles", None),
                    result(Some("https://b.com"), "B", "books", None),
                ],
                next_page_cursor: Some(s("c2")),
            },
            ExportResponse {
                results: vec![
                    result(Some("https://a.com"), "A", "books", None),
                    result(Some("https://c.com"), "C", "tweets", None),
                ],
                next_page_cursor: None,
            },
        ]
    };
    let run = |categories: Option<String>| {
        let mut export = ReadwiseExport::new(&categories);
        let mut urls = Vec::new();
        let mut cursors = Vec::new();
        for page in pages() {
            match export.process_page(page) {
                Some((bookmarks, next)) => {
                    urls.extend(bookmarks.into_iter().map(|b| b.url));
                    cursors.push(next);
                }
                None => cursors.push(None),
            }
        }
        (urls, cursors)
    };
    let (filtered, filtered_cursors) = run(Some(s("books")));
    let (all, all_cursors) = run(None);
    assert_eq!(filtered, vec!["https://b.com", "https://a.com"]);
    assert_eq!(all, vec!["https://a.com", "https://b.com", "https://c.com"]);
    assert!(filtered.iter().all(|u| all.contains(u)));
    assert_eq!(filtered_cursors, all_cursors);
}

#[test]
fn readwise_lowered_category_passes() {
    let cats = vec![s("books"), s("tweets")];
    assert!(category_passes(&cats, &s("books")));
    assert!(!category_passes(&cats, &s("Books")));
    assert!(category_passes(&Vec::new(), &s("anything")));
}
