use karakeep_sync::reddit_feed::{
    feed_request, page_url, process_listing, FeedFilter, FeedState, RedditListing, RedditPost,
};

fn post(title: Option<&str>, url: Option<&str>, permalink: &str, created: Option<i64>, nsfw: bool) -> RedditPost {
    RedditPost {
        title: title.map(|s| s.to_string()),
        url: url.map(|s| s.to_string()),
        permalink: permalink.to_string(),
        created_utc: created,
        over_18: nsfw,
    }
}

#[test]
fn feed_page_urls() {
    assert_eq!(page_url("https://r.com/saved.json?feed=x", "t3_a"), "https://r.com/saved.json?feed=x&after=t3_a");
    assert_eq!(page_url("https://r.com/saved.json", "t3_a"), "https://r.com/saved.json?after=t3_a");
}

#[test]
fn feed_requests_follow_state() {
    let base = "https://r.com/saved.json?feed=x";
    assert_eq!(feed_request(&FeedState::Init, base), Some(base.to_string()));
    assert_eq!(
        feed_request(&FeedState::Next(Some("t3_b".to_string())), base),
        Some("https://r.com/saved.json?feed=x&after=t3_b".to_string())
    );
    assert_eq!(feed_request(&FeedState::Next(None), base), None);
    assert_eq!(feed_request(&FeedState::Done, base), None);
}

#[test]
fn feed_listing_filters_and_maps_posts() {
    let listing = RedditListing {
        children: vec![
            post(Some("A"), Some("https://a.com"), "/r/x/a", Some(200), false),
            post(None, None, "/r/x/b", Some(150), false),
            post(Some("N"), Some("https://n.com"), "/r/x/n", Some(300), true),
            post(Some("Old"), Some("https://o.com"), "/r/x/o", Some(50), false),
            post(Some("NoTime"), Some("https://t.com"), "/r/x/t", None, false),
        ],
        after: Some("t3_next".to_string()),
    };
    let filter = FeedFilter { since_timestamp: Some(100), exclude_nsfw: true };
    let (items, state) = process_listing(listing, &filter);
    assert_eq!(items.len(), 3);
    assert_eq!(items[0].url, "https://a.com");
    assert_eq!(items[0].title, "A");
    assert_eq!(items[1].url, "https://www.reddit.com/r/x/b");
    assert_eq!(items[1].title, "Untitled");
    assert_eq!(items[1].created_at, None);
    assert_eq!(items[2].url, "https://t.com");
    assert!(matches!(state, FeedState::Done));
}

#[test]
fn feed_listing_without_old_posts_goes_on() {
    let listing = RedditListing {
        children: vec![post(Some("N"), Some("https://n.com"), "/n", Some(10), true)],
        after: Some("t3_next".to_string()),
    };
    let filter = FeedFilter { since_timestamp: None, exclude_nsfw: false };
    let (items, state) = process_listing(listing, &filter);
    assert_eq!(items.len(), 1);
    match state {
        FeedState::Next(Some(a)) => assert_eq!(a, "t3_next"),
        _ => panic!("expected next page"),
    }
}

#[test]
fn old_nsfw_post_does_not_stop_paging() {
    let listing = RedditListing {
        children: vec![post(Some("N"), None, "/n", Some(10), true)],
        after: None,
    };
    let filter = FeedFilter { since_timestamp: Some(100), exclude_nsfw: true };
    let (items, state) = process_listing(listing, &filter);
    assert!(items.is_empty());
    assert!(matches!(state, FeedState::Next(None)));
}

#[test]
fn post_at_cutoff_is_kept() {
    let listing = RedditListing {
        children: vec![post(Some("Edge"), None, "/e", Some(100), false)],
        after: None,
    };
    let filter = FeedFilter { since_timestamp: Some(100), exclude_nsfw: false };
    let (items, state) = process_listing(listing, &filter);
    assert_eq!(items.len(), 1);
    assert!(matches!(state, FeedState::Next(None)));
}
