//! Reddit JSON feeds (the private feeds of old.reddit.com/prefs/feeds): no
//! OAuth, the feed URL carries its own token. Listings come newest first and
//! are paged with an `after` token.
use vstd::prelude::*;
use crate::bookmark::{bookmarks_view, BookmarkCreate, BookmarkView};
use crate::settings::Settings;
use crate::text::{clone_opt, concat2, concat3, contains_char, to_owned_string};

verus! {

/// One post of a listing.
pub struct RedditPost {
    pub title: Option<String>,
    pub url: Option<String>,
    pub permalink: String,
    /// When the post was created, in whole Unix seconds (the feed's
    /// fractional timestamp truncated toward zero).
    pub created_utc: Option<i64>,
    /// Whether the post is marked NSFW (over 18).
    pub over_18: bool,
}

/// A post as plain values.
pub struct RedditPostView {
    pub title: Option<Seq<char>>,
    pub url: Option<Seq<char>>,
    pub permalink: Seq<char>,
    pub created_utc: Option<i64>,
    pub over_18: bool,
}

impl View for RedditPost {
    type V = RedditPostView;

    open spec fn view(&self) -> RedditPostView {
        RedditPostView {
            title: self.title.deep_view(),
            url: self.url.deep_view(),
            permalink: self.permalink@,
            created_utc: self.created_utc,
            over_18: self.over_18,
        }
    }
}

/// One page of a feed: its posts, and the token of the next page if any.
pub struct RedditListing {
    pub children: Vec<RedditPost>,
    pub after: Option<String>,
}

/// The views of a sequence of posts.
pub open spec fn posts_view(v: Seq<RedditPost>) -> Seq<RedditPostView> {
    v.map_values(|p: RedditPost| p@)
}

/// Which posts a feed keeps.
pub struct FeedFilter {
    /// Only posts created at or after this Unix timestamp.
    pub since_timestamp: Option<i64>,
    /// Leave out posts marked NSFW.
    pub exclude_nsfw: bool,
}

/// Where a feed stream stands.
pub enum FeedState {
    /// Nothing fetched yet.
    Init,
    /// The next page's token, if the last listing named one.
    Next(Option<String>),
    /// Paging stopped: the last page reached posts older than the cutoff.
    Done,
}

/// A stream state as plain values.
pub enum FeedStateView {
    Init,
    Next(Option<Seq<char>>),
    Done,
}

impl View for FeedState {
    type V = FeedStateView;

    open spec fn view(&self) -> FeedStateView {
        match self {
            FeedState::Init => FeedStateView::Init,
            FeedState::Next(a) => FeedStateView::Next(a.deep_view()),
            FeedState::Done => FeedStateView::Done,
        }
    }
}

/// The post is NSFW and NSFW posts are left out.
pub open spec fn is_excluded_nsfw(p: RedditPostView, f: FeedFilter) -> bool {
    f.exclude_nsfw && p.over_18
}

/// The post passes the NSFW check and is older than the cutoff.
pub open spec fn is_before_cutoff(p: RedditPostView, f: FeedFilter) -> bool {
    &&& !is_excluded_nsfw(p, f)
    &&& f.since_timestamp is Some
    &&& p.created_utc is Some
    &&& p.created_utc->0 < f.since_timestamp->0
}

/// The post becomes a bookmark.
pub open spec fn keeps_post(p: RedditPostView, f: FeedFilter) -> bool {
    !is_excluded_nsfw(p, f) && !is_before_cutoff(p, f)
}

/// The link of a post: its URL, else its permalink on reddit.com.
pub open spec fn post_url(p: RedditPostView) -> Seq<char> {
    match p.url {
        Some(u) => u,
        None => "https://www.reddit.com"@ + p.permalink,
    }
}

/// The title of a post, `Untitled` when it has none.
pub open spec fn post_title(p: RedditPostView) -> Seq<char> {
    match p.title {
        Some(t) => t,
        None => "Untitled"@,
    }
}

/// The bookmark of a kept post.
pub open spec fn post_bookmark(p: RedditPostView) -> BookmarkView {
    BookmarkView { url: post_url(p), title: post_title(p), created_at: None }
}

/// The bookmarks of the kept posts, in order.
pub open spec fn feed_bookmarks(posts: Seq<RedditPostView>, f: FeedFilter) -> Seq<BookmarkView>
    decreases posts.len(),
{
    if posts.len() == 0 {
        Seq::<BookmarkView>::empty()
    } else {
        let init = feed_bookmarks(posts.drop_last(), f);
        if keeps_post(posts.last(), f) {
            init.push(post_bookmark(posts.last()))
        } else {
            init
        }
    }
}

/// Some post of the page is older than the cutoff.
pub open spec fn reaches_cutoff(posts: Seq<RedditPostView>, f: FeedFilter) -> bool {
    exists|i: int| 0 <= i < posts.len() && #[trigger] is_before_cutoff(posts[i], f)
}

/// The state after a page: done once a post older than the cutoff shows
/// up (the feed is newest first, so later pages are older still), else the
/// page's `after` token.
pub open spec fn state_after_page(
    posts: Seq<RedditPostView>,
    after: Option<Seq<char>>,
    f: FeedFilter,
) -> FeedStateView {
    if reaches_cutoff(posts, f) {
        FeedStateView::Done
    } else {
        FeedStateView::Next(after)
    }
}

/// The URL of the feed page after `after`: the token is added as a query
/// parameter, with `&` when the feed URL already has a query, else `?`.
pub open spec fn spec_page_url(base: Seq<char>, after: Seq<char>) -> Seq<char> {
    if base.contains('?') {
        base + "&after="@ + after
    } else {
        base + "?after="@ + after
    }
}

/// What to fetch in a state: the feed URL first, then the page after the
/// last token; nothing once the last listing named no next page or paging
/// stopped.
pub open spec fn spec_feed_request(state: FeedStateView, base: Seq<char>) -> Option<Seq<char>> {
    match state {
        FeedStateView::Init => Some(base),
        FeedStateView::Next(Some(after)) => Some(spec_page_url(base, after)),
        FeedStateView::Next(None) => None,
        FeedStateView::Done => None,
    }
}

/// The URL of the feed page after `after`.
pub fn page_url(base: &str, after: &str) -> (r: String)
    ensures
        r@ == spec_page_url(base@, after@),
{
    if contains_char(base, '?') {
        concat3(base, "&after=", after)
    } else {
        concat3(base, "?after=", after)
    }
}

/// The URL to fetch in a state, or nothing when the stream has ended.
pub fn feed_request(state: &FeedState, base: &str) -> (r: Option<String>)
    ensures
        r.deep_view() == spec_feed_request(state@, base@),
{
    match state {
        FeedState::Init => Some(to_owned_string(base)),
        FeedState::Next(Some(after)) => Some(page_url(base, after.as_str())),
        FeedState::Next(None) => None,
        FeedState::Done => None,
    }
}

/// The bookmark of a post.
pub fn bookmark_of_post(p: &RedditPost) -> (r: BookmarkCreate)
    ensures
        r@ == post_bookmark(p@),
{
    let url = match &p.url {
        Some(u) => u.clone(),
        None => concat2("https://www.reddit.com", p.permalink.as_str()),
    };
    let title = match &p.title {
        Some(t) => t.clone(),
        None => to_owned_string("Untitled"),
    };
    BookmarkCreate { url, title, created_at: None }
}

/// Turns a listing into the bookmarks of its kept posts, and the state to
/// go on from.
pub fn process_listing(listing: RedditListing, filter: &FeedFilter) -> (r: (
    Vec<BookmarkCreate>,
    FeedState,
))
    ensures
        bookmarks_view(r.0@) == feed_bookmarks(posts_view(listing.children@), *filter),
        r.1@ == state_after_page(
            posts_view(listing.children@),
            listing.after.deep_view(),
            *filter,
        ),
{
    let ghost posts = posts_view(listing.children@);
    let n = listing.children.len();
    let mut out: Vec<BookmarkCreate> = Vec::new();
    let mut hit_old_post = false;
    let mut i: usize = 0;
    assert(posts.take(0) =~= Seq::<RedditPostView>::empty());
    while i < n
        invariant
            i <= n,
            n == listing.children@.len(),
            posts == posts_view(listing.children@),
            bookmarks_view(out@) == feed_bookmarks(posts.take(i as int), *filter),
            hit_old_post == exists|k: int|
                0 <= k < i && #[trigger] is_before_cutoff(posts[k], *filter),
        decreases n - i,
    {
        let post = &listing.children[i];
        assert(posts[i as int] == post@);
        assert(posts.take(i + 1).drop_last() == posts.take(i as int));
        assert(posts.take(i + 1).last() == post@);
        let ghost prev = bookmarks_view(out@);
        let ghost old_hit = hit_old_post;
        if filter.exclude_nsfw && post.over_18 {
        } else {
            let too_old = match (filter.since_timestamp, post.created_utc) {
                (Some(cutoff), Some(created)) => created < cutoff,
                _ => false,
            };
            if too_old {
                hit_old_post = true;
            } else {
                out.push(bookmark_of_post(post));
                assert(bookmarks_view(out@) == prev.push(post_bookmark(post@)));
            }
        }
        assert(hit_old_post == (old_hit || is_before_cutoff(posts[i as int], *filter)));
        i = i + 1;
    }
    assert(posts.take(n as int) == posts);
    let next_state = if hit_old_post {
        FeedState::Done
    } else {
        FeedState::Next(clone_opt(&listing.after))
    };
    (out, next_state)
}

/// Where a feed comes from and which posts it keeps.
pub struct FeedConfig {
    pub feed_url: String,
    pub filter: FeedFilter,
}

/// The Reddit saved-links feed sync.
pub struct RedditSavedFeed {}

/// The Reddit upvoted-links feed sync.
pub struct RedditUpvotedFeed {}

/// The feed settings for a feed URL setting, or the error message when the
/// URL is not configured.
fn feed_config(url: &Option<String>, settings: &Settings, missing: &str) -> (r: Result<
    FeedConfig,
    String,
>)
    ensures
        r is Ok <==> url is Some,
        r matches Ok(c) ==> {
            &&& Some(c.feed_url@) == url.deep_view()
            &&& c.filter.since_timestamp == settings.redditfeed.sincetimestamp
            &&& c.filter.exclude_nsfw == settings.redditfeed.excludensfw
        },
        r matches Err(e) ==> e@ == missing@,
{
    match url {
        Some(u) => Ok(
            FeedConfig {
                feed_url: u.clone(),
                filter: FeedFilter {
                    since_timestamp: settings.redditfeed.sincetimestamp,
                    exclude_nsfw: settings.redditfeed.excludensfw,
                },
            },
        ),
        None => Err(to_owned_string(missing)),
    }
}

impl RedditSavedFeed {
    /// The bookmark list that saved links go to.
    pub fn list_name(&self) -> (r: &'static str)
        ensures
            r@ == "Reddit Saved"@,
    {
        "Reddit Saved"
    }

    /// The saved feed and its filter; an error when no saved feed URL is set.
    pub fn stream_config(&self, settings: &Settings) -> (r: Result<FeedConfig, String>)
        ensures
            r is Ok <==> settings.redditfeed.savedurl is Some,
            r matches Ok(c) ==> {
                &&& Some(c.feed_url@) == settings.redditfeed.savedurl.deep_view()
                &&& c.filter.since_timestamp == settings.redditfeed.sincetimestamp
                &&& c.filter.exclude_nsfw == settings.redditfeed.excludensfw
            },
            r matches Err(e) ==> e@ == "Reddit saved feed URL not configured"@,
    {
        feed_config(
            &settings.redditfeed.savedurl,
            settings,
            "Reddit saved feed URL not configured",
        )
    }

    /// The sync runs when a saved feed URL is set.
    pub fn is_activated(&self, settings: &Settings) -> (r: bool)
        ensures
            r == settings.redditfeed.savedurl is Some,
    {
        settings.redditfeed.savedurl.is_some()
    }

    /// The configured schedule.
    pub fn recurring_schedule(&self, settings: &Settings) -> (r: String)
        ensures
            r@ == settings.redditfeed.schedule@,
    {
        settings.redditfeed.schedule.clone()
    }
}

impl RedditUpvotedFeed {
    /// The bookmark list that upvoted links go to.
    pub fn list_name(&self) -> (r: &'static str)
        ensures
            r@ == "Reddit Upvoted"@,
    {
        "Reddit Upvoted"
    }

    /// The upvoted feed and its filter; an error when no upvoted feed URL is
    /// set.
    pub fn stream_config(&self, settings: &Settings) -> (r: Result<FeedConfig, String>)
        ensures
            r is Ok <==> settings.redditfeed.upvotedurl is Some,
            r matches Ok(c) ==> {
                &&& Some(c.feed_url@) == settings.redditfeed.upvotedurl.deep_view()
                &&& c.filter.since_timestamp == settings.redditfeed.sincetimestamp
                &&& c.filter.exclude_nsfw == settings.redditfeed.excludensfw
            },
            r matches Err(e) ==> e@ == "Reddit upvoted feed URL not configured"@,
    {
        feed_config(
            &settings.redditfeed.upvotedurl,
            settings,
            "Reddit upvoted feed URL not configured",
        )
    }

    /// The sync runs when an upvoted feed URL is set.
    pub fn is_activated(&self, settings: &Settings) -> (r: bool)
        ensures
            r == settings.redditfeed.upvotedurl is Some,
    {
        settings.redditfeed.upvotedurl.is_some()
    }

    /// The configured schedule.
    pub fn recurring_schedule(&self, settings: &Settings) -> (r: String)
        ensures
            r@ == settings.redditfeed.schedule@,
    {
        settings.redditfeed.schedule.clone()
    }
}

/// Every bookmark of a page comes from one of its posts that is neither a
/// left-out NSFW post nor older than the cutoff.
pub proof fn lemma_feed_bookmarks_come_from_kept_posts(posts: Seq<RedditPostView>, f: FeedFilter)
    ensures
        forall|j: int|
            0 <= j < feed_bookmarks(posts, f).len() ==> exists|i: int|
                0 <= i < posts.len() && keeps_post(posts[i], f) && #[trigger] feed_bookmarks(
                    posts,
                    f,
                )[j] == post_bookmark(posts[i]),
    decreases posts.len(),
{
    if posts.len() > 0 {
        let init = posts.drop_last();
        lemma_feed_bookmarks_come_from_kept_posts(init, f);
        let out = feed_bookmarks(posts, f);
        assert forall|j: int| 0 <= j < out.len() implies exists|i: int|
            0 <= i < posts.len() && keeps_post(posts[i], f) && #[trigger] out[j]
                == post_bookmark(posts[i]) by {
            if j < feed_bookmarks(init, f).len() {
                let i = choose|i: int|
                    0 <= i < init.len() && keeps_post(init[i], f) && #[trigger] feed_bookmarks(
                        init,
                        f,
                    )[j] == post_bookmark(init[i]);
                assert(posts[i] == init[i]);
            } else {
                assert(posts[posts.len() - 1] == posts.last());
            }
        }
    }
}

/// With no filter every post becomes a bookmark, in order, and paging goes
/// on to the page that the listing names.
pub proof fn lemma_unfiltered_feed_keeps_everything(
    posts: Seq<RedditPostView>,
    after: Option<Seq<char>>,
)
    ensures
        feed_bookmarks(posts, FeedFilter { since_timestamp: None, exclude_nsfw: false })
            == posts.map_values(|p: RedditPostView| post_bookmark(p)),
        state_after_page(posts, after, FeedFilter { since_timestamp: None, exclude_nsfw: false })
            == FeedStateView::Next(after),
    decreases posts.len(),
{
    let f = FeedFilter { since_timestamp: None, exclude_nsfw: false };
    if posts.len() > 0 {
        lemma_unfiltered_feed_keeps_everything(posts.drop_last(), after);
        assert(posts.map_values(|p: RedditPostView| post_bookmark(p)) == posts.drop_last().map_values(
            |p: RedditPostView| post_bookmark(p),
        ).push(post_bookmark(posts.last())));
    } else {
        assert(posts.map_values(|p: RedditPostView| post_bookmark(p)) =~= Seq::<
            BookmarkView,
        >::empty());
    }
}

/// The next-page URL: a feed URL that has a `?` anywhere gets `&after=`
/// and the token appended; one without gets `?after=` and the token.
pub proof fn lemma_page_url_appends_token(base: Seq<char>, after: Seq<char>)
    ensures
        base.contains('?') ==> spec_page_url(base, after) == base + "&after="@ + after,
        !base.contains('?') ==> spec_page_url(base, after) == base + "?after="@ + after,
        spec_page_url(base, after).take(base.len() as int) == base,
        spec_page_url(base, after).skip(spec_page_url(base, after).len() - after.len()) == after,
{
    let u = spec_page_url(base, after);
    let mid = if base.contains('?') {
        "&after="@
    } else {
        "?after="@
    };
    assert(u == base + mid + after);
    assert((base + mid + after).take(base.len() as int) =~= base);
    assert((base + mid + after).skip((base + mid + after).len() - after.len()) =~= after);
}

/// What a stream fetches: the feed URL itself first, the next-page URL of
/// a named token after a page, and nothing when the last listing named no
/// next page or paging stopped.
pub proof fn lemma_feed_request_by_state(base: Seq<char>, after: Seq<char>)
    ensures
        spec_feed_request(FeedStateView::Init, base) == Some(base),
        spec_feed_request(FeedStateView::Next(Some(after)), base) == Some(
            spec_page_url(base, after),
        ),
        spec_feed_request(FeedStateView::Next(None), base) is None,
        spec_feed_request(FeedStateView::Done, base) is None,
{
}

/// The bookmark of a post: its URL, or `https://www.reddit.com` followed by
/// its permalink when it has none; its title, or `Untitled`; and no
/// creation time.
pub proof fn lemma_post_bookmark_fields(p: RedditPostView)
    ensures
        p.url matches Some(u) ==> post_bookmark(p).url == u,
        p.url is None ==> post_bookmark(p).url == "https://www.reddit.com"@ + p.permalink,
        p.title matches Some(t) ==> post_bookmark(p).title == t,
        p.title is None ==> post_bookmark(p).title == "Untitled"@,
        post_bookmark(p).created_at is None,
{
}

/// Whenever NSFW posts are excluded, no bookmark of a page comes from an
/// NSFW post, whatever the cutoff; and whenever a cutoff is set, none comes
/// from a post created before it.
pub proof fn lemma_filters_hold_for_every_bookmark(posts: Seq<RedditPostView>, f: FeedFilter)
    ensures
        forall|j: int|
            #![trigger feed_bookmarks(posts, f)[j]]
            0 <= j < feed_bookmarks(posts, f).len() ==> exists|i: int|
                0 <= i < posts.len() && #[trigger] post_bookmark(posts[i]) == feed_bookmarks(
                    posts,
                    f,
                )[j] && (f.exclude_nsfw ==> !posts[i].over_18) && (f.since_timestamp matches Some(
                    cutoff,
                ) ==> (posts[i].created_utc matches Some(c) ==> c >= cutoff)),
{
    lemma_feed_bookmarks_come_from_kept_posts(posts, f);
    let out = feed_bookmarks(posts, f);
    assert forall|j: int| #![trigger out[j]] 0 <= j < out.len() implies exists|i: int|
        0 <= i < posts.len() && #[trigger] post_bookmark(posts[i]) == out[j] && (f.exclude_nsfw
            ==> !posts[i].over_18) && (f.since_timestamp matches Some(cutoff) ==> (
        posts[i].created_utc matches Some(c) ==> c >= cutoff)) by {
        let i = choose|i: int|
            0 <= i < posts.len() && keeps_post(posts[i], f) && #[trigger] out[j] == post_bookmark(
                posts[i],
            );
        assert(post_bookmark(posts[i]) == out[j]);
    }
}

/// Every post that is not an excluded NSFW post and not created before the
/// cutoff gives a bookmark of the page.
pub proof fn lemma_every_passing_post_is_bookmarked(posts: Seq<RedditPostView>, f: FeedFilter, i: int)
    requires
        0 <= i < posts.len(),
        !(f.exclude_nsfw && posts[i].over_18),
        !(f.since_timestamp is Some && posts[i].created_utc is Some && posts[i].created_utc->0
            < f.since_timestamp->0),
    ensures
        feed_bookmarks(posts, f).contains(post_bookmark(posts[i])),
    decreases posts.len(),
{
    let init = posts.drop_last();
    if i == posts.len() - 1 {
        let out = feed_bookmarks(posts, f);
        assert(out == feed_bookmarks(init, f).push(post_bookmark(posts[i])));
        assert(out[out.len() - 1] == post_bookmark(posts[i]));
    } else {
        assert(init[i] == posts[i]);
        lemma_every_passing_post_is_bookmarked(init, f, i);
        let prev = feed_bookmarks(init, f);
        let k = choose|k: int| 0 <= k < prev.len() && prev[k] == post_bookmark(posts[i]);
        if keeps_post(posts.last(), f) {
            assert(feed_bookmarks(posts, f)[k] == prev[k]);
        }
    }
}

/// Paging stops exactly when the page has a post, not an excluded NSFW
/// post, created before the cutoff; otherwise it goes on to the page that
/// the listing names.
pub proof fn lemma_paging_stops_at_cutoff(
    posts: Seq<RedditPostView>,
    after: Option<Seq<char>>,
    f: FeedFilter,
)
    ensures
        (exists|i: int|
            #![trigger posts[i]]
            0 <= i < posts.len() && !(f.exclude_nsfw && posts[i].over_18)
                && f.since_timestamp is Some && posts[i].created_utc is Some
                && posts[i].created_utc->0 < f.since_timestamp->0) ==> state_after_page(
            posts,
            after,
            f,
        ) == FeedStateView::Done,
        !(exists|i: int|
            #![trigger posts[i]]
            0 <= i < posts.len() && !(f.exclude_nsfw && posts[i].over_18)
                && f.since_timestamp is Some && posts[i].created_utc is Some
                && posts[i].created_utc->0 < f.since_timestamp->0) ==> state_after_page(
            posts,
            after,
            f,
        ) == FeedStateView::Next(after),
{
    if exists|i: int|
        #![trigger posts[i]]
            0 <= i < posts.len() && !(f.exclude_nsfw && posts[i].over_18)
            && f.since_timestamp is Some && posts[i].created_utc is Some
            && posts[i].created_utc->0 < f.since_timestamp->0 {
        let i = choose|i: int|
            #![trigger posts[i]]
            0 <= i < posts.len() && !(f.exclude_nsfw && posts[i].over_18)
                && f.since_timestamp is Some && posts[i].created_utc is Some
                && posts[i].created_utc->0 < f.since_timestamp->0;
        assert(is_before_cutoff(posts[i], f));
    } else {
        if reaches_cutoff(posts, f) {
            let i = choose|i: int| 0 <= i < posts.len() && #[trigger] is_before_cutoff(posts[i], f);
            assert(!(f.exclude_nsfw && posts[i].over_18));
        }
    }
}

/// A page's bookmarks keep the order of its posts: the bookmarks of two
/// runs of posts one after the other are the bookmarks of the first run
/// followed by those of the second.
pub proof fn lemma_feed_bookmarks_concat(a: Seq<RedditPostView>, b: Seq<RedditPostView>, f: FeedFilter)
    ensures
        feed_bookmarks(a + b, f) == feed_bookmarks(a, f) + feed_bookmarks(b, f),
    decreases b.len(),
{
    if b.len() == 0 {
        assert(a + b =~= a);
        assert(feed_bookmarks(a, f) + Seq::<BookmarkView>::empty() =~= feed_bookmarks(a, f));
    } else {
        lemma_feed_bookmarks_concat(a, b.drop_last(), f);
        assert((a + b).drop_last() =~= a + b.drop_last());
        assert((a + b).last() == b.last());
        if keeps_post(b.last(), f) {
            assert(feed_bookmarks(a, f) + feed_bookmarks(b.drop_last(), f).push(
                post_bookmark(b.last()),
            ) =~= (feed_bookmarks(a, f) + feed_bookmarks(b.drop_last(), f)).push(
                post_bookmark(b.last()),
            ));
        }
    }
}

/// A single post gives its bookmark unless NSFW posts are excluded and it
/// is one, or a cutoff is set and it was created before it; then nothing.
pub proof fn lemma_feed_bookmarks_single(p: RedditPostView, f: FeedFilter)
    ensures
        feed_bookmarks(seq![p], f) == if (f.exclude_nsfw && p.over_18) || (
        f.since_timestamp is Some && p.created_utc is Some && p.created_utc->0
            < f.since_timestamp->0) {
            Seq::<BookmarkView>::empty()
        } else {
            seq![post_bookmark(p)]
        },
{
    let one = seq![p];
    assert(one.drop_last() =~= Seq::<RedditPostView>::empty());
    assert(one.last() == p);
    assert(feed_bookmarks(one.drop_last(), f) == Seq::<BookmarkView>::empty());
    assert(Seq::<BookmarkView>::empty().push(post_bookmark(p)) =~= seq![post_bookmark(p)]);
}

/// The posts of a listing, as plain values, one for one and in order.
pub proof fn lemma_posts_view_in_order(v: Seq<RedditPost>)
    ensures
        posts_view(v).len() == v.len(),
        forall|i: int| 0 <= i < v.len() ==> #[trigger] posts_view(v)[i] == v[i]@,
{
}

} // verus!
