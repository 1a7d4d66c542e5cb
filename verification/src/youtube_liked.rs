//! YouTube liked videos, through the Data API with an OAuth refresh token.
//! Pages are named by a page token; an expired access token is refreshed
//! once and the page asked for again.
use vstd::prelude::*;
use crate::bookmark::{bookmarks_view, BookmarkCreate, BookmarkView};
use crate::http::{spec_status_is_success, spec_unauthorized, status_is_success};
use crate::settings::Settings;
use crate::text::{
    clone_opt, concat2, concat3, contains_string, is_set_and_nonempty, split_on, split_trimmed,
    to_owned_string, trim,
};

verus! {

/// The YouTube liked videos sync.
pub struct YouTubeLiked {}

/// One video of a page.
pub struct VideoItem {
    pub id: String,
    pub title: String,
    pub published_at: Option<String>,
    /// The video's category id, where the API gives one.
    pub category_id: Option<String>,
}

/// A video as plain values.
pub struct VideoItemView {
    pub id: Seq<char>,
    pub title: Seq<char>,
    pub published_at: Option<Seq<char>>,
    pub category_id: Option<Seq<char>>,
}

impl View for VideoItem {
    type V = VideoItemView;

    open spec fn view(&self) -> VideoItemView {
        VideoItemView {
            id: self.id@,
            title: self.title@,
            published_at: self.published_at.deep_view(),
            category_id: self.category_id.deep_view(),
        }
    }
}

/// One page of liked videos.
pub struct VideoListResponse {
    pub items: Option<Vec<VideoItem>>,
    pub next_page_token: Option<String>,
}

/// The videos of a page as plain values; a page without items has none.
pub open spec fn page_items(resp: VideoListResponse) -> Seq<VideoItemView> {
    match resp.items {
        Some(v) => v@.map_values(|i: VideoItem| i@),
        None => Seq::<VideoItemView>::empty(),
    }
}

/// The watch page of a video.
pub open spec fn spec_watch_url(id: Seq<char>) -> Seq<char> {
    "https://www.youtube.com/watch?v="@ + id
}

/// The first page of liked videos, fifty at a time.
pub open spec fn liked_videos_base() -> Seq<char> {
    "https://www.googleapis.com/youtube/v3/videos?part=snippet&myRating=like&maxResults=50"@
}

/// The page of liked videos named by a page token; the empty token is the
/// first page.
pub open spec fn spec_liked_videos_url(page_token: Seq<char>) -> Seq<char> {
    if page_token.len() == 0 {
        liked_videos_base()
    } else {
        liked_videos_base() + "&pageToken="@ + page_token
    }
}

/// The value of the `Authorization` header for an access token.
pub open spec fn spec_bearer_authorization(token: Seq<char>) -> Seq<char> {
    "Bearer "@ + token
}

/// The category ids to leave out, from the comma-separated setting.
pub open spec fn spec_excluded_categories(setting: Option<Seq<char>>) -> Seq<Seq<char>> {
    match setting {
        None => Seq::<Seq<char>>::empty(),
        Some(s) => split_on(s, ',').map_values(|p: Seq<char>| trim(p)),
    }
}

/// A video becomes a bookmark unless its category is left out.
pub open spec fn keeps_video(v: VideoItemView, excluded: Seq<Seq<char>>) -> bool {
    !(v.category_id is Some && excluded.contains(v.category_id->0))
}

/// The bookmark of a video: its watch page, title and publication time.
pub open spec fn video_bookmark(v: VideoItemView) -> BookmarkView {
    BookmarkView { url: spec_watch_url(v.id), title: v.title, created_at: v.published_at }
}

/// The bookmarks of the kept videos, in order.
pub open spec fn video_bookmarks(items: Seq<VideoItemView>, excluded: Seq<Seq<char>>) -> Seq<
    BookmarkView,
>
    decreases items.len(),
{
    if items.len() == 0 {
        Seq::<BookmarkView>::empty()
    } else {
        let init = video_bookmarks(items.drop_last(), excluded);
        if keeps_video(items.last(), excluded) {
            init.push(video_bookmark(items.last()))
        } else {
            init
        }
    }
}

/// What to do with the answer to a page request.
pub enum LikedVideosAction {
    /// The access token was refused: get a new one and ask once more.
    RefreshAndRetry,
    /// Read the page from the answer.
    ReadPage,
    /// Stop the stream.
    Stop,
}

/// The decision on an answer: a refused first request is retried with a
/// fresh token; the answer to a retry is read as it is; otherwise a
/// successful answer is read and any other ends the stream.
pub open spec fn spec_liked_videos_action(status: u16, is_retry: bool) -> LikedVideosAction {
    if is_retry {
        LikedVideosAction::ReadPage
    } else if status == spec_unauthorized() {
        LikedVideosAction::RefreshAndRetry
    } else if spec_status_is_success(status) {
        LikedVideosAction::ReadPage
    } else {
        LikedVideosAction::Stop
    }
}

/// Google's OAuth token endpoint.
pub open spec fn spec_token_url() -> Seq<char> {
    "https://oauth2.googleapis.com/token"@
}

/// The form of a refresh-token grant.
pub open spec fn spec_refresh_form(
    client_id: Seq<char>,
    client_secret: Seq<char>,
    refresh_token: Seq<char>,
) -> Seq<(Seq<char>, Seq<char>)> {
    seq![
        ("client_id"@, client_id),
        ("client_secret"@, client_secret),
        ("refresh_token"@, refresh_token),
        ("grant_type"@, "refresh_token"@),
    ]
}

/// The watch page of a video.
pub fn watch_url(id: &str) -> (r: String)
    ensures
        r@ == spec_watch_url(id@),
{
    concat2("https://www.youtube.com/watch?v=", id)
}

/// The page of liked videos for a page token.
pub fn liked_videos_url(page_token: &str) -> (r: String)
    ensures
        r@ == spec_liked_videos_url(page_token@),
{
    let base = "https://www.googleapis.com/youtube/v3/videos?part=snippet&myRating=like&maxResults=50";
    if page_token.is_empty() {
        to_owned_string(base)
    } else {
        concat3(base, "&pageToken=", page_token)
    }
}

/// The page to fetch for a stream state: the state holds the next page
/// token, or nothing when the liked videos are done.
pub fn liked_videos_request(state: &Option<String>) -> (r: Option<String>)
    ensures
        r.deep_view() == match state.deep_view() {
            Some(t) => Some(spec_liked_videos_url(t)),
            None => None::<Seq<char>>,
        },
{
    match state {
        Some(t) => Some(liked_videos_url(t.as_str())),
        None => None,
    }
}

/// The `Authorization` header value for an access token.
pub fn bearer_authorization(token: &str) -> (r: String)
    ensures
        r@ == spec_bearer_authorization(token@),
{
    concat2("Bearer ", token)
}

/// Decides what to do with the answer to a page request.
pub fn liked_videos_action(status: u16, is_retry: bool) -> (r: LikedVideosAction)
    ensures
        r == spec_liked_videos_action(status, is_retry),
{
    if is_retry {
        LikedVideosAction::ReadPage
    } else if status == 401 {
        LikedVideosAction::RefreshAndRetry
    } else if status_is_success(status) {
        LikedVideosAction::ReadPage
    } else {
        LikedVideosAction::Stop
    }
}

/// Google's OAuth token endpoint.
pub fn token_url() -> (r: String)
    ensures
        r@ == spec_token_url(),
{
    to_owned_string("https://oauth2.googleapis.com/token")
}

/// The form fields that ask for a new access token.
pub fn refresh_form(client_id: &str, client_secret: &str, refresh_token: &str) -> (r: Vec<
    (String, String),
>)
    ensures
        r.deep_view() == spec_refresh_form(client_id@, client_secret@, refresh_token@),
{
    let mut r: Vec<(String, String)> = Vec::new();
    r.push((to_owned_string("client_id"), to_owned_string(client_id)));
    r.push((to_owned_string("client_secret"), to_owned_string(client_secret)));
    r.push((to_owned_string("refresh_token"), to_owned_string(refresh_token)));
    r.push((to_owned_string("grant_type"), to_owned_string("refresh_token")));
    assert(r.deep_view() =~= spec_refresh_form(client_id@, client_secret@, refresh_token@));
    r
}

/// The error message when the token endpoint refuses a refresh.
pub fn refresh_error_message(body: &str) -> (r: String)
    ensures
        r@ == "Failed to refresh token: "@ + body@,
{
    concat2("Failed to refresh token: ", body)
}

/// The category ids to leave out, parsed from the setting.
pub fn parse_excluded_categories(setting: &Option<String>) -> (r: Vec<String>)
    ensures
        r.deep_view() == spec_excluded_categories(setting.deep_view()),
{
    match setting {
        Some(s) => split_trimmed(s.as_str(), ','),
        None => {
            let r: Vec<String> = Vec::new();
            assert(r.deep_view() =~= Seq::<Seq<char>>::empty());
            r
        },
    }
}

/// The bookmark of a video.
pub fn bookmark_of_video(v: &VideoItem) -> (r: BookmarkCreate)
    ensures
        r@ == video_bookmark(v@),
{
    BookmarkCreate {
        url: watch_url(v.id.as_str()),
        title: v.title.clone(),
        created_at: clone_opt(&v.published_at),
    }
}

/// Turns a page into the bookmarks of its kept videos, in order. Gives
/// nothing, which ends the stream, when there is no bookmark and no next
/// page; else the bookmarks and the next page token.
pub fn process_response(resp: VideoListResponse, excluded: &Vec<String>) -> (r: Option<
    (Vec<BookmarkCreate>, Option<String>),
>)
    ensures
        r is None <==> (video_bookmarks(page_items(resp), excluded.deep_view()).len() == 0
            && resp.next_page_token is None),
        r matches Some(p) ==> bookmarks_view(p.0@) == video_bookmarks(
            page_items(resp),
            excluded.deep_view(),
        ) && p.1.deep_view() == resp.next_page_token.deep_view(),
{
    let ghost items = page_items(resp);
    let ghost ex = excluded.deep_view();
    let mut out: Vec<BookmarkCreate> = Vec::new();
    match &resp.items {
        Some(videos) => {
            let n = videos.len();
            let mut i: usize = 0;
            assert(items.take(0) =~= Seq::<VideoItemView>::empty());
            while i < n
                invariant
                    i <= n,
                    n == videos@.len(),
                    items == videos@.map_values(|v: VideoItem| v@),
                    ex == excluded.deep_view(),
                    bookmarks_view(out@) == video_bookmarks(items.take(i as int), ex),
                decreases n - i,
            {
                let v = &videos[i];
                assert(items[i as int] == v@);
                assert(items.take(i + 1).drop_last() == items.take(i as int));
                assert(items.take(i + 1).last() == v@);
                let ghost prev = bookmarks_view(out@);
                let left_out = match &v.category_id {
                    Some(c) => contains_string(excluded, c),
                    None => false,
                };
                if !left_out {
                    out.push(bookmark_of_video(v));
                    assert(bookmarks_view(out@) == prev.push(video_bookmark(v@)));
                }
                i = i + 1;
            }
            assert(items.take(n as int) == items);
        },
        None => {
            assert(bookmarks_view(out@) =~= Seq::<BookmarkView>::empty());
        },
    }
    if out.len() == 0 && resp.next_page_token.is_none() {
        return None;
    }
    let next = clone_opt(&resp.next_page_token);
    Some((out, next))
}

impl YouTubeLiked {
    /// The bookmark list that liked videos go to.
    pub fn list_name(&self) -> (r: &'static str)
        ensures
            r@ == "YouTube Liked"@,
    {
        "YouTube Liked"
    }

    /// The sync runs when client id, client secret and refresh token are
    /// all set and none is empty.
    pub fn is_activated(&self, settings: &Settings) -> (r: bool)
        ensures
            r == ({
                &&& settings.youtube.clientid.deep_view() matches Some(v) && v.len() > 0
                &&& settings.youtube.clientsecret.deep_view() matches Some(v) && v.len() > 0
                &&& settings.youtube.refreshtoken.deep_view() matches Some(v) && v.len() > 0
            }),
    {
        is_set_and_nonempty(&settings.youtube.clientid) && is_set_and_nonempty(
            &settings.youtube.clientsecret,
        ) && is_set_and_nonempty(&settings.youtube.refreshtoken)
    }

    /// The configured schedule.
    pub fn recurring_schedule(&self, settings: &Settings) -> (r: String)
        ensures
            r@ == settings.youtube.schedule@,
    {
        settings.youtube.schedule.clone()
    }
}

/// A retried request is never retried again: whatever its status, its
/// answer is read.
pub proof fn lemma_retry_happens_once(first: u16, second: u16)
    ensures
        spec_liked_videos_action(first, false) == LikedVideosAction::RefreshAndRetry
            ==> first == spec_unauthorized(),
        spec_liked_videos_action(second, true) == LikedVideosAction::ReadPage,
{
}

/// With no category left out every video becomes a bookmark, in order.
pub proof fn lemma_no_exclusion_keeps_every_video(items: Seq<VideoItemView>)
    ensures
        video_bookmarks(items, Seq::<Seq<char>>::empty()) == items.map_values(
            |v: VideoItemView| video_bookmark(v),
        ),
    decreases items.len(),
{
    if items.len() > 0 {
        lemma_no_exclusion_keeps_every_video(items.drop_last());
        assert(items.map_values(|v: VideoItemView| video_bookmark(v)) == items.drop_last().map_values(
            |v: VideoItemView| video_bookmark(v),
        ).push(video_bookmark(items.last())));
    } else {
        assert(items.map_values(|v: VideoItemView| video_bookmark(v)) =~= Seq::<
            BookmarkView,
        >::empty());
    }
}

/// The bookmark of a video: the watch page of its id, exactly its title
/// (whatever the text), and its publication time.
pub proof fn lemma_video_bookmark_fields(v: VideoItemView)
    ensures
        video_bookmark(v).url == "https://www.youtube.com/watch?v="@ + v.id,
        video_bookmark(v).title == v.title,
        video_bookmark(v).created_at == v.published_at,
        video_bookmark(v).url.skip(video_bookmark(v).url.len() - v.id.len()) == v.id,
{
    let u = "https://www.youtube.com/watch?v="@ + v.id;
    assert(u.skip(u.len() - v.id.len()) =~= v.id);
}

/// Every bookmark of a page is the bookmark of one of its videos whose
/// category is not left out: its URL the watch page of that video's id, its
/// title exactly that video's title.
pub proof fn lemma_video_bookmarks_come_from_videos(
    items: Seq<VideoItemView>,
    excluded: Seq<Seq<char>>,
)
    ensures
        forall|j: int|
            #![trigger video_bookmarks(items, excluded)[j]]
            0 <= j < video_bookmarks(items, excluded).len() ==> exists|i: int|
                0 <= i < items.len() && !(items[i].category_id matches Some(c)
                    && excluded.contains(c)) && video_bookmarks(items, excluded)[j].title
                    == #[trigger] items[i].title && video_bookmarks(items, excluded)[j].url
                    == "https://www.youtube.com/watch?v="@ + items[i].id && video_bookmarks(
                    items,
                    excluded,
                )[j].created_at == items[i].published_at,
    decreases items.len(),
{
    if items.len() > 0 {
        let init = items.drop_last();
        lemma_video_bookmarks_come_from_videos(init, excluded);
        let out = video_bookmarks(items, excluded);
        let prev = video_bookmarks(init, excluded);
        assert forall|j: int| #![trigger out[j]] 0 <= j < out.len() implies exists|i: int|
            0 <= i < items.len() && !(items[i].category_id matches Some(c) && excluded.contains(c))
                && out[j].title == #[trigger] items[i].title && out[j].url
                == "https://www.youtube.com/watch?v="@ + items[i].id && out[j].created_at
                == items[i].published_at by {
            if j < prev.len() {
                assert(out[j] == prev[j]);
                let i = choose|i: int|
                    0 <= i < init.len() && !(init[i].category_id matches Some(c)
                        && excluded.contains(c)) && prev[j].title == #[trigger] init[i].title
                        && prev[j].url == "https://www.youtube.com/watch?v="@ + init[i].id
                        && prev[j].created_at == init[i].published_at;
                assert(items[i] == init[i]);
            } else {
                let i = items.len() - 1;
                assert(items[i] == items.last());
                lemma_video_bookmark_fields(items[i]);
            }
        }
    }
}

/// Every video whose category is not left out gives a bookmark of the page.
pub proof fn lemma_every_kept_video_is_bookmarked(
    items: Seq<VideoItemView>,
    excluded: Seq<Seq<char>>,
    i: int,
)
    requires
        0 <= i < items.len(),
        !(items[i].category_id matches Some(c) && excluded.contains(c)),
    ensures
        video_bookmarks(items, excluded).contains(video_bookmark(items[i])),
    decreases items.len(),
{
    let init = items.drop_last();
    if i == items.len() - 1 {
        let out = video_bookmarks(items, excluded);
        assert(out[out.len() - 1] == video_bookmark(items[i]));
    } else {
        assert(init[i] == items[i]);
        lemma_every_kept_video_is_bookmarked(init, excluded, i);
        let prev = video_bookmarks(init, excluded);
        let k = choose|k: int| 0 <= k < prev.len() && prev[k] == video_bookmark(items[i]);
        assert(video_bookmarks(items, excluded)[k] == prev[k]);
    }
}

/// The page of liked videos for a token: the first page of fifty liked
/// videos for the empty token, else that URL followed by `&pageToken=` and
/// the token.
pub proof fn lemma_liked_videos_url_carries_token(t: Seq<char>)
    ensures
        t.len() == 0 ==> spec_liked_videos_url(t)
            == "https://www.googleapis.com/youtube/v3/videos?part=snippet&myRating=like&maxResults=50"@,
        t.len() > 0 ==> spec_liked_videos_url(t)
            == "https://www.googleapis.com/youtube/v3/videos?part=snippet&myRating=like&maxResults=50"@
            + "&pageToken="@ + t,
{
}

/// The access token header is `Bearer `, a space, then the token.
pub proof fn lemma_bearer_authorization_text(token: Seq<char>)
    ensures
        spec_bearer_authorization(token) == "Bearer "@ + token,
{
}

/// The answer decisions: a retry's answer is always read; a first answer
/// with status 401 asks for a refresh and one retry; another first answer
/// is read when its status is 200 to 299 and ends the stream otherwise.
pub proof fn lemma_liked_videos_action_by_status(status: u16)
    ensures
        spec_liked_videos_action(status, true) == LikedVideosAction::ReadPage,
        status == 401 ==> spec_liked_videos_action(status, false)
            == LikedVideosAction::RefreshAndRetry,
        status != 401 && 200 <= status <= 299 ==> spec_liked_videos_action(status, false)
            == LikedVideosAction::ReadPage,
        status != 401 && !(200 <= status <= 299) ==> spec_liked_videos_action(status, false)
            == LikedVideosAction::Stop,
{
}

/// The token request goes to Google's token endpoint with the four fields
/// of a refresh-token grant, in order.
pub proof fn lemma_refresh_request(client_id: Seq<char>, client_secret: Seq<char>, refresh_token: Seq<char>)
    ensures
        spec_token_url() == "https://oauth2.googleapis.com/token"@,
        spec_refresh_form(client_id, client_secret, refresh_token).len() == 4,
        spec_refresh_form(client_id, client_secret, refresh_token)[0] == ("client_id"@, client_id),
        spec_refresh_form(client_id, client_secret, refresh_token)[1] == (
            "client_secret"@,
            client_secret,
        ),
        spec_refresh_form(client_id, client_secret, refresh_token)[2] == (
            "refresh_token"@,
            refresh_token,
        ),
        spec_refresh_form(client_id, client_secret, refresh_token)[3] == (
            "grant_type"@,
            "refresh_token"@,
        ),
{
}

/// The categories left out are the comma-separated pieces of the setting,
/// trimmed; none when the setting is unset.
pub proof fn lemma_excluded_categories_from_setting(setting: Option<Seq<char>>)
    ensures
        setting is None ==> spec_excluded_categories(setting).len() == 0,
        setting matches Some(s) ==> spec_excluded_categories(setting).len() == split_on(
            s,
            ',',
        ).len(),
        setting matches Some(s) ==> forall|i: int|
            0 <= i < split_on(s, ',').len() ==> #[trigger] spec_excluded_categories(setting)[i]
                == trim(split_on(s, ',')[i]),
{
}

/// A page's bookmarks keep the order of its videos: the bookmarks of two
/// runs of videos one after the other are those of the first run followed
/// by those of the second.
pub proof fn lemma_video_bookmarks_concat(
    a: Seq<VideoItemView>,
    b: Seq<VideoItemView>,
    excluded: Seq<Seq<char>>,
)
    ensures
        video_bookmarks(a + b, excluded) == video_bookmarks(a, excluded) + video_bookmarks(
            b,
            excluded,
        ),
    decreases b.len(),
{
    if b.len() == 0 {
        assert(a + b =~= a);
        assert(video_bookmarks(a, excluded) + Seq::<BookmarkView>::empty() =~= video_bookmarks(
            a,
            excluded,
        ));
    } else {
        lemma_video_bookmarks_concat(a, b.drop_last(), excluded);
        assert((a + b).drop_last() =~= a + b.drop_last());
        assert((a + b).last() == b.last());
        if keeps_video(b.last(), excluded) {
            assert(video_bookmarks(a, excluded) + video_bookmarks(b.drop_last(), excluded).push(
                video_bookmark(b.last()),
            ) =~= (video_bookmarks(a, excluded) + video_bookmarks(b.drop_last(), excluded)).push(
                video_bookmark(b.last()),
            ));
        }
    }
}

/// A single video gives its bookmark unless its category is one of those
/// left out; then nothing.
pub proof fn lemma_video_bookmarks_single(v: VideoItemView, excluded: Seq<Seq<char>>)
    ensures
        video_bookmarks(seq![v], excluded) == if v.category_id matches Some(c) && excluded.contains(
            c,
        ) {
            Seq::<BookmarkView>::empty()
        } else {
            seq![video_bookmark(v)]
        },
{
    let one = seq![v];
    assert(one.drop_last() =~= Seq::<VideoItemView>::empty());
    assert(one.last() == v);
    assert(video_bookmarks(one.drop_last(), excluded) == Seq::<BookmarkView>::empty());
    assert(Seq::<BookmarkView>::empty().push(video_bookmark(v)) =~= seq![video_bookmark(v)]);
}

/// The watch page of a video is `https://www.youtube.com/watch?v=` and its id.
pub proof fn lemma_watch_url_text(id: Seq<char>)
    ensures
        spec_watch_url(id) == "https://www.youtube.com/watch?v="@ + id,
{
}

/// The videos of a page, as plain values, one for one and in order; a page
/// without items has none.
pub proof fn lemma_page_items_in_order(resp: VideoListResponse)
    ensures
        resp.items is None ==> page_items(resp).len() == 0,
        resp.items matches Some(v) ==> page_items(resp).len() == v.len() && forall|i: int|
            0 <= i < v.len() ==> #[trigger] page_items(resp)[i] == v[i]@,
{
}

} // verus!
