//! The settings that each sync reads, and the once-only loading of them.
use vstd::prelude::*;
use crate::text::to_owned_string;

verus! {

/// GitHub stars sync.
pub struct GitHubSettings {
    pub token: Option<String>,
    pub schedule: String,
}

/// Hacker News upvotes sync.
pub struct HNSettings {
    pub auth: Option<String>,
    pub schedule: String,
}

/// Where the bookmark store is and how to authenticate to it.
pub struct KarakeepSettings {
    pub auth: String,
    pub url: String,
}

/// Reddit saved posts through OAuth.
pub struct RedditSettings {
    pub clientid: Option<String>,
    pub clientsecret: Option<String>,
    pub refreshtoken: Option<String>,
    pub schedule: String,
}

/// Reddit JSON feeds (from old.reddit.com/prefs/feeds); no OAuth.
pub struct RedditFeedSettings {
    /// JSON feed URL for saved links.
    pub savedurl: Option<String>,
    /// JSON feed URL for upvoted links.
    pub upvotedurl: Option<String>,
    /// Only sync posts created at or after this Unix timestamp.
    pub sincetimestamp: Option<i64>,
    /// Skip posts marked NSFW.
    pub excludensfw: bool,
    pub schedule: String,
}

/// Pinboard bookmarks sync.
pub struct PinboardSettings {
    pub token: Option<String>,
    pub schedule: String,
}

/// Readwise highlight sources sync.
pub struct ReadwiseSettings {
    pub token: Option<String>,
    /// Comma-separated categories to keep; all are kept when unset.
    pub categories: Option<String>,
    pub schedule: String,
    pub fullsync: bool,
}

/// YouTube liked videos sync.
pub struct YouTubeSettings {
    pub clientid: Option<String>,
    pub clientsecret: Option<String>,
    pub refreshtoken: Option<String>,
    /// Comma-separated video category ids to leave out.
    pub excludecategories: Option<String>,
    pub schedule: String,
}

/// All settings, read from the `KS_` environment variables.
pub struct Settings {
    pub hn: HNSettings,
    pub karakeep: KarakeepSettings,
    pub reddit: RedditSettings,
    pub redditfeed: RedditFeedSettings,
    pub github: GitHubSettings,
    pub pinboard: PinboardSettings,
    pub readwise: ReadwiseSettings,
    pub youtube: YouTubeSettings,
}

/// The schedule every sync runs on unless its `KS_*_SCHEDULE` says otherwise.
pub open spec fn default_schedule() -> Seq<char> {
    "@daily"@
}

/// The configuration keys whose value defaults to the daily schedule.
pub open spec fn schedule_keys() -> Seq<Seq<char>> {
    seq![
        "hn.schedule"@,
        "reddit.schedule"@,
        "redditfeed.schedule"@,
        "github.schedule"@,
        "pinboard.schedule"@,
        "readwise.schedule"@,
        "youtube.schedule"@,
    ]
}

/// The defaults that settings loading starts from: each sync's schedule
/// key paired with the daily schedule.
pub fn schedule_defaults() -> (r: Vec<(String, String)>)
    ensures
        r.deep_view().len() == schedule_keys().len(),
        forall|i: int|
            0 <= i < schedule_keys().len() ==> #[trigger] r.deep_view()[i] == (
            schedule_keys()[i],
            default_schedule(),
            ),
{
    let mut r: Vec<(String, String)> = Vec::new();
    r.push((to_owned_string("hn.schedule"), to_owned_string("@daily")));
    r.push((to_owned_string("reddit.schedule"), to_owned_string("@daily")));
    r.push((to_owned_string("redditfeed.schedule"), to_owned_string("@daily")));
    r.push((to_owned_string("github.schedule"), to_owned_string("@daily")));
    r.push((to_owned_string("pinboard.schedule"), to_owned_string("@daily")));
    r.push((to_owned_string("readwise.schedule"), to_owned_string("@daily")));
    r.push((to_owned_string("youtube.schedule"), to_owned_string("@daily")));
    r
}

/// A place that holds the settings once they have been loaded.
pub struct SettingsSlot {
    value: Option<Settings>,
}

impl SettingsSlot {
    /// The settings held, if they were loaded.
    pub closed spec fn loaded(&self) -> Option<Settings> {
        self.value
    }

    /// An empty slot.
    pub fn new() -> (s: Self)
        ensures
            s.loaded() is None,
    {
        SettingsSlot { value: None }
    }
}

/// The settings: loaded by `load` on the first call, and the same value on
/// every later call, without calling `load` again.
pub fn get_settings<F: FnOnce() -> Settings>(slot: &mut SettingsSlot, load: F) -> (r: &Settings)
    requires
        old(slot).loaded() is None ==> load.requires(()),
    ensures
        old(slot).loaded() matches Some(v) ==> *r == v,
        old(slot).loaded() is None ==> load.ensures((), *r),
        final(slot).loaded() == Some(*r),
{
    if slot.value.is_none() {
        let s = load();
        slot.value = Some(s);
    }
    match &slot.value {
        Some(s) => s,
        None => vstd::pervasive::unreached(),
    }
}

/// The daily schedule is `@daily`, and it is the default of the schedule of
/// each of the seven syncs.
pub proof fn lemma_schedule_defaults_daily()
    ensures
        default_schedule() == "@daily"@,
        schedule_keys() == seq![
            "hn.schedule"@,
            "reddit.schedule"@,
            "redditfeed.schedule"@,
            "github.schedule"@,
            "pinboard.schedule"@,
            "readwise.schedule"@,
            "youtube.schedule"@,
        ],
{
}

} // verus!
