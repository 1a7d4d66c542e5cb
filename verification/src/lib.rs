//! Link-syncing logic: turning the pages that bookmarking services return
//! into bookmarks, and deciding which page to fetch next.
pub mod bookmark;
pub mod http;
pub mod readwise;
pub mod reddit_feed;
pub mod settings;
pub mod text;
pub mod youtube_liked;
