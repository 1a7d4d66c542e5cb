//! The bookmark that a sync hands over to the bookmark store.
use vstd::prelude::*;

verus! {

/// A link to store: its URL, its title and, where the service knows it,
/// when it was created.
pub struct BookmarkCreate {
    pub url: String,
    pub title: String,
    pub created_at: Option<String>,
}

/// A bookmark as plain text values.
pub struct BookmarkView {
    pub url: Seq<char>,
    pub title: Seq<char>,
    pub created_at: Option<Seq<char>>,
}

impl View for BookmarkCreate {
    type V = BookmarkView;

    open spec fn view(&self) -> BookmarkView {
        BookmarkView { url: self.url@, title: self.title@, created_at: self.created_at.deep_view() }
    }
}

/// The views of a sequence of bookmarks.
pub open spec fn bookmarks_view(v: Seq<BookmarkCreate>) -> Seq<BookmarkView> {
    v.map_values(|b: BookmarkCreate| b@)
}

/// The URLs of a sequence of bookmarks.
pub open spec fn bookmark_urls(v: Seq<BookmarkView>) -> Seq<Seq<char>> {
    v.map_values(|b: BookmarkView| b.url)
}

/// The bookmarks as plain values, one for one and in order.
pub proof fn lemma_bookmarks_view_in_order(v: Seq<BookmarkCreate>)
    ensures
        bookmarks_view(v).len() == v.len(),
        forall|i: int| 0 <= i < v.len() ==> #[trigger] bookmarks_view(v)[i] == v[i]@,
        bookmark_urls(bookmarks_view(v)).len() == v.len(),
        forall|i: int| 0 <= i < v.len() ==> #[trigger] bookmark_urls(bookmarks_view(v))[i] == v[i].url@,
{
}

} // verus!
