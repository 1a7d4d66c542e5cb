//! Readwise highlights: the export API is paged by a cursor and lists one
//! entry per highlight, so several entries may share a source; each source
//! URL becomes one bookmark, once over the whole sync.
use vstd::prelude::*;
use crate::bookmark::{bookmark_urls, bookmarks_view, BookmarkCreate, BookmarkView};
use crate::settings::Settings;
use crate::text::{
    clone_opt, concat2, concat3, contains_string, is_set_and_nonempty, lemma_split_nonempty, split_on,
    split_trimmed,
    to_lowercase, to_owned_string, trim, unicode_lowercase,
};

verus! {

/// The Readwise highlights sync.
pub struct ReadwiseHighlights {}

/// One entry of an export page.
pub struct ExportResult {
    /// Source URL of the article, book, tweet and so on.
    pub source_url: Option<String>,
    /// Title of the source.
    pub title: String,
    /// Category: articles, books, tweets, supplementals, podcasts.
    pub category: String,
    /// Author name.
    pub author: Option<String>,
    /// When the source was last highlighted.
    pub updated: Option<String>,
}

/// An export entry as plain text values.
pub struct ExportResultView {
    pub source_url: Option<Seq<char>>,
    pub title: Seq<char>,
    pub category: Seq<char>,
    pub author: Option<Seq<char>>,
    pub updated: Option<Seq<char>>,
}

impl View for ExportResult {
    type V = ExportResultView;

    open spec fn view(&self) -> ExportResultView {
        ExportResultView {
            source_url: self.source_url.deep_view(),
            title: self.title@,
            category: self.category@,
            author: self.author.deep_view(),
            updated: self.updated.deep_view(),
        }
    }
}

/// One page of the export API.
pub struct ExportResponse {
    pub results: Vec<ExportResult>,
    pub next_page_cursor: Option<String>,
}

/// The views of a sequence of export entries.
pub open spec fn results_view(v: Seq<ExportResult>) -> Seq<ExportResultView> {
    v.map_values(|r: ExportResult| r@)
}

/// The export endpoint.
pub open spec fn export_base() -> Seq<char> {
    "https://readwise.io/api/v2/export/"@
}

/// The URL of the export page at `cursor`; the empty cursor is the first page.
pub open spec fn spec_export_url(cursor: Seq<char>) -> Seq<char> {
    if cursor.len() == 0 {
        export_base()
    } else {
        export_base() + "?pageCursor="@ + cursor
    }
}

/// The value of the `Authorization` header for an API token.
pub open spec fn spec_token_authorization(token: Seq<char>) -> Seq<char> {
    "Token "@ + token
}

/// The categories to keep, lower-cased, from the comma-separated setting;
/// none (keep everything) when the setting is unset.
pub open spec fn spec_categories(setting: Option<Seq<char>>) -> Seq<Seq<char>> {
    match setting {
        None => Seq::<Seq<char>>::empty(),
        Some(s) => split_on(s, ',').map_values(|p: Seq<char>| unicode_lowercase(trim(p))),
    }
}

/// Whether a lower-cased category passes the filter: with no categories
/// everything passes, else it must be one of them.
pub open spec fn spec_category_passes(categories: Seq<Seq<char>>, lowered: Seq<char>) -> bool {
    categories.len() == 0 || categories.contains(lowered)
}

/// Whether a category passes the filter: its lower-cased form does.
pub open spec fn category_allowed(categories: Seq<Seq<char>>, category: Seq<char>) -> bool {
    spec_category_passes(categories, unicode_lowercase(category))
}

/// Whether an entry becomes a bookmark: it has a source URL that was not
/// seen before, and its category passes the filter.
pub open spec fn keeps_entry(
    r: ExportResultView,
    seen: Seq<Seq<char>>,
    categories: Seq<Seq<char>>,
) -> bool {
    &&& r.source_url is Some
    &&& !seen.contains(r.source_url->0)
    &&& category_allowed(categories, r.category)
}

/// The bookmark title: the source title, followed by ` - ` and the author
/// where there is one.
pub open spec fn spec_title_with_author(title: Seq<char>, author: Option<Seq<char>>) -> Seq<char> {
    match author {
        Some(a) => title + " - "@ + a,
        None => title,
    }
}

/// The bookmark made from a kept entry.
pub open spec fn source_bookmark(r: ExportResultView) -> BookmarkView {
    BookmarkView {
        url: r.source_url->0,
        title: spec_title_with_author(r.title, r.author),
        created_at: r.updated,
    }
}

/// Goes through the entries in order: each kept entry gives a bookmark and
/// adds its URL to the seen ones. Gives the bookmarks and the seen URLs after.
pub open spec fn select_sources(
    results: Seq<ExportResultView>,
    seen: Seq<Seq<char>>,
    categories: Seq<Seq<char>>,
) -> (Seq<BookmarkView>, Seq<Seq<char>>)
    decreases results.len(),
{
    if results.len() == 0 {
        (Seq::<BookmarkView>::empty(), seen)
    } else {
        let r = results[0];
        if keeps_entry(r, seen, categories) {
            let rest = select_sources(results.drop_first(), seen.push(r.source_url->0), categories);
            (seq![source_bookmark(r)] + rest.0, rest.1)
        } else {
            select_sources(results.drop_first(), seen, categories)
        }
    }
}

/// The stream state after a page: the cursor that the page named; an
/// ended stream has none.
pub open spec fn next_cursor(r: Option<(Vec<BookmarkCreate>, Option<String>)>) -> Option<Seq<char>> {
    match r {
        Some(p) => p.1.deep_view(),
        None => None,
    }
}

/// The URL of the export page at `cursor`.
pub fn export_url(cursor: &str) -> (r: String)
    ensures
        r@ == spec_export_url(cursor@),
{
    if cursor.is_empty() {
        to_owned_string("https://readwise.io/api/v2/export/")
    } else {
        concat3("https://readwise.io/api/v2/export/", "?pageCursor=", cursor)
    }
}

/// The page to fetch for a stream state: the state holds the cursor of the
/// next page, or nothing when the export is done.
pub fn export_page_request(state: &Option<String>) -> (r: Option<String>)
    ensures
        r.deep_view() == match state.deep_view() {
            Some(c) => Some(spec_export_url(c)),
            None => None::<Seq<char>>,
        },
{
    match state {
        Some(c) => Some(export_url(c.as_str())),
        None => None,
    }
}

/// The `Authorization` header value for an API token.
pub fn token_authorization(token: &str) -> (r: String)
    ensures
        r@ == spec_token_authorization(token@),
{
    concat2("Token ", token)
}

/// The categories to keep, parsed from the setting.
pub fn parse_categories(setting: &Option<String>) -> (r: Vec<String>)
    ensures
        r.deep_view() == spec_categories(setting.deep_view()),
{
    match setting {
        None => {
            let r: Vec<String> = Vec::new();
            assert(r.deep_view() =~= Seq::<Seq<char>>::empty());
            r
        },
        Some(s) => {
            let pieces = split_trimmed(s.as_str(), ',');
            let n = pieces.len();
            let mut r: Vec<String> = Vec::new();
            let mut i: usize = 0;
            let ghost trimmed = split_on(s@, ',').map_values(|p: Seq<char>| trim(p));
            while i < n
                invariant
                    i <= n,
                    n == pieces@.len(),
                    pieces.deep_view() == trimmed,
                    trimmed == split_on(s@, ',').map_values(|p: Seq<char>| trim(p)),
                    r.deep_view() == trimmed.take(i as int).map_values(
                        |p: Seq<char>| unicode_lowercase(p),
                    ),
                decreases n - i,
            {
                let low = to_lowercase(pieces[i].as_str());
                let ghost prev = r.deep_view();
                r.push(low);
                assert(r.deep_view() == prev.push(unicode_lowercase(trimmed[i as int])));
                assert(trimmed.take(i + 1) == trimmed.take(i as int).push(trimmed[i as int]));
                assert(trimmed.take(i + 1).map_values(|p: Seq<char>| unicode_lowercase(p))
                    == trimmed.take(i as int).map_values(|p: Seq<char>| unicode_lowercase(p)).push(
                    unicode_lowercase(trimmed[i as int]),
                ));
                i = i + 1;
            }
            assert(trimmed.take(n as int) == trimmed);
            assert(r.deep_view() =~= spec_categories(setting.deep_view()));
            r
        },
    }
}

/// Whether a lower-cased category passes the category filter.
pub fn category_passes(categories: &Vec<String>, lowered: &String) -> (r: bool)
    ensures
        r == spec_category_passes(categories.deep_view(), lowered@),
{
    categories.len() == 0 || contains_string(categories, lowered)
}

/// The bookmark title for a source and its optional author.
pub fn title_with_author(title: &String, author: &Option<String>) -> (r: String)
    ensures
        r@ == spec_title_with_author(title@, author.deep_view()),
{
    match author {
        Some(a) => concat3(title.as_str(), " - ", a.as_str()),
        None => title.clone(),
    }
}

/// The state of one export: the category filter and the source URLs that
/// have already become bookmarks.
pub struct ReadwiseExport {
    categories: Vec<String>,
    seen: Vec<String>,
}

impl ReadwiseExport {
    /// The categories kept (lower-cased); empty keeps all.
    pub closed spec fn categories(&self) -> Seq<Seq<char>> {
        self.categories.deep_view()
    }

    /// The source URLs already turned into bookmarks, in order.
    pub closed spec fn seen(&self) -> Seq<Seq<char>> {
        self.seen.deep_view()
    }

    /// No source URL is recorded twice.
    pub open spec fn wf(&self) -> bool {
        self.seen().no_duplicates()
    }

    /// A new export with the category filter of the setting and nothing seen.
    pub fn new(categories: &Option<String>) -> (r: Self)
        ensures
            r.categories() == spec_categories(categories.deep_view()),
            r.seen() == Seq::<Seq<char>>::empty(),
            r.wf(),
    {
        let seen: Vec<String> = Vec::new();
        let r = ReadwiseExport { categories: parse_categories(categories), seen };
        assert(r.seen() =~= Seq::<Seq<char>>::empty());
        r
    }

    /// Turns one export page into bookmarks: each entry with a source URL
    /// not seen before and a category that passes the filter gives one
    /// bookmark, in page order, and its URL is recorded as seen. Gives
    /// nothing, which ends the export, when the page gives no bookmark and
    /// names no next page; else the bookmarks and the next page's cursor.
    pub fn process_page(&mut self, page: ExportResponse) -> (r: Option<
        (Vec<BookmarkCreate>, Option<String>),
    >)
        requires
            old(self).wf(),
        ensures
            final(self).wf(),
            final(self).categories() == old(self).categories(),
            final(self).seen() == select_sources(
                results_view(page.results@),
                old(self).seen(),
                old(self).categories(),
            ).1,
            r is None <==> (select_sources(
                results_view(page.results@),
                old(self).seen(),
                old(self).categories(),
            ).0.len() == 0 && page.next_page_cursor is None),
            next_cursor(r) == page.next_page_cursor.deep_view(),
            r matches Some(p) ==> bookmarks_view(p.0@) == select_sources(
                results_view(page.results@),
                old(self).seen(),
                old(self).categories(),
            ).0 && p.1.deep_view() == page.next_page_cursor.deep_view(),
    {
        let ghost all = results_view(page.results@);
        let ghost seen0 = self.seen();
        let ghost cats = self.categories();
        proof {
            lemma_select_sources_no_duplicates(all, seen0, cats);
        }
        let n = page.results.len();
        let mut out: Vec<BookmarkCreate> = Vec::new();
        let mut i: usize = 0;
        assert(all.skip(0) == all);
        while i < n
            invariant
                i <= n,
                n == page.results@.len(),
                all == results_view(page.results@),
                cats == self.categories(),
                bookmarks_view(out@) + select_sources(all.skip(i as int), self.seen(), cats).0
                    == select_sources(all, seen0, cats).0,
                select_sources(all.skip(i as int), self.seen(), cats).1 == select_sources(
                    all,
                    seen0,
                    cats,
                ).1,
            decreases n - i,
        {
            let item = &page.results[i];
            let ghost rest = all.skip(i as int);
            let ghost seen_now = self.seen();
            let ghost out_now = bookmarks_view(out@);
            assert(rest[0] == item@);
            assert(rest.drop_first() == all.skip(i + 1));
            match &item.source_url {
                None => {},
                Some(url) => {
                    if !contains_string(&self.seen, url) {
                        let allowed = if self.categories.len() == 0 {
                            true
                        } else {
                            let low = to_lowercase(item.category.as_str());
                            category_passes(&self.categories, &low)
                        };
                        if allowed {
                            self.seen.push(url.clone());
                            let b = BookmarkCreate {
                                url: url.clone(),
                                title: title_with_author(&item.title, &item.author),
                                created_at: clone_opt(&item.updated),
                            };
                            out.push(b);
                            assert(self.seen() == seen_now.push(url@));
                            assert(bookmarks_view(out@) == out_now.push(source_bookmark(item@)));
                            assert(out_now.push(source_bookmark(item@)) + select_sources(
                                all.skip(i + 1),
                                self.seen(),
                                cats,
                            ).0 == out_now + (seq![source_bookmark(item@)] + select_sources(
                                all.skip(i + 1),
                                self.seen(),
                                cats,
                            ).0));
                        }
                    }
                },
            }
            i = i + 1;
        }
        assert(all.skip(n as int) =~= Seq::<ExportResultView>::empty());
        assert(bookmarks_view(out@) == select_sources(all, seen0, cats).0);
        if out.len() == 0 && page.next_page_cursor.is_none() {
            return None;
        }
        Some((out, page.next_page_cursor))
    }
}

impl ReadwiseHighlights {
    /// The bookmark list that the sources go to.
    pub fn list_name(&self) -> (r: &'static str)
        ensures
            r@ == "Readwise"@,
    {
        "Readwise"
    }

    /// The sync runs when an API token is set and is not empty.
    pub fn is_activated(&self, settings: &Settings) -> (r: bool)
        ensures
            r == (settings.readwise.token.deep_view() matches Some(t) && t.len() > 0),
    {
        is_set_and_nonempty(&settings.readwise.token)
    }

    /// The configured schedule.
    pub fn recurring_schedule(&self, settings: &Settings) -> (r: String)
        ensures
            r@ == settings.readwise.schedule@,
    {
        settings.readwise.schedule.clone()
    }

    /// Whether every run syncs everything again.
    pub fn force_full_sync(&self, settings: &Settings) -> (r: bool)
        ensures
            r == settings.readwise.fullsync,
    {
        settings.readwise.fullsync
    }
}

/// The URLs seen after selecting are the URLs seen before, followed by the
/// URLs of the bookmarks made, in order.
pub proof fn lemma_select_sources_records_urls(
    results: Seq<ExportResultView>,
    seen: Seq<Seq<char>>,
    categories: Seq<Seq<char>>,
)
    ensures
        select_sources(results, seen, categories).1 == seen + bookmark_urls(
            select_sources(results, seen, categories).0,
        ),
    decreases results.len(),
{
    let sel = select_sources(results, seen, categories);
    if results.len() == 0 {
        assert(bookmark_urls(sel.0) =~= Seq::<Seq<char>>::empty());
        assert(seen + Seq::<Seq<char>>::empty() =~= seen);
    } else {
        let r = results[0];
        if keeps_entry(r, seen, categories) {
            let u = r.source_url->0;
            let rest = select_sources(results.drop_first(), seen.push(u), categories);
            lemma_select_sources_records_urls(results.drop_first(), seen.push(u), categories);
            assert(bookmark_urls(sel.0) =~= seq![u] + bookmark_urls(rest.0));
            assert(seen.push(u) + bookmark_urls(rest.0) =~= seen + (seq![u] + bookmark_urls(
                rest.0,
            )));
        } else {
            lemma_select_sources_records_urls(results.drop_first(), seen, categories);
        }
    }
}

/// Selecting never records a URL twice.
pub proof fn lemma_select_sources_no_duplicates(
    results: Seq<ExportResultView>,
    seen: Seq<Seq<char>>,
    categories: Seq<Seq<char>>,
)
    requires
        seen.no_duplicates(),
    ensures
        select_sources(results, seen, categories).1.no_duplicates(),
    decreases results.len(),
{
    if results.len() > 0 {
        let r = results[0];
        if keeps_entry(r, seen, categories) {
            let u = r.source_url->0;
            assert(seen.push(u).no_duplicates()) by {
                assert forall|i: int, j: int|
                    0 <= i < seen.push(u).len() && 0 <= j < seen.push(u).len() && i != j implies
                    seen.push(u)[i] != seen.push(u)[j] by {
                    if i < seen.len() && j == seen.len() {
                        assert(seen.contains(seen[i]));
                    }
                    if j < seen.len() && i == seen.len() {
                        assert(seen.contains(seen[j]));
                    }
                }
            }
            lemma_select_sources_no_duplicates(results.drop_first(), seen.push(u), categories);
        } else {
            lemma_select_sources_no_duplicates(results.drop_first(), seen, categories);
        }
    }
}

/// Each source URL becomes at most one bookmark over a whole export: the
/// URLs already seen and the URLs of the bookmarks of two pages taken in
/// turn are all different from one another.
pub proof fn lemma_export_never_repeats_a_source(
    seen: Seq<Seq<char>>,
    categories: Seq<Seq<char>>,
    first: Seq<ExportResultView>,
    second: Seq<ExportResultView>,
)
    requires
        seen.no_duplicates(),
    ensures
        ({
            let one = select_sources(first, seen, categories);
            let two = select_sources(second, one.1, categories);
            (seen + bookmark_urls(one.0) + bookmark_urls(two.0)).no_duplicates()
        }),
{
    let one = select_sources(first, seen, categories);
    let two = select_sources(second, one.1, categories);
    lemma_select_sources_records_urls(first, seen, categories);
    lemma_select_sources_no_duplicates(first, seen, categories);
    lemma_select_sources_records_urls(second, one.1, categories);
    lemma_select_sources_no_duplicates(second, one.1, categories);
}

/// Every bookmark comes from an entry of the page that has a source URL
/// and whose category passes the filter.
pub proof fn lemma_selected_sources_pass_filter(
    results: Seq<ExportResultView>,
    seen: Seq<Seq<char>>,
    categories: Seq<Seq<char>>,
)
    ensures
        forall|j: int|
            0 <= j < select_sources(results, seen, categories).0.len() ==> exists|i: int|
                0 <= i < results.len() && results[i].source_url is Some && category_allowed(
                    categories,
                    results[i].category,
                ) && #[trigger] select_sources(results, seen, categories).0[j] == source_bookmark(
                    results[i],
                ),
    decreases results.len(),
{
    if results.len() > 0 {
        let r = results[0];
        let tail = results.drop_first();
        let out = select_sources(results, seen, categories).0;
        if keeps_entry(r, seen, categories) {
            let seen2 = seen.push(r.source_url->0);
            lemma_selected_sources_pass_filter(tail, seen2, categories);
            let rest = select_sources(tail, seen2, categories).0;
            assert forall|j: int| 0 <= j < out.len() implies exists|i: int|
                0 <= i < results.len() && results[i].source_url is Some && category_allowed(
                    categories,
                    results[i].category,
                ) && #[trigger] out[j] == source_bookmark(results[i]) by {
                if j == 0 {
                    assert(out[0] == source_bookmark(results[0]));
                } else {
                    assert(out[j] == rest[j - 1]);
                    let i = choose|i: int|
                        0 <= i < tail.len() && tail[i].source_url is Some && category_allowed(
                            categories,
                            tail[i].category,
                        ) && #[trigger] rest[j - 1] == source_bookmark(tail[i]);
                    assert(results[i + 1] == tail[i]);
                }
            }
        } else {
            lemma_selected_sources_pass_filter(tail, seen, categories);
            let rest = select_sources(tail, seen, categories).0;
            assert forall|j: int| 0 <= j < out.len() implies exists|i: int|
                0 <= i < results.len() && results[i].source_url is Some && category_allowed(
                    categories,
                    results[i].category,
                ) && #[trigger] out[j] == source_bookmark(results[i]) by {
                let i = choose|i: int|
                    0 <= i < tail.len() && tail[i].source_url is Some && category_allowed(
                        categories,
                        tail[i].category,
                    ) && #[trigger] rest[j] == source_bookmark(tail[i]);
                assert(results[i + 1] == tail[i]);
            }
        }
    }
}

/// Some entry of the page has `u` as its source URL.
pub open spec fn has_source(results: Seq<ExportResultView>, u: Seq<char>) -> bool {
    exists|i: int| 0 <= i < results.len() && #[trigger] results[i].source_url == Some(u)
}

/// Some entry of some page has `u` as its source URL.
pub open spec fn pages_have_source(pages: Seq<Seq<ExportResultView>>, u: Seq<char>) -> bool {
    exists|i: int| 0 <= i < pages.len() && has_source(#[trigger] pages[i], u)
}

/// The bookmarks of an export whose pages are taken in turn, each page
/// starting from the URLs seen after the one before.
pub open spec fn export_bookmarks(
    pages: Seq<Seq<ExportResultView>>,
    seen: Seq<Seq<char>>,
    categories: Seq<Seq<char>>,
) -> Seq<BookmarkView>
    decreases pages.len(),
{
    if pages.len() == 0 {
        Seq::<BookmarkView>::empty()
    } else {
        let one = select_sources(pages[0], seen, categories);
        one.0 + export_bookmarks(pages.drop_first(), one.1, categories)
    }
}

/// Taking two runs of entries one after the other is taking them together.
pub proof fn lemma_select_sources_concat(
    a: Seq<ExportResultView>,
    b: Seq<ExportResultView>,
    seen: Seq<Seq<char>>,
    categories: Seq<Seq<char>>,
)
    ensures
        select_sources(a + b, seen, categories) == ({
            let first = select_sources(a, seen, categories);
            let second = select_sources(b, first.1, categories);
            (first.0 + second.0, second.1)
        }),
    decreases a.len(),
{
    if a.len() == 0 {
        assert(a + b =~= b);
        assert(Seq::<BookmarkView>::empty() + select_sources(b, seen, categories).0 =~= select_sources(
            b,
            seen,
            categories,
        ).0);
    } else {
        let r = a[0];
        assert((a + b)[0] == r);
        assert((a + b).drop_first() =~= a.drop_first() + b);
        if keeps_entry(r, seen, categories) {
            let seen2 = seen.push(r.source_url->0);
            lemma_select_sources_concat(a.drop_first(), b, seen2, categories);
            let first = select_sources(a.drop_first(), seen2, categories);
            let second = select_sources(b, first.1, categories);
            assert(seq![source_bookmark(r)] + (first.0 + second.0) =~= (seq![source_bookmark(r)]
                + first.0) + second.0);
        } else {
            lemma_select_sources_concat(a.drop_first(), b, seen, categories);
        }
    }
}

/// Whether the filter lets a category through, read off the setting: some
/// comma-separated piece of it, trimmed and lower-cased, equals the
/// category lower-cased.
pub proof fn lemma_category_filter_matches_setting(setting: Seq<char>, category: Seq<char>)
    ensures
        category_allowed(spec_categories(Some(setting)), category) <==> exists|i: int|
            0 <= i < split_on(setting, ',').len() && unicode_lowercase(
                trim(#[trigger] split_on(setting, ',')[i]),
            ) == unicode_lowercase(category),
{
    lemma_split_nonempty(setting, ',');
    let pieces = split_on(setting, ',');
    let cats = spec_categories(Some(setting));
    assert(cats.len() == pieces.len());
    if category_allowed(cats, category) {
        let k = choose|k: int| 0 <= k < cats.len() && cats[k] == unicode_lowercase(category);
        assert(unicode_lowercase(trim(pieces[k])) == unicode_lowercase(category));
    }
    if exists|i: int|
        0 <= i < pieces.len() && unicode_lowercase(trim(#[trigger] pieces[i]))
            == unicode_lowercase(category) {
        let i = choose|i: int|
            0 <= i < pieces.len() && unicode_lowercase(trim(#[trigger] pieces[i]))
                == unicode_lowercase(category);
        assert(cats[i] == unicode_lowercase(category));
    }
}

/// An entry whose source URL is not yet seen when its turn comes gives a
/// bookmark exactly when its category passes the filter; the entries before
/// and after it are taken as usual.
pub proof fn lemma_entry_kept_iff_category_allowed(
    before: Seq<ExportResultView>,
    r: ExportResultView,
    after: Seq<ExportResultView>,
    seen: Seq<Seq<char>>,
    categories: Seq<Seq<char>>,
)
    requires
        r.source_url is Some,
        !select_sources(before, seen, categories).1.contains(r.source_url->0),
    ensures
        ({
            let first = select_sources(before, seen, categories);
            let allowed = category_allowed(categories, r.category);
            let seen_after = if allowed {
                first.1.push(r.source_url->0)
            } else {
                first.1
            };
            let mine = if allowed {
                seq![source_bookmark(r)]
            } else {
                Seq::<BookmarkView>::empty()
            };
            select_sources(before + seq![r] + after, seen, categories).0 == first.0 + mine
                + select_sources(after, seen_after, categories).0
        }),
{
    let rest = seq![r] + after;
    assert(before + seq![r] + after =~= before + rest);
    lemma_select_sources_concat(before, rest, seen, categories);
    assert(rest[0] == r);
    assert(rest.drop_first() =~= after);
    let first = select_sources(before, seen, categories);
    let allowed = category_allowed(categories, r.category);
    if allowed {
        let tail = select_sources(after, first.1.push(r.source_url->0), categories).0;
        assert(first.0 + (seq![source_bookmark(r)] + tail) =~= first.0 + seq![source_bookmark(r)]
            + tail);
    } else {
        let tail = select_sources(after, first.1, categories).0;
        assert(first.0 + tail =~= first.0 + Seq::<BookmarkView>::empty() + tail);
    }
}

/// A URL that a page turns into a bookmark is the source URL of one of its
/// entries, and was not seen before.
pub proof fn lemma_emitted_url_is_new_source(
    results: Seq<ExportResultView>,
    seen: Seq<Seq<char>>,
    categories: Seq<Seq<char>>,
    u: Seq<char>,
)
    requires
        bookmark_urls(select_sources(results, seen, categories).0).contains(u),
    ensures
        has_source(results, u),
        !seen.contains(u),
    decreases results.len(),
{
    if results.len() == 0 {
        assert(bookmark_urls(select_sources(results, seen, categories).0).len() == 0);
    } else {
        let r = results[0];
        let tail = results.drop_first();
        if keeps_entry(r, seen, categories) {
            let u0 = r.source_url->0;
            let rest = select_sources(tail, seen.push(u0), categories);
            let urls = bookmark_urls(select_sources(results, seen, categories).0);
            assert(urls =~= seq![u0] + bookmark_urls(rest.0));
            let k = choose|k: int| 0 <= k < urls.len() && urls[k] == u;
            if k == 0 {
                assert(results[0].source_url == Some(u));
            } else {
                assert(bookmark_urls(rest.0)[k - 1] == u);
                assert(bookmark_urls(rest.0).contains(u));
                lemma_emitted_url_is_new_source(tail, seen.push(u0), categories, u);
                let i = choose|i: int| 0 <= i < tail.len() && #[trigger] tail[i].source_url == Some(u);
                assert(results[i + 1] == tail[i]);
                if seen.contains(u) {
                    let j = choose|j: int| 0 <= j < seen.len() && seen[j] == u;
                    assert(seen.push(u0)[j] == u);
                }
            }
        } else {
            lemma_emitted_url_is_new_source(tail, seen, categories, u);
            let i = choose|i: int| 0 <= i < tail.len() && #[trigger] tail[i].source_url == Some(u);
            assert(results[i + 1] == tail[i]);
        }
    }
}

/// Without a category filter, every source URL of a page that was not seen
/// before becomes a bookmark.
pub proof fn lemma_unfiltered_page_emits_new_sources(
    results: Seq<ExportResultView>,
    seen: Seq<Seq<char>>,
    u: Seq<char>,
)
    requires
        has_source(results, u),
        !seen.contains(u),
    ensures
        bookmark_urls(select_sources(results, seen, Seq::<Seq<char>>::empty()).0).contains(u),
    decreases results.len(),
{
    let none = Seq::<Seq<char>>::empty();
    let r = results[0];
    let tail = results.drop_first();
    let i = choose|i: int| 0 <= i < results.len() && #[trigger] results[i].source_url == Some(u);
    if keeps_entry(r, seen, none) {
        let u0 = r.source_url->0;
        let rest = select_sources(tail, seen.push(u0), none);
        let urls = bookmark_urls(select_sources(results, seen, none).0);
        assert(urls =~= seq![u0] + bookmark_urls(rest.0));
        if u == u0 {
            assert(urls[0] == u);
        } else {
            assert(i != 0);
            assert(tail[i - 1].source_url == Some(u));
            assert(has_source(tail, u));
            assert(!seen.push(u0).contains(u)) by {
                if seen.push(u0).contains(u) {
                    let j = choose|j: int| 0 <= j < seen.push(u0).len() && seen.push(u0)[j] == u;
                    assert(seen[j] == u);
                }
            }
            lemma_unfiltered_page_emits_new_sources(tail, seen.push(u0), u);
            let k = choose|k: int|
                0 <= k < bookmark_urls(rest.0).len() && bookmark_urls(rest.0)[k] == u;
            assert(urls[k + 1] == u);
        }
    } else {
        assert(i != 0);
        assert(tail[i - 1].source_url == Some(u));
        assert(has_source(tail, u));
        lemma_unfiltered_page_emits_new_sources(tail, seen, u);
    }
}

proof fn lemma_urls_concat(a: Seq<BookmarkView>, b: Seq<BookmarkView>)
    ensures
        bookmark_urls(a + b) == bookmark_urls(a) + bookmark_urls(b),
{
    assert(bookmark_urls(a + b) =~= bookmark_urls(a) + bookmark_urls(b));
}

/// A URL that an export turns into a bookmark is the source URL of an entry
/// of one of its pages, and was not seen before the export.
pub proof fn lemma_export_emitted_url_is_new_source(
    pages: Seq<Seq<ExportResultView>>,
    seen: Seq<Seq<char>>,
    categories: Seq<Seq<char>>,
    u: Seq<char>,
)
    requires
        bookmark_urls(export_bookmarks(pages, seen, categories)).contains(u),
    ensures
        pages_have_source(pages, u),
        !seen.contains(u),
    decreases pages.len(),
{
    if pages.len() == 0 {
        assert(bookmark_urls(export_bookmarks(pages, seen, categories)).len() == 0);
    } else {
        let one = select_sources(pages[0], seen, categories);
        let rest = export_bookmarks(pages.drop_first(), one.1, categories);
        lemma_urls_concat(one.0, rest);
        let all = bookmark_urls(one.0) + bookmark_urls(rest);
        let k = choose|k: int| 0 <= k < all.len() && all[k] == u;
        if k < bookmark_urls(one.0).len() {
            assert(bookmark_urls(one.0)[k] == u);
            lemma_emitted_url_is_new_source(pages[0], seen, categories, u);
        } else {
            assert(bookmark_urls(rest)[k - bookmark_urls(one.0).len()] == u);
            lemma_export_emitted_url_is_new_source(pages.drop_first(), one.1, categories, u);
            let i = choose|i: int|
                0 <= i < pages.drop_first().len() && has_source(#[trigger] pages.drop_first()[i], u);
            assert(pages[i + 1] == pages.drop_first()[i]);
            lemma_select_sources_records_urls(pages[0], seen, categories);
            if seen.contains(u) {
                let j = choose|j: int| 0 <= j < seen.len() && seen[j] == u;
                assert(one.1[j] == u);
            }
        }
    }
}

/// Without a category filter, an export turns every source URL of its pages
/// that was not seen before into a bookmark.
pub proof fn lemma_unfiltered_export_emits_new_sources(
    pages: Seq<Seq<ExportResultView>>,
    seen: Seq<Seq<char>>,
    u: Seq<char>,
)
    requires
        pages_have_source(pages, u),
        !seen.contains(u),
    ensures
        bookmark_urls(export_bookmarks(pages, seen, Seq::<Seq<char>>::empty())).contains(u),
    decreases pages.len(),
{
    let none = Seq::<Seq<char>>::empty();
    let one = select_sources(pages[0], seen, none);
    let rest = export_bookmarks(pages.drop_first(), one.1, none);
    lemma_urls_concat(one.0, rest);
    if has_source(pages[0], u) {
        lemma_unfiltered_page_emits_new_sources(pages[0], seen, u);
        let k = choose|k: int|
            0 <= k < bookmark_urls(one.0).len() && bookmark_urls(one.0)[k] == u;
        assert((bookmark_urls(one.0) + bookmark_urls(rest))[k] == u);
    } else {
        let i = choose|i: int| 0 <= i < pages.len() && has_source(#[trigger] pages[i], u);
        assert(i != 0);
        assert(pages.drop_first()[i - 1] == pages[i]);
        assert(pages_have_source(pages.drop_first(), u));
        lemma_select_sources_records_urls(pages[0], seen, none);
        assert(!one.1.contains(u)) by {
            if one.1.contains(u) {
                let j = choose|j: int| 0 <= j < one.1.len() && one.1[j] == u;
                if j >= seen.len() {
                    assert(bookmark_urls(one.0)[j - seen.len()] == u);
                    lemma_emitted_url_is_new_source(pages[0], seen, none, u);
                } else {
                    assert(seen[j] == u);
                }
            }
        }
        lemma_unfiltered_export_emits_new_sources(pages.drop_first(), one.1, u);
        let k = choose|k: int| 0 <= k < bookmark_urls(rest).len() && bookmark_urls(rest)[k] == u;
        assert((bookmark_urls(one.0) + bookmark_urls(rest))[bookmark_urls(one.0).len() + k] == u);
    }
}

/// A category filter only narrows an export: every URL it turns into a
/// bookmark, an export of the same pages without a filter turns into one
/// too; and an export without a filter turns into bookmarks exactly the
/// distinct source URLs of its pages. (Which pages are fetched does not
/// depend on the filter: each page's next cursor is passed on as it is.)
pub proof fn lemma_category_filter_narrows_export(
    pages: Seq<Seq<ExportResultView>>,
    categories: Seq<Seq<char>>,
)
    ensures
        forall|u: Seq<char>|
            #[trigger] bookmark_urls(
                export_bookmarks(pages, Seq::<Seq<char>>::empty(), categories),
            ).contains(u) ==> bookmark_urls(
                export_bookmarks(pages, Seq::<Seq<char>>::empty(), Seq::<Seq<char>>::empty()),
            ).contains(u),
        forall|u: Seq<char>|
            #[trigger] bookmark_urls(
                export_bookmarks(pages, Seq::<Seq<char>>::empty(), Seq::<Seq<char>>::empty()),
            ).contains(u) <==> pages_have_source(pages, u),
{
    let none = Seq::<Seq<char>>::empty();
    assert forall|u: Seq<char>|
        #[trigger] bookmark_urls(export_bookmarks(pages, none, categories)).contains(
            u,
        ) implies bookmark_urls(export_bookmarks(pages, none, none)).contains(u) by {
        lemma_export_emitted_url_is_new_source(pages, none, categories, u);
        lemma_unfiltered_export_emits_new_sources(pages, none, u);
    }
    assert forall|u: Seq<char>|
        #[trigger] bookmark_urls(export_bookmarks(pages, none, none)).contains(u)
            <==> pages_have_source(pages, u) by {
        if bookmark_urls(export_bookmarks(pages, none, none)).contains(u) {
            lemma_export_emitted_url_is_new_source(pages, none, none, u);
        }
        if pages_have_source(pages, u) {
            lemma_unfiltered_export_emits_new_sources(pages, none, u);
        }
    }
}

/// The export page URL: with the empty cursor it is the export endpoint
/// itself; with any other cursor it is the endpoint followed by
/// `?pageCursor=` and the cursor, so it ends with the cursor and different
/// cursors give different URLs.
pub proof fn lemma_export_url_carries_cursor(c: Seq<char>, d: Seq<char>)
    ensures
        c.len() == 0 ==> spec_export_url(c) == "https://readwise.io/api/v2/export/"@,
        c.len() > 0 ==> spec_export_url(c) == "https://readwise.io/api/v2/export/"@
            + "?pageCursor="@ + c,
        c.len() > 0 ==> spec_export_url(c).skip(spec_export_url(c).len() - c.len()) == c,
        c.len() > 0 && d.len() > 0 && spec_export_url(c) == spec_export_url(d) ==> c == d,
{
    let p = "https://readwise.io/api/v2/export/"@ + "?pageCursor="@;
    if c.len() > 0 {
        assert(spec_export_url(c) == p + c);
        assert((p + c).skip((p + c).len() - c.len()) =~= c);
        if d.len() > 0 && spec_export_url(c) == spec_export_url(d) {
            assert(spec_export_url(d) == p + d);
            assert((p + c).skip(p.len() as int) =~= c);
            assert((p + d).skip(p.len() as int) =~= d);
        }
    }
}

/// The API token header is `Token `, a space, then the token.
pub proof fn lemma_token_authorization_text(token: Seq<char>)
    ensures
        spec_token_authorization(token) == "Token "@ + token,
        spec_token_authorization(token).skip(6) == token,
{
    assert(("Token "@ + token).skip(6) =~= token) by {
        reveal_strlit("Token ");
    }
}

/// The bookmark of an entry: its source URL, its title followed by ` - `
/// and the author when there is an author (whatever the author's text),
/// else the title alone, and the time of its last highlight.
pub proof fn lemma_source_bookmark_fields(r: ExportResultView)
    ensures
        r.source_url matches Some(u) ==> source_bookmark(r).url == u,
        r.author matches Some(a) ==> source_bookmark(r).title == r.title + " - "@ + a,
        r.author is None ==> source_bookmark(r).title == r.title,
        source_bookmark(r).created_at == r.updated,
{
}

/// Every bookmark of a page describes one of its entries that has a source
/// URL and a category that passes the filter: the URL is that source, the
/// title is the entry's title, followed by ` - ` and the author where there
/// is one, and the creation time is the entry's last highlight.
pub proof fn lemma_page_bookmarks_describe_entries(
    results: Seq<ExportResultView>,
    seen: Seq<Seq<char>>,
    categories: Seq<Seq<char>>,
)
    ensures
        forall|j: int|
            #![trigger select_sources(results, seen, categories).0[j]]
            0 <= j < select_sources(results, seen, categories).0.len() ==> exists|i: int|
                0 <= i < results.len() && #[trigger] results[i].source_url == Some(
                    select_sources(results, seen, categories).0[j].url,
                ) && category_allowed(categories, results[i].category) && select_sources(
                    results,
                    seen,
                    categories,
                ).0[j].created_at == results[i].updated && (results[i].author matches Some(a)
                    ==> select_sources(results, seen, categories).0[j].title == results[i].title
                    + " - "@ + a) && (results[i].author is None ==> select_sources(
                    results,
                    seen,
                    categories,
                ).0[j].title == results[i].title),
{
    let out = select_sources(results, seen, categories).0;
    lemma_selected_sources_pass_filter(results, seen, categories);
    assert forall|j: int| #![trigger out[j]] 0 <= j < out.len() implies exists|i: int|
        0 <= i < results.len() && #[trigger] results[i].source_url == Some(out[j].url)
            && category_allowed(categories, results[i].category) && out[j].created_at
            == results[i].updated && (results[i].author matches Some(a) ==> out[j].title
            == results[i].title + " - "@ + a) && (results[i].author is None ==> out[j].title
            == results[i].title) by {
        let i = choose|i: int|
            0 <= i < results.len() && results[i].source_url is Some && category_allowed(
                categories,
                results[i].category,
            ) && #[trigger] out[j] == source_bookmark(results[i]);
        lemma_source_bookmark_fields(results[i]);
    }
}

/// A page with one entry whose source URL is new and with no category
/// filter gives exactly that entry's bookmark.
pub proof fn lemma_single_fresh_entry(r: ExportResultView, seen: Seq<Seq<char>>)
    requires
        r.source_url is Some,
        !seen.contains(r.source_url->0),
    ensures
        select_sources(seq![r], seen, Seq::<Seq<char>>::empty()).0 == seq![source_bookmark(r)],
{
    let one = seq![r];
    assert(one[0] == r);
    assert(one.drop_first() =~= Seq::<ExportResultView>::empty());
    let none = Seq::<Seq<char>>::empty();
    assert(keeps_entry(r, seen, none));
    let tail = select_sources(one.drop_first(), seen.push(r.source_url->0), none);
    assert(tail.0 == Seq::<BookmarkView>::empty());
    assert(seq![source_bookmark(r)] + Seq::<BookmarkView>::empty() =~= seq![source_bookmark(r)]);
}

/// A single entry gives its bookmark, and has its source URL recorded as
/// seen, exactly when it has a source URL not seen before and, if there are
/// categories, its category lower-cased is one of them; otherwise nothing
/// changes.
pub proof fn lemma_select_single_entry(
    r: ExportResultView,
    seen: Seq<Seq<char>>,
    categories: Seq<Seq<char>>,
)
    ensures
        select_sources(seq![r], seen, categories) == if r.source_url is Some && !seen.contains(
            r.source_url->0,
        ) && (categories.len() == 0 || categories.contains(unicode_lowercase(r.category))) {
            (seq![source_bookmark(r)], seen.push(r.source_url->0))
        } else {
            (Seq::<BookmarkView>::empty(), seen)
        },
{
    let one = seq![r];
    assert(one[0] == r);
    assert(one.drop_first() =~= Seq::<ExportResultView>::empty());
    if keeps_entry(r, seen, categories) {
        let tail = select_sources(one.drop_first(), seen.push(r.source_url->0), categories);
        assert(tail.0 == Seq::<BookmarkView>::empty());
        assert(seq![source_bookmark(r)] + Seq::<BookmarkView>::empty() =~= seq![
            source_bookmark(r),
        ]);
    } else {
        assert(select_sources(one.drop_first(), seen, categories).0 == Seq::<BookmarkView>::empty());
    }
}

/// The bookmark title of a source: its title, then ` - ` and the author
/// when there is one, whatever the author's text.
pub proof fn lemma_title_with_author_text(title: Seq<char>, author: Option<Seq<char>>)
    ensures
        author matches Some(a) ==> spec_title_with_author(title, author) == title + " - "@ + a,
        author is None ==> spec_title_with_author(title, author) == title,
{
}

/// The entries of a page, as plain values, one for one and in order.
pub proof fn lemma_results_view_in_order(v: Seq<ExportResult>)
    ensures
        results_view(v).len() == v.len(),
        forall|i: int| 0 <= i < v.len() ==> #[trigger] results_view(v)[i] == v[i]@,
{
}

/// The stream goes on with exactly the cursor that a page named.
pub proof fn lemma_next_cursor_is_page_cursor(bookmarks: Vec<BookmarkCreate>, cursor: Option<String>)
    ensures
        next_cursor(Some((bookmarks, cursor))) == cursor.deep_view(),
        next_cursor(None) is None,
{
}

} // verus!
