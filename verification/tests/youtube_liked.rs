use karakeep_sync::youtube_liked::{
    bearer_authorization, liked_videos_action, liked_videos_request, liked_videos_url,
    parse_excluded_categories, process_response, refresh_error_message, refresh_form, token_url,
    watch_url, LikedVideosAction, VideoItem, VideoListResponse,
};

fn video(id: &str, title: &str, published: Option<&str>, category: Option<&str>) -> VideoItem {
    VideoItem {
        id: id.to_string(),
        title: title.to_string(),
        published_at: published.map(|s| s.to_string()),
        category_id: category.map(|s| s.to_string()),
    }
}

#[test]
fn test_youtube_url_format() {
    let video_id = "dQw4w9WgXcQ";
    let url = watch_url(video_id);
    assert_eq!(url, "https://www.youtube.com/watch?v=dQw4w9WgXcQ");
}

#[test]
fn liked_videos_pages() {
    let base = "https://www.googleapis.com/youtube/v3/videos?part=snippet&myRating=like&maxResults=50";
    assert_eq!(liked_videos_url(""), base);
    assert_eq!(liked_videos_url("CAUQAA"), format!("{}&pageToken=CAUQAA", base));
    assert_eq!(liked_videos_request(&Some(String::new())), Some(base.to_string()));
    assert_eq!(liked_videos_request(&None), None);
}

#[test]
fn youtube_headers_and_refresh() {
    assert_eq!(bearer_authorization("tok"), "Bearer tok");
    assert_eq!(token_url(), "https://oauth2.googleapis.com/token");
    let form = refresh_form("id", "secret", "rt");
    let expected: Vec<(String, String)> = vec![
        ("client_id".to_string(), "id".to_string()),
        ("client_secret".to_string(), "secret".to_string()),
        ("refresh_token".to_string(), "rt".to_string()),
        ("grant_type".to_string(), "refresh_token".to_string()),
    ];
    assert_eq!(form, expected);
    assert_eq!(refresh_error_message("bad"), "Failed to refresh token: bad");
}

#[test]
fn youtube_status_decisions() {
    assert!(matches!(liked_videos_action(401, false), LikedVideosAction::RefreshAndRetry));
    assert!(matches!(liked_videos_action(401, true), LikedVideosAction::ReadPage));
    assert!(matches!(liked_videos_action(200, false), LikedVideosAction::ReadPage));
    assert!(matches!(liked_videos_action(204, false), LikedVideosAction::ReadPage));
    assert!(matches!(liked_videos_action(500, false), LikedVideosAction::Stop));
    assert!(matches!(liked_videos_action(403, false), LikedVideosAction::Stop));
    assert!(matches!(liked_videos_action(500, true), LikedVideosAction::ReadPage));
}

#[test]
fn youtube_page_to_bookmarks() {
    let resp = VideoListResponse {
        items: Some(vec![
            video("a1", "First", Some("2024-01-01T00:00:00Z"), Some("10")),
            video("b2", "Second", None, Some("27")),
            video("c3", "Third", None, None),
        ]),
        next_page_token: Some("NEXT".to_string()),
    };
    let excluded = parse_excluded_categories(&Some(" 10 ".to_string()));
    assert_eq!(excluded, vec!["10"]);
    let (bookmarks, next) = process_response(resp, &excluded).unwrap();
    assert_eq!(next, Some("NEXT".to_string()));
    assert_eq!(bookmarks.len(), 2);
    assert_eq!(bookmarks[0].url, "https://www.youtube.com/watch?v=b2");
    assert_eq!(bookmarks[0].title, "Second");
    assert_eq!(bookmarks[0].created_at, None);
    assert_eq!(bookmarks[1].url, "https://www.youtube.com/watch?v=c3");
}

#[test]
fn youtube_page_keeps_all_without_exclusion() {
    let resp = VideoListResponse {
        items: Some(vec![video("a1", "First", Some("2024"), Some("10"))]),
        next_page_token: None,
    };
    let excluded = parse_excluded_categories(&None);
    let (bookmarks, next) = process_response(resp, &excluded).unwrap();
    assert_eq!(next, None);
    assert_eq!(bookmarks.len(), 1);
    assert_eq!(bookmarks[0].created_at, Some("2024".to_string()));
}

#[test]
fn youtube_empty_last_page_ends_stream() {
    let resp = VideoListResponse { items: None, next_page_token: None };
    assert!(process_response(resp, &Vec::new()).is_none());
    let resp = VideoListResponse { items: Some(Vec::new()), next_page_token: Some("n".to_string()) };
    let (bookmarks, next) = process_response(resp, &Vec::new()).unwrap();
    assert!(bookmarks.is_empty());
    assert_eq!(next, Some("n".to_string()));
}
