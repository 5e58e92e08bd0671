use vibe_core::providers::quote::{LocalFileQuoteProvider, ZenQuote, ZenQuotesProvider};
use vibe_core::providers::wallpaper::{
    EarthViewItem, EarthViewProvider, RedditPost, RedditProvider, UnsplashProvider,
};
use vibe_core::providers::ProviderError;

#[test]
fn build_unsplash_url_encodes_query_parameters() {
    let url = UnsplashProvider::build_random_photo_url(Some("nature wallpaper,city"))
        .expect("url build should succeed");
    let rendered = url.as_str();
    assert!(rendered.contains("query=nature+wallpaper%2Ccity"));
}

#[test]
fn unsplash_query_reads_back() {
    let query = "caf\u{e9} & tea=1 #top";
    let url = UnsplashProvider::build_random_photo_url(Some(query)).unwrap();
    assert_eq!(
        url,
        "https://api.unsplash.com/photos/random?query=caf%C3%A9+%26+tea%3D1+%23top"
    );
    let parsed = reqwest::Url::parse(&url).unwrap();
    assert_eq!(parsed.host_str(), Some("api.unsplash.com"));
    assert_eq!(parsed.path(), "/photos/random");
    let pairs: Vec<(String, String)> = parsed.query_pairs().into_owned().collect();
    assert_eq!(pairs, vec![("query".to_string(), query.to_string())]);
    let spaced = UnsplashProvider::build_random_photo_url(Some(" sea ")).unwrap();
    assert_eq!(spaced, "https://api.unsplash.com/photos/random?query=+sea+");
}

#[test]
fn unsplash_url_without_query() {
    assert_eq!(
        UnsplashProvider::build_random_photo_url(None).unwrap(),
        "https://api.unsplash.com/photos/random"
    );
    assert_eq!(
        UnsplashProvider::build_random_photo_url(Some("  ")).unwrap(),
        "https://api.unsplash.com/photos/random"
    );
    assert_eq!(
        UnsplashProvider::build_random_photo_url(Some("a&b")).unwrap(),
        "https://api.unsplash.com/photos/random?query=a%26b"
    );
}

#[test]
fn unsplash_request_needs_key() {
    let none = UnsplashProvider::new(None, Some("x".to_string()));
    assert_eq!(none.api_request().err(), Some(ProviderError::MissingAccessKey));
    let blank = UnsplashProvider::new(Some(" \t".to_string()), None);
    assert_eq!(blank.api_request().err(), Some(ProviderError::MissingAccessKey));
    let ok = UnsplashProvider::new(Some("  KEY ".to_string()), Some("sea".to_string()));
    let req = ok.api_request().unwrap();
    assert_eq!(req.authorization, "Client-ID KEY");
    assert_eq!(req.url, "https://api.unsplash.com/photos/random?query=sea");
    assert_eq!(
        ProviderError::MissingAccessKey.message(),
        "Unsplash: Access Key is required when using Unsplash provider"
    );
    assert_eq!(ProviderError::InvalidApiUrl.message(), "Unsplash: Failed to build API URL");
}

fn post(url: &str, is_video: bool, preview: Option<Vec<&str>>) -> RedditPost {
    RedditPost {
        url: url.to_string(),
        is_video,
        preview: preview.map(|v| v.into_iter().map(|s| s.to_string()).collect()),
    }
}

#[test]
fn reddit_listing_url() {
    let p = RedditProvider::new("EarthPorn");
    assert_eq!(p.subreddit, "EarthPorn");
    assert_eq!(p.listing_url(), "https://www.reddit.com/r/EarthPorn/hot.json?limit=30");
}

#[test]
fn reddit_prefers_first_direct_image() {
    let p = RedditProvider::new("EarthPorn");
    let posts = vec![
        post("https://v.redd.it/abc", true, None),
        post("https://example.com/page", false, None),
        post("https://i.redd.it/x.PNG", false, None),
        post("https://i.redd.it/y.jpg", false, None),
    ];
    assert_eq!(p.select_image_url(&posts).unwrap(), "https://i.redd.it/x.PNG");
}

#[test]
fn reddit_falls_back_to_preview() {
    let p = RedditProvider::new("pics");
    let posts = vec![
        post("https://v.redd.it/abc.jpg", true, Some(vec![])),
        post("https://gallery/1", false, Some(vec!["https://preview.redd.it/a.jpg?w=1&amp;s=2", "b"])),
    ];
    assert_eq!(
        p.select_image_url(&posts).unwrap(),
        "https://preview.redd.it/a.jpg?w=1&s=2"
    );
}

#[test]
fn reddit_without_images() {
    let p = RedditProvider::new("text");
    let posts = vec![post("https://self/post", false, None)];
    let err = p.select_image_url(&posts).unwrap_err();
    assert_eq!(err, ProviderError::NoSuitableImage { subreddit: "text".to_string() });
    assert_eq!(err.message(), "Reddit: No suitable images found in the top 30 posts of r/text");
    assert!(p.select_image_url(&vec![]).is_err());
}

#[test]
fn zen_quote_format() {
    let quotes = vec![
        ZenQuote { q: "Be.".to_string(), a: "Someone".to_string() },
        ZenQuote { q: "x".to_string(), a: "y".to_string() },
    ];
    assert_eq!(
        ZenQuotesProvider::quote_from_response(&quotes).unwrap(),
        "\"Be.\"\n\u{2014} Someone"
    );
    assert_eq!(
        ZenQuotesProvider::quote_from_response(&vec![]).err(),
        Some(ProviderError::NoQuote)
    );
    assert_eq!(ProviderError::NoQuote.message(), "No quote received from API");
}

#[test]
fn local_file_quote_pick() {
    let p = LocalFileQuoteProvider::new(b"/tmp/q.txt".to_vec());
    assert_eq!(p.path, b"/tmp/q.txt".to_vec());
    assert!(p.check_path().is_ok());
    assert_eq!(
        LocalFileQuoteProvider::new(Vec::new()).check_path(),
        Err(ProviderError::EmptyQuotePath)
    );
    for _ in 0..50 {
        let q = LocalFileQuoteProvider::pick_quote("\n first \r\n\n  \nsecond\n").unwrap();
        assert!(q == " first " || q == "second", "{:?}", q);
    }
    assert_eq!(LocalFileQuoteProvider::pick_quote("only\n").unwrap(), "only");
    assert_eq!(
        LocalFileQuoteProvider::pick_quote(" \n\t\n").err(),
        Some(ProviderError::EmptyQuoteFile)
    );
    assert_eq!(ProviderError::EmptyQuoteFile.message(), "Quote file is empty");
    assert_eq!(ProviderError::EmptyQuotePath.message(), "Local quote file path is empty");
}

#[test]
fn earthview_choice() {
    let _ = EarthViewProvider::new();
    let items = vec![
        EarthViewItem { image: "https://a/1.jpg".to_string() },
        EarthViewItem { image: "https://a/2.jpg".to_string() },
    ];
    let got = EarthViewProvider::choose_image(items).unwrap();
    assert!(got == "https://a/1.jpg" || got == "https://a/2.jpg");
    assert_eq!(
        EarthViewProvider::choose_image(vec![]).err(),
        Some(ProviderError::EmptyCollection)
    );
    assert_eq!(ProviderError::EmptyCollection.message(), "EarthView: Collection is empty");
}
