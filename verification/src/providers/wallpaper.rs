use vstd::prelude::*;

use super::{choose_from_iter, ProviderError};
use crate::form::{form_encode, lemma_form_encode_plain};
use vstd::utf8::encode_utf8;
use crate::text::{
    ascii_lower, ends_with_ignore_ascii_case, is_blank, is_blank_str,
    replace_amp_entity, str_ends_with_ignore_ascii_case, trim, trim_whitespace, unescape_amp,
};

verus! {

/// Wallpapers from the hot posts of a subreddit.
pub struct RedditProvider {
    pub subreddit: String,
}

/// What the wallpaper choice reads of a Reddit post.
pub struct RedditPost {
    /// The address the post links to.
    pub url: String,
    /// Whether the post is a video.
    pub is_video: bool,
    /// The source addresses of the post's preview images, when it has a preview.
    pub preview: Option<Vec<String>>,
}

/// The address of the hot-posts listing of `subreddit`.
pub open spec fn reddit_listing_url(subreddit: Seq<char>) -> Seq<char> {
    "https://www.reddit.com/r/"@ + subreddit + "/hot.json?limit=30"@
}

/// An address that names a JPEG or PNG file (compared without case).
pub open spec fn is_direct_image_url(url: Seq<char>) -> bool {
    ||| ends_with_ignore_ascii_case(url, ".jpg"@)
    ||| ends_with_ignore_ascii_case(url, ".jpeg"@)
    ||| ends_with_ignore_ascii_case(url, ".png"@)
}

/// The image a post offers: its own address when it links to an image and is no video,
/// else the first preview image (with `&amp;` unescaped), else none.
pub open spec fn post_image(p: RedditPost) -> Option<Seq<char>> {
    if !p.is_video && is_direct_image_url(p.url@) {
        Some(p.url@)
    } else {
        match p.preview {
            Some(images) => if images@.len() > 0 {
                Some(unescape_amp(images@[0]@))
            } else {
                None
            },
            None => None,
        }
    }
}

/// The image of the first post that offers one.
pub open spec fn first_post_image(posts: Seq<RedditPost>) -> Option<Seq<char>>
    decreases posts.len(),
{
    if posts.len() == 0 {
        None
    } else {
        match post_image(posts[0]) {
            Some(u) => Some(u),
            None => first_post_image(posts.drop_first()),
        }
    }
}

/// A post that is no video and whose address ends in `.jpg`, `.jpeg` or `.png` (ASCII
/// letters in any case) offers its own address, whatever its preview holds.
pub proof fn lemma_direct_image_post_offers_its_url(p: RedditPost, ext: Seq<char>)
    requires
        !p.is_video,
        ext == ".jpg"@ || ext == ".jpeg"@ || ext == ".png"@,
        ext.len() <= p.url@.len(),
        forall|k: int|
            0 <= k < ext.len() ==> ascii_lower(#[trigger] p.url@[p.url@.len() - ext.len() + k])
                == ext[k],
    ensures
        post_image(p) == Some(p.url@),
{
    assert(ends_with_ignore_ascii_case(p.url@, ext));
}

/// A post that is a video, or whose address names no JPEG or PNG file, offers its first
/// preview image with `&amp;` unescaped, and nothing when it has no preview image.
pub proof fn lemma_other_post_offers_preview(p: RedditPost)
    requires
        p.is_video || !is_direct_image_url(p.url@),
    ensures
        p.preview matches Some(images) && images@.len() > 0 ==> post_image(p) == Some(
            unescape_amp(p.preview->0@[0]@),
        ),
        !(p.preview matches Some(images) && images@.len() > 0) ==> post_image(p) is None,
{
}

/// The image picked from the posts is that of the first post that offers one, and there is
/// none exactly when no post offers one.
pub proof fn lemma_first_offering_post_wins(posts: Seq<RedditPost>, j: int)
    requires
        0 <= j < posts.len(),
        post_image(posts[j]) is Some,
        forall|i: int| 0 <= i < j ==> post_image(#[trigger] posts[i]) is None,
    ensures
        first_post_image(posts) == post_image(posts[j]),
    decreases j,
{
    if j > 0 {
        assert(post_image(posts[0]) is None);
        let rest = posts.drop_first();
        assert forall|i: int| 0 <= i < j - 1 implies post_image(#[trigger] rest[i]) is None by {
            assert(rest[i] == posts[i + 1]);
        }
        assert(rest[j - 1] == posts[j]);
        lemma_first_offering_post_wins(rest, j - 1);
    }
}

/// No image is picked exactly when no post offers one.
pub proof fn lemma_no_image_when_no_post_offers_one(posts: Seq<RedditPost>)
    ensures
        first_post_image(posts) is None <==> forall|i: int|
            0 <= i < posts.len() ==> post_image(#[trigger] posts[i]) is None,
    decreases posts.len(),
{
    if posts.len() > 0 {
        let rest = posts.drop_first();
        lemma_no_image_when_no_post_offers_one(rest);
        if first_post_image(posts) is None {
            assert forall|i: int| 0 <= i < posts.len() implies post_image(#[trigger] posts[i]) is None by {
                if i > 0 {
                    assert(posts[i] == rest[i - 1]);
                }
            }
        }
        if forall|i: int| 0 <= i < posts.len() ==> post_image(#[trigger] posts[i]) is None {
            assert(post_image(posts[0]) is None);
            assert forall|i: int| 0 <= i < rest.len() implies post_image(#[trigger] rest[i]) is None by {
                assert(rest[i] == posts[i + 1]);
            }
        }
    }
}

fn post_image_of(p: &RedditPost) -> (r: Option<String>)
    ensures
        match post_image(*p) {
            Some(u) => r matches Some(s) && s@ == u,
            None => r is None,
        },
{
    let url = p.url.as_str();
    if !p.is_video && (str_ends_with_ignore_ascii_case(url, ".jpg")
        || str_ends_with_ignore_ascii_case(url, ".jpeg") || str_ends_with_ignore_ascii_case(
        url,
        ".png",
    )) {
        return Some(p.url.clone());
    }
    match &p.preview {
        Some(images) => if images.len() > 0 {
            Some(replace_amp_entity(images[0].as_str()))
        } else {
            None
        },
        None => None,
    }
}

impl RedditProvider {
    pub fn new(subreddit: &str) -> (p: Self)
        ensures
            p.subreddit@ == subreddit@,
    {
        RedditProvider { subreddit: subreddit.to_owned() }
    }

    /// The address of the listing of the 30 hot posts of the subreddit.
    pub fn listing_url(&self) -> (u: String)
        ensures
            u@ == reddit_listing_url(self.subreddit@),
    {
        let mut u = "https://www.reddit.com/r/".to_owned().concat(self.subreddit.as_str());
        u.append("/hot.json?limit=30");
        u
    }

    /// The image address to download: that of the first post that offers one.
    pub fn select_image_url(&self, posts: &Vec<RedditPost>) -> (r: Result<String, ProviderError>)
        ensures
            match first_post_image(posts@) {
                Some(u) => r matches Ok(s) && s@ == u,
                None => r == Err::<String, ProviderError>(
                    ProviderError::NoSuitableImage { subreddit: self.subreddit },
                ),
            },
    {
        let mut i: usize = 0;
        assert(posts@.skip(0) == posts@);
        while i < posts.len()
            invariant
                i <= posts@.len(),
                first_post_image(posts@) == first_post_image(posts@.skip(i as int)),
            decreases posts.len() - i,
        {
            let found = post_image_of(&posts[i]);
            assert(posts@.skip(i as int)[0] == posts@[i as int]);
            match found {
                Some(u) => {
                    return Ok(u);
                },
                None => {
                    assert(posts@.skip(i as int).drop_first() == posts@.skip(i + 1));
                },
            }
            i = i + 1;
        }
        assert(posts@.skip(i as int).len() == 0);
        Err(ProviderError::NoSuitableImage { subreddit: self.subreddit.clone() })
    }
}

/// The address of the Unsplash API that answers with one random photo.
pub const UNSPLASH_RANDOM_PHOTO_URL: &'static str = "https://api.unsplash.com/photos/random";

/// What `reqwest::Url::parse` makes of `input`, written out: `None` when it is no valid
/// address.
pub uninterp spec fn parsed_url(input: Seq<char>) -> Option<Seq<char>>;

/// What `input`, parsed as `reqwest::Url`, becomes once `query_pairs_mut().append_pair(name,
/// value)` added a form-encoded pair to its query; `None` when `input` is no valid address.
pub uninterp spec fn url_with_query_pair(input: Seq<char>, name: Seq<char>, value: Seq<char>) -> Option<Seq<char>>;

/// The text of an optional string.
pub open spec fn opt_view(o: Option<String>) -> Option<Seq<char>> {
    match o {
        Some(s) => Some(s@),
        None => None,
    }
}

/// `reqwest::Url::parse(input)`, written out as text.
#[verifier::external_body]
fn parse_url(input: &str) -> (r: Option<String>)
    ensures
        opt_view(r) == parsed_url(input@),
{
    reqwest::Url::parse(input).ok().map(String::from)
}

/// The serialization of a parsed address that has neither query nor fragment: no `?` and
/// no `#` occur in it.
pub open spec fn without_query_or_fragment(u: Seq<char>) -> bool {
    !u.contains('?') && !u.contains('#')
}

/// `input` parsed as `reqwest::Url`, with `name=value` appended to its query by
/// `query_pairs_mut().append_pair`, written out as text.
///
/// It is `None` exactly when `input` does not parse. When the parsed address has no query
/// and no fragment (in the source a query starts at a `?` and a fragment at a `#`),
/// `query_pairs_mut` adds a `?`, and `append_pair` writes the name, `=` and the value, each
/// as its UTF-8 bytes form encoded (`form_urlencoded::byte_serialize`), with no `&` before
/// the first pair.
#[verifier::external_body]
fn append_query_pair(input: &str, name: &str, value: &str) -> (r: Option<String>)
    ensures
        opt_view(r) == url_with_query_pair(input@, name@, value@),
        r is Some <==> parsed_url(input@) is Some,
        r is Some && without_query_or_fragment(parsed_url(input@)->0) ==> r->0@ == parsed_url(
            input@,
        )->0 + "?"@ + form_encode(encode_utf8(name@)) + "="@ + form_encode(
            encode_utf8(value@),
        ),
{
    let mut url = reqwest::Url::parse(input).ok()?;
    url.query_pairs_mut().append_pair(name, value);
    Some(String::from(url))
}

/// Random photos from Unsplash.
pub struct UnsplashProvider {
    pub access_key: Option<String>,
    pub query: Option<String>,
}

/// The address of a random photo request: with `query=...` when a non-blank query is given.
pub open spec fn random_photo_url(query: Option<Seq<char>>) -> Option<Seq<char>> {
    match query {
        Some(q) => if !is_blank(q) {
            url_with_query_pair(UNSPLASH_RANDOM_PHOTO_URL@, "query"@, q)
        } else {
            parsed_url(UNSPLASH_RANDOM_PHOTO_URL@)
        },
        None => parsed_url(UNSPLASH_RANDOM_PHOTO_URL@),
    }
}

/// A request to the Unsplash API: where it goes and how it is authorized.
pub struct UnsplashRequest {
    pub url: String,
    /// The value of the `Authorization` header.
    pub authorization: String,
}

impl UnsplashProvider {
    pub fn new(access_key: Option<String>, query: Option<String>) -> (p: Self)
        ensures
            p.access_key == access_key,
            p.query == query,
    {
        UnsplashProvider { access_key, query }
    }

    /// The address of a random photo, filtered by `query` when it is not blank.
    pub fn build_random_photo_url(query: Option<&str>) -> (r: Result<String, ProviderError>)
        ensures
            match random_photo_url(
                match query {
                    Some(q) => Some(q@),
                    None => None,
                },
            ) {
                Some(u) => r matches Ok(s) && s@ == u,
                None => r == Err::<String, ProviderError>(ProviderError::InvalidApiUrl),
            },
            r is Ok <==> parsed_url(UNSPLASH_RANDOM_PHOTO_URL@) is Some,
            query is Some && !is_blank(query->0@) && parsed_url(UNSPLASH_RANDOM_PHOTO_URL@) is Some
                && without_query_or_fragment(parsed_url(UNSPLASH_RANDOM_PHOTO_URL@)->0) ==> r is Ok
                && r->Ok_0@ == parsed_url(UNSPLASH_RANDOM_PHOTO_URL@)->0 + "?query="@ + form_encode(
                encode_utf8(query->0@),
            ),
    {
        let built = match query {
            Some(q) => if !is_blank_str(q) {
                proof {
                    reveal_strlit("query");
                    reveal_strlit("?");
                    reveal_strlit("=");
                    reveal_strlit("?query=");
                    lemma_form_encode_plain("query"@);
                    assert("?"@ + "query"@ + "="@ =~= "?query="@);
                }
                append_query_pair(UNSPLASH_RANDOM_PHOTO_URL, "query", q)
            } else {
                parse_url(UNSPLASH_RANDOM_PHOTO_URL)
            },
            None => parse_url(UNSPLASH_RANDOM_PHOTO_URL),
        };
        match built {
            Some(u) => Ok(u),
            None => Err(ProviderError::InvalidApiUrl),
        }
    }

    /// The request for a random photo: the trimmed access key is required, and the query
    /// filters the photos when it is not blank.
    pub fn api_request(&self) -> (r: Result<UnsplashRequest, ProviderError>)
        ensures
            match self.access_key {
                Some(k) => if is_blank(k@) {
                    r == Err::<UnsplashRequest, ProviderError>(ProviderError::MissingAccessKey)
                } else {
                    match random_photo_url(opt_view(self.query)) {
                        Some(u) => r matches Ok(req) && req.url@ == u
                            && req.authorization@ == "Client-ID "@ + trim(k@),
                        None => r == Err::<UnsplashRequest, ProviderError>(
                            ProviderError::InvalidApiUrl,
                        ),
                    }
                },
                None => r == Err::<UnsplashRequest, ProviderError>(
                    ProviderError::MissingAccessKey,
                ),
            },
    {
        let key = match &self.access_key {
            Some(k) => {
                let t = trim_whitespace(k.as_str());
                proof {
                    crate::text::lemma_trim_empty_iff_blank(k@);
                }
                if t.as_str().is_empty() {
                    return Err(ProviderError::MissingAccessKey);
                }
                t
            },
            None => {
                return Err(ProviderError::MissingAccessKey);
            },
        };
        let query = match &self.query {
            Some(q) => Some(q.as_str()),
            None => None,
        };
        let url = Self::build_random_photo_url(query)?;
        let authorization = "Client-ID ".to_owned().concat(key.as_str());
        Ok(UnsplashRequest { url, authorization })
    }
}

/// The address of the collection of Google Earth View images.
pub const EARTHVIEW_COLLECTION_URL: &'static str =
    "https://raw.githubusercontent.com/limhenry/earthview/master/earthview.json";

/// Wallpapers from Google Earth View.
pub struct EarthViewProvider;

/// One image of the Earth View collection.
pub struct EarthViewItem {
    pub image: String,
}

impl EarthViewProvider {
    pub fn new() -> (p: Self)
        ensures
            p == EarthViewProvider,
    {
        EarthViewProvider
    }

    /// The address of an image of the collection, picked at random.
    pub fn choose_image(items: Vec<EarthViewItem>) -> (r: Result<String, ProviderError>)
        ensures
            r is Err <==> items@.len() == 0,
            r matches Err(e) ==> e == ProviderError::EmptyCollection,
            r matches Ok(u) ==> exists|i: int| 0 <= i < items@.len() && items@[i].image == u,
    {
        match choose_from_iter(items) {
            Some(item) => Ok(item.image),
            None => Err(ProviderError::EmptyCollection),
        }
    }
}

impl Default for EarthViewProvider {
    fn default() -> (p: Self)
        ensures
            p == EarthViewProvider,
    {
        EarthViewProvider::new()
    }
}

} // verus!
