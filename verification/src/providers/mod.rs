//! Where wallpapers and quotes come from: the decisions of each provider between its
//! requests.
pub mod quote;
pub mod wallpaper;

use vstd::prelude::*;

use rand::seq::{IteratorRandom, SliceRandom};


verus! {

/// Why a provider produced no wallpaper or quote.
#[derive(Clone, Debug, PartialEq, Eq)]
pub enum ProviderError {
    /// No post of the subreddit links to an image or has a preview image.
    NoSuitableImage { subreddit: String },
    /// The Unsplash provider has no (non-blank) access key.
    MissingAccessKey,
    /// The Unsplash API address could not be built.
    InvalidApiUrl,
    /// The Earth View collection holds no image.
    EmptyCollection,
    /// The quote API answered with no quote.
    NoQuote,
    /// The path of the local quote file is empty.
    EmptyQuotePath,
    /// The local quote file holds no line besides blank ones.
    EmptyQuoteFile,
}

/// The message of a provider error.
pub open spec fn provider_error_text(e: ProviderError) -> Seq<char> {
    match e {
        ProviderError::NoSuitableImage { subreddit } =>
            "Reddit: No suitable images found in the top 30 posts of r/"@ + subreddit@,
        ProviderError::MissingAccessKey =>
            "Unsplash: Access Key is required when using Unsplash provider"@,
        ProviderError::InvalidApiUrl => "Unsplash: Failed to build API URL"@,
        ProviderError::EmptyCollection => "EarthView: Collection is empty"@,
        ProviderError::NoQuote => "No quote received from API"@,
        ProviderError::EmptyQuotePath => "Local quote file path is empty"@,
        ProviderError::EmptyQuoteFile => "Quote file is empty"@,
    }
}

impl ProviderError {
    /// The message of this error.
    pub fn message(&self) -> (m: String)
        ensures
            m@ == provider_error_text(*self),
    {
        match self {
            ProviderError::NoSuitableImage { subreddit } => "Reddit: No suitable images found in the top 30 posts of r/"
                .to_owned()
                .concat(subreddit.as_str()),
            ProviderError::MissingAccessKey =>
                "Unsplash: Access Key is required when using Unsplash provider".to_owned(),
            ProviderError::InvalidApiUrl => "Unsplash: Failed to build API URL".to_owned(),
            ProviderError::EmptyCollection => "EarthView: Collection is empty".to_owned(),
            ProviderError::NoQuote => "No quote received from API".to_owned(),
            ProviderError::EmptyQuotePath => "Local quote file path is empty".to_owned(),
            ProviderError::EmptyQuoteFile => "Quote file is empty".to_owned(),
        }
    }
}

/// One element of `items` picked at random: `rand::seq::SliceRandom::choose` with
/// `rand::thread_rng()`.
///
/// The source returns `None` for an empty slice and otherwise the element at a random
/// index; which element is not stated.
#[verifier::external_body]
pub(crate) fn choose_from_slice<T>(items: &[T]) -> (r: Option<&T>)
    ensures
        r is None <==> items@.len() == 0,
        r matches Some(x) ==> items@.contains(*x),
{
    items.choose(&mut rand::thread_rng())
}

/// One item of `items` picked at random: `rand::seq::IteratorRandom::choose` over
/// `items.into_iter()` with `rand::thread_rng()`.
///
/// For an iterator of known length, as this one, the source returns `None` when it is
/// empty and otherwise its item at a random index; which item is not stated.
#[verifier::external_body]
pub(crate) fn choose_from_iter<T>(items: Vec<T>) -> (r: Option<T>)
    ensures
        r is None <==> items@.len() == 0,
        r matches Some(x) ==> items@.contains(x),
{
    items.into_iter().choose(&mut rand::thread_rng())
}

} // verus!
