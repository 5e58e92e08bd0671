use vstd::prelude::*;

use super::{choose_from_slice, ProviderError};
use crate::text::{lines, non_blank, non_blank_lines, views};

verus! {

/// The address of the ZenQuotes API that answers with one random quote.
pub const ZENQUOTES_URL: &'static str = "https://zenquotes.io/api/random";

/// Quotes from the ZenQuotes API.
pub struct ZenQuotesProvider;

/// One quote of a ZenQuotes answer: its text `q` and author `a`.
pub struct ZenQuote {
    pub q: String,
    pub a: String,
}

/// How a quote is shown: the text in double quotes, then a line with a dash and the author.
pub open spec fn quote_text(q: Seq<char>, a: Seq<char>) -> Seq<char> {
    "\""@ + q + "\"\n\u{2014} "@ + a
}

impl ZenQuotesProvider {
    /// The quote to show for an answer of the API: its first quote, formatted.
    pub fn quote_from_response(quotes: &Vec<ZenQuote>) -> (r: Result<String, ProviderError>)
        ensures
            quotes@.len() == 0 ==> r == Err::<String, ProviderError>(ProviderError::NoQuote),
            quotes@.len() > 0 ==> (r matches Ok(s) && s@ == quote_text(quotes@[0].q@, quotes@[0].a@)),
    {
        if quotes.len() == 0 {
            return Err(ProviderError::NoQuote);
        }
        let first = &quotes[0];
        let mut s = "\"".to_owned();
        s.append(first.q.as_str());
        s.append("\"\n\u{2014} ");
        s.append(first.a.as_str());
        Ok(s)
    }
}

/// Quotes from a text file, one per line.
pub struct LocalFileQuoteProvider {
    /// The bytes of the file's path.
    pub path: Vec<u8>,
}

impl LocalFileQuoteProvider {
    pub fn new(path: Vec<u8>) -> (p: Self)
        ensures
            p.path == path,
    {
        LocalFileQuoteProvider { path }
    }

    /// Refuses an empty path before the file is read.
    pub fn check_path(&self) -> (r: Result<(), ProviderError>)
        ensures
            r == (if self.path@.len() == 0 {
                Err(ProviderError::EmptyQuotePath)
            } else {
                Ok(())
            }),
    {
        if self.path.len() == 0 {
            Err(ProviderError::EmptyQuotePath)
        } else {
            Ok(())
        }
    }

    /// One of the non-blank lines of the file's `content`, picked at random.
    pub fn pick_quote(content: &str) -> (r: Result<String, ProviderError>)
        ensures
            r is Err <==> non_blank(lines(content@)).len() == 0,
            r matches Err(e) ==> e == ProviderError::EmptyQuoteFile,
            r matches Ok(q) ==> non_blank(lines(content@)).contains(q@),
    {
        let candidates = non_blank_lines(content);
        match choose_from_slice(candidates.as_slice()) {
            Some(line) => {
                proof {
                    let i = choose|i: int| 0 <= i < candidates@.len() && candidates@[i] == *line;
                    assert(views(candidates@)[i] == line@);
                }
                Ok(line.clone())
            },
            None => Err(ProviderError::EmptyQuoteFile),
        }
    }
}

} // verus!
