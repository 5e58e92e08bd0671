//! Setting the wallpaper on the desktop: what the fallback does when the XDG portal fails.
use vstd::prelude::*;

use crate::providers::wallpaper::opt_view;

verus! {

/// Sets wallpapers through the XDG Desktop Portal, with GNOME's `gsettings` as fallback.
pub struct PortalAdapter;

/// One `gsettings set <schema> <key> <value>` call.
pub struct GSetting {
    pub schema: String,
    pub key: String,
    pub value: String,
}

/// Why the wallpaper could not be set.
#[derive(Clone, Copy, Debug, PartialEq, Eq, Structural)]
pub enum DesktopError {
    /// The wallpaper's path cannot be written as a `file://` address.
    InvalidFileUri,
}

impl DesktopError {
    /// The message of this error.
    pub fn message(&self) -> (m: String)
        ensures
            m@ == "Failed to convert wallpaper path to file URI"@,
    {
        "Failed to convert wallpaper path to file URI".to_owned()
    }
}

/// The `file://` address that `reqwest::Url::from_file_path` makes of `path`, written out;
/// `None` when it refuses the path.
pub uninterp spec fn file_url(path: Seq<char>) -> Option<Seq<char>>;

/// An absolute path on Unix: one that starts at the root.
pub open spec fn is_absolute_path(path: Seq<char>) -> bool {
    path.len() > 0 && path[0] == '/'
}

/// `reqwest::Url::from_file_path(path)`, written out as text.
///
/// On Unix the source refuses exactly the paths that are not absolute.
#[verifier::external_body]
fn file_url_of(path: &str) -> (r: Option<String>)
    ensures
        opt_view(r) == file_url(path@),
        r is Some <==> is_absolute_path(path@),
{
    reqwest::Url::from_file_path(path).ok().map(String::from)
}

/// The GNOME schema that holds the desktop background.
pub open spec fn background_schema() -> Seq<char> {
    "org.gnome.desktop.background"@
}

impl PortalAdapter {
    /// The `gsettings` calls that set the wallpaper at `path` for the light and the dark
    /// style, used when the portal fails.
    pub fn gsettings_fallback(path: &str) -> (r: Result<Vec<GSetting>, DesktopError>)
        ensures
            match file_url(path@) {
                None => r == Err::<Vec<GSetting>, DesktopError>(DesktopError::InvalidFileUri),
                Some(uri) => r matches Ok(v) && v@.len() == 2
                    && v@[0].schema@ == background_schema()
                    && v@[0].key@ == "picture-uri"@
                    && v@[0].value@ == uri
                    && v@[1].schema@ == background_schema()
                    && v@[1].key@ == "picture-uri-dark"@
                    && v@[1].value@ == uri,
            },
            r is Ok <==> is_absolute_path(path@),
    {
        let uri = match file_url_of(path) {
            Some(u) => u,
            None => {
                return Err(DesktopError::InvalidFileUri);
            },
        };
        let mut v: Vec<GSetting> = Vec::new();
        v.push(
            GSetting {
                schema: "org.gnome.desktop.background".to_owned(),
                key: "picture-uri".to_owned(),
                value: uri.clone(),
            },
        );
        v.push(
            GSetting {
                schema: "org.gnome.desktop.background".to_owned(),
                key: "picture-uri-dark".to_owned(),
                value: uri,
            },
        );
        Ok(v)
    }
}

} // verus!
