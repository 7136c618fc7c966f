//! Application configuration: identity constants, colors and the fonts the
//! renderer falls back to.

use vstd::prelude::*;

verus! {

pub const APP_ID: &'static str = "com.ranfdev.Geopard";

pub const GETTEXT_PACKAGE: &'static str = "geopard";

pub const LOCALEDIR: &'static str = "/usr/local/share/locale";

pub const PKGDATADIR: &'static str = "/usr/local/share/geopard";

pub const PROFILE: &'static str = "";

pub const RESOURCES_FILE: &'static str = "/usr/local/share/geopard/resources.gresource";

pub const VERSION: &'static str = "1.0.0-alpha";

/// A font choice: family name and weight.
#[derive(Debug, Clone)]
pub struct Font {
    pub family: String,
    pub weight: i32,
}

/// The fonts for each kind of rendered text; an unset entry leaves the
/// choice to the renderer.
#[derive(Debug, Clone)]
pub struct Fonts {
    pub paragraph: Option<Font>,
    pub preformatted: Option<Font>,
    pub heading: Option<Font>,
    pub quote: Option<Font>,
}

impl Fonts {
    /// The heading fallback: heavy Cantarell.
    pub fn default_heading() -> (r: Font)
        ensures
            r.family@ == "Cantarell"@,
            r.weight == 800,
    {
        Font { family: "Cantarell".to_owned(), weight: 800 }
    }

    /// The preformatted-text fallback: medium monospace.
    pub fn default_preformatted() -> (r: Font)
        ensures
            r.family@ == "monospace"@,
            r.weight == 500,
    {
        Font { family: "monospace".to_owned(), weight: 500 }
    }

    /// The quote fallback: medium Cantarell.
    pub fn default_quote() -> (r: Font)
        ensures
            r.family@ == "Cantarell"@,
            r.weight == 500,
    {
        Font { family: "Cantarell".to_owned(), weight: 500 }
    }

    /// The paragraph fallback: medium Cantarell.
    pub fn default_paragraph() -> (r: Font)
        ensures
            r.family@ == "Cantarell"@,
            r.weight == 500,
    {
        Font { family: "Cantarell".to_owned(), weight: 500 }
    }
}

/// The whole configuration: whether colors are used, and the fonts.
#[derive(Debug, Clone)]
pub struct Config {
    pub colors: bool,
    pub fonts: Fonts,
}

} // verus!
