//! The site settings.
use vstd::prelude::*;
use crate::text::string_from;

verus! {

/// The site settings, declared in the `[site]` table.
#[derive(Debug, Clone, PartialEq, Eq)]
pub struct Site {
    /// The absolute url of this site.
    pub url: String,
    pub cdn: Option<String>,
    pub name: String,
    pub description: Option<String>,
    /// The repository edit url.
    pub edit_url: Option<String>,
    /// The OpenGraph social image.
    pub social_image: Option<String>,
    /// The locale of the built-in text; default to `en`.
    pub locale: String,
    pub menus: Vec<Menu>,
}

/// A menu entry.
#[derive(Debug, Clone, PartialEq, Eq)]
pub struct Menu {
    pub name: String,
    pub url: String,
}

/// The default locale.
pub fn default_locale() -> (r: String)
    ensures
        r@ == "en"@,
{
    string_from("en")
}

/// Whether `r` holds the default site settings.
pub open spec fn is_default_site(r: Site) -> bool {
    &&& r.url@ == "http://localhost"@
    &&& r.cdn is None
    &&& r.name@ == "My New Magazine Powered by Rust!"@
    &&& r.description is None
    &&& r.edit_url is None
    &&& r.social_image is None
    &&& r.locale@ == "en"@
    &&& r.menus@.len() == 0
}

impl Default for Site {
    fn default() -> (r: Self)
        ensures
            is_default_site(r),
    {
        Site {
            url: string_from("http://localhost"),
            cdn: None,
            name: string_from("My New Magazine Powered by Rust!"),
            description: None,
            edit_url: None,
            social_image: None,
            locale: default_locale(),
            menus: Vec::new(),
        }
    }
}

} // verus!
