//! The theme of the magazine.
use vstd::prelude::*;
use crate::text::string_from;

verus! {

/// The theme settings.
#[derive(Debug, Clone, PartialEq, Eq)]
pub struct Theme {
    /// The primary color.
    pub primary_color: String,
    /// The text main color.
    pub main_color: String,
    /// The article's link color.
    pub link_color: String,
    /// The background color.
    pub secondary_color: String,
    /// The background image url.
    pub background_image: Option<String>,
    /// The extra head template.
    pub head_template: Option<String>,
    /// The custom footer template.
    pub footer_template: Option<String>,
    /// The extend template of the article page.
    pub article_extend_template: Option<String>,
    pub default_cover: Option<String>,
    pub default_avatar: Option<String>,
}

pub const DEFAULT_PRIMARY_COLOR: &'static str = "#2563eb";

pub const DEFAULT_MAIN_COLOR: &'static str = "#ffffff";

pub const DEFAULT_LINK_COLOR: &'static str = "#2563eb";

pub const DEFAULT_SECONDARY_COLOR: &'static str = "#eff3f7";

pub const DEFAULT_COVER: &'static str = "/static/zine-placeholder.svg";

pub const DEFAULT_AVATAR: &'static str = "/static/zine.png";

impl Theme {
    pub fn default_primary_color() -> (r: String)
        ensures
            r@ == DEFAULT_PRIMARY_COLOR@,
    {
        string_from(DEFAULT_PRIMARY_COLOR)
    }

    pub fn default_main_color() -> (r: String)
        ensures
            r@ == DEFAULT_MAIN_COLOR@,
    {
        string_from(DEFAULT_MAIN_COLOR)
    }

    pub fn default_link_color() -> (r: String)
        ensures
            r@ == DEFAULT_LINK_COLOR@,
    {
        string_from(DEFAULT_LINK_COLOR)
    }

    pub fn default_secondary_color() -> (r: String)
        ensures
            r@ == DEFAULT_SECONDARY_COLOR@,
    {
        string_from(DEFAULT_SECONDARY_COLOR)
    }

    /// Sets the default cover and avatar where none is given; the templates,
    /// which name files, are read by the caller.
    pub fn fill_default_assets(&mut self)
        ensures
            final(self).default_cover is Some,
            final(self).default_avatar is Some,
            old(self).default_cover is Some ==> final(self).default_cover == old(self).default_cover,
            old(self).default_cover is None ==> final(self).default_cover->0@ == DEFAULT_COVER@,
            old(self).default_avatar is Some ==> final(self).default_avatar == old(self).default_avatar,
            old(self).default_avatar is None ==> final(self).default_avatar->0@ == DEFAULT_AVATAR@,
            final(self).primary_color == old(self).primary_color,
            final(self).main_color == old(self).main_color,
            final(self).link_color == old(self).link_color,
            final(self).secondary_color == old(self).secondary_color,
            final(self).background_image == old(self).background_image,
            final(self).head_template == old(self).head_template,
            final(self).footer_template == old(self).footer_template,
            final(self).article_extend_template == old(self).article_extend_template,
    {
        if self.default_cover.is_none() {
            self.default_cover = Some(string_from(DEFAULT_COVER));
        }
        if self.default_avatar.is_none() {
            self.default_avatar = Some(string_from(DEFAULT_AVATAR));
        }
    }
}

/// Whether `r` holds the default theme settings.
pub open spec fn is_default_theme(r: Theme) -> bool {
    &&& r.primary_color@ == DEFAULT_PRIMARY_COLOR@
    &&& r.main_color@ == DEFAULT_MAIN_COLOR@
    &&& r.link_color@ == DEFAULT_LINK_COLOR@
    &&& r.secondary_color@ == DEFAULT_SECONDARY_COLOR@
    &&& r.background_image is None
    &&& r.head_template is None
    &&& r.footer_template is None
    &&& r.article_extend_template is None
    &&& r.default_cover is None
    &&& r.default_avatar is None
}

impl Default for Theme {
    fn default() -> (r: Self)
        ensures
            is_default_theme(r),
    {
        Theme {
            primary_color: Self::default_primary_color(),
            main_color: Self::default_main_color(),
            link_color: Self::default_link_color(),
            secondary_color: Self::default_secondary_color(),
            background_image: None,
            head_template: None,
            footer_template: None,
            article_extend_template: None,
            default_cover: None,
            default_avatar: None,
        }
    }
}

} // verus!
