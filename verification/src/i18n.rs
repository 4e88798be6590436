//! The locales with a built-in display name.
use vstd::prelude::*;
use crate::text::{str_eq, string_from};

verus! {

/// The display name of a built-in locale.
pub open spec fn locale_name(locale: Seq<char>) -> Option<Seq<char>> {
    if locale == "en"@ {
        Some("English"@)
    } else if locale == "fr"@ {
        Some("Français"@)
    } else if locale == "es"@ {
        Some("Español"@)
    } else if locale == "ja"@ {
        Some("日本語"@)
    } else if locale == "zh"@ {
        Some("中文"@)
    } else if locale == "zh_CN"@ {
        Some("简体中文"@)
    } else if locale == "zh_TW"@ {
        Some("繁體中文"@)
    } else {
        None
    }
}

/// The display name of `locale`, if it is a built-in locale.
pub fn get_locale_name(locale: &str) -> (r: Option<&'static str>)
    ensures
        match r {
            Some(n) => locale_name(locale@) == Some(n@),
            None => locale_name(locale@) is None,
        },
{
    if str_eq(locale, "en") {
        Some("English")
    } else if str_eq(locale, "fr") {
        Some("Français")
    } else if str_eq(locale, "es") {
        Some("Español")
    } else if str_eq(locale, "ja") {
        Some("日本語")
    } else if str_eq(locale, "zh") {
        Some("中文")
    } else if str_eq(locale, "zh_CN") {
        Some("简体中文")
    } else if str_eq(locale, "zh_TW") {
        Some("繁體中文")
    } else {
        None
    }
}


/// Where the translations of a locale come from.
#[derive(Debug, Clone, PartialEq, Eq)]
pub enum FluentSource {
    /// The built-in English translations.
    English,
    /// The built-in Chinese translations.
    Chinese,
    /// The translation file of the magazine, relative to its directory.
    File(String),
}

/// Where the translations of `locale` come from: built in for `en` and `zh`,
/// else the file `locales/<locale>.ftl` of the magazine.
pub fn fluent_source(locale: &str) -> (r: FluentSource)
    ensures
        locale@ == "en"@ ==> r is English,
        locale@ == "zh"@ ==> r is Chinese,
        locale@ != "en"@ && locale@ != "zh"@ ==> (r matches FluentSource::File(f) && f@ == "locales/"@ + locale@
            + ".ftl"@),
{
    proof {
        reveal_strlit("en");
        reveal_strlit("zh");
        assert("en"@[0] != "zh"@[0]);
    }
    if str_eq(locale, "en") {
        FluentSource::English
    } else if str_eq(locale, "zh") {
        FluentSource::Chinese
    } else {
        let mut f = string_from("locales/");
        f.append(locale);
        f.append(".ftl");
        FluentSource::File(f)
    }
}

} // verus!
