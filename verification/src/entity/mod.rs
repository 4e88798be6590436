//! The entities of a magazine.
pub mod author;
pub mod end_matter;
pub mod list;
pub mod markdown;
pub mod page;
pub mod season;
pub mod site;
pub mod theme;
pub mod topic;

pub use author::{Author, AuthorId};
pub use end_matter::{Comment, EndMatter};
pub use list::List;
pub use markdown::MarkdownConfig;
pub use page::Page;
pub use season::Season;
pub use site::{Menu, Site};
pub use theme::Theme;
pub use topic::Topic;
pub mod article;

pub use article::{Article, MetaArticle};
pub mod issue;

pub use issue::Issue;
pub mod zine;

pub use zine::Zine;
