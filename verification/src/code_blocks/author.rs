//! The author code `@author_id`, rendered as an avatar-name link.
use vstd::prelude::*;
use crate::entity::Author;
use crate::text::string_from;

verus! {

/// The HTML of an author link.
pub open spec fn author_code_html(id: Seq<char>, avatar: Option<Seq<char>>, name: Seq<char>) -> Seq<char> {
    "<a class=\"author-code\" href=\"/@"@ + id + "\">\n"@ + match avatar {
        Some(a) => "<img src=\""@ + a + "\" alt=\"avatar\" loading=\"lazy\">\n"@,
        None => Seq::empty(),
    } + "<span>"@ + name + "</span>\n"@ + "</a>\n"@
}

/// The author code block of one author.
pub struct AuthorCode<'a>(pub &'a Author);

impl<'a> AuthorCode<'a> {
    /// The HTML of the author link; the author must have a name.
    pub fn render(&self) -> (r: String)
        requires
            self.0.name is Some,
        ensures
            r@ == author_code_html(
                self.0.id@,
                match self.0.avatar {
                    Some(a) => Some(a@),
                    None => None,
                },
                self.0.name->0@,
            ),
    {
        let author = self.0;
        let mut html = string_from("<a class=\"author-code\" href=\"/@");
        html.append(author.id.as_str());
        html.append("\">\n");
        match &author.avatar {
            Some(avatar) => {
                html.append("<img src=\"");
                html.append(avatar.as_str());
                html.append("\" alt=\"avatar\" loading=\"lazy\">\n");
            },
            None => {},
        }
        html.append("<span>");
        match &author.name {
            Some(name) => html.append(name.as_str()),
            None => {},
        }
        html.append("</span>\n");
        html.append("</a>\n");
        html
    }
}

} // verus!
