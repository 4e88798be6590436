//! The gallery block: one image per line.
use vstd::prelude::*;
use crate::text::{chars_of, lines, lines_vec, string_from, string_of, vviews};
use super::CodeBlock;

verus! {

/// The HTML of one gallery image.
pub open spec fn gallery_item(image: Seq<char>) -> Seq<char> {
    "<p><img src=\""@ + image + "\" /></p>\n"@
}

/// The HTML of the gallery items.
pub open spec fn gallery_items(images: Seq<Seq<char>>) -> Seq<char>
    decreases images.len(),
{
    if images.len() == 0 {
        Seq::empty()
    } else {
        gallery_items(images.drop_last()) + gallery_item(images.last())
    }
}

/// The HTML of a gallery.
pub open spec fn gallery_html(images: Seq<Seq<char>>) -> Seq<char> {
    "<div class=\"gallery\">\n"@ + gallery_items(images) + "</div>\n"@
}

/// The views of a list of texts.
pub open spec fn sviews(v: Seq<String>) -> Seq<Seq<char>> {
    v.map_values(|x: String| x@)
}

/// The gallery block.
pub struct GalleryBlock {
    pub images: Vec<String>,
}

impl GalleryBlock {
    /// A gallery with one image url per line of `block`.
    pub fn new(block: &str) -> (r: Self)
        ensures
            sviews(r.images@) == lines(block@),
    {
        let v = chars_of(block);
        let ls = lines_vec(&v);
        let mut images: Vec<String> = Vec::new();
        let mut i: usize = 0;
        while i < ls.len()
            invariant
                i <= ls.len(),
                vviews(ls@) == lines(block@),
                sviews(images@) == vviews(ls@).take(i as int),
            decreases ls.len() - i,
        {
            let s = string_of(ls[i].as_slice());
            assert(s@ == vviews(ls@)[i as int]);
            let ghost before = sviews(images@);
            images.push(s);
            assert(sviews(images@) =~= before.push(s@));
            i = i + 1;
            assert(sviews(images@) =~= vviews(ls@).take(i as int));
        }
        assert(vviews(ls@).take(ls.len() as int) =~= vviews(ls@));
        GalleryBlock { images }
    }
}

impl CodeBlock for GalleryBlock {
    fn render(&self) -> (r: String)
        ensures
            r@ == gallery_html(sviews(self.images@)),
    {
        let mut html = string_from("<div class=\"gallery\">\n");
        let mut i: usize = 0;
        assert(sviews(self.images@).take(0) =~= Seq::<Seq<char>>::empty());
        while i < self.images.len()
            invariant
                i <= self.images.len(),
                html@ == "<div class=\"gallery\">\n"@ + gallery_items(sviews(self.images@).take(i as int)),
            decreases self.images.len() - i,
        {
            html.append("<p><img src=\"");
            html.append(self.images[i].as_str());
            html.append("\" /></p>\n");
            let ghost t = sviews(self.images@).take(i + 1);
            assert(t.drop_last() =~= sviews(self.images@).take(i as int));
            assert(t.last() == self.images@[i as int]@);
            i = i + 1;
            assert(html@ =~= "<div class=\"gallery\">\n"@ + gallery_items(sviews(self.images@).take(i as int)));
        }
        assert(sviews(self.images@).take(self.images.len() as int) =~= sviews(self.images@));
        html.append("</div>\n");
        html
    }
}

} // verus!
