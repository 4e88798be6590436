use std::iter;
use zine::meta::extract_description_from_markdown;

#[test]
fn test_extract_decription_from_markdown_at_most_1_paragraphs() {
    let base = iter::repeat('a').take(10).collect::<String>();
    let mut p1 = base.clone();
    p1.push('\n');
    p1.push_str(&base.clone());
    assert_eq!(base, extract_description_from_markdown(&p1));
}

#[test]
fn test_extract_decription_from_markdown_at_most_200_chars() {
    let p1 = iter::repeat('a').take(400).collect::<String>();

    let p2 = p1.clone();
    // Never extract more than 200 chars.
    assert_eq!(p1[..200], extract_description_from_markdown(&p2));
}

#[test]
fn extract_description_skips_blank_heading_and_image_lines() {
    assert_eq!("aaaa", extract_description_from_markdown("aaaa"));
    assert_eq!("aaaa", extract_description_from_markdown("\n\n    aaaa"));
    assert_eq!("aaaa", extract_description_from_markdown("\n    # h1\n    aaaa"));
    assert_eq!("aaaa", extract_description_from_markdown("\n    ![](img.png)\n    aaaa"));
    assert_eq!("a 'aa' a", extract_description_from_markdown("a \"aa\" a"));
    assert_eq!("", extract_description_from_markdown(""));
}

#[test]
fn extract_description_strips_markdown() {
    assert_eq!("bold and code", extract_description_from_markdown("**bold** and `code`"));
    assert_eq!("a link", extract_description_from_markdown("\n# Title\n[a link](https://example.com)"));
}
