use zine::code_blocks::{CalloutBlock, Fenced};
use zine::options::OptionMap;

#[test]
fn test_parse_colors() {
    let fenced = Fenced::parse("callout, theme: red").unwrap();
    let callout = CalloutBlock::new(fenced.options, "dummy");
    assert_eq!(callout.bg_color, "#fde2e2");
    assert_eq!(callout.border_color, "#f98e8b");

    let fenced = Fenced::parse("callout, theme: red, bg_color: #123456").unwrap();
    let callout = CalloutBlock::new(fenced.options, "dummy");
    assert_eq!(callout.bg_color, "#123456");
    assert_eq!(callout.border_color, "#f98e8b");
}

#[test]
fn mod_test_fenced_parsing() {
    assert_eq!(Fenced::parse("").unwrap(), Fenced::empty());
    assert_eq!(Fenced::parse(",").unwrap(), Fenced::empty());

    let fenced = Fenced::parse("callout,").unwrap();
    assert_eq!(fenced.name, "callout");
    assert_eq!(fenced.options, OptionMap::new());

    let fenced = Fenced::parse("callout, bg_color: #123456, border-color: #abcdef").unwrap();
    assert_eq!(fenced.name, "callout");

    let options = fenced.options;
    assert_eq!(options.get("bg_color").unwrap(), "#123456");
    assert_eq!(options.get("border_color").unwrap(), "#abcdef");

    let fenced = Fenced::parse("callout, bg_color #123456, border-color: #abcdef").unwrap();
    assert!(fenced.is_custom_code_block());
    assert_eq!(fenced.name, "callout");

    let options = fenced.options;
    assert_eq!(options.get("bg_color"), None);
    assert_eq!(options.get("border_color").unwrap(), "#abcdef");

    let fenced = Fenced::parse("rust").unwrap();
    assert!(!fenced.is_custom_code_block());
}

#[test]
fn fenced_test_fenced_parsing() {
    assert_eq!(Fenced::parse("").unwrap(), Fenced::empty());
    assert_eq!(Fenced::parse(",").unwrap(), Fenced::empty());

    let fenced = Fenced::parse("highlight,").unwrap();
    assert_eq!(fenced.name, "highlight");
    assert_eq!(fenced.options, OptionMap::new());

    let fenced = Fenced::parse("highlight, bg_color: #123456, outline_color: #abcdef").unwrap();
    assert_eq!(fenced.name, "highlight");

    let options = fenced.options;
    assert_eq!(options.get("bg_color").unwrap(), "#123456");
    assert_eq!(options.get("outline_color").unwrap(), "#abcdef");

    let fenced = Fenced::parse("highlight, bg_color #123456, outline_color: #abcdef").unwrap();
    assert_eq!(fenced.name, "highlight");

    let options = fenced.options;
    assert_eq!(options.get("bg_color"), None);
    assert_eq!(options.get("outline_color").unwrap(), "#abcdef");
}
