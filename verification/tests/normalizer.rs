use icon_registry::normalize::{
    build_attributes, check_literal_slots, check_reserved, embed, lacks_colour, splice, split_root, MarkupError,
    NormalizedFragment, Normalizer,
};

const LICENSE: &str = "From https://github.com/feathericons/feather - Licensed under MIT";

const PARAMETERS: &str = " width={width.clone()} height={height.clone()} onclick={onclick.clone()} oncontextmenu={oncontextmenu.clone()} class={class.clone()} style={style.clone()}";

const TITLE_SLOT: &str = "if let Some(title) = title.clone() { <title>{title}</title> }";

fn normalizer() -> Normalizer {
    Normalizer::new().unwrap()
}

fn chars(text: &str) -> Vec<char> {
    text.chars().collect()
}

fn text(chars: Vec<char>) -> String {
    chars.into_iter().collect()
}

fn attributes(default_fill: bool) -> String {
    format!(
        r#"xmlns="http://www.w3.org/2000/svg" data-license="{}"{}{}"#,
        LICENSE,
        PARAMETERS,
        if default_fill { r#" fill="currentColor""# } else { "" }
    )
}

#[test]
fn the_patterns_compile() {
    assert!(Normalizer::new().is_some());
}

#[test]
fn root_tag_gets_parameters_in_place_of_size() {
    let fragment = normalizer()
        .normalize(r#"<svg width="24" height="24"><path d="M1 1"/></svg>"#, LICENSE)
        .unwrap();
    assert!(!fragment.root_tag.contains(r#"width="24""#));
    assert!(!fragment.root_tag.contains(r#"height="24""#));
    assert!(fragment.root_tag.contains("width={width.clone()}"));
    assert!(fragment.root_tag.contains("height={height.clone()}"));
    assert!(fragment.root_tag.contains("onclick={onclick.clone()}"));
    assert!(fragment.root_tag.contains("oncontextmenu={oncontextmenu.clone()}"));
    assert!(fragment.root_tag.contains("class={class.clone()}"));
    assert!(fragment.root_tag.contains("style={style.clone()}"));
    assert!(fragment.root_tag.contains(&format!(r#"data-license="{}""#, LICENSE)));
    assert!(fragment.root_tag.contains(r#"fill="currentColor""#));
    assert_eq!(fragment.root_tag, format!("<svg {}>", attributes(true)));
    assert_eq!(fragment.body, r#"<path d="M1 1"/></svg>"#);
}

#[test]
fn namespace_declaration_is_replaced_by_the_attributes() {
    let fragment = normalizer()
        .normalize(
            r#"<svg xmlns="http://www.w3.org/2000/svg" width="24" height="24" viewBox="0 0 24 24" fill="none" stroke="currentColor"><path d="M1 1"/></svg>"#,
            LICENSE,
        )
        .unwrap();
    assert_eq!(
        fragment.root_tag,
        format!(
            r#"<svg {} viewBox="0 0 24 24" fill="none" stroke="currentColor">"#,
            attributes(false)
        )
    );
    assert_eq!(
        fragment.text(),
        format!("{}{}{}", fragment.root_tag, TITLE_SLOT, r#"<path d="M1 1"/></svg>"#)
    );
}

#[test]
fn fragment_text_is_tag_title_slot_and_body() {
    let fragment = NormalizedFragment { root_tag: "<a>".to_string(), body: "<b/></a>".to_string() };
    assert_eq!(fragment.text(), format!("<a>{}<b/></a>", TITLE_SLOT));
}

#[test]
fn icon_without_colour_gets_the_default_fill() {
    let fragment = normalizer()
        .normalize(
            r#"<svg xmlns="http://www.w3.org/2000/svg" viewBox="0 0 16 16"><path d="M1 1"/></svg>"#,
            LICENSE,
        )
        .unwrap();
    assert_eq!(fragment.root_tag, format!(r#"<svg {} viewBox="0 0 16 16">"#, attributes(true)));
}

#[test]
fn icon_with_a_fill_in_its_body_gets_no_default_fill() {
    let fragment = normalizer()
        .normalize(
            r##"<svg xmlns="http://www.w3.org/2000/svg" viewBox="0 0 16 16"><path fill="#fff" d="M1 1"/></svg>"##,
            LICENSE,
        )
        .unwrap();
    assert_eq!(fragment.root_tag, format!(r#"<svg {} viewBox="0 0 16 16">"#, attributes(false)));
    assert!(!fragment.root_tag.contains(r#"fill="currentColor""#));
}

#[test]
fn icon_with_a_stroke_gets_no_default_fill() {
    let fragment = normalizer()
        .normalize(
            r##"<svg xmlns="http://www.w3.org/2000/svg"><path stroke="#000" d="M1 1"/></svg>"##,
            LICENSE,
        )
        .unwrap();
    assert_eq!(fragment.root_tag, format!("<svg {}>", attributes(false)));
}

#[test]
fn plain_class_attributes_are_stripped() {
    let fragment = normalizer()
        .normalize(
            r#"<svg xmlns="http://www.w3.org/2000/svg" class="bi bi-alarm" viewBox="0 0 16 16"><path d="M1 1"/></svg>"#,
            LICENSE,
        )
        .unwrap();
    assert_eq!(fragment.root_tag, format!(r#"<svg {}  viewBox="0 0 16 16">"#, attributes(true)));
}

#[test]
fn reappearing_class_is_refused() {
    let result = normalizer().normalize(
        r#"<svg clasclass="a"s="icon"><path d="M1 1"/></svg>"#,
        LICENSE,
    );
    assert!(matches!(result, Err(MarkupError::ExistingClass)));
}

#[test]
fn title_attribute_is_refused() {
    let result =
        normalizer().normalize(r#"<svg title="alarm"><path d="M1 1"/></svg>"#, LICENSE);
    assert!(matches!(result, Err(MarkupError::ExistingTitle)));
}

#[test]
fn title_is_reported_before_class() {
    let result = normalizer()
        .normalize(r#"<svg class="a.b" title="alarm"><path d="M1 1"/></svg>"#, LICENSE);
    assert!(matches!(result, Err(MarkupError::ExistingTitle)));
}

#[test]
fn markup_without_closing_bracket_is_refused() {
    let result = normalizer().normalize(r#"<svg viewBox="0 0 16 16""#, LICENSE);
    assert!(matches!(result, Err(MarkupError::UnclosedRootTag)));
}

#[test]
fn root_tag_of_five_bytes_is_refused() {
    let result = normalizer().normalize(r#"<svg><path d="M1 1"/></svg>"#, LICENSE);
    assert!(matches!(result, Err(MarkupError::RootTagTooShort)));
}

#[test]
fn root_tag_of_six_bytes_is_accepted() {
    let fragment = normalizer().normalize(r#"<svg ><path d="M1 1"/></svg>"#, LICENSE).unwrap();
    assert_eq!(fragment.root_tag, format!("<svg  {}>", attributes(true)));
}

#[test]
fn fragment_that_is_no_token_stream_is_refused() {
    let result = normalizer().normalize(r#"<svg x="1"><path d="M1 1/></svg>"#, LICENSE);
    assert!(matches!(result, Err(MarkupError::Unparsable)));
}

#[test]
fn comment_is_removed_and_path_kept() {
    let fragment = normalizer()
        .normalize(
            r#"<svg xmlns="http://www.w3.org/2000/svg"><!-- comment --><path d="M2 2"/></svg>"#,
            LICENSE,
        )
        .unwrap();
    assert_eq!(fragment.body, r#"<path d="M2 2"/></svg>"#);
}

#[test]
fn file_of_comment_and_path_keeps_the_path() {
    let fragment =
        normalizer().normalize(r#"<!-- comment --><path d="M2 2"/>"#, LICENSE).unwrap();
    assert_eq!(fragment.body, r#"<path d="M2 2"/>"#);
}

#[test]
fn title_and_description_elements_are_removed() {
    let fragment = normalizer()
        .normalize(
            r#"<svg xmlns="http://www.w3.org/2000/svg"><title>Alarm</title><desc>A clock</desc><path d="M2 2"/></svg>"#,
            LICENSE,
        )
        .unwrap();
    assert_eq!(fragment.body, r#"<path d="M2 2"/></svg>"#);
}

#[test]
fn bare_text_is_quoted_and_braced() {
    let body = normalizer().rewrite_body("<text>Hello World</text>");
    assert_eq!(body, r#"<text>{"Hello World"}</text>"#);
}

#[test]
fn size_is_stripped_once_from_the_root_tag() {
    let tag = normalizer()
        .strip_size(&chars(r#"<svg width="1em" height="1em" stroke-width="2" width="3">"#));
    assert_eq!(text(tag), r#"<svg stroke-width="2" width="3">"#);
}

#[test]
fn root_tag_without_size_is_left_alone() {
    let tag = normalizer().strip_size(&chars(r#"<svg stroke-width="2">"#));
    assert_eq!(text(tag), r#"<svg stroke-width="2">"#);
}

#[test]
fn clip_path_reference_is_stripped() {
    let fragment = normalizer()
        .normalize(
            r##"<svg xmlns="http://www.w3.org/2000/svg"><g clip-path="url(#a)" fill="red"><path d="M2 2"/></g></svg>"##,
            LICENSE,
        )
        .unwrap();
    assert_eq!(fragment.body, r#"<g  fill="red"><path d="M2 2"/></g></svg>"#);
}

#[test]
fn literal_rewrites_make_markup_embeddable() {
    let markup = embed(&chars(
        r##"<?xml version="1.0" encoding="UTF-8"?><svg xmlns:xlink="http://www.w3.org/1999/xlink"><clipPath id="a"><use xlink:href="#b"/></clipPath></svg>"##,
    ));
    assert_eq!(text(markup), r##"<svg ><clippath id="a"><use href="#b"/></clippath></svg>"##);
}

#[test]
fn standalone_prologue_is_stripped() {
    let markup = embed(&chars(
        r#"<?xml version="1.0" encoding="UTF-8" standalone="no"?><svg></svg>"#,
    ));
    assert_eq!(text(markup), "<svg></svg>");
}

#[test]
fn reserved_attributes_are_found() {
    assert_eq!(check_reserved(&chars("<svg>")), Ok(()));
    assert_eq!(check_reserved(&chars("<svg title=>")), Err(MarkupError::ExistingTitle));
    assert_eq!(check_reserved(&chars("<svg class=>")), Err(MarkupError::ExistingClass));
    assert_eq!(check_reserved(&chars("<svg class= title=>")), Err(MarkupError::ExistingTitle));
}

#[test]
fn markup_is_cut_after_its_first_closing_bracket() {
    let (tag, body) = split_root(&chars("<svg a>b>c")).unwrap();
    assert_eq!(text(tag), "<svg a>");
    assert_eq!(text(body), "b>c");
    assert_eq!(split_root(&chars("<svg a")), Err(MarkupError::UnclosedRootTag));
    assert_eq!(split_root(&chars("<svg>b")), Err(MarkupError::RootTagTooShort));
}

#[test]
fn root_tag_length_counts_bytes() {
    let (tag, _) = split_root(&chars("<\u{e9}\u{e9}>")).unwrap();
    assert_eq!(text(tag), "<\u{e9}\u{e9}>");
    assert_eq!(split_root(&chars("<\u{e9}a>")), Err(MarkupError::RootTagTooShort));
}

#[test]
fn colour_is_looked_for_in_the_whole_markup() {
    assert!(lacks_colour(&chars(r#"<svg><path d="M1 1"/></svg>"#)));
    assert!(!lacks_colour(&chars(r#"<svg fill="none"><path d="M1 1"/></svg>"#)));
    assert!(!lacks_colour(&chars(r#"<svg><path stroke="red"/></svg>"#)));
}

#[test]
fn attributes_hold_namespace_license_and_parameters() {
    assert_eq!(text(build_attributes(&chars(LICENSE), false)), attributes(false));
    assert_eq!(text(build_attributes(&chars(LICENSE), true)), attributes(true));
}

#[test]
fn attributes_go_before_the_closing_bracket_without_namespace() {
    assert_eq!(text(splice(&chars("<svg a>"), &chars("x=1"))), "<svg a x=1>");
    assert_eq!(text(splice(&chars("<svg a"), &chars("x=1"))), "<svg a x=1");
}

#[test]
fn attributes_replace_the_namespace() {
    assert_eq!(
        text(splice(&chars(r#"<svg xmlns="http://www.w3.org/2000/svg" a>"#), &chars("x=1"))),
        "<svg x=1 a>"
    );
}

#[test]
fn accepted_fragment_holds_no_literal_class_or_title() {
    let fragment = normalizer()
        .normalize(
            r#"<svg xmlns="http://www.w3.org/2000/svg" width="16" height="16" fill="currentColor" class="bi bi-alarm" viewBox="0 0 16 16"><title>Alarm</title><path class="a" d="M8.5 5.5a.5.5 0 0 0-1 0v3.362l-1.429 2.38a.5.5 0 1 0 .858.515l1.5-2.5A.5.5 0 0 0 8.5 9V5.5z"/></svg>"#,
            LICENSE,
        )
        .unwrap();
    let text = fragment.text();
    assert!(!text.contains(r#"class=""#));
    assert!(!text.contains(r#"title=""#));
    assert!(text.contains("class={class.clone()}"));
}

#[test]
fn class_joined_by_a_removed_comment_is_refused() {
    let result = normalizer().normalize(
        r#"<svg xmlns="http://www.w3.org/2000/svg"><path cla<!--x-->ss="a" d="M1 1"/></svg>"#,
        LICENSE,
    );
    assert!(matches!(result, Err(MarkupError::ExistingClass)));
}

#[test]
fn title_joined_by_a_removed_comment_is_refused() {
    let result = normalizer().normalize(
        r#"<svg xmlns="http://www.w3.org/2000/svg"><path ti<!--x-->tle="a" cla<!--y-->ss="b" d="M1 1"/></svg>"#,
        LICENSE,
    );
    assert!(matches!(result, Err(MarkupError::ExistingTitle)));
}

#[test]
fn class_joined_by_a_removed_prologue_is_refused() {
    let result = normalizer().normalize(
        r#"<svg xmlns="http://www.w3.org/2000/svg" cl<?xml version="1.0" encoding="UTF-8"?>ass="big"><path d="M1 1"/></svg>"#,
        LICENSE,
    );
    assert!(matches!(result, Err(MarkupError::ExistingClass)));
}

#[test]
fn license_with_a_literal_title_is_refused() {
    let result = normalizer().normalize(
        r#"<svg xmlns="http://www.w3.org/2000/svg"><path d="M1 1"/></svg>"#,
        r#"MIT" title="x"#,
    );
    assert!(matches!(result, Err(MarkupError::ExistingTitle)));
}

#[test]
fn literal_slots_are_found() {
    assert_eq!(check_literal_slots(&chars("<svg class={class.clone()}><title>{title}</title>")), Ok(()));
    assert_eq!(check_literal_slots(&chars(r#"<svg class="a">"#)), Err(MarkupError::ExistingClass));
    assert_eq!(check_literal_slots(&chars(r#"<svg title="a">"#)), Err(MarkupError::ExistingTitle));
    assert_eq!(
        check_literal_slots(&chars(r#"<svg class="a" title="b">"#)),
        Err(MarkupError::ExistingTitle)
    );
}
