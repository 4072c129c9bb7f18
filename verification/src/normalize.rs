//! The markup normalizer: an ordered list of textual rewrites that turns one
//! icon's raw markup into a fragment the template engine accepts, with the
//! root tag's attributes bound to template parameters. No fragment that it
//! returns sets a class or a title itself.

use crate::pattern::{compile, pattern_compiles, pattern_of, replace_all, replace_first};
use crate::pattern::{replaced_all, replaced_first};
use crate::text::{append, chars_of, contains, position, replace, slice, string_of};
use crate::text::{first_index, has_substring, occurs_at, replaced};
use crate::text::lemma_replaced_holds_replacement;
use crate::tokens::{is_lexable, lexes};
use regex::Regex;
use vstd::prelude::*;
use vstd::utf8::encode_utf8;

verus! {

/// Matches a `class` attribute with a plain value.
pub const CLASS_PATTERN: &'static str = r#"class="[A-Za-z0-9-_ ]*""#;

/// Matches a `clip-path` attribute that refers to an element of the same
/// document, with the space that follows it.
pub const CLIP_PATH_PATTERN: &'static str = r##"clip-path="url\(#.+\)" "##;

/// Matches a `width` attribute, with the character that precedes it.
pub const WIDTH_PATTERN: &'static str = r#"[^-]width="[0-9a-z]*""#;

/// Matches a `height` attribute, with the character that precedes it.
pub const HEIGHT_PATTERN: &'static str = r#"[^-]height="[0-9a-z]*""#;

/// Matches a `title` element.
pub const TITLE_PATTERN: &'static str = r#"<title>.+</title>"#;

/// Matches a `desc` element.
pub const DESC_PATTERN: &'static str = r#"<desc>.+</desc>"#;

/// Matches a comment.
pub const COMMENT_PATTERN: &'static str = r#"<!--(.*?)-->"#;

/// Matches a run of letters, spaces, dots and hyphens between two tags.
pub const TEXT_PATTERN: &'static str = r#">(\s*[a-zA-Z.\-]+[a-zA-Z. \-]*)<"#;

/// What a bare text node is replaced by: the text, quoted and braced.
pub const TEXT_REPLACEMENT: &'static str = r#">{"$1"}<"#;

/// The declaration of the SVG namespace, in whose place the template
/// parameters go.
pub const NAMESPACE: &'static str = r#"xmlns="http://www.w3.org/2000/svg""#;

/// What closes the attribute that holds the license, and the six template
/// parameters of the root tag.
pub const PARAMETERS: &'static str =
    r#"" width={width.clone()} height={height.clone()} onclick={onclick.clone()} oncontextmenu={oncontextmenu.clone()} class={class.clone()} style={style.clone()}"#;

/// What opens the attribute that holds the license.
pub const LICENSE_OPEN: &'static str = r#" data-license=""#;

/// The attribute that makes an icon without a colour of its own visible.
pub const DEFAULT_FILL: &'static str = r#" fill="currentColor""#;

/// What opens a `title` attribute with a literal value.
pub const TITLE_LITERAL: &'static str = r#"title=""#;

/// What opens a `class` attribute with a literal value.
pub const CLASS_LITERAL: &'static str = r#"class=""#;

/// The element that shows the title, where one was supplied.
pub const TITLE_SLOT: &'static str = "if let Some(title) = title.clone() { <title>{title}</title> }";

/// Why a markup is refused.
#[derive(Debug, Clone, Copy, PartialEq, Eq, Structural)]
pub enum MarkupError {
    /// A `title=` attribute is left after the `class` attributes were
    /// stripped, or the fragment holds a literal `title="`.
    ExistingTitle,
    /// A `class=` attribute is left after the `class` attributes were
    /// stripped, or the fragment holds a literal `class="`.
    ExistingClass,
    /// No `>` closes the root tag.
    UnclosedRootTag,
    /// The root tag takes five bytes or fewer.
    RootTagTooShort,
    /// The fragment cannot be read as template tokens.
    Unparsable,
}

/// The canonical markup of one icon.
pub struct NormalizedFragment {
    /// The opening tag of the root element, with the template parameters.
    pub root_tag: String,
    /// What follows the root tag, rewritten.
    pub body: String,
}

/// What a [`NormalizedFragment`] holds, as plain text.
pub struct FragmentView {
    pub root_tag: Seq<char>,
    pub body: Seq<char>,
}

impl FragmentView {
    /// The fragment as one text: the root tag, the element for the title and
    /// the body.
    pub open spec fn markup(self) -> Seq<char> {
        self.root_tag + TITLE_SLOT@ + self.body
    }
}

impl View for NormalizedFragment {
    type V = FragmentView;

    open spec fn view(&self) -> FragmentView {
        FragmentView { root_tag: self.root_tag@, body: self.body@ }
    }
}

/// The number of bytes that `text` takes.
pub open spec fn byte_len(text: Seq<char>) -> nat {
    encode_utf8(text).len()
}

/// The raw markup without its `class` attributes.
pub open spec fn class_stripped(raw: Seq<char>) -> Seq<char> {
    replaced_all(CLASS_PATTERN@, raw, ""@)
}

/// The attribute for which `markup` is refused, if it holds one: a title is
/// reported before a class.
pub open spec fn reserved_attribute(markup: Seq<char>) -> Option<MarkupError> {
    if has_substring(markup, "title="@) {
        Some(MarkupError::ExistingTitle)
    } else if has_substring(markup, "class="@) {
        Some(MarkupError::ExistingClass)
    } else {
        None
    }
}

/// The attribute with a literal value for which a fragment is refused, if it
/// holds one: title and class are slots of the template, and no fragment sets
/// them itself. A title is reported before a class.
pub open spec fn literal_slot(text: Seq<char>) -> Option<MarkupError> {
    if has_substring(text, TITLE_LITERAL@) {
        Some(MarkupError::ExistingTitle)
    } else if has_substring(text, CLASS_LITERAL@) {
        Some(MarkupError::ExistingClass)
    } else {
        None
    }
}

/// The literal rewrites that make a markup fit to be embedded: the XML
/// prologue goes, with or without `standalone`; `xlink:href` becomes `href`
/// and the declaration of its namespace goes; `clipPath` is spelled in lower
/// case.
pub open spec fn embedded(markup: Seq<char>) -> Seq<char> {
    let a = replaced(markup, r#"<?xml version="1.0" encoding="UTF-8"?>"#@, ""@);
    let b = replaced(a, r#"<?xml version="1.0" encoding="UTF-8" standalone="no"?>"#@, ""@);
    let c = replaced(b, "xlink:href"@, "href"@);
    let d = replaced(c, r#"xmlns:xlink="http://www.w3.org/1999/xlink""#@, ""@);
    let e = replaced(d, "<clipPath "@, "<clippath "@);
    replaced(e, "</clipPath>"@, "</clippath>"@)
}

/// The markup as it stands before it is cut into root tag and body.
pub open spec fn prepared(raw: Seq<char>) -> Seq<char> {
    embedded(replaced_all(CLIP_PATH_PATTERN@, class_stripped(raw), " "@))
}

/// The root tag of `markup`: everything up to and including the first `>`.
pub open spec fn root_tag_of(markup: Seq<char>) -> Seq<char> {
    markup.take(first_index(markup, '>') + 1)
}

/// The body of `markup`: everything after the first `>`.
pub open spec fn body_of(markup: Seq<char>) -> Seq<char> {
    markup.skip(first_index(markup, '>') + 1)
}

/// The root tag without its first `width` and its first `height` attribute.
pub open spec fn without_size(tag: Seq<char>) -> Seq<char> {
    let narrow = if has_substring(tag, " width="@) {
        replaced_first(WIDTH_PATTERN@, tag, ""@)
    } else {
        tag
    };
    if has_substring(narrow, " height="@) {
        replaced_first(HEIGHT_PATTERN@, narrow, ""@)
    } else {
        narrow
    }
}

/// The body without titles, descriptions and comments, and with its bare text
/// nodes quoted and braced.
pub open spec fn body_rewritten(body: Seq<char>) -> Seq<char> {
    let untitled = replaced_all(TITLE_PATTERN@, body, ""@);
    let undescribed = replaced_all(DESC_PATTERN@, untitled, ""@);
    let uncommented = replaced_all(COMMENT_PATTERN@, undescribed, ""@);
    replaced_all(TEXT_PATTERN@, uncommented, TEXT_REPLACEMENT@)
}

/// Whether `markup` sets no colour of its own: it holds neither `stroke=` nor
/// `fill=`, in its root tag or after it.
pub open spec fn needs_default_fill(markup: Seq<char>) -> bool {
    !has_substring(markup, "stroke="@) && !has_substring(markup, "fill="@)
}

/// The attributes that every root tag gets: the namespace, the license and
/// the six template parameters.
pub open spec fn base_attributes(license: Seq<char>) -> Seq<char> {
    NAMESPACE@ + LICENSE_OPEN@ + license + PARAMETERS@
}

/// The attributes that go into the root tag.
pub open spec fn root_attributes(license: Seq<char>, default_fill: bool) -> Seq<char> {
    if default_fill {
        base_attributes(license) + DEFAULT_FILL@
    } else {
        base_attributes(license)
    }
}

/// The root tag with `attributes` in place of each declaration of the
/// namespace; where it declares none, with a space and `attributes` before
/// its first `>`.
pub open spec fn spliced(tag: Seq<char>, attributes: Seq<char>) -> Seq<char> {
    if has_substring(tag, NAMESPACE@) {
        replaced(tag, NAMESPACE@, attributes)
    } else {
        let at = first_index(tag, '>');
        tag.take(at) + " "@ + attributes + tag.skip(at)
    }
}

/// The fragment that the rewrites make of a raw markup.
pub open spec fn fragment_of(raw: Seq<char>, license: Seq<char>) -> FragmentView {
    let markup = prepared(raw);
    FragmentView {
        root_tag: spliced(
            without_size(root_tag_of(markup)),
            root_attributes(license, needs_default_fill(markup)),
        ),
        body: body_rewritten(body_of(markup)),
    }
}

/// What normalizing gives: the fragment, or the first reason to refuse the
/// markup.
pub open spec fn normalized(raw: Seq<char>, license: Seq<char>) -> Result<
    FragmentView,
    MarkupError,
> {
    let markup = prepared(raw);
    if let Some(error) = reserved_attribute(class_stripped(raw)) {
        Err(error)
    } else if first_index(markup, '>') == markup.len() {
        Err(MarkupError::UnclosedRootTag)
    } else if byte_len(root_tag_of(markup)) <= 5 {
        Err(MarkupError::RootTagTooShort)
    } else if let Some(error) = literal_slot(fragment_of(raw, license).markup()) {
        Err(error)
    } else if !lexes(fragment_of(raw, license).markup()) {
        Err(MarkupError::Unparsable)
    } else {
        Ok(fragment_of(raw, license))
    }
}

/// The patterns of the normalizer are all accepted.
pub open spec fn patterns_compile() -> bool {
    &&& pattern_compiles(CLASS_PATTERN@)
    &&& pattern_compiles(CLIP_PATH_PATTERN@)
    &&& pattern_compiles(WIDTH_PATTERN@)
    &&& pattern_compiles(HEIGHT_PATTERN@)
    &&& pattern_compiles(TITLE_PATTERN@)
    &&& pattern_compiles(DESC_PATTERN@)
    &&& pattern_compiles(COMMENT_PATTERN@)
    &&& pattern_compiles(TEXT_PATTERN@)
}

/// Refuses a markup that holds a `title=` or a `class=` attribute.
pub fn check_reserved(markup: &Vec<char>) -> (r: Result<(), MarkupError>)
    ensures
        match reserved_attribute(markup@) {
            Some(error) => r == Err::<(), MarkupError>(error),
            None => r is Ok,
        },
{
    if contains(markup, &chars_of("title=")) {
        Err(MarkupError::ExistingTitle)
    } else if contains(markup, &chars_of("class=")) {
        Err(MarkupError::ExistingClass)
    } else {
        Ok(())
    }
}

/// Refuses a fragment that holds a `title` or a `class` attribute with a
/// literal value.
pub fn check_literal_slots(text: &Vec<char>) -> (r: Result<(), MarkupError>)
    ensures
        match literal_slot(text@) {
            Some(error) => r == Err::<(), MarkupError>(error),
            None => r is Ok,
        },
{
    if contains(text, &chars_of(TITLE_LITERAL)) {
        Err(MarkupError::ExistingTitle)
    } else if contains(text, &chars_of(CLASS_LITERAL)) {
        Err(MarkupError::ExistingClass)
    } else {
        Ok(())
    }
}

/// Carries out the literal rewrites.
pub fn embed(markup: &Vec<char>) -> (r: Vec<char>)
    ensures
        r@ == embedded(markup@),
{
    let empty = chars_of("");
    let a = replace(markup, &chars_of(r#"<?xml version="1.0" encoding="UTF-8"?>"#), &empty);
    let b = replace(
        &a,
        &chars_of(r#"<?xml version="1.0" encoding="UTF-8" standalone="no"?>"#),
        &empty,
    );
    let c = replace(&b, &chars_of("xlink:href"), &chars_of("href"));
    let d = replace(&c, &chars_of(r#"xmlns:xlink="http://www.w3.org/1999/xlink""#), &empty);
    let e = replace(&d, &chars_of("<clipPath "), &chars_of("<clippath "));
    replace(&e, &chars_of("</clipPath>"), &chars_of("</clippath>"))
}

/// Cuts a markup into its root tag and its body.
pub fn split_root(markup: &Vec<char>) -> (r: Result<(Vec<char>, Vec<char>), MarkupError>)
    ensures
        match r {
            Ok((tag, body)) => {
                &&& first_index(markup@, '>') < markup@.len()
                &&& byte_len(root_tag_of(markup@)) > 5
                &&& tag@ == root_tag_of(markup@)
                &&& body@ == body_of(markup@)
            },
            Err(error) => if first_index(markup@, '>') == markup@.len() {
                error == MarkupError::UnclosedRootTag
            } else {
                error == MarkupError::RootTagTooShort && byte_len(root_tag_of(markup@)) <= 5
            },
        },
{
    match position(markup, '>') {
        None => Err(MarkupError::UnclosedRootTag),
        Some(at) => {
            let tag = slice(markup, 0, at + 1);
            let body = slice(markup, at + 1, markup.len());
            assert(tag@ == root_tag_of(markup@));
            assert(body@ == body_of(markup@));
            if string_of(&tag).as_str().as_bytes().len() > 5 {
                Ok((tag, body))
            } else {
                Err(MarkupError::RootTagTooShort)
            }
        },
    }
}

/// Tells whether a markup sets no colour of its own.
pub fn lacks_colour(markup: &Vec<char>) -> (r: bool)
    ensures
        r == needs_default_fill(markup@),
{
    !contains(markup, &chars_of("stroke=")) && !contains(markup, &chars_of("fill="))
}

/// Builds the attributes that go into the root tag.
pub fn build_attributes(license: &Vec<char>, default_fill: bool) -> (r: Vec<char>)
    ensures
        r@ == root_attributes(license@, default_fill),
{
    let mut out = chars_of(NAMESPACE);
    append(&mut out, &chars_of(LICENSE_OPEN));
    append(&mut out, license);
    append(&mut out, &chars_of(PARAMETERS));
    if default_fill {
        append(&mut out, &chars_of(DEFAULT_FILL));
    }
    out
}

/// Puts the attributes into the root tag.
pub fn splice(tag: &Vec<char>, attributes: &Vec<char>) -> (r: Vec<char>)
    ensures
        r@ == spliced(tag@, attributes@),
{
    let namespace = chars_of(NAMESPACE);
    if contains(tag, &namespace) {
        replace(tag, &namespace, attributes)
    } else {
        let at = match position(tag, '>') {
            Some(at) => at,
            None => tag.len(),
        };
        let mut out = slice(tag, 0, at);
        append(&mut out, &chars_of(" "));
        append(&mut out, attributes);
        append(&mut out, &slice(tag, at, tag.len()));
        out
    }
}

impl NormalizedFragment {
    /// The fragment as one text.
    pub fn text(&self) -> (r: String)
        ensures
            r@ == self@.markup(),
    {
        let mut out = chars_of(self.root_tag.as_str());
        append(&mut out, &chars_of(TITLE_SLOT));
        append(&mut out, &chars_of(self.body.as_str()));
        string_of(&out)
    }
}

/// The compiled patterns of the rewrites.
pub struct Normalizer {
    class_attr: Regex,
    clip_path: Regex,
    width: Regex,
    height: Regex,
    title: Regex,
    desc: Regex,
    comment: Regex,
    text: Regex,
}

impl Normalizer {
    #[verifier::type_invariant]
    spec fn holds_its_patterns(self) -> bool {
        &&& pattern_of(self.class_attr) == CLASS_PATTERN@
        &&& pattern_of(self.clip_path) == CLIP_PATH_PATTERN@
        &&& pattern_of(self.width) == WIDTH_PATTERN@
        &&& pattern_of(self.height) == HEIGHT_PATTERN@
        &&& pattern_of(self.title) == TITLE_PATTERN@
        &&& pattern_of(self.desc) == DESC_PATTERN@
        &&& pattern_of(self.comment) == COMMENT_PATTERN@
        &&& pattern_of(self.text) == TEXT_PATTERN@
    }

    /// Compiles the patterns. There is no normalizer where one of them is
    /// refused.
    pub fn new() -> (r: Option<Normalizer>)
        ensures
            r is Some <==> patterns_compile(),
    {
        let class_attr = match compile(CLASS_PATTERN) {
            Ok(re) => re,
            Err(_) => { return None; },
        };
        let clip_path = match compile(CLIP_PATH_PATTERN) {
            Ok(re) => re,
            Err(_) => { return None; },
        };
        let width = match compile(WIDTH_PATTERN) {
            Ok(re) => re,
            Err(_) => { return None; },
        };
        let height = match compile(HEIGHT_PATTERN) {
            Ok(re) => re,
            Err(_) => { return None; },
        };
        let title = match compile(TITLE_PATTERN) {
            Ok(re) => re,
            Err(_) => { return None; },
        };
        let desc = match compile(DESC_PATTERN) {
            Ok(re) => re,
            Err(_) => { return None; },
        };
        let comment = match compile(COMMENT_PATTERN) {
            Ok(re) => re,
            Err(_) => { return None; },
        };
        let text = match compile(TEXT_PATTERN) {
            Ok(re) => re,
            Err(_) => { return None; },
        };
        Some(Normalizer { class_attr, clip_path, width, height, title, desc, comment, text })
    }

    /// Strips the first `width` and the first `height` attribute from a root
    /// tag that holds one.
    pub fn strip_size(&self, tag: &Vec<char>) -> (r: Vec<char>)
        ensures
            r@ == without_size(tag@),
    {
        proof {
            use_type_invariant(self);
        }
        let narrow = if contains(tag, &chars_of(" width=")) {
            chars_of(replace_first(&self.width, string_of(tag).as_str(), "").as_str())
        } else {
            slice(tag, 0, tag.len())
        };
        assert(tag@.subrange(0, tag@.len() as int) == tag@);
        if contains(&narrow, &chars_of(" height=")) {
            chars_of(replace_first(&self.height, string_of(&narrow).as_str(), "").as_str())
        } else {
            narrow
        }
    }

    /// Rewrites a body: titles, descriptions and comments go, bare text nodes
    /// are quoted and braced.
    pub fn rewrite_body(&self, body: &str) -> (r: String)
        ensures
            r@ == body_rewritten(body@),
    {
        proof {
            use_type_invariant(self);
        }
        let untitled = replace_all(&self.title, body, "");
        let undescribed = replace_all(&self.desc, untitled.as_str(), "");
        let uncommented = replace_all(&self.comment, undescribed.as_str(), "");
        replace_all(&self.text, uncommented.as_str(), TEXT_REPLACEMENT)
    }

    /// Normalizes one icon's raw markup.
    pub fn normalize(&self, raw: &str, license: &str) -> (r: Result<
        NormalizedFragment,
        MarkupError,
    >)
        ensures
            match r {
                Ok(fragment) => normalized(raw@, license@) == Ok::<FragmentView, MarkupError>(
                    fragment@,
                ),
                Err(error) => normalized(raw@, license@) == Err::<FragmentView, MarkupError>(
                    error,
                ),
            },
    {
        proof {
            use_type_invariant(self);
        }
        let stripped = replace_all(&self.class_attr, raw, "");
        match check_reserved(&chars_of(stripped.as_str())) {
            Err(error) => { return Err(error); },
            Ok(_) => {},
        }
        let unreferenced = replace_all(&self.clip_path, stripped.as_str(), " ");
        let markup = embed(&chars_of(unreferenced.as_str()));
        let (tag, body) = match split_root(&markup) {
            Err(error) => { return Err(error); },
            Ok(parts) => parts,
        };
        let attributes = build_attributes(&chars_of(license), lacks_colour(&markup));
        let fragment = NormalizedFragment {
            root_tag: string_of(&splice(&self.strip_size(&tag), &attributes)),
            body: self.rewrite_body(string_of(&body).as_str()),
        };
        let text = fragment.text();
        match check_literal_slots(&chars_of(text.as_str())) {
            Err(error) => { return Err(error); },
            Ok(_) => {},
        }
        if is_lexable(text.as_str()) {
            Ok(fragment)
        } else {
            Err(MarkupError::Unparsable)
        }
    }
}

/// No fragment that is accepted holds a literal `class="` or `title="`:
/// class and title stand in it as slots of the template only. The markup
/// that it was made of held neither a `title=` nor a `class=` once its plain
/// `class` attributes were stripped.
pub proof fn lemma_accepted_fragment_holds_no_literal_slot(raw: Seq<char>, license: Seq<char>)
    requires
        normalized(raw, license) is Ok,
    ensures
        !has_substring(normalized(raw, license)->Ok_0.markup(), CLASS_LITERAL@),
        !has_substring(normalized(raw, license)->Ok_0.markup(), TITLE_LITERAL@),
        !has_substring(class_stripped(raw), "title="@),
        !has_substring(class_stripped(raw), "class="@),
{
}

/// The attributes stand in the root tag that they were put into.
pub proof fn lemma_spliced_holds_attributes(tag: Seq<char>, attributes: Seq<char>)
    ensures
        has_substring(spliced(tag, attributes), attributes),
{
    reveal_strlit(r#"xmlns="http://www.w3.org/2000/svg""#);
    reveal_strlit(" ");
    if has_substring(tag, NAMESPACE@) {
        lemma_replaced_holds_replacement(tag, NAMESPACE@, attributes);
    } else {
        let at = first_index(tag, '>');
        crate::text::lemma_first_index(tag, '>', 0);
        let whole = spliced(tag, attributes);
        assert(whole.subrange(at + 1, at + 1 + attributes.len()) =~= attributes);
        assert(occurs_at(whole, attributes, at + 1));
    }
}

/// The default colour is put into the root tag of exactly the icons that set
/// no colour of their own: an icon whose markup holds neither `stroke=` nor
/// `fill=` gets the attributes that end with `fill="currentColor"`, and its
/// root tag holds that attribute; any other icon gets the attributes without
/// it.
pub proof fn lemma_default_fill_policy(raw: Seq<char>, license: Seq<char>)
    requires
        normalized(raw, license) is Ok,
    ensures
        ({
            let fragment = normalized(raw, license)->Ok_0;
            let tag = without_size(root_tag_of(prepared(raw)));
            if needs_default_fill(prepared(raw)) {
                &&& fragment.root_tag == spliced(tag, base_attributes(license) + DEFAULT_FILL@)
                &&& has_substring(fragment.root_tag, DEFAULT_FILL@)
            } else {
                fragment.root_tag == spliced(tag, base_attributes(license))
            }
        }),
{
    if needs_default_fill(prepared(raw)) {
        let tag = without_size(root_tag_of(prepared(raw)));
        let attributes = base_attributes(license) + DEFAULT_FILL@;
        let whole = spliced(tag, attributes);
        lemma_spliced_holds_attributes(tag, attributes);
        let at = choose|at: int| occurs_at(whole, attributes, at);
        let inner = at + base_attributes(license).len();
        assert(whole.subrange(inner, inner + DEFAULT_FILL@.len()) =~= attributes.subrange(
            base_attributes(license).len() as int,
            attributes.len() as int,
        ));
        assert(attributes.subrange(base_attributes(license).len() as int, attributes.len() as int)
            =~= DEFAULT_FILL@);
        assert(occurs_at(whole, DEFAULT_FILL@, inner));
    }
}

} // verus!
