//! The markup parser. What it returns is taken on trust: the items of this
//! file state what `scraper` does, and nothing here is proved.

use vstd::prelude::*;
use vstd::utf8::encode_utf8;
use scraper::{ElementRef, Html, Selector};

verus! {

/// `scraper::Html`: the tree of a parsed fragment. Nothing is known of what
/// is in it but through the functions below.
#[verifier::external_type_specification]
#[verifier::external_body]
pub struct ExHtml(Html);

/// `scraper::Selector`: a parsed group of CSS selectors.
#[verifier::external_type_specification]
#[verifier::external_body]
pub struct ExSelector(Selector);

/// `scraper::ElementRef`: an element of a tree.
#[verifier::external_type_specification]
#[verifier::external_body]
pub struct ExElementRef<'a>(ElementRef<'a>);

/// The longest markup, in bytes, that is handed to the parser. The parser
/// holds the length of every buffer in 32 bits: it asserts that its input
/// fits, and it grows the buffer of a text to the next power of two, which
/// must fit too. A byte of markup becomes three bytes of text at most, so
/// with markup of this length no buffer reaches 2^31 bytes.
pub const MAX_MARKUP_BYTES: usize = 0x2000_0000;

/// The number of bytes that `markup` takes as a string.
pub open spec fn byte_len(markup: Seq<char>) -> nat {
    encode_utf8(markup).len()
}

/// The tree that `Html::parse_fragment` builds from `markup`.
pub uninterp spec fn fragment_tree(markup: Seq<char>) -> Html;

/// What `Selector::parse` makes of `css`: the selector, or nothing where
/// `css` is refused.
pub uninterp spec fn selector_for(css: Seq<char>) -> Option<Selector>;

/// The elements that `Html::select` yields for `selector` in `tree`, in the
/// order in which it yields them.
pub uninterp spec fn fragment_matches(tree: Html, selector: Selector) -> Seq<ElementRef<'static>>;

/// The elements that `ElementRef::select` yields for `selector` below
/// `scope`, in the order in which it yields them.
pub uninterp spec fn element_matches(scope: ElementRef<'static>, selector: Selector) -> Seq<ElementRef<'static>>;

/// The texts that `ElementRef::text` yields for `element`, in the order in
/// which it yields them.
pub uninterp spec fn element_texts(element: ElementRef<'static>) -> Seq<Seq<char>>;

/// `Html::parse_fragment`. Markup of more than [`MAX_MARKUP_BYTES`] bytes
/// is kept out: on longer markup the parser's buffer arithmetic may
/// overflow, and it panics where it does. Markup that is not well formed
/// gives a tree all the same. The tree depends on the markup alone.
#[verifier::external_body]
pub(crate) fn parse_fragment(markup: &str) -> (tree: Html)
    requires
        byte_len(markup@) <= MAX_MARKUP_BYTES,
    ensures
        tree == fragment_tree(markup@),
{
    Html::parse_fragment(markup)
}

/// `Selector::parse`. The outcome depends on `css` alone; nothing is said
/// of which texts are selectors.
#[verifier::external_body]
pub(crate) fn parse_selector(css: &str) -> (selector: Option<Selector>)
    ensures
        selector == selector_for(css@),
{
    Selector::parse(css).ok()
}

/// `Html::select`, its items gathered in the order in which they come. They
/// depend on the tree and the selector alone.
#[verifier::external_body]
pub(crate) fn select_in_fragment<'a>(tree: &'a Html, selector: &Selector) -> (found: Vec<
    ElementRef<'a>,
>)
    ensures
        found@ == fragment_matches(*tree, *selector),
{
    tree.select(selector).collect()
}

/// `ElementRef::select`, its items gathered in the order in which they
/// come. They depend on the element and the selector alone.
#[verifier::external_body]
pub(crate) fn select_in_element<'a>(scope: &ElementRef<'a>, selector: &Selector) -> (found: Vec<
    ElementRef<'a>,
>)
    ensures
        found@ == element_matches(*scope, *selector),
{
    scope.select(selector).collect()
}

/// `ElementRef::text`, its items gathered in the order in which they come,
/// each as a string of its own. They depend on the element alone.
#[verifier::external_body]
pub(crate) fn text_of(element: &ElementRef<'_>) -> (texts: Vec<String>)
    ensures
        texts@.map_values(|text: String| text@) == element_texts(*element),
{
    element.text().map(|text| text.to_owned()).collect()
}

} // verus!
