//! The page that the server hands out: a fixed template, with a fragment
//! of filler text put in immediately before the closing body tag.

use crate::bytes::append_bytes;
use crate::decimal::{lemma_parse_inverts_numeral, numeral, parse_spec, render};
use crate::search::{
    insertion_point, lemma_occurrence_has_first, lemma_splice_keeps_marker, occurs, occurs_at,
    splice_before, splice_spec,
};
use vstd::prelude::*;
use vstd::slice::slice_subrange;
use vstd::string::*;

verus! {

/// The template up to the closing body tag.
pub const PAGE_HEAD: &'static str = "<!DOCTYPE html>
<html>
<head>
<title>Random Page!</title>
<style>
    body {
        width: 35em;
        margin: 0 auto;
        font-family: Tahoma, Verdana, Arial, sans-serif;
    }
</style>
</head>
<body>
<h1>Random Page!</h1>
<p>This is a random page generated by Random Page Server.</p>
";

/// The closing body tag, in front of which the fragment goes.
pub const CLOSING_TAG: &'static str = "</body>";

/// The template behind the closing body tag.
pub const PAGE_TAIL: &'static str = "
</html>";

/// What the fragment begins with, up to the reported size.
pub const FRAGMENT_OPENING: &'static str = "<p>Page size: ";

/// What stands between the reported size and the embedded filler text.
pub const FRAGMENT_MIDDLE: &'static str = " Bytes</p><p>";

/// What the fragment ends with.
pub const FRAGMENT_CLOSING: &'static str = "</p>";

/// The bytes of the closing body tag.
pub open spec fn closing_tag_spec() -> Seq<u8> {
    CLOSING_TAG.spec_bytes()
}

/// The bytes of the template: the page without its fragment.
pub open spec fn template_spec() -> Seq<u8> {
    PAGE_HEAD.spec_bytes() + closing_tag_spec() + PAGE_TAIL.spec_bytes()
}

/// The fragment that embeds the first `k` bytes of `filler`: a paragraph
/// that reports `k` as a decimal numeral, then a paragraph that holds those
/// bytes.
pub open spec fn fragment_spec(filler: Seq<u8>, k: nat) -> Seq<u8> {
    FRAGMENT_OPENING.spec_bytes() + numeral(k) + FRAGMENT_MIDDLE.spec_bytes() + filler.take(
        k as int,
    ) + FRAGMENT_CLOSING.spec_bytes()
}

/// The page that embeds the first `k` bytes of `filler`: the template with
/// the fragment put in at the leftmost closing body tag.
pub open spec fn page_spec(filler: Seq<u8>, k: nat) -> Seq<u8> {
    splice_spec(template_spec(), closing_tag_spec(), fragment_spec(filler, k))
}

/// The template holds the closing body tag.
pub proof fn lemma_template_has_closing_tag()
    ensures
        occurs(template_spec(), closing_tag_spec()),
{
    let at = PAGE_HEAD.spec_bytes().len() as int;
    assert(template_spec().subrange(at, at + closing_tag_spec().len()) =~= closing_tag_spec());
    assert(occurs_at(template_spec(), closing_tag_spec(), at));
}

/// Every page holds its fragment, with the closing body tag immediately
/// behind it.
pub proof fn lemma_fragment_precedes_closing_tag(filler: Seq<u8>, k: nat)
    ensures
        occurs_at(
            page_spec(filler, k),
            fragment_spec(filler, k),
            insertion_point(template_spec(), closing_tag_spec()),
        ),
        occurs_at(
            page_spec(filler, k),
            closing_tag_spec(),
            insertion_point(template_spec(), closing_tag_spec()) + fragment_spec(filler, k).len(),
        ),
        occurs(page_spec(filler, k), closing_tag_spec()),
{
    lemma_template_has_closing_tag();
    lemma_splice_keeps_marker(template_spec(), closing_tag_spec(), fragment_spec(filler, k));
}

/// A page is as long as the template and its fragment together.
pub proof fn lemma_page_len(filler: Seq<u8>, k: nat)
    ensures
        page_spec(filler, k).len() == template_spec().len() + fragment_spec(filler, k).len(),
{
    lemma_template_has_closing_tag();
    let some = choose|at: int| occurs_at(template_spec(), closing_tag_spec(), at);
    lemma_occurrence_has_first(template_spec(), closing_tag_spec(), some);
}

/// The size that a fragment reports is the number of bytes that it embeds:
/// behind the opening stands a numeral that reads as `k`, and behind the
/// middle stand the first `k` bytes of the filler text, and then the closing.
pub proof fn lemma_fragment_reports_its_size(filler: Seq<u8>, k: nat)
    requires
        k <= filler.len(),
    ensures
        ({
            let fragment = fragment_spec(filler, k);
            let digits_from = FRAGMENT_OPENING.spec_bytes().len() as int;
            let digits_to = digits_from + numeral(k).len();
            let text_from = digits_to + FRAGMENT_MIDDLE.spec_bytes().len();
            let text_to = text_from + k;
            &&& fragment.len() == text_to + FRAGMENT_CLOSING.spec_bytes().len()
            &&& fragment.subrange(0, digits_from) == FRAGMENT_OPENING.spec_bytes()
            &&& parse_spec(fragment.subrange(digits_from, digits_to), k) == Some(k)
            &&& fragment.subrange(digits_to, text_from) == FRAGMENT_MIDDLE.spec_bytes()
            &&& fragment.subrange(text_from, text_to) == filler.take(k as int)
            &&& fragment.subrange(text_to, fragment.len() as int)
                == FRAGMENT_CLOSING.spec_bytes()
        }),
{
    let fragment = fragment_spec(filler, k);
    let digits_from = FRAGMENT_OPENING.spec_bytes().len() as int;
    let digits_to = digits_from + numeral(k).len();
    let text_from = digits_to + FRAGMENT_MIDDLE.spec_bytes().len();
    let text_to = text_from + k;
    lemma_parse_inverts_numeral(k, k);
    assert(fragment.subrange(0, digits_from) =~= FRAGMENT_OPENING.spec_bytes());
    assert(fragment.subrange(digits_from, digits_to) =~= numeral(k));
    assert(fragment.subrange(digits_to, text_from) =~= FRAGMENT_MIDDLE.spec_bytes());
    assert(fragment.subrange(text_from, text_to) =~= filler.take(k as int));
    assert(fragment.subrange(text_to, fragment.len() as int) =~= FRAGMENT_CLOSING.spec_bytes());
}

/// The template: the page without its fragment.
pub fn page_template() -> (template: Vec<u8>)
    ensures
        template@ == template_spec(),
{
    let mut template: Vec<u8> = Vec::new();
    append_bytes(&mut template, PAGE_HEAD.as_bytes());
    append_bytes(&mut template, CLOSING_TAG.as_bytes());
    append_bytes(&mut template, PAGE_TAIL.as_bytes());
    template
}

/// The fragment that embeds the first `k` bytes of `filler` and reports `k`.
pub fn render_fragment(filler: &[u8], k: usize) -> (fragment: Vec<u8>)
    requires
        k <= filler@.len(),
    ensures
        fragment@ == fragment_spec(filler@, k as nat),
{
    let mut fragment: Vec<u8> = Vec::new();
    append_bytes(&mut fragment, FRAGMENT_OPENING.as_bytes());
    let digits = render(k);
    append_bytes(&mut fragment, digits.as_slice());
    append_bytes(&mut fragment, FRAGMENT_MIDDLE.as_bytes());
    append_bytes(&mut fragment, slice_subrange(filler, 0, k));
    append_bytes(&mut fragment, FRAGMENT_CLOSING.as_bytes());
    assert(filler@.subrange(0, k as int) =~= filler@.take(k as int));
    fragment
}

/// The page that embeds the first `k` bytes of `filler`: the template, with
/// the fragment put in immediately before the closing body tag.
pub fn render_page(filler: &[u8], k: usize) -> (page: Vec<u8>)
    requires
        k <= filler@.len(),
    ensures
        page@ == page_spec(filler@, k as nat),
{
    let template = page_template();
    let fragment = render_fragment(filler, k);
    splice_before(template.as_slice(), CLOSING_TAG.as_bytes(), fragment.as_slice())
}

} // verus!
