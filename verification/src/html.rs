//! Selection of elements from HTML text, as the `scraper` crate performs it.

use vstd::prelude::*;

verus! {

/// What the `scraper` crate selects from `document` with the CSS selector
/// `selector`: for each matching element, in the order in which
/// `Html::select` yields them, the pair of its outer and its inner HTML.
/// `None` where `selector` is not a valid selector.
pub uninterp spec fn selected(document: Seq<char>, selector: Seq<char>) -> Option<Seq<(Seq<char>, Seq<char>)>>;

/// Parses `selector` with `scraper::Selector::parse` and `document` with
/// `scraper::Html::parse_document`, walks `Html::select`, and serialises each
/// match with `ElementRef::html` and `ElementRef::inner_html`. Nothing is
/// claimed of what is selected beyond its being fixed by the document and
/// the selector, which [`selected`] names.
#[verifier::external_body]
fn select(document: &str, selector: &str) -> (out: Option<Vec<(String, String)>>)
    ensures
        out.deep_view() == selected(document@, selector@),
{
    let parsed = scraper::Selector::parse(selector).ok()?;
    let tree = scraper::Html::parse_document(document);
    Some(tree.select(&parsed).map(|element| (element.html(), element.inner_html())).collect())
}

/// What the `scraper` crate selects in nested scopes of one parsed
/// `document`. For each element that matches `outer`, in the order of
/// `Html::select`: for each element among its descendants that matches
/// `middle`, in the order of `ElementRef::select`, the pair of that
/// element's outer and inner HTML, and the same pair for each element among
/// its descendants that matches `inner`. `None` where one of the three
/// selectors is not a valid selector.
pub uninterp spec fn selected_within(
    document: Seq<char>,
    outer: Seq<char>,
    middle: Seq<char>,
    inner: Seq<char>,
) -> Option<Seq<Seq<((Seq<char>, Seq<char>), Seq<(Seq<char>, Seq<char>)>)>>>;

/// Parses the three selectors with `scraper::Selector::parse` and `document`
/// with `scraper::Html::parse_document`, walks `Html::select` for `outer` and
/// `ElementRef::select` for `middle` and `inner`, and serialises each match
/// with `ElementRef::html` and `ElementRef::inner_html`. Nothing is claimed of
/// what is selected beyond its being fixed by the document and the
/// selectors, which [`selected_within`] names.
#[verifier::external_body]
fn select_within(document: &str, outer: &str, middle: &str, inner: &str) -> (out: Option<
    Vec<Vec<((String, String), Vec<(String, String)>)>>,
>)
    ensures
        out.deep_view() == selected_within(document@, outer@, middle@, inner@),
{
    let outer = scraper::Selector::parse(outer).ok()?;
    let middle = scraper::Selector::parse(middle).ok()?;
    let inner = scraper::Selector::parse(inner).ok()?;
    let tree = scraper::Html::parse_document(document);
    let text = |e: scraper::ElementRef| (e.html(), e.inner_html());
    let scoped = |e: scraper::ElementRef| (text(e), e.select(&inner).map(text).collect());
    Some(tree.select(&outer).map(|e| e.select(&middle).map(scoped).collect()).collect())
}

/// An element taken out of a document, as HTML text.
#[derive(Clone, Debug, PartialEq, Eq)]
pub struct Element {
    /// The element with its own tags.
    pub html: String,
    /// What stands between the element's tags.
    pub inner_html: String,
}

/// The mathematical value of an [`Element`].
pub struct ElementView {
    pub html: Seq<char>,
    pub inner_html: Seq<char>,
}

impl View for Element {
    type V = ElementView;

    open spec fn view(&self) -> ElementView {
        ElementView { html: self.html@, inner_html: self.inner_html@ }
    }
}

/// An element together with the elements selected among its descendants.
#[derive(Clone, Debug, PartialEq, Eq)]
pub struct Scoped {
    pub element: Element,
    pub within: Vec<Element>,
}

/// The mathematical value of a [`Scoped`].
pub struct ScopedView {
    pub element: ElementView,
    pub within: Seq<ElementView>,
}

impl View for Scoped {
    type V = ScopedView;

    open spec fn view(&self) -> ScopedView {
        ScopedView { element: self.element@, within: element_views(self.within@) }
    }
}

/// The views of a run of elements.
pub open spec fn element_views(found: Seq<Element>) -> Seq<ElementView> {
    found.map_values(|e: Element| e@)
}

/// The views of a run of scoped elements.
pub open spec fn scoped_views(found: Seq<Scoped>) -> Seq<ScopedView> {
    found.map_values(|s: Scoped| s@)
}

/// The views of the scoped elements of a run of scopes.
pub open spec fn scope_views(found: Seq<Vec<Scoped>>) -> Seq<Seq<ScopedView>> {
    found.map_values(|scope: Vec<Scoped>| scoped_views(scope@))
}

/// The element that a pair of outer and inner HTML stands for.
pub open spec fn element_of(pair: (Seq<char>, Seq<char>)) -> ElementView {
    ElementView { html: pair.0, inner_html: pair.1 }
}

/// The elements that a run of pairs stands for.
pub open spec fn elements_of(pairs: Seq<(Seq<char>, Seq<char>)>) -> Seq<ElementView> {
    pairs.map_values(|pair: (Seq<char>, Seq<char>)| element_of(pair))
}

/// The scoped element that a pair and the pairs selected within it stand
/// for.
pub open spec fn scoped_of(item: ((Seq<char>, Seq<char>), Seq<(Seq<char>, Seq<char>)>)) -> ScopedView {
    ScopedView { element: element_of(item.0), within: elements_of(item.1) }
}

/// The scoped elements that a run of items stands for.
pub open spec fn scope_of(items: Seq<((Seq<char>, Seq<char>), Seq<(Seq<char>, Seq<char>)>)>) -> Seq<
    ScopedView,
> {
    items.map_values(|item: ((Seq<char>, Seq<char>), Seq<(Seq<char>, Seq<char>)>)| scoped_of(item))
}

/// The elements of `document` that match `selector`, in selection order.
/// `None` where the selector is not valid.
pub open spec fn found(document: Seq<char>, selector: Seq<char>) -> Option<Seq<ElementView>> {
    match selected(document, selector) {
        Some(pairs) => Some(elements_of(pairs)),
        None => None,
    }
}

/// For each element of `document` that matches `outer`: the elements among
/// its descendants that match `middle`, each with the elements among its
/// own descendants that match `inner`. `None` where a selector is not
/// valid.
pub open spec fn found_within(
    document: Seq<char>,
    outer: Seq<char>,
    middle: Seq<char>,
    inner: Seq<char>,
) -> Option<Seq<Seq<ScopedView>>> {
    match selected_within(document, outer, middle, inner) {
        Some(scopes) => Some(
            scopes.map_values(
                |items: Seq<((Seq<char>, Seq<char>), Seq<(Seq<char>, Seq<char>)>)>| scope_of(items),
            ),
        ),
        None => None,
    }
}

/// The views of what a selection found.
pub open spec fn found_views(out: Option<Vec<Element>>) -> Option<Seq<ElementView>> {
    match out {
        Some(elements) => Some(element_views(elements@)),
        None => None,
    }
}

/// The views of what a nested selection found.
pub open spec fn found_scope_views(out: Option<Vec<Vec<Scoped>>>) -> Option<Seq<Seq<ScopedView>>> {
    match out {
        Some(scopes) => Some(scope_views(scopes@)),
        None => None,
    }
}

/// The elements that a run of pairs of outer and inner HTML stands for.
pub fn elements_from(pairs: &Vec<(String, String)>) -> (out: Vec<Element>)
    ensures
        element_views(out@) == elements_of(pairs.deep_view()),
{
    let mut out: Vec<Element> = Vec::new();
    let mut i: usize = 0;
    while i < pairs.len()
        invariant
            i <= pairs.len(),
            out.len() == i,
            forall|j: int| 0 <= j < i ==> (#[trigger] out@[j])@ == elements_of(pairs.deep_view())[j],
        decreases pairs.len() - i,
    {
        let pair = &pairs[i];
        out.push(Element { html: pair.0.clone(), inner_html: pair.1.clone() });
        i += 1;
    }
    assert(element_views(out@) =~= elements_of(pairs.deep_view()));
    out
}

/// The scoped elements that a run of items stands for.
pub fn scope_from(items: &Vec<((String, String), Vec<(String, String)>)>) -> (out: Vec<Scoped>)
    ensures
        scoped_views(out@) == scope_of(items.deep_view()),
{
    let mut out: Vec<Scoped> = Vec::new();
    let mut i: usize = 0;
    while i < items.len()
        invariant
            i <= items.len(),
            out.len() == i,
            forall|j: int| 0 <= j < i ==> (#[trigger] out@[j])@ == scope_of(items.deep_view())[j],
        decreases items.len() - i,
    {
        let item = &items[i];
        let element = Element { html: item.0.0.clone(), inner_html: item.0.1.clone() };
        let within = elements_from(&item.1);
        out.push(Scoped { element, within });
        i += 1;
    }
    assert(scoped_views(out@) =~= scope_of(items.deep_view()));
    out
}

/// Selects the elements of `document` that match `selector`.
pub fn select_all(document: &str, selector: &str) -> (out: Option<Vec<Element>>)
    ensures
        found_views(out) == found(document@, selector@),
{
    match select(document, selector) {
        Some(pairs) => Some(elements_from(&pairs)),
        None => None,
    }
}

/// Selects in nested scopes of one parsed `document`: for each element that
/// matches `outer`, the elements among its descendants that match `middle`,
/// each with the elements among its own descendants that match `inner`.
pub fn select_all_within(document: &str, outer: &str, middle: &str, inner: &str) -> (out: Option<
    Vec<Vec<Scoped>>,
>)
    ensures
        found_scope_views(out) == found_within(document@, outer@, middle@, inner@),
{
    let scopes = match select_within(document, outer, middle, inner) {
        Some(scopes) => scopes,
        None => {
            return None;
        },
    };
    let ghost wanted = found_within(document@, outer@, middle@, inner@)->Some_0;
    let mut out: Vec<Vec<Scoped>> = Vec::new();
    let mut i: usize = 0;
    while i < scopes.len()
        invariant
            i <= scopes.len(),
            out.len() == i,
            Some(scopes).deep_view() == selected_within(document@, outer@, middle@, inner@),
            wanted == found_within(document@, outer@, middle@, inner@)->Some_0,
            forall|j: int| 0 <= j < i ==> scoped_views((#[trigger] out@[j])@) == wanted[j],
        decreases scopes.len() - i,
    {
        let scope = scope_from(&scopes[i]);
        out.push(scope);
        i += 1;
    }
    assert(scope_views(out@) =~= wanted);
    Some(out)
}

} // verus!
