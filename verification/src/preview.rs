//! A page that shows every class of a stylesheet. The stylesheet is parsed
//! by `lightningcss`.

use vstd::prelude::*;
use vstd::string::StringExecFns;
use lightningcss::printer::PrinterOptions;
use lightningcss::rules::CssRule;
use lightningcss::stylesheet::{ParserOptions, StyleSheet};
use lightningcss::traits::ToCss;

verus! {

/// Why no preview page was made.
#[derive(Debug, Clone, Copy, PartialEq, Eq, Structural)]
pub enum PreviewError {
    /// The stylesheet could not be parsed.
    InvalidStylesheet,
    /// The first selector of a style rule could not be printed.
    UnprintableSelector,
}

/// What `lightningcss` makes of a stylesheet: `None` where it does not parse,
/// else one entry per top-level rule, in order: `None` for a rule that is no
/// style rule, else the rule's selectors, in order, each as `lightningcss`
/// prints it or `None` where it cannot be printed.
pub uninterp spec fn printed_selectors(css: Seq<char>) -> Option<
    Seq<Option<Seq<Option<Seq<char>>>>>,
>;

/// Whether a character is white space as `str::trim` counts it: it has the
/// Unicode property White_Space.
pub uninterp spec fn white_space(c: char) -> bool;

/// `StyleSheet::parse` with the default options, then
/// `ToCss::to_css_string`, with the default options too, on every selector of
/// every top-level style rule.
#[verifier::external_body]
pub(crate) fn print_selectors(css: &str) -> (r: Option<Vec<Option<Vec<Option<String>>>>>)
    ensures
        r.deep_view() == printed_selectors(css@),
{
    let sheet = StyleSheet::parse(css, ParserOptions::default()).ok()?;
    Some(
        sheet.rules.0.iter().map(
            |rule|
                match rule {
                    CssRule::Style(style) => Some(
                        style.selectors.0.iter().map(
                            |selector| selector.to_css_string(PrinterOptions::default()).ok(),
                        ).collect(),
                    ),
                    _ => None,
                },
        ).collect(),
    )
}

/// A text without the occurrences of `c` that it begins with.
pub open spec fn without_leading(text: Seq<char>, c: char) -> Seq<char>
    decreases text.len(),
{
    if text.len() > 0 && text[0] == c {
        without_leading(text.skip(1), c)
    } else {
        text
    }
}

/// A text without the white space that it begins with.
pub open spec fn without_leading_space(text: Seq<char>) -> Seq<char>
    decreases text.len(),
{
    if text.len() > 0 && white_space(text[0]) {
        without_leading_space(text.skip(1))
    } else {
        text
    }
}

/// A text without the white space that it ends with.
pub open spec fn without_trailing_space(text: Seq<char>) -> Seq<char>
    decreases text.len(),
{
    if text.len() > 0 && white_space(text.last()) {
        without_trailing_space(text.drop_last())
    } else {
        text
    }
}

/// `str::trim_start_matches` for a character: the text without the
/// occurrences of `c` that it begins with.
#[verifier::external_body]
pub(crate) fn strip_leading(text: &str, c: char) -> (r: &str)
    ensures
        r@ == without_leading(text@, c),
{
    text.trim_start_matches(c)
}

/// `str::trim`: the text without the white space at its two ends, so that
/// what is left neither begins nor ends with white space.
#[verifier::external_body]
pub(crate) fn trim(text: &str) -> (r: &str)
    ensures
        r@ == without_trailing_space(without_leading_space(text@)),
        r@.len() > 0 ==> !white_space(r@[0]) && !white_space(r@.last()),
{
    text.trim()
}

/// The class that a selector names: the selector without its leading dots
/// and without white space at its two ends.
pub open spec fn class_of(selector: Seq<char>) -> Seq<char> {
    without_trailing_space(without_leading_space(without_leading(selector, '.')))
}

/// The opening of the page, up to the link to the stylesheet.
pub const PAGE_HEAD: &'static str =
    "<!DOCTYPE html><html><head><meta charset=\"utf-8\"><title>Preview</title>";

/// The page's own style.
pub const PAGE_STYLE: &'static str =
    "\n        body {\n            background-color: black;\n            margin: 0;\n            padding: 1rem;\n        }\n        .container {\n            display: flex;\n            flex-wrap: wrap;\n            gap: 1rem;\n            align-items: flex-start;\n        }\n    ";

/// The element that shows one class.
pub open spec fn class_element(class: Seq<char>) -> Seq<char> {
    "<div class=\""@ + class + "\"></div>"@
}

/// The elements of the first `n` rules, one for the first selector of each
/// style rule that has a selector, or `None` where one of these selectors
/// could not be printed.
pub open spec fn class_elements(rules: Seq<Option<Seq<Option<Seq<char>>>>>, n: int) -> Option<
    Seq<char>,
>
    decreases n,
{
    if n <= 0 {
        Some(Seq::empty())
    } else {
        match class_elements(rules, n - 1) {
            None => None,
            Some(before) => match rules[n - 1] {
                None => Some(before),
                Some(selectors) => if selectors.len() == 0 {
                    Some(before)
                } else {
                    match selectors[0] {
                        None => None,
                        Some(selector) => Some(before + class_element(class_of(selector))),
                    }
                },
            },
        }
    }
}

/// The page around the elements: the head with a link to the stylesheet and
/// the page's own style, and a container that holds the elements.
pub open spec fn page(css_path: Seq<char>, elements: Seq<char>) -> Seq<char> {
    PAGE_HEAD@ + "<link rel=\"stylesheet\" href=\""@ + css_path + "\">"@ + "<style>"@ + PAGE_STYLE@
        + "</style></head><body>"@ + "<div class=\"container\">"@ + elements
        + "</div></body></html>"@
}

/// The preview page for the rules of a stylesheet.
pub open spec fn preview_of(
    css_path: Seq<char>,
    rules: Option<Seq<Option<Seq<Option<Seq<char>>>>>>,
) -> Result<Seq<char>, PreviewError> {
    match rules {
        None => Err(PreviewError::InvalidStylesheet),
        Some(rules) => match class_elements(rules, rules.len() as int) {
            None => Err(PreviewError::UnprintableSelector),
            Some(elements) => Ok(page(css_path, elements)),
        },
    }
}

/// What a preview run returned, as contracts speak of it.
pub open spec fn preview_view(r: Result<String, PreviewError>) -> Result<Seq<char>, PreviewError> {
    match r {
        Ok(html) => Ok(html@),
        Err(e) => Err(e),
    }
}

/// Once a selector could not be printed, no page is made.
proof fn lemma_class_elements_stay_none(rules: Seq<Option<Seq<Option<Seq<char>>>>>, k: int, n: int)
    requires
        0 <= k <= n,
        class_elements(rules, k) is None,
    ensures
        class_elements(rules, n) is None,
    decreases n - k,
{
    if k < n {
        lemma_class_elements_stay_none(rules, k, n - 1);
    }
}

/// Builds the preview page from the printed selectors of a stylesheet: one
/// element for the first selector of each style rule.
pub fn preview_from_rules(css_path: &str, rules: &Vec<Option<Vec<Option<String>>>>) -> (r: Result<
    String,
    PreviewError,
>)
    ensures
        preview_view(r) == preview_of(css_path@, Some(rules.deep_view())),
{
    let ghost model = rules.deep_view();
    let mut html = String::new();
    html.append(PAGE_HEAD);
    html.append("<link rel=\"stylesheet\" href=\"");
    html.append(css_path);
    html.append("\">");
    html.append("<style>");
    html.append(PAGE_STYLE);
    html.append("</style></head><body>");
    html.append("<div class=\"container\">");
    let ghost opening = html@;
    let mut i: usize = 0;
    while i < rules.len()
        invariant
            i <= rules.len(),
            model == rules.deep_view(),
            model.len() == rules.len(),
            class_elements(model, i as int) is Some,
            html@ == opening + class_elements(model, i as int)->Some_0,
        decreases rules.len() - i,
    {
        proof {
            assert(model[i as int] == rules@[i as int].deep_view());
        }
        match &rules[i] {
            None => {},
            Some(selectors) => {
                if selectors.len() > 0 {
                    proof {
                        assert(model[i as int]->Some_0[0] == selectors@[0].deep_view());
                    }
                    match &selectors[0] {
                        None => {
                            proof {
                                lemma_class_elements_stay_none(model, i + 1, rules.len() as int);
                            }
                            return Err(PreviewError::UnprintableSelector);
                        },
                        Some(selector) => {
                            let class = trim(strip_leading(selector.as_str(), '.'));
                            let ghost before = html@;
                            html.append("<div class=\"");
                            html.append(class);
                            html.append("\"></div>");
                            proof {
                                assert(html@ =~= before + class_element(class_of(selector@)));
                                assert(html@ =~= opening + class_elements(
                                    model,
                                    i + 1,
                                )->Some_0);
                            }
                        },
                    }
                }
            },
        }
        i = i + 1;
    }
    html.append("</div></body></html>");
    proof {
        assert(html@ =~= page(css_path@, class_elements(model, rules.len() as int)->Some_0));
    }
    Ok(html)
}

/// Builds the preview page for a stylesheet: a page that links the
/// stylesheet at `css_path` and shows one element for the first selector of
/// each of its style rules.
pub fn generate_html_preview(css_path: &str, css: &str) -> (r: Result<String, PreviewError>)
    ensures
        preview_view(r) == preview_of(css_path@, printed_selectors(css@)),
{
    match print_selectors(css) {
        None => Err(PreviewError::InvalidStylesheet),
        Some(rules) => preview_from_rules(css_path, &rules),
    }
}

} // verus!
