//! New names for the PNG files of a directory. The pattern is matched by
//! `regex`.

use vstd::prelude::*;
use vstd::string::{StrSliceExecFns, StringExecFns};
use regex::Regex;

verus! {

/// Whether `regex` accepts the pattern.
pub uninterp spec fn pattern_compiles(pattern: Seq<char>) -> bool;

/// Whether the pattern matches anywhere in the text.
pub uninterp spec fn pattern_found(pattern: Seq<char>, text: Seq<char>) -> bool;

/// `regex::Regex::new`, and on the expression that it gives
/// `regex::Regex::is_match`: `None` where the pattern is not accepted, else
/// whether it matches anywhere in the text.
#[verifier::external_body]
pub(crate) fn found_in(pattern: &str, text: &str) -> (r: Option<bool>)
    ensures
        r is Some == pattern_compiles(pattern@),
        r matches Some(found) ==> found == pattern_found(pattern@, text@),
{
    match Regex::new(pattern) {
        Ok(re) => Some(re.is_match(text)),
        Err(_) => None,
    }
}

/// A text in which every occurrence of `from` is replaced by `to`, the
/// occurrences taken from the left and not overlapping.
pub open spec fn replaced(text: Seq<char>, from: Seq<char>, to: Seq<char>) -> Seq<char>
    decreases text.len(),
{
    if from.len() == 0 || text.len() < from.len() {
        text
    } else if text.take(from.len() as int) == from {
        to + replaced(text.skip(from.len() as int), from, to)
    } else {
        seq![text[0]] + replaced(text.skip(1), from, to)
    }
}

/// `str::replace` for a pattern that is not empty: every occurrence of
/// `from`, taken from the left and not overlapping, is replaced by `to`.
#[verifier::external_body]
pub(crate) fn replace_all(text: &str, from: &str, to: &str) -> (r: String)
    requires
        from@.len() > 0,
    ensures
        r@ == replaced(text@, from@, to@),
{
    text.replace(from, to)
}

/// The name of a file in two parts: what stands before the last dot, and
/// what stands after it.
#[derive(Debug, Clone, PartialEq, Eq)]
pub struct FileName {
    pub stem: String,
    pub extension: String,
}

/// A file name as contracts speak of it.
pub struct NameView {
    pub stem: Seq<char>,
    pub extension: Seq<char>,
}

impl View for FileName {
    type V = NameView;

    open spec fn view(&self) -> NameView {
        NameView { stem: self.stem@, extension: self.extension@ }
    }
}

/// The file names of a list, in the list's order.
pub open spec fn name_views(files: Seq<FileName>) -> Seq<NameView> {
    Seq::new(files.len(), |i: int| files[i]@)
}

/// The extension is `png`, in any mix of upper and lower case.
pub open spec fn is_png(extension: Seq<char>) -> bool {
    &&& extension.len() == 3
    &&& (extension[0] == 'p' || extension[0] == 'P')
    &&& (extension[1] == 'n' || extension[1] == 'N')
    &&& (extension[2] == 'g' || extension[2] == 'G')
}

/// Whether the extension is `png`, in any mix of upper and lower case.
pub fn has_png_extension(extension: &str) -> (r: bool)
    ensures
        r == is_png(extension@),
{
    if extension.unicode_len() != 3 {
        return false;
    }
    let first = extension.get_char(0);
    let second = extension.get_char(1);
    let third = extension.get_char(2);
    (first == 'p' || first == 'P') && (second == 'n' || second == 'N') && (third == 'g' || third
        == 'G')
}

/// The new name of a file: for a PNG file whose stem the pattern matches,
/// the template with the stem put in place of every `{}`, then a dot and the
/// file's own extension; for any other file, none.
pub open spec fn new_name(pattern: Seq<char>, template: Seq<char>, file: NameView) -> Option<
    Seq<char>,
> {
    if pattern_found(pattern, file.stem) && is_png(file.extension) {
        Some(replaced(template, "{}"@, file.stem) + "."@ + file.extension)
    } else {
        None
    }
}

/// The new names of the files of a list, in the list's order.
pub open spec fn rename_plan(
    pattern: Seq<char>,
    template: Seq<char>,
    files: Seq<NameView>,
) -> Seq<Option<Seq<char>>> {
    Seq::new(files.len(), |i: int| new_name(pattern, template, files[i]))
}

/// Decides how the files of a directory are renamed: one entry per file, in
/// order, with the new name of a file that is renamed and `None` for a file
/// that is left alone. Returns `None` where the pattern is not accepted.
pub fn rename_files_with_prefix(files: &Vec<FileName>, pattern: &str, template: &str) -> (r: Option<
    Vec<Option<String>>,
>)
    ensures
        r is Some <==> pattern_compiles(pattern@),
        r matches Some(plan) ==> plan.deep_view() == rename_plan(
            pattern@,
            template@,
            name_views(files@),
        ),
{
    if found_in(pattern, "").is_none() {
        return None;
    }
    proof {
        reveal_strlit("{}");
    }
    let mut plan: Vec<Option<String>> = Vec::new();
    let mut i: usize = 0;
    while i < files.len()
        invariant
            i <= files.len(),
            pattern_compiles(pattern@),
            "{}"@.len() == 2,
            plan@.len() == i,
            forall|j: int|
                0 <= j < i ==> (#[trigger] plan@[j]).deep_view() == new_name(
                    pattern@,
                    template@,
                    files@[j]@,
                ),
        decreases files.len() - i,
    {
        let file = &files[i];
        let stem = file.stem.as_str();
        let extension = file.extension.as_str();
        let matched = match found_in(pattern, stem) {
            Some(found) => found,
            None => false,
        };
        let entry = if matched && has_png_extension(extension) {
            let mut name = replace_all(template, "{}", stem);
            name.append(".");
            name.append(extension);
            Some(name)
        } else {
            None
        };
        plan.push(entry);
        i = i + 1;
    }
    proof {
        assert(plan.deep_view() =~= rename_plan(pattern@, template@, name_views(files@)));
    }
    Some(plan)
}

} // verus!
