//! Reading the active layout out of what the query tool answers.

use vstd::prelude::*;
use crate::error::{outcome, LayoutError, LayoutErrorView};
use crate::text::{
    contains, decode, final_word, final_word_is_last_word, has_text, is_space, last_word, occurs_at,
    pieces, split, text_of,
};
use crate::tool::{ToolRun, ToolRunView};

verus! {

/// The argument that makes the tool print its settings.
pub const QUERY_ARGUMENT: &'static str = "-query";

/// The word that marks the line of the answer that names the layout.
pub open spec fn marker() -> Seq<char> {
    "layout"@
}

/// The last word of the last of `lines` that holds the marker.
pub open spec fn mentioned(lines: Seq<Seq<char>>) -> Option<Seq<char>>
    decreases lines.len(),
{
    if lines.len() == 0 {
        None
    } else if has_text(lines.last(), marker()) {
        Some(final_word(lines.last()))
    } else {
        mentioned(lines.drop_last())
    }
}

/// The layout that the text of an answer names: the last word of its last
/// line that holds the marker.
pub open spec fn reported(text: Seq<char>) -> Option<Seq<char>> {
    mentioned(pieces(text, '\n'))
}

/// The active layout according to a run of the query tool, or why the run
/// tells none.
pub open spec fn queried(run: ToolRunView) -> Result<Seq<char>, LayoutErrorView> {
    if !run.succeeded() {
        Err(LayoutErrorView::ExternalTool(run))
    } else {
        match text_of(run.output()) {
            None => Err(LayoutErrorView::Parse),
            Some(text) => match reported(text) {
                None => Err(LayoutErrorView::Parse),
                Some(layout) => Ok(layout),
            },
        }
    }
}

/// Finds the layout that the text of an answer names.
pub fn parse_layout(text: &str) -> (r: Option<String>)
    ensures
        r.deep_view() == reported(text@),
{
    let lines = split(text, '\n');
    let mut k: usize = lines.len();
    proof {
        assert(lines.deep_view().take(k as int) =~= lines.deep_view());
    }
    while k > 0
        invariant
            k <= lines.len(),
            lines.deep_view() == pieces(text@, '\n'),
            mentioned(lines.deep_view().take(k as int)) == reported(text@),
        decreases k,
    {
        let line = lines[k - 1].as_str();
        proof {
            assert(lines.deep_view().take(k as int).drop_last() =~= lines.deep_view().take(
                k - 1,
            ));
        }
        if contains(line, "layout") {
            return Some(last_word(line));
        }
        k = k - 1;
    }
    None
}

/// The active layout according to a run of the query tool.
///
/// The run must have ended with exit code zero, else it is handed back as
/// the error. Its output must be UTF-8 text with a line that holds the word
/// `layout`; the last word of the last such line is the layout.
pub fn get_layout(run: ToolRun) -> (r: Result<String, LayoutError>)
    ensures
        outcome(r) == queried(run@),
{
    match run {
        ToolRun::Exited { status: Some(0), stdout, .. } => match decode(stdout.as_slice()) {
            None => Err(LayoutError::Parse),
            Some(text) => match parse_layout(text) {
                None => Err(LayoutError::Parse),
                Some(layout) => Ok(layout),
            },
        },
        failed => Err(LayoutError::ExternalTool(failed)),
    }
}

/// Whether line `k` holds the marker and no line after it does.
pub open spec fn is_last_marked(lines: Seq<Seq<char>>, k: int) -> bool {
    &&& 0 <= k < lines.len()
    &&& has_text(lines[k], marker())
    &&& forall|j: int| k < j < lines.len() ==> !has_text(#[trigger] lines[j], marker())
}

/// What is found among the lines is the last word of the last line that
/// holds the marker, and nothing is found only where no line holds it.
pub proof fn mentioned_is_of_last_marked_line(lines: Seq<Seq<char>>)
    ensures
        match mentioned(lines) {
            Some(word) => exists|k: int| is_last_marked(lines, k) && word == final_word(lines[k]),
            None => forall|k: int| 0 <= k < lines.len() ==> !has_text(#[trigger] lines[k], marker()),
        },
    decreases lines.len(),
{
    if lines.len() > 0 {
        let last = lines.len() - 1;
        if has_text(lines.last(), marker()) {
            assert(is_last_marked(lines, last));
        } else {
            let rest = lines.drop_last();
            mentioned_is_of_last_marked_line(rest);
            match mentioned(rest) {
                Some(word) => {
                    let k = choose|k: int| is_last_marked(rest, k) && word == final_word(rest[k]);
                    assert forall|j: int| k < j < lines.len() implies !has_text(
                        #[trigger] lines[j],
                        marker(),
                    ) by {
                        if j < last {
                            assert(lines[j] == rest[j]);
                        }
                    }
                    assert(is_last_marked(lines, k));
                },
                None => {
                    assert forall|k: int| 0 <= k < lines.len() implies !has_text(
                        #[trigger] lines[k],
                        marker(),
                    ) by {
                        if k < last {
                            assert(lines[k] == rest[k]);
                        }
                    }
                },
            }
        }
    }
}

/// A line that holds the marker has a last word.
pub proof fn marked_line_has_a_word(line: Seq<char>)
    requires
        has_text(line, marker()),
    ensures
        final_word(line).len() > 0,
{
    reveal_strlit("layout");
    let i = choose|i: int| occurs_at(line, marker(), i);
    assert(line.subrange(i, i + marker().len())[0] == 'l');
    final_word_is_last_word(line);
}

/// The layout that an answer names is a word: it is not empty and holds no
/// white space.
pub proof fn reported_is_a_word(text: Seq<char>)
    ensures
        reported(text) matches Some(layout) ==> {
            &&& layout.len() > 0
            &&& forall|i: int| 0 <= i < layout.len() ==> !is_space(layout[i])
        },
{
    let lines = pieces(text, '\n');
    mentioned_is_of_last_marked_line(lines);
    if let Some(layout) = reported(text) {
        let k = choose|k: int| is_last_marked(lines, k) && layout == final_word(lines[k]);
        marked_line_has_a_word(lines[k]);
        final_word_is_last_word(lines[k]);
    }
}

} // verus!
