//! Button definitions as an admin writes them in a message: one row of
//! buttons per line, each button in square brackets as a word, a vertical
//! bar and a link.

use crate::keyboard::{Button, ButtonKindView, ButtonView, Keyboard};
use crate::matching::{
    captures, captures_iter, parse_url, regex_captures, regex_captures_iter, url_serialization,
    Groups,
};
use crate::text::{chars_of, line_bounds, lines};
use vstd::prelude::*;
use vstd::string::StrSliceExecFns;

verus! {

/// One button definition: square brackets around anything but square
/// brackets. Group 1 is what stands between the brackets.
pub const BUTTON_PATTERN: &'static str = r"\[([^\[\]]*)\]";

/// The content of a button definition: a word, a vertical bar, and a link
/// without white space. Group 1 is the word, group 2 the link.
pub const BUTTON_CONTENT_PATTERN: &'static str = r"(\w+)\s*?\|\s*?([^\s]+)";

/// Whether group `group` took part in a match.
pub open spec fn has_group(groups: Groups, group: int) -> bool {
    0 <= group < groups.len() && groups[group] is Some
}

/// The text of group 1 of each match, if every match has one.
pub open spec fn first_groups(matches: Seq<Groups>) -> Option<Seq<Seq<char>>> {
    if forall|i: int| 0 <= i < matches.len() ==> has_group(#[trigger] matches[i], 1) {
        Some(Seq::new(matches.len(), |i: int| matches[i][1]->0))
    } else {
        None
    }
}

/// The button definitions among what was found in a text: the text between
/// the brackets of each, in order. There are none to speak of if nothing
/// was found.
pub open spec fn buttons_in(found: Option<Seq<Groups>>) -> Option<Seq<Seq<char>>> {
    match found {
        Some(matches) => if matches.len() > 0 {
            first_groups(matches)
        } else {
            None
        },
        None => None,
    }
}

/// The button definitions in `text`.
pub open spec fn spec_parse_button(text: Seq<char>) -> Option<Seq<Seq<char>>> {
    buttons_in(regex_captures_iter(BUTTON_PATTERN@, text))
}

/// The word and the link among what was found in a button's content, as
/// they stand there.
pub open spec fn content_in(found: Option<Option<Groups>>) -> Option<(Seq<char>, Seq<char>)> {
    match found {
        Some(Some(groups)) => if has_group(groups, 1) && has_group(groups, 2) {
            Some((groups[1]->0, groups[2]->0))
        } else {
            None
        },
        _ => None,
    }
}

/// A button's word with its link, once the link has been read: there is
/// no button without a link.
pub open spec fn with_link(word: Seq<char>, link: Option<Seq<char>>) -> Option<
    (Seq<char>, Seq<char>),
> {
    match link {
        Some(link) => Some((word, link)),
        None => None,
    }
}

/// The word and the link of the button written in `text`, the link in its
/// normal form.
pub open spec fn spec_parse_button_content(text: Seq<char>) -> Option<(Seq<char>, Seq<char>)> {
    match content_in(regex_captures(BUTTON_CONTENT_PATTERN@, text)) {
        Some((word, link)) => with_link(word, url_serialization(link)),
        None => None,
    }
}

/// Picks the text between the brackets out of each match.
#[verifier::loop_isolation(false)]
pub fn button_texts(found: Option<Vec<Vec<Option<String>>>>) -> (texts: Option<Vec<String>>)
    ensures
        texts.deep_view() == buttons_in(found.deep_view()),
{
    let matches = match found {
        Some(matches) => matches,
        None => {
            return None;
        },
    };
    if matches.len() == 0 {
        return None;
    }
    let ghost all = matches.deep_view();
    let mut texts: Vec<String> = Vec::new();
    let mut i: usize = 0;
    while i < matches.len()
        invariant
            i <= matches.len(),
            all == matches.deep_view(),
            texts.len() == i,
            forall|k: int| 0 <= k < i ==> has_group(#[trigger] all[k], 1),
            forall|k: int| 0 <= k < i ==> (#[trigger] texts[k])@ == all[k][1]->0,
        decreases matches.len() - i,
    {
        let groups = &matches[i];
        assert(all[i as int] == groups.deep_view());
        if groups.len() < 2 {
            assert(!has_group(all[i as int], 1));
            return None;
        }
        assert(all[i as int][1] == groups[1].deep_view());
        match &groups[1] {
            Some(text) => {
                texts.push(text.clone());
            },
            None => {
                assert(!has_group(all[i as int], 1));
                return None;
            },
        }
        i += 1;
    }
    assert(texts.deep_view() =~= Seq::new(all.len(), |k: int| all[k][1]->0));
    Some(texts)
}

/// The button definitions in `text`: what stands between each pair of
/// square brackets, from left to right, or `None` if there is no such pair.
pub fn parse_button(text: &str) -> (buttons: Option<Vec<String>>)
    ensures
        buttons.deep_view() == spec_parse_button(text@),
{
    button_texts(captures_iter(BUTTON_PATTERN, text))
}

/// Picks the word and the link out of a match of a button's content.
pub fn button_parts(found: Option<Option<Vec<Option<String>>>>) -> (parts: Option<(String, String)>)
    ensures
        parts.deep_view() == content_in(found.deep_view()),
{
    let groups = match found {
        Some(Some(groups)) => groups,
        _ => {
            return None;
        },
    };
    let ghost all = groups.deep_view();
    if groups.len() < 3 {
        return None;
    }
    assert(all[1] == groups[1].deep_view());
    assert(all[2] == groups[2].deep_view());
    match (&groups[1], &groups[2]) {
        (Some(word), Some(link)) => Some((word.clone(), link.clone())),
        _ => None,
    }
}

/// Joins a button's word to its link, if the link could be read.
pub fn button_with_link(word: String, link: Option<String>) -> (parts: Option<(String, String)>)
    ensures
        parts.deep_view() == with_link(word@, link.deep_view()),
{
    match link {
        Some(link) => Some((word, link)),
        None => None,
    }
}

/// The word and the link of the button written in `text`, such as
/// `Register|https://example.com`. White space may stand on either side of
/// the bar. `None` if there is no word, or if the link is no absolute URL.
/// The link comes back in its normal form.
pub fn parse_button_content(text: &str) -> (parts: Option<(String, String)>)
    ensures
        parts.deep_view() == spec_parse_button_content(text@),
{
    match button_parts(captures(BUTTON_CONTENT_PATTERN, text)) {
        Some((word, link)) => button_with_link(word, parse_url(link.as_str())),
        None => None,
    }
}

/// Why a message does not define a button layout.
#[derive(Debug, PartialEq, Eq)]
pub enum ButtonsError {
    /// The message carries no text.
    NoText,
    /// This line holds no button definition.
    BadDefinition(String),
    /// This button definition lacks its word or a link that can be read.
    BadContent(String),
}

/// Mathematical value of a [`ButtonsError`].
pub enum ButtonsErrorView {
    NoText,
    BadDefinition(Seq<char>),
    BadContent(Seq<char>),
}

impl DeepView for ButtonsError {
    type V = ButtonsErrorView;

    open spec fn deep_view(&self) -> ButtonsErrorView {
        match self {
            ButtonsError::NoText => ButtonsErrorView::NoText,
            ButtonsError::BadDefinition(line) => ButtonsErrorView::BadDefinition(line@),
            ButtonsError::BadContent(button) => ButtonsErrorView::BadContent(button@),
        }
    }
}

/// The button that a definition's content stands for, or the content itself
/// where it stands for none.
pub open spec fn button_of(content: Seq<char>) -> Result<ButtonView, ButtonsErrorView> {
    match spec_parse_button_content(content) {
        Some((word, link)) => Ok(ButtonView { text: word, kind: ButtonKindView::Url(link) }),
        None => Err(ButtonsErrorView::BadContent(content)),
    }
}

/// The row of buttons that a line's definitions stand for. The first
/// definition that stands for no button decides.
pub open spec fn row_of(contents: Seq<Seq<char>>) -> Result<Seq<ButtonView>, ButtonsErrorView>
    decreases contents.len(),
{
    if contents.len() == 0 {
        Ok(Seq::<ButtonView>::empty())
    } else {
        match row_of(contents.drop_last()) {
            Ok(row) => match button_of(contents.last()) {
                Ok(button) => Ok(row.push(button)),
                Err(e) => Err(e),
            },
            Err(e) => Err(e),
        }
    }
}

/// The row of buttons that one line of a message stands for.
pub open spec fn line_row(line: Seq<char>) -> Result<Seq<ButtonView>, ButtonsErrorView> {
    match spec_parse_button(line) {
        Some(contents) => row_of(contents),
        None => Err(ButtonsErrorView::BadDefinition(line)),
    }
}

/// The rows that the lines of a message stand for, one row per line. The
/// first line that stands for no row decides.
pub open spec fn rows_of(lines: Seq<Seq<char>>) -> Result<Seq<Seq<ButtonView>>, ButtonsErrorView>
    decreases lines.len(),
{
    if lines.len() == 0 {
        Ok(Seq::<Seq<ButtonView>>::empty())
    } else {
        match rows_of(lines.drop_last()) {
            Ok(rows) => match line_row(lines.last()) {
                Ok(row) => Ok(rows.push(row)),
                Err(e) => Err(e),
            },
            Err(e) => Err(e),
        }
    }
}

/// The button layout that `text` defines: each line is a row, each pair of
/// square brackets in it a button.
pub open spec fn keyboard_of(text: Seq<char>) -> Result<Seq<Seq<ButtonView>>, ButtonsErrorView> {
    rows_of(lines(text))
}

/// Mathematical value of the outcome of reading rows or layouts.
pub open spec fn outcome_view<T: DeepView>(outcome: Result<T, ButtonsError>) -> Result<
    T::V,
    ButtonsErrorView,
> {
    match outcome {
        Ok(value) => Ok(value.deep_view()),
        Err(e) => Err(e.deep_view()),
    }
}

/// Reads the buttons of one row from the contents of their definitions.
pub fn parse_row(contents: &Vec<String>) -> (row: Result<Vec<Button>, ButtonsError>)
    ensures
        outcome_view(row) == row_of(contents.deep_view()),
{
    let ghost all = contents.deep_view();
    let mut row: Vec<Button> = Vec::new();
    let mut i: usize = 0;
    assert(all.take(0) =~= Seq::<Seq<char>>::empty());
    assert(row.deep_view() =~= Seq::<ButtonView>::empty());
    while i < contents.len()
        invariant
            i <= contents.len(),
            all == contents.deep_view(),
            row_of(all.take(i as int)) == Ok::<Seq<ButtonView>, ButtonsErrorView>(row.deep_view()),
        decreases contents.len() - i,
    {
        let ghost done = row.deep_view();
        assert(all.take(i + 1).drop_last() =~= all.take(i as int));
        assert(all.take(i + 1).last() == contents[i as int]@);
        match parse_button_content(contents[i].as_str()) {
            Some((word, link)) => {
                let button = Button::url(word, link);
                row.push(button);
                assert(row.deep_view() =~= done.push(button.deep_view()));
            },
            None => {
                proof {
                    lemma_row_error_stays(all, i + 1);
                }
                return Err(ButtonsError::BadContent(contents[i].clone()));
            },
        }
        i += 1;
    }
    assert(all.take(contents.len() as int) =~= all);
    Ok(row)
}

/// Once a beginning of a line's definitions stands for no row, neither does
/// the whole line, and for the same reason.
proof fn lemma_row_error_stays(contents: Seq<Seq<char>>, n: int)
    requires
        0 <= n <= contents.len(),
        row_of(contents.take(n)) is Err,
    ensures
        row_of(contents) == row_of(contents.take(n)),
    decreases contents.len() - n,
{
    if n == contents.len() {
        assert(contents.take(n) =~= contents);
    } else {
        assert(contents.take(n + 1).drop_last() =~= contents.take(n));
        lemma_row_error_stays(contents, n + 1);
    }
}

/// Once a beginning of a message's lines stands for no layout, neither does
/// the whole message, and for the same reason.
proof fn lemma_rows_error_stays(lines: Seq<Seq<char>>, n: int)
    requires
        0 <= n <= lines.len(),
        rows_of(lines.take(n)) is Err,
    ensures
        rows_of(lines) == rows_of(lines.take(n)),
    decreases lines.len() - n,
{
    if n == lines.len() {
        assert(lines.take(n) =~= lines);
    } else {
        assert(lines.take(n + 1).drop_last() =~= lines.take(n));
        lemma_rows_error_stays(lines, n + 1);
    }
}

/// Reads the button layout that `text` defines. Each line of the text is a
/// row, and each pair of square brackets in a line holds a button: a word, a
/// vertical bar and a link. The first line without a definition, or the
/// first definition that stands for no button, is reported.
pub fn parse_keyboard(text: &str) -> (keyboard: Result<Keyboard, ButtonsError>)
    ensures
        outcome_view(keyboard) == keyboard_of(text@),
{
    let chars = chars_of(text);
    let bounds = line_bounds(&chars);
    let ghost all = lines(text@);
    let mut rows: Vec<Vec<Button>> = Vec::new();
    let mut i: usize = 0;
    assert(all.take(0) =~= Seq::<Seq<char>>::empty());
    assert(rows.deep_view() =~= Seq::<Seq<ButtonView>>::empty());
    while i < bounds.len()
        invariant
            chars@ == text@,
            all == lines(text@),
            bounds.len() == all.len(),
            forall|k: int|
                0 <= k < bounds.len() ==> (#[trigger] bounds[k]).0 <= bounds[k].1 <= chars.len()
                    && chars@.subrange(bounds[k].0 as int, bounds[k].1 as int) == all[k],
            i <= bounds.len(),
            rows_of(all.take(i as int)) == Ok::<Seq<Seq<ButtonView>>, ButtonsErrorView>(
                rows.deep_view(),
            ),
        decreases bounds.len() - i,
    {
        let ghost done = rows.deep_view();
        let (from, to) = bounds[i];
        let line = text.substring_char(from, to);
        assert(line@ == all[i as int]);
        assert(all.take(i + 1).drop_last() =~= all.take(i as int));
        assert(all.take(i + 1).last() == line@);
        let contents = match parse_button(line) {
            Some(contents) => contents,
            None => {
                proof {
                    lemma_rows_error_stays(all, i + 1);
                }
                return Err(ButtonsError::BadDefinition(line.to_owned()));
            },
        };
        match parse_row(&contents) {
            Ok(row) => {
                let ghost row_view = row.deep_view();
                rows.push(row);
                assert(rows.deep_view() =~= done.push(row_view));
            },
            Err(e) => {
                proof {
                    lemma_rows_error_stays(all, i + 1);
                }
                return Err(e);
            },
        }
        i += 1;
    }
    assert(all.take(bounds.len() as int) =~= all);
    Ok(Keyboard::new(rows))
}

} // verus!
