//! The button layout attached to a notification: rows of buttons, each with
//! a label and either a link to open or a piece of callback data.

use vstd::prelude::*;

verus! {

/// What pressing a button does.
#[derive(Debug, PartialEq, Eq)]
pub enum ButtonKind {
    /// Opens a link; the string is the link in its normal written form.
    Url(String),
    /// Sends this data back to the bot.
    Callback(String),
}

/// Mathematical value of a [`ButtonKind`].
pub enum ButtonKindView {
    Url(Seq<char>),
    Callback(Seq<char>),
}

impl DeepView for ButtonKind {
    type V = ButtonKindView;

    open spec fn deep_view(&self) -> ButtonKindView {
        match self {
            ButtonKind::Url(link) => ButtonKindView::Url(link@),
            ButtonKind::Callback(data) => ButtonKindView::Callback(data@),
        }
    }
}

/// One button of a layout.
#[derive(Debug, PartialEq, Eq)]
pub struct Button {
    pub text: String,
    pub kind: ButtonKind,
}

/// Mathematical value of a [`Button`].
pub struct ButtonView {
    pub text: Seq<char>,
    pub kind: ButtonKindView,
}

impl DeepView for Button {
    type V = ButtonView;

    open spec fn deep_view(&self) -> ButtonView {
        ButtonView { text: self.text@, kind: self.kind.deep_view() }
    }
}

impl Clone for ButtonKind {
    fn clone(&self) -> (copy: Self)
        ensures
            copy.deep_view() == self.deep_view(),
    {
        match self {
            ButtonKind::Url(link) => ButtonKind::Url(link.clone()),
            ButtonKind::Callback(data) => ButtonKind::Callback(data.clone()),
        }
    }
}

impl Clone for Button {
    fn clone(&self) -> (copy: Self)
        ensures
            copy.deep_view() == self.deep_view(),
    {
        Button { text: self.text.clone(), kind: self.kind.clone() }
    }
}

impl Button {
    /// A button labelled `text` that opens `link`.
    pub fn url(text: String, link: String) -> (b: Self)
        ensures
            b.deep_view() == (ButtonView { text: text@, kind: ButtonKindView::Url(link@) }),
    {
        Button { text, kind: ButtonKind::Url(link) }
    }

    /// A button labelled `text` that sends `data` back when pressed.
    pub fn callback(text: String, data: String) -> (b: Self)
        ensures
            b.deep_view() == (ButtonView { text: text@, kind: ButtonKindView::Callback(data@) }),
    {
        Button { text, kind: ButtonKind::Callback(data) }
    }
}

/// A button layout: rows from top to bottom, buttons from left to right.
#[derive(Debug, PartialEq, Eq)]
pub struct Keyboard {
    pub rows: Vec<Vec<Button>>,
}

impl DeepView for Keyboard {
    type V = Seq<Seq<ButtonView>>;

    open spec fn deep_view(&self) -> Seq<Seq<ButtonView>> {
        self.rows.deep_view()
    }
}

/// Copies one row of buttons.
fn clone_row(row: &Vec<Button>) -> (copy: Vec<Button>)
    ensures
        copy.deep_view() == row.deep_view(),
{
    let mut copy: Vec<Button> = Vec::new();
    let mut i: usize = 0;
    while i < row.len()
        invariant
            i <= row.len(),
            copy.len() == i,
            forall|j: int| 0 <= j < i ==> copy[j].deep_view() == row[j].deep_view(),
        decreases row.len() - i,
    {
        copy.push(row[i].clone());
        i += 1;
    }
    assert(copy.deep_view() =~= row.deep_view());
    copy
}

impl Clone for Keyboard {
    fn clone(&self) -> (copy: Self)
        ensures
            copy.deep_view() == self.deep_view(),
    {
        let mut rows: Vec<Vec<Button>> = Vec::new();
        let mut i: usize = 0;
        while i < self.rows.len()
            invariant
                i <= self.rows.len(),
                rows.len() == i,
                forall|j: int| 0 <= j < i ==> rows[j].deep_view() == self.rows[j].deep_view(),
            decreases self.rows.len() - i,
        {
            rows.push(clone_row(&self.rows[i]));
            i += 1;
        }
        assert(rows.deep_view() =~= self.rows.deep_view());
        Keyboard { rows }
    }
}

impl Keyboard {
    /// The layout with the given rows.
    pub fn new(rows: Vec<Vec<Button>>) -> (k: Self)
        ensures
            k.deep_view() == rows.deep_view(),
    {
        Keyboard { rows }
    }
}

} // verus!
