//! The list picker: a list of labels with a cursor over it, the text that
//! it writes to the terminal, and its answer to each key press.
//!
//! The picker does not touch the terminal itself. It hands out text, and
//! whoever runs it writes that text and reads the keys.

use crate::cursor::{KeyPress, Outcome, Select, Selection, SelectorState};
use crate::term::{
    bold, bold_text, clear_line, clear_line_text, cursor_up, cursor_up_text, green, green_text,
    hide_cursor, hide_cursor_text, reset, reset_text, show_cursor, show_cursor_text,
};
use vstd::prelude::*;
use vstd::string::StringExecFns;

verus! {

/// `n` line feeds.
pub open spec fn line_feeds(n: nat) -> Seq<char> {
    Seq::new(n, |i: int| '\n')
}

/// What opens a run of the picker: the cursor hidden, a green `[?] `, the
/// prompt on a line of its own and, where each item gets its own line, one
/// empty line reserved for each item.
pub open spec fn opening_text(prompt: Seq<char>, s: Selection) -> Seq<char> {
    hide_cursor_text() + green_text() + "[?] "@ + reset_text() + prompt + "\n"@ + match s.layout {
        Select::Vertical => line_feeds(s.count),
        Select::Horizontal => Seq::empty(),
    }
}

/// What starts a line of the list: a fresh line, cleared of what it held.
pub open spec fn line_start_text() -> Seq<char> {
    "\n\r"@ + clear_line_text()
}

/// One item of the list: bold behind an arrow where the cursor stands on
/// it, plain and indented to the same column elsewhere.
pub open spec fn item_text(label: Seq<char>, highlighted: bool) -> Seq<char> {
    if highlighted {
        bold_text() + "  > "@ + label + reset_text()
    } else {
        "    "@ + label
    }
}

/// The first `upto` items of the list, each on a line of its own in the
/// vertical layout and one after the other in the horizontal one.
pub open spec fn items_text(labels: Seq<Seq<char>>, s: Selection, upto: int) -> Seq<char>
    decreases upto,
{
    if upto <= 0 {
        Seq::empty()
    } else {
        items_text(labels, s, upto - 1) + match s.layout {
            Select::Vertical => line_start_text(),
            Select::Horizontal => Seq::empty(),
        } + item_text(labels[upto - 1], s.cursor == upto - 1)
    }
}

/// The text that moves the cursor up by `rows` lines. One cursor command
/// takes a count of up to `u16::MAX`; a larger count is split over several
/// commands.
pub open spec fn rows_up_text(rows: nat) -> Seq<char>
    decreases rows,
{
    if rows <= u16::MAX {
        cursor_up_text(rows as u16)
    } else {
        cursor_up_text(u16::MAX) + rows_up_text((rows - u16::MAX) as nat)
    }
}

/// One drawing of the list. The vertical layout goes back up over the lines
/// it has reserved, one for each item, and rewrites each of them. The
/// horizontal layout moves up by a count of zero and rewrites its single
/// line.
pub open spec fn frame_text(labels: Seq<Seq<char>>, s: Selection) -> Seq<char> {
    match s.layout {
        Select::Vertical => rows_up_text(s.count) + items_text(labels, s, labels.len() as int),
        Select::Horizontal => cursor_up_text(0) + line_start_text() + items_text(
            labels,
            s,
            labels.len() as int,
        ),
    }
}

/// What ends a run of the picker: a fresh line, and the cursor shown again.
pub open spec fn closing_text() -> Seq<char> {
    "\n\r"@ + show_cursor_text()
}

/// What the picker writes in answer to `key`: the list drawn anew while the
/// matter is open, the closing text once an item is picked or the user has
/// cancelled.
pub open spec fn answer_text(labels: Seq<Seq<char>>, s: Selection, key: KeyPress) -> Seq<char> {
    if s.outcome(key) == Outcome::Pending {
        frame_text(labels, s.after(key))
    } else {
        closing_text()
    }
}

/// A picker as a mathematical value: the labels on display and the cursor
/// over them.
pub struct SelectorView {
    /// The text of each item, in order.
    pub labels: Seq<Seq<char>>,
    /// Where the cursor stands.
    pub selection: Selection,
}

/// A picker over a list of labelled items: it knows what to write to the
/// terminal and how each key press changes it.
pub struct Selector {
    labels: Vec<String>,
    state: SelectorState,
}

impl View for Selector {
    type V = SelectorView;

    closed spec fn view(&self) -> SelectorView {
        SelectorView { labels: self.labels.deep_view(), selection: self.state@ }
    }
}

impl Selector {
    #[verifier::type_invariant]
    spec fn one_label_for_each_item(&self) -> bool {
        self.labels@.len() == self.state@.count
    }

    /// A picker over `labels`, laid out as `layout` says, with the cursor on
    /// the first label.
    pub fn new(labels: Vec<String>, layout: Select) -> (selector: Self)
        requires
            labels@.len() >= 1,
        ensures
            selector@.labels == labels.deep_view(),
            selector@.selection == Selection::start(labels@.len(), layout),
    {
        let state = SelectorState::new(labels.len(), layout);
        Selector { labels, state }
    }

    /// Index of the highlighted item.
    pub fn cursor(&self) -> (cursor: usize)
        ensures
            cursor == self@.selection.cursor,
            self@.selection.valid(),
            self@.labels.len() == self@.selection.count,
    {
        proof {
            use_type_invariant(self);
        }
        self.state.cursor()
    }

    /// The text that opens a run of the picker under the prompt `prompt`.
    pub fn opening(&self, prompt: &str) -> (text: String)
        ensures
            text@ == opening_text(prompt@, self@.selection),
    {
        let mut text = hide_cursor();
        text.append(green().as_str());
        text.append("[?] ");
        text.append(reset().as_str());
        text.append(prompt);
        text.append("\n");
        match self.state.layout() {
            Select::Vertical => {
                let ghost head = text@;
                let count: usize = self.state.item_count();
                let mut i: usize = 0;
                while i < count
                    invariant
                        i <= count,
                        text@ == head + line_feeds(i as nat),
                    decreases count - i,
                {
                    text.append("\n");
                    proof {
                        reveal_strlit("\n");
                    }
                    i = i + 1;
                }
            },
            Select::Horizontal => {},
        }
        text
    }

    /// One drawing of the list with the cursor where it stands.
    pub fn frame(&self) -> (text: String)
        ensures
            text@ == frame_text(self@.labels, self@.selection),
    {
        proof {
            use_type_invariant(self);
        }
        let cursor: usize = self.state.cursor();
        let layout = self.state.layout();
        let mut text = match layout {
            Select::Vertical => rows_up(self.state.item_count()),
            Select::Horizontal => {
                let mut head = cursor_up(0);
                head.append("\n\r");
                head.append(clear_line().as_str());
                head
            },
        };
        let ghost head = text@;
        let mut i: usize = 0;
        while i < self.labels.len()
            invariant
                i <= self.labels.len(),
                layout == self@.selection.layout,
                cursor == self@.selection.cursor,
                self@.labels == self.labels.deep_view(),
                text@ == head + items_text(self@.labels, self@.selection, i as int),
            decreases self.labels.len() - i,
        {
            match layout {
                Select::Vertical => {
                    text.append("\n\r");
                    text.append(clear_line().as_str());
                },
                Select::Horizontal => {},
            }
            if cursor == i {
                text.append(bold().as_str());
                text.append("  > ");
                text.append(self.labels[i].as_str());
                text.append(reset().as_str());
            } else {
                text.append("    ");
                text.append(self.labels[i].as_str());
            }
            i = i + 1;
        }
        text
    }

    /// Handles one key press and returns, with what the key has decided,
    /// the text to write to the terminal in answer to it.
    pub fn react(&mut self, key: KeyPress) -> (answer: (Outcome, String))
        ensures
            final(self)@.labels == old(self)@.labels,
            final(self)@.selection == old(self)@.selection.after(key),
            answer.0 == old(self)@.selection.outcome(key),
            answer.1@ == answer_text(old(self)@.labels, old(self)@.selection, key),
    {
        proof {
            use_type_invariant(&*self);
        }
        let outcome = self.state.press(key);
        let text = match outcome {
            Outcome::Pending => self.frame(),
            _ => closing(),
        };
        (outcome, text)
    }
}

/// The text that moves the cursor up by `rows` lines.
fn rows_up(rows: usize) -> (text: String)
    ensures
        text@ == rows_up_text(rows as nat),
{
    let mut text = String::new();
    let mut left: usize = rows;
    while left > 0xFFFF
        invariant
            left <= rows,
            text@ + rows_up_text(left as nat) == rows_up_text(rows as nat),
        decreases left,
    {
        text.append(cursor_up(0xFFFF).as_str());
        left = left - 0xFFFF;
    }
    text.append(cursor_up(left as u16).as_str());
    text
}

/// The text that ends a run of the picker, whether an item was picked or
/// the user cancelled.
pub fn closing() -> (text: String)
    ensures
        text@ == closing_text(),
{
    let mut text = String::from_str("\n\r");
    text.append(show_cursor().as_str());
    text
}

/// The labels of `items`, in order, each as `label_of` gives it.
pub fn labels_of<T, F: Fn(&T) -> String>(items: &[T], label_of: F) -> (labels: Vec<String>)
    requires
        forall|i: int| 0 <= i < items@.len() ==> call_requires(label_of, (&#[trigger] items@[i],)),
    ensures
        labels@.len() == items@.len(),
        forall|i: int|
            0 <= i < items@.len() ==> call_ensures(label_of, (&items@[i],), #[trigger] labels@[i]),
{
    let mut labels: Vec<String> = Vec::new();
    let mut i: usize = 0;
    while i < items.len()
        invariant
            i <= items.len(),
            labels@.len() == i,
            forall|j: int|
                0 <= j < items@.len() ==> call_requires(label_of, (&#[trigger] items@[j],)),
            forall|j: int| 0 <= j < i ==> call_ensures(label_of, (&items@[j],), #[trigger] labels@[j]),
        decreases items.len() - i,
    {
        let label = label_of(&items[i]);
        labels.push(label);
        i = i + 1;
    }
    labels
}

} // verus!
