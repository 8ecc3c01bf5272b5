//! The cursor of the list picker: where it stands, how a key moves it, and
//! what a key press decides.

use vstd::math::min;
use vstd::prelude::*;

verus! {

/// How the items are laid out on the terminal.
#[derive(Clone, Copy, Debug, PartialEq, Eq, Structural)]
pub enum Select {
    /// Each item on a line of its own.
    Vertical,
    /// All items on one line.
    Horizontal,
}

/// A key press, as far as the picker tells keys apart.
#[derive(Clone, Copy, Debug, PartialEq, Eq, Structural)]
pub enum KeyPress {
    /// A plain character; `'\n'` is the Enter key.
    Char(char),
    /// A character pressed together with Ctrl.
    Ctrl(char),
    /// The arrow up.
    Up,
    /// The arrow down.
    Down,
    /// The arrow to the left.
    Left,
    /// The arrow to the right.
    Right,
    /// Any other key.
    Other,
}

/// What a key press asks the picker to do.
#[derive(Clone, Copy, Debug, PartialEq, Eq, Structural)]
pub enum Command {
    /// Pick the item under the cursor.
    Confirm,
    /// Move the cursor to the item before.
    Previous,
    /// Move the cursor to the item after.
    Next,
    /// Leave without picking an item.
    Cancel,
    /// Nothing.
    Ignore,
}

/// The meaning of `key` under the layout `layout`.
///
/// Enter confirms and Ctrl+C cancels. Up and Down move in both layouts;
/// Left and Right move only where the items stand side by side.
pub open spec fn command_of(key: KeyPress, layout: Select) -> Command {
    match key {
        KeyPress::Char(c) => if c == '\n' { Command::Confirm } else { Command::Ignore },
        KeyPress::Ctrl(c) => if c == 'c' { Command::Cancel } else { Command::Ignore },
        KeyPress::Up => Command::Previous,
        KeyPress::Down => Command::Next,
        KeyPress::Left => if layout == Select::Horizontal { Command::Previous } else { Command::Ignore },
        KeyPress::Right => if layout == Select::Horizontal { Command::Next } else { Command::Ignore },
        KeyPress::Other => Command::Ignore,
    }
}

/// Reads a key press under the given layout.
pub fn command(key: KeyPress, layout: Select) -> (command: Command)
    ensures
        command == command_of(key, layout),
    no_unwind
{
    match key {
        KeyPress::Char(c) => if c == '\n' { Command::Confirm } else { Command::Ignore },
        KeyPress::Ctrl(c) => if c == 'c' { Command::Cancel } else { Command::Ignore },
        KeyPress::Up => Command::Previous,
        KeyPress::Down => Command::Next,
        KeyPress::Left => match layout {
            Select::Horizontal => Command::Previous,
            Select::Vertical => Command::Ignore,
        },
        KeyPress::Right => match layout {
            Select::Horizontal => Command::Next,
            Select::Vertical => Command::Ignore,
        },
        KeyPress::Other => Command::Ignore,
    }
}

/// What a key press has decided.
#[derive(Clone, Copy, Debug, PartialEq, Eq, Structural)]
pub enum Outcome {
    /// Nothing yet: the picker waits for the next key.
    Pending,
    /// The item at this index was confirmed.
    Chosen(usize),
    /// The user cancelled; no item was picked.
    Aborted,
}

/// The picker's cursor as a mathematical value.
pub struct Selection {
    /// Index of the highlighted item.
    pub cursor: nat,
    /// Number of items on display.
    pub count: nat,
    /// How the items are laid out.
    pub layout: Select,
}

impl Selection {
    /// The cursor points at one of the items.
    pub open spec fn valid(self) -> bool {
        self.cursor < self.count <= usize::MAX
    }

    /// The selection a picker starts from: the cursor on the first item.
    pub open spec fn start(count: nat, layout: Select) -> Selection {
        Selection { cursor: 0, count, layout }
    }

    /// The selection after `key`. The cursor moves by one item and stops at
    /// either end of the list; it never wraps around.
    pub open spec fn after(self, key: KeyPress) -> Selection {
        match command_of(key, self.layout) {
            Command::Previous => if self.cursor > 0 {
                Selection { cursor: (self.cursor - 1) as nat, ..self }
            } else {
                self
            },
            Command::Next => if self.cursor + 1 < self.count {
                Selection { cursor: self.cursor + 1, ..self }
            } else {
                self
            },
            _ => self,
        }
    }

    /// What `key` decides: confirming picks the item under the cursor,
    /// cancelling picks none, and every other key leaves the matter open.
    pub open spec fn outcome(self, key: KeyPress) -> Outcome {
        match command_of(key, self.layout) {
            Command::Confirm => Outcome::Chosen(self.cursor as usize),
            Command::Cancel => Outcome::Aborted,
            _ => Outcome::Pending,
        }
    }

    /// The selection and the outcome after the keys of `keys`, pressed in
    /// order. Keys that follow a confirming or cancelling key are not read.
    pub open spec fn replay(self, keys: Seq<KeyPress>) -> (Selection, Outcome)
        decreases keys.len(),
    {
        if keys.len() == 0 {
            (self, Outcome::Pending)
        } else if self.outcome(keys[0]) != Outcome::Pending {
            (self, self.outcome(keys[0]))
        } else {
            self.after(keys[0]).replay(keys.drop_first())
        }
    }
}

/// The state of one run of the picker.
pub struct SelectorState {
    cursor: usize,
    item_count: usize,
    layout: Select,
}

impl View for SelectorState {
    type V = Selection;

    closed spec fn view(&self) -> Selection {
        Selection { cursor: self.cursor as nat, count: self.item_count as nat, layout: self.layout }
    }
}

impl SelectorState {
    #[verifier::type_invariant]
    spec fn cursor_in_range(&self) -> bool {
        self.cursor < self.item_count
    }

    /// A picker over `item_count` items with the cursor on the first one.
    pub fn new(item_count: usize, layout: Select) -> (state: Self)
        requires
            item_count >= 1,
        ensures
            state@ == Selection::start(item_count as nat, layout),
            state@.valid(),
    {
        SelectorState { cursor: 0, item_count, layout }
    }

    /// Index of the highlighted item.
    pub fn cursor(&self) -> (cursor: usize)
        ensures
            cursor == self@.cursor,
            self@.valid(),
    {
        proof {
            use_type_invariant(self);
        }
        self.cursor
    }

    /// Number of items on display.
    pub fn item_count(&self) -> (count: usize)
        ensures
            count == self@.count,
            self@.valid(),
    {
        proof {
            use_type_invariant(self);
        }
        self.item_count
    }

    /// How the items are laid out.
    pub fn layout(&self) -> (layout: Select)
        ensures
            layout == self@.layout,
    {
        self.layout
    }

    /// Handles one key press: moves the cursor as the key asks and says
    /// what the key has decided.
    pub fn press(&mut self, key: KeyPress) -> (outcome: Outcome)
        ensures
            final(self)@ == old(self)@.after(key),
            outcome == old(self)@.outcome(key),
            final(self)@.valid(),
        no_unwind
    {
        proof {
            use_type_invariant(&*self);
        }
        match command(key, self.layout) {
            Command::Confirm => Outcome::Chosen(self.cursor),
            Command::Cancel => Outcome::Aborted,
            Command::Previous => {
                if self.cursor > 0 {
                    self.cursor = self.cursor - 1;
                }
                Outcome::Pending
            },
            Command::Next => {
                if self.cursor < self.item_count - 1 {
                    self.cursor = self.cursor + 1;
                }
                Outcome::Pending
            },
            Command::Ignore => Outcome::Pending,
        }
    }

    /// Handles the keys of `keys` in order, up to and including the first
    /// one that confirms or cancels.
    pub fn replay(&mut self, keys: &[KeyPress]) -> (outcome: Outcome)
        ensures
            (final(self)@, outcome) == old(self)@.replay(keys@),
            final(self)@.valid(),
    {
        proof {
            use_type_invariant(&*self);
        }
        let mut i: usize = 0;
        assert(keys@.skip(0) == keys@);
        while i < keys.len()
            invariant
                i <= keys.len(),
                self@.valid(),
                old(self)@.replay(keys@) == self@.replay(keys@.skip(i as int)),
            decreases keys.len() - i,
        {
            assert(keys@.skip(i as int).drop_first() == keys@.skip(i + 1));
            let outcome = self.press(keys[i]);
            match outcome {
                Outcome::Pending => {},
                _ => {
                    return outcome;
                },
            }
            i = i + 1;
        }
        Outcome::Pending
    }
}

/// `keys` holds nothing but presses that ask for the next item.
pub open spec fn all_next(keys: Seq<KeyPress>, layout: Select) -> bool {
    forall|i: int| 0 <= i < keys.len() ==> command_of(#[trigger] keys[i], layout) == Command::Next
}

/// `keys` holds nothing but presses that ask for the previous item.
pub open spec fn all_previous(keys: Seq<KeyPress>, layout: Select) -> bool {
    forall|i: int|
        0 <= i < keys.len() ==> command_of(#[trigger] keys[i], layout) == Command::Previous
}

/// Presses of "next", as many as `keys` holds, move the cursor that many
/// items on, but never past the last item, and decide nothing.
pub proof fn lemma_next_presses(s: Selection, keys: Seq<KeyPress>)
    requires
        s.valid(),
        all_next(keys, s.layout),
    ensures
        s.replay(keys) == (
            Selection { cursor: min((s.cursor + keys.len()) as int, s.count - 1) as nat, ..s },
            Outcome::Pending,
        ),
    decreases keys.len(),
{
    if keys.len() > 0 {
        lemma_next_presses(s.after(keys[0]), keys.drop_first());
    }
}

/// Presses of "previous", as many as `keys` holds, move the cursor that
/// many items back, but never before the first item, and decide nothing.
pub proof fn lemma_previous_presses(s: Selection, keys: Seq<KeyPress>)
    requires
        s.valid(),
        all_previous(keys, s.layout),
    ensures
        s.replay(keys) == (
            Selection { cursor: (s.cursor - min(s.cursor as int, keys.len() as int)) as nat, ..s },
            Outcome::Pending,
        ),
    decreases keys.len(),
{
    if keys.len() > 0 {
        lemma_previous_presses(s.after(keys[0]), keys.drop_first());
    }
}

/// From the start, presses of "next" and none of "previous" leave the
/// cursor at the number of presses, or at the last item where that number
/// would pass it.
pub proof fn lemma_next_from_start(count: nat, layout: Select, keys: Seq<KeyPress>)
    requires
        1 <= count <= usize::MAX,
        all_next(keys, layout),
    ensures
        Selection::start(count, layout).replay(keys).0.cursor == min(keys.len() as int, count - 1),
        Selection::start(count, layout).replay(keys).1 == Outcome::Pending,
{
    lemma_next_presses(Selection::start(count, layout), keys);
}

/// The list has no wraparound: with the cursor on the last item, further
/// presses of "next" leave it there, and with the cursor on the first item,
/// presses of "previous" leave it there.
pub proof fn lemma_no_wraparound(s: Selection, keys: Seq<KeyPress>)
    requires
        s.valid(),
    ensures
        s.cursor == s.count - 1 && all_next(keys, s.layout) ==> s.replay(keys).0 == s,
        s.cursor == 0 && all_previous(keys, s.layout) ==> s.replay(keys).0 == s,
{
    if s.cursor == s.count - 1 && all_next(keys, s.layout) {
        lemma_next_presses(s, keys);
    }
    if s.cursor == 0 && all_previous(keys, s.layout) {
        lemma_previous_presses(s, keys);
    }
}

/// A key press leaves the cursor on one of the items and moves it by one
/// item at most.
pub proof fn lemma_cursor_stays_in_range(s: Selection, key: KeyPress)
    requires
        s.valid(),
    ensures
        s.after(key).valid(),
        s.after(key).count == s.count,
        s.after(key).layout == s.layout,
        s.cursor - 1 <= s.after(key).cursor <= s.cursor + 1,
{
}

/// Confirming picks exactly the item under the cursor, and nothing but
/// confirming picks an item.
pub proof fn lemma_confirm_picks_cursor(s: Selection, key: KeyPress)
    requires
        s.valid(),
    ensures
        command_of(key, s.layout) == Command::Confirm <==> s.outcome(key) == Outcome::Chosen(
            s.cursor as usize,
        ),
        s.outcome(key) is Chosen ==> s.outcome(key)->Chosen_0 == s.cursor,
{
}

/// Cancelling is told apart from every choice: it yields `Aborted`, which
/// carries no item, and nothing but cancelling yields it.
pub proof fn lemma_cancel_picks_nothing(s: Selection, key: KeyPress)
    ensures
        command_of(key, s.layout) == Command::Cancel <==> s.outcome(key) == Outcome::Aborted,
        s.outcome(key) == Outcome::Aborted ==> !(s.outcome(key) is Chosen),
{
}

/// Whatever keys are pressed, the cursor ends on one of the items, and an
/// item that is picked is the one under the cursor at that moment.
pub proof fn lemma_replay_keeps_range(s: Selection, keys: Seq<KeyPress>)
    requires
        s.valid(),
    ensures
        s.replay(keys).0.valid(),
        s.replay(keys).0.count == s.count,
        s.replay(keys).0.layout == s.layout,
        s.replay(keys).1 is Chosen ==> s.replay(keys).1->Chosen_0 == s.replay(keys).0.cursor,
    decreases keys.len(),
{
    if keys.len() > 0 && s.outcome(keys[0]) == Outcome::Pending {
        lemma_replay_keeps_range(s.after(keys[0]), keys.drop_first());
    }
}

} // verus!
