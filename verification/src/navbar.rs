//! The bar from which a part of the screen is picked.

use vstd::prelude::*;

verus! {

/// How the bar is placed on the screen.
#[derive(Clone, Copy, Debug, PartialEq, Eq, Structural)]
pub enum Placement {
    Absolute,
    Relative,
}

/// An entry of the bar: the part of the screen that it stands for.
#[derive(Clone, Copy, Debug, PartialEq, Eq, Structural)]
pub enum NavBarMessage {
    Editor,
    Selection,
}

/// What the bar holds: its entries from left to right, how and where it
/// is placed, and the entry that was picked last, if any.
#[derive(Debug)]
pub struct NavBarState {
    pub list: Vec<NavBarMessage>,
    pub placement: Placement,
    pub selected: Option<NavBarMessage>,
    pub x: usize,
    pub y: usize,
}

/// A `NavBarState` as a plain value.
pub ghost struct NavBarView {
    pub list: Seq<NavBarMessage>,
    pub placement: Placement,
    pub selected: Option<NavBarMessage>,
    pub x: usize,
    pub y: usize,
}

impl View for NavBarState {
    type V = NavBarView;

    open spec fn view(&self) -> NavBarView {
        NavBarView {
            list: self.list@,
            placement: self.placement,
            selected: self.selected,
            x: self.x,
            y: self.y,
        }
    }
}

/// The word that stands for a placement.
pub open spec fn placement_label(placement: Placement) -> Seq<char> {
    match placement {
        Placement::Absolute => "absolute"@,
        Placement::Relative => "relative"@,
    }
}

/// The word that the bar shows for an entry.
pub open spec fn entry_label(entry: NavBarMessage) -> Seq<char> {
    match entry {
        NavBarMessage::Editor => "Editor"@,
        NavBarMessage::Selection => "Selection"@,
    }
}

/// How many columns an entry reaches to the right of the column where it
/// begins: one less than its word has letters.
pub open spec fn entry_reach(entry: NavBarMessage) -> int {
    match entry {
        NavBarMessage::Editor => 5,
        NavBarMessage::Selection => 8,
    }
}

/// The column where the entry at `i` begins. The first begins at column 1,
/// and each later one at the last column of the one before it.
pub open spec fn entry_start(entries: Seq<NavBarMessage>, i: int) -> int
    decreases i,
{
    if i <= 0 {
        1
    } else {
        entry_start(entries, i - 1) + entry_reach(entries[i - 1])
    }
}

/// Whether column `x` belongs to the entry at `i`: it is the column where
/// the entry begins or one of those that it reaches.
pub open spec fn covers(entries: Seq<NavBarMessage>, i: int, x: int) -> bool {
    entry_start(entries, i) <= x <= entry_start(entries, i) + entry_reach(entries[i])
}

/// The first entry from `i` on that column `x` belongs to.
pub open spec fn entry_from(entries: Seq<NavBarMessage>, x: int, i: int) -> Option<NavBarMessage>
    decreases entries.len() - i,
{
    if i >= entries.len() {
        None
    } else if covers(entries, i, x) {
        Some(entries[i])
    } else {
        entry_from(entries, x, i + 1)
    }
}

/// The entry that a press at column `x` and row `y` picks on a bar that is
/// `height` rows high: the first that `x` belongs to, as long as `y` is not
/// below the bar.
pub open spec fn entry_at(entries: Seq<NavBarMessage>, x: int, y: int, height: int) -> Option<
    NavBarMessage,
> {
    if y <= height {
        entry_from(entries, x, 0)
    } else {
        None
    }
}

/// The bar after a mouse event: a press of the left button on an entry
/// picks it, and nothing else changes anything.
pub open spec fn clicked(v: NavBarView, x: usize, y: usize, left_down: bool, height: usize) -> NavBarView {
    match entry_at(v.list, x as int, y as int, height as int) {
        Some(entry) if left_down => NavBarView { selected: Some(entry), ..v },
        _ => v,
    }
}

/// An entry begins at column 1 or later, and no entry begins left of the
/// one before it.
pub proof fn lemma_entry_start_grows(entries: Seq<NavBarMessage>, i: int, j: int)
    requires
        i <= j,
    ensures
        1 <= entry_start(entries, i) <= entry_start(entries, j),
    decreases j,
{
    if j > 0 {
        if i < j {
            lemma_entry_start_grows(entries, i, j - 1);
        } else {
            lemma_entry_start_grows(entries, i - 1, j - 1);
        }
    }
}

/// No entry to which `x` belongs begins right of `x`.
proof fn lemma_none_further(entries: Seq<NavBarMessage>, x: int, i: int)
    requires
        0 <= i,
        x < entry_start(entries, i),
    ensures
        entry_from(entries, x, i) is None,
    decreases entries.len() - i,
{
    if i < entries.len() {
        lemma_entry_start_grows(entries, i, i + 1);
        lemma_none_further(entries, x, i + 1);
    }
}

impl Placement {
    /// The word that stands for the placement.
    pub fn label(&self) -> (word: &'static str)
        ensures
            word@ == placement_label(*self),
    {
        match self {
            Placement::Absolute => "absolute",
            Placement::Relative => "relative",
        }
    }
}

impl NavBarMessage {
    /// The word that the bar shows for the entry.
    pub fn label(&self) -> (word: &'static str)
        ensures
            word@ == entry_label(*self),
    {
        match self {
            NavBarMessage::Editor => "Editor",
            NavBarMessage::Selection => "Selection",
        }
    }

    /// How far the entry reaches: see `entry_reach`.
    pub fn reach(&self) -> (columns: usize)
        ensures
            columns == entry_reach(*self),
            columns == entry_label(*self).len() - 1,
    {
        proof {
            reveal_strlit("Editor");
            reveal_strlit("Selection");
        }
        match self {
            NavBarMessage::Editor => 5,
            NavBarMessage::Selection => 8,
        }
    }
}

impl NavBarState {
    /// A bar with the editor and the selection on it, in this order, and
    /// nothing picked.
    pub fn new(placement: Placement, x: usize, y: usize) -> (bar: Self)
        ensures
            bar@ == (NavBarView {
                list: seq![NavBarMessage::Editor, NavBarMessage::Selection],
                placement,
                selected: None,
                x,
                y,
            }),
    {
        let mut list: Vec<NavBarMessage> = Vec::new();
        list.push(NavBarMessage::Editor);
        list.push(NavBarMessage::Selection);
        assert(list@ =~= seq![NavBarMessage::Editor, NavBarMessage::Selection]);
        NavBarState { list, placement, selected: None, x, y }
    }

    /// Takes a message: the entry that it names is picked.
    pub fn message(&mut self, message: NavBarMessage)
        ensures
            final(self)@ == (NavBarView { selected: Some(message), ..old(self)@ }),
    {
        self.selected = Some(message);
    }

    /// The entry at column `x` and row `y`: see `entry_at`.
    pub fn entry_at(&self, x: usize, y: usize, height: usize) -> (entry: Option<NavBarMessage>)
        ensures
            entry == entry_at(self@.list, x as int, y as int, height as int),
    {
        if y > height {
            return None;
        }
        let mut start: usize = 1;
        let mut i: usize = 0;
        while i < self.list.len()
            invariant
                y <= height,
                i <= self.list@.len(),
                start == entry_start(self@.list, i as int),
                entry_from(self@.list, x as int, 0) == entry_from(self@.list, x as int, i as int),
            decreases self.list@.len() - i,
        {
            if start > x {
                proof {
                    lemma_none_further(self@.list, x as int, i as int);
                }
                return None;
            }
            let reach = self.list[i].reach();
            if x - start <= reach {
                return Some(self.list[i]);
            }
            start = start + reach;
            i += 1;
        }
        None
    }

    /// Takes a mouse event on a bar that is `height` rows high: see
    /// `clicked`.
    pub fn on_mouse(&mut self, x: usize, y: usize, left_down: bool, height: usize)
        ensures
            final(self)@ == clicked(old(self)@, x, y, left_down, height),
    {
        if left_down {
            if let Some(entry) = self.entry_at(x, y, height) {
                self.selected = Some(entry);
            }
        }
    }
}

} // verus!
