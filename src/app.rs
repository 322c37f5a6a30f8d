//! The input state machine: each key event edits the query, filters the
//! candidates anew, moves the highlight, or ends the interaction.

use vstd::prelude::*;
use crate::backend::get_projects;
use crate::filter::{filter, filter_spec};
use crate::selection::{move_highlight, moved_index, reconcile, reconciled_index, Direction};

verus! {

/// A key event, as far as the picker tells keys apart.
#[derive(Clone, Copy, Debug, PartialEq, Eq, Structural)]
pub enum KeyCode {
    Char(char),
    Backspace,
    Tab,
    BackTab,
    Up,
    Down,
    Enter,
    Other,
}

/// The picker's state: the query typed so far, the candidates it filters,
/// the candidates that match, the highlighted position among them, and
/// whether the interaction has ended.
pub struct App {
    search_text: String,
    candidates: Vec<String>,
    search_items: Vec<String>,
    highlighted_item_index: usize,
    should_exit: bool,
}

/// The state of an [`App`] as plain values.
pub ghost struct AppView {
    pub query: Seq<char>,
    pub candidates: Seq<Seq<char>>,
    pub items: Seq<Seq<char>>,
    pub highlight: int,
    pub exited: bool,
}

/// The shown items are the candidates that match the query, and the
/// highlight lies on one of them, or at 0 where there is none.
pub open spec fn is_valid(s: AppView) -> bool {
    &&& s.items == filter_spec(s.query, s.candidates)
    &&& (0 <= s.highlight < s.items.len() || s.highlight == 0)
}

/// The key that ends the interaction, in either case.
pub open spec fn is_quit_key(c: char) -> bool {
    c == 'q' || c == 'Q'
}

/// The state with the query replaced by `query` (not empty), the candidates
/// filtered by it, and the highlight kept on the same item where possible.
pub open spec fn refiltered(s: AppView, query: Seq<char>) -> AppView {
    let items = filter_spec(query, s.candidates);
    AppView {
        query,
        candidates: s.candidates,
        items,
        highlight: reconciled_index(s.items, s.highlight, items),
        exited: s.exited,
    }
}

/// The state with the highlight at `highlight`.
pub open spec fn highlighted(s: AppView, highlight: int) -> AppView {
    AppView {
        query: s.query,
        candidates: s.candidates,
        items: s.items,
        highlight,
        exited: s.exited,
    }
}

/// The state that one key event leads to from `s`. Once ended, the
/// interaction ignores all keys.
pub open spec fn step(s: AppView, key: KeyCode) -> AppView {
    if s.exited {
        s
    } else {
        match key {
            KeyCode::Char(c) => if is_quit_key(c) {
                AppView {
                    query: s.query,
                    candidates: s.candidates,
                    items: s.items,
                    highlight: s.highlight,
                    exited: true,
                }
            } else {
                refiltered(s, s.query.push(c))
            },
            KeyCode::Backspace => if s.query.len() == 0 {
                s
            } else if s.query.len() == 1 {
                AppView {
                    query: Seq::empty(),
                    candidates: s.candidates,
                    items: s.candidates,
                    highlight: 0,
                    exited: s.exited,
                }
            } else {
                refiltered(s, s.query.drop_last())
            },
            KeyCode::Tab | KeyCode::Down => highlighted(
                s,
                moved_index(s.highlight, s.items.len() as int, Direction::Next),
            ),
            KeyCode::BackTab | KeyCode::Up => highlighted(
                s,
                moved_index(s.highlight, s.items.len() as int, Direction::Previous),
            ),
            KeyCode::Enter | KeyCode::Other => s,
        }
    }
}

/// Relies on `String::push`: appends `c` at the end of `s`.
#[verifier::external_body]
fn push_char(s: &mut String, c: char)
    ensures
        final(s)@ == old(s)@.push(c),
{
    s.push(c);
}

/// The highlight that reconciliation gives lies on an item, or at 0.
proof fn lemma_reconciled_in_bounds(old: Seq<Seq<char>>, old_index: int, new: Seq<Seq<char>>)
    ensures
        0 <= reconciled_index(old, old_index, new) < new.len() || reconciled_index(
            old,
            old_index,
            new,
        ) == 0,
{
    if 0 <= old_index < old.len() && new.contains(old[old_index]) {
        crate::selection::lemma_reconcile_tracks_item(old, old_index, new);
    }
}

impl View for App {
    type V = AppView;

    closed spec fn view(&self) -> AppView {
        AppView {
            query: self.search_text@,
            candidates: self.candidates.deep_view(),
            items: self.search_items.deep_view(),
            highlight: self.highlighted_item_index as int,
            exited: self.should_exit,
        }
    }
}

impl App {
    /// The state holds together: see [`is_valid`].
    pub open spec fn wf(&self) -> bool {
        is_valid(self@)
    }

    /// A picker over all projects.
    pub fn new() -> (r: Self)
        ensures
            r.wf(),
            r@.query == Seq::<char>::empty(),
            r@.candidates == crate::backend::projects(),
            r@.items == crate::backend::projects(),
            r@.highlight == 0,
            !r@.exited,
    {
        Self::with_candidates(get_projects())
    }

    /// A picker over `candidates`, with an empty query that matches them all.
    pub fn with_candidates(candidates: Vec<String>) -> (r: Self)
        ensures
            r.wf(),
            r@.query == Seq::<char>::empty(),
            r@.candidates == candidates.deep_view(),
            r@.items == candidates.deep_view(),
            r@.highlight == 0,
            !r@.exited,
    {
        let search_items = candidates.clone();
        proof {
            assert(search_items.deep_view() =~= candidates.deep_view());
            crate::filter::lemma_filter_empty_query(candidates.deep_view());
        }
        App {
            search_text: String::new(),
            candidates,
            search_items,
            highlighted_item_index: 0,
            should_exit: false,
        }
    }

    /// The candidates that match the current query; moves the highlight to
    /// where the highlighted item stands among them.
    pub fn search(&mut self) -> (r: Vec<String>)
        ensures
            r.deep_view() == filter_spec(old(self)@.query, old(self)@.candidates),
            final(self)@ == highlighted(
                old(self)@,
                reconciled_index(old(self)@.items, old(self)@.highlight, r.deep_view()),
            ),
    {
        let new_items = filter(self.search_text.as_str(), &self.candidates);
        self.highlighted_item_index = reconcile(
            &self.search_items,
            self.highlighted_item_index,
            &new_items,
        );
        new_items
    }

    /// Applies one key event: a printable character extends the query,
    /// backspace shortens it, tab and down or back-tab and up move the
    /// highlight, `q` or `Q` ends the interaction; other keys change
    /// nothing. Each change of the query filters the candidates anew.
    pub fn handle_key_event(&mut self, key: KeyCode)
        requires
            old(self).wf(),
        ensures
            final(self).wf(),
            final(self)@ == step(old(self)@, key),
    {
        if self.should_exit {
            return;
        }
        match key {
            KeyCode::Char(c) => {
                if c == 'q' || c == 'Q' {
                    self.exit();
                } else {
                    push_char(&mut self.search_text, c);
                    let items = self.search();
                    self.search_items = items;
                    proof {
                        lemma_reconciled_in_bounds(
                            old(self)@.items,
                            old(self)@.highlight,
                            self@.items,
                        );
                    }
                }
            },
            KeyCode::Backspace => {
                let n = self.search_text.as_str().unicode_len();
                if n == 1 {
                    self.search_text = String::new();
                    let items = self.candidates.clone();
                    self.search_items = items;
                    self.highlighted_item_index = 0;
                    proof {
                        assert(self.search_items.deep_view() =~= self.candidates.deep_view());
                        crate::filter::lemma_filter_empty_query(self@.candidates);
                        assert(self@.query =~= Seq::<char>::empty());
                    }
                } else if n > 1 {
                    let shorter = String::from_str(self.search_text.as_str().substring_char(0, n - 1));
                    self.search_text = shorter;
                    let items = self.search();
                    self.search_items = items;
                    proof {
                        lemma_reconciled_in_bounds(
                            old(self)@.items,
                            old(self)@.highlight,
                            self@.items,
                        );
                    }
                }
            },
            KeyCode::Tab | KeyCode::Down => {
                self.highlighted_item_index = move_highlight(
                    self.highlighted_item_index,
                    self.search_items.len(),
                    Direction::Next,
                );
            },
            KeyCode::BackTab | KeyCode::Up => {
                self.highlighted_item_index = move_highlight(
                    self.highlighted_item_index,
                    self.search_items.len(),
                    Direction::Previous,
                );
            },
            KeyCode::Enter | KeyCode::Other => {},
        }
    }

    /// The query typed so far.
    pub fn search_text(&self) -> (r: &str)
        ensures
            r@ == self@.query,
    {
        self.search_text.as_str()
    }

    /// The candidates that match the query, in their original order.
    pub fn search_items(&self) -> (r: &Vec<String>)
        ensures
            r.deep_view() == self@.items,
    {
        &self.search_items
    }

    /// The highlighted position among the matching candidates.
    pub fn highlighted_item_index(&self) -> (r: usize)
        ensures
            r == self@.highlight,
    {
        self.highlighted_item_index
    }

    /// Whether the interaction has ended.
    pub fn should_exit(&self) -> (r: bool)
        ensures
            r == self@.exited,
    {
        self.should_exit
    }

    /// The query at the moment the interaction ended, once it has.
    pub fn outcome(&self) -> (r: Option<String>)
        ensures
            r is Some <==> self@.exited,
            r matches Some(q) ==> q@ == self@.query,
    {
        if self.should_exit {
            Some(self.search_text.clone())
        } else {
            None
        }
    }

    /// Ends the interaction.
    pub fn exit(&mut self)
        ensures
            final(self)@ == (AppView { exited: true, ..old(self)@ }),
    {
        self.should_exit = true;
    }
}

/// Typing a character that does not end the interaction keeps the
/// highlight on the item it was on, wherever that item still matches.
pub proof fn lemma_typing_keeps_highlighted_item(s: AppView, c: char)
    requires
        is_valid(s),
        !s.exited,
        !is_quit_key(c),
        0 <= s.highlight < s.items.len(),
        step(s, KeyCode::Char(c)).items.contains(s.items[s.highlight]),
    ensures
        0 <= step(s, KeyCode::Char(c)).highlight < step(s, KeyCode::Char(c)).items.len(),
        step(s, KeyCode::Char(c)).items[step(s, KeyCode::Char(c)).highlight] == s.items[s.highlight],
{
    crate::selection::lemma_reconcile_tracks_item(
        s.items,
        s.highlight,
        step(s, KeyCode::Char(c)).items,
    );
}

/// Erasing the last character of the query shows all candidates again,
/// with the highlight back at 0, wherever it was before.
pub proof fn lemma_erasing_query_resets(s: AppView)
    requires
        is_valid(s),
        !s.exited,
        s.query.len() == 1,
    ensures
        step(s, KeyCode::Backspace).query == Seq::<char>::empty(),
        step(s, KeyCode::Backspace).items == s.candidates,
        step(s, KeyCode::Backspace).highlight == 0,
{
}

/// The quit key ends the interaction from any state, with the query as it
/// stood.
pub proof fn lemma_quit_keeps_query(s: AppView, c: char)
    requires
        is_quit_key(c),
    ensures
        step(s, KeyCode::Char(c)).exited,
        step(s, KeyCode::Char(c)).query == s.query,
{
}

/// On an empty list, moving the highlight either way leaves it at 0.
pub proof fn lemma_moves_on_empty_list(s: AppView)
    requires
        is_valid(s),
        !s.exited,
        s.items.len() == 0,
    ensures
        step(s, KeyCode::Tab).highlight == 0,
        step(s, KeyCode::Down).highlight == 0,
        step(s, KeyCode::BackTab).highlight == 0,
        step(s, KeyCode::Up).highlight == 0,
{
}

/// Every key event keeps the state valid.
pub proof fn lemma_step_keeps_valid(s: AppView, key: KeyCode)
    requires
        is_valid(s),
    ensures
        is_valid(step(s, key)),
{
    let t = step(s, key);
    if !s.exited {
        match key {
            KeyCode::Char(c) => {
                if !is_quit_key(c) {
                    lemma_reconciled_in_bounds(s.items, s.highlight, t.items);
                }
            },
            KeyCode::Backspace => {
                if s.query.len() == 1 {
                    crate::filter::lemma_filter_empty_query(s.candidates);
                    assert(t.query =~= Seq::<char>::empty());
                } else if s.query.len() > 1 {
                    lemma_reconciled_in_bounds(s.items, s.highlight, t.items);
                }
            },
            _ => {},
        }
    }
}

impl Default for App {
    /// A picker over all projects.
    fn default() -> (r: Self)
        ensures
            r.wf(),
            r@.query == Seq::<char>::empty(),
            r@.candidates == crate::backend::projects(),
            r@.items == crate::backend::projects(),
            r@.highlight == 0,
            !r@.exited,
    {
        Self::new()
    }
}

} // verus!
