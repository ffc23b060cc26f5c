//! The reading session: which page is shown, how input moves between pages, and when a
//! run ends on the scoreboard.
use vstd::prelude::*;

use crate::content::{
    Book, Button, ButtonAction, ButtonMap, Page, button_for, buttons_of, is_named,
    lemma_page_named, page_named, resolve_buttons,
};
use crate::leaderboard::{Leaderboard, Score, is_ranking, recorded};

verus! {

/// The input that, on the scoreboard, starts a new run.
pub const CONFIRM_INPUT: &'static str = "space";

/// Whether the session shows a page or the scoreboard.
#[derive(Clone, Copy, Debug, PartialEq, Eq, Structural)]
pub enum Mode {
    Reading,
    Scoreboard,
}

/// What an input did.
#[derive(Clone, Copy, Debug, PartialEq, Eq, Structural)]
pub enum NavigationEvent {
    /// The session moved to the next page in reading order (which may lie past the last).
    Advanced,
    /// The session moved to the named page.
    Jumped,
    /// No page carries the name jumped to; the session stayed on its page.
    JumpTargetMissing,
    /// The run ended: its score was recorded and the scoreboard is shown.
    Finished,
    /// A new run started on the first page.
    Restarted,
}

/// The state of a session as contracts see it.
pub struct Session {
    pub book: Option<Book>,
    pub page_index: int,
    pub pages_read: int,
    pub mode: Mode,
    pub scores: Seq<Score>,
}

/// The page shown: none before a book is loaded, on the scoreboard, or past the last page.
pub open spec fn active(s: Session) -> Option<Page> {
    match s.book {
        Some(b) => if s.mode == Mode::Reading && 0 <= s.page_index < b.pages@.len() {
            Some(b.pages@[s.page_index])
        } else {
            None
        },
        None => None,
    }
}

/// What pressing `button` on `page` does: on a final page, every button ends the run.
pub open spec fn effective_action(page: Page, button: Button) -> ButtonAction {
    if page.is_final {
        ButtonAction::JumpToEnd
    } else {
        button.action
    }
}

/// The button bound to `input` on the page shown, if any.
pub open spec fn pressed(s: Session, input: Seq<char>) -> Option<Button> {
    match active(s) {
        Some(page) => button_for(buttons_of(page, s.book.unwrap())@, input),
        None => None,
    }
}

/// The session after loading `book`: its first page, at the start of a run.
pub open spec fn loaded(s: Session, book: Book) -> Session {
    Session { book: Some(book), page_index: 0, pages_read: 0, mode: Mode::Reading, ..s }
}

/// The index of the page that a jump to `name` reaches, if any.
pub open spec fn jump_target(s: Session, name: Seq<char>) -> Option<int> {
    match s.book {
        Some(b) => page_named(b.pages@, name),
        None => None,
    }
}

/// The session after the input `input` at time `now`, and what the input did.
pub open spec fn step(s: Session, input: Seq<char>, now: i64) -> (Session, Option<
    NavigationEvent,
>) {
    if s.mode == Mode::Scoreboard {
        if input == CONFIRM_INPUT@ {
            (
                Session { page_index: 0, pages_read: 0, mode: Mode::Reading, ..s },
                Some(NavigationEvent::Restarted),
            )
        } else {
            (s, None)
        }
    } else {
        match active(s) {
            None => (s, None),
            Some(page) => match pressed(s, input) {
                None => (s, None),
                Some(button) => {
                    let read = s.pages_read + 1;
                    match effective_action(page, button) {
                        ButtonAction::NextPage => (
                            Session { page_index: s.page_index + 1, pages_read: read, ..s },
                            Some(NavigationEvent::Advanced),
                        ),
                        ButtonAction::JumpToPage(name) => match jump_target(s, name@) {
                            Some(i) => (
                                Session { page_index: i, pages_read: read, ..s },
                                Some(NavigationEvent::Jumped),
                            ),
                            None => (
                                Session { pages_read: read, ..s },
                                Some(NavigationEvent::JumpTargetMissing),
                            ),
                        },
                        ButtonAction::JumpToEnd => (
                            Session {
                                pages_read: read,
                                mode: Mode::Scoreboard,
                                scores: recorded(
                                    s.scores,
                                    Score { timestamp: now, pages_read: read as u32 },
                                ),
                                ..s
                            },
                            Some(NavigationEvent::Finished),
                        ),
                    }
                },
            },
        }
    }
}

/// Loading a book starts a run on its first page: reading, at index 0, with no page read
/// yet; that first page is shown exactly where the book has pages.
pub proof fn lemma_load_resets(s: Session, book: Book)
    ensures
        loaded(s, book).mode == Mode::Reading,
        loaded(s, book).page_index == 0,
        loaded(s, book).pages_read == 0,
        active(loaded(s, book)) == if book.pages@.len() > 0 {
            Some(book.pages@[0])
        } else {
            None
        },
{
}

/// On a final page, any button bound to the input ends the run on the scoreboard, whatever
/// its own action; no page is shown after it.
pub proof fn lemma_final_page_ends_run(s: Session, input: Seq<char>, now: i64)
    requires
        active(s) is Some,
        active(s).unwrap().is_final,
        pressed(s, input) is Some,
    ensures
        step(s, input, now).0.mode == Mode::Scoreboard,
        active(step(s, input, now).0) is None,
        step(s, input, now).1 == Some(NavigationEvent::Finished),
{
}

/// A jump to a name that no page of the book carries leaves the page and the mode as they
/// were: only the count of pages read goes up, as for every button that matches.
pub proof fn lemma_unresolved_jump_stays(s: Session, input: Seq<char>, now: i64, name: String)
    requires
        active(s) is Some,
        !active(s).unwrap().is_final,
        pressed(s, input) is Some,
        pressed(s, input).unwrap().action == ButtonAction::JumpToPage(name),
        forall|j: int|
            0 <= j < s.book.unwrap().pages@.len() ==> !is_named(
                #[trigger] s.book.unwrap().pages@[j],
                name@,
            ),
    ensures
        step(s, input, now).0 == (Session { pages_read: s.pages_read + 1, ..s }),
        step(s, input, now).1 == Some(NavigationEvent::JumpTargetMissing),
{
    lemma_page_named(s.book.unwrap().pages@, name@);
}

/// On the scoreboard, the confirm input starts a new run on the first page with no page
/// read; any other input changes nothing.
pub proof fn lemma_scoreboard_restart(s: Session, input: Seq<char>, now: i64)
    requires
        s.mode == Mode::Scoreboard,
    ensures
        input == CONFIRM_INPUT@ ==> step(s, input, now) == (
            Session { page_index: 0, pages_read: 0, mode: Mode::Reading, ..s },
            Some(NavigationEvent::Restarted),
        ),
        input != CONFIRM_INPUT@ ==> step(s, input, now) == (s, None::<NavigationEvent>),
{
}

/// What an input resolved to on the page shown.
enum Move {
    Next,
    Jump(String),
    End,
}

/// Relies on chrono's `From<SystemTime> for DateTime<Utc>`, applied to the system clock and
/// read as milliseconds since the Unix epoch through DateTime::timestamp_millis. Nothing is
/// known of the value; a clock set before the epoch gives a negative one. The conversion
/// fails only for a clock set beyond the range chrono holds, some 262,000 years from now.
#[verifier::external_body]
fn now_millis() -> (r: i64) {
    chrono::DateTime::<chrono::Utc>::from(std::time::SystemTime::now()).timestamp_millis()
}

/// A reading session over one book, with the scoreboard of its finished runs.
#[derive(Debug)]
pub struct TextSystem {
    book: Option<Book>,
    page_index: usize,
    page_read: u32,
    mode: Mode,
    scores: Leaderboard,
}

impl View for TextSystem {
    type V = Session;

    closed spec fn view(&self) -> Session {
        Session {
            book: self.book,
            page_index: self.page_index as int,
            pages_read: self.page_read as int,
            mode: self.mode,
            scores: self.scores@,
        }
    }
}

impl TextSystem {
    /// The page index and the count of pages read are machine integers: the index fits a
    /// `usize`, the count a `u32`.
    pub proof fn lemma_view_ranges(&self)
        ensures
            0 <= self@.page_index <= usize::MAX,
            0 <= self@.pages_read <= u32::MAX,
    {
    }

    /// A session with no book loaded yet and no scores.
    pub fn new() -> (r: TextSystem)
        ensures
            r@ == (Session {
                book: None,
                page_index: 0,
                pages_read: 0,
                mode: Mode::Reading,
                scores: Seq::<Score>::empty(),
            }),
    {
        TextSystem {
            book: None,
            page_index: 0,
            page_read: 0,
            mode: Mode::Reading,
            scores: Leaderboard::new(),
        }
    }

    /// Loads `book` in place of any other, and starts a run on its first page. The scores
    /// of earlier runs stay.
    pub fn load(&mut self, book: Book)
        ensures
            final(self)@ == loaded(old(self)@, book),
    {
        self.book = Some(book);
        self.page_index = 0;
        self.page_read = 0;
        self.mode = Mode::Reading;
    }

    /// The page shown, if any.
    pub fn active_page(&self) -> (r: Option<&Page>)
        ensures
            match active(self@) {
                Some(p) => r == Some(&p),
                None => r is None,
            },
    {
        match &self.book {
            Some(book) => {
                if self.mode == Mode::Reading && self.page_index < book.pages.len() {
                    Some(&book.pages[self.page_index])
                } else {
                    None
                }
            },
            None => None,
        }
    }

    /// The index of the first page of the book named `name`, if any.
    pub fn page_by_name(&self, name: &str) -> (r: Option<usize>)
        ensures
            match r {
                Some(i) => jump_target(self@, name@) == Some(i as int),
                None => jump_target(self@, name@) is None,
            },
    {
        match &self.book {
            Some(book) => book.page_by_name(name),
            None => None,
        }
    }

    /// Moves to the next page in reading order.
    pub fn move_next(&mut self)
        requires
            old(self)@.page_index < usize::MAX,
        ensures
            final(self)@ == (Session { page_index: old(self)@.page_index + 1, ..old(self)@ }),
    {
        self.page_index = self.page_index + 1;
    }

    /// Moves to the first page named `name`, and tells whether there was one; where there
    /// was none, nothing changes.
    pub fn jump_to(&mut self, name: &str) -> (r: bool)
        ensures
            r == jump_target(old(self)@, name@) is Some,
            match jump_target(old(self)@, name@) {
                Some(i) => final(self)@ == (Session { page_index: i, ..old(self)@ }),
                None => final(self)@ == old(self)@,
            },
    {
        match self.page_by_name(name) {
            Some(i) => {
                self.page_index = i;
                true
            },
            None => false,
        }
    }

    /// Handles the input named `input`, pressed at time `now` (milliseconds since the Unix
    /// epoch): on the scoreboard, the confirm input starts a new run; on a page, the button
    /// bound to the input takes effect.
    pub fn handle_input_at(&mut self, input: &str, now: i64) -> (r: Option<NavigationEvent>)
        requires
            pressed(old(self)@, input@) is Some ==> old(self)@.pages_read < u32::MAX,
        ensures
            (final(self)@, r) == step(old(self)@, input@, now),
    {
        if self.mode == Mode::Scoreboard {
            let pressed: String = input.to_owned();
            let confirm: String = CONFIRM_INPUT.to_owned();
            if pressed == confirm {
                self.page_index = 0;
                self.page_read = 0;
                self.mode = Mode::Reading;
                return Some(NavigationEvent::Restarted);
            }
            return None;
        }
        let mv: Move;
        match &self.book {
            None => {
                return None;
            },
            Some(book) => {
                if self.page_index >= book.pages.len() {
                    return None;
                }
                let page = &book.pages[self.page_index];
                let buttons = resolve_buttons(page, book);
                match buttons.get(input) {
                    None => {
                        return None;
                    },
                    Some(button) => {
                        if page.is_final {
                            mv = Move::End;
                        } else {
                            match &button.action {
                                ButtonAction::NextPage => {
                                    mv = Move::Next;
                                },
                                ButtonAction::JumpToPage(name) => {
                                    mv = Move::Jump(name.clone());
                                },
                                ButtonAction::JumpToEnd => {
                                    mv = Move::End;
                                },
                            }
                        }
                    },
                }
            },
        }
        self.page_read = self.page_read + 1;
        match mv {
            Move::Next => {
                self.move_next();
                Some(NavigationEvent::Advanced)
            },
            Move::Jump(name) => {
                if self.jump_to(name.as_str()) {
                    Some(NavigationEvent::Jumped)
                } else {
                    Some(NavigationEvent::JumpTargetMissing)
                }
            },
            Move::End => {
                self.scores.record(self.page_read, now);
                self.mode = Mode::Scoreboard;
                Some(NavigationEvent::Finished)
            },
        }
    }

    /// Handles the input named `input` now, as `handle_input_at` does at the current time.
    pub fn handle_input(&mut self, input: &str) -> (r: Option<NavigationEvent>)
        requires
            pressed(old(self)@, input@) is Some ==> old(self)@.pages_read < u32::MAX,
        ensures
            exists|now: i64| (final(self)@, r) == step(old(self)@, input@, now),
    {
        let now = now_millis();
        self.handle_input_at(input, now)
    }

    /// Whether a page or the scoreboard is shown.
    pub fn mode(&self) -> (r: Mode)
        ensures
            r == self@.mode,
    {
        self.mode
    }

    /// The index of the current page; it may lie past the last page.
    pub fn page_index(&self) -> (r: usize)
        ensures
            r == self@.page_index,
    {
        self.page_index
    }

    /// How many pages this run has gone through.
    pub fn pages_read(&self) -> (r: u32)
        ensures
            r == self@.pages_read,
    {
        self.page_read
    }

    /// The book loaded, if any.
    pub fn book(&self) -> (r: Option<&Book>)
        ensures
            match self@.book {
                Some(b) => r == Some(&b),
                None => r is None,
            },
    {
        match &self.book {
            Some(b) => Some(b),
            None => None,
        }
    }

    /// The buttons of the page shown, if any: its own, or else the book's defaults.
    pub fn active_buttons(&self) -> (r: Option<&ButtonMap>)
        ensures
            match active(self@) {
                Some(p) => r == Some(&buttons_of(p, self@.book.unwrap())),
                None => r is None,
            },
    {
        match &self.book {
            Some(book) => {
                if self.mode == Mode::Reading && self.page_index < book.pages.len() {
                    Some(resolve_buttons(&book.pages[self.page_index], book))
                } else {
                    None
                }
            },
            None => None,
        }
    }

    /// The scores of the finished runs, oldest first.
    pub fn leaderboard(&self) -> (r: &Leaderboard)
        ensures
            r@ == self@.scores,
    {
        &self.scores
    }

    /// The scores of the finished runs, best first, equal ones in the order recorded.
    pub fn ranked_view(&self) -> (r: Vec<Score>)
        ensures
            is_ranking(self@.scores, r@),
    {
        self.scores.ranked_view()
    }
}

impl Default for TextSystem {
    fn default() -> (r: TextSystem)
        ensures
            r@ == (Session {
                book: None,
                page_index: 0,
                pages_read: 0,
                mode: Mode::Reading,
                scores: Seq::<Score>::empty(),
            }),
    {
        TextSystem::new()
    }
}

} // verus!
