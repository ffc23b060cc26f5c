//! The book's content: pages of text lines and the buttons that move between them.
use vstd::prelude::*;

verus! {

/// Horizontal alignment of one line of text.
#[derive(Clone, Copy, Debug, PartialEq, Eq, Structural)]
pub enum TextAlign {
    Start,
    Center,
    End,
}

/// How the content of a page is distributed along the screen.
#[derive(Clone, Copy, Debug, PartialEq, Eq, Structural)]
pub enum ContentAlign {
    FlexStart,
    FlexEnd,
    Center,
    SpaceBetween,
    SpaceAround,
    SpaceEvenly,
}

/// What pressing a button does.
#[derive(Clone, Debug, PartialEq, Eq)]
pub enum ButtonAction {
    /// Go to the page that follows in reading order.
    NextPage,
    /// Go to the first page that carries this name.
    JumpToPage(String),
    /// End the run and show the scoreboard.
    JumpToEnd,
}

/// One line of text on a page.
#[derive(Clone, Debug, PartialEq, Eq)]
pub struct Line {
    pub text: String,
    pub align: Option<TextAlign>,
}

/// A button shown on a page: its label and its action.
#[derive(Clone, Debug, PartialEq, Eq)]
pub struct Button {
    pub text: String,
    pub action: ButtonAction,
}

/// Whether the entries of a button mapping have pairwise distinct input names.
pub open spec fn keys_unique(entries: Seq<(String, Button)>) -> bool {
    forall|i: int, j: int|
        0 <= i < entries.len() && 0 <= j < entries.len() && i != j ==> entries[i].0@
            != entries[j].0@
}

/// Whether some entry is bound to the input name `key`.
pub open spec fn has_key(entries: Seq<(String, Button)>, key: Seq<char>) -> bool {
    exists|i: int| 0 <= i < entries.len() && entries[i].0@ == key
}

/// The position of the entry bound to `key`, if there is one.
pub open spec fn key_position(entries: Seq<(String, Button)>, key: Seq<char>) -> Option<int> {
    if has_key(entries, key) {
        Some(choose|i: int| 0 <= i < entries.len() && entries[i].0@ == key)
    } else {
        None
    }
}

/// The button bound to the input name `key`, if there is one.
pub open spec fn button_for(entries: Seq<(String, Button)>, key: Seq<char>) -> Option<Button> {
    match key_position(entries, key) {
        Some(i) => Some(entries[i].1),
        None => None,
    }
}

/// The entries after binding `key` to `button`: an existing binding is replaced in
/// place, a new one goes at the end.
pub open spec fn bound(entries: Seq<(String, Button)>, key: String, button: Button) -> Seq<
    (String, Button),
> {
    match key_position(entries, key@) {
        Some(i) => entries.update(i, (key, button)),
        None => entries.push((key, button)),
    }
}

/// A mapping from input names to buttons. Each input name is bound at most once, and
/// the entries keep the order in which their names were first bound.
#[derive(Debug, PartialEq, Eq)]
pub struct ButtonMap {
    entries: Vec<(String, Button)>,
}

impl View for ButtonMap {
    type V = Seq<(String, Button)>;

    closed spec fn view(&self) -> Seq<(String, Button)> {
        self.entries@
    }
}

impl ButtonMap {
    #[verifier::type_invariant]
    closed spec fn inv(self) -> bool {
        keys_unique(self.entries@)
    }

    /// The mapping with no buttons.
    pub fn new() -> (r: ButtonMap)
        ensures
            r@ == Seq::<(String, Button)>::empty(),
    {
        ButtonMap { entries: Vec::new() }
    }

    /// The number of input names bound.
    pub fn len(&self) -> (r: usize)
        ensures
            r == self@.len(),
    {
        self.entries.len()
    }

    /// The entries in order.
    pub fn entries(&self) -> (r: &Vec<(String, Button)>)
        ensures
            r@ == self@,
    {
        &self.entries
    }

    /// The position of the entry bound to `key`, if any.
    fn position(&self, key: &str) -> (r: Option<usize>)
        ensures
            r matches Some(i) ==> key_position(self@, key@) == Some(i as int),
            r is None ==> key_position(self@, key@) is None,
    {
        proof {
            use_type_invariant(self);
        }
        let wanted: String = key.to_owned();
        let mut i: usize = 0;
        while i < self.entries.len()
            invariant
                0 <= i <= self.entries@.len(),
                keys_unique(self.entries@),
                wanted@ == key@,
                forall|j: int| 0 <= j < i ==> self.entries@[j].0@ != wanted@,
            decreases self.entries@.len() - i,
        {
            let found: bool = self.entries[i].0 == wanted;
            if found {
                assert(self.entries@[i as int].0@ == wanted@);
                assert(has_key(self@, wanted@));
                let ghost k = choose|k: int| 0 <= k < self@.len() && self@[k].0@ == wanted@;
                assert(k == i);
                return Some(i);
            }
            i = i + 1;
        }
        None
    }

    /// The button bound to the input name `key`, if any.
    pub fn get(&self, key: &str) -> (r: Option<&Button>)
        ensures
            match button_for(self@, key@) {
                Some(b) => r == Some(&b),
                None => r is None,
            },
    {
        match self.position(key) {
            Some(i) => Some(&self.entries[i].1),
            None => None,
        }
    }

    /// Binds `key` to `button`, replacing the button that `key` had.
    pub fn insert(&mut self, key: String, button: Button)
        ensures
            final(self)@ == bound(old(self)@, key, button),
    {
        proof {
            use_type_invariant(&*self);
        }
        let pos = self.position(key.as_str());
        let mut entries: Vec<(String, Button)> = Vec::new();
        std::mem::swap(&mut self.entries, &mut entries);
        match pos {
            Some(i) => {
                entries.set(i, (key, button));
            },
            None => {
                entries.push((key, button));
            },
        }
        assert(keys_unique(entries@));
        std::mem::swap(&mut self.entries, &mut entries);
    }
}

/// One screen of the book: its lines, and the buttons that lead away from it.
#[derive(Debug, PartialEq, Eq)]
pub struct Page {
    /// The name that jumps refer to.
    pub name: Option<String>,
    /// Whether any button pressed on this page ends the run.
    pub is_final: bool,
    /// The lines of text, top to bottom.
    pub lines: Vec<Line>,
    /// The buttons of this page; where absent, the book's default buttons apply.
    pub buttons: Option<ButtonMap>,
    /// How the content is distributed along the screen.
    pub align: Option<ContentAlign>,
}

/// The whole book: its pages in reading order and the buttons that pages use by default.
#[derive(Debug, PartialEq, Eq)]
pub struct Book {
    pub pages: Vec<Page>,
    pub default_buttons: ButtonMap,
}

/// Whether page `p` carries the name `name`.
pub open spec fn is_named(p: Page, name: Seq<char>) -> bool {
    match p.name {
        Some(n) => n@ == name,
        None => false,
    }
}

/// The lowest index below `n` of a page named `name`, if there is one.
pub open spec fn first_named(pages: Seq<Page>, name: Seq<char>, n: int) -> Option<int>
    decreases n,
{
    if n <= 0 {
        None
    } else {
        match first_named(pages, name, n - 1) {
            Some(i) => Some(i),
            None => if is_named(pages[n - 1], name) {
                Some(n - 1)
            } else {
                None
            },
        }
    }
}

/// The lowest index of a page named `name`, if there is one.
pub open spec fn page_named(pages: Seq<Page>, name: Seq<char>) -> Option<int> {
    first_named(pages, name, pages.len() as int)
}

/// The buttons that apply on `page` of `book`.
pub open spec fn buttons_of(page: Page, book: Book) -> ButtonMap {
    match page.buttons {
        Some(m) => m,
        None => book.default_buttons,
    }
}

proof fn lemma_first_named_prefix(pages: Seq<Page>, name: Seq<char>, n: int)
    requires
        0 <= n <= pages.len(),
    ensures
        match first_named(pages, name, n) {
            Some(i) => 0 <= i < n && is_named(pages[i], name) && forall|j: int|
                0 <= j < i ==> !is_named(#[trigger] pages[j], name),
            None => forall|j: int| 0 <= j < n ==> !is_named(#[trigger] pages[j], name),
        },
    decreases n,
{
    if n > 0 {
        lemma_first_named_prefix(pages, name, n - 1);
    }
}

/// `page_named` finds the lowest index of a page with the name, and finds none only
/// where no page has it.
pub proof fn lemma_page_named(pages: Seq<Page>, name: Seq<char>)
    ensures
        match page_named(pages, name) {
            Some(i) => 0 <= i < pages.len() && is_named(pages[i], name) && forall|j: int|
                0 <= j < i ==> !is_named(#[trigger] pages[j], name),
            None => forall|j: int| 0 <= j < pages.len() ==> !is_named(#[trigger] pages[j], name),
        },
{
    lemma_first_named_prefix(pages, name, pages.len() as int);
}

proof fn lemma_first_named_stays(pages: Seq<Page>, name: Seq<char>, m: int, n: int)
    requires
        m <= n,
        first_named(pages, name, m) is Some,
    ensures
        first_named(pages, name, n) == first_named(pages, name, m),
    decreases n - m,
{
    if m < n {
        lemma_first_named_stays(pages, name, m, n - 1);
    }
}

/// The buttons that apply on `page`: its own, or else the book's defaults.
pub fn resolve_buttons<'a>(page: &'a Page, book: &'a Book) -> (r: &'a ButtonMap)
    ensures
        *r == buttons_of(*page, *book),
{
    match &page.buttons {
        Some(m) => m,
        None => &book.default_buttons,
    }
}

impl Book {
    /// A book with no pages and no default buttons.
    pub fn new() -> (r: Book)
        ensures
            r.pages@.len() == 0,
            r.default_buttons@.len() == 0,
    {
        Book { pages: Vec::new(), default_buttons: ButtonMap::new() }
    }

    /// The index of the first page named `name`, if any.
    pub fn page_by_name(&self, name: &str) -> (r: Option<usize>)
        ensures
            match r {
                Some(i) => page_named(self.pages@, name@) == Some(i as int),
                None => page_named(self.pages@, name@) is None,
            },
    {
        let wanted: String = name.to_owned();
        let mut i: usize = 0;
        while i < self.pages.len()
            invariant
                0 <= i <= self.pages@.len(),
                wanted@ == name@,
                first_named(self.pages@, name@, i as int) is None,
            decreases self.pages@.len() - i,
        {
            let hit: bool = match &self.pages[i].name {
                Some(n) => *n == wanted,
                None => false,
            };
            if hit {
                proof {
                    lemma_first_named_stays(
                        self.pages@,
                        name@,
                        i + 1,
                        self.pages@.len() as int,
                    );
                }
                return Some(i);
            }
            i = i + 1;
        }
        None
    }
}

impl Default for Book {
    fn default() -> (r: Book)
        ensures
            r.pages@.len() == 0,
            r.default_buttons@.len() == 0,
    {
        Book::new()
    }
}

} // verus!
