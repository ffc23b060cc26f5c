use ld50_book::content::{Book, Button, ButtonAction, ButtonMap, Line, Page};
use ld50_book::engine::{Mode, NavigationEvent, TextSystem};

fn buttons(pairs: &[(&str, ButtonAction)]) -> ButtonMap {
    let mut m = ButtonMap::new();
    for (key, action) in pairs {
        m.insert(key.to_string(), Button { text: key.to_string(), action: action.clone() });
    }
    m
}

fn page(name: &str, is_final: bool, map: Option<ButtonMap>) -> Page {
    Page {
        name: Some(name.to_string()),
        is_final,
        lines: vec![Line { text: format!("page {}", name), align: None }],
        buttons: map,
        align: None,
    }
}

fn two_page_book() -> Book {
    let mut book = Book::new();
    book.pages.push(page("intro", false, Some(buttons(&[("space", ButtonAction::NextPage)]))));
    book.pages.push(page("end", true, Some(buttons(&[("space", ButtonAction::NextPage)]))));
    book
}

#[test]
fn scenario_two_pages_and_restart() {
    let mut sys = TextSystem::new();
    sys.load(two_page_book());
    assert_eq!(sys.active_page().unwrap().name.as_deref(), Some("intro"));

    assert_eq!(sys.handle_input_at("space", 5), Some(NavigationEvent::Advanced));
    assert_eq!(sys.pages_read(), 1);
    assert_eq!(sys.page_index(), 1);
    assert_eq!(sys.mode(), Mode::Reading);

    assert_eq!(sys.handle_input_at("space", 6), Some(NavigationEvent::Finished));
    assert_eq!(sys.pages_read(), 2);
    assert_eq!(sys.mode(), Mode::Scoreboard);
    assert_eq!(sys.leaderboard().len(), 1);
    assert_eq!(sys.leaderboard().scores()[0].pages_read, 2);
    assert_eq!(sys.leaderboard().scores()[0].timestamp, 6);
    assert!(sys.active_page().is_none());

    assert_eq!(sys.handle_input_at("space", 7), Some(NavigationEvent::Restarted));
    assert_eq!(sys.page_index(), 0);
    assert_eq!(sys.pages_read(), 0);
    assert_eq!(sys.mode(), Mode::Reading);
    assert_eq!(sys.active_page().unwrap().name.as_deref(), Some("intro"));
    assert_eq!(sys.leaderboard().len(), 1);
}

#[test]
fn load_shows_first_page() {
    let mut sys = TextSystem::new();
    assert!(sys.active_page().is_none());
    sys.load(two_page_book());
    assert_eq!(sys.mode(), Mode::Reading);
    assert_eq!(sys.page_index(), 0);
    assert_eq!(sys.pages_read(), 0);
    assert_eq!(sys.active_page().unwrap().lines[0].text, "page intro");
}

#[test]
fn load_empty_book_shows_nothing() {
    let mut sys = TextSystem::default();
    sys.load(Book::new());
    assert_eq!(sys.mode(), Mode::Reading);
    assert_eq!(sys.page_index(), 0);
    assert!(sys.active_page().is_none());
    assert_eq!(sys.handle_input_at("space", 0), None);
    assert_eq!(sys.pages_read(), 0);
}

#[test]
fn load_resets_a_run_in_progress() {
    let mut sys = TextSystem::new();
    sys.load(two_page_book());
    sys.handle_input_at("space", 1);
    sys.handle_input_at("space", 2);
    assert_eq!(sys.mode(), Mode::Scoreboard);
    sys.load(two_page_book());
    assert_eq!(sys.mode(), Mode::Reading);
    assert_eq!(sys.page_index(), 0);
    assert_eq!(sys.pages_read(), 0);
    assert_eq!(sys.leaderboard().len(), 1);
}

#[test]
fn input_before_load_is_ignored() {
    let mut sys = TextSystem::new();
    assert_eq!(sys.handle_input_at("space", 0), None);
    assert_eq!(sys.pages_read(), 0);
    assert!(sys.book().is_none());
}

#[test]
fn final_page_overrides_jump() {
    let mut book = Book::new();
    book.pages.push(page("a", true, Some(buttons(&[("y", ButtonAction::JumpToPage("b".to_string()))]))));
    book.pages.push(page("b", false, None));
    let mut sys = TextSystem::new();
    sys.load(book);
    assert_eq!(sys.handle_input_at("y", 42), Some(NavigationEvent::Finished));
    assert_eq!(sys.mode(), Mode::Scoreboard);
    assert_eq!(sys.page_index(), 0);
    assert!(sys.active_page().is_none());
    assert_eq!(sys.leaderboard().scores()[0].pages_read, 1);
}

#[test]
fn unresolved_jump_keeps_page() {
    let mut book = Book::new();
    book.pages.push(page("a", false, Some(buttons(&[("n", ButtonAction::JumpToPage("nowhere".to_string()))]))));
    let mut sys = TextSystem::new();
    sys.load(book);
    assert_eq!(sys.handle_input_at("n", 0), Some(NavigationEvent::JumpTargetMissing));
    assert_eq!(sys.page_index(), 0);
    assert_eq!(sys.mode(), Mode::Reading);
    assert_eq!(sys.pages_read(), 1);
    assert_eq!(sys.active_page().unwrap().name.as_deref(), Some("a"));
}

#[test]
fn jump_goes_to_named_page() {
    let mut book = Book::new();
    book.pages.push(page("a", false, Some(buttons(&[("2", ButtonAction::JumpToPage("c".to_string()))]))));
    book.pages.push(page("b", false, None));
    book.pages.push(page("c", false, None));
    let mut sys = TextSystem::new();
    sys.load(book);
    assert_eq!(sys.handle_input_at("2", 0), Some(NavigationEvent::Jumped));
    assert_eq!(sys.page_index(), 2);
    assert_eq!(sys.pages_read(), 1);
}

#[test]
fn default_buttons_apply_without_page_buttons() {
    let mut book = Book::new();
    book.default_buttons = buttons(&[("m", ButtonAction::NextPage)]);
    book.pages.push(page("a", false, None));
    book.pages.push(page("b", false, None));
    let mut sys = TextSystem::new();
    sys.load(book);
    assert!(sys.active_buttons().unwrap().get("m").is_some());
    assert_eq!(sys.handle_input_at("space", 0), None);
    assert_eq!(sys.handle_input_at("m", 0), Some(NavigationEvent::Advanced));
    assert_eq!(sys.page_index(), 1);
}

#[test]
fn unbound_input_changes_nothing() {
    let mut sys = TextSystem::new();
    sys.load(two_page_book());
    assert_eq!(sys.handle_input_at("3", 0), None);
    assert_eq!(sys.page_index(), 0);
    assert_eq!(sys.pages_read(), 0);
}

#[test]
fn next_past_last_page_shows_nothing() {
    let mut book = Book::new();
    book.pages.push(page("only", false, Some(buttons(&[("space", ButtonAction::NextPage)]))));
    let mut sys = TextSystem::new();
    sys.load(book);
    assert_eq!(sys.handle_input_at("space", 0), Some(NavigationEvent::Advanced));
    assert_eq!(sys.page_index(), 1);
    assert!(sys.active_page().is_none());
    assert!(sys.active_buttons().is_none());
    assert_eq!(sys.handle_input_at("space", 0), None);
    assert_eq!(sys.pages_read(), 1);
}

#[test]
fn scoreboard_ignores_other_inputs() {
    let mut sys = TextSystem::new();
    sys.load(two_page_book());
    sys.handle_input_at("space", 1);
    sys.handle_input_at("space", 2);
    assert_eq!(sys.handle_input_at("y", 3), None);
    assert_eq!(sys.handle_input_at("1", 3), None);
    assert_eq!(sys.mode(), Mode::Scoreboard);
    assert_eq!(sys.pages_read(), 2);
    assert_eq!(sys.leaderboard().len(), 1);
}

#[test]
fn jump_to_and_page_by_name() {
    let mut sys = TextSystem::new();
    assert_eq!(sys.page_by_name("end"), None);
    assert!(!sys.jump_to("end"));
    sys.load(two_page_book());
    assert_eq!(sys.page_by_name("end"), Some(1));
    assert!(sys.jump_to("end"));
    assert_eq!(sys.page_index(), 1);
    assert!(!sys.jump_to("missing"));
    assert_eq!(sys.page_index(), 1);
    sys.move_next();
    assert_eq!(sys.page_index(), 2);
}

#[test]
fn handle_input_stamps_the_current_time() {
    let mut sys = TextSystem::new();
    sys.load(two_page_book());
    sys.handle_input("space");
    assert_eq!(sys.handle_input("space"), Some(NavigationEvent::Finished));
    let stamp = sys.leaderboard().scores()[0].timestamp;
    // 2020-09-13 in milliseconds since the epoch.
    assert!(stamp > 1_600_000_000_000);
}

#[test]
fn engine_ranked_view_orders_runs() {
    let mut book = Book::new();
    book.pages.push(page("a", false, Some(buttons(&[("space", ButtonAction::NextPage), ("y", ButtonAction::JumpToEnd)]))));
    book.pages.push(page("b", true, Some(buttons(&[("space", ButtonAction::NextPage)]))));
    let mut sys = TextSystem::new();
    sys.load(book);
    sys.handle_input_at("y", 10);
    sys.handle_input_at("space", 11);
    sys.handle_input_at("space", 12);
    sys.handle_input_at("space", 13);
    let ranked = sys.ranked_view();
    assert_eq!(ranked.len(), 2);
    assert_eq!(ranked[0].pages_read, 2);
    assert_eq!(ranked[0].timestamp, 13);
    assert_eq!(ranked[1].pages_read, 1);
    assert_eq!(ranked[1].timestamp, 10);
}
