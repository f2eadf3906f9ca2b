use challenges::chat;
use challenges::counter::App;
use challenges::search::{binary_search_step, probe_point, SearchStep};
use challenges::todos::{Store, ToDo};

#[test]
fn counter_counts_up_and_down() {
    let mut app = App::new();
    assert_eq!(app.get_count(), 0);
    assert_eq!(app.increment(), 1);
    assert_eq!(app.increment(), 2);
    assert_eq!(app.decrement(), Some(1));
    assert_eq!(app.decrement(), Some(0));
    assert_eq!(app.get_count(), 0);
}

#[test]
fn counter_never_goes_negative() {
    let mut app = App::new();
    assert_eq!(app.decrement(), None);
    assert_eq!(app.get_count(), 0);
}

#[test]
fn empty_store_greets_instead_of_listing() {
    let store = Store { items: Vec::new() };
    assert_eq!(store.format_todos(), "No ToDos found - have a lovely day!");
}

#[test]
fn fresh_todo_starts_open_with_a_36_char_id() {
    let mut store = Store { items: Vec::new() };
    store.add_todo(ToDo::new("water plants".to_string()));
    let listing = store.format_todos();
    // "ID: " + a 36-character uuid + the rest of the line.
    assert_eq!(
        listing.len(),
        "ID: ".len() + 36 + " -- Title: water plants -- Done: false".len()
    );
    assert!(listing.starts_with("ID: "));
    assert!(listing.ends_with(" -- Title: water plants -- Done: false"));
}

#[test]
fn listing_runs_the_lines_together_in_order() {
    let mut store = Store { items: Vec::new() };
    store.add_todo(ToDo::new("one".to_string()));
    store.add_todo(ToDo::new("two".to_string()));
    let listing = store.format_todos();
    let first = listing.find("Title: one").unwrap();
    let second = listing.find("Title: two").unwrap();
    assert!(first < second);
    assert_eq!(listing.matches("ID: ").count(), 2);
}

#[test]
fn probe_point_is_the_midpoint() {
    assert_eq!(probe_point(0, 10), 5);
    assert_eq!(probe_point(6, 10), 8);
    assert_eq!(probe_point(3, 3), 3);
}

#[test]
fn probe_decisions_match_the_digits() {
    // Target found at the probe.
    assert_eq!(binary_search_step(0, 10, 4, b'4'), SearchStep::Found);
    // Probed digit too large: search below the midpoint.
    assert_eq!(
        binary_search_step(0, 10, 4, b'7'),
        SearchStep::Narrowed { lo: 0, hi: 4 }
    );
    // Probed digit too small: search above the midpoint.
    assert_eq!(
        binary_search_step(0, 10, 4, b'2'),
        SearchStep::Narrowed { lo: 6, hi: 10 }
    );
    // The sentinel byte halts the scan.
    assert_eq!(binary_search_step(0, 10, 4, 58), SearchStep::Halted);
}

#[test]
fn handles_are_claimed_once() {
    let mut state = chat::State::new();
    let id = state.claim_user_handle("ada").expect("first claim succeeds");
    assert_eq!(id.len(), 36);
    assert!(state.claim_user_handle("ada").is_none());
    let online = state.get_online_users();
    assert_eq!(online.len(), 1);
    assert_eq!(online[0].0, id);
    assert_eq!(online[0].1, "ada");
}

#[test]
fn rooms_are_recreated_in_place() {
    let mut state = chat::State::new();
    assert!(state.create_hangout("lobby").is_none());
    let previous = state.create_hangout("lobby");
    assert!(previous.is_some());
    assert_eq!(state.get_hangout_short(), vec!["lobby".to_string()]);
}

#[test]
fn joining_an_open_room_yields_the_join_event() {
    let mut state = chat::State::new();
    let id = state.claim_user_handle("ada").unwrap();
    state.create_hangout("lobby");
    assert_eq!(state.init_hangout("lobby"), Some(()));
    assert_eq!(state.init_hangout("missing"), None);
    let (event, members) = state
        .connect_to_hangout("lobby", &id)
        .expect("the room's feed is open");
    match event {
        chat::Message::UserJoin(who) => assert_eq!(who, id),
        chat::Message::ChatMessage(_) => panic!("expected a join event"),
    }
    assert_eq!(members.len(), 1);
    assert_eq!(members[0].1, "ada");
}

#[test]
fn joining_without_a_feed_still_records_the_user() {
    let mut state = chat::State::new();
    let id = state.claim_user_handle("ada").unwrap();
    state.create_hangout("quiet");
    // No feed yet: the join is swallowed but recorded.
    assert!(state.connect_to_hangout("quiet", &id).is_none());
    state.init_hangout("quiet");
    let (_, members) = state.connect_to_hangout("quiet", &id).unwrap();
    assert_eq!(members.len(), 2);
}

#[test]
fn unknown_users_cannot_join() {
    let mut state = chat::State::new();
    state.create_hangout("lobby");
    state.init_hangout("lobby");
    assert!(state.connect_to_hangout("lobby", "nobody").is_none());
}

#[test]
fn saying_something_yields_the_chat_event() {
    let mut state = chat::State::new();
    state.create_hangout("lobby");
    assert!(state.broadcast_to_hangout("lobby", "hello").is_none());
    state.init_hangout("lobby");
    match state.broadcast_to_hangout("lobby", "hello") {
        Some(chat::Message::ChatMessage(text)) => assert_eq!(text, "hello"),
        _ => panic!("expected the chat event back"),
    }
}
