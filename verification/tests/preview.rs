use deck::error::DeckError;
use deck::decimal::{parse_decimal, push_decimal};
use deck::preview::{reload_body, route, Phase, PreviewState, Route, WaitReply, Waiter};
use deck::text::{chars_of, string_of};

fn serving(page: &str) -> PreviewState {
    PreviewState::start(Ok(page.to_string())).ok().unwrap()
}

#[test]
fn server_starts_with_the_first_page() {
    let state = serving("<p>one</p>");
    assert_eq!(state.phase(), Phase::Serving);
    assert_eq!(state.generation(), 0);
    assert_eq!(state.waiting(), 0);
    assert_eq!(state.page(), "<p>one</p>");
}

#[test]
fn no_server_starts_without_a_page() {
    assert!(matches!(PreviewState::start(Err(DeckError::ThemeNotFound)), Err(DeckError::ThemeNotFound)));
}

#[test]
fn served_page_waits_for_the_next_generation() {
    let mut state = serving("<p>one</p>\n");
    let served = state.serve_page();
    assert!(served.starts_with("<p>one</p>\n<script>\n"));
    assert!(served.contains("request.open(\"GET\", \"/wait?since=0\");"));
    assert!(served.ends_with("</script>\n"));
    assert!(state.on_change());
    state.finish_render(Ok("<p>two</p>\n".to_string()));
    let served = state.serve_page();
    assert!(served.starts_with("<p>two</p>\n<script>\n"));
    assert!(served.contains("/wait?since=1\""));
}

#[test]
fn waiter_is_woken_by_a_render() {
    let mut state = serving("one");
    assert_eq!(state.wait(7, 0), WaitReply::Pending);
    assert_eq!(state.wait(8, 0), WaitReply::Pending);
    assert_eq!(state.waiting(), 2);
    assert!(state.on_change());
    assert_eq!(state.phase(), Phase::Rerendering);
    let woken = state.finish_render(Ok("two".to_string()));
    assert_eq!(woken, vec![Waiter { id: 7, since: 0 }, Waiter { id: 8, since: 0 }]);
    assert_eq!(state.waiting(), 0);
    assert_eq!(state.phase(), Phase::Serving);
    assert_eq!(state.generation(), 1);
    assert_eq!(state.page(), "two");
    assert_eq!(state.wait(7, 0), WaitReply::Reload(1));
    assert_eq!(state.waiting(), 0);
    assert_eq!(state.wait(7, 1), WaitReply::Pending);
}

#[test]
fn failed_render_keeps_the_last_good_page() {
    let mut state = serving("good");
    assert_eq!(state.wait(1, 0), WaitReply::Pending);
    assert!(state.on_change());
    let woken = state.finish_render(Err(DeckError::Minification("style has unbalanced braces")));
    assert_eq!(woken, vec![Waiter { id: 1, since: 0 }]);
    assert_eq!(state.page(), "good");
    assert_eq!(state.generation(), 1);
    assert_eq!(state.phase(), Phase::Serving);
    assert_eq!(state.wait(1, 0), WaitReply::Reload(1));
    assert!(state.serve_page().starts_with("good<script>"));
    assert!(state.on_change());
    state.finish_render(Ok("better".to_string()));
    assert_eq!(state.page(), "better");
    assert_eq!(state.generation(), 2);
}

#[test]
fn change_during_a_render_starts_no_second_render() {
    let mut state = serving("one");
    assert!(state.on_change());
    assert!(!state.on_change());
    assert_eq!(state.phase(), Phase::Rerendering);
}

#[test]
fn outcome_without_a_render_changes_nothing() {
    let mut state = serving("one");
    state.wait(1, 0);
    let woken = state.finish_render(Ok("two".to_string()));
    assert!(woken.is_empty());
    assert_eq!(state.page(), "one");
    assert_eq!(state.generation(), 0);
    assert_eq!(state.waiting(), 1);
}

#[test]
fn stopping_lets_the_waiters_go() {
    let mut state = serving("one");
    state.wait(1, 0);
    state.wait(2, 5);
    let released = state.stop();
    assert_eq!(released, vec![Waiter { id: 1, since: 0 }, Waiter { id: 2, since: 5 }]);
    assert_eq!(state.phase(), Phase::Stopping);
    assert_eq!(state.wait(3, 0), WaitReply::Closed);
    assert_eq!(state.waiting(), 0);
    assert!(!state.on_change());
    state.close();
    assert_eq!(state.phase(), Phase::Stopped);
    assert!(state.stop().is_empty());
    assert_eq!(state.phase(), Phase::Stopped);
    assert!(!state.on_change());
    assert!(state.finish_render(Ok("late".to_string())).is_empty());
    assert_eq!(state.page(), "one");
    assert_eq!(state.wait(4, 0), WaitReply::Closed);
}

#[test]
fn stop_during_a_render_drops_its_outcome() {
    let mut state = serving("one");
    assert!(state.on_change());
    state.stop();
    assert!(state.finish_render(Ok("two".to_string())).is_empty());
    assert_eq!(state.page(), "one");
    assert_eq!(state.generation(), 0);
    assert_eq!(state.phase(), Phase::Stopping);
}

#[test]
fn close_before_stop_changes_nothing() {
    let mut state = serving("one");
    state.close();
    assert_eq!(state.phase(), Phase::Serving);
}

#[test]
fn requests_are_routed() {
    assert_eq!(route("/"), Route::Page);
    assert_eq!(route("/?x=1"), Route::Page);
    assert_eq!(route("/wait?since=0"), Route::Wait { since: 0 });
    assert_eq!(route("/wait?since=42"), Route::Wait { since: 42 });
    assert_eq!(route("/wait?since=18446744073709551615"), Route::Wait { since: u64::MAX });
    assert_eq!(route("/wait?since=18446744073709551616"), Route::NotFound);
    assert_eq!(route("/wait?since="), Route::NotFound);
    assert_eq!(route("/wait?since=-1"), Route::NotFound);
    assert_eq!(route("/wait?since=1x"), Route::NotFound);
    assert_eq!(route("/wait?until=1"), Route::NotFound);
    assert_eq!(route("/wait"), Route::NotFound);
    assert_eq!(route("/wait/"), Route::NotFound);
    assert_eq!(route("/other"), Route::NotFound);
    assert_eq!(route(""), Route::NotFound);
    assert_eq!(route("?"), Route::NotFound);
}

#[test]
fn decimal_digits_are_read_and_written() {
    assert_eq!(parse_decimal(&chars_of("0")), Some(0));
    assert_eq!(parse_decimal(&chars_of("007")), Some(7));
    assert_eq!(parse_decimal(&chars_of("1234567890")), Some(1234567890));
    assert_eq!(parse_decimal(&chars_of("")), None);
    assert_eq!(parse_decimal(&chars_of("12a")), None);
    assert_eq!(parse_decimal(&chars_of("99999999999999999999")), None);
    for n in [0u64, 9, 10, 99, 100, 4096, u64::MAX] {
        let mut out = Vec::new();
        push_decimal(&mut out, n);
        assert_eq!(string_of(&out), n.to_string());
        assert_eq!(parse_decimal(&out), Some(n));
    }
}

#[test]
fn reload_answer_holds_the_generation() {
    assert_eq!(reload_body(0).ok().unwrap(), "0");
    assert_eq!(reload_body(42).ok().unwrap(), "42");
    assert_eq!(reload_body(u64::MAX).ok().unwrap(), "18446744073709551615");
}
