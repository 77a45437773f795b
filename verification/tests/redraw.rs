use changelog_render::redraw::{Action, Payload, Phase, RedrawError, Renderer, Step, StreamEvent};

fn message(data: &str, text: Option<&str>) -> StreamEvent {
    StreamEvent::Message {
        data: data.to_string(),
        payload: Payload::Delta(text.map(|t| t.to_string())),
    }
}

fn malformed(data: &str) -> StreamEvent {
    StreamEvent::Message { data: data.to_string(), payload: Payload::Malformed }
}

#[test]
fn a_new_renderer_waits_with_nothing_received() {
    let r = Renderer::new();
    assert_eq!(r.changelog(), "");
    assert_eq!(r.lines_to_move_up(), 0);
    assert_eq!(r.response_tokens(), 0);
    assert_eq!(r.phase(), Phase::Waiting);
}

#[test]
fn the_first_event_stops_the_spinner_and_later_ones_do_not() {
    let mut r = Renderer::new();
    let first = r.on_event(&StreamEvent::Opened);
    assert_eq!(first, Step { stop_spinner: true, move_up: 0, action: Action::Idle });
    assert_eq!(r.phase(), Phase::Streaming);
    let second = r.on_event(&message("{}", Some("a")));
    assert_eq!(second, Step { stop_spinner: false, move_up: 0, action: Action::Draw });
}

#[test]
fn a_delta_is_appended_and_counted() {
    let mut r = Renderer::new();
    r.on_event(&message("one", Some("Hello")));
    r.on_event(&message("two", Some(", world")));
    assert_eq!(r.changelog(), "Hello, world");
    assert_eq!(r.response_tokens(), 2);
    assert_eq!(r.phase(), Phase::Streaming);
}

#[test]
fn a_message_without_text_is_drawn_but_not_counted() {
    let mut r = Renderer::new();
    r.on_event(&message("one", Some("abc")));
    let step = r.on_event(&message("two", None));
    assert_eq!(step.action, Action::Draw);
    assert_eq!(r.changelog(), "abc");
    assert_eq!(r.response_tokens(), 1);
}

#[test]
fn a_malformed_payload_leaves_counter_and_buffer() {
    let mut r = Renderer::new();
    r.on_event(&message("one", Some("abc")));
    let step = r.on_event(&malformed("{not json"));
    assert_eq!(step.action, Action::Draw);
    assert_eq!(r.changelog(), "abc");
    assert_eq!(r.response_tokens(), 1);
    assert_eq!(r.phase(), Phase::Streaming);
}

#[test]
fn redraw_composes_header_buffer_and_line_feed() {
    let mut r = Renderer::new();
    r.on_event(&message("one", Some("abc")));
    let block = r.redraw("====\ncost\n\n", 80);
    assert_eq!(block, Ok("====\ncost\n\nabc\n".to_string()));
}

#[test]
fn move_up_is_the_rows_of_the_last_block_less_one() {
    let mut r = Renderer::new();
    r.on_event(&message("one", Some("abcdefgh")));
    let block = r.redraw("==\nuse\n\n", 4).unwrap();
    assert_eq!(block, "==\nuse\n\nabcdefgh\n");
    // rows: "==", "use", "", "abcd", "efgh", and the open row after the line feed
    assert_eq!(changelog_render::count_lines(&block, 4), 6);
    assert_eq!(r.lines_to_move_up(), 5);
    let step = r.on_event(&message("two", Some("i")));
    assert_eq!(step, Step { stop_spinner: false, move_up: 5, action: Action::Draw });
    assert_eq!(r.lines_to_move_up(), 0);
    let block = r.redraw("==\nuse\n\n", 4).unwrap();
    assert_eq!(r.lines_to_move_up(), changelog_render::count_lines(&block, 4) - 1);
    assert_eq!(r.lines_to_move_up(), 6);
}

#[test]
fn move_up_when_the_last_row_ends_at_the_width() {
    let mut r = Renderer::new();
    r.on_event(&message("one", Some("abcd")));
    let block = r.redraw("", 4).unwrap();
    assert_eq!(block, "abcd\n");
    assert_eq!(r.lines_to_move_up(), 1);
}

#[test]
fn the_sentinel_finishes_and_nothing_is_appended_after_it() {
    let mut r = Renderer::new();
    r.on_event(&message("one", Some("abc")));
    r.redraw("h\n", 80).unwrap();
    let step = r.on_event(&message("[DONE]", Some("ignored")));
    assert_eq!(step, Step { stop_spinner: false, move_up: 2, action: Action::Finish });
    assert_eq!(r.phase(), Phase::Finished);
    assert_eq!(r.changelog(), "abc");
    assert_eq!(r.response_tokens(), 1);
    let later = r.on_event(&message("more", Some("def")));
    assert_eq!(later, Step { stop_spinner: false, move_up: 0, action: Action::Finish });
    assert_eq!(r.changelog(), "abc");
    assert_eq!(r.response_tokens(), 1);
    assert_eq!(r.phase(), Phase::Finished);
}

#[test]
fn the_sentinel_as_first_event_still_stops_the_spinner() {
    let mut r = Renderer::new();
    let step = r.on_event(&malformed("[DONE]"));
    assert_eq!(step, Step { stop_spinner: true, move_up: 0, action: Action::Finish });
    assert_eq!(r.phase(), Phase::Finished);
}

#[test]
fn data_that_only_resembles_the_sentinel_is_a_message() {
    let mut r = Renderer::new();
    let step = r.on_event(&message("[DONE] ", Some("x")));
    assert_eq!(step.action, Action::Draw);
    assert_eq!(r.changelog(), "x");
}

#[test]
fn a_transport_failure_aborts() {
    let mut r = Renderer::new();
    r.on_event(&message("one", Some("abc")));
    r.redraw("h\n", 80).unwrap();
    let step = r.on_event(&StreamEvent::Failed);
    assert_eq!(step, Step { stop_spinner: false, move_up: 2, action: Action::Abort });
    assert_eq!(r.phase(), Phase::Finished);
    assert_eq!(r.changelog(), "abc");
}

#[test]
fn redraw_is_refused_while_the_renderer_does_not_own_the_cursor() {
    let mut r = Renderer::new();
    assert_eq!(r.redraw("h\n", 80), Err(RedrawError::NotStreaming));
    r.on_event(&message("[DONE]", None));
    assert_eq!(r.redraw("h\n", 80), Err(RedrawError::NotStreaming));
    assert_eq!(r.lines_to_move_up(), 0);
}

#[test]
fn redraw_is_refused_when_the_block_takes_too_many_rows() {
    let mut r = Renderer::new();
    r.on_event(&message("one", Some(&"\n".repeat(65534))));
    assert_eq!(r.redraw("", 80), Err(RedrawError::TooManyRows));
    assert_eq!(r.lines_to_move_up(), 0);
    assert_eq!(r.response_tokens(), 1);
    let mut s = Renderer::new();
    s.on_event(&message("one", Some(&"\n".repeat(65533))));
    assert!(s.redraw("", 80).is_ok());
    assert_eq!(s.lines_to_move_up(), 65534);
}

#[test]
fn an_open_event_uses_up_the_rows_to_move_up() {
    let mut r = Renderer::new();
    r.on_event(&message("one", Some("abc")));
    r.redraw("h\n", 80).unwrap();
    let step = r.on_event(&StreamEvent::Opened);
    assert_eq!(step, Step { stop_spinner: false, move_up: 2, action: Action::Idle });
    assert_eq!(r.lines_to_move_up(), 0);
}

#[test]
fn a_wide_cluster_that_wraps_leaves_room_beside_it() {
    let mut r = Renderer::new();
    r.on_event(&message("one", Some("abe\u{301}c")));
    let block = r.redraw("", 2).unwrap();
    assert_eq!(block, "abe\u{301}c\n");
    // rows: "ab", "e\u{301}c", and the open row after the line feed
    assert_eq!(r.lines_to_move_up(), 2);
}
