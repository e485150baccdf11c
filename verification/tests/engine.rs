use message_window::layout::{
    make_empty_line, make_new_text, TextAlignment, TypeTextConfig, TypingTimer, TypingTiming,
    WritingStyle,
};
use message_window::orders::{get_next_order, Order};
use message_window::popup::SCALE_ONE;
use message_window::window::{
    advance_feed, deliver_order_list, open_window, FeedingStyle, FeedWaitingEvent, MessageWindow,
    OpenWindowEvent, PopupType, WaitBrakerStyle, WindowState,
};
use message_window::writer::{add_new_text, settle_lines, tick, typing_pass};

fn base_event(
    font_size: i64,
    box_w: i64,
    box_h: i64,
    timing: TypingTiming,
    alignment: TextAlignment,
) -> OpenWindowEvent {
    OpenWindowEvent {
        window_name: String::from("main"),
        box_name: String::from("box"),
        font_paths: vec![String::from("fonts/a.ttf"), String::from("fonts/b.ttf")],
        font_size,
        background_path: String::from("ui/frame.png"),
        position: (0, -200),
        feeding: FeedingStyle::Scroll { size: 0, msec: 500 },
        script_path: String::from("scripts/test.bms"),
        main_box_origin: (-540, 70),
        main_box_size: (box_w, box_h),
        main_alignment: alignment,
        writing: WritingStyle::Put,
        typing_timing: timing,
        layer: 2,
        wait_breaker: WaitBrakerStyle::Input { has_icon: true, is_icon_moving_to_last: true },
        popup: PopupType::Scale { msec: 500 },
        message_window_entity: None,
    }
}

/// Orders are consumed from the list's tail, so a script is delivered
/// reversed: the first order to run sits at the end.
fn script_orders(text: &str) -> Vec<Order> {
    let mut forward: Vec<Order> = Vec::new();
    for c in text.chars() {
        if c == '\n' {
            forward.push(Order::CarriageReturn);
        } else if c == '\x0c' {
            forward.push(Order::PageFeed);
        } else {
            forward.push(Order::Type { character: c });
        }
    }
    forward.reverse();
    forward
}

fn typing_window(ev: OpenWindowEvent, text: &str) -> Vec<MessageWindow> {
    let mut windows: Vec<MessageWindow> = Vec::new();
    open_window(&mut windows, ev);
    deliver_order_list(&mut windows[0].script, script_orders(text));
    windows[0].state = WindowState::Typing;
    windows
}

fn line_string(w: &MessageWindow, i: usize) -> String {
    let mut s = String::new();
    for c in w.text_box.lines[i].chars.iter() {
        s.push(c.character);
    }
    s
}

#[test]
fn get_next_order_priorities() {
    let mut list = Some(vec![Order::Type { character: 'b' }, Order::Type { character: 'a' }]);
    // a forced carriage return outranks everything and consumes nothing
    let r = get_next_order(&Some(Order::PageFeed), &mut list, true);
    assert_eq!(r, Some(Order::CarriageReturn));
    assert_eq!(list.as_ref().unwrap().len(), 2);
    // a pending order is returned and kept, the list untouched
    let r = get_next_order(&Some(Order::Type { character: 'z' }), &mut list, false);
    assert_eq!(r, Some(Order::Type { character: 'z' }));
    assert_eq!(list.as_ref().unwrap().len(), 2);
    // otherwise the tail of the list is popped
    let r = get_next_order(&None, &mut list, false);
    assert_eq!(r, Some(Order::Type { character: 'a' }));
    assert_eq!(list.as_ref().unwrap().len(), 1);
    let r = get_next_order(&None, &mut Some(Vec::new()), false);
    assert_eq!(r, None);
    let r = get_next_order(&None, &mut None, false);
    assert_eq!(r, None);
}

#[test]
fn two_lines_from_forced_break() {
    // a 1060 x 140 box at font size 20 fits "AB" and "CDE" with no waiting
    let ev = base_event(20, 1060, 140, TypingTiming::ByChar { msec: 100 }, TextAlignment::Left);
    let mut windows = typing_window(ev, "AB\nCDE");
    let mut events: Vec<FeedWaitingEvent> = Vec::new();
    add_new_text(&mut windows, &mut events);
    assert_eq!(events.len(), 0);
    assert_eq!(windows[0].state, WindowState::Typing);
    assert!(!windows[0].text_box.faulted);
    assert_eq!(windows[0].text_box.lines.len(), 2);
    assert_eq!(line_string(&windows[0], 0), "AB");
    assert_eq!(line_string(&windows[0], 1), "CDE");
    assert_eq!(windows[0].text_box.lines[0].y, -20);
    assert_eq!(windows[0].text_box.lines[1].y, -40);
}

#[test]
fn placement_keeps_script_order_across_wrapping() {
    // width 40 holds two glyphs of size 20: "ABCD" wraps into "AB", "CD"
    let ev = base_event(20, 40, 140, TypingTiming::ByChar { msec: 100 }, TextAlignment::Left);
    let mut windows = typing_window(ev, "ABCD");
    let mut events: Vec<FeedWaitingEvent> = Vec::new();
    add_new_text(&mut windows, &mut events);
    assert_eq!(windows[0].text_box.lines.len(), 2);
    assert_eq!(line_string(&windows[0], 0), "AB");
    assert_eq!(line_string(&windows[0], 1), "CD");
    let mut all = line_string(&windows[0], 0);
    all.push_str(&line_string(&windows[0], 1));
    assert_eq!(all, "ABCD");
    assert_eq!(events.len(), 0);
}

#[test]
fn width_boundary_exact_fit_is_accepted() {
    let config = TypeTextConfig {
        fonts: Vec::new(),
        font_size: 20,
        typing_timing: TypingTiming::ByChar { msec: 100 },
        writing: WritingStyle::Put,
        layer: 0,
        alignment: TextAlignment::Left,
    };
    let timer = TypingTimer { remaining_msec: 0 };
    // candidate x of exactly the box edge is accepted ...
    let placed = make_new_text('x', &config, 40, -20, &timer, 60);
    let c = placed.unwrap();
    assert_eq!(c.x, 60);
    // ... and one unit past it is not
    let rejected = make_new_text('x', &config, 41, -20, &timer, 60);
    assert!(rejected.is_none());
}

#[test]
fn height_boundary_exact_fit_is_accepted() {
    let config = TypeTextConfig {
        fonts: Vec::new(),
        font_size: 20,
        typing_timing: TypingTiming::ByChar { msec: 100 },
        writing: WritingStyle::Put,
        layer: 0,
        alignment: TextAlignment::Left,
    };
    // a new line landing exactly on the bottom edge is accepted ...
    let l = make_empty_line(&config, -120, 140);
    assert_eq!(l.unwrap().y, -140);
    // ... and one line height below it is not
    let l = make_empty_line(&config, -140, 140);
    assert!(l.is_none());
}

#[test]
fn by_char_delays_are_cumulative() {
    let ev = base_event(20, 1060, 140, TypingTiming::ByChar { msec: 100 }, TextAlignment::Left);
    let mut windows = typing_window(ev, "ABCDE");
    let mut events: Vec<FeedWaitingEvent> = Vec::new();
    add_new_text(&mut windows, &mut events);
    let line = &windows[0].text_box.lines[0];
    assert_eq!(line.chars.len(), 5);
    let delays: Vec<u64> = line.chars.iter().map(|c| c.timer.remaining_msec).collect();
    assert_eq!(delays, vec![100, 200, 300, 400, 500]);
}

#[test]
fn by_line_pauses_only_after_first_line() {
    let ev = base_event(20, 1060, 140, TypingTiming::ByLine { msec: 1000 }, TextAlignment::Left);
    let mut windows = typing_window(ev, "AB\nC");
    let mut events: Vec<FeedWaitingEvent> = Vec::new();
    add_new_text(&mut windows, &mut events);
    let first = &windows[0].text_box.lines[0].chars;
    // no pause before the very first line
    assert_eq!(first[0].timer.remaining_msec, 0);
    assert_eq!(first[1].timer.remaining_msec, 0);
    // the first character of line 2 waits the configured pause after line 1
    let second = &windows[0].text_box.lines[1].chars;
    assert_eq!(second[0].timer.remaining_msec, 1000);
}

#[test]
fn too_narrow_box_faults_instead_of_hanging() {
    // width 10 cannot fit one glyph of size 20
    let ev = base_event(20, 10, 140, TypingTiming::ByChar { msec: 100 }, TextAlignment::Left);
    let mut windows = typing_window(ev, "A");
    let mut events: Vec<FeedWaitingEvent> = Vec::new();
    add_new_text(&mut windows, &mut events);
    assert!(windows[0].text_box.faulted);
    assert_eq!(events.len(), 0);
    assert_eq!(windows[0].state, WindowState::Typing);
    // a faulted box yields no further placements
    add_new_text(&mut windows, &mut events);
    assert_eq!(events.len(), 0);
    assert_eq!(line_count_sum(&windows[0]), 0);
}

fn line_count_sum(w: &MessageWindow) -> usize {
    let mut n = 0;
    for l in w.text_box.lines.iter() {
        n += l.chars.len();
    }
    n
}

#[test]
fn degenerate_geometry_faults_at_open() {
    let ev = base_event(0, 100, 100, TypingTiming::ByPage, TextAlignment::Left);
    let mut windows: Vec<MessageWindow> = Vec::new();
    open_window(&mut windows, ev);
    assert!(windows[0].text_box.faulted);
}

#[test]
fn page_feed_emits_one_signal_with_owed_wait() {
    let ev = base_event(20, 1060, 140, TypingTiming::ByChar { msec: 100 }, TextAlignment::Left);
    let mut windows = typing_window(ev, "A\x0cB");
    let mut events: Vec<FeedWaitingEvent> = Vec::new();
    add_new_text(&mut windows, &mut events);
    // exactly one feed-waiting signal, carrying A's remaining reveal time
    assert_eq!(events.len(), 1);
    assert_eq!(events[0].target_window, 0);
    assert_eq!(events[0].wait_msec, 100);
    assert_eq!(windows[0].state, WindowState::Waiting);
    assert_eq!(line_string(&windows[0], 0), "A");
    // advancing resumes typing and places what followed the feed
    advance_feed(&mut windows[0]);
    assert_eq!(windows[0].state, WindowState::Typing);
    add_new_text(&mut windows, &mut events);
    assert_eq!(line_string(&windows[0], 0), "AB");
    assert_eq!(events.len(), 1);
}

#[test]
fn page_feed_with_nothing_placed_waits_zero() {
    let ev = base_event(20, 1060, 140, TypingTiming::ByChar { msec: 100 }, TextAlignment::Left);
    let mut windows = typing_window(ev, "\x0cA");
    let mut events: Vec<FeedWaitingEvent> = Vec::new();
    add_new_text(&mut windows, &mut events);
    assert_eq!(events.len(), 1);
    assert_eq!(events[0].wait_msec, 0);
    assert_eq!(windows[0].state, WindowState::Waiting);
}

#[test]
fn full_page_emits_signal_and_holds_overflow() {
    // two lines of two glyphs fill the 40 x 40 box; "E" cannot be placed
    let ev = base_event(20, 40, 40, TypingTiming::ByChar { msec: 100 }, TextAlignment::Left);
    let mut windows = typing_window(ev, "ABCDE");
    let mut events: Vec<FeedWaitingEvent> = Vec::new();
    add_new_text(&mut windows, &mut events);
    assert_eq!(events.len(), 1);
    assert_eq!(windows[0].state, WindowState::Waiting);
    assert_eq!(line_string(&windows[0], 0), "AB");
    assert_eq!(line_string(&windows[0], 1), "CD");
    // the wait owed is D's remaining reveal time
    assert_eq!(events[0].wait_msec, 400);
    // the deferred character is still queued, not lost
    assert_eq!(windows[0].script.pending, Some(Order::Type { character: 'E' }));
}

#[test]
fn settle_measures_and_aligns_center() {
    let ev = base_event(20, 100, 140, TypingTiming::ByChar { msec: 100 }, TextAlignment::Center);
    let mut windows = typing_window(ev, "AB");
    let mut events: Vec<FeedWaitingEvent> = Vec::new();
    add_new_text(&mut windows, &mut events);
    settle_lines(&mut windows[0].text_box);
    let l = &windows[0].text_box.lines[0];
    let size = l.settled_size.unwrap();
    assert_eq!(size.width, 40);
    assert_eq!(size.height, 20);
    assert_eq!(l.x_offset, 30);
}

#[test]
fn settle_aligns_right_and_left() {
    let ev = base_event(20, 100, 140, TypingTiming::ByChar { msec: 100 }, TextAlignment::Right);
    let mut windows = typing_window(ev, "AB");
    let mut events: Vec<FeedWaitingEvent> = Vec::new();
    add_new_text(&mut windows, &mut events);
    settle_lines(&mut windows[0].text_box);
    assert_eq!(windows[0].text_box.lines[0].x_offset, 60);

    let ev = base_event(20, 100, 140, TypingTiming::ByChar { msec: 100 }, TextAlignment::Left);
    let mut windows = typing_window(ev, "AB");
    add_new_text(&mut windows, &mut events);
    settle_lines(&mut windows[0].text_box);
    assert_eq!(windows[0].text_box.lines[0].x_offset, 0);
}

#[test]
fn settle_twice_changes_nothing() {
    let ev = base_event(20, 100, 140, TypingTiming::ByChar { msec: 100 }, TextAlignment::Center);
    let mut windows = typing_window(ev, "AB\nC");
    let mut events: Vec<FeedWaitingEvent> = Vec::new();
    add_new_text(&mut windows, &mut events);
    settle_lines(&mut windows[0].text_box);
    let first: Vec<(i64, i64, i64)> = windows[0]
        .text_box
        .lines
        .iter()
        .map(|l| {
            let s = l.settled_size.unwrap();
            (l.x_offset, s.width, s.height)
        })
        .collect();
    settle_lines(&mut windows[0].text_box);
    let second: Vec<(i64, i64, i64)> = windows[0]
        .text_box
        .lines
        .iter()
        .map(|l| {
            let s = l.settled_size.unwrap();
            (l.x_offset, s.width, s.height)
        })
        .collect();
    assert_eq!(first, second);
}

#[test]
fn script_not_yet_loaded_is_a_no_op() {
    let ev = base_event(20, 100, 140, TypingTiming::ByChar { msec: 100 }, TextAlignment::Left);
    let mut windows: Vec<MessageWindow> = Vec::new();
    open_window(&mut windows, ev);
    windows[0].state = WindowState::Typing;
    let mut events: Vec<FeedWaitingEvent> = Vec::new();
    add_new_text(&mut windows, &mut events);
    assert_eq!(windows[0].text_box.lines.len(), 0);
    assert_eq!(events.len(), 0);
    assert_eq!(windows[0].state, WindowState::Typing);
}

#[test]
fn opening_backgrounds_prior_windows() {
    let ev = base_event(20, 100, 140, TypingTiming::ByChar { msec: 100 }, TextAlignment::Left);
    let mut windows: Vec<MessageWindow> = Vec::new();
    open_window(&mut windows, ev);
    assert!(windows[0].is_current);
    let ev2 = base_event(20, 200, 140, TypingTiming::ByPage, TextAlignment::Left);
    open_window(&mut windows, ev2);
    assert_eq!(windows.len(), 2);
    assert!(!windows[0].is_current);
    assert!(!windows[0].visible);
    assert!(windows[1].is_current);
    assert_eq!(windows[1].text_box.max_width, 200);
}

#[test]
fn open_window_can_reuse_a_slot() {
    let ev = base_event(20, 100, 140, TypingTiming::ByChar { msec: 100 }, TextAlignment::Left);
    let mut windows: Vec<MessageWindow> = Vec::new();
    open_window(&mut windows, ev);
    let mut ev2 = base_event(20, 300, 140, TypingTiming::ByPage, TextAlignment::Left);
    ev2.message_window_entity = Some(0);
    open_window(&mut windows, ev2);
    assert_eq!(windows.len(), 1);
    assert_eq!(windows[0].text_box.max_width, 300);
    assert_eq!(windows[0].state, WindowState::Preparing);
}

#[test]
fn full_tick_runs_popup_typing_and_settling() {
    let ev = base_event(20, 1060, 140, TypingTiming::ByChar { msec: 100 }, TextAlignment::Left);
    let mut windows: Vec<MessageWindow> = Vec::new();
    open_window(&mut windows, ev);
    deliver_order_list(&mut windows[0].script, script_orders("AB"));
    let mut events: Vec<FeedWaitingEvent> = Vec::new();
    // preparing -> popping up; the popup grows 250 ms in the same tick
    tick(&mut windows, &mut events, 250);
    assert_eq!(windows[0].state, WindowState::PoppingUp);
    assert!(windows[0].visible);
    assert_eq!(windows[0].scale, SCALE_ONE / 2);
    // after exactly 500 ms of simulated time the scale is clamped to exactly
    // full size, never overshot, and the window hands over to typing, which
    // types and settles in the same tick
    tick(&mut windows, &mut events, 250);
    assert_eq!(windows[0].scale, SCALE_ONE);
    assert_eq!(windows[0].state, WindowState::Typing);
    assert!(windows[0].scaling.is_none());
    assert_eq!(line_string(&windows[0], 0), "AB");
    let size = windows[0].text_box.lines[0].settled_size.unwrap();
    assert_eq!(size.width, 40);
}

#[test]
fn typing_pass_targets_the_given_window_index() {
    let ev = base_event(20, 1060, 140, TypingTiming::ByChar { msec: 100 }, TextAlignment::Left);
    let mut windows = typing_window(ev, "\x0c");
    let mut events: Vec<FeedWaitingEvent> = Vec::new();
    typing_pass(&mut windows[0], 7, &mut events);
    assert_eq!(events.len(), 1);
    assert_eq!(events[0].target_window, 7);
}

#[test]
fn zero_duration_popup_is_nearly_instant() {
    let mut ev = base_event(20, 1060, 140, TypingTiming::ByPage, TextAlignment::Left);
    ev.popup = PopupType::Scale { msec: 0 };
    let mut windows: Vec<MessageWindow> = Vec::new();
    open_window(&mut windows, ev);
    let mut events: Vec<FeedWaitingEvent> = Vec::new();
    tick(&mut windows, &mut events, 1);
    assert_eq!(windows[0].scale, SCALE_ONE);
    assert_eq!(windows[0].state, WindowState::Typing);
}

#[test]
fn only_the_current_window_types() {
    let ev = base_event(20, 1060, 140, TypingTiming::ByChar { msec: 100 }, TextAlignment::Left);
    let mut windows = typing_window(ev, "AB");
    // opening a second window backgrounds the first: it stops typing
    let ev2 = base_event(20, 1060, 140, TypingTiming::ByPage, TextAlignment::Left);
    open_window(&mut windows, ev2);
    windows[0].state = WindowState::Typing;
    let mut events: Vec<FeedWaitingEvent> = Vec::new();
    add_new_text(&mut windows, &mut events);
    assert_eq!(windows[0].text_box.lines.len(), 0);
    assert_eq!(
        windows[0].script.order_list.as_ref().unwrap().len(),
        2
    );
}

#[test]
fn by_page_timing_gives_no_per_char_delay() {
    let ev = base_event(20, 1060, 140, TypingTiming::ByPage, TextAlignment::Left);
    let mut windows = typing_window(ev, "AB\nC");
    let mut events: Vec<FeedWaitingEvent> = Vec::new();
    add_new_text(&mut windows, &mut events);
    for l in windows[0].text_box.lines.iter() {
        for c in l.chars.iter() {
            assert_eq!(c.timer.remaining_msec, 0);
        }
    }
}

#[test]
fn settle_of_an_empty_line_measures_zero() {
    // a trailing line break leaves an empty line; centering it puts it at
    // half the box width
    let ev = base_event(20, 100, 140, TypingTiming::ByPage, TextAlignment::Center);
    let mut windows = typing_window(ev, "A\n");
    let mut events: Vec<FeedWaitingEvent> = Vec::new();
    add_new_text(&mut windows, &mut events);
    settle_lines(&mut windows[0].text_box);
    let l = &windows[0].text_box.lines[1];
    assert_eq!(l.chars.len(), 0);
    let size = l.settled_size.unwrap();
    assert_eq!(size.width, 0);
    assert_eq!(size.height, 0);
    assert_eq!(l.x_offset, 50);
}

#[test]
fn placed_characters_advance_by_the_font_size() {
    let ev = base_event(20, 1060, 140, TypingTiming::ByPage, TextAlignment::Left);
    let mut windows = typing_window(ev, "AB");
    let mut events: Vec<FeedWaitingEvent> = Vec::new();
    add_new_text(&mut windows, &mut events);
    let line = &windows[0].text_box.lines[0];
    assert_eq!(line.chars[0].x, 20);
    assert_eq!(line.chars[1].x, 40);
    assert_eq!(line.chars[0].font_size, 20);
}

#[test]
fn zero_height_box_faults_at_open() {
    let ev = base_event(20, 100, 0, TypingTiming::ByPage, TextAlignment::Left);
    let mut windows: Vec<MessageWindow> = Vec::new();
    open_window(&mut windows, ev);
    assert!(windows[0].text_box.faulted);
    // it yields no placements and no signals
    deliver_order_list(&mut windows[0].script, script_orders("A"));
    windows[0].state = WindowState::Typing;
    let mut events: Vec<FeedWaitingEvent> = Vec::new();
    add_new_text(&mut windows, &mut events);
    assert_eq!(windows[0].text_box.lines.len(), 0);
    assert_eq!(events.len(), 0);
}

#[test]
fn feed_events_target_their_own_window() {
    let ev = base_event(20, 1060, 140, TypingTiming::ByChar { msec: 100 }, TextAlignment::Left);
    let mut windows = typing_window(ev, "AB");
    let ev2 = base_event(20, 1060, 140, TypingTiming::ByChar { msec: 100 }, TextAlignment::Left);
    open_window(&mut windows, ev2);
    deliver_order_list(&mut windows[1].script, script_orders("\x0c"));
    windows[1].state = WindowState::Typing;
    let mut events: Vec<FeedWaitingEvent> = Vec::new();
    add_new_text(&mut windows, &mut events);
    // only the current (second) window types; its page feed signals index 1
    assert_eq!(events.len(), 1);
    assert_eq!(events[0].target_window, 1);
    assert_eq!(windows[1].state, WindowState::Waiting);
    assert_eq!(windows[0].text_box.lines.len(), 0);
}
