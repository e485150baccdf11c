//! The typing engine proper: once per tick it pulls orders from a typing
//! window's script, places characters and lines into the text box, pauses the
//! window when a page is full, and afterwards settles each line's measured
//! size and horizontal alignment.

use vstd::prelude::*;
use crate::layout::{
    flat_chars, init_data, initialize_typing_data, line_chars, make_empty_line, make_new_text,
    LineSize, MessageTextChar, MessageTextLine, TextAlignment, TextBox, TypingTimer, COORD_MAX,
    FONT_MAX,
};
use crate::orders::{get_next_order, list_seq, rev_orders, Order};
use crate::popup::{scaling_up, window_popper};
use crate::window::{FeedWaitingEvent, MessageWindow, WindowState};

verus! {

/// Sum of the characters' advances: a line's rendered width.
pub open spec fn sum_sizes(s: Seq<MessageTextChar>) -> int
    decreases s.len(),
{
    if s.len() == 0 {
        0
    } else {
        sum_sizes(s.drop_last()) + s.last().font_size
    }
}

/// Largest character size on the line: its rendered height.
pub open spec fn max_size(s: Seq<MessageTextChar>) -> int
    decreases s.len(),
{
    if s.len() == 0 {
        0
    } else if s.last().font_size > max_size(s.drop_last()) {
        s.last().font_size as int
    } else {
        max_size(s.drop_last())
    }
}

/// Halving that rounds towards zero either side of it.
pub open spec fn half_toward_zero(d: int) -> int {
    if d >= 0 {
        d / 2
    } else {
        -((-d) / 2)
    }
}

/// A settled line's horizontal offset inside its box.
pub open spec fn align_offset(a: TextAlignment, box_width: int, line_width: int) -> int {
    match a {
        TextAlignment::Left => 0,
        TextAlignment::Center => half_toward_zero(box_width - line_width),
        TextAlignment::Right => box_width - line_width,
    }
}

/// What settling does to one line: measure it and align it; everything else
/// is untouched.
pub open spec fn settled_line(l: MessageTextLine, box_width: int) -> MessageTextLine {
    MessageTextLine {
        x_offset: align_offset(l.alignment, box_width, sum_sizes(l.chars@)) as i64,
        settled_size: Some(
            LineSize { width: sum_sizes(l.chars@) as i64, height: max_size(l.chars@) as i64 },
        ),
        ..l
    }
}

/// On a line whose characters all share one size, the measured width is the
/// count times that size and the height is that size (or zero when empty).
proof fn lemma_uniform_measures(s: Seq<MessageTextChar>, fs: int)
    requires
        fs >= 0,
        forall|i: int| 0 <= i < s.len() ==> (#[trigger] s[i]).font_size == fs,
    ensures
        sum_sizes(s) == s.len() * fs,
        max_size(s) == if s.len() == 0 { 0int } else { fs },
    decreases s.len(),
{
    if s.len() > 0 {
        lemma_uniform_measures(s.drop_last(), fs);
        assert(s.len() * fs == (s.len() - 1) * fs + fs) by (nonlinear_arith);
    }
}

proof fn lemma_uniform_measures_take(s: Seq<MessageTextChar>, fs: int, k: int)
    requires
        fs >= 0,
        forall|i: int| 0 <= i < s.len() ==> (#[trigger] s[i]).font_size == fs,
        0 <= k <= s.len(),
    ensures
        sum_sizes(s.take(k)) == k * fs,
        max_size(s.take(k)) == if k == 0 { 0int } else { fs },
{
    assert(forall|i: int| 0 <= i < s.take(k).len() ==> (#[trigger] s.take(k)[i]).font_size == fs);
    lemma_uniform_measures(s.take(k), fs);
}

/// Settling is idempotent: a second pass over an unchanged line yields the
/// same width, height and offset, because settling reads only the characters
/// and the alignment and writes neither.
pub proof fn lemma_settle_idempotent(l: MessageTextLine, box_width: int)
    ensures
        settled_line(settled_line(l, box_width), box_width) == settled_line(l, box_width),
{
}

/// The characters a sequence of orders asks to type, in order.
pub open spec fn typed_one(o: Order) -> Seq<char> {
    match o {
        Order::Type { character } => seq![character],
        _ => Seq::empty(),
    }
}

pub open spec fn typed_chars(s: Seq<Order>) -> Seq<char>
    decreases s.len(),
{
    if s.len() == 0 {
        Seq::empty()
    } else {
        typed_chars(s.drop_last()) + typed_one(s.last())
    }
}

/// The reveal timer of the box's most recently placed character: the last
/// character of the last line that has one; zero with no character at all.
pub open spec fn last_char_timer_or0(lines: Seq<MessageTextLine>) -> u64
    decreases lines.len(),
{
    if lines.len() == 0 {
        0
    } else if lines.last().chars@.len() > 0 {
        lines.last().chars@.last().timer.remaining_msec
    } else {
        last_char_timer_or0(lines.drop_last())
    }
}

/// Everything a typing pass leaves alone: the window's identity, styles,
/// popup state, and the box's identity and configuration.
pub open spec fn same_shell(o: MessageWindow, n: MessageWindow) -> bool {
    &&& n.name == o.name
    &&& n.wait_breaker == o.wait_breaker
    &&& n.feeding == o.feeding
    &&& n.popup_type == o.popup_type
    &&& n.background_path == o.background_path
    &&& n.position == o.position
    &&& n.visible == o.visible
    &&& n.is_current == o.is_current
    &&& n.scale == o.scale
    &&& n.scaling == o.scaling
    &&& n.script.path == o.script.path
    &&& n.text_box.name == o.text_box.name
    &&& n.text_box.config == o.text_box.config
    &&& n.text_box.origin == o.text_box.origin
    &&& n.text_box.max_width == o.text_box.max_width
    &&& n.text_box.max_height == o.text_box.max_height
}

/// The wait a feed signal carries: the remaining reveal time of the last
/// character placed during this pass; with none placed, of the character the
/// pass resumed behind; zero with no such character.
pub open spec fn feed_wait_msec(o: MessageWindow, n: MessageWindow, consumed: Seq<Order>) -> u64 {
    if typed_chars(consumed).len() > 0 {
        last_char_timer_or0(n.text_box.lines@)
    } else {
        init_data(o.text_box).timer.remaining_msec
    }
}

/// Carriage returns among a consumed prefix: each one broke a line.
pub open spec fn count_crs(s: Seq<Order>) -> int
    decreases s.len(),
{
    if s.len() == 0 {
        0
    } else {
        count_crs(s.drop_last()) + (if s.last() == Order::CarriageReturn {
            1int
        } else {
            0int
        })
    }
}

/// The typing cursor's vertical position when the pass ended: the y of the
/// last line if the pass created one, else the derived resume cursor.
pub open spec fn cursor_y_after(o: MessageWindow, n: MessageWindow) -> int {
    if n.text_box.lines@.len() > o.text_box.lines@.len() {
        n.text_box.lines@.last().y as int
    } else {
        init_data(o.text_box).last_y as int
    }
}

/// One typing pass consumes a prefix `consumed` of the script's remaining
/// orders and places exactly the characters those orders type, in order:
/// nothing is reordered, duplicated or dropped (an order that could not be
/// acted on is held back in the script, not consumed).  A consumed page feed
/// always pauses the window, nothing is consumed past one, and a pause
/// carries the owed reveal wait and is owed only to a page feed or to a next
/// line that cannot fit; lines are created only for consumed or held-back
/// orders — at least one per consumed carriage return, and at most one per
/// consumed order plus one forced break.
pub open spec fn consumption_ok(
    o: MessageWindow,
    n: MessageWindow,
    fed: Option<u64>,
    consumed: Seq<Order>,
) -> bool {
    &&& o.script.remaining() == consumed + n.script.remaining()
    &&& n.text_box.placed() == o.text_box.placed() + typed_chars(consumed)
    &&& (consumed.len() > 0 && consumed.last() == Order::PageFeed ==> fed.is_some())
    &&& (forall|j: int| 0 <= j < consumed.len() - 1 ==> consumed[j] != Order::PageFeed)
    &&& (fed matches Some(ms) ==> ms == feed_wait_msec(o, n, consumed))
    &&& (fed.is_some() ==> (consumed.len() > 0 && consumed.last() == Order::PageFeed) || (
    o.script.remaining().len() > 0 && o.script.remaining()[0] == Order::PageFeed) || cursor_y_after(
        o,
        n,
    ) - o.text_box.config.font_size < -o.text_box.max_height)
    &&& (n.text_box.lines@.len() > o.text_box.lines@.len() ==> consumed.len() > 0
        || o.script.pending.is_some() || n.text_box.faulted)
    &&& n.text_box.lines@.len() >= o.text_box.lines@.len() + count_crs(consumed)
    &&& (o.script.pending.is_none() && !n.text_box.faulted ==> n.text_box.lines@.len()
        <= o.text_box.lines@.len() + count_crs(consumed) + typed_chars(consumed).len() + 1)
}

/// What one typing pass does to a window: a window not typing, not current
/// (only the most recently opened window accepts typing), or with a faulted
/// box, is left alone; otherwise a prefix of the remaining orders is
/// consumed as `consumption_ok` says, and the pass runs until one of three
/// ends: the script is exhausted, a feed signal pauses the window (exactly
/// when one was emitted), or the box faults — which it does only when it is
/// too narrow for a single glyph.
pub open spec fn typing_step(o: MessageWindow, n: MessageWindow, fed: Option<u64>) -> bool {
    if o.state != WindowState::Typing || !o.is_current || o.text_box.faulted {
        n == o && fed.is_none()
    } else {
        &&& same_shell(o, n)
        &&& (exists|consumed: Seq<Order>| #[trigger] consumption_ok(o, n, fed, consumed))
        &&& (fed.is_some() <==> n.state == WindowState::Waiting)
        &&& (fed.is_none() ==> n.state == WindowState::Typing)
        &&& (fed.is_none() && !n.text_box.faulted ==> n.script.remaining().len() == 0)
        &&& n.script.order_list.is_some() == o.script.order_list.is_some()
        &&& (fed.is_none() && !n.text_box.faulted && o.script.remaining().len() == 0 ==> n == o)
        &&& lines_preserved(o.text_box.lines@, n.text_box.lines@)
        &&& (n.text_box.faulted ==> o.text_box.config.font_size > o.text_box.max_width
            && fed.is_none())
    }
}

/// A window before and after one typing pass, however the pass ended.
pub open spec fn typing_rel(o: MessageWindow, n: MessageWindow) -> bool {
    exists|fed: Option<u64>| #[trigger] typing_step(o, n, fed)
}

/// A pass that exhausts the script (no pause, no fault) has placed exactly
/// the characters the remaining orders typed, concatenated in order: none
/// reordered, duplicated or lost — a character deferred by a width overflow
/// included, placed after its forced line break.
pub proof fn lemma_exhausted_pass_places_all(o: MessageWindow, n: MessageWindow, fed: Option<u64>)
    requires
        typing_step(o, n, fed),
        o.state == WindowState::Typing,
        o.is_current,
        !o.text_box.faulted,
        fed.is_none(),
        !n.text_box.faulted,
    ensures
        n.text_box.placed() == o.text_box.placed() + typed_chars(o.script.remaining()),
{
    let consumed = choose|consumed: Seq<Order>| #[trigger] consumption_ok(o, n, fed, consumed);
    assert(n.script.remaining().len() == 0);
    assert(o.script.remaining() =~= consumed);
}

/// The feed signals one pass appends for one window.
pub open spec fn opt_event_seq(fed: Option<u64>, t: usize) -> Seq<FeedWaitingEvent> {
    match fed {
        Some(ms) => seq![FeedWaitingEvent { target_window: t, wait_msec: ms }],
        None => Seq::empty(),
    }
}

/// The feed signals a whole pass appends: window by window in index order, at
/// most one signal each, the signal of window `i` targeted at `i`.
pub open spec fn events_of(feds: Seq<Option<u64>>) -> Seq<FeedWaitingEvent>
    decreases feds.len(),
{
    if feds.len() == 0 {
        Seq::empty()
    } else {
        events_of(feds.drop_last()) + opt_event_seq(feds.last(), (feds.len() - 1) as usize)
    }
}

/// Pauses the window: emits one feed-waiting signal carrying the last placed
/// character's remaining reveal time, and puts the window into waiting.
pub fn send_feed_event(
    events: &mut Vec<FeedWaitingEvent>,
    target_window: usize,
    last_timer: &TypingTimer,
    ws: &mut WindowState,
)
    ensures
        final(events)@ == old(events)@.push(
            FeedWaitingEvent { target_window, wait_msec: last_timer.remaining_msec },
        ),
        *final(ws) == WindowState::Waiting,
{
    let wait_msec = last_timer.remaining();
    events.push(FeedWaitingEvent { target_window, wait_msec });
    *ws = WindowState::Waiting;
}

/// Lines already completed are untouched, and the line typing resumed on
/// only gains characters: breaks between lines are never revisited.
pub open spec fn lines_preserved(o: Seq<MessageTextLine>, n: Seq<MessageTextLine>) -> bool {
    &&& n.len() >= o.len()
    &&& (forall|j: int| 0 <= j < o.len() - 1 ==> n[j] == o[j])
    &&& (o.len() > 0 ==> o.last().chars@.is_prefix_of(n[o.len() - 1].chars@))
}

proof fn lemma_prefix_push<A>(a: Seq<A>, b: Seq<A>, x: A)
    requires
        a.is_prefix_of(b),
    ensures
        a.is_prefix_of(b.push(x)),
{
    assert(b.push(x).take(a.len() as int) =~= a);
}

proof fn lemma_push_concat<A>(a: Seq<A>, x: A, b: Seq<A>)
    ensures
        a + (seq![x] + b) == a.push(x) + b,
{
    assert(a + (seq![x] + b) =~= a.push(x) + b);
}

proof fn lemma_typed_push(s: Seq<Order>, o: Order)
    ensures
        typed_chars(s.push(o)) == typed_chars(s) + typed_one(o),
        count_crs(s.push(o)) == count_crs(s) + (if o == Order::CarriageReturn {
            1int
        } else {
            0int
        }),
{
    assert(s.push(o).drop_last() =~= s);
}

proof fn lemma_flat_push(lines: Seq<MessageTextLine>, l: MessageTextLine)
    ensures
        flat_chars(lines.push(l)) == flat_chars(lines) + line_chars(l),
{
    assert(lines.push(l).drop_last() =~= lines);
}

/// Appending a character to the last line appends exactly it to the box's
/// placed characters.
proof fn lemma_place_char(lines: Seq<MessageTextLine>, line2: MessageTextLine, c: MessageTextChar)
    requires
        lines.len() > 0,
        line2.chars@ == lines.last().chars@.push(c),
    ensures
        flat_chars(lines.drop_last().push(line2)) == flat_chars(lines) + seq![c.character],
{
    lemma_flat_push(lines.drop_last(), line2);
    assert(line_chars(line2) =~= line_chars(lines.last()).push(c.character));
    assert(flat_chars(lines.drop_last()) + line_chars(line2) =~= (flat_chars(lines.drop_last())
        + line_chars(lines.last())) + seq![c.character]);
}

proof fn lemma_lct_push_empty(lines: Seq<MessageTextLine>, l: MessageTextLine)
    requires
        l.chars@.len() == 0,
    ensures
        last_char_timer_or0(lines.push(l)) == last_char_timer_or0(lines),
{
    assert(lines.push(l).drop_last() =~= lines);
}

spec fn height_room(last_y: int, max_height: int) -> int {
    if last_y + max_height + 1 >= 0 {
        last_y + max_height + 1
    } else {
        0
    }
}

spec fn pend_measure(p: Option<Order>) -> int {
    if p.is_some() {
        1
    } else {
        0
    }
}

spec fn cr_measure(b: bool) -> int {
    if b {
        0
    } else {
        1
    }
}

/// One when a forced line break is in flight: its fresh line exists but the
/// held-back character that caused it has not been retried yet.
spec fn break_in_flight(pending: Option<Order>, in_cr: bool, last_x: i64) -> int {
    if (pending matches Some(Order::Type { .. })) && !in_cr && last_x == 0 {
        1
    } else {
        0
    }
}

/// Runs one typing pass over one window (once per tick): while the window is
/// typing, orders are pulled and acted on — characters placed until the line
/// is full, lines broken until the page is full — and on a page feed or a
/// full page the window pauses with one feed-waiting signal in `events`,
/// targeted at `target_window`.  A box too narrow for a single glyph faults
/// instead of looping.
#[verifier::rlimit(80)]
pub fn typing_pass(
    w: &mut MessageWindow,
    target_window: usize,
    events: &mut Vec<FeedWaitingEvent>,
)
    requires
        old(w).wf(),
    ensures
        final(w).wf(),
        exists|fed: Option<u64>|
            #[trigger] typing_step(*old(w), *final(w), fed) && final(events)@ == old(events)@
                + opt_event_seq(fed, target_window),
{
    let ghost w0: MessageWindow = *old(w);
    if w.state != WindowState::Typing || !w.is_current || w.text_box.faulted {
        proof {
            assert(typing_step(w0, *w, None));
            assert(events@ =~= events@ + opt_event_seq(None, target_window));
        }
        return ;
    }
    let init = initialize_typing_data(&w.text_box);
    let mut last_x: i64 = init.last_x;
    let mut last_y: i64 = init.last_y;
    let mut last_timer: TypingTimer = init.timer;
    let mut in_cr: bool = false;
    let mut feed_now: bool = false;
    let ghost mut consumed: Seq<Order> = Seq::empty();
    proof {
        assert(consumed + w.script.remaining() =~= w.script.remaining());
        assert(w.text_box.placed() + typed_chars(consumed) =~= w.text_box.placed());
        if w.text_box.lines@.len() > 0 {
            let tail = w.text_box.lines@.last().chars@;
            assert(tail.take(tail.len() as int) =~= tail);
        }
        if w.text_box.lines@.len() > 0 && w.text_box.lines@.last().chars@.len() > 0 {
            let m = w.text_box.lines@.last().chars@.len() as int;
            assert(w.text_box.line_ok(w.text_box.lines@[w.text_box.lines@.len() - 1]));
            assert(w.text_box.char_ok(w.text_box.lines@.last().chars@[m - 1], m - 1));
        }
    }
    loop
        invariant_except_break
            !w.text_box.faulted,
            !feed_now,
            forall|j: int| 0 <= j < consumed.len() ==> consumed[j] != Order::PageFeed,
            (w.script.pending matches Some(Order::CarriageReturn)) ==> w.script.pending
                == w0.script.pending,
            (w.script.pending matches Some(Order::PageFeed)) ==> w.script.pending
                == w0.script.pending,
        invariant
            w.wf(),
            w.state == WindowState::Typing,
            same_shell(w0, *w),
            w.text_box.cfg_ok(),
            0 <= last_x <= COORD_MAX + FONT_MAX,
            -COORD_MAX <= last_y <= w.text_box.config.font_size,
            w.text_box.lines@.len() > 0 ==> last_x >= w.text_box.lines@.last().chars@.len()
                * w.text_box.config.font_size,
            w.text_box.lines@.len() == 0 ==> last_x == 0,
            w0.script.remaining() == consumed + w.script.remaining(),
            w.text_box.placed() == w0.text_box.placed() + typed_chars(consumed),
            lines_preserved(w0.text_box.lines@, w.text_box.lines@),
            last_timer.remaining_msec == feed_wait_msec(w0, *w, consumed),
            w.text_box.faulted ==> w0.text_box.config.font_size > w0.text_box.max_width,
            w.script.order_list.is_some() == w0.script.order_list.is_some(),
            w0.script.remaining().len() == 0 ==> *w == w0 && !in_cr,
            0 <= count_crs(consumed),
            w.text_box.lines@.len() >= w0.text_box.lines@.len() + count_crs(consumed),
            w0.script.pending.is_none() ==> w.text_box.lines@.len() <= w0.text_box.lines@.len()
                + count_crs(consumed) + typed_chars(consumed).len() + break_in_flight(
                w.script.pending,
                in_cr,
                last_x,
            ),
            in_cr ==> (w.script.pending matches Some(Order::Type { .. })),
            w.text_box.lines@.len() > w0.text_box.lines@.len() ==> consumed.len() > 0
                || w0.script.pending.is_some() || w.text_box.faulted || ((
            w.script.pending matches Some(Order::Type { .. })) && !in_cr && last_x == 0),
            w.text_box.lines@.len() > w0.text_box.lines@.len() ==> last_y
                == w.text_box.lines@.last().y,
            w.text_box.lines@.len() == w0.text_box.lines@.len() ==> last_y == init_data(
                w0.text_box,
            ).last_y,
        ensures
            w.wf(),
            w.state == WindowState::Typing,
            same_shell(w0, *w),
            w0.script.remaining() == consumed + w.script.remaining(),
            w.text_box.placed() == w0.text_box.placed() + typed_chars(consumed),
            lines_preserved(w0.text_box.lines@, w.text_box.lines@),
            last_timer.remaining_msec == feed_wait_msec(w0, *w, consumed),
            consumed.len() > 0 && consumed.last() == Order::PageFeed ==> feed_now,
            forall|j: int| 0 <= j < consumed.len() - 1 ==> consumed[j] != Order::PageFeed,
            !feed_now && !w.text_box.faulted ==> w.script.remaining().len() == 0,
            w.text_box.faulted ==> w0.text_box.config.font_size > w0.text_box.max_width
                && !feed_now,
            w.script.order_list.is_some() == w0.script.order_list.is_some(),
            w0.script.remaining().len() == 0 ==> *w == w0,
            w.text_box.lines@.len() >= w0.text_box.lines@.len() + count_crs(consumed),
            w0.script.pending.is_none() && !w.text_box.faulted ==> w.text_box.lines@.len()
                <= w0.text_box.lines@.len() + count_crs(consumed) + typed_chars(consumed).len()
                + 1,
            w.text_box.lines@.len() > w0.text_box.lines@.len() ==> consumed.len() > 0
                || w0.script.pending.is_some() || w.text_box.faulted,
            feed_now ==> (consumed.len() > 0 && consumed.last() == Order::PageFeed) || (
            w0.script.remaining().len() > 0 && w0.script.remaining()[0] == Order::PageFeed)
                || cursor_y_after(w0, *w) - w.text_box.config.font_size < -w.text_box.max_height,
        decreases
            list_seq(w.script.order_list).len(),
            height_room(last_y as int, w.text_box.max_height as int),
            pend_measure(w.script.pending),
            cr_measure(in_cr),
    {
        let had_pending = w.script.pending.is_some();
        let ghost rem_before: Seq<Order> = w.script.remaining();
        let ghost list_before: Seq<Order> = list_seq(w.script.order_list);
        let next = get_next_order(&w.script.pending, &mut w.script.order_list, in_cr);
        proof {
            if !in_cr && !had_pending && list_before.len() > 0 {
                crate::orders::lemma_rev_orders_pop(list_before);
                assert(rem_before =~= seq![list_before.last()] + rev_orders(
                    list_before.drop_last(),
                ));
            }
            if rem_before.len() == 0 {
                assert(list_before.len() == 0) by {
                    if list_before.len() > 0 {
                        assert(rev_orders(list_before).len() >= 1);
                    }
                }
                assert(next.is_none());
            }
        }
        match next {
            Some(order) => {
                match order {
                    Order::Type { character } => {
                        let ghost prev_x: i64 = last_x;
                        let c_opt = make_new_text(
                            character,
                            &w.text_box.config,
                            last_x,
                            last_y,
                            &last_timer,
                            w.text_box.max_width,
                        );
                        let have_line = w.text_box.lines.len() > 0;
                        if c_opt.is_some() && have_line {
                            let c = c_opt.unwrap();
                            let ghost lines0: Seq<MessageTextLine> = w.text_box.lines@;
                            let mut line = w.text_box.lines.pop().unwrap();
                            line.chars.push(c);
                            w.text_box.lines.push(line);
                            last_x = c.x;
                            last_timer = c.timer;
                            w.script.pending = None;
                            proof {
                                let ghost line2 = w.text_box.lines@.last();
                                assert(w.text_box.lines@ =~= lines0.drop_last().push(line2));
                                assert(w.text_box.lines@.len() == lines0.len());
                                assert(line2.y == lines0.last().y);
                                lemma_place_char(lines0, line2, c);
                                lemma_typed_push(consumed, order);
                                lemma_push_concat(consumed, order, w.script.remaining());
                                if had_pending {
                                    assert(rem_before =~= seq![order] + w.script.remaining());
                                }
                                consumed = consumed.push(order);
                                assert(w.text_box.placed() =~= w0.text_box.placed()
                                    + typed_chars(consumed));
                                // the new character keeps every line well formed
                                let fs = w.text_box.config.font_size as int;
                                let k = lines0.last().chars@.len() as int;
                                assert((k + 1) * fs == k * fs + fs) by (nonlinear_arith);
                                assert(line2.chars@.len() == k + 1);
                                assert(prev_x + fs <= w.text_box.max_width);
                                assert(c.x == prev_x + fs);
                                assert(prev_x >= k * fs);
                                assert(c.x >= (k + 1) * fs);
                                assert(forall|t: int|
                                    0 <= t < k ==> w.text_box.char_ok(
                                        #[trigger] line2.chars@[t],
                                        t,
                                    ));
                                assert(w.text_box.char_ok(line2.chars@[k], k));
                                assert(w.text_box.line_ok(line2));
                                assert(last_x >= line2.chars@.len()
                                    * w.text_box.config.font_size);
                                if w0.text_box.lines@.len() > 0 && lines0.len()
                                    == w0.text_box.lines@.len() {
                                    lemma_prefix_push(
                                        w0.text_box.lines@.last().chars@,
                                        lines0.last().chars@,
                                        c,
                                    );
                                }
                            }
                        } else if c_opt.is_none() && last_x == 0 {
                            // even a fresh empty line cannot fit one glyph: a
                            // configuration fault, surfaced once; the box
                            // yields no further placements
                            w.text_box.faulted = true;
                            w.script.pending = next;
                            proof {
                                if !had_pending {
                                    assert(w.script.remaining() =~= rem_before);
                                }
                            }
                            break ;
                        } else {
                            // the character does not fit (or has no line yet):
                            // hold it back and force a line break first
                            w.script.pending = next;
                            in_cr = true;
                            proof {
                                if !had_pending {
                                    assert(w.script.remaining() =~= rem_before);
                                }
                                if last_x == 0 {
                                    assert(w.text_box.lines@.len() == 0);
                                }
                            }
                        }
                    },
                    Order::CarriageReturn => {
                        let l_opt = make_empty_line(
                            &w.text_box.config,
                            last_y,
                            w.text_box.max_height,
                        );
                        match l_opt {
                            Some(l) => {
                                let new_y = l.y;
                                let ghost lines0: Seq<MessageTextLine> = w.text_box.lines@;
                                w.text_box.lines.push(l);
                                last_x = 0;
                                last_y = new_y;
                                proof {
                                    lemma_flat_push(lines0, w.text_box.lines@.last());
                                    lemma_lct_push_empty(lines0, w.text_box.lines@.last());
                                    assert(w.text_box.placed() =~= w0.text_box.placed()
                                        + typed_chars(consumed));
                                }
                                if !in_cr && !had_pending {
                                    proof {
                                        lemma_typed_push(consumed, order);
                                        lemma_push_concat(consumed, order, w.script.remaining());
                                        consumed = consumed.push(order);
                                        assert(w.text_box.placed() =~= w0.text_box.placed()
                                            + typed_chars(consumed));
                                    }
                                }
                                in_cr = false;
                                proof {
                                    assert(w.text_box.lines@.last().chars@.len() == 0);
                                    assert(0 * (w.text_box.config.font_size as int) == 0);
                                    assert(last_x >= w.text_box.lines@.last().chars@.len()
                                        * w.text_box.config.font_size);
                                }
                            },
                            None => {
                                if !in_cr && !had_pending {
                                    w.script.pending = Some(Order::CarriageReturn);
                                    proof {
                                        assert(w.script.remaining() =~= rem_before);
                                    }
                                }
                                feed_now = true;
                                proof {
                                    if w.text_box.lines@.len() > w0.text_box.lines@.len() {
                                        assert(cursor_y_after(w0, *w) == last_y as int);
                                    } else {
                                        assert(cursor_y_after(w0, *w) == init_data(
                                            w0.text_box,
                                        ).last_y as int);
                                    }
                                    assert(cursor_y_after(w0, *w) - w.text_box.config.font_size
                                        < -w.text_box.max_height);
                                }
                                break ;
                            },
                        }
                    },
                    Order::PageFeed => {
                        if !in_cr && !had_pending {
                            proof {
                                lemma_typed_push(consumed, order);
                                lemma_push_concat(consumed, order, w.script.remaining());
                                consumed = consumed.push(order);
                                assert(w.text_box.placed() =~= w0.text_box.placed() + typed_chars(
                                    consumed,
                                ));
                                assert(consumed.last() == Order::PageFeed);
                            }
                        } else {
                            proof {
                                // the page feed was held back from an earlier
                                // pass: it heads the remaining orders
                                assert(w.script.pending == Some(Order::PageFeed));
                                assert(w0.script.pending == Some(Order::PageFeed));
                                assert(w0.script.remaining()[0] == Order::PageFeed);
                            }
                        }
                        feed_now = true;
                        break ;
                    },
                }
            },
            None => {
                break ;
            },
        }
    }
    if feed_now {
        send_feed_event(events, target_window, &last_timer, &mut w.state);
        proof {
            let fed = Some(last_timer.remaining_msec);
            assert(consumption_ok(w0, *w, fed, consumed));
            assert(typing_step(w0, *w, fed));
            assert(events@ =~= old(events)@ + opt_event_seq(fed, target_window));
        }
    } else {
        proof {
            assert(consumption_ok(w0, *w, None, consumed));
            assert(typing_step(w0, *w, None));
            assert(events@ =~= old(events)@ + opt_event_seq(None, target_window));
        }
    }
}

/// What settling does to a whole box: every line measured and aligned,
/// everything else untouched.
pub open spec fn settled_box(o: TextBox, n: TextBox) -> bool {
    &&& n == (TextBox { lines: n.lines, ..o })
    &&& n.lines@.len() == o.lines@.len()
    &&& (forall|i: int|
        0 <= i < o.lines@.len() ==> n.lines@[i] == settled_line(
            #[trigger] o.lines@[i],
            o.max_width as int,
        ))
}

/// Measures every line of the box (width: sum of its characters' advances;
/// height: their largest size) and aligns it inside the box's width.  Safe to
/// re-run at any time: a second pass changes nothing.
pub fn settle_lines(b: &mut TextBox)
    requires
        old(b).wf(),
    ensures
        final(b).wf(),
        settled_box(*old(b), *final(b)),
        final(b).lines@.len() == old(b).lines@.len(),
        forall|i: int| 0 <= i < old(b).lines@.len() ==> final(b).lines@[i] == settled_line(
            #[trigger] old(b).lines@[i],
            old(b).max_width as int,
        ),
        *final(b) == (TextBox { lines: final(b).lines, ..*old(b) }),
{
    let n = b.lines.len();
    let ghost fs: int = b.config.font_size as int;
    let mut i: usize = 0;
    while i < n
        invariant
            i <= n,
            n == b.lines@.len(),
            b.wf(),
            n > 0 ==> b.cfg_ok(),
            fs == b.config.font_size as int,
            forall|j: int| 0 <= j < i ==> b.lines@[j] == settled_line(
                #[trigger] old(b).lines@[j],
                old(b).max_width as int,
            ),
            forall|j: int| i <= j < n ==> #[trigger] b.lines@[j] == old(b).lines@[j],
            *b == (TextBox { lines: b.lines, ..*old(b) }),
        decreases n - i,
    {
        let m = b.lines[i].chars.len();
        proof {
            assert(b.line_ok(b.lines@[i as int]));
            assert(forall|t: int|
                0 <= t < m ==> (#[trigger] b.lines@[i as int].chars@[t]).font_size
                    == b.config.font_size) by {
                assert(forall|t: int|
                    0 <= t < m ==> b.char_ok(#[trigger] b.lines@[i as int].chars@[t], t));
            }
            if m > 0 {
                assert(b.char_ok(b.lines@[i as int].chars@[m - 1], m - 1));
            }
        }
        let mut width: i64 = 0;
        let mut height: i64 = 0;
        let mut k: usize = 0;
        while k < m
            invariant
                k <= m,
                m == b.lines@[i as int].chars@.len(),
                0 <= i < n,
                n == b.lines@.len(),
                b.cfg_ok(),
                b.line_ok(b.lines@[i as int]),
                fs == b.config.font_size as int,
                width == k * fs,
                height == max_size(b.lines@[i as int].chars@.take(k as int)),
                m > 0 ==> m * fs <= b.max_width,
                height == 0 || height == fs,
            decreases m - k,
        {
            proof {
                assert(b.char_ok(b.lines@[i as int].chars@[k as int], k as int));
                assert((k + 1) * fs == k * fs + fs) by (nonlinear_arith);
                assert((k + 1) * fs <= m * fs) by (nonlinear_arith)
                    requires
                        k + 1 <= m,
                        fs >= 1,
                ;
                lemma_uniform_measures_take(
                    b.lines@[i as int].chars@,
                    fs,
                    k + 1,
                );
            }
            let c_fs = b.lines[i].chars[k].font_size;
            width = width + c_fs;
            if c_fs > height {
                height = c_fs;
            }
            k = k + 1;
        }
        proof {
            lemma_uniform_measures_take(b.lines@[i as int].chars@, fs, m as int);
            assert(b.lines@[i as int].chars@.take(m as int) =~= b.lines@[i as int].chars@);
        }
        let box_width = b.max_width;
        let off: i64 = match b.lines[i].alignment {
            TextAlignment::Left => 0,
            TextAlignment::Center => {
                let d = box_width - width;
                if d >= 0 {
                    d / 2
                } else {
                    -((-d) / 2)
                }
            },
            TextAlignment::Right => box_width - width,
        };
        let lr = &mut b.lines[i];
        lr.x_offset = off;
        lr.settled_size = Some(LineSize { width, height });
        i = i + 1;
    }
}

/// Runs one typing pass over every window, once per update tick: each typing
/// window pulls and acts on its orders; feed-waiting signals carry the index
/// of the window they target.
pub fn add_new_text(windows: &mut Vec<MessageWindow>, events: &mut Vec<FeedWaitingEvent>)
    requires
        forall|i: int| 0 <= i < old(windows)@.len() ==> (#[trigger] old(windows)@[i]).wf(),
    ensures
        final(windows)@.len() == old(windows)@.len(),
        forall|i: int| 0 <= i < final(windows)@.len() ==> (#[trigger] final(windows)@[i]).wf(),
        forall|i: int|
            0 <= i < final(windows)@.len() ==> #[trigger] typing_rel(
                old(windows)@[i],
                final(windows)@[i],
            ),
        exists|feds: Seq<Option<u64>>|
            #![trigger events_of(feds)]
            {
                &&& feds.len() == old(windows)@.len()
                &&& (forall|i: int|
                    0 <= i < feds.len() ==> typing_step(
                        old(windows)@[i],
                        final(windows)@[i],
                        #[trigger] feds[i],
                    ))
                &&& final(events)@ == old(events)@ + events_of(feds)
            },
        old(events)@.is_prefix_of(final(events)@),
{
    let n = windows.len();
    let mut i: usize = 0;
    let ghost mut feds: Seq<Option<u64>> = Seq::empty();
    proof {
        assert(events@.take(events@.len() as int) =~= events@);
        assert(events@ =~= events@ + events_of(feds));
    }
    while i < n
        invariant
            i <= n,
            n == windows@.len(),
            forall|j: int| 0 <= j < n ==> (#[trigger] windows@[j]).wf(),
            forall|j: int| i <= j < n ==> #[trigger] windows@[j] == old(windows)@[j],
            forall|j: int|
                0 <= j < i ==> #[trigger] typing_rel(old(windows)@[j], windows@[j]),
            feds.len() == i,
            forall|j: int|
                0 <= j < i ==> typing_step(old(windows)@[j], windows@[j], #[trigger] feds[j]),
            events@ == old(events)@ + events_of(feds),
            old(events)@.is_prefix_of(events@),
        decreases n - i,
    {
        let ghost evs_before: Seq<FeedWaitingEvent> = events@;
        let ghost wi_before: MessageWindow = windows@[i as int];
        typing_pass(&mut windows[i], i, events);
        proof {
            let fed = choose|fed: Option<u64>|
                #[trigger] typing_step(wi_before, windows@[i as int], fed) && events@ == evs_before
                    + opt_event_seq(fed, i);
            assert(typing_step(wi_before, windows@[i as int], fed));
            assert(wi_before == old(windows)@[i as int]);
            assert(typing_rel(old(windows)@[i as int], windows@[i as int]));
            let ghost feds0 = feds;
            feds = feds.push(fed);
            assert(feds.drop_last() =~= feds0);
            assert(events_of(feds) == events_of(feds0) + opt_event_seq(fed, i));
            assert(events@ =~= old(events)@ + events_of(feds));
            assert(events@.take(old(events)@.len() as int) =~= old(events)@);
        }
        i = i + 1;
    }
}

/// What one full tick does to one window: the popup trigger, then one
/// animation step over the elapsed time, then one typing pass, then the
/// settler over its box, in that order.
pub open spec fn tick_step(o: MessageWindow, n: MessageWindow, delta_msec: u64) -> bool {
    exists|a: MessageWindow, b: MessageWindow, c: MessageWindow|
        #![trigger crate::popup::popper_step(o, a), crate::popup::scaling_step(a, b, delta_msec), typing_rel(b, c)]
        {
            &&& crate::popup::popper_step(o, a)
            &&& crate::popup::scaling_step(a, b, delta_msec)
            &&& typing_rel(b, c)
            &&& n == (MessageWindow { text_box: n.text_box, ..c })
            &&& settled_box(c.text_box, n.text_box)
        }
}

/// One full engine tick over `delta_msec` milliseconds of simulated time, in
/// the required order: popup triggers run before the animator consumes their
/// rate records, layout runs before the settler reads the lines it produced.
pub fn tick(windows: &mut Vec<MessageWindow>, events: &mut Vec<FeedWaitingEvent>, delta_msec: u64)
    requires
        forall|i: int| 0 <= i < old(windows)@.len() ==> (#[trigger] old(windows)@[i]).wf(),
    ensures
        final(windows)@.len() == old(windows)@.len(),
        forall|i: int| 0 <= i < final(windows)@.len() ==> (#[trigger] final(windows)@[i]).wf(),
        forall|i: int|
            0 <= i < final(windows)@.len() ==> #[trigger] tick_step(
                old(windows)@[i],
                final(windows)@[i],
                delta_msec,
            ),
        old(events)@.is_prefix_of(final(events)@),
{
    let n = windows.len();
    let mut i: usize = 0;
    let ghost mut mids: Seq<MessageWindow> = Seq::empty();
    while i < n
        invariant
            i <= n,
            n == windows@.len(),
            mids.len() == i,
            forall|j: int| 0 <= j < n ==> (#[trigger] windows@[j]).wf(),
            forall|j: int| i <= j < n ==> #[trigger] windows@[j] == old(windows)@[j],
            forall|j: int|
                0 <= j < i ==> crate::popup::popper_step(old(windows)@[j], #[trigger] mids[j])
                    && crate::popup::scaling_step(mids[j], windows@[j], delta_msec),
        decreases n - i,
    {
        window_popper(&mut windows[i]);
        proof {
            mids = mids.push(windows@[i as int]);
        }
        scaling_up(&mut windows[i], delta_msec);
        i = i + 1;
    }
    let ghost ws1: Seq<MessageWindow> = windows@;
    add_new_text(windows, events);
    let ghost ws2: Seq<MessageWindow> = windows@;
    let mut k: usize = 0;
    while k < n
        invariant
            k <= n,
            n == windows@.len(),
            n == ws2.len(),
            forall|j: int| 0 <= j < n ==> (#[trigger] windows@[j]).wf(),
            forall|j: int| k <= j < n ==> #[trigger] windows@[j] == ws2[j],
            forall|j: int|
                0 <= j < k ==> #[trigger] windows@[j] == (MessageWindow {
                    text_box: windows@[j].text_box,
                    ..ws2[j]
                }) && settled_box(ws2[j].text_box, windows@[j].text_box),
        decreases n - k,
    {
        settle_lines(&mut windows[k].text_box);
        k = k + 1;
    }
    proof {
        assert forall|i: int|
            0 <= i < windows@.len() implies #[trigger] tick_step(
            old(windows)@[i],
            windows@[i],
            delta_msec,
        ) by {
            let a = mids[i];
            let b = ws1[i];
            let c = ws2[i];
            assert(crate::popup::popper_step(old(windows)@[i], a));
            assert(crate::popup::scaling_step(a, b, delta_msec));
            assert(typing_rel(b, c));
            assert(windows@[i] == (MessageWindow { text_box: windows@[i].text_box, ..c }));
            assert(settled_box(c.text_box, windows@[i].text_box));
        }
    }
}

} // verus!
