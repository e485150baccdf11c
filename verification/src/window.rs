//! Message windows: their lifecycle states, the request that opens one, and
//! the signal emitted when typing has to pause for the reader.

use vstd::prelude::*;
use crate::layout::{
    TextAlignment, TextBox, TypeTextConfig, TypingTiming, WritingStyle, COORD_MAX, FONT_MAX,
};
use crate::orders::{LoadedScript, Order};
use crate::popup::ScalingUp;

verus! {

/// Lifecycle of a message window.  Transitions are strictly forward except
/// `Waiting -> Typing` on a feed advance.
#[derive(Clone, Copy, Debug, PartialEq, Eq, Structural)]
pub enum WindowState {
    Preparing,
    PoppingUp,
    Typing,
    Waiting,
    Closed,
}

/// The window's entrance animation.
#[derive(Clone, Copy, Debug, PartialEq, Eq, Structural)]
pub enum PopupType {
    /// Scale from zero to full size over this many milliseconds.
    Scale { msec: u64 },
}

/// How a full page is fed away once the reader advances.
#[derive(Clone, Copy, Debug, PartialEq, Eq, Structural)]
pub enum FeedingStyle {
    /// Scroll out, keeping `size` lines, over `msec` milliseconds.
    Scroll { size: u32, msec: u64 },
}

/// How a waiting pause is dismissed.
#[derive(Clone, Copy, Debug, PartialEq, Eq, Structural)]
pub enum WaitBrakerStyle {
    /// Reader input, with an optional indicator that may slide to the last
    /// line.
    Input { has_icon: bool, is_icon_moving_to_last: bool },
}

/// Emitted when typing pauses (page feed or height overflow): the window to
/// advance and the milliseconds still owed to the last placed character's
/// reveal, so waiting visuals can sync with it.
#[derive(Clone, Copy, Debug, PartialEq, Eq, Structural)]
pub struct FeedWaitingEvent {
    pub target_window: usize,
    pub wait_msec: u64,
}

/// One message window: lifecycle state, entrance animation state, feeding and
/// wait-dismissal styles, its script, and the text box it types into.
pub struct MessageWindow {
    pub name: String,
    pub state: WindowState,
    pub wait_breaker: WaitBrakerStyle,
    pub feeding: FeedingStyle,
    pub popup_type: PopupType,
    pub background_path: String,
    pub position: (i64, i64),
    pub visible: bool,
    /// At most one window is current; only it reacts to popup and input.
    pub is_current: bool,
    /// Entrance scale in micro-units; `SCALE_ONE` is full size.
    pub scale: u64,
    pub scaling: Option<ScalingUp>,
    pub script: LoadedScript,
    pub text_box: TextBox,
}

impl MessageWindow {
    pub open spec fn wf(self) -> bool {
        self.text_box.wf()
    }
}

/// A request to open a message window.
pub struct OpenWindowEvent {
    pub window_name: String,
    pub box_name: String,
    pub font_paths: Vec<String>,
    pub font_size: i64,
    pub background_path: String,
    pub position: (i64, i64),
    pub feeding: FeedingStyle,
    pub script_path: String,
    pub main_box_origin: (i64, i64),
    pub main_box_size: (i64, i64),
    pub main_alignment: TextAlignment,
    pub writing: WritingStyle,
    pub typing_timing: TypingTiming,
    pub layer: u8,
    pub wait_breaker: WaitBrakerStyle,
    pub popup: PopupType,
    /// Reuse this window slot instead of opening a new one.
    pub message_window_entity: Option<usize>,
}

impl OpenWindowEvent {
    /// Whether the requested geometry is usable: a degenerate request (zero
    /// or negative box dimensions or font size, or sizes outside the model's
    /// bounds) opens a faulted box that yields no placements.
    pub open spec fn geometry_ok(self) -> bool {
        &&& 1 <= self.font_size <= FONT_MAX
        &&& 1 <= self.main_box_size.0 <= COORD_MAX
        &&& 1 <= self.main_box_size.1 <= COORD_MAX
    }
}

/// The window a request opens: freshly preparing, invisible until it pops up,
/// current, with an empty text box and a script not yet delivered.
pub open spec fn is_new_window(w: MessageWindow, ev: OpenWindowEvent) -> bool {
    &&& w.name == ev.window_name
    &&& w.state == WindowState::Preparing
    &&& w.wait_breaker == ev.wait_breaker
    &&& w.feeding == ev.feeding
    &&& w.popup_type == ev.popup
    &&& w.background_path == ev.background_path
    &&& w.position == ev.position
    &&& !w.visible
    &&& w.is_current
    &&& w.scale == 0
    &&& w.scaling.is_none()
    &&& w.script.path == ev.script_path
    &&& w.script.order_list.is_none()
    &&& w.script.pending.is_none()
    &&& w.text_box.name == ev.box_name
    &&& w.text_box.config.fonts@ == ev.font_paths@
    &&& w.text_box.config.font_size == ev.font_size
    &&& w.text_box.config.typing_timing == ev.typing_timing
    &&& w.text_box.config.writing == ev.writing
    &&& w.text_box.config.layer == ev.layer
    &&& w.text_box.config.alignment == ev.main_alignment
    &&& w.text_box.origin == ev.main_box_origin
    &&& w.text_box.max_width == ev.main_box_size.0
    &&& w.text_box.max_height == ev.main_box_size.1
    &&& w.text_box.faulted == !ev.geometry_ok()
    &&& w.text_box.lines@.len() == 0
}

/// A window pushed behind a newly opened one: unchanged but stripped of the
/// current marker and of its visibility.
pub open spec fn is_backgrounded(w: MessageWindow, prior: MessageWindow) -> bool {
    w == MessageWindow { is_current: false, visible: false, ..prior }
}

/// Opens (or reuses) a message window for a request: every prior window loses
/// the current marker and its visibility, and the requested window starts
/// preparing, with a faulted box when the requested geometry is degenerate.
pub fn open_window(windows: &mut Vec<MessageWindow>, ev: OpenWindowEvent)
    requires
        ev.message_window_entity matches Some(i) ==> i < old(windows)@.len(),
    ensures
        match ev.message_window_entity {
            Some(i) => {
                &&& final(windows)@.len() == old(windows)@.len()
                &&& is_new_window(final(windows)@[i as int], ev)
                &&& forall|j: int|
                    0 <= j < old(windows)@.len() && j != i ==> is_backgrounded(
                        #[trigger] final(windows)@[j],
                        old(windows)@[j],
                    )
            },
            None => {
                &&& final(windows)@.len() == old(windows)@.len() + 1
                &&& is_new_window(final(windows)@.last(), ev)
                &&& forall|j: int|
                    0 <= j < old(windows)@.len() ==> is_backgrounded(
                        #[trigger] final(windows)@[j],
                        old(windows)@[j],
                    )
            },
        },
        ev.message_window_entity.is_none() ==> final(windows)@.last().wf(),
        ev.message_window_entity matches Some(i) ==> final(windows)@[i as int].wf(),
        forall|j: int|
            0 <= j < old(windows)@.len() && old(windows)@[j].wf()
                ==> (#[trigger] final(windows)@[j]).wf() || Some(j as usize)
                == ev.message_window_entity,
{
    let mut k: usize = 0;
    let n = windows.len();
    while k < n
        invariant
            k <= n,
            n == windows@.len(),
            forall|j: int| 0 <= j < k ==> is_backgrounded(#[trigger] windows@[j], old(windows)@[j]),
            forall|j: int| k <= j < n ==> #[trigger] windows@[j] == old(windows)@[j],
        decreases n - k,
    {
        let w = &mut windows[k];
        w.is_current = false;
        w.visible = false;
        k = k + 1;
    }
    let geometry_ok = 1 <= ev.font_size && ev.font_size <= FONT_MAX && 1 <= ev.main_box_size.0
        && ev.main_box_size.0 <= COORD_MAX && 1 <= ev.main_box_size.1 && ev.main_box_size.1
        <= COORD_MAX;
    let fresh = MessageWindow {
        name: ev.window_name,
        state: WindowState::Preparing,
        wait_breaker: ev.wait_breaker,
        feeding: ev.feeding,
        popup_type: ev.popup,
        background_path: ev.background_path,
        position: ev.position,
        visible: false,
        is_current: true,
        scale: 0,
        scaling: None,
        script: LoadedScript { path: ev.script_path, order_list: None, pending: None },
        text_box: TextBox {
            name: ev.box_name,
            config: TypeTextConfig {
                fonts: ev.font_paths,
                font_size: ev.font_size,
                typing_timing: ev.typing_timing,
                writing: ev.writing,
                layer: ev.layer,
                alignment: ev.main_alignment,
            },
            origin: ev.main_box_origin,
            max_width: ev.main_box_size.0,
            max_height: ev.main_box_size.1,
            faulted: !geometry_ok,
            lines: Vec::new(),
        },
    };
    match ev.message_window_entity {
        Some(i) => {
            windows[i] = fresh;
        },
        None => {
            windows.push(fresh);
        },
    }
}

/// The advance/continue surface: the wait breaker (reader input, typically)
/// flips a waiting window back to typing, resuming its remaining orders; any
/// other window is left alone.
pub fn advance_feed(w: &mut MessageWindow)
    ensures
        old(w).state == WindowState::Waiting ==> *final(w) == (MessageWindow {
            state: WindowState::Typing,
            ..*old(w)
        }),
        old(w).state != WindowState::Waiting ==> *final(w) == *old(w),
{
    if w.state == WindowState::Waiting {
        w.state = WindowState::Typing;
    }
}

/// The script-loaded callback surface: the collaborator delivers the parsed
/// order list (tail = next order to process) once the script asset is ready.
pub fn deliver_order_list(script: &mut LoadedScript, list: Vec<Order>)
    ensures
        final(script).path == old(script).path,
        final(script).pending == old(script).pending,
        final(script).order_list matches Some(v) && v@ == list@,
{
    script.order_list = Some(list);
}

} // verus!
