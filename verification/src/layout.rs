//! The text-box layout model: characters, lines, the box that owns them, and
//! the placement rules (width/height overflow, per-character reveal delay).
//!
//! Geometry is in integer layout units; the box's y axis grows downwards into
//! negative values, so a line's y is never positive.  Reveal delays are in
//! whole milliseconds.

use vstd::prelude::*;

verus! {

/// Largest accepted font size, in layout units.
pub const FONT_MAX: i64 = 65536;

/// Largest accepted box dimension (either sign), in layout units.
pub const COORD_MAX: i64 = 1_000_000_000_000;

/// Countdown until the owning character is revealed; only its remaining time
/// is modelled, the ticking is the renderer's business.
#[derive(Clone, Copy, Debug, PartialEq, Eq, Structural)]
pub struct TypingTimer {
    pub remaining_msec: u64,
}

impl TypingTimer {
    /// Milliseconds left until the character shows.
    pub fn remaining(&self) -> (r: u64)
        ensures
            r == self.remaining_msec,
    {
        self.remaining_msec
    }
}

/// Pacing policy for revealing characters.
#[derive(Clone, Copy, Debug, PartialEq, Eq, Structural)]
pub enum TypingTiming {
    /// Each character is scheduled this long after the previous one.
    ByChar { msec: u64 },
    /// A pause of this length before each line after the first.
    ByLine { msec: u64 },
    /// Whole-page reveal: no per-character delay.
    ByPage,
}

/// Horizontal alignment of a settled line inside its box.
#[derive(Clone, Copy, Debug, PartialEq, Eq, Structural)]
pub enum TextAlignment {
    Left,
    Center,
    Right,
}

/// How a revealed character is drawn in.
#[derive(Clone, Copy, Debug, PartialEq, Eq, Structural)]
pub enum WritingStyle {
    /// Shown at once when its timer runs out.
    Put,
    /// Faded in over this many milliseconds.
    Wipe { msec: u64 },
}

/// Per-box typing configuration.
pub struct TypeTextConfig {
    /// Font asset paths, probed in order by the renderer; first match wins.
    pub fonts: Vec<String>,
    pub font_size: i64,
    pub typing_timing: TypingTiming,
    pub writing: WritingStyle,
    /// Render layer the box's text is drawn on.
    pub layer: u8,
    pub alignment: TextAlignment,
}

/// One revealed glyph: its character, its horizontal offset within the line,
/// its size, and the snapshot of its reveal timer.
#[derive(Clone, Copy, Debug, PartialEq, Eq, Structural)]
pub struct MessageTextChar {
    pub character: char,
    pub x: i64,
    pub font_size: i64,
    pub timer: TypingTimer,
}

/// A settled line's measured render size.
#[derive(Clone, Copy, Debug, PartialEq, Eq, Structural)]
pub struct LineSize {
    pub width: i64,
    pub height: i64,
}

/// One line of revealed characters, at vertical offset `y` within the box.
/// `x_offset` and `settled_size` are written by the line settler.
pub struct MessageTextLine {
    pub y: i64,
    pub x_offset: i64,
    pub settled_size: Option<LineSize>,
    pub alignment: TextAlignment,
    pub chars: Vec<MessageTextChar>,
}

/// The text box a window types into.  `faulted` records a configuration
/// fault (degenerate dimensions or font size): a faulted box yields no
/// further placements until reconfigured.
pub struct TextBox {
    pub name: String,
    pub config: TypeTextConfig,
    /// The box rectangle's position inside its window, in layout units.
    pub origin: (i64, i64),
    pub max_width: i64,
    pub max_height: i64,
    pub faulted: bool,
    pub lines: Vec<MessageTextLine>,
}

impl TextBox {
    /// The configured geometry is inside the model's bounds.
    pub open spec fn cfg_ok(self) -> bool {
        &&& 1 <= self.config.font_size <= FONT_MAX
        &&& -COORD_MAX <= self.max_width <= COORD_MAX
        &&& -COORD_MAX <= self.max_height <= COORD_MAX
    }

    /// Every placed character sits inside the box: sizes equal the configured
    /// font size, offsets grow at least one glyph advance per character and
    /// never pass the right edge.
    pub open spec fn char_ok(self, c: MessageTextChar, i: int) -> bool {
        &&& c.font_size == self.config.font_size
        &&& (i + 1) * self.config.font_size <= c.x <= self.max_width
    }

    pub open spec fn line_ok(self, l: MessageTextLine) -> bool {
        &&& -self.max_height <= l.y <= 0
        &&& match l.settled_size {
            Some(sz) => 0 <= sz.width && 0 <= sz.height <= self.config.font_size,
            None => true,
        }
        &&& forall|i: int| 0 <= i < l.chars@.len() ==> self.char_ok(#[trigger] l.chars@[i], i)
    }

    /// Well-formedness: a box that holds lines, or that is still accepting
    /// placements, has a sane configuration, and every line is in bounds.
    pub open spec fn wf(self) -> bool {
        &&& !self.faulted ==> self.cfg_ok()
        &&& self.lines@.len() > 0 ==> self.cfg_ok()
        &&& forall|j: int| 0 <= j < self.lines@.len() ==> self.line_ok(#[trigger] self.lines@[j])
    }

    /// All characters placed so far, line by line, in placement order.
    pub open spec fn placed(self) -> Seq<char> {
        flat_chars(self.lines@)
    }
}

/// The characters of one line, in placement order.
pub open spec fn line_chars(l: MessageTextLine) -> Seq<char> {
    l.chars@.map_values(|c: MessageTextChar| c.character)
}

/// All characters of a sequence of lines, concatenated in line order.
pub open spec fn flat_chars(lines: Seq<MessageTextLine>) -> Seq<char>
    decreases lines.len(),
{
    if lines.len() == 0 {
        Seq::empty()
    } else {
        flat_chars(lines.drop_last()) + line_chars(lines.last())
    }
}

/// `a + b` clamped into `u64`.
pub open spec fn sat_add(a: u64, b: u64) -> u64 {
    if a + b > u64::MAX {
        u64::MAX
    } else {
        (a + b) as u64
    }
}

/// Saturating millisecond addition.
pub fn add_msec(a: u64, b: u64) -> (r: u64)
    ensures
        r == sat_add(a, b),
{
    if a <= u64::MAX - b {
        a + b
    } else {
        u64::MAX
    }
}

/// Reveal delay of the next character, given the previous character's
/// remaining delay `prev` and the cursor at which it will be placed: by
/// character the pacing is strictly cumulative; by line a pause is added only
/// for the first character of a line below the first; otherwise immediate.
pub open spec fn next_delay(
    t: TypingTiming,
    prev: u64,
    last_x: i64,
    last_y: i64,
    font_size: i64,
) -> u64 {
    match t {
        TypingTiming::ByChar { msec } => sat_add(prev, msec),
        TypingTiming::ByLine { msec } => if last_x == 0 && last_y < -font_size {
            sat_add(prev, msec)
        } else {
            prev
        },
        TypingTiming::ByPage => 0,
    }
}

/// The typing cursor derived from a box's tail line and tail character: where
/// the next character would go, and the timer baseline for its delay.
pub struct LastTextData {
    pub has_line: bool,
    pub last_x: i64,
    pub last_y: i64,
    pub timer: TypingTimer,
}

/// What the derived cursor must be: at the tail character's offset plus its
/// advance (or the left edge of an empty line), at the tail line's y plus its
/// settled height (or the top of an unsettled line or empty box), with the
/// tail character's timer as baseline (or an elapsed one).
pub open spec fn init_data(b: TextBox) -> LastTextData {
    if b.lines@.len() == 0 {
        LastTextData { has_line: false, last_x: 0, last_y: 0, timer: TypingTimer { remaining_msec: 0 } }
    } else {
        let l = b.lines@.last();
        LastTextData {
            has_line: true,
            last_x: if l.chars@.len() == 0 {
                0
            } else {
                (l.chars@.last().x + l.chars@.last().font_size) as i64
            },
            last_y: match l.settled_size {
                Some(sz) => (l.y + sz.height) as i64,
                None => 0,
            },
            timer: if l.chars@.len() == 0 {
                TypingTimer { remaining_msec: 0 }
            } else {
                l.chars@.last().timer
            },
        }
    }
}

/// Scans the box's tail for the cursor at which typing resumes.
pub fn initialize_typing_data(b: &TextBox) -> (r: LastTextData)
    requires
        b.wf(),
    ensures
        r == init_data(*b),
{
    let n = b.lines.len();
    if n == 0 {
        LastTextData { has_line: false, last_x: 0, last_y: 0, timer: TypingTimer { remaining_msec: 0 } }
    } else {
        let l = &b.lines[n - 1];
        let m = l.chars.len();
        let last_x: i64 = if m == 0 {
            0
        } else {
            assert(b.char_ok(l.chars@[m - 1], m - 1));
            l.chars[m - 1].x + l.chars[m - 1].font_size
        };
        let last_y: i64 = match l.settled_size {
            Some(sz) => l.y + sz.height,
            None => 0,
        };
        let timer: TypingTimer = if m == 0 {
            TypingTimer { remaining_msec: 0 }
        } else {
            l.chars[m - 1].timer
        };
        LastTextData { has_line: true, last_x, last_y, timer }
    }
}

/// What placing `new_word` at the cursor yields: nothing when the candidate
/// offset would pass the box's right edge (a width of exactly the edge is
/// accepted), else the new character with its policy-driven reveal delay.
pub open spec fn spec_new_text(
    new_word: char,
    config: TypeTextConfig,
    last_x: i64,
    last_y: i64,
    prev_msec: u64,
    max_width: i64,
) -> Option<MessageTextChar> {
    if last_x + config.font_size > max_width {
        None
    } else {
        Some(MessageTextChar {
            character: new_word,
            x: (last_x + config.font_size) as i64,
            font_size: config.font_size,
            timer: TypingTimer {
                remaining_msec: next_delay(config.typing_timing, prev_msec, last_x, last_y, config.font_size),
            },
        })
    }
}

/// Tries to place one character at the cursor.  The caller commits the
/// returned character (advancing the cursor and the timer baseline to it)
/// only when it also has a line to attach it to.
pub fn make_new_text(
    new_word: char,
    config: &TypeTextConfig,
    last_x: i64,
    last_y: i64,
    last_timer: &TypingTimer,
    max_width: i64,
) -> (r: Option<MessageTextChar>)
    requires
        1 <= config.font_size <= FONT_MAX,
        -COORD_MAX <= max_width <= COORD_MAX,
        0 <= last_x <= COORD_MAX + FONT_MAX,
        -COORD_MAX <= last_y <= FONT_MAX,
    ensures
        r == spec_new_text(new_word, *config, last_x, last_y, last_timer.remaining_msec, max_width),
        r.is_some() <==> last_x + config.font_size <= max_width,
{
    let next_x = last_x + config.font_size;
    if next_x > max_width {
        None
    } else {
        let prev = last_timer.remaining_msec;
        let msec: u64 = match config.typing_timing {
            TypingTiming::ByChar { msec } => add_msec(prev, msec),
            TypingTiming::ByLine { msec } => {
                let is_first_line = last_y >= -config.font_size;
                if last_x == 0 && !is_first_line {
                    add_msec(prev, msec)
                } else {
                    prev
                }
            },
            TypingTiming::ByPage => 0,
        };
        Some(MessageTextChar {
            character: new_word,
            x: next_x,
            font_size: config.font_size,
            timer: TypingTimer { remaining_msec: msec },
        })
    }
}

/// Whether a fresh empty line fits at the cursor: one line height further
/// down, with a y of exactly the bottom edge still accepted.
pub open spec fn is_fresh_line(l: MessageTextLine, config: TypeTextConfig, last_y: i64) -> bool {
    &&& l.y == last_y - config.font_size
    &&& l.x_offset == 0
    &&& l.settled_size.is_none()
    &&& l.alignment == config.alignment
    &&& l.chars@.len() == 0
}

/// Tries to break the line: the new line sits one line height (the font
/// size) below the cursor, and is refused when that would pass below the
/// box's bottom edge.
pub fn make_empty_line(config: &TypeTextConfig, last_y: i64, max_height: i64) -> (r: Option<
    MessageTextLine,
>)
    requires
        1 <= config.font_size <= FONT_MAX,
        -COORD_MAX <= max_height <= COORD_MAX,
        -COORD_MAX <= last_y <= FONT_MAX,
    ensures
        r.is_some() <==> last_y - config.font_size >= -max_height,
        r matches Some(l) ==> is_fresh_line(l, *config, last_y),
{
    let new_y = last_y - config.font_size;
    if new_y < -max_height {
        None
    } else {
        Some(MessageTextLine {
            y: new_y,
            x_offset: 0,
            settled_size: None,
            alignment: config.alignment,
            chars: Vec::new(),
        })
    }
}

} // verus!
