//! What the screen shows for each state: a list of drawing commands, and the check that
//! redraws only when the state or the talk changed.
use vstd::prelude::*;

use crate::config::{
    CURRENT_SLIDE_LINE_START, CURRENT_SLIDE_MAX_LINES, LINE_HEIGHT, MAX_CHARS_PER_LINE,
    NEXT_SLIDE_LINE_START, NEXT_SLIDE_MAX_LINES, PROGRESS_BAR_HEIGHT, PROGRESS_BAR_LINE,
    PROGRESS_BAR_MARGIN, STEP_DOT_MAX_VISIBLE, STEP_DOT_RADIUS, STEP_DOT_SPACING,
    STEP_INDICATOR_LINE, TITLE_LINE_START, TITLE_MAX_LINES,
};
use crate::state::{AppState, StateMode, StateModel, TalkData, TalkModel};
use crate::text::{string_views, wrap_spec, wrap_text};

verus! {

/// The colours of the display palette.
#[derive(Debug, Clone, Copy, PartialEq, Eq, Structural)]
pub enum DisplayColor {
    Black,
    White,
    Red,
    Yellow,
    Cyan,
    Green,
    Orange,
    ErrorBackground,
}

impl DisplayColor {
    /// The red (5 bit), green (6 bit) and blue (5 bit) channels of the colour in RGB565.
    pub fn channels(self) -> (rgb: (u8, u8, u8))
        ensures
            rgb.0 < 32 && rgb.1 < 64 && rgb.2 < 32,
            rgb == self.channels_spec(),
    {
        match self {
            DisplayColor::Black => (0x00, 0x00, 0x00),
            DisplayColor::White => (0x1F, 0x3F, 0x1F),
            DisplayColor::Red => (0x1F, 0x00, 0x00),
            DisplayColor::Yellow => (0x1F, 0x3F, 0x00),
            DisplayColor::Cyan => (0x00, 0x3F, 0x1F),
            DisplayColor::Green => (0x00, 0x3F, 0x00),
            DisplayColor::Orange => (0x1F, 0x0F, 0x00),
            DisplayColor::ErrorBackground => (0x10, 0x00, 0x00),
        }
    }

    /// The RGB565 channels of the colour.
    pub open spec fn channels_spec(self) -> (u8, u8, u8) {
        match self {
            DisplayColor::Black => (0x00, 0x00, 0x00),
            DisplayColor::White => (0x1F, 0x3F, 0x1F),
            DisplayColor::Red => (0x1F, 0x00, 0x00),
            DisplayColor::Yellow => (0x1F, 0x3F, 0x00),
            DisplayColor::Cyan => (0x00, 0x3F, 0x1F),
            DisplayColor::Green => (0x00, 0x3F, 0x00),
            DisplayColor::Orange => (0x1F, 0x0F, 0x00),
            DisplayColor::ErrorBackground => (0x10, 0x00, 0x00),
        }
    }
}

/// The two monospaced fonts (9x18 pixels, regular and bold).
#[derive(Debug, Clone, Copy, PartialEq, Eq, Structural)]
pub enum Font {
    Regular,
    Bold,
}

/// One drawing operation on the display.
#[derive(Debug)]
pub enum DrawCommand {
    /// Fill the whole display.
    Clear { color: DisplayColor },
    /// A line of text, centred horizontally on `x`, at height `y`.
    Text { text: String, x: i32, y: i32, color: DisplayColor, font: Font },
    /// A filled circle of the given diameter inside the square at `(x, y)`.
    FilledCircle { x: i32, y: i32, diameter: u32, color: DisplayColor },
    /// A circle outlined one pixel wide, inside the square at `(x, y)`.
    OutlinedCircle { x: i32, y: i32, diameter: u32, color: DisplayColor },
    /// A rectangle outlined one pixel wide, with its top left corner at `(x, y)`.
    OutlinedRect { x: i32, y: i32, width: u32, height: u32, color: DisplayColor },
    /// The filled part of a progress bar of `width` pixels at `(x, y)`: the fraction
    /// `(current + 1) / total` of its width, left aligned.
    ProgressFill {
        x: i32,
        y: i32,
        width: u32,
        height: u32,
        current: usize,
        total: usize,
        color: DisplayColor,
    },
}

/// The mathematical model of a [`DrawCommand`].
pub enum DrawModel {
    Clear { color: DisplayColor },
    Text { text: Seq<char>, x: int, y: int, color: DisplayColor, font: Font },
    FilledCircle { x: int, y: int, diameter: nat, color: DisplayColor },
    OutlinedCircle { x: int, y: int, diameter: nat, color: DisplayColor },
    OutlinedRect { x: int, y: int, width: nat, height: nat, color: DisplayColor },
    ProgressFill {
        x: int,
        y: int,
        width: nat,
        height: nat,
        current: nat,
        total: nat,
        color: DisplayColor,
    },
}

impl View for DrawCommand {
    type V = DrawModel;

    open spec fn view(&self) -> DrawModel {
        match self {
            DrawCommand::Clear { color } => DrawModel::Clear { color: *color },
            DrawCommand::Text { text, x, y, color, font } => DrawModel::Text {
                text: text@,
                x: *x as int,
                y: *y as int,
                color: *color,
                font: *font,
            },
            DrawCommand::FilledCircle { x, y, diameter, color } => DrawModel::FilledCircle {
                x: *x as int,
                y: *y as int,
                diameter: *diameter as nat,
                color: *color,
            },
            DrawCommand::OutlinedCircle { x, y, diameter, color } => DrawModel::OutlinedCircle {
                x: *x as int,
                y: *y as int,
                diameter: *diameter as nat,
                color: *color,
            },
            DrawCommand::OutlinedRect { x, y, width, height, color } => DrawModel::OutlinedRect {
                x: *x as int,
                y: *y as int,
                width: *width as nat,
                height: *height as nat,
                color: *color,
            },
            DrawCommand::ProgressFill { x, y, width, height, current, total, color } =>
                DrawModel::ProgressFill {
                x: *x as int,
                y: *y as int,
                width: *width as nat,
                height: *height as nat,
                current: *current as nat,
                total: *total as nat,
                color: *color,
            },
        }
    }
}

/// The models of a sequence of commands.
pub open spec fn command_views(v: Seq<DrawCommand>) -> Seq<DrawModel> {
    v.map_values(|c: DrawCommand| c@)
}

/// Integer division by two rounding toward zero, as Rust divides.
pub open spec fn half(v: int) -> int {
    if v >= 0 {
        v / 2
    } else {
        -((-v) / 2)
    }
}

/// At most the first `n` elements of `s`.
pub open spec fn first_n<A>(s: Seq<A>, n: nat) -> Seq<A> {
    if s.len() <= n {
        s
    } else {
        s.take(n as int)
    }
}

/// Text lines centred on the display, one per line from `start_line` on.
pub open spec fn lines_spec(
    lines: Seq<Seq<char>>,
    start_line: int,
    width: int,
    color: DisplayColor,
    font: Font,
) -> Seq<DrawModel> {
    Seq::new(
        lines.len(),
        |i: int|
            DrawModel::Text {
                text: lines[i],
                x: half(width),
                y: (start_line + i) * LINE_HEIGHT,
                color,
                font,
            },
    )
}

/// One status message centred on `line`.
pub open spec fn simple_spec(text: Seq<char>, color: DisplayColor, line: int, width: int) -> Seq<
    DrawModel,
> {
    lines_spec(seq![text], line, width, color, Font::Regular)
}

/// The talk title, wrapped to at most its line budget.
pub open spec fn title_spec(title: Seq<char>, color: DisplayColor, width: int) -> Seq<DrawModel> {
    lines_spec(
        first_n(wrap_spec(title, MAX_CHARS_PER_LINE as nat), TITLE_MAX_LINES as nat),
        TITLE_LINE_START as int,
        width,
        color,
        Font::Regular,
    )
}

/// The colour that shows a presentation mode.
pub open spec fn mode_color(mode: StateMode) -> DisplayColor {
    match mode {
        StateMode::Paused => DisplayColor::Yellow,
        StateMode::Running => DisplayColor::Green,
        StateMode::Done => DisplayColor::Cyan,
    }
}

/// The step dots: one per step up to the visible maximum, centred, filled up to the
/// current step and outlined after it.
pub open spec fn step_dots_spec(current_step: nat, step_count: nat, mode: StateMode, width: int) -> Seq<
    DrawModel,
> {
    let visible = if step_count <= STEP_DOT_MAX_VISIBLE { step_count } else {
        STEP_DOT_MAX_VISIBLE as nat
    };
    let start_x = half(width - (visible - 1) * STEP_DOT_SPACING);
    let y = STEP_INDICATOR_LINE * LINE_HEIGHT - STEP_DOT_RADIUS;
    Seq::new(
        visible,
        |i: int|
            if i <= current_step {
                DrawModel::FilledCircle {
                    x: start_x + i * STEP_DOT_SPACING - STEP_DOT_RADIUS,
                    y,
                    diameter: (2 * STEP_DOT_RADIUS) as nat,
                    color: mode_color(mode),
                }
            } else {
                DrawModel::OutlinedCircle {
                    x: start_x + i * STEP_DOT_SPACING - STEP_DOT_RADIUS,
                    y,
                    diameter: (2 * STEP_DOT_RADIUS) as nat,
                    color: DisplayColor::White,
                }
            },
    )
}

/// The progress bar: its outline across the display between the margins, and its fill.
pub open spec fn progress_spec(current: nat, total: nat, mode: StateMode, width: int) -> Seq<
    DrawModel,
> {
    let x = PROGRESS_BAR_MARGIN as int;
    let y = PROGRESS_BAR_LINE * LINE_HEIGHT - PROGRESS_BAR_HEIGHT / 2;
    let bar_width = (width - 2 * PROGRESS_BAR_MARGIN) as nat;
    seq![
        DrawModel::OutlinedRect {
            x,
            y,
            width: bar_width,
            height: PROGRESS_BAR_HEIGHT as nat,
            color: DisplayColor::White,
        },
        DrawModel::ProgressFill {
            x,
            y,
            width: bar_width,
            height: PROGRESS_BAR_HEIGHT as nat,
            current,
            total,
            color: mode_color(mode),
        },
    ]
}

/// The lines of a slide, wrapped and cut to `max_lines`, or nothing when there is no slide.
pub open spec fn slide_lines_spec(slide: Option<Seq<char>>, max_lines: nat) -> Seq<Seq<char>> {
    match slide {
        Some(text) => first_n(wrap_spec(text, MAX_CHARS_PER_LINE as nat), max_lines),
        None => Seq::empty(),
    }
}

/// The presentation screen: progress, title, step dots, current slide, next slide.
pub open spec fn play_spec(
    data: TalkModel,
    current: usize,
    current_step: usize,
    mode: StateMode,
    width: int,
) -> Seq<DrawModel> {
    let step_count = data.step_count(current as int);
    progress_spec(current as nat, data.slides.len(), mode, width) + title_spec(
        data.title,
        mode_color(mode),
        width,
    ) + (if step_count > 0 {
        step_dots_spec(current_step as nat, step_count as nat, mode, width)
    } else {
        Seq::empty()
    }) + lines_spec(
        slide_lines_spec(data.slide(current as int), CURRENT_SLIDE_MAX_LINES as nat),
        CURRENT_SLIDE_LINE_START as int,
        width,
        DisplayColor::White,
        Font::Bold,
    ) + lines_spec(
        slide_lines_spec(data.slide(current + 1), NEXT_SLIDE_MAX_LINES as nat),
        NEXT_SLIDE_LINE_START as int,
        width,
        DisplayColor::Cyan,
        Font::Regular,
    )
}

/// Everything drawn for `state` (and the talk, when loaded) on a display `width` pixels wide.
pub open spec fn render_spec(state: StateModel, talk: Option<TalkModel>, width: int) -> Seq<
    DrawModel,
> {
    let background = if state is Error {
        DisplayColor::ErrorBackground
    } else {
        DisplayColor::Black
    };
    let body = match state {
        StateModel::Play { current, current_step, mode } => match talk {
            Some(data) => play_spec(data, current, current_step, mode, width),
            None => simple_spec("No talk data"@, DisplayColor::Red, TITLE_LINE_START + 3, width),
        },
        StateModel::Initialized => match talk {
            Some(data) => title_spec(data.title, DisplayColor::Cyan, width) + simple_spec(
                "Ready"@,
                DisplayColor::Green,
                CURRENT_SLIDE_LINE_START as int,
                width,
            ),
            None => simple_spec("Loading..."@, DisplayColor::Yellow, TITLE_LINE_START + 3, width),
        },
        StateModel::Error { message } => simple_spec(
            "ERROR"@,
            DisplayColor::Red,
            TITLE_LINE_START as int,
            width,
        ) + lines_spec(
            wrap_spec(message, MAX_CHARS_PER_LINE as nat),
            CURRENT_SLIDE_LINE_START as int,
            width,
            DisplayColor::Red,
            Font::Regular,
        ),
        StateModel::Booting => simple_spec(
            "Booting..."@,
            DisplayColor::Orange,
            TITLE_LINE_START + 3,
            width,
        ),
        StateModel::Connecting { ssid } => simple_spec(
            "Connecting"@,
            DisplayColor::Yellow,
            TITLE_LINE_START as int,
            width,
        ) + lines_spec(
            wrap_spec(ssid, MAX_CHARS_PER_LINE as nat),
            CURRENT_SLIDE_LINE_START as int,
            width,
            DisplayColor::Yellow,
            Font::Regular,
        ),
        StateModel::Connected { ssid } => simple_spec(
            "Connected"@,
            DisplayColor::Green,
            TITLE_LINE_START as int,
            width,
        ) + lines_spec(
            wrap_spec(ssid, MAX_CHARS_PER_LINE as nat),
            CURRENT_SLIDE_LINE_START as int,
            width,
            DisplayColor::White,
            Font::Regular,
        ),
        StateModel::Loading => simple_spec(
            "Loading talk..."@,
            DisplayColor::White,
            TITLE_LINE_START + 3,
            width,
        ),
    };
    seq![DrawModel::Clear { color: background }] + body
}

/// The model of an optional talk.
pub open spec fn talk_view(talk: Option<&TalkData>) -> Option<TalkModel> {
    match talk {
        Some(data) => Some(data@),
        None => None,
    }
}

/// The largest number of text lines a block from the current slide's line on may have: with
/// one more, the height of its last line, `(5 + index) * 20`, no longer fits in `i32`.
pub const MAX_BLOCK_LINES: usize = 107_374_178;

/// Whether every text block of `state` has few enough lines for its heights to fit in `i32`.
pub open spec fn blocks_fit(state: StateModel) -> bool {
    match state {
        StateModel::Error { message } => wrap_spec(message, MAX_CHARS_PER_LINE as nat).len()
            <= MAX_BLOCK_LINES,
        StateModel::Connecting { ssid } => wrap_spec(ssid, MAX_CHARS_PER_LINE as nat).len()
            <= MAX_BLOCK_LINES,
        StateModel::Connected { ssid } => wrap_spec(ssid, MAX_CHARS_PER_LINE as nat).len()
            <= MAX_BLOCK_LINES,
        _ => true,
    }
}

/// Whether `state` can be drawn, with `talk`, on a display `width` pixels wide.
pub open spec fn renderable(state: StateModel, talk: Option<TalkModel>, width: nat) -> bool {
    &&& width <= i32::MAX
    &&& blocks_fit(state)
    &&& (state is Play && talk is Some ==> width >= 2 * PROGRESS_BAR_MARGIN)
    &&& (talk is Some ==> (state matches StateModel::Play { current, .. } ==> current < usize::MAX))
}


/// Appends at most `limit` of `lines`, centred, one per line from `start_line` on.
fn push_lines(
    out: &mut Vec<DrawCommand>,
    lines: &Vec<String>,
    limit: usize,
    start_line: i32,
    width: i32,
    color: DisplayColor,
    font: Font,
)
    requires
        0 <= start_line <= NEXT_SLIDE_LINE_START,
        0 <= width,
        start_line + first_n(string_views(lines@), limit as nat).len() <= CURRENT_SLIDE_LINE_START
            + MAX_BLOCK_LINES,
    ensures
        command_views(final(out)@) == command_views(old(out)@) + lines_spec(
            first_n(string_views(lines@), limit as nat),
            start_line as int,
            width as int,
            color,
            font,
        ),
{
    let ghost shown = first_n(string_views(lines@), limit as nat);
    let count = if lines.len() <= limit {
        lines.len()
    } else {
        limit
    };
    assert(shown.len() == count);
    let center_x = width / 2;
    let mut i: usize = 0;
    while i < count
        invariant
            0 <= i <= count,
            count == shown.len(),
            count <= lines@.len(),
            start_line + count <= CURRENT_SLIDE_LINE_START + MAX_BLOCK_LINES,
            0 <= start_line <= NEXT_SLIDE_LINE_START,
            center_x == half(width as int),
            shown == first_n(string_views(lines@), limit as nat),
            command_views(out@) == command_views(old(out)@) + lines_spec(
                shown,
                start_line as int,
                width as int,
                color,
                font,
            ).take(i as int),
        decreases count - i,
    {
        let index = i as i32;
        let y = (start_line + index) * LINE_HEIGHT;
        let text = lines[i].clone();
        let ghost before = out@;
        out.push(DrawCommand::Text { text, x: center_x, y, color, font });
        proof {
            assert(shown[i as int] == lines@[i as int]@);
            let spec_lines = lines_spec(shown, start_line as int, width as int, color, font);
            assert(spec_lines.take(i + 1) =~= spec_lines.take(i as int).push(spec_lines[i as int]));
            assert(out@ =~= before.push(out@.last()));
            assert(command_views(out@) =~= command_views(before).push(out@.last()@));
        }
        i = i + 1;
    }
    proof {
        let spec_lines = lines_spec(shown, start_line as int, width as int, color, font);
        assert(spec_lines.take(count as int) =~= spec_lines);
    }
}

/// Appends one status message centred on `line`.
fn push_simple(out: &mut Vec<DrawCommand>, text: &str, color: DisplayColor, line: i32, width: i32)
    requires
        0 <= line <= NEXT_SLIDE_LINE_START,
        0 <= width,
    ensures
        command_views(final(out)@) == command_views(old(out)@) + simple_spec(
            text@,
            color,
            line as int,
            width as int,
        ),
{
    let ghost before = out@;
    out.push(
        DrawCommand::Text {
            text: String::from_str(text),
            x: width / 2,
            y: line * LINE_HEIGHT,
            color,
            font: Font::Regular,
        },
    );
    assert(command_views(out@) =~= command_views(before) + simple_spec(
        text@,
        color,
        line as int,
        width as int,
    ));
}

/// Appends the talk title, wrapped to its line budget.
fn push_title(out: &mut Vec<DrawCommand>, title: &str, color: DisplayColor, width: i32)
    requires
        0 <= width,
    ensures
        command_views(final(out)@) == command_views(old(out)@) + title_spec(
            title@,
            color,
            width as int,
        ),
{
    let lines = wrap_text(title, MAX_CHARS_PER_LINE);
    push_lines(out, &lines, TITLE_MAX_LINES, TITLE_LINE_START, width, color, Font::Regular);
}


/// Returns the colour that shows a presentation mode.
fn mode_color_of(mode: StateMode) -> (color: DisplayColor)
    ensures
        color == mode_color(mode),
{
    match mode {
        StateMode::Paused => DisplayColor::Yellow,
        StateMode::Running => DisplayColor::Green,
        StateMode::Done => DisplayColor::Cyan,
    }
}

/// Appends the step dots of a slide that has `step_count` steps.
fn push_step_dots(
    out: &mut Vec<DrawCommand>,
    current_step: usize,
    step_count: usize,
    mode: StateMode,
    width: i32,
)
    requires
        0 <= width,
        step_count > 0,
    ensures
        command_views(final(out)@) == command_views(old(out)@) + step_dots_spec(
            current_step as nat,
            step_count as nat,
            mode,
            width as int,
        ),
{
    let visible = if step_count <= STEP_DOT_MAX_VISIBLE {
        step_count
    } else {
        STEP_DOT_MAX_VISIBLE
    };
    let total_width = (visible as i32 - 1) * STEP_DOT_SPACING;
    let start_x = (width - total_width) / 2;
    let y = STEP_INDICATOR_LINE * LINE_HEIGHT;
    let radius = STEP_DOT_RADIUS as i32;
    let filled_color = mode_color_of(mode);
    let ghost dots = step_dots_spec(current_step as nat, step_count as nat, mode, width as int);
    let mut i: usize = 0;
    while i < visible
        invariant
            0 <= i <= visible,
            1 <= visible <= STEP_DOT_MAX_VISIBLE,
            visible == dots.len(),
            0 <= width,
            start_x == half(width - (visible - 1) * STEP_DOT_SPACING),
            y == STEP_INDICATOR_LINE * LINE_HEIGHT,
            radius == STEP_DOT_RADIUS,
            filled_color == mode_color(mode),
            dots == step_dots_spec(current_step as nat, step_count as nat, mode, width as int),
            command_views(out@) == command_views(old(out)@) + dots.take(i as int),
        decreases visible - i,
    {
        let x = start_x + (i as i32) * STEP_DOT_SPACING;
        let ghost before = out@;
        if i <= current_step {
            out.push(
                DrawCommand::FilledCircle {
                    x: x - radius,
                    y: y - radius,
                    diameter: STEP_DOT_RADIUS * 2,
                    color: filled_color,
                },
            );
        } else {
            out.push(
                DrawCommand::OutlinedCircle {
                    x: x - radius,
                    y: y - radius,
                    diameter: STEP_DOT_RADIUS * 2,
                    color: DisplayColor::White,
                },
            );
        }
        proof {
            assert(dots.take(i + 1) =~= dots.take(i as int).push(dots[i as int]));
            assert(out@ =~= before.push(out@.last()));
            assert(command_views(out@) =~= command_views(before).push(out@.last()@));
        }
        i = i + 1;
    }
    assert(dots.take(visible as int) =~= dots);
}

/// Appends the progress bar for slide `current` of `total`.
fn push_progress_bar(
    out: &mut Vec<DrawCommand>,
    current: usize,
    total: usize,
    mode: StateMode,
    width: i32,
)
    requires
        2 * PROGRESS_BAR_MARGIN <= width,
    ensures
        command_views(final(out)@) == command_views(old(out)@) + progress_spec(
            current as nat,
            total as nat,
            mode,
            width as int,
        ),
{
    let x = PROGRESS_BAR_MARGIN;
    let y = PROGRESS_BAR_LINE * LINE_HEIGHT - (PROGRESS_BAR_HEIGHT / 2) as i32;
    let bar_width = (width - 2 * PROGRESS_BAR_MARGIN) as u32;
    let ghost before = out@;
    out.push(
        DrawCommand::OutlinedRect {
            x,
            y,
            width: bar_width,
            height: PROGRESS_BAR_HEIGHT,
            color: DisplayColor::White,
        },
    );
    out.push(
        DrawCommand::ProgressFill {
            x,
            y,
            width: bar_width,
            height: PROGRESS_BAR_HEIGHT,
            current,
            total,
            color: mode_color_of(mode),
        },
    );
    assert(command_views(out@) =~= command_views(before) + progress_spec(
        current as nat,
        total as nat,
        mode,
        width as int,
    ));
}

/// Appends the lines of a slide, wrapped and cut to `max_lines`, when there is a slide.
fn push_slide(
    out: &mut Vec<DrawCommand>,
    slide: Option<&str>,
    max_lines: usize,
    start_line: i32,
    width: i32,
    color: DisplayColor,
    font: Font,
)
    requires
        0 <= start_line <= NEXT_SLIDE_LINE_START,
        0 <= width,
        start_line + max_lines <= CURRENT_SLIDE_LINE_START + MAX_BLOCK_LINES,
    ensures
        command_views(final(out)@) == command_views(old(out)@) + lines_spec(
            slide_lines_spec(crate::state::opt_str_view(slide), max_lines as nat),
            start_line as int,
            width as int,
            color,
            font,
        ),
{
    match slide {
        Some(text) => {
            let lines = wrap_text(text, MAX_CHARS_PER_LINE);
            push_lines(out, &lines, max_lines, start_line, width, color, font);
        },
        None => {
            assert(lines_spec(Seq::empty(), start_line as int, width as int, color, font)
                =~= Seq::empty());
            assert(command_views(out@) =~= command_views(out@) + Seq::empty());
        },
    }
}

/// Appends the presentation screen for slide `current`.
#[verifier::rlimit(40)]
fn push_play(
    out: &mut Vec<DrawCommand>,
    data: &TalkData,
    current: usize,
    current_step: usize,
    mode: StateMode,
    width: i32,
)
    requires
        2 * PROGRESS_BAR_MARGIN <= width,
        current < usize::MAX,
    ensures
        command_views(final(out)@) == command_views(old(out)@) + play_spec(
            data@,
            current,
            current_step,
            mode,
            width as int,
        ),
{
    let ghost start = command_views(out@);
    let title_color = mode_color_of(mode);
    push_progress_bar(out, current, data.slide_count(), mode, width);
    let ghost a = command_views(out@);
    push_title(out, data.title.as_str(), title_color, width);
    let ghost b = command_views(out@);
    let step_count = data.get_step_count(current);
    if step_count > 0 {
        push_step_dots(out, current_step, step_count, mode, width);
    } else {
        assert(command_views(out@) =~= command_views(out@) + Seq::<DrawModel>::empty());
    }
    let ghost c = command_views(out@);
    push_slide(
        out,
        data.get_slide(current),
        CURRENT_SLIDE_MAX_LINES,
        CURRENT_SLIDE_LINE_START,
        width,
        DisplayColor::White,
        Font::Bold,
    );
    let ghost d = command_views(out@);
    push_slide(
        out,
        data.get_next_slide(current),
        NEXT_SLIDE_MAX_LINES,
        NEXT_SLIDE_LINE_START,
        width,
        DisplayColor::Cyan,
        Font::Regular,
    );
    proof {
        let p = play_spec(data@, current, current_step, mode, width as int);
        assert(command_views(out@) =~= start + p);
    }
}


/// The drawing commands that show `state` (and the talk, when loaded) on a display
/// `display_width` pixels wide: the display is cleared, then the state's layout is drawn.
pub fn render_commands(
    state: &AppState,
    talk_data: Option<&TalkData>,
    display_width: u32,
) -> (commands: Vec<DrawCommand>)
    requires
        renderable(state@, talk_view(talk_data), display_width as nat),
    ensures
        command_views(commands@) == render_spec(state@, talk_view(talk_data), display_width as int),
{
    let width = display_width as i32;
    let mut out: Vec<DrawCommand> = Vec::new();
    let background = match state {
        AppState::Error { .. } => DisplayColor::ErrorBackground,
        _ => DisplayColor::Black,
    };
    out.push(DrawCommand::Clear { color: background });
    let ghost head = command_views(out@);
    match state {
        AppState::Play { current, current_step, mode } => match talk_data {
            Some(data) => push_play(&mut out, data, *current, *current_step, *mode, width),
            None => push_simple(&mut out, "No talk data", DisplayColor::Red, TITLE_LINE_START + 3, width),
        },
        AppState::Initialized => match talk_data {
            Some(data) => {
                push_title(&mut out, data.title.as_str(), DisplayColor::Cyan, width);
                push_simple(&mut out, "Ready", DisplayColor::Green, CURRENT_SLIDE_LINE_START, width);
            },
            None => push_simple(&mut out, "Loading...", DisplayColor::Yellow, TITLE_LINE_START + 3, width),
        },
        AppState::Error { message } => {
            push_simple(&mut out, "ERROR", DisplayColor::Red, TITLE_LINE_START, width);
            let lines = wrap_text(message.as_str(), MAX_CHARS_PER_LINE);
            push_lines(
                &mut out,
                &lines,
                usize::MAX,
                CURRENT_SLIDE_LINE_START,
                width,
                DisplayColor::Red,
                Font::Regular,
            );
        },
        AppState::Booting => push_simple(&mut out, "Booting...", DisplayColor::Orange, TITLE_LINE_START + 3, width),
        AppState::Connecting { ssid } => {
            push_simple(&mut out, "Connecting", DisplayColor::Yellow, TITLE_LINE_START, width);
            let lines = wrap_text(ssid.as_str(), MAX_CHARS_PER_LINE);
            push_lines(
                &mut out,
                &lines,
                usize::MAX,
                CURRENT_SLIDE_LINE_START,
                width,
                DisplayColor::Yellow,
                Font::Regular,
            );
        },
        AppState::Connected { ssid } => {
            push_simple(&mut out, "Connected", DisplayColor::Green, TITLE_LINE_START, width);
            let lines = wrap_text(ssid.as_str(), MAX_CHARS_PER_LINE);
            push_lines(
                &mut out,
                &lines,
                usize::MAX,
                CURRENT_SLIDE_LINE_START,
                width,
                DisplayColor::White,
                Font::Regular,
            );
        },
        AppState::Loading => push_simple(&mut out, "Loading talk...", DisplayColor::White, TITLE_LINE_START + 3, width),
    }
    assert(command_views(out@) =~= render_spec(state@, talk_view(talk_data), display_width as int));
    out
}

/// Every screen starts by clearing the display, to the error background exactly in the error
/// state.
pub proof fn lemma_render_clears_first(state: StateModel, talk: Option<TalkModel>, width: int)
    ensures
        render_spec(state, talk, width).len() >= 1,
        render_spec(state, talk, width)[0] == (DrawModel::Clear {
            color: if state is Error {
                DisplayColor::ErrorBackground
            } else {
                DisplayColor::Black
            },
        }),
{
}

/// The step dots: one per step, at most the visible maximum; the dots up to and including the
/// current step are filled in the mode's colour, the later ones are outlined.
pub proof fn lemma_step_dots_show_progress(
    current_step: nat,
    step_count: nat,
    mode: StateMode,
    width: int,
)
    ensures
        ({
            let dots = step_dots_spec(current_step, step_count, mode, width);
            &&& dots.len() == if step_count <= STEP_DOT_MAX_VISIBLE {
                step_count
            } else {
                STEP_DOT_MAX_VISIBLE as nat
            }
            &&& forall|i: int|
                0 <= i < dots.len() ==> (#[trigger] dots[i] is FilledCircle <==> i <= current_step)
            &&& forall|i: int|
                0 <= i < dots.len() && i <= current_step ==> (#[trigger] dots[i]
                    matches DrawModel::FilledCircle { color, .. } && color == mode_color(mode))
        }),
{
}

/// With a talk loaded, the ready screen and the presentation screen draw the talk title as its
/// first wrapped lines, up to two, in full: one per line from the title's line on, centred, in
/// cyan on the ready screen and in the mode's colour while presenting. On the ready screen
/// "Ready" follows, and nothing else.
pub proof fn lemma_title_drawn_in_full(talk: TalkModel, state: StateModel, width: int)
    ensures
        ({
            let lines = wrap_spec(talk.title, MAX_CHARS_PER_LINE as nat);
            let k = if lines.len() <= 2 { lines.len() } else { 2 };
            let out = render_spec(state, Some(talk), width);
            let first = if state is Play { 3int } else { 1int };
            let color = match state {
                StateModel::Play { mode, .. } => mode_color(mode),
                _ => DisplayColor::Cyan,
            };
            (state is Initialized || state is Play) ==> {
                &&& out.len() >= first + k
                &&& forall|i: int|
                    0 <= i < k ==> #[trigger] out[first + i] == (DrawModel::Text {
                        text: lines[i],
                        x: half(width),
                        y: (2 + i) * 20,
                        color,
                        font: Font::Regular,
                    })
                &&& state is Initialized ==> out.len() == k + 2 && out[k + 1int] == (DrawModel::Text {
                    text: "Ready"@,
                    x: half(width),
                    y: 5int * 20,
                    color: DisplayColor::Green,
                    font: Font::Regular,
                })
            }
        }),
{
    let lines = wrap_spec(talk.title, MAX_CHARS_PER_LINE as nat);
    let k = if lines.len() <= 2 { lines.len() } else { 2 };
    let shown = first_n(lines, TITLE_MAX_LINES as nat);
    assert(shown.len() == k);
    assert forall|i: int| 0 <= i < k implies #[trigger] shown[i] == lines[i] by {}
    match state {
        StateModel::Initialized => {
            let t = title_spec(talk.title, DisplayColor::Cyan, width);
            let r = simple_spec("Ready"@, DisplayColor::Green, CURRENT_SLIDE_LINE_START as int, width);
            let out = render_spec(state, Some(talk), width);
            assert(out == seq![DrawModel::Clear { color: DisplayColor::Black }] + t + r);
            assert(out.len() == k + 2);
            assert forall|i: int| 0 <= i < k implies #[trigger] out[1 + i] == (DrawModel::Text {
                text: lines[i],
                x: half(width),
                y: (2 + i) * 20,
                color: DisplayColor::Cyan,
                font: Font::Regular,
            }) by {
                assert(out[1 + i] == t[i]);
            }
            assert(out[k + 1int] == r[0]);
        },
        StateModel::Play { current, current_step, mode } => {
            let p = progress_spec(current as nat, talk.slides.len(), mode, width);
            let t = title_spec(talk.title, mode_color(mode), width);
            let out = render_spec(state, Some(talk), width);
            let rest = play_spec(talk, current, current_step, mode, width);
            assert(out == seq![DrawModel::Clear { color: DisplayColor::Black }] + rest);
            assert(rest.len() >= 2 + k);
            assert forall|i: int| 0 <= i < k implies #[trigger] out[3 + i] == (DrawModel::Text {
                text: lines[i],
                x: half(width),
                y: (2 + i) * 20,
                color: mode_color(mode),
                font: Font::Regular,
            }) by {
                assert(out[3 + i] == rest[2 + i]);
                assert(rest[2 + i] == (p + t)[2 + i]);
                assert((p + t)[2 + i] == t[i]);
            }
        },
        _ => {},
    }
}

/// The status screens: after the clear, the error screen shows "ERROR" in red on the title line
/// and then every wrapped line of the message in red, one per line from the slide line on; the
/// WiFi screens show "Connecting" in yellow or "Connected" in green, then every wrapped line of
/// the network name, in yellow or white. Nothing of the text is cut.
pub proof fn lemma_status_screens_show_the_whole_text(
    state: StateModel,
    talk: Option<TalkModel>,
    width: int,
)
    ensures
        ({
            let out = render_spec(state, talk, width);
            let (heading, head_color, text, text_color) = match state {
                StateModel::Error { message } => ("ERROR"@, DisplayColor::Red, message, DisplayColor::Red),
                StateModel::Connecting { ssid } => ("Connecting"@, DisplayColor::Yellow, ssid, DisplayColor::Yellow),
                StateModel::Connected { ssid } => ("Connected"@, DisplayColor::Green, ssid, DisplayColor::White),
                _ => (Seq::empty(), DisplayColor::Black, Seq::empty(), DisplayColor::Black),
            };
            let lines = wrap_spec(text, MAX_CHARS_PER_LINE as nat);
            (state is Error || state is Connecting || state is Connected) ==> {
                &&& out.len() == lines.len() + 2
                &&& out[1] == (DrawModel::Text {
                    text: heading,
                    x: half(width),
                    y: 2int * 20,
                    color: head_color,
                    font: Font::Regular,
                })
                &&& forall|i: int|
                    0 <= i < lines.len() ==> #[trigger] out[2 + i] == (DrawModel::Text {
                        text: lines[i],
                        x: half(width),
                        y: (5 + i) * 20,
                        color: text_color,
                        font: Font::Regular,
                    })
            }
        }),
{
    let out = render_spec(state, talk, width);
    match state {
        StateModel::Error { message } => {
            let lines = wrap_spec(message, MAX_CHARS_PER_LINE as nat);
            let h = simple_spec("ERROR"@, DisplayColor::Red, TITLE_LINE_START as int, width);
            let b = lines_spec(lines, CURRENT_SLIDE_LINE_START as int, width, DisplayColor::Red, Font::Regular);
            assert(out == seq![DrawModel::Clear { color: DisplayColor::ErrorBackground }] + h + b);
            assert(out[1] == h[0]);
            assert forall|i: int| 0 <= i < lines.len() implies #[trigger] out[2 + i] == b[i] by {}
        },
        StateModel::Connecting { ssid } => {
            let lines = wrap_spec(ssid, MAX_CHARS_PER_LINE as nat);
            let h = simple_spec("Connecting"@, DisplayColor::Yellow, TITLE_LINE_START as int, width);
            let b = lines_spec(lines, CURRENT_SLIDE_LINE_START as int, width, DisplayColor::Yellow, Font::Regular);
            assert(out == seq![DrawModel::Clear { color: DisplayColor::Black }] + h + b);
            assert(out[1] == h[0]);
            assert forall|i: int| 0 <= i < lines.len() implies #[trigger] out[2 + i] == b[i] by {}
        },
        StateModel::Connected { ssid } => {
            let lines = wrap_spec(ssid, MAX_CHARS_PER_LINE as nat);
            let h = simple_spec("Connected"@, DisplayColor::Green, TITLE_LINE_START as int, width);
            let b = lines_spec(lines, CURRENT_SLIDE_LINE_START as int, width, DisplayColor::White, Font::Regular);
            assert(out == seq![DrawModel::Clear { color: DisplayColor::Black }] + h + b);
            assert(out[1] == h[0]);
            assert forall|i: int| 0 <= i < lines.len() implies #[trigger] out[2 + i] == b[i] by {}
        },
        _ => {},
    }
}

/// The screens with a single message: booting, loading the talk, and a ready or presenting state
/// whose talk is not loaded yet. Each shows its message alone on the slide line, after the clear.
pub proof fn lemma_waiting_screens_show_one_message(state: StateModel, width: int)
    ensures
        ({
            let w = half(width);
            let line = 5int * 20;
            &&& render_spec(StateModel::Booting, None, width) == seq![
                DrawModel::Clear { color: DisplayColor::Black },
                DrawModel::Text { text: "Booting..."@, x: w, y: line, color: DisplayColor::Orange, font: Font::Regular },
            ]
            &&& render_spec(StateModel::Loading, None, width) == seq![
                DrawModel::Clear { color: DisplayColor::Black },
                DrawModel::Text { text: "Loading talk..."@, x: w, y: line, color: DisplayColor::White, font: Font::Regular },
            ]
            &&& render_spec(StateModel::Initialized, None, width) == seq![
                DrawModel::Clear { color: DisplayColor::Black },
                DrawModel::Text { text: "Loading..."@, x: w, y: line, color: DisplayColor::Yellow, font: Font::Regular },
            ]
            &&& state is Play ==> render_spec(state, None, width) == seq![
                DrawModel::Clear { color: DisplayColor::Black },
                DrawModel::Text { text: "No talk data"@, x: w, y: line, color: DisplayColor::Red, font: Font::Regular },
            ]
        }),
{
    assert(render_spec(StateModel::Booting, None, width) =~= seq![
        DrawModel::Clear { color: DisplayColor::Black },
        DrawModel::Text { text: "Booting..."@, x: half(width), y: 5int * 20, color: DisplayColor::Orange, font: Font::Regular },
    ]);
    assert(render_spec(StateModel::Loading, None, width) =~= seq![
        DrawModel::Clear { color: DisplayColor::Black },
        DrawModel::Text { text: "Loading talk..."@, x: half(width), y: 5int * 20, color: DisplayColor::White, font: Font::Regular },
    ]);
    assert(render_spec(StateModel::Initialized, None, width) =~= seq![
        DrawModel::Clear { color: DisplayColor::Black },
        DrawModel::Text { text: "Loading..."@, x: half(width), y: 5int * 20, color: DisplayColor::Yellow, font: Font::Regular },
    ]);
    if state is Play {
        assert(render_spec(state, None, width) =~= seq![
            DrawModel::Clear { color: DisplayColor::Black },
            DrawModel::Text { text: "No talk data"@, x: half(width), y: 5int * 20, color: DisplayColor::Red, font: Font::Regular },
        ]);
    }
}

/// The lines of an optional slide wrapped to a line, at most `max` of them.
pub open spec fn shown_lines(slide: Option<Seq<char>>, max: nat) -> Seq<Seq<char>> {
    match slide {
        Some(text) => {
            let all = wrap_spec(text, MAX_CHARS_PER_LINE as nat);
            if all.len() <= max { all } else { all.take(max as int) }
        },
        None => Seq::empty(),
    }
}

/// The presentation screen, after the clear: the progress bar across the display (its outline in
/// white, its fill for slide `current` of all the slides in the mode's colour), the title lines,
/// the step dots of the slide (one per step, at most fifteen), then the current slide's first
/// wrapped lines (up to four) in bold white from the slide line, and the next slide's first
/// wrapped lines (up to two) in cyan from the next-slide line; no next slide after the last.
pub proof fn lemma_presentation_shows_the_slides(
    talk: TalkModel,
    current: usize,
    current_step: usize,
    mode: StateMode,
    width: int,
)
    ensures
        ({
            let out = render_spec(StateModel::Play { current, current_step, mode }, Some(talk), width);
            let titles = wrap_spec(talk.title, MAX_CHARS_PER_LINE as nat);
            let k = if titles.len() <= 2 { titles.len() } else { 2 };
            let sc = talk.step_count(current as int);
            let d: nat = if sc == 0 { 0 } else if sc <= 15 { sc as nat } else { 15 };
            let cur = shown_lines(talk.slide(current as int), 4);
            let next = shown_lines(talk.slide(current + 1), 2);
            let base = 3 + k + d;
            &&& out.len() == base + cur.len() + next.len()
            &&& out[1] == (DrawModel::OutlinedRect {
                x: 20,
                y: 16,
                width: (width - 40) as nat,
                height: 8,
                color: DisplayColor::White,
            })
            &&& out[2] == (DrawModel::ProgressFill {
                x: 20,
                y: 16,
                width: (width - 40) as nat,
                height: 8,
                current: current as nat,
                total: talk.slides.len(),
                color: mode_color(mode),
            })
            &&& forall|i: int|
                0 <= i < cur.len() ==> #[trigger] out[base + i] == (DrawModel::Text {
                    text: cur[i],
                    x: half(width),
                    y: (5 + i) * 20,
                    color: DisplayColor::White,
                    font: Font::Bold,
                })
            &&& forall|j: int|
                0 <= j < next.len() ==> #[trigger] out[base + cur.len() + j] == (DrawModel::Text {
                    text: next[j],
                    x: half(width),
                    y: (10 + j) * 20,
                    color: DisplayColor::Cyan,
                    font: Font::Regular,
                })
            &&& current + 1 >= talk.slides.len() ==> next.len() == 0
        }),
{
    let state = StateModel::Play { current, current_step, mode };
    let out = render_spec(state, Some(talk), width);
    let p = progress_spec(current as nat, talk.slides.len(), mode, width);
    let t = title_spec(talk.title, mode_color(mode), width);
    let sc = talk.step_count(current as int);
    let dots = if sc > 0 {
        step_dots_spec(current_step as nat, sc as nat, mode, width)
    } else {
        Seq::empty()
    };
    let cur = shown_lines(talk.slide(current as int), 4);
    let next = shown_lines(talk.slide(current + 1), 2);
    let l1 = lines_spec(
        slide_lines_spec(talk.slide(current as int), CURRENT_SLIDE_MAX_LINES as nat),
        CURRENT_SLIDE_LINE_START as int,
        width,
        DisplayColor::White,
        Font::Bold,
    );
    let l2 = lines_spec(
        slide_lines_spec(talk.slide(current + 1), NEXT_SLIDE_MAX_LINES as nat),
        NEXT_SLIDE_LINE_START as int,
        width,
        DisplayColor::Cyan,
        Font::Regular,
    );
    assert(slide_lines_spec(talk.slide(current as int), CURRENT_SLIDE_MAX_LINES as nat) == cur);
    assert(slide_lines_spec(talk.slide(current + 1), NEXT_SLIDE_MAX_LINES as nat) == next);
    let rest = p + t + dots + l1 + l2;
    assert(out == seq![DrawModel::Clear { color: DisplayColor::Black }] + rest);
    let titles = wrap_spec(talk.title, MAX_CHARS_PER_LINE as nat);
    let k = if titles.len() <= 2 { titles.len() } else { 2 };
    assert(t.len() == k);
    let d: nat = if sc == 0 { 0 } else if sc <= 15 { sc as nat } else { 15 };
    assert(dots.len() == d);
    let base = 3 + k + d;
    assert(out[1] == p[0]);
    assert(out[2] == p[1]);
    assert forall|i: int| 0 <= i < cur.len() implies #[trigger] out[base + i] == l1[i] by {
        assert(out[base + i] == rest[base - 1 + i]);
        assert(rest[base - 1 + i] == (p + t + dots + l1)[base - 1 + i]);
    }
    assert forall|j: int| 0 <= j < next.len() implies #[trigger] out[base + cur.len() + j] == l2[j] by {
        assert(out[base + cur.len() + j] == rest[base - 1 + cur.len() + j]);
    }
}

/// Remembers what the display last showed, so that it is redrawn only on a change.
pub struct RenderGate {
    current_state_hash: u64,
}

impl View for RenderGate {
    type V = u64;

    /// The hash of the state and talk the display last showed (zero before the first).
    closed spec fn view(&self) -> u64 {
        self.current_state_hash
    }
}

impl RenderGate {
    /// A gate before anything was drawn.
    pub fn new() -> (gate: Self)
        ensures
            gate@ == 0,
    {
        RenderGate { current_state_hash: 0 }
    }

    /// Whether a state and talk with hash `new_hash` must be drawn; the hash is then remembered.
    pub fn should_render(&mut self, new_hash: u64) -> (render: bool)
        ensures
            render == (old(self)@ != new_hash),
            final(self)@ == new_hash,
    {
        if self.current_state_hash != new_hash {
            self.current_state_hash = new_hash;
            true
        } else {
            false
        }
    }
}

} // verus!
