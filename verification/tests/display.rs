use toboggan_esp32::display_manager::DrawCommand as Cmd;
use toboggan_esp32::text::{bytes_within, char_width, chunk_word, split_words, wrap_text};
use toboggan_esp32::{render_commands, AppState, DisplayColor, Font, RenderGate, StateMode, TalkData};

fn text_of(cmd: &Cmd) -> Option<(&str, i32, i32, DisplayColor, Font)> {
    match cmd {
        Cmd::Text { text, x, y, color, font } => Some((text.as_str(), *x, *y, *color, *font)),
        _ => None,
    }
}

#[test]
fn wrap_text_keeps_short_text_whole() {
    assert_eq!(wrap_text("Hello world", 35), vec!["Hello world".to_string()]);
    assert_eq!(wrap_text("", 35), vec!["".to_string()]);
}

#[test]
fn wrap_text_fills_lines_greedily() {
    let lines = wrap_text("The quick brown fox jumps over the lazy dog", 15);
    assert_eq!(lines, vec!["The quick brown", "fox jumps over", "the lazy dog"]);
}

#[test]
fn wrap_text_cuts_a_word_longer_than_a_line() {
    let lines = wrap_text("a verylongwordthatdoesnotfit b", 10);
    assert_eq!(lines, vec!["a", "verylongwo", "rdthatdoes", "notfit b"]);
    assert_eq!(wrap_text("aa", 1), vec!["a", "a"]);
    for line in wrap_text("supercalifragilisticexpialidocious is long", 7) {
        assert!(line.len() <= 7);
    }
}

#[test]
fn wrap_text_counts_bytes() {
    // "éé éé" is five characters but nine bytes.
    assert_eq!(wrap_text("éé éé", 9), vec!["éé éé"]);
    assert_eq!(wrap_text("éé éé", 8), vec!["éé", "éé"]);
    assert_eq!(wrap_text("éé éé", 5), vec!["éé", "éé"]);
    assert_eq!(wrap_text("éé", 3), vec!["é", "é"]);
    assert_eq!(wrap_text("aa bbbb ccc dddd", 7), vec!["aa bbbb", "ccc", "dddd"]);
}

#[test]
fn wrap_text_puts_a_character_wider_than_a_line_on_its_own() {
    assert_eq!(wrap_text("é", 1), vec!["é"]);
    assert_eq!(wrap_text("aé", 1), vec!["a", "é"]);
    assert_eq!(wrap_text("€uro", 2), vec!["€", "ur", "o"]);
}

#[test]
fn wrap_text_with_zero_width_puts_each_character_on_a_line() {
    assert_eq!(wrap_text("", 0), vec![""]);
    assert_eq!(wrap_text("a b", 0), vec!["a", "b"]);
    assert_eq!(wrap_text("ab", 0), vec!["a", "b"]);
}

#[test]
fn chunk_word_cuts_into_runs() {
    assert_eq!(chunk_word("abcdefg", 3), vec!["abc", "def", "g"]);
    assert_eq!(chunk_word("abc", 3), vec!["abc"]);
    assert_eq!(chunk_word("abc", 0), vec!["a", "b", "c"]);
    assert_eq!(chunk_word("ééé", 5), vec!["éé", "é"]);
    assert_eq!(chunk_word("", 0), vec![""]);
}

#[test]
fn bytes_within_counts_utf8_bytes() {
    assert_eq!(bytes_within("aé€😀", 10), Some(10));
    assert_eq!(bytes_within("aé€😀", 9), None);
    assert_eq!(bytes_within("", 0), Some(0));
    assert_eq!(char_width('a'), 1);
    assert_eq!(char_width('é'), 2);
    assert_eq!(char_width('€'), 3);
    assert_eq!(char_width('😀'), 4);
}

#[test]
fn wrap_text_collapses_whitespace_runs() {
    let lines = wrap_text("  one \t two\n\nthree   ", 9);
    assert_eq!(lines, vec!["one two", "three"]);
}

#[test]
fn split_words_splits_on_unicode_whitespace() {
    assert_eq!(split_words(" a\u{A0}b  c "), vec!["a", "b", "c"]);
    assert!(split_words("   ").is_empty());
}

#[test]
fn render_booting_screen() {
    let cmds = render_commands(&AppState::Booting, None, 320);
    assert_eq!(cmds.len(), 2);
    assert!(matches!(cmds[0], Cmd::Clear { color: DisplayColor::Black }));
    assert_eq!(
        text_of(&cmds[1]),
        Some(("Booting...", 160, 100, DisplayColor::Orange, Font::Regular))
    );
}

#[test]
fn render_error_screen_wraps_the_message() {
    let state = AppState::Error {
        message: "WiFi failed: the access point did not answer in time".to_string(),
    };
    let cmds = render_commands(&state, None, 320);
    assert!(matches!(cmds[0], Cmd::Clear { color: DisplayColor::ErrorBackground }));
    assert_eq!(text_of(&cmds[1]), Some(("ERROR", 160, 40, DisplayColor::Red, Font::Regular)));
    assert_eq!(
        text_of(&cmds[2]),
        Some(("WiFi failed: the access point did", 160, 100, DisplayColor::Red, Font::Regular))
    );
    assert_eq!(
        text_of(&cmds[3]),
        Some(("not answer in time", 160, 120, DisplayColor::Red, Font::Regular))
    );
    assert_eq!(cmds.len(), 4);
}

#[test]
fn render_connecting_and_connected_screens() {
    let cmds = render_commands(&AppState::Connecting { ssid: "home".to_string() }, None, 320);
    assert_eq!(text_of(&cmds[1]), Some(("Connecting", 160, 40, DisplayColor::Yellow, Font::Regular)));
    assert_eq!(text_of(&cmds[2]), Some(("home", 160, 100, DisplayColor::Yellow, Font::Regular)));
    let cmds = render_commands(&AppState::Connected { ssid: "home".to_string() }, None, 320);
    assert_eq!(text_of(&cmds[1]), Some(("Connected", 160, 40, DisplayColor::Green, Font::Regular)));
    assert_eq!(text_of(&cmds[2]), Some(("home", 160, 100, DisplayColor::White, Font::Regular)));
}

#[test]
fn render_initialized_with_and_without_talk() {
    let cmds = render_commands(&AppState::Initialized, None, 320);
    assert_eq!(cmds.len(), 2);
    assert_eq!(text_of(&cmds[1]), Some(("Loading...", 160, 100, DisplayColor::Yellow, Font::Regular)));
    let data = TalkData::new("My talk".to_string(), vec!["Intro".to_string()], vec![0]);
    let cmds = render_commands(&AppState::Initialized, Some(&data), 320);
    assert_eq!(cmds.len(), 3);
    assert_eq!(text_of(&cmds[1]), Some(("My talk", 160, 40, DisplayColor::Cyan, Font::Regular)));
    assert_eq!(text_of(&cmds[2]), Some(("Ready", 160, 100, DisplayColor::Green, Font::Regular)));
}

#[test]
fn render_play_screen_layout() {
    let data = TalkData::new(
        "Talk".to_string(),
        vec!["First slide".to_string(), "Second slide".to_string()],
        vec![3, 0],
    );
    let state = AppState::Play { current: 0, current_step: 1, mode: StateMode::Running };
    let cmds = render_commands(&state, Some(&data), 320);
    // clear, bar outline, bar fill, title, three dots, current slide, next slide
    assert_eq!(cmds.len(), 9);
    assert!(matches!(
        cmds[1],
        Cmd::OutlinedRect { x: 20, y: 16, width: 280, height: 8, color: DisplayColor::White }
    ));
    assert!(matches!(
        cmds[2],
        Cmd::ProgressFill {
            x: 20,
            y: 16,
            width: 280,
            height: 8,
            current: 0,
            total: 2,
            color: DisplayColor::Green
        }
    ));
    assert_eq!(text_of(&cmds[3]), Some(("Talk", 160, 40, DisplayColor::Green, Font::Regular)));
    // three dots centred on 160, 16 pixels apart: centres 144, 160, 176
    assert!(matches!(
        cmds[4],
        Cmd::FilledCircle { x: 138, y: 74, diameter: 12, color: DisplayColor::Green }
    ));
    assert!(matches!(
        cmds[5],
        Cmd::FilledCircle { x: 154, y: 74, diameter: 12, color: DisplayColor::Green }
    ));
    assert!(matches!(
        cmds[6],
        Cmd::OutlinedCircle { x: 170, y: 74, diameter: 12, color: DisplayColor::White }
    ));
    assert_eq!(text_of(&cmds[7]), Some(("First slide", 160, 100, DisplayColor::White, Font::Bold)));
    assert_eq!(text_of(&cmds[8]), Some(("Second slide", 160, 200, DisplayColor::Cyan, Font::Regular)));
}

#[test]
fn render_play_last_slide_has_no_next_and_paused_is_yellow() {
    let data = TalkData::new("T".to_string(), vec!["Only".to_string()], vec![]);
    let state = AppState::Play { current: 0, current_step: 0, mode: StateMode::Paused };
    let cmds = render_commands(&state, Some(&data), 320);
    assert_eq!(cmds.len(), 5);
    assert!(matches!(cmds[2], Cmd::ProgressFill { color: DisplayColor::Yellow, .. }));
    assert_eq!(text_of(&cmds[3]), Some(("T", 160, 40, DisplayColor::Yellow, Font::Regular)));
    assert_eq!(text_of(&cmds[4]), Some(("Only", 160, 100, DisplayColor::White, Font::Bold)));
}

#[test]
fn render_play_caps_step_dots_at_fifteen() {
    let data = TalkData::new("T".to_string(), vec!["S".to_string()], vec![40]);
    let state = AppState::Play { current: 0, current_step: 100, mode: StateMode::Done };
    let cmds = render_commands(&state, Some(&data), 320);
    let dots = cmds
        .iter()
        .filter(|c| matches!(c, Cmd::FilledCircle { color: DisplayColor::Cyan, .. }))
        .count();
    assert_eq!(dots, 15);
}

#[test]
fn render_play_without_talk_data() {
    let state = AppState::Play { current: 0, current_step: 0, mode: StateMode::Running };
    let cmds = render_commands(&state, None, 320);
    assert_eq!(text_of(&cmds[1]), Some(("No talk data", 160, 100, DisplayColor::Red, Font::Regular)));
}

#[test]
fn display_colors_have_rgb565_channels() {
    assert_eq!(DisplayColor::White.channels(), (0x1F, 0x3F, 0x1F));
    assert_eq!(DisplayColor::Orange.channels(), (0x1F, 0x0F, 0x00));
    assert_eq!(DisplayColor::ErrorBackground.channels(), (0x10, 0x00, 0x00));
}

#[test]
fn render_gate_redraws_only_on_change() {
    let mut gate = RenderGate::new();
    assert!(gate.should_render(42));
    assert!(!gate.should_render(42));
    assert!(gate.should_render(7));
    assert!(!gate.should_render(7));
}
