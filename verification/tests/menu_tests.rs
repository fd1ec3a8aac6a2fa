use term_menu::keys::Key;
use term_menu::menu::TerminalUI;
use term_menu::options::OptionItem;
use term_menu::render::render_frame;
use term_menu::term::MenuError;
use term_menu::term::TermDouble;

fn managers() -> Vec<OptionItem<u32>> {
    vec![
        OptionItem { name: "NPM".to_string(), value: 0 },
        OptionItem { name: "Yarn".to_string(), value: 1 },
        OptionItem { name: "PNPM".to_string(), value: 2 },
    ]
}

const HIDE: &str = "\x1b[?25l";
const CLEAR: &str = "\x1b[2J";
const GOTO: &str = "\x1b[1;1H";
const GREEN: &str = "\x1b[38;5;10m";
const RESET: &str = "\x1b[39m";

#[test]
fn initial_index_is_zero() {
    let opts = managers();
    let mut tui = TerminalUI::new();
    let mut term = TermDouble::new();
    let r = tui.ask_single_option(&mut term, "Which?", &opts, &[Key::Confirm]);
    assert_eq!(r.unwrap().name, "NPM");
}

#[test]
fn down_saturates_at_last_index() {
    let opts = managers();
    let mut tui = TerminalUI::new();
    let mut term = TermDouble::new();
    let keys = [Key::Down, Key::Down, Key::Down, Key::Down, Key::Down, Key::Confirm];
    let r = tui.ask_single_option(&mut term, "Which?", &opts, &keys);
    assert_eq!(r.unwrap().name, "PNPM");
}

#[test]
fn up_saturates_at_zero() {
    let opts = managers();
    let mut tui = TerminalUI::new();
    let mut term = TermDouble::new();
    let keys = [Key::Down, Key::Up, Key::Up, Key::Up, Key::Confirm];
    let r = tui.ask_single_option(&mut term, "Which?", &opts, &keys);
    assert_eq!(r.unwrap().name, "NPM");
}

#[test]
fn render_is_a_pure_function_of_state() {
    let opts = managers();
    let sel = "Yarn".to_string();
    let a = render_frame("Which?", &opts, &sel);
    let b = render_frame("Which?", &opts, &sel);
    assert_eq!(a, b);
    assert_eq!(a.as_bytes(), b.as_bytes());
}

#[test]
fn render_produces_exact_frame_bytes() {
    let opts = vec![
        OptionItem { name: "A".to_string(), value: 0u32 },
        OptionItem { name: "B".to_string(), value: 1 },
    ];
    let sel = "B".to_string();
    let frame = render_frame("Q?", &opts, &sel);
    let expected = format!(
        "{CLEAR}{GOTO}Q?\r\n{RESET}A\r\n{RESET}{GREEN}B\r\n{RESET}\r\n"
    );
    assert_eq!(frame, expected);
}

#[test]
fn confirm_returns_option_at_current_index() {
    let opts = managers();
    let mut tui = TerminalUI::new();
    let mut term = TermDouble::new();
    let keys = [Key::Down, Key::Down, Key::Up, Key::Confirm];
    let r = tui.ask_single_option(&mut term, "Which package manager do you want to use?", &opts, &keys);
    assert_eq!(r.unwrap().name, "Yarn");
    assert!(!term.raw_mode);
    assert!(!term.cursor_hidden);
}

#[test]
fn single_item_list_saturates_without_error() {
    let opts = vec![OptionItem { name: "A".to_string(), value: 7u32 }];
    let mut tui = TerminalUI::new();
    let mut term = TermDouble::new();
    let keys = [Key::Down, Key::Down, Key::Confirm];
    let r = tui.ask_single_option(&mut term, "Q?", &opts, &keys);
    let item = r.unwrap();
    assert_eq!(item.name, "A");
    assert_eq!(item.value, 7);
}

#[test]
fn empty_options_fail_before_any_render() {
    let opts: Vec<OptionItem<u32>> = Vec::new();
    let mut tui = TerminalUI::new();
    let mut term = TermDouble::new();
    let keys = [Key::Down, Key::Confirm];
    let r = tui.ask_single_option(&mut term, "Q?", &opts, &keys);
    assert_eq!(r.unwrap_err(), MenuError::InvalidArgument);
    assert_eq!(term.out, "");
    assert!(!term.raw_mode);
    assert!(!term.cursor_hidden);
}

#[test]
fn cancel_returns_item_at_index_zero() {
    let opts = managers();
    let mut tui = TerminalUI::new();
    let mut term = TermDouble::new();
    let r = tui.ask_single_option(&mut term, "Which?", &opts, &[Key::Cancel]);
    assert_eq!(r.unwrap().name, "NPM");
}

#[test]
fn other_keys_are_ignored() {
    let opts = managers();
    let mut tui = TerminalUI::new();
    let mut term = TermDouble::new();
    let keys = [Key::Other, Key::Down, Key::Other, Key::Confirm];
    let r = tui.ask_single_option(&mut term, "Which?", &opts, &keys);
    assert_eq!(r.unwrap().name, "Yarn");
}

#[test]
fn raw_mode_restored_on_success() {
    let opts = managers();
    let mut tui = TerminalUI::new();
    let mut term = TermDouble::new();
    let r = tui.ask_single_option(&mut term, "Which?", &opts, &[Key::Confirm]);
    assert!(r.is_ok());
    assert!(!term.raw_mode);
    assert!(!term.cursor_hidden);
}

#[test]
fn raw_mode_restored_on_write_failure_mid_loop() {
    let opts = managers();
    let mut tui = TerminalUI::new();
    // hiding the cursor and the initial frame succeed, the first repaint fails
    let mut term = TermDouble::failing_after(2);
    let keys = [Key::Down, Key::Confirm];
    let r = tui.ask_single_option(&mut term, "Which?", &opts, &keys);
    assert_eq!(r.unwrap_err(), MenuError::WriteFailure);
    assert!(!term.raw_mode);
    assert!(!term.cursor_hidden);
}

#[test]
fn raw_mode_restored_when_first_write_fails() {
    let opts = managers();
    let mut tui = TerminalUI::new();
    let mut term = TermDouble::failing_after(0);
    let r = tui.ask_single_option(&mut term, "Which?", &opts, &[Key::Confirm]);
    assert_eq!(r.unwrap_err(), MenuError::WriteFailure);
    assert_eq!(term.out, "");
    assert!(!term.raw_mode);
    assert!(!term.cursor_hidden);
}

#[test]
fn raw_mode_restored_when_initial_frame_fails() {
    let opts = managers();
    let mut tui = TerminalUI::new();
    // hiding the cursor succeeds, the initial frame write fails
    let mut term = TermDouble::failing_after(1);
    let r = tui.ask_single_option(&mut term, "Which?", &opts, &[Key::Confirm]);
    assert_eq!(r.unwrap_err(), MenuError::WriteFailure);
    assert_eq!(term.out, HIDE);
    assert!(!term.raw_mode);
    assert!(!term.cursor_hidden);
}

#[test]
fn exhausted_keys_fail_with_input_closed() {
    let opts = managers();
    let mut tui = TerminalUI::new();
    let mut term = TermDouble::new();
    let r = tui.ask_single_option(&mut term, "Which?", &opts, &[Key::Down]);
    assert_eq!(r.unwrap_err(), MenuError::InputClosed);
    assert!(!term.raw_mode);
    assert!(!term.cursor_hidden);
}

#[test]
fn missing_terminal_fails_with_terminal_unavailable() {
    let opts = managers();
    let mut tui = TerminalUI::new();
    let mut term = TermDouble::unavailable();
    let r = tui.ask_single_option(&mut term, "Which?", &opts, &[Key::Confirm]);
    assert_eq!(r.unwrap_err(), MenuError::TerminalUnavailable);
    assert_eq!(term.out, "");
    assert!(!term.raw_mode);
}

#[test]
fn session_writes_hide_then_frames() {
    let opts = vec![OptionItem { name: "A".to_string(), value: 0u32 }];
    let mut tui = TerminalUI::new();
    let mut term = TermDouble::new();
    let r = tui.ask_single_option(&mut term, "Q?", &opts, &[Key::Confirm]);
    assert_eq!(r.unwrap().name, "A");
    let frame = format!("{CLEAR}{GOTO}Q?\r\n{GREEN}A\r\n{RESET}\r\n");
    let expected = format!("{HIDE}{frame}");
    assert_eq!(term.out, expected);
}
