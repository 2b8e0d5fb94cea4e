use fae_agent::agent_task::AgentTaskStatus;
use fae_agent::console::{spinner_line, user_message_text};
use fae_agent::keys::KeyCode;
use fae_agent::screen::{
    copy_mode_key, footer_hint, next_spinner, output_status_shades, Mode, RunState, Shade, TerminalUi,
};
use fae_agent::transcript::MessageKind;
use serde_json::Value;

fn s(t: &str) -> String {
    t.to_string()
}

#[test]
fn output_status_highlight_moves_from_left_to_right() {
    let first_frame = output_status_shades(0);
    let fourth_frame = output_status_shades(3);

    assert_eq!(first_frame[0], Shade::Head);
    assert_eq!(fourth_frame[0], Shade::Dim);
    assert_eq!(fourth_frame[3], Shade::Head);
    assert_eq!(fourth_frame[2], Shade::Near);
    assert_eq!(fourth_frame[1], Shade::Fading);
    assert_eq!(first_frame.len(), "Outputting...".len());
    assert_eq!(next_spinner(15), 0);
    assert_eq!(next_spinner(4), 5);
}

#[test]
fn copy_mode_takes_keys_until_left() {
    assert_eq!(copy_mode_key(false, KeyCode::F(2)), (true, true));
    assert_eq!(copy_mode_key(false, KeyCode::Enter), (false, false));
    assert_eq!(copy_mode_key(true, KeyCode::Enter), (true, true));
    assert_eq!(copy_mode_key(true, KeyCode::Esc), (true, false));
    assert_eq!(copy_mode_key(true, KeyCode::F(2)), (true, false));
}

#[test]
fn footer_hints_follow_the_state() {
    assert_eq!(
        footer_hint(false, RunState::Running, Mode::Agent),
        " Enter steer  Esc interrupt  F2 copy  Wheel/PgUp/PgDn scroll "
    );
    assert_eq!(footer_hint(false, RunState::Running, Mode::Workflow), " Esc interrupt  F2 copy  Wheel/PgUp/PgDn scroll ");
    assert_eq!(footer_hint(false, RunState::Completed, Mode::Agent), " Enter close  F2 copy  Wheel/PgUp/PgDn scroll ");
    assert!(footer_hint(false, RunState::Idle, Mode::Agent).contains("Ctrl+C quit"));
    assert!(footer_hint(true, RunState::Idle, Mode::Agent).starts_with(" COPY MODE"));
}

#[test]
fn running_screen_notes() {
    let mut ui = TerminalUi::new(s("agent"), s("session"));
    ui.set_state(RunState::Running);
    ui.interrupted();
    assert_eq!(ui.state(), RunState::Idle);
    let last = ui.messages().last().unwrap();
    assert_eq!(last.kind, MessageKind::System);
    assert!(last.title.contains("Interrupted"));
    ui.invalid_steer();
    assert_eq!(ui.messages().last().unwrap().content, "Use `/steer <message>` while the agent is running.");
    ui.set_state(RunState::Failed);
    ui.session_ended();
    assert_eq!(ui.state(), RunState::Failed);
    ui.set_state(RunState::Running);
    ui.session_ended();
    assert_eq!(ui.state(), RunState::Idle);
}

#[test]
fn console_lines() {
    assert_eq!(spinner_line(0, "Waiting"), "⠋ Waiting...");
    assert_eq!(spinner_line(5, "Thinking"), "⠹ Thinking...");
    assert_eq!(user_message_text("hi\nthere", true, 3), "───\r\n❯ You\r\nhi\r\nthere\r\n");
    assert_eq!(user_message_text("more", false, 3), "more\r\n");
}

#[test]
fn task_status_schema_names_every_status() {
    let schema: Value = serde_json::from_str(&AgentTaskStatus::arguments()).unwrap();
    assert_eq!(schema["type"], "object");
    for status in ["create", "executing", "completed", "failed"] {
        assert!(schema["properties"][status].is_object());
    }
    assert_eq!(schema["oneOf"].as_array().unwrap().len(), 4);
    assert_eq!(schema["properties"]["create"]["properties"]["executor"]["required"][0], "agent_id");
}

fn visible_lines(composer: &fae_agent::composer::Composer, frame_width: u16, frame_height: u16) -> Vec<String> {
    let width = (frame_width.saturating_sub(4)).max(1) as usize;
    let height = fae_agent::screen::composer_height(composer.visual_lines(width));
    assert!(height <= frame_height);
    let inner = height.saturating_sub(2).max(1);
    let scroll = composer.vertical_scroll(width, inner) as usize;
    composer.text().lines().skip(scroll).take(inner as usize).map(|l| l.to_string()).collect()
}

#[test]
fn composer_renders_new_lines_after_reaching_max_height() {
    let mut composer = fae_agent::composer::Composer::default();
    composer.insert("FIRST\nsecond\nthird\nfourth\nfifth\nsixth\nseventh\nLAST");

    let content = visible_lines(&composer, 60, 16).join("\n");
    assert!(content.contains("LAST"));
    assert!(!content.contains("FIRST"));

    composer.scroll_up(fae_agent::keys::MOUSE_SCROLL_LINES, 2);
    let content = visible_lines(&composer, 60, 16).join("\n");
    assert!(content.contains("FIRST"));
    assert!(!content.contains("LAST"));
}

#[test]
fn composer_face_follows_the_state() {
    use_face();
}

fn use_face() {
    let idle = fae_agent::screen::composer_face(RunState::Idle, Mode::Agent, "", 0);
    assert_eq!(idle.title, " Message ");
    assert_eq!(idle.content, "Ask FAE to work in this repository");
    assert!(idle.placeholder);
    let steer = fae_agent::screen::composer_face(RunState::Running, Mode::Agent, "", 1);
    assert_eq!(steer.content, "\\ Running... /steer <message>");
    let working = fae_agent::screen::composer_face(RunState::Running, Mode::Workflow, "typed", 2);
    assert_eq!(working.title, " Working ");
    assert_eq!(working.content, "| Running... Esc to interrupt");
    assert!(!working.placeholder);
    let done = fae_agent::screen::composer_face(RunState::Completed, Mode::Agent, "x", 0);
    assert_eq!(done.content, "Press Enter to close");
    assert_eq!(done.border, fae_agent::screen::BorderColor::Green);
    assert_eq!(fae_agent::screen::composer_cursor(true, false, 3, 2, 1, 4, 10, 20), Some((15, 22)));
    assert_eq!(fae_agent::screen::composer_cursor(true, true, 3, 2, 1, 4, 10, 20), None);
    assert_eq!(fae_agent::screen::composer_cursor(true, false, 3, 0, 1, 4, 10, 20), None);
}
