use weft_terminal::rendering::{LineAttributes, Renderer};

#[test]
fn scrollback_drops_oldest_thousand_past_ten_thousand() {
    let mut r = Renderer::new();
    for i in 0..10_001u32 {
        r.add_terminal_line_at(format!("line {}", i), LineAttributes::default(), i as i64);
    }
    let c = r.get_terminal_content();
    assert_eq!(c.len(), 9_001);
    assert_eq!(c[0].content, "line 1000");
    assert_eq!(c[9_000].content, "line 10000");
    assert_eq!(c[9_000].timestamp, 10_000);
}

#[test]
fn suggestions_keep_the_newest() {
    let mut r = Renderer::new();
    for i in 0..11 {
        r.add_suggestion(format!("s{}", i));
    }
    let s = r.get_suggestions();
    assert_eq!(s.len(), 6);
    assert_eq!(s[0], "s5");
    r.clear_suggestions();
    assert!(r.get_suggestions().is_empty());
}

#[test]
fn scrolling_stays_within_content() {
    let mut r = Renderer::new();
    for i in 0..30 {
        r.add_terminal_line(format!("l{}", i), LineAttributes::default());
    }
    r.scroll_down(100);
    assert_eq!(r.ui_state.scroll_offset, 6);
    assert_eq!(r.visible_line_range(), (6, 30));
    r.scroll_up(4);
    assert_eq!(r.ui_state.scroll_offset, 2);
    r.scroll_up(10);
    assert_eq!(r.ui_state.scroll_offset, 0);
    assert_eq!(r.visible_line_range(), (0, 24));
}

#[test]
fn toggles_flip_one_panel() {
    let mut r = Renderer::new();
    r.toggle_ai_panel();
    assert!(r.ui_state.show_ai_panel && !r.ui_state.show_debug_panel && !r.ui_state.show_file_explorer);
    r.toggle_ai_panel();
    assert!(!r.ui_state.show_ai_panel);
    r.set_cursor_position(3, 4);
    assert_eq!(r.get_cursor_position(), (3, 4));
    r.set_input_buffer("ls".to_string());
    assert_eq!(r.get_input_buffer(), "ls");
}
