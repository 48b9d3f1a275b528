use gifer::app::{App, FocusedSection, SettingsField};
use gifer::job::JobStatus;
use gifer::settings::Settings;
use gifer::ui::{
    help_line, help_pieces, is_highlighted, output_field_text, output_hint, path_info, row_layout,
    row_layout_would_panic, scroll_window, status_text, status_text_would_panic, HelpLine, HelpStyle,
};

#[test]
fn test_unicode_scroll_slicing() {
    // Test that scrolling works with Unicode characters (e.g., narrow no-break space \u{202f})
    let path_info = "Screen\u{202f}Recording 2026-02-02 at 7.27.31\u{202f}PM.mov -> output.gif";
    let max_width = 40;
    let char_count = path_info.chars().count();

    // Test various scroll offsets don't panic
    for offset in 0..char_count {
        let padded = format!("{}   {}", path_info, path_info);
        let display: String = padded.chars().skip(offset).take(max_width).collect();
        assert!(display.chars().count() <= max_width);
        let shown = scroll_window(path_info, offset as u16, max_width);
        assert!(shown.chars().count() <= max_width);
        assert_eq!(shown, display);
    }
}

#[test]
fn scroll_window_fits_or_wraps() {
    assert_eq!(scroll_window("short", 9, 10), "short");
    assert_eq!(scroll_window("abcdef", 0, 4), "abcd");
    assert_eq!(scroll_window("abcdef", 4, 4), "ef  ");
    assert_eq!(scroll_window("abcdef", 7, 4), "bcde");
    assert_eq!(scroll_window("abcdef", 6, 4), "abcd");
}

#[test]
fn path_info_joins_with_arrow() {
    assert_eq!(path_info("in.mov", "out.gif"), "in.mov -> out.gif");
}

#[test]
fn status_texts() {
    assert_eq!(status_text(&JobStatus::Pending, "bar", &None), "[Pending]");
    assert_eq!(status_text(&JobStatus::Converting, "[####] 40%", &None), "[####] 40%");
    assert_eq!(status_text(&JobStatus::Complete, "", &None), "[Complete]");
    assert_eq!(
        status_text(&JobStatus::Complete, "", &Some("1.5MB".to_string())),
        "[Complete] 1.5MB"
    );
    assert_eq!(status_text(&JobStatus::Cancelled, "", &None), "[Cancelled]");
    assert_eq!(
        status_text(&JobStatus::Failed("short".to_string()), "", &None),
        "[Failed: short]"
    );
    let long = JobStatus::Failed("abcdefghijklmnopqrstuvwxyz0123456789".to_string());
    assert!(!status_text_would_panic(&long));
    assert_eq!(status_text(&long, "", &None), "[Failed: abcdefghijklmnopqrstuvwxyz0...]");
    // Exactly 30 bytes is shown whole.
    let thirty = JobStatus::Failed("abcdefghijklmnopqrstuvwxyz0123".to_string());
    assert_eq!(status_text(&thirty, "", &None), "[Failed: abcdefghijklmnopqrstuvwxyz0123]");
}

#[test]
fn status_text_cut_inside_a_character_is_detected() {
    // 26 ASCII bytes then a 2-byte character: byte 27 falls inside it.
    let err = format!("{}é{}", "a".repeat(26), "b".repeat(10));
    assert!(status_text_would_panic(&JobStatus::Failed(err)));
    assert!(!status_text_would_panic(&JobStatus::Pending));
}

#[test]
fn row_layout_fits_path() {
    // width 40: 36 inside the borders; status 10 leaves 22 for the path.
    let (shown, pad) = row_layout("short.mov -> short.gif", 10, 40);
    assert_eq!(shown, "short.mov -> short.gif");
    assert_eq!(pad, 36 - (22 + 10 + 2));
    let (shown, pad) = row_layout("a_rather_long_input_name.mov -> out.gif", 10, 40);
    assert_eq!(shown, "a_rather_long_input...");
    assert_eq!(pad, 2);
    // Too narrow to cut: shown whole, no padding.
    let (shown, pad) = row_layout("abcdefgh", 10, 20);
    assert_eq!(shown, "abcdefgh");
    assert_eq!(pad, 0);
    assert!(!row_layout_would_panic("abc", 10, 40));
    assert!(row_layout_would_panic("aaaaaaaaaaaaaaaaaaé-and-more-text", 10, 40));
}

fn fresh_app() -> App {
    let h = Some("/home/ann".to_string());
    App::new_with_home(Settings::default_with_home(&h), &h)
}

#[test]
fn output_field_and_hint() {
    let h = Some("/home/ann".to_string());
    let mut a = fresh_app();
    assert_eq!(output_field_text(&a, &h), "~/gifs");
    assert_eq!(output_field_text(&a, &None), "/home/ann/gifs");
    assert_eq!(output_hint(&a), "");
    assert!(!is_highlighted(&a, SettingsField::Scale));
    a.focused_section = FocusedSection::Settings;
    assert!(is_highlighted(&a, SettingsField::Scale));
    a.selected_setting = SettingsField::OutputDir;
    assert!(is_highlighted(&a, SettingsField::OutputDir));
    assert_eq!(output_hint(&a), " (Enter to edit)");
    a.editing_output = true;
    a.output_input = "~/gi".to_string();
    assert_eq!(output_field_text(&a, &h), "~/gi|");
    assert_eq!(output_hint(&a), " (Tab=complete, Enter=save, Esc=cancel)");
}

#[test]
fn help_line_choice() {
    let mut a = fresh_app();
    assert!(matches!(help_line(&a), HelpLine::Keys));
    a.set_message("Saved".to_string(), false);
    match help_line(&a) {
        HelpLine::Message { text, is_error } => {
            assert_eq!(text, "Saved");
            assert!(!is_error);
        }
        other => panic!("unexpected {:?}", other),
    }
    a.editing_rename = true;
    a.rename_input = "clip".to_string();
    match help_line(&a) {
        HelpLine::Rename { typed } => assert_eq!(typed, "clip"),
        other => panic!("unexpected {:?}", other),
    }
}

#[test]
fn help_bar_pieces() {
    let keys = help_pieces(&HelpLine::Keys);
    let text: String = keys.iter().map(|p| p.text.as_str()).collect();
    assert_eq!(text, "(p)aste  (y) copy  (x) del  (r)ename  (tab) switch  (j/k) nav  (q)uit");
    assert_eq!(keys[0].style, HelpStyle::Key);
    assert_eq!(keys[1].style, HelpStyle::Description);
    let rename = help_pieces(&HelpLine::Rename { typed: "clip".to_string() });
    let text: String = rename.iter().map(|p| p.text.as_str()).collect();
    assert_eq!(text, "Rename: clip.gif  (enter) save (esc) cancel");
    assert_eq!(rename[1].style, HelpStyle::Key);
    let err = help_pieces(&HelpLine::Message { text: "bad".to_string(), is_error: true });
    assert_eq!(err.len(), 1);
    assert_eq!(err[0].text, "bad");
    assert_eq!(err[0].style, HelpStyle::Error);
    let ok = help_pieces(&HelpLine::Message { text: "fine".to_string(), is_error: false });
    assert_eq!(ok[0].style, HelpStyle::Message);
}
