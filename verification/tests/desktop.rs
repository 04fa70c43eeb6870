use murmure::edit::Edit;
use murmure::mic::{request, status, Authorization, MicStatus};
use murmure::overlay::{position, Area, Overlay};
use murmure::paste::{
    accessibility_trusted, backspace, focused_text_field, keystrokes, paste_error,
    request_accessibility, send_paste, type_text, FocusProbe, Focused, KeyAction, PressedKey,
};
use murmure::platform::Os;

#[test]
fn the_overlay_stands_at_the_bottom() {
    let area = Area { x: 100, y: -50, width: 1920, height: 1080 };
    assert_eq!(position(area, 420, 80, 64), (100 + 750, -50 + 1080 - 80 - 64));
    // One that is wider than the screen sticks out on both sides.
    let area = Area { x: 0, y: 0, width: 101, height: 200 };
    assert_eq!(position(area, 200, 50, 10), (-49, 140));
}

#[test]
fn only_the_last_message_is_hidden() {
    let mut o = Overlay::new();
    let a = o.show();
    assert!(o.hides(a));
    let b = o.show();
    assert!(!o.hides(a) && o.hides(b));
}

fn mac(role: &str, has_selection: bool, value_settable: bool) -> bool {
    focused_text_field(&FocusProbe::MacOs {
        trusted: true,
        element: Some(Focused { role: role.to_string(), has_selection, value_settable }),
    })
}

#[test]
fn text_fields_have_the_focus() {
    assert!(mac("AXTextField", false, false));
    assert!(mac("AXSearchField", false, false));
    assert!(mac("AXWebArea", true, false));
    assert!(mac("AXStaticText", true, true));
    assert!(!mac("AXStaticText", true, false));
    assert!(!mac("AXMenuItem", true, false));
    assert!(!mac("AXButton", false, true));
    assert!(!mac("", false, false));
    assert!(mac("", true, false));
    assert!(!focused_text_field(&FocusProbe::MacOs { trusted: true, element: None }));
    let e = Focused { role: "AXTextArea".to_string(), has_selection: true, value_settable: true };
    assert!(!focused_text_field(&FocusProbe::MacOs { trusted: false, element: Some(e) }));
    let windows = |foreground, answered, caret| {
        focused_text_field(&FocusProbe::Windows { foreground, answered, caret })
    };
    assert!(windows(true, true, true));
    assert!(!windows(true, true, false) && !windows(true, false, true) && !windows(false, true, true));
    assert!(!focused_text_field(&FocusProbe::Unknown));
}

#[test]
fn permissions() {
    assert!(accessibility_trusted(Os::Windows, false));
    assert!(!accessibility_trusted(Os::MacOs, false));
    assert!(accessibility_trusted(Os::MacOs, true));
    let (prompt, page) = request_accessibility(Os::MacOs);
    assert!(prompt && page.unwrap().ends_with("Privacy_Accessibility"));
    assert_eq!(request_accessibility(Os::Linux), (false, None));
    assert_eq!(status(None), MicStatus::Authorized);
    assert_eq!(status(Some(Authorization::Authorized)), MicStatus::Authorized);
    assert_eq!(status(Some(Authorization::Denied)), MicStatus::Denied);
    assert_eq!(status(Some(Authorization::Restricted)), MicStatus::Restricted);
    assert_eq!(status(Some(Authorization::Other)), MicStatus::Undetermined);
    assert!(request(true, true) && !request(true, false) && !request(false, true));
}

#[test]
fn keys_of_an_edit() {
    let e = Edit { delete: 2, text: "ab".to_string(), target: "xab".to_string(), settle: false };
    assert_eq!(
        keystrokes(&e),
        vec![
            KeyAction::Click(PressedKey::Backspace),
            KeyAction::Click(PressedKey::Backspace),
            KeyAction::Text("ab".to_string()),
        ]
    );
    assert!(backspace(0).is_empty() && type_text("").is_empty());
}

#[test]
fn keys_that_paste() {
    assert_eq!(
        send_paste(Os::MacOs),
        vec![
            KeyAction::Press(PressedKey::Meta),
            KeyAction::Click(PressedKey::Place(9)),
            KeyAction::Release(PressedKey::Meta),
        ]
    );
    assert_eq!(send_paste(Os::Windows)[1], KeyAction::Click(PressedKey::Character('v')));
    assert_eq!(send_paste(Os::Linux)[0], KeyAction::Press(PressedKey::Control));
    let e = |s: &str| Some(s.to_string());
    assert_eq!(paste_error(e("a"), e("b"), e("c")), e("a"));
    assert_eq!(paste_error(None, e("b"), e("c")), e("c"));
    assert_eq!(paste_error(None, e("b"), None), e("b"));
    assert_eq!(paste_error(None, None, None), None);
}
