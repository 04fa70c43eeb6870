use murmure::engine::EngineState;
use murmure::live::LiveState;
use murmure::overlay::OverlayMsg;
use murmure::session::{
    asks_for_focus, gate_error, hides_on_close, menu_action, microphone_error, on_hotkey, start_gate,
    start_message, toggle_recording, Command, EndStage, Ending, KeyState, MenuAction, Sessions,
    StartGate, TailReply,
};
use murmure::settings::ShortcutMode;

const RATE: u32 = 16_000;

fn speech(frames: usize) -> (Vec<u32>, Vec<u32>) {
    (vec![0.3f32.to_bits(); frames * 320], vec![0.3f32.to_bits(); frames])
}

fn msg(phase: &str, text: &str, hint: &str) -> OverlayMsg {
    OverlayMsg { phase: phase.to_string(), text: text.to_string(), hint: hint.to_string() }
}

#[test]
fn the_shortcut_toggles() {
    let m = ShortcutMode::Toggle;
    assert_eq!(on_hotkey(m, KeyState::Pressed, false, None), (Command::Start, true));
    assert_eq!(on_hotkey(m, KeyState::Released, true, Some(100)), (Command::Nothing, false));
    assert_eq!(on_hotkey(m, KeyState::Pressed, true, Some(350)), (Command::Stop, true));
}

#[test]
fn the_shortcut_is_held() {
    let m = ShortcutMode::Hold;
    assert_eq!(on_hotkey(m, KeyState::Pressed, false, Some(1_000)), (Command::Start, true));
    assert_eq!(on_hotkey(m, KeyState::Pressed, true, Some(1_000)), (Command::Nothing, true));
    assert_eq!(on_hotkey(m, KeyState::Released, true, Some(10)), (Command::Stop, false));
    assert_eq!(on_hotkey(m, KeyState::Released, false, None), (Command::Nothing, false));
}

#[test]
fn repeated_presses_are_ignored() {
    for m in [ShortcutMode::Toggle, ShortcutMode::Hold] {
        assert_eq!(on_hotkey(m, KeyState::Pressed, true, Some(349)), (Command::Nothing, false));
        assert_eq!(on_hotkey(m, KeyState::Pressed, false, Some(0)), (Command::Nothing, false));
    }
}

#[test]
fn the_button_and_the_menu_toggle() {
    assert_eq!(toggle_recording(false), Command::Start);
    assert_eq!(toggle_recording(true), Command::Stop);
    assert_eq!(menu_action("open", false), MenuAction::ShowWindow);
    assert_eq!(menu_action("dictate", false), MenuAction::Dictate(Command::Start));
    assert_eq!(menu_action("dictate", true), MenuAction::Dictate(Command::Stop));
    assert_eq!(menu_action("quit", false), MenuAction::Quit);
    assert_eq!(menu_action("other", false), MenuAction::Nothing);
    assert!(hides_on_close("main"));
    assert!(!hides_on_close("overlay"));
}

#[test]
fn sessions_are_numbered() {
    let mut s = Sessions::new();
    assert!(!s.is_recording());
    let a = s.begin();
    assert_eq!(a, 1);
    assert!(s.is_recording() && s.session_active(1) && !s.session_active(2));
    assert_eq!(s.end(), Some(1));
    assert_eq!(s.end(), None);
    assert!(!s.session_active(1));
    assert_eq!(s.begin(), 2);
    assert!(!s.session_active(1));
}

#[test]
fn a_dictation_needs_a_ready_engine() {
    let ready = Some(EngineState::Ready);
    let starting = Some(EngineState::Starting);
    assert_eq!(start_gate(ready, ready, false), StartGate::Open);
    assert_eq!(start_gate(ready, ready, true), StartGate::Running);
    assert_eq!(start_gate(starting, starting, false), StartGate::Loading);
    assert_eq!(start_gate(Some(EngineState::Error), None, false), StartGate::NotReady);
    assert_eq!(start_gate(None, starting, true), StartGate::Loading);
    assert_eq!(
        gate_error(StartGate::Loading),
        Some(msg("error", "Le modèle se charge encore…", ""))
    );
    assert_eq!(
        gate_error(StartGate::NotReady),
        Some(msg("error", "Modèle non prêt — ouvrez Murmure", ""))
    );
    assert_eq!(gate_error(StartGate::Running), None);
    assert_eq!(gate_error(StartGate::Open), None);
}

#[test]
fn typing_needs_permission_and_a_field() {
    assert!(asks_for_focus(true, true));
    assert!(!asks_for_focus(true, false));
    assert!(!asks_for_focus(false, true));
    assert_eq!(start_message(true, true, true), (true, msg("recording", "", "direct")));
    assert_eq!(start_message(true, true, false), (false, msg("recording", "", "")));
    assert_eq!(start_message(true, false, false), (false, msg("recording", "", "noperm")));
    assert_eq!(start_message(false, false, true), (false, msg("recording", "", "")));
    assert_eq!(microphone_error("occupé"), msg("error", "Micro : occupé", ""));
}

fn live(direct: bool, committed: &str, typed: &str) -> LiveState {
    let mut l = LiveState::new(RATE, direct);
    l.committed = committed.to_string();
    l.typed_partial = typed.to_string();
    l.partial = "prov".to_string();
    l
}

#[test]
fn the_end_is_announced() {
    let (e, step) = Ending::new(&live(false, "a", ""));
    assert_eq!(e.stage, EndStage::StopCapture);
    assert_eq!(step.overlay, Some(msg("transcribing", "", "")));
    assert_eq!(step.live, Some(("a".to_string(), "prov".to_string())));
    let (_, step) = Ending::new(&live(true, "a", ""));
    assert_eq!(step.overlay, Some(msg("transcribing", "", "direct")));
    assert_eq!(step.live, Some(("".to_string(), "prov".to_string())));
}

#[test]
fn a_capture_that_does_not_stop_is_an_error() {
    let (mut e, _) = Ending::new(&live(false, "", ""));
    let step = e.capture_stopped(Some("expiré".to_string()));
    assert_eq!(step.overlay, Some(msg("error", "Capture : expiré", "")));
    assert_eq!(step.hide_after, Some(2_600));
    assert_eq!(e.stage, EndStage::Finished);
}

#[test]
fn short_dictations_are_refused() {
    let l = live(false, "", "");
    let (mut e, _) = Ending::new(&l);
    e.capture_stopped(None);
    let (s, v) = speech(19);
    let step = e.measure(&l, 6_399, true, &s, &v);
    assert_eq!(step.overlay, Some(msg("error", "Enregistrement trop court", "")));
    assert_eq!(e.stage, EndStage::Finished);
}

#[test]
fn a_dictation_without_an_engine_is_refused() {
    let l = live(false, "", "");
    let (mut e, _) = Ending::new(&l);
    e.capture_stopped(None);
    let (s, v) = speech(20);
    let step = e.measure(&l, 6_400, false, &s, &v);
    assert_eq!(step.overlay, Some(msg("error", "Moteur arrêté", "")));
}

#[test]
fn the_tail_is_transcribed_and_copied() {
    let l = live(false, "Bonjour.", "");
    let (mut e, _) = Ending::new(&l);
    e.capture_stopped(None);
    let (s, v) = speech(100);
    let step = e.measure(&l, 100 * 320, true, &s, &v);
    assert!(step.overlay.is_none());
    assert_eq!(e.stage, EndStage::Transcribe);
    assert_eq!(
        e.partial("Au".to_string()),
        ("Bonjour.".to_string(), "Au".to_string())
    );
    let step = e.answer(TailReply::Text(" Au revoir. ".to_string()));
    assert_eq!(step.copy, Some("Bonjour. Au revoir.".to_string()));
    assert_eq!(
        step.overlay,
        Some(msg("done", "Bonjour. Au revoir.", "Copié dans le presse-papiers"))
    );
    assert_eq!(step.hide_after, Some(3_000));
    assert!(step.edit.is_none());
}

#[test]
fn the_tail_takes_the_place_of_the_provisional_text() {
    let l = live(true, "Bonjour.", "Au rev");
    let (mut e, _) = Ending::new(&l);
    e.capture_stopped(None);
    let (s, v) = speech(100);
    e.measure(&l, 400 * 320, true, &s, &v);
    assert_eq!(e.partial("x".to_string()).0, "");
    let step = e.answer(TailReply::Text(" Au revoir. ".to_string()));
    let edit = step.edit.unwrap();
    assert_eq!((edit.delete, edit.text.as_str()), (0, "oir."));
    assert_eq!(step.copy, None);
    assert_eq!(step.overlay, Some(msg("done", "", "Dicté")));
    assert_eq!(step.hide_after, Some(1_200));
}

#[test]
fn a_silent_tail_is_not_transcribed() {
    let l = live(false, "Bonjour.", "");
    let (mut e, _) = Ending::new(&l);
    e.capture_stopped(None);
    let s = vec![0u32; 100 * 320];
    let v = vec![0u32; 100];
    let step = e.measure(&l, 400 * 320, true, &s, &v);
    assert_eq!(step.copy, Some("Bonjour.".to_string()));
    assert_eq!(e.stage, EndStage::Finished);
}

#[test]
fn a_short_tail_is_not_transcribed() {
    let l = live(false, "Bonjour.", "");
    let (mut e, _) = Ending::new(&l);
    e.capture_stopped(None);
    let (s, v) = speech(17);
    let step = e.measure(&l, 400 * 320, true, &s, &v);
    assert_eq!(step.copy, Some("Bonjour.".to_string()));
}

#[test]
fn nothing_recognised_is_an_error() {
    let l = live(true, "", "euh");
    let (mut e, _) = Ending::new(&l);
    e.capture_stopped(None);
    let (s, v) = speech(100);
    e.measure(&l, 100 * 320, true, &s, &v);
    let step = e.answer(TailReply::Text("  ".to_string()));
    assert_eq!(step.overlay, Some(msg("error", "Rien n'a été reconnu", "")));
    assert!(step.edit.is_none() && step.copy.is_none());
}

#[test]
fn failed_tails_are_errors() {
    for (reply, text) in [
        (TailReply::NotEncoded("x".to_string()), "Audio : x"),
        (TailReply::Failed("y".to_string()), "Transcription : y"),
    ] {
        let l = live(false, "a", "");
        let (mut e, _) = Ending::new(&l);
        e.capture_stopped(None);
        let (s, v) = speech(100);
        e.measure(&l, 100 * 320, true, &s, &v);
        let step = e.answer(reply);
        assert_eq!(step.overlay, Some(msg("error", text, "")));
        assert_eq!(e.stage, EndStage::Finished);
    }
}

#[test]
fn typing_and_copying_give_the_same_text() {
    // Two segments typed with a space behind each, then the tail.
    let typed = format!("{} {} {}", "Un.", "Deux.", "Trois.");
    let l = live(false, "Un. Deux.", "");
    let (mut e, _) = Ending::new(&l);
    e.capture_stopped(None);
    let (s, v) = speech(100);
    e.measure(&l, 100 * 320, true, &s, &v);
    let step = e.answer(TailReply::Text("Trois.".to_string()));
    assert_eq!(step.copy, Some(typed));
}
