use murmure::live::{choose_cut, join_text, Awaiting, LiveNext, LiveState, Reply};

const RATE: u32 = 16_000;

/// Samples and levels of a signal that is loud where `loud` says so of a frame.
fn signal(loud: &[bool]) -> (Vec<u32>, Vec<u32>) {
    let mut samples = Vec::new();
    let mut levels = Vec::new();
    for l in loud {
        let x: f32 = if *l { 0.3 } else { 0.001 };
        samples.extend(vec![x.to_bits(); 320]);
        levels.push(x.to_bits());
    }
    (samples, levels)
}

fn frames(parts: &[(bool, usize)]) -> Vec<bool> {
    let mut v = Vec::new();
    for (l, n) in parts {
        v.extend(vec![*l; *n]);
    }
    v
}

fn threshold() -> u32 {
    0.01f32.to_bits()
}

#[test]
fn texts_are_joined_with_one_space() {
    assert_eq!(join_text(" a ", "b\n"), "a b");
    assert_eq!(join_text("", " b "), "b");
    assert_eq!(join_text(" a", "  "), "a");
    assert_eq!(join_text(" ", ""), "");
}

#[test]
fn joining_does_not_depend_on_the_grouping() {
    let (a, b, c) = (" un ", " ", "deux");
    assert_eq!(join_text(&join_text(a, b), c), join_text(a, &join_text(b, c)));
    let (a, b, c) = ("un", "deux ", " trois");
    assert_eq!(join_text(&join_text(a, b), c), "un deux trois");
    assert_eq!(join_text(a, &join_text(b, c)), "un deux trois");
}

#[test]
fn short_signals_are_not_cut() {
    let (s, l) = signal(&frames(&[(true, 100), (false, 40), (true, 30)]));
    assert_eq!(choose_cut(s.len(), RATE, &l, threshold()), None);
}

#[test]
fn signals_are_cut_at_a_pause() {
    let (s, l) = signal(&frames(&[(true, 100), (false, 40), (true, 40)]));
    assert_eq!(choose_cut(s.len(), RATE, &l, threshold()), Some(120 * 320));
}

#[test]
fn long_signals_are_cut_without_a_pause() {
    let mut f = frames(&[(true, 900)]);
    f[850] = false;
    let (s, l) = signal(&f);
    assert_eq!(choose_cut(s.len(), RATE, &l, threshold()), Some(850 * 320));
    let (s, l) = signal(&f[..899]);
    assert_eq!(choose_cut(s.len(), RATE, &l, threshold()), None);
}

#[test]
fn nothing_happens_before_a_second_is_there() {
    let mut live = LiveState::new(RATE, false);
    let (s, l) = signal(&frames(&[(true, 49)]));
    let step = live.tick(true, &s, &l, threshold());
    assert_eq!(step.next, LiveNext::Wait);
    assert!(step.edit.is_none() && step.show.is_none());
}

#[test]
fn the_loop_ends_with_the_dictation() {
    let mut live = LiveState::new(RATE, false);
    let (s, l) = signal(&frames(&[(true, 100)]));
    assert_eq!(live.tick(false, &s, &l, threshold()).next, LiveNext::Stop);
}

#[test]
fn a_provisional_text_is_shown() {
    let mut live = LiveState::new(RATE, false);
    let (s, l) = signal(&frames(&[(true, 60)]));
    assert_eq!(live.tick(true, &s, &l, threshold()).next, LiveNext::Transcribe(60 * 320));
    assert_eq!(live.awaiting, Awaiting::Tail { len: 60 * 320 });
    // A second look while the answer is awaited does nothing.
    assert_eq!(live.tick(true, &s, &l, threshold()).next, LiveNext::Wait);
    let step = live.answer(Reply::Text(" bonjour".to_string()), true);
    assert_eq!(step.show, Some(("".to_string(), " bonjour".to_string())));
    assert_eq!(step.next, LiveNext::Wait);
    assert!(step.edit.is_none());
    assert_eq!(live.partial, " bonjour");
    // Less than half a second more is not transcribed again.
    let (s, l) = signal(&frames(&[(true, 84)]));
    assert_eq!(live.tick(true, &s, &l, threshold()).next, LiveNext::Wait);
    let (s, l) = signal(&frames(&[(true, 85)]));
    assert_eq!(live.tick(true, &s, &l, threshold()).next, LiveNext::Transcribe(85 * 320));
}

#[test]
fn a_late_provisional_text_is_dropped() {
    let mut live = LiveState::new(RATE, false);
    let (s, l) = signal(&frames(&[(true, 60)]));
    live.tick(true, &s, &l, threshold());
    let step = live.answer(Reply::Text("bonjour".to_string()), false);
    assert_eq!(step.next, LiveNext::Stop);
    assert_eq!(live.partial, "");
}

#[test]
fn failures_of_a_provisional_text_are_passed_over() {
    for reply in [Reply::Failed, Reply::NotEncoded] {
        let mut live = LiveState::new(RATE, false);
        let (s, l) = signal(&frames(&[(true, 60)]));
        live.tick(true, &s, &l, threshold());
        assert_eq!(live.answer(reply, true).next, LiveNext::Wait);
        assert_eq!(live.awaiting, Awaiting::Nothing);
    }
}

#[test]
fn segments_are_committed_at_a_pause() {
    let mut live = LiveState::new(RATE, false);
    let (s, l) = signal(&frames(&[(true, 100), (false, 40), (true, 40)]));
    let step = live.tick(true, &s, &l, threshold());
    assert_eq!(step.next, LiveNext::Transcribe(120 * 320));
    let step = live.answer(Reply::Text(" Bonjour. ".to_string()), true);
    assert_eq!(step.show, Some(("Bonjour.".to_string(), "".to_string())));
    assert_eq!(live.committed, "Bonjour.");
    assert_eq!(live.boundary, 120 * 320);
    assert_eq!(step.next, LiveNext::Wait);
    // The next segment is joined to it.
    live.tick(true, &s, &l, threshold());
    live.answer(Reply::Text("Ça va ?".to_string()), true);
    assert_eq!(live.committed, "Bonjour. Ça va ?");
    assert_eq!(live.boundary, 240 * 320);
}

#[test]
fn a_committed_segment_can_end_the_loop() {
    let mut live = LiveState::new(RATE, false);
    let (s, l) = signal(&frames(&[(true, 100), (false, 40), (true, 40)]));
    live.tick(true, &s, &l, threshold());
    let step = live.answer(Reply::Text("fin".to_string()), false);
    assert_eq!(step.next, LiveNext::Stop);
    assert_eq!(live.committed, "fin");
}

#[test]
fn a_failed_segment_is_tried_again() {
    let mut live = LiveState::new(RATE, false);
    let (s, l) = signal(&frames(&[(true, 100), (false, 40), (true, 40)]));
    live.tick(true, &s, &l, threshold());
    assert_eq!(live.answer(Reply::Failed, true).next, LiveNext::Wait);
    assert_eq!(live.boundary, 0);
    assert_eq!(live.tick(true, &s, &l, threshold()).next, LiveNext::Transcribe(120 * 320));
    assert_eq!(live.answer(Reply::Failed, false).next, LiveNext::Stop);
}

#[test]
fn a_segment_that_cannot_be_encoded_becomes_provisional() {
    let mut live = LiveState::new(RATE, false);
    let (s, l) = signal(&frames(&[(true, 100), (false, 40), (true, 40)]));
    live.tick(true, &s, &l, threshold());
    let step = live.answer(Reply::NotEncoded, true);
    assert_eq!(step.next, LiveNext::Transcribe(180 * 320));
    assert_eq!(live.awaiting, Awaiting::Tail { len: 180 * 320 });
}

#[test]
fn silent_segments_are_skipped() {
    let mut live = LiveState::new(RATE, false);
    let (s, l) = signal(&frames(&[(false, 200)]));
    let step = live.tick(true, &s, &l, threshold());
    assert_eq!(step.next, LiveNext::Wait);
    assert_eq!(live.boundary, 100 * 320);
    assert_eq!(live.committed, "");
}

#[test]
fn silence_takes_the_provisional_text_back() {
    let mut live = LiveState::new(RATE, true);
    let (s, l) = signal(&frames(&[(true, 60)]));
    live.tick(true, &s, &l, threshold());
    let step = live.answer(Reply::Text("oui".to_string()), true);
    live.typed(&step.edit.unwrap(), true);
    assert_eq!(live.typed_partial, "oui");
    let (s, l) = signal(&frames(&[(false, 100)]));
    let step = live.tick(true, &s, &l, threshold());
    let edit = step.edit.unwrap();
    assert_eq!((edit.delete, edit.text.as_str()), (3, ""));
    assert_eq!(step.show, Some(("".to_string(), "".to_string())));
    live.typed(&edit, true);
    assert_eq!(live.typed_partial, "");
    assert_eq!(live.last_partial_len, 100 * 320);
}

#[test]
fn text_is_typed_as_it_comes() {
    let mut live = LiveState::new(RATE, true);
    let (s, l) = signal(&frames(&[(true, 60)]));
    live.tick(true, &s, &l, threshold());
    let step = live.answer(Reply::Text("Bon".to_string()), true);
    // The committed text is not shown where it is typed.
    assert_eq!(step.show, Some(("".to_string(), "Bon".to_string())));
    let edit = step.edit.unwrap();
    assert_eq!((edit.delete, edit.text.as_str(), edit.settle), (0, "Bon", false));
    live.typed(&edit, true);
    let (s, l) = signal(&frames(&[(true, 100), (false, 40), (true, 40)]));
    live.tick(true, &s, &l, threshold());
    let step = live.answer(Reply::Text("Bonjour".to_string()), true);
    let edit = step.edit.unwrap();
    assert_eq!((edit.delete, edit.text.as_str(), edit.settle), (0, "jour ", true));
    assert_eq!(step.show, Some(("".to_string(), "".to_string())));
    live.typed(&edit, true);
    // What was committed is not touched any more.
    assert_eq!(live.typed_partial, "");
    assert_eq!(live.committed, "Bonjour");
}

#[test]
fn failed_typing_is_not_taken_for_granted() {
    let mut live = LiveState::new(RATE, true);
    let (s, l) = signal(&frames(&[(true, 60)]));
    live.tick(true, &s, &l, threshold());
    let step = live.answer(Reply::Text("Bon".to_string()), true);
    live.typed(&step.edit.unwrap(), false);
    assert_eq!(live.typed_partial, "");
}

#[test]
fn empty_segments_erase_the_provisional_text() {
    let mut live = LiveState::new(RATE, true);
    let (s, l) = signal(&frames(&[(true, 60)]));
    live.tick(true, &s, &l, threshold());
    let step = live.answer(Reply::Text("hm".to_string()), true);
    live.typed(&step.edit.unwrap(), true);
    let (s, l) = signal(&frames(&[(true, 100), (false, 40), (true, 40)]));
    live.tick(true, &s, &l, threshold());
    let edit = live.answer(Reply::Text("  ".to_string()), true).edit.unwrap();
    assert_eq!((edit.delete, edit.text.as_str()), (2, ""));
    assert_eq!(live.committed, "");
}
