use murmure::capture::{
    started, stop_error, Capture, CaptureEvent, CaptureReport, CaptureStage, Recording, SampleForm,
    Stopper,
};

fn failed(s: &str) -> CaptureReport {
    CaptureReport::Failed(s.to_string())
}

#[test]
fn a_microphone_is_opened() {
    let mut c = Capture::new();
    assert_eq!(c.advance(CaptureEvent::Device), CaptureReport::Nothing);
    c.advance(CaptureEvent::Configured { rate: 48_000, form: SampleForm::Int16 });
    assert_eq!(c.stage, CaptureStage::Open);
    c.advance(CaptureEvent::Opened);
    assert_eq!(c.advance(CaptureEvent::Playing), CaptureReport::Ready(48_000));
    assert_eq!(c.stage, CaptureStage::Record);
    assert_eq!(c.advance(CaptureEvent::StopRequested), CaptureReport::Nothing);
    assert_eq!(c.stage, CaptureStage::Ended);
}

#[test]
fn failures_of_a_microphone() {
    for (stage, event, message) in [
        (CaptureStage::FindDevice, CaptureEvent::NoDevice, "aucun micro détecté"),
        (
            CaptureStage::Configure,
            CaptureEvent::NotConfigured("x".to_string()),
            "micro indisponible : x",
        ),
        (
            CaptureStage::Configure,
            CaptureEvent::Configured { rate: 1, form: SampleForm::Other("F64".to_string()) },
            "format audio non géré : F64",
        ),
        (
            CaptureStage::Open,
            CaptureEvent::NotOpened("x".to_string()),
            "ouverture du micro impossible : x",
        ),
        (
            CaptureStage::Play,
            CaptureEvent::NotPlaying("x".to_string()),
            "démarrage du micro impossible : x",
        ),
    ] {
        let mut c = Capture::new();
        c.stage = stage;
        assert_eq!(c.advance(event), failed(message));
        assert_eq!(c.stage, CaptureStage::Ended);
    }
}

#[test]
fn stopping_twice_does_nothing() {
    let mut s = Stopper::new();
    let first = s.stop();
    assert!(first.signal && first.wait);
    let second = s.stop();
    assert!(!second.signal && !second.wait);
    assert_eq!(stop_error(), "l'arrêt de la capture a expiré");
}

#[test]
fn the_start_waits_for_a_report() {
    assert_eq!(started(Some(CaptureReport::Ready(16_000))), Ok(16_000));
    assert_eq!(started(Some(failed("x"))), Err("x".to_string()));
    assert_eq!(started(None), Err("le micro ne répond pas".to_string()));
}

#[test]
fn recordings_stay_once_they_are_stopped() {
    let mut r = Recording::new();
    r.push(1);
    r.push(2);
    assert_eq!(r.stop(), Stopper { signal: true, wait: true });
    // Samples still come in until the end.
    r.push(3);
    assert_eq!(r.ended(true), Ok(()));
    r.push(4);
    assert_eq!(r.stop(), Stopper { signal: false, wait: false });
    assert_eq!(r.len(), 3);
    assert_eq!(r.snapshot(1), vec![2, 3]);
    assert_eq!(r.snapshot(3), Vec::<i32>::new());
}

#[test]
fn recordings_that_do_not_end_in_time() {
    let mut r = Recording::new();
    r.stop();
    assert_eq!(r.ended(false), Err("l'arrêt de la capture a expiré".to_string()));
    r.push(1);
    assert_eq!(r.len(), 1);
    assert_eq!(r.stop(), Stopper { signal: false, wait: false });
}
