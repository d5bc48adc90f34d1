use folder_player::capture::{SpyDecoder, CAPTURE_WAIT, SAMPLES};

fn feed(tap: &mut SpyDecoder, n: usize, value: i16) {
    for _ in 0..n {
        assert_eq!(tap.next(Some(value)), Some(value));
    }
}

fn ramp(tap: &mut SpyDecoder, n: usize, start: i16) {
    for k in 0..n {
        let x = start + k as i16;
        assert_eq!(tap.next(Some(x)), Some(x));
    }
}

fn ramp_window(start: i16) -> [i16; SAMPLES] {
    let mut w = [0i16; SAMPLES];
    for k in 0..SAMPLES {
        w[k] = start + k as i16;
    }
    w
}

#[test]
fn constants() {
    assert_eq!(SAMPLES, 1024);
    assert_eq!(CAPTURE_WAIT, 4400);
}

#[test]
fn samples_pass_through_unchanged() {
    let mut tap = SpyDecoder::new();
    for x in [0i16, 1, -1, 12345, i16::MAX, i16::MIN] {
        assert_eq!(tap.next(Some(x)), Some(x));
    }
    assert_eq!(tap.next(None), None);
    feed(&mut tap, 2 * (CAPTURE_WAIT + SAMPLES + 2), -7);
    assert_eq!(tap.next(Some(99)), Some(99));
    assert_eq!(tap.next(None), None);
}

#[test]
fn fresh_tap_waits_and_shows_silence() {
    let tap = SpyDecoder::new();
    assert!(!tap.is_collecting());
    assert_eq!(tap.window(), Some([0i16; SAMPLES]));
}

#[test]
fn collection_starts_after_the_wait() {
    let mut tap = SpyDecoder::new();
    feed(&mut tap, CAPTURE_WAIT, 3);
    assert!(!tap.is_collecting());
    feed(&mut tap, 1, 3);
    assert!(tap.is_collecting());
    assert_eq!(tap.window(), Some([0i16; SAMPLES]));
}

#[test]
fn window_is_hidden_while_it_is_written() {
    let mut tap = SpyDecoder::new();
    feed(&mut tap, CAPTURE_WAIT + 1, 3);
    ramp(&mut tap, 1, 100);
    assert_eq!(tap.window(), None);
    ramp(&mut tap, SAMPLES - 2, 101);
    assert_eq!(tap.window(), None);
    ramp(&mut tap, 1, 100 + SAMPLES as i16 - 1);
    assert!(tap.is_collecting());
    assert_eq!(tap.window(), Some(ramp_window(100)));
}

#[test]
fn full_window_stays_through_the_next_wait() {
    let mut tap = SpyDecoder::new();
    feed(&mut tap, CAPTURE_WAIT + 1, 3);
    ramp(&mut tap, SAMPLES, 1);
    feed(&mut tap, 1, 9);
    assert!(!tap.is_collecting());
    assert_eq!(tap.window(), Some(ramp_window(1)));
    feed(&mut tap, CAPTURE_WAIT, 9);
    assert!(!tap.is_collecting());
    assert_eq!(tap.window(), Some(ramp_window(1)));
    feed(&mut tap, 1, 9);
    assert!(tap.is_collecting());
    assert_eq!(tap.window(), Some(ramp_window(1)));
}

#[test]
fn second_window_replaces_the_first_as_a_whole() {
    let mut tap = SpyDecoder::new();
    feed(&mut tap, CAPTURE_WAIT + 1, 3);
    ramp(&mut tap, SAMPLES, 1);
    feed(&mut tap, 1 + CAPTURE_WAIT + 1, 9);
    ramp(&mut tap, SAMPLES / 2, 5000);
    assert_eq!(tap.window(), None);
    ramp(&mut tap, SAMPLES / 2, 5000 + (SAMPLES / 2) as i16);
    assert_eq!(tap.window(), Some(ramp_window(5000)));
}

#[test]
fn exhausted_pulls_are_not_stored() {
    let mut tap = SpyDecoder::new();
    feed(&mut tap, CAPTURE_WAIT + 1, 3);
    ramp(&mut tap, 10, 1);
    for _ in 0..5 {
        assert_eq!(tap.next(None), None);
    }
    assert!(tap.is_collecting());
    ramp(&mut tap, SAMPLES - 10, 11);
    assert_eq!(tap.window(), Some(ramp_window(1)));
}

#[test]
fn exhausted_pulls_count_while_waiting() {
    let mut tap = SpyDecoder::new();
    for _ in 0..CAPTURE_WAIT {
        assert_eq!(tap.next(None), None);
    }
    assert!(!tap.is_collecting());
    assert_eq!(tap.next(None), None);
    assert!(tap.is_collecting());
}

#[test]
fn pull_that_ends_a_phase_is_not_stored() {
    let mut tap = SpyDecoder::new();
    feed(&mut tap, CAPTURE_WAIT, 3);
    feed(&mut tap, 1, -777);
    ramp(&mut tap, SAMPLES, 1);
    feed(&mut tap, 1, -888);
    let w = tap.window().unwrap();
    assert_eq!(w[0], 1);
    assert_eq!(w[SAMPLES - 1], SAMPLES as i16);
    assert!(!w.contains(&-777));
    assert!(!w.contains(&-888));
}
