use folder_player::capture::SAMPLES;
use folder_player::format::{track_format, MusicFormat};
use folder_player::playback::{Entry, Pass, SinkAction};
use folder_player::state::State;

const DIR: &str = "/home/user/Music";

fn tick_on(
    state: &mut State,
    path: &str,
    number: usize,
    window: Option<[i16; SAMPLES]>,
) -> SinkAction {
    let path = path.to_string();
    let format = track_format(&path);
    state.tick(&DIR.to_string(), &path, format, number, window)
}

#[test]
fn pass_numbers_only_playable_entries() {
    let mut pass = Pass::new();
    assert_eq!(pass.loaded(), 0);
    assert_eq!(pass.record(Entry::Unreadable), None);
    assert_eq!(pass.record(Entry::Playable), Some(1));
    assert_eq!(pass.record(Entry::Undecodable), None);
    assert_eq!(pass.record(Entry::Undecodable), None);
    assert_eq!(pass.record(Entry::Playable), Some(2));
    assert_eq!(pass.record(Entry::Playable), Some(3));
    assert_eq!(pass.record(Entry::Unreadable), None);
    assert_eq!(pass.loaded(), 3);
}

#[test]
fn pass_over_nothing_playable_gives_no_number() {
    let mut pass = Pass::new();
    for entry in [Entry::Unreadable, Entry::Undecodable, Entry::Unreadable] {
        assert_eq!(pass.record(entry), None);
    }
    assert_eq!(pass.loaded(), 0);
}

#[test]
fn numbers_given_equal_playable_entries() {
    let listing = [
        Entry::Playable,
        Entry::Undecodable,
        Entry::Playable,
        Entry::Unreadable,
        Entry::Playable,
        Entry::Playable,
        Entry::Undecodable,
    ];
    let mut pass = Pass::new();
    let mut seen = Vec::new();
    for entry in listing {
        if let Some(n) = pass.record(entry) {
            seen.push(n);
        }
    }
    let playable = listing.iter().filter(|e| **e == Entry::Playable).count();
    assert_eq!(seen.len(), playable);
    assert_eq!(seen, vec![1, 2, 3, 4]);
}

#[test]
fn each_pass_counts_from_one() {
    let mut first = Pass::new();
    assert_eq!(first.record(Entry::Playable), Some(1));
    assert_eq!(first.record(Entry::Playable), Some(2));
    let mut second = Pass::new();
    assert_eq!(second.record(Entry::Playable), Some(1));
}

#[test]
fn directory_with_valid_invalid_valid() {
    let files = [("a.mp3", true), ("b.txt", false), ("c.wav", true)];
    let mut state = State::new();
    let mut pass = Pass::new();
    let mut observed: Vec<(usize, String, String)> = Vec::new();
    for (name, decodes) in files {
        let path = format!("{}/{}", DIR, name);
        state.show_directory(&DIR.to_string());
        let entry = if decodes { Entry::Playable } else { Entry::Undecodable };
        if let Some(number) = pass.record(entry) {
            for _ in 0..3 {
                assert_eq!(tick_on(&mut state, &path, number, None), SinkAction::Play);
                let seen = (state.file_num, state.file_name.clone(), state.file_ext.clone());
                if observed.last() != Some(&seen) {
                    observed.push(seen);
                }
            }
        }
        assert_ne!(state.file_name, "b");
    }
    assert_eq!(
        observed,
        vec![
            (1, "a".to_string(), "mp3".to_string()),
            (2, "c".to_string(), "wav".to_string()),
        ]
    );
    assert_eq!(state.dir_name, "Music");
}

#[test]
fn tick_publishes_the_telemetry() {
    let mut state = State::new();
    let action = tick_on(&mut state, "/home/user/Music/01 - Intro.Live.FLAC", 7, None);
    assert_eq!(action, SinkAction::Play);
    assert_eq!(state.dir_name, "Music");
    assert_eq!(state.file_num, 7);
    assert_eq!(state.file_name, "01 - Intro.Live");
    assert_eq!(state.file_ext, "flac");
    assert_eq!(state.message, "***");
    assert!(state.play);
    assert!(!state.skip);
    assert_eq!(state.sample_stats, [0i16; SAMPLES]);
}

#[test]
fn tick_shows_a_generic_track_as_unknown() {
    let mut state = State::new();
    let path = "/home/user/Music/noise.bin".to_string();
    state.tick(&DIR.to_string(), &path, MusicFormat::GEN, 1, None);
    assert_eq!(state.file_name, "noise");
    assert_eq!(state.file_ext, "unknown");
}

#[test]
fn tick_shows_a_received_window_whole() {
    let mut state = State::new();
    let mut window = [0i16; SAMPLES];
    for k in 0..SAMPLES {
        window[k] = k as i16 - 512;
    }
    assert_eq!(tick_on(&mut state, "a.mp3", 1, Some(window)), SinkAction::Play);
    assert_eq!(state.sample_stats, window);
    assert_eq!(tick_on(&mut state, "a.mp3", 1, None), SinkAction::Play);
    assert_eq!(state.sample_stats, window);
    let other = [9i16; SAMPLES];
    assert_eq!(tick_on(&mut state, "a.mp3", 1, Some(other)), SinkAction::Play);
    assert_eq!(state.sample_stats, other);
}

#[test]
fn pause_does_not_advance_tracks() {
    let mut state = State::new();
    let window = [5i16; SAMPLES];
    assert_eq!(tick_on(&mut state, "a.mp3", 1, Some(window)), SinkAction::Play);
    state.toggle_pause();
    for _ in 0..50 {
        assert_eq!(tick_on(&mut state, "a.mp3", 1, None), SinkAction::Pause);
        assert_eq!(state.file_num, 1);
        assert_eq!(state.file_name, "a");
        assert_eq!(state.sample_stats, window);
        assert!(!state.play);
    }
    state.toggle_pause();
    assert_eq!(tick_on(&mut state, "a.mp3", 1, None), SinkAction::Play);
    assert_eq!(state.file_num, 1);
    assert_eq!(state.file_name, "a");
}

#[test]
fn paused_tick_ignores_a_window() {
    let mut state = State::new();
    let shown = [5i16; SAMPLES];
    tick_on(&mut state, "a.mp3", 1, Some(shown));
    state.toggle_pause();
    assert_eq!(tick_on(&mut state, "a.mp3", 1, Some([6i16; SAMPLES])), SinkAction::Pause);
    assert_eq!(state.sample_stats, shown);
}

#[test]
fn skip_set_while_paused_is_not_acted_on() {
    let mut state = State::new();
    let shown = [5i16; SAMPLES];
    tick_on(&mut state, "a.mp3", 1, Some(shown));
    state.play = false;
    state.skip = true;
    for _ in 0..4 {
        assert_eq!(tick_on(&mut state, "a.mp3", 1, None), SinkAction::Pause);
        assert_eq!(state.file_num, 1);
        assert_eq!(state.file_name, "a");
        assert_eq!(state.sample_stats, shown);
        assert!(state.skip);
    }
}

#[test]
fn skip_request_while_paused_changes_no_telemetry() {
    let mut state = State::new();
    let shown = [5i16; SAMPLES];
    tick_on(&mut state, "a.mp3", 1, Some(shown));
    state.toggle_pause();
    state.request_skip();
    assert_eq!(tick_on(&mut state, "a.mp3", 1, None), SinkAction::Pause);
    assert!(!state.skip);
    assert_eq!(state.file_num, 1);
    assert_eq!(state.file_name, "a");
    assert_eq!(state.sample_stats, shown);
    assert_eq!(state.message, "*** unpause to skip");
}

#[test]
fn skip_mid_track_advances_by_exactly_one() {
    let files = ["a.mp3", "b.ogg", "c.wav"];
    let mut state = State::new();
    let mut pass = Pass::new();
    let mut numbers = Vec::new();
    for (i, name) in files.iter().enumerate() {
        let number = pass.record(Entry::Playable).unwrap();
        numbers.push(number);
        let window = [(i as i16) + 1; SAMPLES];
        assert_eq!(tick_on(&mut state, name, number, Some(window)), SinkAction::Play);
        assert_eq!(state.sample_stats, window);
        if i == 0 {
            state.request_skip();
            let action = tick_on(&mut state, name, number, Some([77i16; SAMPLES]));
            assert_eq!(action, SinkAction::Skip);
            assert_eq!(state.sample_stats, [0i16; SAMPLES]);
            assert!(!state.skip);
            assert_eq!(state.file_num, 1);
        } else {
            for _ in 0..3 {
                assert_eq!(tick_on(&mut state, name, number, None), SinkAction::Play);
                assert_eq!(state.file_num, number);
            }
        }
    }
    assert_eq!(numbers, vec![1, 2, 3]);
    assert_eq!(state.file_num, 3);
    assert_eq!(state.file_name, "c");
}

#[test]
fn skip_is_acted_on_once() {
    let mut state = State::new();
    tick_on(&mut state, "a.mp3", 1, Some([3i16; SAMPLES]));
    state.request_skip();
    assert_eq!(tick_on(&mut state, "a.mp3", 1, None), SinkAction::Skip);
    assert_eq!(tick_on(&mut state, "b.mp3", 2, None), SinkAction::Play);
    assert_eq!(tick_on(&mut state, "b.mp3", 2, None), SinkAction::Play);
    assert_eq!(state.file_num, 2);
    assert_eq!(state.file_name, "b");
}

#[test]
fn skip_zeroes_the_window_even_with_a_fresh_one() {
    let mut state = State::new();
    state.skip = true;
    let action = tick_on(&mut state, "a.mp3", 1, Some([8i16; SAMPLES]));
    assert_eq!(action, SinkAction::Skip);
    assert_eq!(state.sample_stats, [0i16; SAMPLES]);
}

#[test]
fn tick_leaves_the_message_and_the_reserved_flag() {
    let mut state = State::new();
    state.repeat = true;
    state.message = "*** hello".to_string();
    tick_on(&mut state, "a.mp3", 1, None);
    state.skip = true;
    tick_on(&mut state, "a.mp3", 1, None);
    state.play = false;
    tick_on(&mut state, "a.mp3", 1, None);
    assert!(state.repeat);
    assert_eq!(state.message, "*** hello");
    assert!(!state.play);
}

#[test]
fn show_directory_changes_only_the_directory() {
    let mut state = State::new();
    tick_on(&mut state, "a.mp3", 4, Some([2i16; SAMPLES]));
    state.show_directory(&"/mnt/usb/Albums".to_string());
    assert_eq!(state.dir_name, "Albums");
    assert_eq!(state.file_num, 4);
    assert_eq!(state.file_name, "a");
    assert_eq!(state.file_ext, "mp3");
    assert_eq!(state.sample_stats, [2i16; SAMPLES]);
    assert!(state.play);
}

#[test]
fn window_is_wanted_only_while_playing() {
    let mut state = State::new();
    assert!(state.wants_window());
    state.toggle_pause();
    assert!(!state.wants_window());
    state.skip = true;
    assert!(!state.wants_window());
    state.toggle_pause();
    assert!(state.wants_window());
}
