use karasad::lyrics::{
    find_current_segment, first_segment_start, last_segment_end, lyrics_frame, setup_lyrics, shown_lines,
    update_lyrics, word_state, Segment, TimedWord, WordState,
};

fn seg(start: i64, end: i64) -> Segment {
    Segment { start_ms: start, end_ms: end, words: vec![TimedWord { word: "w".into(), start_ms: start, end_ms: end }] }
}

#[test]
fn current_segment_follows_time() {
    let segs = vec![seg(10_000, 12_000), seg(12_100, 14_000), seg(30_000, 32_000)];
    assert_eq!(find_current_segment(&segs, 0), 0);
    assert_eq!(find_current_segment(&segs, 11_000), 0);
    assert_eq!(find_current_segment(&segs, 11_960), 1);
    assert_eq!(find_current_segment(&segs, 14_400), 1);
    assert_eq!(find_current_segment(&segs, 20_000), 2);
    assert_eq!(find_current_segment(&segs, 99_000), 2);
    assert_eq!(find_current_segment(&Vec::new(), 5), 0);
}

#[test]
fn countdown_before_a_line_after_a_pause() {
    let segs = vec![seg(10_000, 12_000), seg(20_000, 22_000)];
    let f = lyrics_frame(&segs, 7_500);
    assert_eq!(f.segment, 0);
    assert!(!f.active);
    assert_eq!(f.countdown, Some(3));
    assert!(f.show_current && f.show_next);
    let g = lyrics_frame(&segs, 17_001);
    assert_eq!(g.segment, 1);
    assert_eq!(g.countdown, Some(3));
    let h = lyrics_frame(&segs, 21_000);
    assert!(h.active && h.show_current && !h.show_next);
    assert_eq!(h.countdown, None);
    let i = lyrics_frame(&segs, 16_000);
    assert!(!i.show_current);
}

#[test]
fn words_and_bounds() {
    let w = TimedWord { word: "la".into(), start_ms: 1000, end_ms: 1500 };
    assert_eq!(word_state(&w, 900), WordState::Unsung);
    assert_eq!(word_state(&w, 1200), WordState::Singing { elapsed_ms: 200, length_ms: 500 });
    assert_eq!(word_state(&w, 1500), WordState::Sung);
    let segs = vec![seg(1, 2), seg(3, 4)];
    assert_eq!(first_segment_start(&segs), 1);
    assert_eq!(last_segment_end(&segs), 4);
    assert_eq!(last_segment_end(&Vec::new()), 0);
    let mut st = setup_lyrics(segs);
    assert_eq!(st.current_segment, usize::MAX);
    let (f, changed) = update_lyrics(&mut st, 3).unwrap();
    assert!(changed);
    assert_eq!(f.segment, 1);
    let (_, again) = update_lyrics(&mut st, 3).unwrap();
    assert!(!again);
    let mut empty = setup_lyrics(Vec::new());
    assert!(update_lyrics(&mut empty, 0).is_none());
}

#[test]
fn lines_on_screen() {
    let segs = vec![seg(0, 1), seg(2, 3)];
    assert_eq!(shown_lines(&segs, 0), (Some(0), Some(1)));
    assert_eq!(shown_lines(&segs, 1), (Some(1), None));
    assert_eq!(shown_lines(&segs, usize::MAX), (None, None));
}
