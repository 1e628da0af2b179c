use ascii_video::order::{sort_names, str_le};
use ascii_video::playback::{Action, Playback};

#[test]
fn str_le_orders_lexicographically() {
    assert!(str_le("a", "b"));
    assert!(!str_le("b", "a"));
    assert!(str_le("a", "a"));
    assert!(str_le("", "a"));
    assert!(!str_le("a", ""));
    assert!(str_le("ab", "abc"));
    assert!(!str_le("abc", "ab"));
    assert!(str_le("frame_001.png", "frame_002.png"));
    assert!(str_le("frame_009.png", "frame_010.png"));
}

#[test]
fn sort_names_orders_and_keeps_all() {
    let names = vec![
        "frame_003.png".to_string(),
        "frame_001.png".to_string(),
        "frame_002.png".to_string(),
        "frame_001.png".to_string(),
    ];
    let sorted = sort_names(names);
    assert_eq!(
        sorted,
        vec![
            "frame_001.png".to_string(),
            "frame_001.png".to_string(),
            "frame_002.png".to_string(),
            "frame_003.png".to_string(),
        ]
    );
}

#[test]
fn sort_names_empty_and_single() {
    assert_eq!(sort_names(Vec::new()), Vec::<String>::new());
    assert_eq!(sort_names(vec!["x".to_string()]), vec!["x".to_string()]);
}

#[test]
fn playback_hands_out_frames_in_sorted_order_once() {
    let names = vec!["b.png".to_string(), "a.png".to_string(), "c.png".to_string()];
    let mut p = Playback::new(names);
    let mut drawn: Vec<String> = Vec::new();
    let mut waited = 0;
    loop {
        match p.step() {
            Action::Draw(name) => drawn.push(name),
            Action::WaitAudio => waited += 1,
            Action::Stop => break,
        }
    }
    assert_eq!(drawn, vec!["a.png".to_string(), "b.png".to_string(), "c.png".to_string()]);
    assert_eq!(waited, 1);
}

#[test]
fn playback_of_no_frames_still_waits_for_audio() {
    let mut p = Playback::new(Vec::new());
    assert!(matches!(p.step(), Action::WaitAudio));
    assert!(matches!(p.step(), Action::Stop));
    assert!(matches!(p.step(), Action::Stop));
}
