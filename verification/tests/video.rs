use karasad::video::{
    cache_dir_name, decoder_args, pending_downloads, pick_keyword, pixabay_url, urlencodeq,
    usable_api_key, videos_needed, ActiveVideoFlavor, PlaylistCursor, VideoFlavor, VideoHit,
};

#[test]
fn flavors_cycle() {
    let mut a = ActiveVideoFlavor::new();
    let start = a.flavor();
    assert_eq!(start, VideoFlavor::Nature);
    let mut names = Vec::new();
    for _ in 0..5 {
        a.next();
        names.push(a.flavor().name());
    }
    assert_eq!(names, vec!["Underwater", "Space", "City", "Countryside", "Nature"]);
    assert_eq!(a.flavor(), start);
    assert_eq!(VideoFlavor::from_index(7), VideoFlavor::Space);
    assert_eq!(VideoFlavor::all().len(), 5);
}

#[test]
fn keywords_and_query_encoding() {
    assert_eq!(VideoFlavor::City.keywords()[0], "city night");
    assert_eq!(urlencodeq("city night"), "city+night");
    assert_eq!(urlencodeq("a-b_c.d~é"), "a-b_c.d%7E%C3%A9");
    let k = pick_keyword(VideoFlavor::Space);
    assert!(VideoFlavor::Space.keywords().contains(&k));
    assert_eq!(
        pixabay_url("KEY", "aurora borealis"),
        "https://pixabay.com/api/videos/?key=KEY&q=aurora+borealis&per_page=20&safesearch=true&order=popular"
    );
    assert_eq!(cache_dir_name(VideoFlavor::Underwater), "underwater");
}

#[test]
fn listing_yields_downloads() {
    let hits = vec![
        VideoHit { id: Some(7), large_url: Some("L7".into()), medium_url: Some("M7".into()) },
        VideoHit { id: Some(8), large_url: None, medium_url: Some("M8".into()) },
        VideoHit { id: Some(9), large_url: None, medium_url: None },
        VideoHit { id: None, large_url: Some("L0".into()), medium_url: None },
    ];
    let d = pending_downloads(&hits);
    let v: Vec<(u64, &str, &str)> = d.iter().map(|p| (p.video_id, p.url.as_str(), p.file_name.as_str())).collect();
    assert_eq!(v, vec![(7, "L7", "7.mp4"), (8, "M8", "8.mp4"), (0, "L0", "0.mp4")]);
    assert_eq!(usable_api_key(Some(String::new())), None);
    assert_eq!(usable_api_key(Some("k".into())), Some("k".to_string()));
    assert_eq!(usable_api_key(None), None);
}

#[test]
fn playlist_and_counts() {
    assert_eq!(videos_needed(2), 3);
    assert_eq!(videos_needed(9), 0);
    let mut c = PlaylistCursor::new();
    let mut order = Vec::new();
    for _ in 0..4 {
        order.push(c.current(3));
        c.advance(3);
    }
    assert_eq!(order, vec![0, 1, 2, 0]);
    let a = decoder_args("/v/1.mp4");
    assert_eq!(a[1], "/v/1.mp4");
    assert_eq!(a[7], "1920x1080");
    assert_eq!(a[9], "30");
}

#[test]
fn flavor_cache_directory() {
    let d = karasad::video::video_cache_dir(VideoFlavor::Countryside);
    assert!(d.ends_with("countryside"));
    assert!(d.contains("videos"));
}

#[test]
fn fetch_first_missing_videos() {
    let on_disk = vec![true, false, false, true, false, false, false, false];
    assert_eq!(karasad::video::videos_to_fetch(&on_disk, 5), vec![1, 2, 4, 5, 6]);
    assert_eq!(karasad::video::videos_to_fetch(&on_disk, 2), vec![1, 2]);
    assert_eq!(karasad::video::videos_to_fetch(&on_disk, 0), Vec::<usize>::new());
    assert_eq!(karasad::video::videos_to_fetch(&vec![true, true], 5), Vec::<usize>::new());
}
