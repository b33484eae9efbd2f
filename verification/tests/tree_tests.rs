use ncspot::{tracks_to_enqueue, PlaylistInfo, Track, TreeEntry};

fn track(id: &str, name: &str) -> Track {
    Track {
        id: id.to_string(),
        name: name.to_string(),
        artists: vec!["Artist".to_string()],
        duration_ms: 1_000,
    }
}

fn playlist(name: &str) -> PlaylistInfo {
    PlaylistInfo {
        id: format!("pl-{name}"),
        name: name.to_string(),
        owner_id: "owner".to_string(),
    }
}

fn sample_tree() -> Vec<TreeEntry> {
    vec![
        TreeEntry::Playlist(playlist("first")),
        TreeEntry::Track(track("1", "a")),
        TreeEntry::Track(track("2", "b")),
        TreeEntry::Playlist(playlist("second")),
        TreeEntry::Track(track("3", "c")),
    ]
}

#[test]
fn focused_playlist_queues_its_run_of_tracks() {
    let entries = sample_tree();
    let picked = tracks_to_enqueue(&entries, 0);
    let names: Vec<&str> = picked.iter().map(|t| t.name.as_str()).collect();
    assert_eq!(names, vec!["a", "b"]);
}

#[test]
fn focused_track_queues_itself() {
    let entries = sample_tree();
    let picked = tracks_to_enqueue(&entries, 2);
    let names: Vec<&str> = picked.iter().map(|t| t.name.as_str()).collect();
    assert_eq!(names, vec!["b"]);
}

#[test]
fn last_playlist_queues_to_the_end() {
    let entries = sample_tree();
    let picked = tracks_to_enqueue(&entries, 3);
    let names: Vec<&str> = picked.iter().map(|t| t.name.as_str()).collect();
    assert_eq!(names, vec!["c"]);
}

#[test]
fn out_of_range_row_queues_nothing() {
    let entries = sample_tree();
    assert!(tracks_to_enqueue(&entries, 17).is_empty());
}

#[test]
fn playlist_with_no_tracks_queues_nothing() {
    let entries = vec![
        TreeEntry::Playlist(playlist("empty")),
        TreeEntry::Playlist(playlist("other")),
    ];
    assert!(tracks_to_enqueue(&entries, 0).is_empty());
}
