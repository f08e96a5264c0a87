use image_compressor::resolver::{candidate_path, get_unique_filename, is_taken};

fn strings(items: &[&str]) -> Vec<String> {
    items.iter().map(|s| s.to_string()).collect()
}

#[test]
fn free_name_is_kept() {
    assert_eq!(get_unique_filename("dir", "photo.jpg", &strings(&[])), "dir/photo.jpg");
    assert_eq!(
        get_unique_filename("dir", "photo.jpg", &strings(&["dir/other.jpg", "dir/photo_1.jpg"])),
        "dir/photo.jpg"
    );
}

#[test]
fn taken_names_are_counted_past() {
    let existing = strings(&["dir/photo.jpg"]);
    assert_eq!(get_unique_filename("dir", "photo.jpg", &existing), "dir/photo_1.jpg");
    let existing = strings(&["dir/photo.jpg", "dir/photo_1.jpg"]);
    assert_eq!(get_unique_filename("dir", "photo.jpg", &existing), "dir/photo_2.jpg");
}

#[test]
fn first_gap_is_taken() {
    let existing = strings(&["dir/photo_3.jpg", "dir/photo_1.jpg", "dir/photo.jpg"]);
    assert_eq!(get_unique_filename("dir", "photo.jpg", &existing), "dir/photo_2.jpg");
}

#[test]
fn counter_goes_past_nine() {
    let mut existing = strings(&["dir/photo.jpg"]);
    for k in 1..=11 {
        existing.push(format!("dir/photo_{k}.jpg"));
    }
    existing.push("dir/photo.jpg".to_string());
    assert_eq!(get_unique_filename("dir", "photo.jpg", &existing), "dir/photo_12.jpg");
}

#[test]
fn result_is_never_an_existing_path() {
    let mut existing: Vec<String> = Vec::new();
    for _ in 0..25 {
        let path = get_unique_filename("out", "cat.png", &existing);
        assert!(!existing.contains(&path));
        existing.push(path);
    }
    assert_eq!(existing[0], "out/cat.png");
    assert_eq!(existing[24], "out/cat_24.png");
}

#[test]
fn name_without_extension_gets_an_empty_one() {
    let existing = strings(&["dir/README"]);
    assert_eq!(get_unique_filename("dir", "README", &existing), "dir/README_1.");
    let existing = strings(&["dir/.bashrc"]);
    assert_eq!(get_unique_filename("dir", ".bashrc", &existing), "dir/.bashrc_1.");
}

#[test]
fn name_without_stem_gets_an_empty_one() {
    let existing = strings(&["dir/"]);
    assert_eq!(get_unique_filename("dir", "", &existing), "dir/_1.");
    let existing = strings(&["dir/.."]);
    assert_eq!(get_unique_filename("dir", "..", &existing), "dir/_1.");
}

#[test]
fn wanted_name_may_end_in_a_separator() {
    let existing = strings(&["out/cat.png/"]);
    assert_eq!(get_unique_filename("out", "cat.png/", &existing), "out/cat_1.png");
    assert_eq!(candidate_path("out", "sub/cat.png/.", 3), "out/cat_3.png");
    assert_eq!(candidate_path("out", "sub/", 1), "out/sub_1.");
}

#[test]
fn only_the_last_dot_splits() {
    let existing = strings(&["out/a.tar.gz"]);
    assert_eq!(get_unique_filename("out", "a.tar.gz", &existing), "out/a.tar_1.gz");
}

#[test]
fn directory_may_end_in_a_separator() {
    let existing = strings(&["out/cat.png"]);
    assert_eq!(get_unique_filename("out/", "cat.png", &existing), "out/cat_1.png");
    assert_eq!(get_unique_filename("", "cat.png", &strings(&["cat.png"])), "cat_1.png");
}

#[test]
fn candidates_by_attempt() {
    assert_eq!(candidate_path("dir", "photo.jpg", 0), "dir/photo.jpg");
    assert_eq!(candidate_path("dir", "photo.jpg", 1), "dir/photo_1.jpg");
    assert_eq!(candidate_path("dir", "photo.jpg", 1000), "dir/photo_1000.jpg");
    assert_eq!(candidate_path("dir", "sub/photo.jpg", 0), "dir/sub/photo.jpg");
    assert_eq!(candidate_path("dir", "sub/photo.jpg", 2), "dir/photo_2.jpg");
}

#[test]
fn membership_compares_whole_paths() {
    let existing = strings(&["dir/a.png", "dir/b.png"]);
    assert!(is_taken(&existing, "dir/b.png"));
    assert!(!is_taken(&existing, "dir/B.png"));
    assert!(!is_taken(&existing, "b.png"));
    assert!(!is_taken(&strings(&[]), ""));
}
