use imgview::errors::ViewerError;
use imgview::fileset::{
    build_image_set, bytes_eq, ascii_to_lower, filter_supported, find_start_index,
    has_supported_extension, parent_directory, path_extension, sort_by_mtime_desc, ImageEntry,
};

fn entry(path: &[u8], mtime: u64) -> ImageEntry {
    ImageEntry { path: path.to_vec(), mtime }
}

#[test]
fn extension_after_last_dot() {
    assert_eq!(path_extension(&b"dir/photo.png".to_vec()), Some(b"png".to_vec()));
    assert_eq!(path_extension(&b"archive.tar.gz".to_vec()), Some(b"gz".to_vec()));
    assert_eq!(path_extension(&b"a/b/c.JPG".to_vec()), Some(b"JPG".to_vec()));
}

#[test]
fn extension_absent() {
    assert_eq!(path_extension(&b"noext".to_vec()), None);
    assert_eq!(path_extension(&b"dir.d/noext".to_vec()), None);
    assert_eq!(path_extension(&b"dir/.hidden".to_vec()), None);
    assert_eq!(path_extension(&b"".to_vec()), None);
    assert_eq!(path_extension(&b"dir/".to_vec()), None);
}

#[test]
fn lowercasing_ascii() {
    assert_eq!(ascii_to_lower(&b"PnG".to_vec()), b"png".to_vec());
    assert_eq!(ascii_to_lower(&b"jpeg".to_vec()), b"jpeg".to_vec());
    assert_eq!(ascii_to_lower(&b"A-Z.9".to_vec()), b"a-z.9".to_vec());
}

#[test]
fn supported_extensions_case_insensitive() {
    assert!(has_supported_extension(&b"x.jpg".to_vec()));
    assert!(has_supported_extension(&b"x.JPEG".to_vec()));
    assert!(has_supported_extension(&b"x.PnG".to_vec()));
    assert!(has_supported_extension(&b"x.bmp".to_vec()));
    assert!(has_supported_extension(&b"x.TIF".to_vec()));
}

#[test]
fn unsupported_extensions_rejected() {
    assert!(!has_supported_extension(&b"x.txt".to_vec()));
    assert!(!has_supported_extension(&b"x.tiff".to_vec()));
    assert!(!has_supported_extension(&b"x.webp".to_vec()));
    assert!(!has_supported_extension(&b"x".to_vec()));
    assert!(!has_supported_extension(&b".png".to_vec()));
}

#[test]
fn bytes_eq_compares_contents() {
    assert!(bytes_eq(&b"abc".to_vec(), &b"abc".to_vec()));
    assert!(!bytes_eq(&b"abc".to_vec(), &b"abd".to_vec()));
    assert!(!bytes_eq(&b"abc".to_vec(), &b"ab".to_vec()));
    assert!(bytes_eq(&b"".to_vec(), &b"".to_vec()));
}

#[test]
fn parent_of_nested_path() {
    assert_eq!(parent_directory(&b"a/b/c.png".to_vec()), Ok(b"a/b".to_vec()));
    assert_eq!(parent_directory(&b"/tmp/x.jpg".to_vec()), Ok(b"/tmp".to_vec()));
}

#[test]
fn parent_of_bare_name_is_empty() {
    assert_eq!(parent_directory(&b"x.jpg".to_vec()), Ok(b"".to_vec()));
}

#[test]
fn parent_of_root_child_is_root() {
    assert_eq!(parent_directory(&b"/x.jpg".to_vec()), Ok(b"/".to_vec()));
}

#[test]
fn parent_missing_is_invalid_input() {
    assert_eq!(parent_directory(&b"".to_vec()), Err(ViewerError::InvalidInput));
    assert_eq!(parent_directory(&b"/".to_vec()), Err(ViewerError::InvalidInput));
}

#[test]
fn filter_keeps_only_supported_in_order() {
    let listing = vec![
        entry(b"d/one.png", 5),
        entry(b"d/skip.txt", 9),
        entry(b"d/two.JPG", 7),
        entry(b"d/readme", 3),
        entry(b"d/three.bmp", 1),
    ];
    let kept = filter_supported(listing);
    let paths: Vec<&[u8]> = kept.iter().map(|e| e.path.as_slice()).collect();
    assert_eq!(paths, vec![&b"d/one.png"[..], &b"d/two.JPG"[..], &b"d/three.bmp"[..]]);
}

#[test]
fn sort_is_descending_by_mtime() {
    let listing = vec![entry(b"a", 10), entry(b"b", 30), entry(b"c", 20)];
    let sorted = sort_by_mtime_desc(listing);
    let times: Vec<u64> = sorted.iter().map(|e| e.mtime).collect();
    assert_eq!(times, vec![30, 20, 10]);
}

#[test]
fn sort_is_stable_on_ties() {
    let listing = vec![
        entry(b"first", 7),
        entry(b"second", 9),
        entry(b"third", 7),
        entry(b"fourth", 7),
    ];
    let sorted = sort_by_mtime_desc(listing);
    let paths: Vec<&[u8]> = sorted.iter().map(|e| e.path.as_slice()).collect();
    assert_eq!(paths, vec![&b"second"[..], &b"first"[..], &b"third"[..], &b"fourth"[..]]);
}

#[test]
fn find_first_matching_path() {
    let listing = vec![entry(b"a.png", 1), entry(b"b.png", 2), entry(b"b.png", 3)];
    assert_eq!(find_start_index(&listing, &b"b.png".to_vec()), Some(1));
    assert_eq!(find_start_index(&listing, &b"zzz.png".to_vec()), None);
}

#[test]
fn build_mixed_directory() {
    let listing = vec![
        entry(b"d/new.jpeg", 50),
        entry(b"d/notes.txt", 99),
        entry(b"d/old.png", 10),
        entry(b"d/mid.tif", 30),
    ];
    let (set, idx) = build_image_set(listing, &b"d/mid.tif".to_vec());
    let paths: Vec<&[u8]> = set.iter().map(|e| e.path.as_slice()).collect();
    assert_eq!(paths, vec![&b"d/new.jpeg"[..], &b"d/mid.tif"[..], &b"d/old.png"[..]]);
    assert_eq!(idx, Some(1));
}

#[test]
fn build_scenario_starting_file_first() {
    let listing = vec![entry(b"a.png", 10), entry(b"b.jpg", 30), entry(b"c.txt", 20)];
    let (set, idx) = build_image_set(listing, &b"b.jpg".to_vec());
    let paths: Vec<&[u8]> = set.iter().map(|e| e.path.as_slice()).collect();
    assert_eq!(paths, vec![&b"b.jpg"[..], &b"a.png"[..]]);
    assert_eq!(idx, Some(0));
}

#[test]
fn build_absent_start_yields_none() {
    let listing = vec![entry(b"a.png", 10), entry(b"b.jpg", 30)];
    let (set, idx) = build_image_set(listing, &b"other.jpg".to_vec());
    assert_eq!(set.len(), 2);
    assert_eq!(idx, None);
}

#[test]
fn build_empty_listing() {
    let (set, idx) = build_image_set(Vec::new(), &b"x.png".to_vec());
    assert!(set.is_empty());
    assert_eq!(idx, None);
}
