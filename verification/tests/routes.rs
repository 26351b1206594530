use send_file_core::routes::{index, INDEX_PATH, UPLOAD_PATH};

#[test]
fn index_answers_with_the_fixed_text() {
    assert_eq!(index(), "Hello, World!");
    assert_eq!(index(), index());
}

#[test]
fn the_two_routes_have_their_paths() {
    assert_eq!(INDEX_PATH, "/");
    assert_eq!(UPLOAD_PATH, "/upload");
}
