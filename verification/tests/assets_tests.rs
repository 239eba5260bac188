use arena_server::assets::{content_hash16, hashed_asset_name, precache_version};

#[test]
fn asset_names_carry_content_hash() {
    assert_eq!(content_hash16(b"hello"), "2cf24dba5fb0a30e");
    assert_eq!(hashed_asset_name("app", "js", b"hello"), "app-2cf24dba5fb0a30e.js");
    assert_eq!(hashed_asset_name("LICENSE", "", b"hello"), "LICENSE-2cf24dba5fb0a30e");
    assert_eq!(precache_version("hello"), "2cf24dba5fb0a30e");
}
