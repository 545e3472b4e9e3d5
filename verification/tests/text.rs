use tessera::chunking::ChunkLocation;
use tessera::parse::text::parse;

#[test]
fn text_becomes_windows_with_no_location_claimed() {
    let out = parse("The exit plan review interval is 12 months.");
    assert_eq!(out.len(), 1);
    assert_eq!(out[0].location, ChunkLocation::Whole);
}

#[test]
fn an_empty_file_yields_nothing() {
    assert!(parse("").is_empty());
}
