use tessera::chunking::ChunkLocation;
use tessera::parse::xlsx::{bands, workbook_error, Sheet};
use tessera::parse::ParseError;

fn row(cells: &[&str]) -> Vec<String> {
    cells.iter().map(|c| c.to_string()).collect()
}

#[test]
fn a_band_carries_its_header_and_row_range() {
    let mut rows = vec![row(&["Metric", "Value"])];
    for i in 0..15 {
        rows.push(row(&["CET1", &format!("{i}")]));
    }
    let out = bands(&[Sheet { name: "Ratios".to_string(), rows }]);
    assert_eq!(out.len(), 2);
    assert_eq!(out[0].location, ChunkLocation::RowRange { sheet: "Ratios".to_string(), from: 2, to: 13 });
    assert_eq!(out[1].location, ChunkLocation::RowRange { sheet: "Ratios".to_string(), from: 14, to: 16 });
    assert!(out[0].text.starts_with("Ratios\nMetric | Value\nCET1 | 0\n"));
    assert!(out[1].text.ends_with("CET1 | 14"));
    assert_eq!(out[1].sequence, 1);
}

#[test]
fn an_empty_band_is_skipped() {
    let rows = vec![row(&["A", "B"]), row(&["", ""]), row(&["", ""])];
    let out = bands(&[Sheet { name: "S".to_string(), rows }, Sheet { name: "T".to_string(), rows: vec![] }]);
    assert!(out.is_empty());
}

#[test]
fn a_locked_workbook_says_so() {
    assert!(matches!(workbook_error("Password protected", "w.xlsx"), ParseError::Protected(p) if p == "w.xlsx"));
    assert!(matches!(workbook_error("bad zip", "w.xlsx"), ParseError::Malformed { format: "xlsx", .. }));
}
