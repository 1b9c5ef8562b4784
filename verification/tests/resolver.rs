use map_preview::format::{Language, PreviewFormat};
use map_preview::resolver::{
    record_table, resolve_alias, select_record, AliasEntry, AliasLookup, LocationRecord,
    LookupError, RecordLookup, RedirectTarget,
};

fn entry(key: &str) -> AliasEntry {
    AliasEntry { key: key.to_string(), visible_id: "vis".to_string(), kind: "room".to_string() }
}

fn record(name: &str) -> LocationRecord {
    LocationRecord {
        name: name.to_string(),
        calendar_url: None,
        last_calendar_scrape_at: None,
        kind: "room".to_string(),
        kind_display_name: "Raum".to_string(),
        latitude_e7: 482_600_000,
        longitude_e7: 116_700_000,
    }
}

#[test]
fn alias_of_another_key_redirects() {
    let target =
        resolve_alias("A", AliasLookup::Found(entry("B")), Language::En, PreviewFormat::Square);
    let target = target.expect("a redirect");
    assert_eq!(target.key, "B");
    assert_eq!(target.lang, Language::En);
    assert_eq!(target.format, PreviewFormat::Square);
}

#[test]
fn alias_of_itself_does_not_redirect() {
    let target =
        resolve_alias("B", AliasLookup::Found(entry("B")), Language::De, PreviewFormat::OpenGraph);
    assert!(target.is_none());
}

#[test]
fn missing_alias_does_not_redirect() {
    assert!(resolve_alias("A", AliasLookup::Missing, Language::De, PreviewFormat::OpenGraph)
        .is_none());
}

#[test]
fn failed_alias_lookup_does_not_redirect() {
    assert!(resolve_alias("A", AliasLookup::Failed, Language::De, PreviewFormat::OpenGraph)
        .is_none());
}

#[test]
fn redirect_url_shape() {
    let target = RedirectTarget {
        key: "5101.EG.001".to_string(),
        lang: Language::De,
        format: PreviewFormat::Square,
    };
    assert_eq!(
        target.url("nav.tum.de"),
        "https://nav.tum.de/api/preview/5101.EG.001?lang=de&format=square"
    );
    let target = RedirectTarget {
        key: "mi".to_string(),
        lang: Language::En,
        format: PreviewFormat::OpenGraph,
    };
    assert_eq!(
        target.url("example.org"),
        "https://example.org/api/preview/mi?lang=en&format=open_graph"
    );
}

#[test]
fn table_by_language() {
    assert_eq!(record_table(true), "en");
    assert_eq!(record_table(false), "de");
}

#[test]
fn no_row_is_not_found() {
    assert_eq!(select_record(RecordLookup::Rows(vec![])).unwrap_err(), LookupError::NotFound);
}

#[test]
fn store_failure_is_internal() {
    assert_eq!(select_record(RecordLookup::Failed).unwrap_err(), LookupError::Internal);
}

#[test]
fn one_row_is_taken() {
    let found = select_record(RecordLookup::Rows(vec![record("Hörsaal 1")])).unwrap();
    assert_eq!(found.name, "Hörsaal 1");
    assert_eq!(found.kind_display_name, "Raum");
    assert_eq!(found.latitude_e7, 482_600_000);
    assert_eq!(found.longitude_e7, 116_700_000);
}

#[test]
fn first_of_several_rows_is_taken() {
    let rows = vec![record("first"), record("second"), record("third")];
    assert_eq!(select_record(RecordLookup::Rows(rows)).unwrap().name, "first");
}
