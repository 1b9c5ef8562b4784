use map_preview::canvas::Canvas;
use map_preview::compose::FetchError;
use map_preview::format::{Language, PreviewFormat};
use map_preview::pipeline::{
    advance, begin, image_event, next_action, respond, Action, Event, Stage,
};
use map_preview::render::{preview_grid, render_base, Assets};
use map_preview::resolver::{
    AliasEntry, AliasLookup, LocationRecord, LookupError, RecordLookup,
};

const HOST: &str = "nav.tum.de";

fn default_image() -> Vec<u8> {
    vec![9, 8, 7, 6]
}

fn entry(key: &str) -> AliasEntry {
    AliasEntry { key: key.to_string(), visible_id: key.to_string(), kind: "room".to_string() }
}

fn record(name: &str) -> LocationRecord {
    LocationRecord {
        name: name.to_string(),
        calendar_url: None,
        last_calendar_scrape_at: None,
        kind: "room".to_string(),
        kind_display_name: "Raum".to_string(),
        latitude_e7: 482_600_000,
        longitude_e7: 116_700_000,
    }
}

fn filled(width: u32, height: u32, color: (u8, u8, u8, u8)) -> Canvas {
    let mut c = Canvas::new(width, height);
    c.fill_rows(0, height, color);
    c
}

#[test]
fn request_starts_with_the_cleaned_identifier() {
    match begin(" 5101.EG \t.001\n", Language::De, PreviewFormat::Square) {
        Stage::Start { id, lang, format } => {
            assert_eq!(id, "5101.EG.001");
            assert_eq!(lang, Language::De);
            assert_eq!(format, PreviewFormat::Square);
        }
        other => panic!("{:?}", other),
    }
}

#[test]
fn alias_redirects_permanently_and_keeps_the_options() {
    let stage = begin("A", Language::En, PreviewFormat::Square);
    let stage = advance(stage, Event::Alias(AliasLookup::Found(entry("B"))), HOST, &default_image());
    let response = respond(&stage).expect("the request has ended");
    assert_eq!(response.status, 308);
    assert_eq!(
        response.location.as_deref(),
        Some("https://nav.tum.de/api/preview/B?lang=en&format=square")
    );
    assert!(response.body.is_empty());
    assert_eq!(response.content_type, None);
}

#[test]
fn self_alias_falls_through_to_the_lookup() {
    let stage = begin("B", Language::De, PreviewFormat::OpenGraph);
    let stage = advance(stage, Event::Alias(AliasLookup::Found(entry("B"))), HOST, &default_image());
    assert!(respond(&stage).is_none());
    match next_action(&stage) {
        Action::FetchRecord { id, use_english } => {
            assert_eq!(id, "B");
            assert!(!use_english);
        }
        other => panic!("{:?}", other),
    }
}

#[test]
fn alias_failure_fails_open() {
    let stage = begin("B", Language::En, PreviewFormat::OpenGraph);
    let stage = advance(stage, Event::Alias(AliasLookup::Failed), HOST, &default_image());
    match next_action(&stage) {
        Action::FetchRecord { id, use_english } => {
            assert_eq!(id, "B");
            assert!(use_english);
        }
        other => panic!("{:?}", other),
    }
}

#[test]
fn unknown_key_is_not_found() {
    let stage = begin("nothing", Language::De, PreviewFormat::OpenGraph);
    let stage = advance(stage, Event::Alias(AliasLookup::Missing), HOST, &default_image());
    let stage = advance(stage, Event::Record(RecordLookup::Rows(vec![])), HOST, &default_image());
    assert!(matches!(stage, Stage::Failed { error: LookupError::NotFound }));
    let response = respond(&stage).unwrap();
    assert_eq!(response.status, 404);
    assert_eq!(response.content_type.as_deref(), Some("text/plain"));
    assert_eq!(response.body, b"Not found".to_vec());
    assert_eq!(response.location, None);
}

#[test]
fn store_failure_is_a_plain_500() {
    let stage = begin("x", Language::De, PreviewFormat::OpenGraph);
    let stage = advance(stage, Event::Alias(AliasLookup::Missing), HOST, &default_image());
    let stage = advance(stage, Event::Record(RecordLookup::Failed), HOST, &default_image());
    let response = respond(&stage).unwrap();
    assert_eq!(response.status, 500);
    assert_eq!(response.content_type.as_deref(), Some("text/plain"));
    assert_eq!(response.body, b"Internal Server Error".to_vec());
}

#[test]
fn failed_rendering_sends_the_default_image_as_success() {
    let stage = begin("x", Language::De, PreviewFormat::OpenGraph);
    let stage = advance(stage, Event::Alias(AliasLookup::Missing), HOST, &default_image());
    let stage =
        advance(stage, Event::Record(RecordLookup::Rows(vec![record("x")])), HOST, &default_image());
    assert!(matches!(next_action(&stage), Action::RenderImage));
    let event = image_event(Err(FetchError::Unavailable));
    let stage = advance(stage, event, HOST, &default_image());
    assert!(matches!(stage, Stage::FallbackImage { .. }));
    let response = respond(&stage).unwrap();
    assert_eq!(response.status, 200);
    assert_eq!(response.content_type.as_deref(), Some("image/png"));
    assert_eq!(response.body, default_image());
}

#[test]
fn canvas_without_a_png_file_falls_back_too() {
    assert!(matches!(image_event(Ok(Canvas::new(0, 0))), Event::Image(None)));
}

#[test]
fn events_out_of_turn_change_nothing() {
    let stage = begin("x", Language::De, PreviewFormat::OpenGraph);
    let stage = advance(stage, Event::Image(None), HOST, &default_image());
    assert!(matches!(stage, Stage::Start { .. }));
    let stage = advance(stage, Event::Record(RecordLookup::Failed), HOST, &default_image());
    assert!(matches!(stage, Stage::Start { .. }));
    let stage = advance(stage, Event::Alias(AliasLookup::Missing), HOST, &default_image());
    let stage = advance(stage, Event::Alias(AliasLookup::Found(entry("y"))), HOST, &default_image());
    assert!(matches!(stage, Stage::Lookup { .. }));
}

#[test]
fn ended_request_stays_ended() {
    let stage = Stage::Failed { error: LookupError::NotFound };
    let stage = advance(stage, Event::Alias(AliasLookup::Found(entry("y"))), HOST, &default_image());
    let stage = advance(stage, Event::Image(Some(vec![1])), HOST, &default_image());
    assert!(matches!(stage, Stage::Failed { error: LookupError::NotFound }));
    let stage = Stage::Rendered { body: vec![1, 2] };
    let stage = advance(stage, Event::Image(None), HOST, &default_image());
    assert_eq!(respond(&stage).unwrap().body, vec![1, 2]);
}

#[test]
fn room_preview_in_german_square() {
    let pin = filled(50, 80, (255, 0, 0, 255)).encode_png().unwrap();
    let logo = filled(100, 60, (0, 255, 0, 255)).encode_png().unwrap();
    let card = filled(8, 4, (90, 90, 90, 255)).encode_png().unwrap();
    let assets = Assets::load(&pin, &logo, &card).unwrap();

    let stage = begin("5101.EG.001", Language::De, PreviewFormat::Square);
    match next_action(&stage) {
        Action::LookupAlias { id } => assert_eq!(id, "5101.EG.001"),
        other => panic!("{:?}", other),
    }
    let stage = advance(stage, Event::Alias(AliasLookup::Missing), HOST, &assets.default_image);
    let rows = vec![record("Hörsaal 1")];
    let stage = advance(stage, Event::Record(RecordLookup::Rows(rows)), HOST, &assets.default_image);
    let (found, format) = match &stage {
        Stage::Render { record, format } => (record.clone(), *format),
        other => panic!("{:?}", other),
    };
    assert_eq!(format, PreviewFormat::Square);

    let grid = preview_grid(format, 1, 600, 400).unwrap();
    let tile = filled(512, 512, (200, 200, 200, 255)).encode_png().unwrap();
    let tiles: Vec<Option<Vec<u8>>> = grid.keys().iter().map(|_| Some(tile.clone())).collect();
    let (canvas, lines) = render_base(&grid, &tiles, &assets, &found).unwrap();
    assert_eq!(lines.title.text, "Hörsaal 1");
    assert_eq!(lines.subtitle.text, "Raum");
    // the pin's tip, the middle of its lower edge, is at the centre of the
    // map region: row (1200 - 125) / 2 - 1
    assert_eq!(canvas.pixel(600, 536), (255, 0, 0, 255));
    assert_eq!(canvas.pixel(600, 537), (200, 200, 200, 255));

    let stage = advance(stage, image_event(Ok(canvas)), HOST, &assets.default_image);
    let response = respond(&stage).unwrap();
    assert_eq!(response.status, 200);
    assert_eq!(response.content_type.as_deref(), Some("image/png"));
    let picture = Canvas::decode(&response.body).unwrap();
    assert_eq!((picture.width(), picture.height()), (1200, 1200));
    assert_eq!(picture.pixel(600, 1100), (255, 255, 255, 255));
}
