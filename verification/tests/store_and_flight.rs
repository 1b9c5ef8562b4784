use map_preview::flight::FlightTable;
use map_preview::store::{StoreStep, TileStore};
use map_preview::tiles::TileKey;

fn key(zoom: u32, column: u32, row: u32) -> TileKey {
    TileKey { zoom, column, row }
}

#[test]
fn first_to_ask_leads() {
    let mut t = FlightTable::new();
    assert!(!t.in_flight(key(1, 0, 0)));
    assert!(t.join(key(1, 0, 0), 7));
    assert!(t.in_flight(key(1, 0, 0)));
    assert_eq!(t.waiters(key(1, 0, 0)), vec![7]);
}

#[test]
fn concurrent_requests_for_one_tile_share_one_download() {
    let mut t = FlightTable::new();
    let k = key(17, 70000, 45000);
    let mut leaders = 0;
    for waiter in 0..25u64 {
        if t.join(k, waiter) {
            leaders += 1;
        }
    }
    assert_eq!(leaders, 1);
    let served = t.complete(k);
    assert_eq!(served, (0..25u64).collect::<Vec<u64>>());
    assert!(!t.in_flight(k));
}

#[test]
fn different_tiles_download_independently() {
    let mut t = FlightTable::new();
    let a = key(3, 1, 1);
    let b = key(3, 1, 2);
    assert!(t.join(a, 1));
    assert!(t.join(b, 2));
    assert!(!t.join(a, 3));
    assert!(!t.join(b, 4));
    assert_eq!(t.complete(a), vec![1, 3]);
    assert!(t.in_flight(b));
    assert_eq!(t.waiters(b), vec![2, 4]);
    assert_eq!(t.complete(b), vec![2, 4]);
}

#[test]
fn a_tile_can_fly_again_after_it_landed() {
    let mut t = FlightTable::new();
    let k = key(3, 1, 1);
    assert!(t.join(k, 1));
    assert_eq!(t.complete(k), vec![1]);
    assert!(t.join(k, 2));
    assert_eq!(t.complete(k), vec![2]);
}

#[test]
fn completing_what_is_not_in_flight_serves_nobody() {
    let mut t = FlightTable::new();
    assert!(t.complete(key(0, 0, 0)).is_empty());
    assert!(t.waiters(key(0, 0, 0)).is_empty());
    assert!(t.join(key(1, 1, 1), 5));
    assert!(t.complete(key(0, 0, 0)).is_empty());
    assert!(t.in_flight(key(1, 1, 1)));
}

#[test]
fn keys_differ_by_every_field() {
    let mut t = FlightTable::new();
    assert!(t.join(key(1, 2, 3), 0));
    assert!(t.join(key(2, 2, 3), 0));
    assert!(t.join(key(1, 3, 3), 0));
    assert!(t.join(key(1, 2, 4), 0));
    assert!(!t.join(key(1, 2, 3), 1));
}

#[test]
fn tile_paths() {
    let s = TileStore::new("/tmp/tiles".to_string());
    assert_eq!(s.path_of(key(17, 70000, 45000)), "/tmp/tiles/17_70000_45000.png");
    assert_eq!(s.path_of(key(0, 0, 0)), "/tmp/tiles/0_0_0.png");
    assert_eq!(s.path_of(key(9, 10, 109)), "/tmp/tiles/9_10_109.png");
    assert_eq!(
        s.path_of(key(u32::MAX, 1000, 4294967295)),
        "/tmp/tiles/4294967295_1000_4294967295.png"
    );
}

#[test]
fn download_is_written_beside_the_tile_first() {
    let s = TileStore::new("cache".to_string());
    let plan = s.persist_plan(key(5, 6, 7));
    assert_eq!(plan.path, "cache/5_6_7.png");
    assert_eq!(plan.temp, "cache/5_6_7.png.part");
}

#[test]
fn cached_tile_is_delivered() {
    let mut s = TileStore::new("cache".to_string());
    match s.request(key(1, 0, 0), 1, Some(vec![1, 2, 3])) {
        StoreStep::Deliver(bytes) => assert_eq!(bytes, vec![1, 2, 3]),
        other => panic!("{:?}", other),
    }
    // nothing was recorded: the next miss leads
    assert!(matches!(s.request(key(1, 0, 0), 2, None), StoreStep::Download));
}

#[test]
fn failed_download_reaches_every_waiter() {
    let mut s = TileStore::new("cache".to_string());
    let k = key(2, 1, 1);
    assert!(matches!(s.request(k, 1, None), StoreStep::Download));
    assert!(matches!(s.request(k, 2, None), StoreStep::Wait));
    let deliveries = s.finish(k, None);
    assert_eq!(deliveries.len(), 2);
    assert_eq!((deliveries[0].waiter, deliveries[1].waiter), (1, 2));
    assert!(deliveries.iter().all(|d| d.bytes.is_none()));
}

#[test]
fn misses_on_one_tile_coalesce() {
    let mut s = TileStore::new("cache".to_string());
    let k = key(1, 0, 0);
    assert!(matches!(s.request(k, 10, None), StoreStep::Download));
    assert!(matches!(s.request(k, 11, None), StoreStep::Wait));
    assert!(matches!(s.request(k, 12, None), StoreStep::Wait));
    assert!(matches!(s.request(key(1, 1, 0), 13, None), StoreStep::Download));
    let deliveries = s.finish(k, Some(vec![4, 5]));
    let waiters: Vec<u64> = deliveries.iter().map(|d| d.waiter).collect();
    assert_eq!(waiters, vec![10, 11, 12]);
    for d in &deliveries {
        assert_eq!(d.bytes, Some(vec![4, 5]));
    }
    assert!(s.finish(k, Some(vec![4, 5])).is_empty());
    // the file vanished after the download: the next miss downloads again
    assert!(matches!(s.request(k, 14, None), StoreStep::Download));
}
