use mod_tile_rs::config::ModuleConfig;
use mod_tile_rs::meta_tile::MetaTile;
use mod_tile_rs::slippy::{
    BodyVariant, HandleOutcome, HandleRequestResult, Header, HttpResponse, ReadOutcome, ResponseBody,
    ResponseHeader, ServeTileRequestV2, ServeTileRequestV3, SlippyRequest, SlippyResponse, TileResponse,
    WriteOutcome,
};
use mod_tile_rs::telemetry::interface::{ResponseMetrics, TileHandlingMetrics};
use mod_tile_rs::telemetry::observer::WriteResponseObserver;
use mod_tile_rs::telemetry::response::ResponseAnalysis;
use mod_tile_rs::telemetry::tile_handling::TileHandlingAnalysis;
use mod_tile_rs::tile::{ContentEncoding, MediaType, TileAge, TileIdentity, TileRef, TileSource};
use mod_tile_rs::time::Timestamp;
use std::rc::Rc;

const NANOS_PER_SECOND: i128 = 1_000_000_000;

fn tile_request_v3(layer: &str, z: u32) -> SlippyRequest {
    SlippyRequest {
        header: Header { layer: String::from(layer) },
        body: BodyVariant::ServeTileV3(ServeTileRequestV3 {
            parameter: String::from("foo"),
            x: 1,
            y: 2,
            z,
            extension: String::from("jpg"),
            option: None,
        }),
    }
}

fn tile_request_v2(layer: &str, z: u32) -> SlippyRequest {
    SlippyRequest {
        header: Header { layer: String::from(layer) },
        body: BodyVariant::ServeTileV2(ServeTileRequestV2 {
            x: 1,
            y: 2,
            z,
            extension: String::from("jpg"),
            option: None,
        }),
    }
}

fn description_request(layer: &str) -> SlippyRequest {
    SlippyRequest { header: Header { layer: String::from(layer) }, body: BodyVariant::DescribeLayer }
}

fn tile_ref() -> TileRef {
    TileRef {
        raw_bytes: Rc::new(Vec::new()),
        begin: 0,
        end: 1,
        media_type: MediaType::ImagePng,
        encoding: ContentEncoding::NotCompressed,
    }
}

fn tile_handled(source: TileSource, age: TileAge, seconds: i128) -> HandleOutcome {
    HandleOutcome::Processed(HandleRequestResult {
        before_timestamp: Timestamp { nanos: 0 },
        after_timestamp: Timestamp { nanos: seconds * NANOS_PER_SECOND },
        result: Ok(SlippyResponse {
            header: ResponseHeader { mime_type: MediaType::ApplicationJson },
            body: ResponseBody::Tile(TileResponse { source, age, tile_ref: tile_ref() }),
        }),
    })
}

fn description_handled() -> HandleOutcome {
    HandleOutcome::Processed(HandleRequestResult {
        before_timestamp: Timestamp { nanos: 0 },
        after_timestamp: Timestamp { nanos: 3 * NANOS_PER_SECOND },
        result: Ok(SlippyResponse {
            header: ResponseHeader { mime_type: MediaType::ApplicationJson },
            body: ResponseBody::Description(mod_tile_rs::handler::description::describe(
                &ModuleConfig::new(),
                &String::from("default"),
            )),
        }),
    })
}

fn written(status_code: u16) -> WriteOutcome {
    WriteOutcome::Processed(Ok(HttpResponse { status_code, bytes_written: 508, http_headers: Vec::new() }))
}

fn read(request: SlippyRequest) -> ReadOutcome {
    ReadOutcome::Processed(Ok(request))
}

fn identity(x: i32, y: i32) -> TileIdentity {
    TileIdentity { x, y, z: 12, layer: String::from("default") }
}

#[test]
fn tiles_of_a_meta_tile_share_its_file() {
    let config = ModuleConfig::new();
    let first = MetaTile::identity_to_path(&config, &identity(8 * 37, 8 * 41));
    for dx in 0..8 {
        for dy in 0..8 {
            let other = MetaTile::identity_to_path(&config, &identity(8 * 37 + dx, 8 * 41 + dy));
            assert_eq!(first.meta_tile_path, other.meta_tile_path);
        }
    }
    let neighbour = MetaTile::identity_to_path(&config, &identity(8 * 38, 8 * 41));
    assert_ne!(first.meta_tile_path, neighbour.meta_tile_path);
}

#[test]
fn tiles_of_a_meta_tile_have_distinct_offsets() {
    let mut offsets = Vec::new();
    for dx in 0..8 {
        for dy in 0..8 {
            let offset = MetaTile::calc_offset(&identity(8 * 5 + dx, 8 * 9 + dy));
            assert_eq!(offset / 8, dx as u32);
            assert_eq!(offset % 8, dy as u32);
            offsets.push(offset);
        }
    }
    offsets.sort();
    offsets.dedup();
    assert_eq!(64, offsets.len());
}

#[test]
fn directory_hash_tells_meta_tiles_apart() {
    let a = MetaTile::calc_directory_hash(&identity(0x12345, 0x6789));
    let b = MetaTile::calc_directory_hash(&identity(0x12345 | 7, 0x6789 & !7));
    let c = MetaTile::calc_directory_hash(&identity(0x12345 + 8, 0x6789));
    assert_eq!(a, b);
    assert_ne!(a, c);
}

#[test]
fn tile_response_counted_once_at_its_zoom() {
    let mut analysis = ResponseAnalysis::new(&ModuleConfig::new()).unwrap();
    let before: Vec<u64> = (0..21).map(|z| analysis.count_tile_response_by_zoom_level(z)).collect();
    analysis.on_write(&read(tile_request_v3("default", 11)), &tile_handled(TileSource::Cache, TileAge::Old, 1), &written(200));
    for z in 0..21u32 {
        let expected = before[z as usize] + if z == 11 { 1 } else { 0 };
        assert_eq!(expected, analysis.count_tile_response_by_zoom_level(z));
        let expected_http = if z == 11 { 1 } else { 0 };
        assert_eq!(expected_http, analysis.count_response_by_status_code_and_zoom_level(200, z));
        assert_eq!(0, analysis.count_response_by_status_code_and_zoom_level(404, z));
    }
}

#[test]
fn response_without_handled_zoom_counts_nothing() {
    let mut analysis = ResponseAnalysis::new(&ModuleConfig::new()).unwrap();
    analysis.on_write(&read(description_request("default")), &description_handled(), &written(200));
    analysis.on_write(&read(tile_request_v2("default", 25)), &HandleOutcome::Ignored, &written(404));
    assert_eq!(0, analysis.count_response_by_status_code(200));
    assert_eq!(0, analysis.count_response_by_status_code(404));
    for z in 0..21u32 {
        assert_eq!(0, analysis.count_response_by_zoom_level(z));
    }
}

#[test]
fn counts_add_up_over_zoom_levels_and_status_codes() {
    let mut analysis = ResponseAnalysis::new(&ModuleConfig::new()).unwrap();
    let events = [("a", 1, 200), ("b", 1, 404), ("a", 20, 200), ("c", 7, 503), ("a", 7, 304), ("b", 30, 200)];
    for (layer, z, code) in events.iter() {
        analysis.on_write(&read(tile_request_v3(layer, *z)), &tile_handled(TileSource::Render, TileAge::Fresh, 1), &written(*code));
    }
    let by_zoom_tiles: u64 = (0..21).map(|z| analysis.count_tile_response_by_zoom_level(z)).sum();
    assert_eq!(analysis.count_total_tile_response(), by_zoom_tiles);
    assert_eq!(5, by_zoom_tiles);
    let by_code: u64 = analysis.iterate_status_codes_responded().iter().map(|c| analysis.count_response_by_status_code(*c)).sum();
    let by_zoom: u64 = (0..21).map(|z| analysis.count_response_by_zoom_level(z)).sum();
    assert_eq!(by_code, by_zoom);
    assert_eq!(5, by_zoom);
}

#[test]
fn handled_tile_counted_once_by_source_and_age() {
    let mut analysis = TileHandlingAnalysis::new(&ModuleConfig::new()).unwrap();
    analysis.on_write(&read(tile_request_v2("x", 2)), &tile_handled(TileSource::Render, TileAge::VeryOld, 3), &written(200));
    for source in [TileSource::Render, TileSource::Cache] {
        for age in [TileAge::Fresh, TileAge::Old, TileAge::VeryOld] {
            let expected = if source == TileSource::Render && age == TileAge::VeryOld { 1 } else { 0 };
            assert_eq!(expected, analysis.count_handled_tile_by_source_and_age(&source, &age));
        }
    }
    assert_eq!(3, analysis.tally_tile_handle_duration_by_source_and_age(&TileSource::Render, &TileAge::VeryOld));
}
