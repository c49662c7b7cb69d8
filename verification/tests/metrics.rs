use mod_tile_rs::config::ModuleConfig;
use mod_tile_rs::slippy::{
    BodyVariant, HandleOutcome, HandleRequestResult, Header, HttpResponse, ReadOutcome, ResponseBody,
    ResponseHeader, ServeTileRequestV2, ServeTileRequestV3, SlippyRequest, SlippyResponse, TileResponse,
    WriteOutcome,
};
use mod_tile_rs::telemetry::interface::{CacheMetrics, RenderMetrics, ResponseMetrics};
use mod_tile_rs::telemetry::metrics::response::ResponseAnalysis;
use mod_tile_rs::telemetry::observer::{HandleRequestObserver, WriteResponseObserver};
use mod_tile_rs::tile::{ContentEncoding, MediaType, TileAge, TileRef, TileSource};
use mod_tile_rs::time::Timestamp;
use std::rc::Rc;

const NANOS_PER_SECOND: i128 = 1_000_000_000;

fn tile_request_v3(layer: &str, z: u32) -> SlippyRequest {
    SlippyRequest {
        header: Header { layer: String::from(layer) },
        body: BodyVariant::ServeTileV3(ServeTileRequestV3 {
            parameter: String::from("foo"),
            x: 1,
            y: 2,
            z,
            extension: String::from("jpg"),
            option: None,
        }),
    }
}

fn tile_request_v2(layer: &str, z: u32) -> SlippyRequest {
    SlippyRequest {
        header: Header { layer: String::from(layer) },
        body: BodyVariant::ServeTileV2(ServeTileRequestV2 {
            x: 1,
            y: 2,
            z,
            extension: String::from("jpg"),
            option: None,
        }),
    }
}

fn description_request(layer: &str) -> SlippyRequest {
    SlippyRequest { header: Header { layer: String::from(layer) }, body: BodyVariant::DescribeLayer }
}

fn tile_ref() -> TileRef {
    TileRef {
        raw_bytes: Rc::new(Vec::new()),
        begin: 0,
        end: 1,
        media_type: MediaType::ImagePng,
        encoding: ContentEncoding::NotCompressed,
    }
}

fn tile_handled(source: TileSource, age: TileAge, seconds: i128) -> HandleOutcome {
    HandleOutcome::Processed(HandleRequestResult {
        before_timestamp: Timestamp { nanos: 0 },
        after_timestamp: Timestamp { nanos: seconds * NANOS_PER_SECOND },
        result: Ok(SlippyResponse {
            header: ResponseHeader { mime_type: MediaType::ApplicationJson },
            body: ResponseBody::Tile(TileResponse { source, age, tile_ref: tile_ref() }),
        }),
    })
}

fn description_handled() -> HandleOutcome {
    HandleOutcome::Processed(HandleRequestResult {
        before_timestamp: Timestamp { nanos: 0 },
        after_timestamp: Timestamp { nanos: 3 * NANOS_PER_SECOND },
        result: Ok(SlippyResponse {
            header: ResponseHeader { mime_type: MediaType::ApplicationJson },
            body: ResponseBody::Description(mod_tile_rs::handler::description::describe(
                &ModuleConfig::new(),
                &String::from("default"),
            )),
        }),
    })
}

fn written(status_code: u16) -> WriteOutcome {
    WriteOutcome::Processed(Ok(HttpResponse { status_code, bytes_written: 508, http_headers: Vec::new() }))
}

fn read(request: SlippyRequest) -> ReadOutcome {
    ReadOutcome::Processed(Ok(request))
}

#[test]
fn test_tile_handle_duration_accural_on_serve_tile_handle() {
    let mut analysis = ResponseAnalysis::new();
    analysis.on_handle(&read(tile_request_v3("default", 3)), &tile_handled(TileSource::Render, TileAge::Fresh, 2));
    assert_eq!(2, analysis.tally_tile_response_duration_by_zoom_level(3), "Handle duration not accrued");
    assert_eq!(0, analysis.tally_tile_response_duration_by_zoom_level(2), "Handle duration does not default to 0");
}

#[test]
fn test_tile_handle_duration_accural_on_description_handle() {
    let mut analysis = ResponseAnalysis::new();
    analysis.on_handle(&read(description_request("default")), &description_handled());
    assert_eq!(0, analysis.tally_total_tile_response_duration(), "Tile handle duration accrued on layer description handle");
}

#[test]
fn test_tile_handle_duration_accural_on_invalid_zoom_level() {
    let mut analysis = ResponseAnalysis::new();
    analysis.on_handle(&read(tile_request_v2("default", 21)), &tile_handled(TileSource::Render, TileAge::Fresh, 2));
    assert_eq!(0, analysis.tally_total_tile_response_duration(), "An accrued duration exists for invalid zoom level");
    assert_eq!(1, analysis.count_total_tile_response());
}

#[test]
fn test_count_increment_on_serve_tile_v3_write() {
    let mut analysis = ResponseAnalysis::new();
    analysis.on_write(&read(tile_request_v3("default", 3)), &tile_handled(TileSource::Render, TileAge::Fresh, 2), &written(200));
    assert_eq!(1, analysis.count_response_by_status_code_and_zoom_level(200, 3), "Response count not updated");
    assert_eq!(0, analysis.count_response_by_status_code_and_zoom_level(200, 2), "Response count does not default to 0");
    assert_eq!(1, analysis.count_tile_response_by_zoom_level(3), "Tile count not updated");
    assert_eq!(0, analysis.count_tile_response_by_zoom_level(2), "Tile count does not default to 0");
}

#[test]
fn metrics_test_count_increment_on_tile_render() {
    let mut analysis = ResponseAnalysis::new();
    analysis.on_handle(&read(tile_request_v3("default", 3)), &tile_handled(TileSource::Render, TileAge::Fresh, 2));
    assert_eq!(0, analysis.count_tile_cache_hit_by_age(&TileAge::Old), "Tile handle count does not default to 0");
    assert_eq!(1, analysis.count_tile_renders_by_age(&TileAge::Fresh), "Tile handle count not incremented");
}

#[test]
fn response_test_count_increment_on_tile_cache() {
    let mut analysis = ResponseAnalysis::new();
    analysis.on_handle(&read(tile_request_v3("default", 3)), &tile_handled(TileSource::Cache, TileAge::VeryOld, 2));
    assert_eq!(0, analysis.count_tile_renders_by_age(&TileAge::Old), "Tile handle count does not default to 0");
    assert_eq!(1, analysis.count_tile_cache_hit_by_age(&TileAge::VeryOld), "Tile handle count not incremented");
}

#[test]
fn response_test_count_increment_on_tile_response_combinations() {
    let mut analysis = ResponseAnalysis::new();
    let read_outcome = read(tile_request_v3("default", 3));
    let all_sources = [TileSource::Render, TileSource::Cache];
    let all_ages = [TileAge::Fresh, TileAge::Old, TileAge::VeryOld];
    for source in &all_sources {
        for age in &all_ages {
            let handle_outcome = tile_handled(*source, *age, 2);
            analysis.on_handle(&read_outcome, &handle_outcome);
            analysis.on_handle(&read_outcome, &handle_outcome);
        }
    }
    for age in &all_ages {
        assert_eq!(2, analysis.count_tile_cache_hit_by_age(age), "Tile handle count not incremented");
        assert_eq!(2, analysis.count_tile_renders_by_age(age), "Tile handle count not incremented");
    }
    assert_eq!(12, analysis.count_total_tile_response());
    assert_eq!(24, analysis.tally_total_tile_response_duration());
}

#[test]
fn test_count_increment_on_serve_tile_v2_write() {
    let mut analysis = ResponseAnalysis::new();
    analysis.on_write(&read(tile_request_v2("default", 3)), &tile_handled(TileSource::Render, TileAge::Fresh, 2), &written(200));
    assert_eq!(1, analysis.count_response_by_status_code_and_zoom_level(200, 3), "Response count not updated");
    assert_eq!(0, analysis.count_response_by_status_code_and_zoom_level(200, 2), "Response count does not default to 0");
    assert_eq!(1, analysis.count_tile_response_by_zoom_level(3), "Tile count not updated");
    assert_eq!(0, analysis.count_tile_response_by_zoom_level(2), "Tile count does not default to 0");
}

#[test]
fn test_no_increment_on_description_write() {
    let mut analysis = ResponseAnalysis::new();
    analysis.on_write(&read(description_request("default")), &description_handled(), &written(200));
    assert_eq!(0, analysis.count_response_by_status_code(200), "Response count incremented on layer description response");
    assert_eq!(0, analysis.count_total_tile_response(), "Tile response count incremented on layer description response");
    assert_eq!(vec![200], analysis.iterate_status_codes_responded());
}

#[test]
fn test_reponse_count_increment_on_invalid_zoom_level() {
    let mut analysis = ResponseAnalysis::new();
    analysis.on_write(&read(tile_request_v2("default", 21)), &tile_handled(TileSource::Render, TileAge::Fresh, 2), &written(200));
    assert_eq!(0, analysis.count_total_tile_response(), "A tile response with an invalid zoom level was counted");
    assert_eq!(0, analysis.count_tile_response_by_zoom_level(21));
    assert_eq!(0, analysis.count_response_by_zoom_level(21));
}

#[test]
fn metrics_count_responses_by_code_and_zoom() {
    let mut analysis = ResponseAnalysis::new();
    analysis.on_write(&read(tile_request_v2("a", 4)), &HandleOutcome::Ignored, &written(404));
    analysis.on_write(&read(tile_request_v3("b", 4)), &HandleOutcome::Ignored, &written(200));
    analysis.on_write(&read(tile_request_v3("b", 5)), &HandleOutcome::Ignored, &written(200));
    assert_eq!(vec![404, 200], analysis.iterate_status_codes_responded());
    assert_eq!(2, analysis.count_response_by_status_code(200));
    assert_eq!(2, analysis.count_response_by_zoom_level(4));
    assert_eq!(1, analysis.count_response_by_status_code_and_zoom_level(404, 4));
    assert!(analysis.iterate_layers_responded().is_empty());
    assert_eq!(0, analysis.count_response_by_layer_and_status_code(&String::from("b"), 200));
    assert_eq!(0..21, analysis.iterate_valid_zoom_levels());
}

#[test]
fn cache_hits_and_renders_add_up_to_tile_responses() {
    let mut analysis = ResponseAnalysis::new();
    let read_outcome = read(tile_request_v3("default", 3));
    analysis.on_handle(&read_outcome, &tile_handled(TileSource::Cache, TileAge::Old, 1));
    analysis.on_handle(&read_outcome, &tile_handled(TileSource::Render, TileAge::VeryOld, 1));
    analysis.on_handle(&read_outcome, &tile_handled(TileSource::Render, TileAge::VeryOld, 1));
    let ages = [TileAge::Fresh, TileAge::Old, TileAge::VeryOld];
    let hits: u64 = ages.iter().map(|a| analysis.count_tile_cache_hit_by_age(a)).sum();
    let renders: u64 = ages.iter().map(|a| analysis.count_tile_renders_by_age(a)).sum();
    assert_eq!(1, hits);
    assert_eq!(2, renders);
    assert_eq!(hits + renders, analysis.count_total_tile_response());
}
