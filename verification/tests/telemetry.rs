use mod_tile_rs::config::ModuleConfig;
use mod_tile_rs::slippy::{
    BodyVariant, HandleOutcome, HandleRequestResult, Header, HttpResponse, ReadOutcome, ResponseBody,
    ResponseHeader, ServeTileRequestV2, ServeTileRequestV3, SlippyRequest, SlippyResponse, TileResponse,
    WriteOutcome,
};
use mod_tile_rs::telemetry::counters::{CountingReadObserver, HandleCounter, ReadCounter, WriteCounter};
use mod_tile_rs::telemetry::interface::{CacheMetrics, RenderMetrics, ResponseMetrics, TileHandlingMetrics};
use mod_tile_rs::telemetry::inventory::TelemetryState;
use mod_tile_rs::telemetry::metrics::{CacheAnalysis, MetricsFactory, MetricsState, RenderAnalysis};
use mod_tile_rs::telemetry::observer::{HandleRequestObserver, ReadRequestObserver, WriteResponseObserver};
use mod_tile_rs::telemetry::response::ResponseAnalysis;
use mod_tile_rs::telemetry::tile_handling::TileHandlingAnalysis;
use mod_tile_rs::tile::{ContentEncoding, MediaType, TileAge, TileRef, TileSource};
use mod_tile_rs::time::Timestamp;
use std::rc::Rc;

const NANOS_PER_SECOND: i128 = 1_000_000_000;

fn tile_request_v3(layer: &str, z: u32) -> SlippyRequest {
    SlippyRequest {
        header: Header { layer: String::from(layer) },
        body: BodyVariant::ServeTileV3(ServeTileRequestV3 {
            parameter: String::from("foo"),
            x: 1,
            y: 2,
            z,
            extension: String::from("jpg"),
            option: None,
        }),
    }
}

fn tile_request_v2(layer: &str, z: u32) -> SlippyRequest {
    SlippyRequest {
        header: Header { layer: String::from(layer) },
        body: BodyVariant::ServeTileV2(ServeTileRequestV2 {
            x: 1,
            y: 2,
            z,
            extension: String::from("jpg"),
            option: None,
        }),
    }
}

fn description_request(layer: &str) -> SlippyRequest {
    SlippyRequest { header: Header { layer: String::from(layer) }, body: BodyVariant::DescribeLayer }
}

fn tile_ref() -> TileRef {
    TileRef {
        raw_bytes: Rc::new(Vec::new()),
        begin: 0,
        end: 1,
        media_type: MediaType::ImagePng,
        encoding: ContentEncoding::NotCompressed,
    }
}

fn tile_handled(source: TileSource, age: TileAge, seconds: i128) -> HandleOutcome {
    HandleOutcome::Processed(HandleRequestResult {
        before_timestamp: Timestamp { nanos: 0 },
        after_timestamp: Timestamp { nanos: seconds * NANOS_PER_SECOND },
        result: Ok(SlippyResponse {
            header: ResponseHeader { mime_type: MediaType::ApplicationJson },
            body: ResponseBody::Tile(TileResponse { source, age, tile_ref: tile_ref() }),
        }),
    })
}

fn description_handled() -> HandleOutcome {
    HandleOutcome::Processed(HandleRequestResult {
        before_timestamp: Timestamp { nanos: 0 },
        after_timestamp: Timestamp { nanos: 3 * NANOS_PER_SECOND },
        result: Ok(SlippyResponse {
            header: ResponseHeader { mime_type: MediaType::ApplicationJson },
            body: ResponseBody::Description(mod_tile_rs::handler::description::describe(
                &ModuleConfig::new(),
                &String::from("default"),
            )),
        }),
    })
}

fn written(status_code: u16) -> WriteOutcome {
    WriteOutcome::Processed(Ok(HttpResponse { status_code, bytes_written: 508, http_headers: Vec::new() }))
}

fn read(request: SlippyRequest) -> ReadOutcome {
    ReadOutcome::Processed(Ok(request))
}

#[test]
fn response_test_count_increment_on_tile_render() {
    let module_config = ModuleConfig::new();
    let read_outcome = read(tile_request_v3("default", 3));
    let handle_outcome = tile_handled(TileSource::Render, TileAge::Fresh, 2);
    let write_outcome = written(200);
    let mut analysis = ResponseAnalysis::new(&module_config).unwrap();
    analysis.on_write(&read_outcome, &handle_outcome, &write_outcome);
    assert_eq!(0, analysis.count_response_by_status_code_and_zoom_level(200, 5), "Response count does not default to 0");
    assert_eq!(0, analysis.count_response_by_status_code_and_zoom_level(400, 3), "Response count does not default to 0");
    assert_eq!(1, analysis.count_response_by_status_code_and_zoom_level(200, 3), "Response count not incremented");
    assert_eq!(0, analysis.count_tile_response_by_zoom_level(99), "Tile response count not incremented");
    assert_eq!(1, analysis.count_tile_response_by_zoom_level(3), "Tile response count not incremented");
    assert_eq!(0, analysis.tally_tile_response_duration_by_zoom_level(99), "Tile response duration not tallied");
    assert_eq!(2, analysis.tally_tile_response_duration_by_zoom_level(3), "Tile response duration not tallied");
    assert_eq!(0, analysis.count_response_by_layer_and_status_code(&String::from("foobar"), 200), "Response count not incremented");
    assert_eq!(0, analysis.count_response_by_layer_and_status_code(&String::from("default"), 400), "Response count not incremented");
    assert_eq!(1, analysis.count_response_by_layer_and_status_code(&String::from("default"), 200), "Response count not incremented");
}

#[test]
fn response_counts_tiles_and_codes_over_layers() {
    let module_config = ModuleConfig::new();
    let mut analysis = ResponseAnalysis::new(&module_config).unwrap();
    analysis.on_write(&read(tile_request_v2("a", 4)), &tile_handled(TileSource::Cache, TileAge::Old, 1), &written(200));
    analysis.on_write(&read(tile_request_v3("b", 4)), &tile_handled(TileSource::Render, TileAge::Fresh, 5), &written(200));
    analysis.on_write(&read(tile_request_v3("b", 7)), &HandleOutcome::Ignored, &written(404));
    assert_eq!(vec![200, 404], analysis.iterate_status_codes_responded());
    assert_eq!(vec![String::from("a"), String::from("b")], analysis.iterate_layers_responded());
    assert_eq!(0..21, analysis.iterate_valid_zoom_levels());
    assert_eq!(2, analysis.count_response_by_status_code(200));
    assert_eq!(1, analysis.count_response_by_status_code(404));
    assert_eq!(0, analysis.count_response_by_status_code(500));
    assert_eq!(2, analysis.count_response_by_zoom_level(4));
    assert_eq!(1, analysis.count_response_by_zoom_level(7));
    assert_eq!(2, analysis.count_total_tile_response());
    assert_eq!(6, analysis.tally_total_tile_response_duration());
    assert_eq!(2, analysis.count_tile_response_by_zoom_level(4));
    assert_eq!(0, analysis.count_tile_response_by_zoom_level(7));
    assert_eq!(6, analysis.tally_tile_response_duration_by_zoom_level(4));
    assert_eq!(1, analysis.count_response_by_layer_and_status_code(&String::from("b"), 404));
    assert_eq!(1, analysis.count_response_by_layer_and_status_code(&String::from("b"), 200));
    for code in analysis.iterate_status_codes_responded() {
        let by_layer: u64 = analysis
            .iterate_layers_responded()
            .iter()
            .map(|layer| analysis.count_response_by_layer_and_status_code(layer, code))
            .sum();
        assert_eq!(analysis.count_response_by_status_code(code), by_layer);
    }
}

#[test]
fn response_ignores_description_for_tile_counts() {
    let module_config = ModuleConfig::new();
    let mut analysis = ResponseAnalysis::new(&module_config).unwrap();
    analysis.on_write(&read(description_request("default")), &description_handled(), &written(200));
    assert_eq!(0, analysis.count_total_tile_response(), "Tile response count incremented on layer description response");
    assert_eq!(vec![200], analysis.iterate_status_codes_responded());
    assert_eq!(0, analysis.count_response_by_status_code(200));
    assert_eq!(0, analysis.count_response_by_zoom_level(0), "Response count incremented on layer description response");
    assert_eq!(0, analysis.tally_total_tile_response_duration());
}

#[test]
fn response_ignores_zoom_levels_beyond_the_server() {
    let module_config = ModuleConfig::new();
    let mut analysis = ResponseAnalysis::new(&module_config).unwrap();
    analysis.on_write(&read(tile_request_v3("default", 21)), &tile_handled(TileSource::Render, TileAge::Fresh, 2), &written(200));
    assert_eq!(0, analysis.count_total_tile_response(), "A tile response with an invalid zoom level was counted");
    assert_eq!(0, analysis.count_response_by_zoom_level(21));
    assert_eq!(0, analysis.count_response_by_status_code(200));
    assert_eq!(0, analysis.tally_total_tile_response_duration(), "An accrued duration exists for invalid zoom level");
}

#[test]
fn response_ignores_unread_requests() {
    let module_config = ModuleConfig::new();
    let mut analysis = ResponseAnalysis::new(&module_config).unwrap();
    analysis.on_write(&ReadOutcome::Ignored, &tile_handled(TileSource::Render, TileAge::Fresh, 2), &written(200));
    assert_eq!(0, analysis.count_response_by_status_code(200));
    assert!(analysis.iterate_layers_responded().is_empty());
}

#[test]
fn tile_handling_test_count_increment_on_tile_render() {
    let module_config = ModuleConfig::new();
    let mut analysis = TileHandlingAnalysis::new(&module_config).unwrap();
    analysis.on_write(&read(tile_request_v3("default", 3)), &tile_handled(TileSource::Render, TileAge::Fresh, 2), &written(200));
    assert_eq!(0, analysis.count_handled_tile_by_source_and_age(&TileSource::Cache, &TileAge::Old), "Tile handle count does not default to 0");
    assert_eq!(1, analysis.count_handled_tile_by_source_and_age(&TileSource::Render, &TileAge::Fresh), "Tile handle count not incremented");
}

#[test]
fn tile_handling_test_count_increment_on_tile_cache() {
    let module_config = ModuleConfig::new();
    let mut analysis = TileHandlingAnalysis::new(&module_config).unwrap();
    analysis.on_write(&read(tile_request_v3("default", 3)), &tile_handled(TileSource::Cache, TileAge::VeryOld, 2), &written(200));
    assert_eq!(0, analysis.count_handled_tile_by_source_and_age(&TileSource::Render, &TileAge::Old), "Tile handle count does not default to 0");
    assert_eq!(1, analysis.count_handled_tile_by_source_and_age(&TileSource::Cache, &TileAge::VeryOld), "Tile handle count not incremented");
}

#[test]
fn tile_handling_test_count_increment_on_tile_response_combinations() {
    let module_config = ModuleConfig::new();
    let mut analysis = TileHandlingAnalysis::new(&module_config).unwrap();
    let all_sources = [TileSource::Render, TileSource::Cache];
    let all_ages = [TileAge::Fresh, TileAge::Old, TileAge::VeryOld];
    let read_outcome = read(tile_request_v3("default", 3));
    for source in &all_sources {
        for age in &all_ages {
            let handle_outcome = tile_handled(*source, *age, 2);
            analysis.on_write(&read_outcome, &handle_outcome, &written(200));
            analysis.on_write(&read_outcome, &handle_outcome, &written(200));
        }
    }
    for age in &all_ages {
        assert_eq!(2, analysis.count_handled_tile_by_source_and_age(&TileSource::Cache, age), "Tile handle count not incremented");
        assert_eq!(2, analysis.count_handled_tile_by_source_and_age(&TileSource::Render, age), "Tile handle count not incremented");
        assert_eq!(4, analysis.tally_tile_handle_duration_by_source_and_age(&TileSource::Render, age));
    }
    assert_eq!(vec![TileAge::Fresh, TileAge::Old, TileAge::VeryOld], analysis.iterate_valid_cache_ages());
    assert_eq!(vec![TileAge::Fresh, TileAge::Old, TileAge::VeryOld], analysis.iterate_valid_render_ages());
}

#[test]
fn tile_handling_ignores_failed_handling() {
    let module_config = ModuleConfig::new();
    let mut analysis = TileHandlingAnalysis::new(&module_config).unwrap();
    analysis.on_write(&read(description_request("default")), &description_handled(), &written(200));
    analysis.on_write(&read(tile_request_v3("default", 3)), &HandleOutcome::Ignored, &written(404));
    assert_eq!(0, analysis.count_handled_tile_by_source_and_age(&TileSource::Render, &TileAge::Fresh));
    assert_eq!(0, analysis.tally_tile_handle_duration_by_source_and_age(&TileSource::Render, &TileAge::Fresh));
}

#[test]
fn cache_analysis_counts_cached_tiles_by_age() {
    let mut analysis = CacheAnalysis::new();
    let read_outcome = read(tile_request_v3("default", 3));
    analysis.on_handle(&read_outcome, &tile_handled(TileSource::Cache, TileAge::Old, 1));
    analysis.on_handle(&read_outcome, &tile_handled(TileSource::Cache, TileAge::Old, 1));
    analysis.on_handle(&read_outcome, &tile_handled(TileSource::Render, TileAge::Fresh, 1));
    assert_eq!(0, analysis.count_tile_cache_hit_by_age(&TileAge::Fresh));
    assert_eq!(2, analysis.count_tile_cache_hit_by_age(&TileAge::Old));
    assert_eq!(0, analysis.count_tile_cache_hit_by_age(&TileAge::VeryOld));
    assert_eq!(3, analysis.iterate_valid_cache_ages().len());
}

#[test]
fn render_analysis_counts_rendered_tiles_by_age() {
    let mut analysis = RenderAnalysis::new();
    let read_outcome = read(tile_request_v3("default", 3));
    analysis.on_write(&read_outcome, &tile_handled(TileSource::Render, TileAge::VeryOld, 1), &written(200));
    analysis.on_write(&read_outcome, &tile_handled(TileSource::Cache, TileAge::VeryOld, 1), &written(200));
    analysis.on_write(&ReadOutcome::Ignored, &tile_handled(TileSource::Render, TileAge::VeryOld, 1), &written(200));
    assert_eq!(1, analysis.count_tile_renders_by_age(&TileAge::VeryOld));
    assert_eq!(0, analysis.count_tile_renders_by_age(&TileAge::Fresh));
    assert_eq!(3, analysis.iterate_valid_render_ages().len());
}

#[test]
fn counters_count_every_stage() {
    let module_config = ModuleConfig::new();
    let read_outcome = read(tile_request_v3("default", 3));
    let handle_outcome = tile_handled(TileSource::Render, TileAge::Fresh, 2);
    let mut read_counter = ReadCounter::new(&module_config).unwrap();
    let mut handle_counter = HandleCounter::new(&module_config).unwrap();
    let mut write_counter = WriteCounter::new(&module_config).unwrap();
    let mut counting = CountingReadObserver::new();
    read_counter.on_read(&read_outcome);
    read_counter.on_read(&ReadOutcome::Ignored);
    handle_counter.on_handle(&read_outcome, &handle_outcome);
    write_counter.on_write(&read_outcome, &handle_outcome, &written(200));
    counting.on_read(&read_outcome);
    assert_eq!(2, read_counter.count);
    assert_eq!(1, handle_counter.count);
    assert_eq!(1, write_counter.count);
    assert_eq!(1, counting.count);
}

#[test]
fn telemetry_state_dispatches_each_stage() {
    let module_config = ModuleConfig::new();
    let mut telemetry = TelemetryState::new(&module_config).unwrap();
    let read_outcome = read(tile_request_v3("default", 3));
    let handle_outcome = tile_handled(TileSource::Cache, TileAge::Fresh, 2);
    telemetry.on_read(&read_outcome);
    telemetry.on_handle(&read_outcome, &handle_outcome);
    telemetry.on_write(&read_outcome, &handle_outcome, &written(200));
    assert_eq!(1, telemetry.read_counter().count);
    assert_eq!(1, telemetry.handle_counter().count);
    assert_eq!(1, telemetry.write_counter().count);
    assert_eq!(1, telemetry.response_metrics().count_tile_response_by_zoom_level(3));
    assert_eq!(1, telemetry.tile_handling_metrics().count_handled_tile_by_source_and_age(&TileSource::Cache, &TileAge::Fresh));
}

#[test]
fn metrics_factory_takes_the_state_metrics_by_default() {
    let module_config = ModuleConfig::new();
    let mut state = MetricsState::new(&module_config).unwrap();
    state.response_analysis.on_write(&read(tile_request_v3("default", 3)), &tile_handled(TileSource::Cache, TileAge::Fresh, 2), &written(200));
    let other = ResponseAnalysis::new(&module_config).unwrap();
    let factory = MetricsFactory::new();
    let inventory = factory.metrics_inventory(&state);
    assert_eq!(1, inventory.response_metrics.count_total_tile_response());
    let overriding = MetricsFactory { response_metrics: Some(&other), tile_handling_metrics: None };
    let inventory = overriding.metrics_inventory(&state);
    assert_eq!(0, inventory.response_metrics.count_total_tile_response());
}
