use mod_tile_rs::communication::{BidirectionalChannel, CommunicationInventory};
use mod_tile_rs::config::ModuleConfig;
use mod_tile_rs::handler::context::HandleContext;
use mod_tile_rs::handler::description::{describe, DescriptionHandler};
use mod_tile_rs::handler::inventory::HandlerState;
use mod_tile_rs::handler::statistics::StatisticsHandlerState;
use mod_tile_rs::handler::tile::TileHandlerState;
use mod_tile_rs::slippy::{
    BodyVariant, HandleError, HandleOutcome, HandleRequestResult, Header, HttpResponse, LayerCount, ReadOutcome,
    ResponseBody, ResponseHeader, ServeTileRequestV2, SlippyRequest, SlippyResponse, Statistics, TileReadError,
    TileResponse, WriteOutcome,
};
use mod_tile_rs::storage::{FileReadError, FileSystem, Memcached, MetaTileFiles};
use mod_tile_rs::telemetry::inventory::TelemetryState;
use mod_tile_rs::tile::{ContentEncoding, MediaType, TileAge, TileRef, TileSource};
use mod_tile_rs::time::Timestamp;
use std::rc::Rc;

fn request(layer: &str, body: BodyVariant) -> SlippyRequest {
    SlippyRequest { header: Header { layer: String::from(layer) }, body }
}

fn tile_body(x: i32, y: i32, z: u32) -> BodyVariant {
    BodyVariant::ServeTileV2(ServeTileRequestV2 { x, y, z, extension: String::from("png"), option: None })
}

/// Meta tile files that all hold the same meta tile, whose tile `i` is the
/// single byte `i`; the paths read are kept.
struct SameMetaTile {
    paths: Vec<String>,
}

impl MetaTileFiles for SameMetaTile {
    fn read_file(&mut self, path: &str) -> Result<Vec<u8>, FileReadError> {
        self.paths.push(String::from(path));
        let mut bytes = Vec::new();
        bytes.extend_from_slice(b"META");
        for v in [64i32, 0, 0, 0] {
            bytes.extend_from_slice(&v.to_le_bytes());
        }
        for i in 0..64i32 {
            bytes.extend_from_slice(&(532 + i).to_le_bytes());
            bytes.extend_from_slice(&1i32.to_le_bytes());
        }
        for i in 0..64u8 {
            bytes.push(i);
        }
        Ok(bytes)
    }
}

#[test]
fn description_test_not_handled() {
    let mut layer_handler = DescriptionHandler {};
    let module_config = ModuleConfig::new();
    let telemetry = TelemetryState::new(&module_config).unwrap();
    let context = HandleContext::new(&module_config, &telemetry);
    let request = request("default", BodyVariant::ReportStatistics);
    assert!(layer_handler.handle(&context, &request).is_ignored(), "Expected to not handle");
}

#[test]
fn test_default_config_json() {
    let mut layer_handler = DescriptionHandler {};
    let module_config = ModuleConfig::new();
    let telemetry = TelemetryState::new(&module_config).unwrap();
    let context = HandleContext::new(&module_config, &telemetry);
    let request = request("default", BodyVariant::DescribeLayer);
    let layer_config = &module_config.layers[0];
    let expected_data = mod_tile_rs::slippy::Description {
        tilejson: String::from("2.0.0"),
        schema: String::from("xyz"),
        name: String::from("default"),
        description: layer_config.description.clone(),
        attribution: layer_config.attribution.clone(),
        minzoom: layer_config.min_zoom,
        maxzoom: layer_config.max_zoom,
        tiles: vec![String::from("http://localhost/osm/{z}/{x}/{y}.png")],
    };
    match layer_handler.handle(&context, &request) {
        HandleOutcome::Processed(result) => match result.result {
            Ok(response) => {
                assert_eq!(MediaType::ApplicationJson, response.header.mime_type, "Incorrect handling");
                match response.body {
                    ResponseBody::Description(description) => assert_eq!(expected_data, description, "Incorrect handling"),
                    _ => panic!("Incorrect handling"),
                }
            },
            Err(_) => panic!("Incorrect handling"),
        },
        HandleOutcome::Ignored => panic!("Incorrect handling"),
    }
}

#[test]
fn describe_takes_the_first_layer_of_the_name() {
    let mut module_config = ModuleConfig::new();
    let mut second = module_config.layers[0].clone();
    second.base_url = String::from("/other");
    second.name = String::from("default");
    module_config.layers.push(second);
    let description = describe(&module_config, &String::from("default"));
    assert_eq!(vec![String::from("http://localhost/osm/{z}/{x}/{y}.png")], description.tiles);
}

#[test]
fn statistics_test_not_handled() {
    let module_config = ModuleConfig::new();
    let telemetry = TelemetryState::new(&module_config).unwrap();
    let mut stat_state = StatisticsHandlerState::new(&module_config).unwrap();
    let context = HandleContext::new(&module_config, &telemetry);
    let request = request("default", BodyVariant::DescribeLayer);
    assert!(stat_state.handle(&context, &request).is_ignored(), "Expected to not handle");
}

fn tile_handled(source: TileSource, age: TileAge, seconds: i128) -> HandleOutcome {
    HandleOutcome::Processed(HandleRequestResult {
        before_timestamp: Timestamp { nanos: 0 },
        after_timestamp: Timestamp { nanos: seconds * 1_000_000_000 },
        result: Ok(SlippyResponse {
            header: ResponseHeader { mime_type: MediaType::ImagePng },
            body: ResponseBody::Tile(TileResponse {
                source,
                age,
                tile_ref: TileRef {
                    raw_bytes: Rc::new(Vec::new()),
                    begin: 0,
                    end: 0,
                    media_type: MediaType::ImagePng,
                    encoding: ContentEncoding::NotCompressed,
                },
            }),
        }),
    })
}

fn written(status_code: u16) -> WriteOutcome {
    WriteOutcome::Processed(Ok(HttpResponse { status_code, bytes_written: 0, http_headers: Vec::new() }))
}

#[test]
fn statistics_report_after_tile_responses() {
    let module_config = ModuleConfig::new();
    let mut telemetry = TelemetryState::new(&module_config).unwrap();
    let at_7 = ReadOutcome::Processed(Ok(request("default", tile_body(1, 2, 7))));
    let at_8 = ReadOutcome::Processed(Ok(request("default", tile_body(1, 2, 8))));
    let at_9 = ReadOutcome::Processed(Ok(request("default", tile_body(1, 2, 9))));
    telemetry.on_write(&at_7, &tile_handled(TileSource::Cache, TileAge::Fresh, 1), &written(200));
    telemetry.on_write(&at_7, &tile_handled(TileSource::Cache, TileAge::Fresh, 0), &written(200));
    telemetry.on_write(&at_8, &tile_handled(TileSource::Cache, TileAge::Old, 1), &written(200));
    telemetry.on_write(&at_8, &tile_handled(TileSource::Render, TileAge::Fresh, 1), &written(200));
    telemetry.on_write(&at_8, &tile_handled(TileSource::Render, TileAge::Old, 0), &written(200));
    telemetry.on_write(&at_9, &HandleOutcome::Ignored, &written(404));
    let mut handler_state = StatisticsHandlerState::new(&module_config).unwrap();
    let context = HandleContext::new(&module_config, &telemetry);
    let actual = match handler_state.handle(&context, &request("default", BodyVariant::ReportStatistics)) {
        HandleOutcome::Processed(result) => match result.result.ok().unwrap().body {
            ResponseBody::Statistics(statistics) => statistics,
            _ => panic!("Incorrect handling"),
        },
        HandleOutcome::Ignored => panic!("Incorrect handling"),
    };
    let mut expected_data = Statistics::new();
    expected_data.number_response_200 = 5;
    expected_data.number_response_404 = 1;
    expected_data.number_fresh_cache = 2;
    expected_data.number_old_cache = 1;
    expected_data.number_fresh_render = 1;
    expected_data.number_old_render = 1;
    expected_data.number_successful_response_by_zoom[7] = 2;
    expected_data.number_successful_response_by_zoom[8] = 3;
    expected_data.number_successful_response_by_zoom[9] = 1;
    expected_data.number_tile_response_by_zoom[7] = 2;
    expected_data.number_tile_response_by_zoom[8] = 3;
    expected_data.total_number_tile_response = 5;
    expected_data.total_duration_tile_response = 3;
    expected_data.duration_tile_response_by_zoom[7] = 1;
    expected_data.duration_tile_response_by_zoom[8] = 2;
    expected_data.number_response_200_by_layer.push(LayerCount { layer: String::from("default"), count: 5 });
    expected_data.number_response_404_by_layer.push(LayerCount { layer: String::from("default"), count: 1 });
    assert_eq!(expected_data, actual, "Incorrect handling");
}

#[test]
fn statistics_report_of_fresh_telemetry_is_zero() {
    let module_config = ModuleConfig::new();
    let telemetry = TelemetryState::new(&module_config).unwrap();
    let mut stat_state = StatisticsHandlerState::new(&module_config).unwrap();
    let context = HandleContext::new(&module_config, &telemetry);
    let request = request("default", BodyVariant::ReportStatistics);
    match stat_state.handle(&context, &request) {
        HandleOutcome::Processed(result) => {
            let response = result.result.ok().unwrap();
            assert_eq!(MediaType::TextPlain, response.header.mime_type);
            match response.body {
                ResponseBody::Statistics(statistics) => assert_eq!(Statistics::new(), statistics),
                _ => panic!("not a statistics report"),
            }
        },
        HandleOutcome::Ignored => panic!("not handled"),
    }
}

#[test]
fn statistics_report_sorts_status_codes() {
    let module_config = ModuleConfig::new();
    let mut telemetry = TelemetryState::new(&module_config).unwrap();
    let read_outcome = ReadOutcome::Processed(Ok(request("default", tile_body(1, 2, 3))));
    for code in [200u16, 304, 404, 503, 500, 418, 302, 200] {
        let write_outcome = WriteOutcome::Processed(Ok(HttpResponse { status_code: code, bytes_written: 0, http_headers: Vec::new() }));
        telemetry.on_write(&read_outcome, &HandleOutcome::Ignored, &write_outcome);
    }
    let stat_state = StatisticsHandlerState::new(&module_config).unwrap();
    let context = HandleContext::new(&module_config, &telemetry);
    let statistics = stat_state.report(&context);
    assert_eq!(2, statistics.number_response_200);
    assert_eq!(1, statistics.number_response_304);
    assert_eq!(1, statistics.number_response_404);
    assert_eq!(1, statistics.number_response_503);
    assert_eq!(1, statistics.number_response_5xx);
    assert_eq!(2, statistics.number_response_other);
    assert_eq!(8, statistics.number_successful_response_by_zoom[3]);
    assert_eq!(vec![LayerCount { layer: String::from("default"), count: 2 }], statistics.number_response_200_by_layer);
    assert_eq!(vec![LayerCount { layer: String::from("default"), count: 1 }], statistics.number_response_404_by_layer);
}

#[test]
fn tile_handler_reads_the_requested_tile() {
    let module_config = ModuleConfig::new();
    let telemetry = TelemetryState::new(&module_config).unwrap();
    let context = HandleContext::new(&module_config, &telemetry);
    let mut handler = TileHandlerState::new(&module_config).unwrap();
    let mut store = FileSystem::new(SameMetaTile { paths: Vec::new() });
    let outcome = handler.handle(&context, &mut store, &request("default", tile_body(5, 6, 7)));
    assert_eq!(vec![String::from("/var/lib/mod_tile/default/7/0/0/0/0/0.meta")], store.files().paths);
    match outcome {
        HandleOutcome::Processed(result) => {
            let response = result.result.ok().unwrap();
            assert_eq!(MediaType::ImagePng, response.header.mime_type);
            match response.body {
                ResponseBody::Tile(tile) => {
                    assert_eq!(TileSource::Cache, tile.source);
                    assert_eq!(TileAge::Fresh, tile.age);
                    assert_eq!(&[46u8][..], tile.tile_ref.tile_bytes());
                },
                _ => panic!("not a tile"),
            }
        },
        HandleOutcome::Ignored => panic!("not handled"),
    }
    let ignored = handler.handle(&context, &mut store, &request("default", BodyVariant::DescribeLayer));
    assert!(ignored.is_ignored());
    assert_eq!(1, store.files().paths.len(), "an ignored request reads nothing");
    assert_eq!(1, store.cache_len());
}

#[test]
fn tile_handler_passes_on_read_errors() {
    let module_config = ModuleConfig::new();
    let telemetry = TelemetryState::new(&module_config).unwrap();
    let context = HandleContext::new(&module_config, &telemetry);
    let mut handler = TileHandlerState::new(&module_config).unwrap();
    let mut store = Memcached::new();
    match handler.handle(&context, &mut store, &request("default", tile_body(0, 0, 0))) {
        HandleOutcome::Processed(HandleRequestResult { result: Err(HandleError::TileRead(TileReadError::NotFound(path))), .. }) => {
            assert_eq!("/var/lib/mod_tile/default/0/0/0/0/0/0.meta", path);
        },
        _ => panic!("expected a missing tile"),
    }
}

#[test]
fn tile_result_maps_the_read() {
    let tile_ref = TileRef {
        raw_bytes: Rc::new(vec![1, 2]),
        begin: 0,
        end: 2,
        media_type: MediaType::Other(String::from("image/webp")),
        encoding: ContentEncoding::Gzip,
    };
    match TileHandlerState::tile_result(Ok(tile_ref)) {
        Ok(SlippyResponse { header: ResponseHeader { mime_type }, body: ResponseBody::Tile(TileResponse { source, age, tile_ref }) }) => {
            assert_eq!(MediaType::Other(String::from("image/webp")), mime_type);
            assert_eq!(TileSource::Cache, source);
            assert_eq!(TileAge::Fresh, age);
            assert_eq!(ContentEncoding::Gzip, tile_ref.encoding);
        },
        _ => panic!("expected a tile"),
    }
    match TileHandlerState::tile_result(Err(TileReadError::Io(String::from("gone")))) {
        Err(HandleError::TileRead(TileReadError::Io(message))) => assert_eq!("gone", message),
        _ => panic!("expected the read error"),
    }
}

#[test]
fn handler_state_routes_every_request() {
    let module_config = ModuleConfig::new();
    let telemetry = TelemetryState::new(&module_config).unwrap();
    let context = HandleContext::new(&module_config, &telemetry);
    let mut handlers = HandlerState::new(&module_config).unwrap();
    let mut store = Memcached::new();
    for body in [BodyVariant::DescribeLayer, BodyVariant::ReportStatistics, tile_body(1, 1, 1)] {
        let is_tile = matches!(body, BodyVariant::ServeTileV2(_));
        match handlers.handle(&context, &mut store, &request("default", body)) {
            HandleOutcome::Processed(result) => assert_eq!(is_tile, result.result.is_err()),
            HandleOutcome::Ignored => panic!("a request was left unhandled"),
        }
    }
    let _ = Timestamp::now();
}

#[test]
fn handle_observers_count_each_handling() {
    let module_config = ModuleConfig::new();
    let mut telemetry = TelemetryState::new(&module_config).unwrap();
    let read_outcome = ReadOutcome::Processed(Ok(request("default", tile_body(1, 2, 3))));
    mod_tile_rs::handler::inventory::HandlerObserverInventory::on_handle(&mut telemetry, &read_outcome, &HandleOutcome::Ignored);
    mod_tile_rs::handler::inventory::HandlerObserverInventory::on_handle(&mut telemetry, &read_outcome, &HandleOutcome::Ignored);
    assert_eq!(2, telemetry.handle_counter().count);
    assert_eq!(0, telemetry.read_counter().count);
}

#[test]
fn contexts_hold_what_they_are_given() {
    let module_config = ModuleConfig::new();
    let context = mod_tile_rs::context::RequestContext::new(&module_config, String::from("localhost"), String::from("/osm/1/2/3.png"), 42);
    assert_eq!("/osm/1/2/3.png", context.uri);
    assert_eq!(42, context.request_time);
    assert_eq!("localhost", context.host_name);
    let mut store = Memcached::new();
    let mut channels = NoChannels { channel: NoChannel {} };
    let io = mod_tile_rs::context::IOContext::new(&mut channels, &mut store);
    let telemetry = TelemetryState::new(&module_config).unwrap();
    let handle_context = HandleContext::new(&module_config, &telemetry);
    let answer = io.communication.primary_renderd_comms().send_blocking_request(&handle_context, b"x", None);
    assert_eq!(Err(mod_tile_rs::communication::CommunicationError::TimeoutError), answer);
}

struct NoChannel {}

impl BidirectionalChannel for NoChannel {
    fn send_blocking_request(
        &mut self,
        _context: &HandleContext,
        _request: &[u8],
        _response_buffer: Option<Vec<u8>>,
    ) -> Result<Vec<u8>, mod_tile_rs::communication::CommunicationError> {
        Err(mod_tile_rs::communication::CommunicationError::TimeoutError)
    }
}

struct NoChannels {
    channel: NoChannel,
}

impl CommunicationInventory for NoChannels {
    type Channel = NoChannel;

    fn primary_renderd_comms(&mut self) -> &mut NoChannel {
        &mut self.channel
    }
}
