use mod_tile_rs::handler::statistics::report_metrics;
use mod_tile_rs::slippy::{LayerCount, Statistics};
use mod_tile_rs::telemetry::interface::{ResponseMetrics, TileHandlingMetrics};
use mod_tile_rs::tile::{TileAge, TileSource};

/// Response metrics that answer fixed figures, whether or not they add up.
struct FixedResponseMetrics {}

impl ResponseMetrics for FixedResponseMetrics {
    fn metrics_wf(&self) -> bool {
        unreachable!("a figure of the proofs")
    }

    fn status_codes_view(&self) -> vstd::seq::Seq<u16> {
        unreachable!("a figure of the proofs")
    }

    fn zoom_range_view(&self) -> (u32, u32) {
        unreachable!("a figure of the proofs")
    }

    fn layers_view(&self) -> vstd::seq::Seq<vstd::seq::Seq<char>> {
        unreachable!("a figure of the proofs")
    }

    fn response_count_by_status_code(&self, _code: u16) -> vstd::prelude::int {
        unreachable!("a figure of the proofs")
    }

    fn response_count_by_zoom_level(&self, _zoom: u32) -> vstd::prelude::int {
        unreachable!("a figure of the proofs")
    }

    fn response_count_by_status_code_and_zoom_level(&self, _code: u16, _zoom: u32) -> vstd::prelude::int {
        unreachable!("a figure of the proofs")
    }

    fn total_tile_response_count(&self) -> vstd::prelude::int {
        unreachable!("a figure of the proofs")
    }

    fn total_tile_response_seconds(&self) -> Option<vstd::prelude::int> {
        unreachable!("a figure of the proofs")
    }

    fn tile_response_count_by_zoom_level(&self, _zoom: u32) -> vstd::prelude::int {
        unreachable!("a figure of the proofs")
    }

    fn tile_response_seconds_by_zoom_level(&self, _zoom: u32) -> vstd::prelude::int {
        unreachable!("a figure of the proofs")
    }

    fn response_count_by_layer_and_status_code(&self, _layer: vstd::seq::Seq<char>, _code: u16) -> vstd::prelude::int {
        unreachable!("a figure of the proofs")
    }

    fn iterate_status_codes_responded(&self) -> Vec<u16> {
        vec![200]
    }

    fn iterate_valid_zoom_levels(&self) -> std::ops::Range<u32> {
        7..9
    }

    fn iterate_layers_responded(&self) -> Vec<String> {
        vec![String::from("default")]
    }

    fn count_response_by_status_code(&self, status_code: u16) -> u64 {
        assert_eq!(200, status_code);
        5
    }

    fn count_response_by_zoom_level(&self, zoom: u32) -> u64 {
        match zoom {
            7 => 2,
            8 => 3,
            _ => panic!("unexpected zoom level"),
        }
    }

    fn count_response_by_status_code_and_zoom_level(&self, _status_code: u16, _zoom: u32) -> u64 {
        panic!("not expected")
    }

    fn count_total_tile_response(&self) -> u64 {
        5
    }

    fn tally_total_tile_response_duration(&self) -> u64 {
        3
    }

    fn count_tile_response_by_zoom_level(&self, zoom: u32) -> u64 {
        match zoom {
            7 => 2,
            8 => 3,
            _ => panic!("unexpected zoom level"),
        }
    }

    fn tally_tile_response_duration_by_zoom_level(&self, zoom: u32) -> u64 {
        match zoom {
            7 => 1,
            8 => 2,
            _ => panic!("unexpected zoom level"),
        }
    }

    fn count_response_by_layer_and_status_code(&self, layer: &String, status_code: u16) -> u64 {
        assert_eq!("default", layer);
        match status_code {
            200 => 5,
            404 => 1,
            _ => panic!("unexpected status code"),
        }
    }
}

/// Tile handling metrics that answer fixed figures.
struct FixedTileHandlingMetrics {}

impl TileHandlingMetrics for FixedTileHandlingMetrics {
    fn metrics_wf(&self) -> bool {
        unreachable!("a figure of the proofs")
    }

    fn handled_tile_count(&self, _source: TileSource, _age: TileAge) -> vstd::prelude::int {
        unreachable!("a figure of the proofs")
    }

    fn handled_tile_seconds(&self, _source: TileSource, _age: TileAge) -> Option<vstd::prelude::int> {
        unreachable!("a figure of the proofs")
    }

    fn iterate_valid_cache_ages(&self) -> Vec<TileAge> {
        vec![TileAge::Fresh, TileAge::Old, TileAge::VeryOld]
    }

    fn iterate_valid_render_ages(&self) -> Vec<TileAge> {
        vec![TileAge::Fresh, TileAge::Old, TileAge::VeryOld]
    }

    fn count_handled_tile_by_source_and_age(&self, source: &TileSource, age: &TileAge) -> u64 {
        match (source, age) {
            (TileSource::Cache, TileAge::Fresh) => 2,
            (TileSource::Cache, TileAge::Old) => 1,
            (TileSource::Cache, TileAge::VeryOld) => 0,
            (TileSource::Render, TileAge::Fresh) => 1,
            (TileSource::Render, TileAge::Old) => 1,
            (TileSource::Render, TileAge::VeryOld) => 0,
        }
    }

    fn tally_tile_handle_duration_by_source_and_age(&self, _source: &TileSource, _age: &TileAge) -> u64 {
        0
    }
}

#[test]
fn test_handle_after_tile_render() {
    let actual = report_metrics(&FixedResponseMetrics {}, &FixedTileHandlingMetrics {});
    let mut expected_data = Statistics::new();
    expected_data.number_response_200 = 5;
    expected_data.number_fresh_cache = 2;
    expected_data.number_old_cache = 1;
    expected_data.number_fresh_render = 1;
    expected_data.number_old_render = 1;
    expected_data.number_successful_response_by_zoom[7] = 2;
    expected_data.number_successful_response_by_zoom[8] = 3;
    expected_data.number_tile_response_by_zoom[7] = 2;
    expected_data.number_tile_response_by_zoom[8] = 3;
    expected_data.total_number_tile_response = 5;
    expected_data.total_duration_tile_response = 3;
    expected_data.duration_tile_response_by_zoom[7] = 1;
    expected_data.duration_tile_response_by_zoom[8] = 2;
    expected_data.number_response_200_by_layer.push(LayerCount { layer: String::from("default"), count: 5 });
    expected_data.number_response_404_by_layer.push(LayerCount { layer: String::from("default"), count: 1 });
    assert_eq!(expected_data, actual, "Incorrect handling");
}
