//! The TileJSON description of a configured layer.

use vstd::prelude::*;
use crate::config::{LayerConfig, ModuleConfig};
use crate::handler::context::HandleContext;
use crate::slippy::{
    BodyVariant, Description, HandleOutcome, HandleRequestResult, ResponseBody, ResponseHeader,
    SlippyRequest, SlippyResponse,
};
use crate::tile::MediaType;
use crate::time::Timestamp;

verus! {

/// Whether `i` is the position of the first layer named `name`.
pub open spec fn is_first_layer(config: ModuleConfig, name: Seq<char>, i: int) -> bool {
    &&& 0 <= i < config.layers@.len()
    &&& config.layers@[i].name@ == name
    &&& forall|j: int| 0 <= j < i ==> config.layers@[j].name@ != name
}

/// The configuration of the layer named `name`: the first one of that name.
pub open spec fn layer_config(config: ModuleConfig, name: Seq<char>) -> LayerConfig
    recommends
        config.has_layer(name),
{
    config.layers@[choose|i: int| is_first_layer(config, name, i)]
}

/// The path of a tile below the base URL: `/{z}/{x}/{y}.`, before the extension.
pub open spec fn tile_path_template() -> Seq<char> {
    seq!['/', '{', 'z', '}', '/', '{', 'x', '}', '/', '{', 'y', '}', '.']
}

/// The URL template of the tiles of a layer.
pub open spec fn tiles_url(layer: LayerConfig) -> Seq<char> {
    layer.host_name@ + layer.base_url@ + tile_path_template() + layer.file_extension@
}

/// `d` is the TileJSON description of `layer`.
pub open spec fn describes(d: Description, layer: LayerConfig) -> bool {
    &&& d.tilejson@ == seq!['2', '.', '0', '.', '0']
    &&& d.schema@ == seq!['x', 'y', 'z']
    &&& d.name@ == layer.name@
    &&& d.description@ == layer.description@
    &&& d.attribution@ == layer.attribution@
    &&& d.minzoom == layer.min_zoom
    &&& d.maxzoom == layer.max_zoom
    &&& d.tiles@.len() == 1
    &&& d.tiles@[0]@ == tiles_url(layer)
}

/// The first layer of a name is the only position that is first for it.
pub proof fn lemma_first_layer_unique(config: ModuleConfig, name: Seq<char>, i: int, j: int)
    requires
        is_first_layer(config, name, i),
        is_first_layer(config, name, j),
    ensures
        i == j,
{
}

/// The TileJSON description of the configured layer named `layer`.
pub fn describe(config: &ModuleConfig, layer: &String) -> (d: Description)
    requires
        config.has_layer(layer@),
    ensures
        describes(d, layer_config(*config, layer@)),
{
    let i = match config.find_layer(layer) {
        Some(i) => i,
        None => {
            proof {
                assert(false);
            }
            0
        },
    };
    proof {
        assert(is_first_layer(*config, layer@, i as int));
        let k = choose|k: int| is_first_layer(*config, layer@, k);
        lemma_first_layer_unique(*config, layer@, i as int, k);
    }
    let layer_config = &config.layers[i];
    let template = "/{z}/{x}/{y}.";
    let mut tile = layer_config.host_name.clone();
    tile.append(layer_config.base_url.as_str());
    tile.append(template);
    tile.append(layer_config.file_extension.as_str());
    proof {
        reveal_strlit("/{z}/{x}/{y}.");
        assert(template@ =~= tile_path_template());
    }
    let mut tiles: Vec<String> = Vec::new();
    tiles.push(tile);
    let tilejson = String::from_str("2.0.0");
    let schema = String::from_str("xyz");
    proof {
        reveal_strlit("2.0.0");
        reveal_strlit("xyz");
        assert(tilejson@ =~= seq!['2', '.', '0', '.', '0']);
        assert(schema@ =~= seq!['x', 'y', 'z']);
    }
    Description {
        tilejson,
        schema,
        name: layer_config.name.clone(),
        description: layer_config.description.clone(),
        attribution: layer_config.attribution.clone(),
        minzoom: layer_config.min_zoom,
        maxzoom: layer_config.max_zoom,
        tiles,
    }
}

/// Answers the requests for the description of a layer.
pub struct DescriptionHandler {}

impl DescriptionHandler {
    /// Describes the layer of a description request, as JSON; leaves every
    /// other request to another handler.
    pub fn handle(&mut self, context: &HandleContext, request: &SlippyRequest) -> (outcome: HandleOutcome)
        requires
            request.body is DescribeLayer ==> context.module_config.has_layer(request.header.layer@),
        ensures
            !(request.body is DescribeLayer) <==> outcome is Ignored,
            outcome matches HandleOutcome::Processed(r) ==> {
                &&& r.before_timestamp.wf()
                &&& r.after_timestamp.wf()
                &&& r.result matches Ok(response)
                &&& response.header.mime_type == MediaType::ApplicationJson
                &&& response.body matches ResponseBody::Description(d)
                &&& describes(d, layer_config(*context.module_config, request.header.layer@))
            },
    {
        let before_timestamp = Timestamp::now();
        match request.body {
            BodyVariant::DescribeLayer => {},
            _ => {
                return HandleOutcome::Ignored;
            },
        }
        let description = describe(context.module_config, &request.header.layer);
        let response = SlippyResponse {
            header: ResponseHeader { mime_type: MediaType::ApplicationJson },
            body: ResponseBody::Description(description),
        };
        let after_timestamp = Timestamp::now();
        HandleOutcome::Processed(HandleRequestResult { before_timestamp, after_timestamp, result: Ok(response) })
    }
}

} // verus!
