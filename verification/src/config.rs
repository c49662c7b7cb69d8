//! Module configuration: the renderd connection, the tile store and the layers served.

use vstd::prelude::*;
use crate::time::NANOS_PER_SECOND;
use vstd::string::*;

verus! {

/// The highest zoom level the server handles.
pub const MAX_ZOOM_SERVER: usize = 20;

/// The number of zoom levels the server handles: `0..=MAX_ZOOM_SERVER`.
pub const ZOOM_LEVEL_COUNT: usize = 21;

/// A span of time as the standard library holds one: whole seconds and the nanoseconds past them.
#[derive(Clone, Copy, Debug, PartialEq, Eq, Structural)]
pub struct StdDuration {
    pub secs: u64,
    pub nanos: u32,
}

impl StdDuration {
    /// Nanoseconds in the span.
    pub open spec fn total_nanos(self) -> int {
        self.secs * NANOS_PER_SECOND + self.nanos
    }

    /// A span of whole seconds.
    pub fn from_secs(secs: u64) -> (d: StdDuration)
        ensures
            d.secs == secs,
            d.nanos == 0,
    {
        StdDuration { secs, nanos: 0 }
    }
}

/// How the module reaches renderd and where the rendered meta tiles are stored.
#[derive(Clone, Debug)]
pub struct RenderdConfig {
    pub store_uri: String,
    pub ipc_uri: String,
    pub render_timeout: StdDuration,
    pub availability_timeout: StdDuration,
}

/// A layer of tiles as described to clients.
#[derive(Clone, Debug)]
pub struct LayerConfig {
    pub name: String,
    pub description: String,
    pub attribution: String,
    pub min_zoom: u32,
    pub max_zoom: u32,
    pub host_name: String,
    pub base_url: String,
    pub file_extension: String,
}

/// The whole configuration of the module.
#[derive(Clone, Debug)]
pub struct ModuleConfig {
    pub renderd: RenderdConfig,
    pub layers: Vec<LayerConfig>,
}

/// A configuration entry that cannot be used, and why.
#[derive(Clone, Debug, PartialEq, Eq)]
pub struct InvalidConfigError {
    pub entry: String,
    pub reason: String,
}

impl ModuleConfig {
    /// The default configuration: the standard store and socket locations and
    /// one layer named `default`, served from `http://localhost/osm` as PNG.
    pub fn new() -> (config: ModuleConfig)
        ensures
            config.layers@.len() == 1,
            config.layers@[0].name@ == "default"@,
            config.layers@[0].description@ == "default"@,
            config.layers@[0].attribution@ == ""@,
            config.layers@[0].host_name@ == "http://localhost"@,
            config.layers@[0].base_url@ == "/osm"@,
            config.layers@[0].file_extension@ == "png"@,
            config.layers@[0].min_zoom == 0,
            config.layers@[0].max_zoom == MAX_ZOOM_SERVER,
            config.renderd.store_uri@ == "/var/lib/mod_tile"@,
            config.renderd.ipc_uri@ == "/var/run/renderd/renderd.sock"@,
            config.renderd.render_timeout == StdDuration::from_secs_spec(3),
            config.renderd.availability_timeout == StdDuration::from_secs_spec(5),
            config.wf(),
    {
        let layer = LayerConfig {
            name: String::from_str("default"),
            description: String::from_str("default"),
            attribution: String::from_str(""),
            min_zoom: 0,
            max_zoom: 20,
            host_name: String::from_str("http://localhost"),
            base_url: String::from_str("/osm"),
            file_extension: String::from_str("png"),
        };
        let mut layers = Vec::new();
        layers.push(layer);
        ModuleConfig {
            renderd: RenderdConfig {
                store_uri: String::from_str("/var/lib/mod_tile"),
                ipc_uri: String::from_str("/var/run/renderd/renderd.sock"),
                render_timeout: StdDuration::from_secs(3),
                availability_timeout: StdDuration::from_secs(5),
            },
            layers,
        }
    }

    /// The layers are known by their names: no two have the same one.
    pub open spec fn wf(&self) -> bool {
        forall|i: int, j: int|
            0 <= i < j < self.layers@.len() ==> #[trigger] self.layers@[i].name@ != #[trigger] self.layers@[j].name@
    }

    /// Whether a layer of the given name is configured.
    pub open spec fn has_layer(&self, name: Seq<char>) -> bool {
        exists|i: int| 0 <= i < self.layers@.len() && #[trigger] self.layers@[i].name@ == name
    }

    /// The position of the first configured layer with the given name.
    pub fn find_layer(&self, name: &String) -> (r: Option<usize>)
        ensures
            r is None <==> !self.has_layer(name@),
            r matches Some(i) ==> i < self.layers@.len() && self.layers@[i as int].name@ == name@
                && forall|j: int| 0 <= j < i ==> self.layers@[j].name@ != name@,
            self.wf() ==> (r matches Some(i) ==> forall|j: int|
                0 <= j < self.layers@.len() && j != i ==> self.layers@[j].name@ != name@),
    {
        let mut i: usize = 0;
        while i < self.layers.len()
            invariant
                i <= self.layers@.len(),
                forall|j: int| 0 <= j < i ==> self.layers@[j].name@ != name@,
            decreases self.layers@.len() - i,
        {
            if self.layers[i].name == *name {
                return Some(i);
            }
            i = i + 1;
        }
        None
    }
}

impl StdDuration {
    /// A span of whole seconds, as a value.
    pub open spec fn from_secs_spec(secs: u64) -> StdDuration {
        StdDuration { secs, nanos: 0 }
    }
}

} // verus!
