use mod_tile_rs::config::{ModuleConfig, StdDuration};
use mod_tile_rs::meta_tile::{
    detect_compression, detect_tile_count, verify_tile_lengths, InvalidCompressionError, InvalidMetaTileError,
    MetaTile, TileOffsetOutOfBoundsError, TilePath,
};
use mod_tile_rs::renderer::{create_request, TileRendererState, COMMAND_RENDER, PROTOCOL_VERSION_THREE};
use mod_tile_rs::slippy::{BodyVariant, Header, SlippyRequest, TileReadError};
use mod_tile_rs::storage::{FileReadError, FileSystem, Memcached, MetaTileFiles, TileStorage, MAX_CACHE_SIZE};
use mod_tile_rs::handler::context::HandleContext;
use mod_tile_rs::telemetry::inventory::TelemetryState;
use mod_tile_rs::text::{push_decimal, push_path};
use mod_tile_rs::tile::{all_tile_ages, ContentEncoding, MediaType, TileAge, TileIdentity};
use mod_tile_rs::time::{Duration, Timestamp, MAX_INSTANT_NANOS};

fn le(v: i32) -> [u8; 4] {
    v.to_le_bytes()
}

/// A meta tile whose tile `i` is the single byte `i`, right after the index.
fn meta_tile_bytes(magic: &[u8; 4], count: i32) -> Vec<u8> {
    let mut bytes = Vec::new();
    bytes.extend_from_slice(magic);
    bytes.extend_from_slice(&le(count));
    bytes.extend_from_slice(&le(0));
    bytes.extend_from_slice(&le(0));
    bytes.extend_from_slice(&le(0));
    for i in 0..64 {
        bytes.extend_from_slice(&le(532 + i));
        bytes.extend_from_slice(&le(1));
    }
    for i in 0..64u8 {
        bytes.push(i);
    }
    bytes
}

#[test]
fn meta_tile_selects_each_tile() {
    let meta_tile = MetaTile::from_bytes(meta_tile_bytes(b"META", 64)).unwrap();
    assert_eq!(64, meta_tile.tile_count());
    assert_eq!(ContentEncoding::NotCompressed, meta_tile.encoding());
    let tile = meta_tile.select(5).unwrap();
    assert_eq!(537, tile.begin);
    assert_eq!(538, tile.end);
    assert_eq!(MediaType::ImagePng, tile.media_type);
    assert_eq!(&[5u8][..], tile.tile_bytes());
    let entry = meta_tile.get_entry(63).unwrap();
    assert_eq!(532 + 63, entry.offset);
    assert_eq!(1, entry.size);
    assert_eq!(TileOffsetOutOfBoundsError { tile_offset: 64 }, meta_tile.select(64).err().unwrap());
}

#[test]
fn meta_tile_reads_compressed_tiles() {
    let meta_tile = MetaTile::from_bytes(meta_tile_bytes(b"METZ", 64)).unwrap();
    assert_eq!(ContentEncoding::Gzip, meta_tile.encoding());
    assert_eq!(ContentEncoding::Gzip, meta_tile.select(0).unwrap().encoding);
}

#[test]
fn meta_tile_refuses_broken_files() {
    assert_eq!(Some(InvalidMetaTileError::Truncated(10)), MetaTile::from_bytes(vec![0; 10]).err());
    let mut untagged = meta_tile_bytes(b"XY\0Z", 64);
    assert_eq!(
        Some(InvalidMetaTileError::InvalidCompression(InvalidCompressionError::InvalidTag(String::from("XY")))),
        MetaTile::from_bytes(untagged.clone()).err()
    );
    untagged.truncate(100);
    assert!(detect_compression(&untagged).is_err());
    assert_eq!(
        Some(InvalidMetaTileError::InvalidCompression(InvalidCompressionError::InvalidUtf8Tag)),
        MetaTile::from_bytes(meta_tile_bytes(b"ME\xffA", 64)).err()
    );
    assert_eq!(Ok(ContentEncoding::NotCompressed), detect_compression(&b"METAL\0".to_vec()));
    assert_eq!(Err(InvalidCompressionError::InvalidTag(String::from("MET"))), detect_compression(&b"MET".to_vec()));
    assert_eq!(Some(InvalidMetaTileError::InvalidTileCount(63)), MetaTile::from_bytes(meta_tile_bytes(b"META", 63)).err());
    let mut short = meta_tile_bytes(b"META", 64);
    short.truncate(100);
    assert_eq!(Some(InvalidMetaTileError::Truncated(100)), MetaTile::from_bytes(short).err());
    let mut oversized = meta_tile_bytes(b"META", 64);
    let position = 20 + 8 * 7 + 4;
    oversized[position..position + 4].copy_from_slice(&le(100));
    assert_eq!(Some(InvalidMetaTileError::InvalidTileLength(7)), MetaTile::from_bytes(oversized.clone()).err());
    assert_eq!(Err(InvalidMetaTileError::InvalidTileLength(7)), verify_tile_lengths(&oversized));
    assert_eq!(Ok(64), detect_tile_count(&oversized));
}

#[test]
fn meta_tile_last_byte_may_end_the_file() {
    let mut bytes = meta_tile_bytes(b"META", 64);
    let position = 20 + 8 * 63 + 4;
    bytes[position..position + 4].copy_from_slice(&le(2));
    assert!(MetaTile::from_bytes(bytes).is_ok());
}

#[test]
fn identity_to_path_follows_the_store_layout() {
    let config = ModuleConfig::new();
    let id = TileIdentity { x: 1 + 16 + 256, y: 2 + 32, z: 9, layer: String::from("default") };
    let path = MetaTile::identity_to_path(&config, &id);
    assert_eq!("/var/lib/mod_tile/default/9/0/0/16/18/0.meta", path.meta_tile_path);
    assert_eq!(8 * 1 + 2, path.tile_offset);
    let hash = MetaTile::calc_directory_hash(&id);
    assert_eq!([0, 18, 16, 0, 0], hash);
}

#[test]
fn memcached_finds_no_tile() {
    let config = ModuleConfig::new();
    let telemetry = TelemetryState::new(&config).unwrap();
    let context = HandleContext::new(&config, &telemetry);
    let mut store = Memcached::new();
    let id = TileIdentity { x: 8, y: 0, z: 3, layer: String::from("default") };
    assert_eq!(
        Err(TileReadError::NotFound(String::from("/var/lib/mod_tile/default/3/0/0/0/0/128.meta"))),
        store.read_tile(&context, &id).map(|_| ())
    );
    store.clean_up();
}

#[test]
fn render_request_is_a_blank_render_command() {
    let config = ModuleConfig::new();
    let request = SlippyRequest { header: Header { layer: String::from("default") }, body: BodyVariant::DescribeLayer };
    let message = create_request(&config.renderd, &request);
    assert_eq!(PROTOCOL_VERSION_THREE, message.ver);
    assert_eq!(3, message.ver);
    assert_eq!(COMMAND_RENDER, message.cmd);
    assert_eq!((0, 0, 0), (message.x, message.y, message.z));
    assert!(message.xmlname.iter().all(|b| *b == 0));
}

#[test]
fn renderer_state_takes_the_render_timeout() {
    let config = ModuleConfig::new();
    let state = TileRendererState::new(&config).ok().unwrap();
    assert_eq!(3_000_000_000, state.render_timeout.nanos);
    assert!(state.response_buffer.is_empty());
    let mut too_long = ModuleConfig::new();
    too_long.renderd.render_timeout = StdDuration { secs: u64::MAX, nanos: 0 };
    let error = TileRendererState::new(&too_long).err().unwrap();
    assert_eq!("render_timeout", error.entry);
    assert_eq!("Invalid duration range", error.reason);
    let mut longest = ModuleConfig::new();
    longest.renderd.render_timeout = StdDuration { secs: 9_223_372_036_854_775, nanos: 807_000_000 };
    assert_eq!(9_223_372_036_854_775_807_000_000, TileRendererState::new(&longest).ok().unwrap().render_timeout.nanos);
    longest.renderd.render_timeout = StdDuration { secs: 9_223_372_036_854_775, nanos: 807_000_001 };
    assert!(TileRendererState::new(&longest).is_err());
}

#[test]
fn text_and_time_building_blocks() {
    let mut s = String::from("n=");
    push_decimal(&mut s, 1234);
    assert_eq!("n=1234", s);
    push_decimal(&mut s, 0);
    assert_eq!("n=12340", s);
    let mut path = String::from("/a");
    push_path(&mut path, "b");
    assert_eq!("/a/b", path);
    push_path(&mut path, "/c");
    assert_eq!("/c", path);
    assert_eq!(-1, Duration { nanos: -1_500_000_000 }.num_seconds());
    assert_eq!(Duration { nanos: 3 }, Duration { nanos: 1 }.plus(&Duration { nanos: 2 }));
    let t = Timestamp::from_parts(-2, 500_000_000);
    assert_eq!(-1_500_000_000, t.nanos);
    assert_eq!(Duration { nanos: 1_500_000_000 }, Timestamp { nanos: 0 }.duration_since(&t));
    let now = Timestamp::now();
    assert!(now.nanos > 1_600_000_000 * 1_000_000_000);
    assert_eq!(vec![TileAge::Fresh, TileAge::Old, TileAge::VeryOld], all_tile_ages());
}

/// Meta tile files that all hold the same uncompressed meta tile, or none.
struct MetaTileDisk {
    missing: bool,
    reads: usize,
}

impl MetaTileFiles for MetaTileDisk {
    fn read_file(&mut self, _path: &str) -> Result<Vec<u8>, FileReadError> {
        self.reads += 1;
        if self.missing {
            Err(FileReadError::NotFound)
        } else {
            Ok(meta_tile_bytes(b"META", 64))
        }
    }
}

#[test]
fn file_system_picks_the_tile_out_of_its_meta_tile() {
    let config = ModuleConfig::new();
    let telemetry = TelemetryState::new(&config).unwrap();
    let context = HandleContext::new(&config, &telemetry);
    let mut store = FileSystem::new(MetaTileDisk { missing: false, reads: 0 });
    let tile = store.read_tile(&context, &TileIdentity { x: 9, y: 3, z: 4, layer: String::from("default") }).unwrap();
    assert_eq!(&[11u8][..], tile.tile_bytes());
    assert_eq!(MediaType::ImagePng, tile.media_type);
    let again = store.read_tile(&context, &TileIdentity { x: 10, y: 2, z: 4, layer: String::from("default") }).unwrap();
    assert_eq!(&[18u8][..], again.tile_bytes());
    assert_eq!(2, store.files().reads);
    assert_eq!(1, store.cache_len(), "the same meta tile is kept once");
    assert!(store.read_tile(&context, &TileIdentity { x: 16, y: 0, z: 4, layer: String::from("default") }).is_ok());
    assert_eq!(2, store.cache_len(), "another meta tile is kept besides");
}

#[test]
fn file_system_passes_on_missing_files() {
    let config = ModuleConfig::new();
    let telemetry = TelemetryState::new(&config).unwrap();
    let context = HandleContext::new(&config, &telemetry);
    let mut store = FileSystem::new(MetaTileDisk { missing: true, reads: 0 });
    let id = TileIdentity { x: 8, y: 0, z: 3, layer: String::from("default") };
    assert_eq!(
        Err(TileReadError::NotFound(String::from("/var/lib/mod_tile/default/3/0/0/0/0/128.meta"))),
        store.read_tile(&context, &id).map(|_| ())
    );
    assert_eq!(0, store.cache_len());
}

#[test]
fn file_system_clean_up_keeps_the_last_meta_tiles() {
    let config = ModuleConfig::new();
    let telemetry = TelemetryState::new(&config).unwrap();
    let context = HandleContext::new(&config, &telemetry);
    let mut store = FileSystem::new(MetaTileDisk { missing: false, reads: 0 });
    for k in 0..(MAX_CACHE_SIZE as i32 + 6) {
        let id = TileIdentity { x: 8 * k, y: 0, z: 20, layer: String::from("default") };
        assert!(store.read_tile(&context, &id).is_ok());
    }
    assert_eq!(MAX_CACHE_SIZE + 6, store.cache_len());
    store.clean_up();
    assert_eq!(MAX_CACHE_SIZE, store.cache_len());
    store.clean_up();
    assert_eq!(MAX_CACHE_SIZE, store.cache_len());
}

#[test]
fn file_system_answers_from_what_the_file_held() {
    let mut store = FileSystem::new(MetaTileDisk { missing: false, reads: 0 });
    let path = |offset: u32| TilePath { meta_tile_path: String::from("/store/a.meta"), tile_offset: offset };
    assert_eq!(
        Err(TileReadError::NotFound(String::from("/store/a.meta"))),
        store.tile_from_file(Err(FileReadError::NotFound), path(3)).map(|_| ())
    );
    assert_eq!(
        Err(TileReadError::Io(String::from("denied"))),
        store.tile_from_file(Err(FileReadError::Io(String::from("denied"))), path(3)).map(|_| ())
    );
    assert_eq!(
        Err(TileReadError::InvalidMetaTile(InvalidMetaTileError::Truncated(3))),
        store.tile_from_file(Ok(vec![1, 2, 3]), path(3)).map(|_| ())
    );
    assert_eq!(0, store.cache_len(), "nothing is kept of a file that is no meta tile");
    let tile = store.tile_from_file(Ok(meta_tile_bytes(b"METZ", 64)), path(3)).unwrap();
    assert_eq!(&[3u8][..], tile.tile_bytes());
    assert_eq!(ContentEncoding::Gzip, tile.encoding);
    assert_eq!(
        Err(TileReadError::TileOffsetOutOfBounds(TileOffsetOutOfBoundsError { tile_offset: 64 })),
        store.tile_from_file(Ok(meta_tile_bytes(b"META", 64)), path(64)).map(|_| ())
    );
    assert_eq!(1, store.cache_len(), "a meta tile is kept once under its path");
    assert_eq!(0, store.files().reads, "no file was read");
}

#[test]
fn clock_readings_before_the_epoch_are_negative() {
    assert_eq!(-2_500_000_000, Timestamp::from_clock_reading(Err((2, 500_000_000))).nanos);
    assert_eq!(1_000_000_005, Timestamp::from_clock_reading(Ok((1, 5))).nanos);
    assert_eq!(MAX_INSTANT_NANOS, Timestamp::from_clock_reading(Ok((u64::MAX, 0))).nanos);
    assert_eq!(-MAX_INSTANT_NANOS, Timestamp::from_clock_reading(Err((u64::MAX, 0))).nanos);
}
