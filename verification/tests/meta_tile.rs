use mod_tile_rs::meta_tile::MetaTile;
use mod_tile_rs::tile::TileIdentity;

#[test]
fn test_calc_offset_x_positive_y_positive_small() {
    let id1 = TileIdentity {
        x: 0 + 0 + 1,
        y: 4 + 2 + 1,
        z: 5,
        layer: String::from("default"),
    };
    let offset1 = MetaTile::calc_offset(&id1);
    assert_eq!((8 * 1) + 7, offset1, "Incorrect offset calculation");

    let id2 = TileIdentity {
        x: 0 + 2 + 1,
        y: 4 + 2 + 1,
        z: 5,
        layer: String::from("default"),
    };
    let offset2 = MetaTile::calc_offset(&id2);
    assert_eq!((8 * 3) + 7, offset2, "Incorrect offset calculation");

    let id3 = TileIdentity {
        x: 0 + 2 + 1,
        y: 4 + 2 + 0,
        z: 5,
        layer: String::from("default"),
    };
    let offset3 = MetaTile::calc_offset(&id3);
    assert_eq!((8 * 3) + 6, offset3, "Incorrect offset calculation");
}

#[test]
fn test_calc_offset_x_positive_y_positive_large() {
    let id1 = TileIdentity {
        x: 32 + 0 + 0 + 4 + 0 + 1,
        y: 0 + 16 + 0 + 0 + 2 + 1,
        z: 3,
        layer: String::from("default"),
    };
    let offset1 = MetaTile::calc_offset(&id1);
    assert_eq!((8 * 5) + 3, offset1, "Incorrect offset calculation");

    let id2 = TileIdentity {
        x: 32 + 0 + 8 + 4 + 0 + 1,
        y: 0 + 16 + 0 + 0 + 2 + 1,
        z: 3,
        layer: String::from("default"),
    };
    let offset2 = MetaTile::calc_offset(&id2);
    assert_eq!((8 * 5) + 3, offset2, "Incorrect offset calculation");

    let id3 = TileIdentity {
        x: 32 + 0 + 8 + 4 + 0 + 1,
        y: 32 + 16 + 0 + 0 + 2 + 1,
        z: 3,
        layer: String::from("default"),
    };
    let offset3 = MetaTile::calc_offset(&id3);
    assert_eq!((8 * 5) + 3, offset3, "Incorrect offset calculation");
}

#[test]
fn test_calc_dir_hash_x_positive_y_positive() {
    let id1 = TileIdentity {
        x: 000000 + 000000 + 000000 + 65536 + 00000 + 00000 + 0000 + 4096 + 0000 + 0000 + 000 + 256 + 000 + 00 + 00 + 16 + 0 + 4 + 2 + 1,
        y: 000000 + 000000 + 000000 + 00000 + 00000 + 00000 + 0000 + 0000 + 0000 + 0000 + 000 + 000 + 000 + 00 + 00 + 00 + 0 + 4 + 2 + 1,
        z: 5,
        layer: String::from("default"),
    };
    let hash1 = MetaTile::calc_directory_hash(&id1);
    assert_eq!(0, hash1[0], "Incorrect directory hash calculation");
    assert_eq!(16, hash1[1], "Incorrect directory hash calculation");
    assert_eq!(16, hash1[2], "Incorrect directory hash calculation");
    assert_eq!(16, hash1[3], "Incorrect directory hash calculation");
    assert_eq!(16, hash1[4], "Incorrect directory hash calculation");

    let id2 = TileIdentity {
        x: 524288 + 000000 + 000000 + 00000 + 32768 + 00000 + 0000 + 0000 + 2048 + 0000 + 000 + 000 + 128 + 00 + 00 + 00 + 8 + 0 + 0 + 1,
        y: 000000 + 000000 + 000000 + 00000 + 00000 + 00000 + 0000 + 0000 + 0000 + 0000 + 000 + 000 + 000 + 00 + 00 + 00 + 0 + 4 + 2 + 1,
        z: 5,
        layer: String::from("default"),
    };
    let hash2 = MetaTile::calc_directory_hash(&id2);
    assert_eq!(128, hash2[0], "Incorrect directory hash calculation");
    assert_eq!(128, hash2[1], "Incorrect directory hash calculation");
    assert_eq!(128, hash2[2], "Incorrect directory hash calculation");
    assert_eq!(128, hash2[3], "Incorrect directory hash calculation");
    assert_eq!(128, hash2[4], "Incorrect directory hash calculation");

    let id3 = TileIdentity {
        x: 524288 + 000000 + 000000 + 00000 + 32768 + 00000 + 0000 + 0000 + 2048 + 0000 + 000 + 000 + 128 + 00 + 00 + 00 + 8 + 0 + 0 + 1,
        y: 000000 + 000000 + 000000 + 65536 + 00000 + 00000 + 0000 + 4096 + 0000 + 0000 + 000 + 256 + 000 + 00 + 00 + 16 + 8 + 4 + 2 + 1,
        z: 5,
        layer: String::from("default"),
    };
    let hash3 = MetaTile::calc_directory_hash(&id3);
    assert_eq!(136, hash3[0], "Incorrect directory hash calculation");
    assert_eq!(129, hash3[1], "Incorrect directory hash calculation");
    assert_eq!(129, hash3[2], "Incorrect directory hash calculation");
    assert_eq!(129, hash3[3], "Incorrect directory hash calculation");
    assert_eq!(129, hash3[4], "Incorrect directory hash calculation");

    let id4 = TileIdentity {
        x: 524288 + 000000 + 000000 + 00000 + 32768 + 00000 + 0000 + 0000 + 2048 + 0000 + 000 + 000 + 128 + 00 + 00 + 00 + 8 + 0 + 0 + 1,
        y: 000000 + 262144 + 000000 + 00000 + 00000 + 16384 + 0000 + 0000 + 0000 + 1024 + 000 + 000 + 000 + 64 + 00 + 00 + 8 + 4 + 2 + 1,
        z: 5,
        layer: String::from("default"),
    };
    let hash4 = MetaTile::calc_directory_hash(&id4);
    assert_eq!(136, hash4[0], "Incorrect directory hash calculation");
    assert_eq!(132, hash4[1], "Incorrect directory hash calculation");
    assert_eq!(132, hash4[2], "Incorrect directory hash calculation");
    assert_eq!(132, hash4[3], "Incorrect directory hash calculation");
    assert_eq!(132, hash4[4], "Incorrect directory hash calculation");
}
