use simcore::add;
use simcore::codec::{
    get_block, get_body_type, get_flag, get_hit_count, get_modifier, get_object_function,
    get_raw_id, get_tick_count, pack_raw_id, set_block, set_flag, set_hit_count, set_tick_count,
    UserData,
};
use simcore::collision::{
    get_interaction_groups_for_body_type, interaction_groups, CollisionCategory,
    DYNAMIC_BODY_TYPE, PLAYER_BODY_TYPE, PROJECTILE_BODY_TYPE, STATIC_BODY_TYPE,
};
use simcore::config::{MODULE_NAME, SERVER_URI};
use simcore::map::MapManager;
use simcore::queries::{
    dec_i32, items_in_chunk, nearby_entities, player_inventory, players_by_status,
    players_in_chunk, PlayerStatus,
};
use simcore::shape::{ColliderShape, ShapeParseError, is_sensor_string};
use simcore::spatial::are_chunks_adjacent;

#[test]
fn it_works() {
    let result = add(2, 2);
    assert_eq!(result, 4);
}

#[test]
fn server_uri_valid() {
    assert!(SERVER_URI.starts_with("http"));
}

#[test]
fn module_name_no_underscores() {
    assert!(!MODULE_NAME.contains('_'));
}

fn sample_fields() -> UserData {
    UserData {
        body_type: 20,
        object_function: 2,
        flag: true,
        raw_id: 0xDEAD_BEEF,
        hit_count: 7,
        modifier: 200,
        block: true,
        tick_count: 255,
    }
}

#[test]
fn codec_round_trip() {
    let fields = sample_fields();
    let packed = fields.pack();
    assert_eq!(UserData::unpack(packed), fields);

    let zero = UserData {
        body_type: 0,
        object_function: 0,
        flag: false,
        raw_id: 0,
        hit_count: 0,
        modifier: 0,
        block: false,
        tick_count: 0,
    };
    assert_eq!(UserData::unpack(zero.pack()), zero);

    let max = UserData {
        body_type: 255,
        object_function: 255,
        flag: true,
        raw_id: u32::MAX,
        hit_count: 255,
        modifier: 255,
        block: true,
        tick_count: 255,
    };
    assert_eq!(UserData::unpack(max.pack()), max);
}

#[test]
fn codec_field_accessors() {
    let fields = sample_fields();
    let packed = fields.pack();
    assert_eq!(get_body_type(packed), 20);
    assert_eq!(get_object_function(packed), 2);
    assert!(get_flag(packed));
    assert_eq!(get_raw_id(packed), 0xDEAD_BEEF);
    assert_eq!(get_hit_count(packed), 7);
    assert_eq!(get_modifier(packed), 200);
    assert!(get_block(packed));
    assert_eq!(get_tick_count(packed), 255);
}

#[test]
fn codec_field_updates() {
    let packed = sample_fields().pack();
    let p1 = set_flag(packed, false);
    assert!(!get_flag(p1));
    assert_eq!(get_raw_id(p1), 0xDEAD_BEEF);
    let p2 = set_block(p1, false);
    assert!(!get_block(p2));
    let p3 = set_tick_count(p2, 42);
    assert_eq!(get_tick_count(p3), 42);
    assert_eq!(get_modifier(p3), 200);
    let p4 = set_hit_count(p3, 30);
    assert_eq!(get_hit_count(p4), 30);
    assert_eq!(get_body_type(p4), 20);
    assert_eq!(get_object_function(p4), 2);
}

#[test]
fn codec_pack_raw_id_alone() {
    let packed = pack_raw_id(77);
    assert_eq!(get_raw_id(packed), 77);
    assert_eq!(get_body_type(packed), 0);
    assert_eq!(get_tick_count(packed), 0);
}

#[test]
fn shape_parses_sphere() {
    let shape = ColliderShape::from_str("Sphere(0.5)").unwrap();
    assert_eq!(shape, ColliderShape::Sphere { radius: 0.5f32.to_bits() });
    let trimmed = ColliderShape::from_str("  Sphere(2.25)  ").unwrap();
    assert_eq!(trimmed, ColliderShape::Sphere { radius: 2.25f32.to_bits() });
}

#[test]
fn shape_parses_box() {
    let shape = ColliderShape::from_str("Box(1, 2.5, 3)").unwrap();
    assert_eq!(
        shape,
        ColliderShape::Cuboid {
            x: 1.0f32.to_bits(),
            y: 2.5f32.to_bits(),
            z: 3.0f32.to_bits(),
        }
    );
}

#[test]
fn shape_rejects_malformed() {
    assert_eq!(ColliderShape::from_str("Pyramid(1)"), Err(ShapeParseError::InvalidFormat));
    assert_eq!(ColliderShape::from_str("Box(1,2)"), Err(ShapeParseError::InvalidFormat));
    assert_eq!(ColliderShape::from_str("Sphere(huge)"), Err(ShapeParseError::ParseFloat));
    assert_eq!(ColliderShape::from_str("Box(1,2,zz)"), Err(ShapeParseError::ParseFloat));
    assert_eq!(ColliderShape::from_str(""), Err(ShapeParseError::InvalidFormat));
}

#[test]
fn shape_sensor_marker() {
    assert!(is_sensor_string("Sphere(1.0) Sensor"));
    assert!(is_sensor_string("sensor Box(1,1,1)"));
    assert!(is_sensor_string("SENSOR"));
    assert!(!is_sensor_string("Sphere(1.0)"));
    assert!(!is_sensor_string("senso"));
}

#[test]
fn chunk_adjacency() {
    assert!(are_chunks_adjacent(0, 0, 0, 0));
    assert!(are_chunks_adjacent(0, 0, 1, 1));
    assert!(are_chunks_adjacent(5, 5, 4, 6));
    assert!(!are_chunks_adjacent(0, 0, 2, 0));
    assert!(!are_chunks_adjacent(0, 0, 0, -2));
    assert!(are_chunks_adjacent(i32::MIN, 0, i32::MIN + 1, 0));
}

#[test]
fn chunk_id_and_range() {
    assert!(MapManager::is_chunk_in_valid_range(0, 0));
    assert!(MapManager::is_chunk_in_valid_range(-100, 100));
    assert!(!MapManager::is_chunk_in_valid_range(101, 0));
    assert!(!MapManager::is_chunk_in_valid_range(0, -101));
    // Cantor pairing of the folded coordinates: (3, 4) folds to (6, 8),
    // and (6+8)*(6+8+1)/2 + 8 = 113.
    assert_eq!(MapManager::generate_chunk_id(3, 4), 113);
    assert_eq!(MapManager::generate_chunk_id(0, 0), 0);
    assert_ne!(
        MapManager::generate_chunk_id(-1, 1),
        MapManager::generate_chunk_id(1, -1)
    );
}

#[test]
fn chunks_in_radius_enumeration() {
    let chunks = MapManager::get_chunks_in_radius(10, -10, 2);
    assert_eq!(chunks.len(), 25);
    assert_eq!(chunks[0], (8, -12));
    assert_eq!(chunks[24], (12, -8));
    assert!(chunks.contains(&(10, -10)));
}

#[test]
fn interaction_group_masks() {
    assert_eq!(CollisionCategory::Default.mask(), 0b0001);
    assert_eq!(CollisionCategory::Player.mask(), 0b0010);
    assert_eq!(CollisionCategory::Enemy.mask(), 0b0100);
    assert_eq!(CollisionCategory::Projectile.mask(), 0b1000);
    assert_eq!(CollisionCategory::Sensor.mask(), 0b0000);

    let player = interaction_groups(PLAYER_BODY_TYPE, false);
    assert_eq!(player.membership, 2);
    assert_eq!(player.filter, 15);
    let projectile_sensor = interaction_groups(PROJECTILE_BODY_TYPE, true);
    assert_eq!(projectile_sensor.membership, 8);
    assert_eq!(projectile_sensor.filter, 15);
    let plain = interaction_groups(STATIC_BODY_TYPE, false);
    assert_eq!(plain.membership, 1);

    let legacy = get_interaction_groups_for_body_type(DYNAMIC_BODY_TYPE, false);
    assert_eq!(legacy.membership, 0b0001);
    assert_eq!(legacy.filter, 0b1111);
    let legacy_sensor = get_interaction_groups_for_body_type(PLAYER_BODY_TYPE, true);
    assert_eq!(legacy_sensor.membership, 0b0010);
    assert_eq!(legacy_sensor.filter, 0b0000);
}

#[test]
fn decimal_rendering() {
    assert_eq!(dec_i32(0).as_str(), "0");
    assert_eq!(dec_i32(7).as_str(), "7");
    assert_eq!(dec_i32(100000).as_str(), "100000");
    assert_eq!(dec_i32(-42).as_str(), "-42");
    assert_eq!(dec_i32(i32::MIN).as_str(), "-2147483648");
    assert_eq!(dec_i32(i32::MAX).as_str(), "2147483647");
}

#[test]
fn query_builders() {
    assert_eq!(
        players_in_chunk(3, -4).as_str(),
        "SELECT * FROM player WHERE chunk_x = 3 AND chunk_y = -4"
    );
    assert_eq!(
        items_in_chunk(0, 12).as_str(),
        "SELECT * FROM game_item WHERE chunk_x = 0 AND chunk_y = 12 AND is_dropped = true"
    );
    assert_eq!(
        player_inventory("abcd").as_str(),
        "SELECT * FROM game_item WHERE owner_id = 'abcd' AND is_dropped = false"
    );
    assert_eq!(
        players_by_status("Online").as_str(),
        "SELECT * FROM player WHERE status = 'Online'"
    );
    let qs = nearby_entities(5, 5, 2);
    assert_eq!(qs.len(), 2);
    assert_eq!(
        qs[0].as_str(),
        "SELECT * FROM player WHERE chunk_x BETWEEN 3 AND 7 AND chunk_y BETWEEN 3 AND 7"
    );
    assert_eq!(
        qs[1].as_str(),
        "SELECT * FROM game_item WHERE chunk_x BETWEEN 3 AND 7 AND chunk_y BETWEEN 3 AND 7 AND is_dropped = true"
    );
}

#[test]
fn player_status_values() {
    assert_eq!(PlayerStatus::Online, PlayerStatus::Online);
    assert_ne!(PlayerStatus::Online, PlayerStatus::Offline);
    let all = [
        PlayerStatus::Online,
        PlayerStatus::Offline,
        PlayerStatus::Away,
        PlayerStatus::Playing,
    ];
    assert_eq!(all.len(), 4);
}

#[test]
fn codec_setters_are_idempotent() {
    let packed = sample_fields().pack();
    let once = set_flag(packed, false);
    assert_eq!(set_flag(once, false), once);
    let once = set_block(packed, true);
    assert_eq!(set_block(once, true), once);
    let once = set_tick_count(packed, 9);
    assert_eq!(set_tick_count(once, 9), once);
    let once = set_hit_count(packed, 3);
    assert_eq!(set_hit_count(once, 3), once);
}
