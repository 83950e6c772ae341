use bevy_garage::api::{create_user, encode_vector, json_hello, root, AppError, CreateUser, QueryErrorKind};
use bevy_garage::car::{anchor_signs, wheel_corners, wheel_side_sign, WheelCorner};
use bevy_garage::components::{CarSet, Config};
use bevy_garage::dqn::{dqn_step, is_crashed, sync_count, DqnStep};
use bevy_garage::gamepad::{gamepad_stage_preupdate_system, GamepadEventType, GamepadLobby};
use bevy_garage::light::{animate_light_direction, LightAxis, LightKeys, LightTurn};
use bevy_garage::mesh::{sequential_indices, unindex_triangles};
use bevy_garage::net::{
    connection_config, server_socket_addr, ChannelSpec, ClientChannel, SendKind, ServerChannel, ServerLobby,
    PROTOCOL_ID,
};
use bevy_garage::replay::{
    get_replay_buffer_to_persist, last_records, ReplayBuffer, BATCH_SIZE, BUFFER_SIZE, PERSIST_BATCH_SIZE,
};
use bevy_garage::sound::engine_sound_vol;

#[test]
fn replay_buffer_appends_until_full() {
    let mut rb: ReplayBuffer<u8, i16> = ReplayBuffer::new();
    assert_eq!(rb.len(), 0);
    rb.store(1, 2, -3, 4);
    rb.store(5, 6, -7, 8);
    assert_eq!(rb.len(), 2);
    assert_eq!(rb.i, 2);
    let mut idx = [0usize; BATCH_SIZE];
    idx[1] = 1;
    let batch = rb.get_batch(idx);
    assert_eq!(batch.len(), BATCH_SIZE);
    assert_eq!(batch[0], (1, 2, -3, 4));
    assert_eq!(batch[1], (5, 6, -7, 8));
    assert_eq!(batch[2], (1, 2, -3, 4));
}

#[test]
fn replay_buffer_keeps_the_latest_transitions() {
    let mut rb: ReplayBuffer<u32, u8> = ReplayBuffer::new();
    let total = BUFFER_SIZE + 3;
    for j in 0..total {
        rb.store(j as u32, j % 9, (j % 256) as u8, j as u32 + 1);
    }
    assert_eq!(rb.len(), BUFFER_SIZE);
    assert_eq!(rb.i, total);
    // the last BUFFER_SIZE transitions, the j-th in slot j % BUFFER_SIZE
    for j in (total - BUFFER_SIZE)..total {
        let k = j % BUFFER_SIZE;
        assert_eq!(rb.state[k], j as u32);
        assert_eq!(rb.action[k], j % 9);
        assert_eq!(rb.reward[k], (j % 256) as u8);
        assert_eq!(rb.next_state[k], j as u32 + 1);
    }
    assert_eq!(rb.state[0], BUFFER_SIZE as u32);
    assert_eq!(rb.state[3], 3);
}

#[test]
fn mesh_unindexing() {
    let vtx = vec!['a', 'b', 'c', 'd'];
    let idx = vec![[0u32, 1, 2], [2, 3, 0]];
    assert_eq!(unindex_triangles(&vtx, &idx), vec!['a', 'b', 'c', 'c', 'd', 'a']);
    assert_eq!(sequential_indices(6), vec![0, 1, 2, 3, 4, 5]);
    assert_eq!(sequential_indices(0), Vec::<u32>::new());
}

#[test]
fn api_answers() {
    assert_eq!(root(), "Hello, World!");
    assert_eq!(json_hello("Ann"), "Hello Ann");
    let user = create_user(CreateUser { username: "bob".to_string() });
    assert_eq!(user.id, 1337);
    assert_eq!(user.username, "bob");
}

#[test]
fn vector_encoding_joins_with_commas() {
    let parts = vec!["1".to_string(), "2.5".to_string(), "-3".to_string()];
    assert_eq!(encode_vector(&parts), "1,2.5,-3");
    assert_eq!(encode_vector(&vec!["7".to_string()]), "7");
    assert_eq!(encode_vector(&Vec::new()), "");
}

#[test]
fn api_error_statuses() {
    assert_eq!(AppError::from_query_error(QueryErrorKind::RecordNotFound), AppError::NotFound);
    let conflict = AppError::from_query_error(QueryErrorKind::UniqueKeyViolation);
    assert_eq!(conflict, AppError::PrismaError(QueryErrorKind::UniqueKeyViolation));
    assert_eq!(conflict.status_code(), 409);
    assert_eq!(AppError::from_query_error(QueryErrorKind::Other).status_code(), 400);
    assert_eq!(AppError::NotFound.status_code(), 404);
}

#[test]
fn channel_ids_and_configs() {
    assert_eq!(u8::from(ClientChannel::Command), 0);
    assert_eq!(u8::from(ClientChannel::Input), 1);
    assert_eq!(u8::from(ServerChannel::NetworkedEntities), 0);
    assert_eq!(u8::from(ServerChannel::ServerMessages), 1);
    let config = connection_config();
    assert_eq!(config.available_bytes_per_tick, 1024 * 1024);
    assert_eq!(
        config.client_channels_config,
        vec![
            ChannelSpec {
                channel_id: 1,
                max_memory_usage_bytes: 5 * 1024 * 1024,
                send_type: SendKind::ReliableOrdered { resend_time_ms: 0 },
            },
            ChannelSpec {
                channel_id: 0,
                max_memory_usage_bytes: 5 * 1024 * 1024,
                send_type: SendKind::ReliableOrdered { resend_time_ms: 0 },
            },
        ]
    );
    assert_eq!(
        config.server_channels_config,
        vec![
            ChannelSpec { channel_id: 0, max_memory_usage_bytes: 10 * 1024 * 1024, send_type: SendKind::Unreliable },
            ChannelSpec {
                channel_id: 1,
                max_memory_usage_bytes: 10 * 1024 * 1024,
                send_type: SendKind::ReliableOrdered { resend_time_ms: 200 },
            },
        ]
    );
    assert_eq!(PROTOCOL_ID, 7);
}

#[test]
fn server_address() {
    assert_eq!(server_socket_addr(None), "127.0.0.1:5000");
    assert_eq!(server_socket_addr(Some("0.0.0.0:7000".to_string())), "0.0.0.0:7000");
}

#[test]
fn lobby_tracks_players() {
    let mut lobby = ServerLobby::new();
    assert_eq!(lobby.player_entity(3), None);
    assert_eq!(lobby.player_connected(3, 42), None);
    assert_eq!(lobby.player_connected(4, 43), None);
    assert_eq!(lobby.player_entity(3), Some(42));
    assert_eq!(lobby.player_connected(3, 50), Some(42));
    assert_eq!(lobby.player_disconnected(3), Some(50));
    assert_eq!(lobby.player_entity(3), None);
    assert_eq!(lobby.player_disconnected(3), None);
    assert_eq!(lobby.player_entity(4), Some(43));
}

#[test]
fn gamepads_join_and_leave() {
    let mut lobby = GamepadLobby::new();
    gamepad_stage_preupdate_system(&mut lobby, 1, GamepadEventType::Connected);
    gamepad_stage_preupdate_system(&mut lobby, 2, GamepadEventType::Connected);
    gamepad_stage_preupdate_system(&mut lobby, 2, GamepadEventType::ButtonChanged);
    assert!(lobby.is_connected(1) && lobby.is_connected(2));
    gamepad_stage_preupdate_system(&mut lobby, 1, GamepadEventType::Disconnected);
    gamepad_stage_preupdate_system(&mut lobby, 2, GamepadEventType::AxisChanged);
    assert!(!lobby.is_connected(1));
    assert!(lobby.is_connected(2));
    assert_eq!(lobby.len(), 1);
}

#[test]
fn wheel_layout() {
    let corners = wheel_corners();
    assert_eq!(
        corners,
        [
            WheelCorner { front: true, left: false },
            WheelCorner { front: true, left: true },
            WheelCorner { front: false, left: false },
            WheelCorner { front: false, left: true },
        ]
    );
    assert_eq!(anchor_signs(corners[0]), (1, 1));
    assert_eq!(anchor_signs(corners[3]), (-1, -1));
    assert_eq!(wheel_side_sign(true), -1);
    assert_eq!(wheel_side_sign(false), 1);
}

#[test]
fn trainer_schedule() {
    assert_eq!(dqn_step(5, BATCH_SIZE), DqnStep { step: 5, train: false, sync: false });
    assert_eq!(dqn_step(5, BATCH_SIZE + 1), DqnStep { step: 6, train: false, sync: false });
    assert_eq!(dqn_step(5, BATCH_SIZE + 2), DqnStep { step: 6, train: true, sync: false });
    assert_eq!(dqn_step(199, 1000), DqnStep { step: 200, train: true, sync: true });
    assert_eq!(dqn_step(i32::MAX, BATCH_SIZE), DqnStep { step: i32::MAX, train: false, sync: false });
    assert_eq!(sync_count(450), 2);
    assert_eq!(sync_count(-450), -2);
    assert_eq!(sync_count(199), 0);
}

#[test]
fn light_and_volume_keys() {
    let turns = animate_light_direction(LightKeys { h: true, l: false, j: false, k: true });
    assert_eq!(
        turns,
        vec![
            LightTurn { axis: LightAxis::Y, direction: 1 },
            LightTurn { axis: LightAxis::X, direction: -1 },
        ]
    );
    assert_eq!(animate_light_direction(LightKeys { h: false, l: false, j: false, k: false }), vec![]);
    assert_eq!(engine_sound_vol(true, true), -1);
    assert_eq!(engine_sound_vol(false, true), 1);
    assert_eq!(engine_sound_vol(false, false), 0);
}

#[test]
fn settings_defaults() {
    assert_eq!(Config::default().cars_count, 1);
    assert_ne!(CarSet::Input, CarSet::Esp);
}

#[test]
fn last_records_are_the_latest_slots_in_order() {
    let mut rb: ReplayBuffer<u32, i32> = ReplayBuffer::new();
    for k in 0..5u32 {
        rb.store_with_done(k, k as usize, -(k as i32), k + 10, k == 4);
    }
    assert_eq!(last_records(&rb, 2), vec![(3, 3, -3, 13, false), (4, 4, -4, 14, true)]);
    assert_eq!(last_records(&rb, 0), vec![]);
    assert_eq!(last_records(&rb, 5).len(), 5);
}

#[test]
fn store_records_no_episode_end() {
    let mut rb: ReplayBuffer<u8, u8> = ReplayBuffer::new();
    rb.store(1, 1, 1, 2);
    rb.store_with_done(2, 0, 0, 3, true);
    assert_eq!(rb.done, vec![false, true]);
}

#[test]
fn persisted_records_are_the_last_hundred() {
    let mut rb: ReplayBuffer<u32, i32> = ReplayBuffer::new();
    for k in 0..150u32 {
        rb.store_with_done(k, 1, 0, k + 1, k % 50 == 49);
    }
    let records = get_replay_buffer_to_persist(&rb);
    assert_eq!(records.len(), PERSIST_BATCH_SIZE);
    assert_eq!(records[0].0, 50);
    assert_eq!(records[49], (99, 1, 0, 100, true));
    assert_eq!(records[99], (149, 1, 0, 150, true));
    assert!(!records[50].4);
}

#[test]
fn crashed_when_touching_something_off_the_road() {
    let on_road = vec!["road_1".to_string(), "big road".to_string()];
    assert!(!is_crashed(&on_road, "road"));
    let off_road = vec!["road_1".to_string(), "wall".to_string()];
    assert!(is_crashed(&off_road, "road"));
    assert!(!is_crashed(&vec![], "road"));
    assert!(is_crashed(&vec!["roa".to_string()], "road"));
}
