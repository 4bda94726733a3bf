use frakt::cli::{LogLevel, ServerCommand, WorkerCommand};
use frakt::listener::read_task_id;
use frakt::local_env::{loop_sleep_duration, var_not_defined};
use frakt::network::FrameError;
use frakt::portal::{
    parse_cycle_direction, parse_direction, unsupported_direction_message, CycleDirection,
    CycleQuery, Direction, DirectionQuery,
};
use frakt::structs::u8data::U8Data;

#[test]
fn env_messages() {
    assert_eq!(var_not_defined("PORT"), "PORT is not defined in the environment");
    assert_eq!(loop_sleep_duration("debug"), 500);
    assert_eq!(loop_sleep_duration("trace"), 500);
    assert_eq!(loop_sleep_duration("info"), 0);
    assert_eq!(loop_sleep_duration("DEBUG"), 0);
}

#[test]
fn directions() {
    assert_eq!(parse_direction("up"), Some(Direction::Up));
    assert_eq!(parse_direction("left"), Some(Direction::Left));
    assert_eq!(parse_direction("top"), None);
    let q = DirectionQuery { direction: "RiGhT".to_string() };
    assert_eq!(q.requested_direction(), Some(Direction::Right));
    let q = DirectionQuery { direction: "Down".to_string() };
    assert_eq!(q.requested_direction(), Some(Direction::Down));
    let q = DirectionQuery { direction: "north".to_string() };
    assert_eq!(q.requested_direction(), None);
    assert_eq!(
        unsupported_direction_message("north"),
        "The direction north is not supported, please enter one of `top`, `left`, `right`, `bottom`."
    );
}

#[test]
fn cycle_directions() {
    assert_eq!(parse_cycle_direction("previous"), CycleDirection::Previous);
    assert_eq!(parse_cycle_direction("next"), CycleDirection::Next);
    assert_eq!(parse_cycle_direction("sideways"), CycleDirection::Next);
    let q = CycleQuery { direction: "PREVIOUS".to_string() };
    assert_eq!(q.requested_cycle(), CycleDirection::Previous);
}

#[test]
fn log_level_names() {
    assert_eq!(LogLevel::Error.to_string(), "error");
    assert_eq!(LogLevel::Warn.to_string(), "warn");
    assert_eq!(LogLevel::Info.to_string(), "info");
    assert_eq!(LogLevel::Debug.to_string(), "debug");
    assert_eq!(LogLevel::Trace.to_string(), "trace");
}

#[test]
fn server_defaults() {
    let cmd = ServerCommand {
        address: None,
        port: None,
        width: None,
        height: Some(600),
        tiles: None,
        dashboard: None,
        security_mode: None,
        graphics: Some(true),
        portal: None,
    };
    let s = cmd.settings();
    assert_eq!(s.address, "0.0.0.0");
    assert_eq!(s.port, 8080);
    assert_eq!(s.width, 300);
    assert_eq!(s.height, 600);
    assert_eq!(s.tiles, 4);
    assert!(s.graphics);
    assert!(!s.portal);
}

#[test]
fn worker_defaults() {
    let cmd = WorkerCommand {
        name: Some("w".to_string()),
        address: Some("10.0.0.1".to_string()),
        port: None,
        count: None,
        maximal_work_load: None,
    };
    let s = cmd.settings();
    assert_eq!(s.name.as_deref(), Some("w"));
    assert_eq!(s.address, "10.0.0.1");
    assert_eq!(s.port, 8787);
    assert_eq!(s.maximal_work_load, 500);
    assert_eq!(s.count, 1);
}

#[test]
fn task_ids() {
    let data = b"xxabcdefgh".to_vec();
    assert_eq!(read_task_id(&data, &U8Data::new(2, 8)), Ok("abcdefgh".to_string()));
    assert_eq!(read_task_id(&data, &U8Data::new(3, 8)), Err(FrameError::UnexpectedEof));
    assert_eq!(read_task_id(&data, &U8Data::new(50, 0)), Ok(String::new()));
    assert_eq!(read_task_id(&[0xff, 0xff], &U8Data::new(0, 2)), Err(FrameError::InvalidUtf8));
}
