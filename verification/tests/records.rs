use std::collections::HashMap;
use std::path::PathBuf;

use traccar_lib::config::{AppConfig, ConfigBase, ConfigFile, DeviceConfig};
use traccar_lib::devices::{device_from_responses, devices_from_responses, find_device};
use traccar_lib::error::{response_status_outcome, status_error};
use traccar_lib::mode::login_wizard::{host_prompt, keep_or_replace, login_config, token_prompt};
use traccar_lib::positions::{first_position, positions_from_responses};
use traccar_lib::report::Coordinate;
use traccar_lib::time::{Timestamp, MAX_TIMESTAMP_SECS, MIN_TIMESTAMP_SECS};
use traccar_lib::{Device, DeviceReponse, Landmark, PositionResponse, TracarrError};

fn response(id: u32, position_id: u32) -> DeviceReponse {
    DeviceReponse { id, name: format!("d{id}"), position_id }
}

#[test]
fn position_id_zero_means_no_position() {
    let d = Device::from_response(response(3, 0));
    assert_eq!((d.id, d.name.as_str(), d.position_id), (3, "d3", None));
    let d = Device::from_response(response(4, 12));
    assert_eq!(d.position_id, Some(12));
}

#[test]
fn device_lists_and_lookup() {
    let devices = devices_from_responses(vec![response(1, 0), response(2, 5), response(2, 6)]);
    assert_eq!(devices.iter().map(|d| d.id).collect::<Vec<_>>(), vec![1, 2, 2]);
    assert_eq!(find_device(&devices, 2), Some(1));
    assert_eq!(find_device(&devices, 9), None);
    let d = device_from_responses(vec![response(1, 0), response(2, 5), response(2, 6)], 2).unwrap();
    assert_eq!(d.position_id, Some(5));
    assert!(device_from_responses(vec![response(1, 0)], 2).is_none());
}

fn position_response(id: u32, fences: Option<Vec<u32>>) -> PositionResponse {
    PositionResponse {
        id,
        latitude: 1,
        longitude: 2,
        altitude: 3,
        fix_time: Timestamp { secs: 10, nanos: 0 },
        geofence_ids: fences,
        device_id: 7,
    }
}

#[test]
fn positions_from_records() {
    let ps = positions_from_responses(vec![position_response(1, None), position_response(2, Some(vec![4, 5]))]);
    assert_eq!(ps.len(), 2);
    assert!(ps[0].geofence_ids.is_empty());
    assert_eq!(ps[1].geofence_ids, vec![4, 5]);
    assert_eq!((ps[1].id, ps[1].latitude, ps[1].longitude, ps[1].altitude, ps[1].device_id), (2, 1, 2, 3, 7));
    assert!(matches!(first_position(vec![]), Err(TracarrError::EmptyPositionResponse)));
    assert_eq!(first_position(vec![position_response(8, None), position_response(9, None)]).unwrap().id, 8);
}

#[test]
fn response_statuses() {
    assert!(response_status_outcome(200).is_ok());
    assert!(response_status_outcome(299).is_ok());
    assert!(matches!(response_status_outcome(401), Err(TracarrError::Unauthorized)));
    assert!(matches!(response_status_outcome(404), Err(TracarrError::HttpError(404, "Not Found"))));
    assert!(matches!(response_status_outcome(400), Err(TracarrError::HttpError(400, "Bad Request"))));
    assert!(matches!(response_status_outcome(599), Err(TracarrError::HttpError(599, "unknown reason"))));
    assert!(matches!(status_error(500, Some("Oops")), Err(TracarrError::HttpError(500, "Oops"))));
    assert!(matches!(status_error(302, None), Err(TracarrError::HttpError(302, "unknown reason"))));
}

#[test]
fn config_paths() {
    let base = ConfigBase::new(PathBuf::from("/home/me/.config/traccar"));
    assert_eq!(base.dir(), &PathBuf::from("/home/me/.config/traccar"));
    assert_eq!(base.landmarks_file(), &PathBuf::from("/home/me/.config/traccar/landmarks.json"));
    assert_eq!(base.config_file(), &PathBuf::from("/home/me/.config/traccar/config.json"));
}

#[test]
fn app_config_from_file() {
    let mut devices = HashMap::new();
    devices.insert(
        5,
        DeviceConfig { display_name: Some("Car".to_owned()), report_timeout_seconds: Some(10), predict_update_interval_seconds: None },
    );
    let file = ConfigFile { host: Some("https://h".to_owned()), token: Some("t".to_owned()), devices: Some(devices) };
    let landmarks = vec![Landmark { name: "L".to_owned(), position: Coordinate { x: 1, y: 2 } }];
    let config = AppConfig::from_config_file(&file, landmarks);
    assert_eq!(config.host(), "https://h");
    assert_eq!(config.token(), "t");
    assert_eq!(config.landmarks().len(), 1);
    assert_eq!(config.device_config(5).unwrap().display_name.as_deref(), Some("Car"));
    assert!(config.device_config(6).is_none());
    assert_eq!(config.device_config_list().len(), 1);
}

#[test]
fn login_questions() {
    assert_eq!(host_prompt(&None), "Enter hostname:");
    assert_eq!(host_prompt(&Some("h".to_owned())), "Enter hostname or leave empty to keep h:");
    assert_eq!(token_prompt(&None), "Enter token:");
    assert_eq!(token_prompt(&Some("x".to_owned())), "Enter token or leave empty to keep as is:");
    assert_eq!(keep_or_replace(Some("old".to_owned()), String::new()), Some("old".to_owned()));
    assert_eq!(keep_or_replace(None, String::new()), None);
    assert_eq!(keep_or_replace(Some("old".to_owned()), "new".to_owned()), Some("new".to_owned()));
    assert!(login_config(None, Some("t".to_owned()), None).is_none());
    let c = login_config(Some("h".to_owned()), None, None).unwrap();
    assert_eq!(c.host.as_deref(), Some("h"));
    assert!(c.token.is_none() && c.devices.is_none());
}

#[test]
fn timestamp_range_matches_chrono() {
    assert_eq!(chrono::DateTime::<chrono::Utc>::MAX_UTC.timestamp(), MAX_TIMESTAMP_SECS);
    assert_eq!(chrono::DateTime::<chrono::Utc>::MIN_UTC.timestamp(), MIN_TIMESTAMP_SECS);
}
