use claude_code_sync::clock::{compact_stamp, readable_stamp, to_unix_millis};
use claude_code_sync::settings::{
    merge_settings_at, merge_settings_json, pull_settings, pull_settings_texts, push_settings, push_settings_at, read_local_settings,
    read_remote_settings, settle_settings, SettingsError,
};
use serde_json::Value;
use std::time::{Duration, SystemTime, UNIX_EPOCH};

const TS_KEY: &str = "lastModifiedTimestamp";

fn sys_time_ms(ms: i64) -> SystemTime {
    UNIX_EPOCH + Duration::from_millis(ms as u64)
}

fn map(entries: Vec<(&str, Value)>) -> serde_json::Map<String, Value> {
    let mut m = serde_json::Map::new();
    for (key, value) in entries {
        m.insert(key.to_string(), value);
    }
    m
}

#[test]
fn test_local_no_timestamp_remote_wins() {
    let local = map(vec![("theme", Value::from("dark"))]);
    let remote = map(vec![("theme", Value::from("light")), (TS_KEY, Value::from(1_000_000i64))]);
    let (result, local_wins) = merge_settings_json(&local, &remote, SystemTime::now());

    assert!(!local_wins, "remote should win when local has no timestamp");
    assert_eq!(result["theme"], "light");
    assert_eq!(result[TS_KEY], 1_000_000i64);
}

#[test]
fn test_local_empty_remote_wins() {
    let local = map(vec![]);
    let remote = map(vec![("fontSize", Value::from(14)), (TS_KEY, Value::from(1_000_000i64))]);
    let (result, local_wins) = merge_settings_json(&local, &remote, SystemTime::now());

    assert!(!local_wins);
    assert_eq!(result["fontSize"], 14);
}

#[test]
fn test_local_newer_wins() {
    let local_mtime = sys_time_ms(2_000_000);
    let local = map(vec![("theme", Value::from("dark")), (TS_KEY, Value::from(500_000i64))]);
    let remote = map(vec![("theme", Value::from("light")), (TS_KEY, Value::from(1_000_000i64))]);
    let (result, local_wins) = merge_settings_json(&local, &remote, local_mtime);

    assert!(local_wins, "local should win when file mtime is newer");
    assert_eq!(result["theme"], "dark");
    assert_eq!(result[TS_KEY], 2_000_000i64);
}

#[test]
fn test_remote_newer_wins() {
    let local_mtime = sys_time_ms(1_000_000);
    let local = map(vec![("theme", Value::from("dark")), (TS_KEY, Value::from(500_000i64))]);
    let remote = map(vec![("theme", Value::from("light")), (TS_KEY, Value::from(2_000_000i64))]);
    let (result, local_wins) = merge_settings_json(&local, &remote, local_mtime);

    assert!(!local_wins, "remote should win when its timestamp is newer");
    assert_eq!(result["theme"], "light");
    assert_eq!(result[TS_KEY], 2_000_000i64);
}

#[test]
fn test_equal_timestamps_local_wins() {
    let ts: i64 = 1_000_000;
    let local_mtime = sys_time_ms(ts);
    let local = map(vec![("theme", Value::from("dark")), (TS_KEY, Value::from(500_000i64))]);
    let remote = map(vec![("theme", Value::from("light")), (TS_KEY, Value::from(ts))]);
    let (result, local_wins) = merge_settings_json(&local, &remote, local_mtime);

    assert!(local_wins, "local should win when timestamps are equal");
    assert_eq!(result["theme"], "dark");
}

#[test]
fn test_remote_no_timestamp_local_wins() {
    let local_mtime = sys_time_ms(1_000_000);
    let local = map(vec![("theme", Value::from("dark")), (TS_KEY, Value::from(500_000i64))]);
    let remote = map(vec![("theme", Value::from("light"))]);
    let (result, local_wins) = merge_settings_json(&local, &remote, local_mtime);

    assert!(local_wins, "local should win when remote has no timestamp");
    assert_eq!(result["theme"], "dark");
    assert_eq!(result[TS_KEY], 1_000_000i64);
}

#[test]
fn test_remote_wins_uses_entire_remote_content() {
    let local = map(vec![("theme", Value::from("dark")), ("extraLocalKey", Value::from(true))]);
    let remote = map(vec![
        ("theme", Value::from("light")),
        ("fontSize", Value::from(14)),
        (TS_KEY, Value::from(2_000_000i64)),
    ]);
    let (result, local_wins) = merge_settings_json(&local, &remote, sys_time_ms(1_000_000));

    assert!(!local_wins);
    assert_eq!(result["theme"], "light");
    assert_eq!(result["fontSize"], 14);
    assert!(!result.contains_key("extraLocalKey"));
}

#[test]
fn test_local_wins_uses_entire_local_content() {
    let local = map(vec![
        ("theme", Value::from("dark")),
        ("extraLocalKey", Value::from(true)),
        (TS_KEY, Value::from(500_000i64)),
    ]);
    let remote = map(vec![
        ("theme", Value::from("light")),
        ("fontSize", Value::from(14)),
        (TS_KEY, Value::from(1_000_000i64)),
    ]);
    let (result, local_wins) = merge_settings_json(&local, &remote, sys_time_ms(2_000_000));

    assert!(local_wins);
    assert_eq!(result["theme"], "dark");
    assert!(result["extraLocalKey"].as_bool().unwrap());
    assert!(!result.contains_key("fontSize"));
}

#[test]
fn test_local_wins_flag_true_means_update_remote() {
    let local = map(vec![("theme", Value::from("dark")), (TS_KEY, Value::from(500_000i64))]);
    let remote = map(vec![("theme", Value::from("dark")), (TS_KEY, Value::from(1_000_000i64))]);
    let (_, local_wins) = merge_settings_json(&local, &remote, sys_time_ms(2_000_000));

    assert!(local_wins, "local_wins=true means caller should update remote");
}

#[test]
fn test_local_wins_flag_false_means_no_remote_update() {
    let local = map(vec![("theme", Value::from("dark")), (TS_KEY, Value::from(500_000i64))]);
    let remote = map(vec![("theme", Value::from("light")), (TS_KEY, Value::from(2_000_000i64))]);
    let (_, local_wins) = merge_settings_json(&local, &remote, sys_time_ms(1_000_000));

    assert!(!local_wins, "local_wins=false means remote is already correct");
}

#[test]
fn stamp_that_is_no_integer_counts_as_none() {
    let local = map(vec![(TS_KEY, Value::from("yesterday")), ("a", Value::from(1))]);
    let remote = map(vec![(TS_KEY, Value::from("tomorrow")), ("a", Value::from(2))]);
    let (result, local_wins) = merge_settings_at(&local, &remote, 7);
    assert!(local_wins);
    assert_eq!(result["a"], 1);
    assert_eq!(result[TS_KEY], 7);

    let float = map(vec![(TS_KEY, Value::from(9e15))]);
    let (_, local_wins) = merge_settings_at(&local, &float, 7);
    assert!(local_wins);
}

#[test]
fn stamp_beyond_64_bits_counts_as_none() {
    let local = map(vec![(TS_KEY, Value::from(1))]);
    let remote = map(vec![(TS_KEY, Value::from(u64::MAX))]);
    assert!(merge_settings_at(&local, &remote, 7).1);
    let largest = map(vec![(TS_KEY, Value::from(i64::MAX))]);
    assert!(!merge_settings_at(&local, &largest, 7).1);
    assert!(merge_settings_at(&local, &largest, i64::MAX).1);
}

#[test]
fn negative_moments_are_kept() {
    let local = map(vec![(TS_KEY, Value::from(1))]);
    let remote = map(vec![(TS_KEY, Value::from(-5))]);
    let (result, local_wins) = merge_settings_at(&local, &remote, -5);
    assert!(local_wins);
    assert_eq!(result[TS_KEY], -5);
    assert!(!merge_settings_at(&local, &remote, -6).1);
}

#[test]
fn unix_milliseconds() {
    assert_eq!(to_unix_millis(UNIX_EPOCH), 0);
    assert_eq!(to_unix_millis(UNIX_EPOCH + Duration::from_micros(1_999)), 1);
    assert_eq!(to_unix_millis(UNIX_EPOCH + Duration::new(1_700_000_000, 123_456_789)), 1_700_000_000_123);
    assert_eq!(to_unix_millis(UNIX_EPOCH - Duration::from_secs(10)), 0);
}

#[test]
fn reading_settings() {
    let m = read_remote_settings("{\"theme\": \"dark\", \"n\": 3}").ok().unwrap();
    assert_eq!(m.len(), 2);
    assert_eq!(m["theme"], "dark");
    assert_eq!(m["n"], 3);
    assert!(read_remote_settings("[1, 2]").ok().unwrap().is_empty());
    assert!(read_local_settings("3").ok().unwrap().is_empty());
    assert_eq!(read_local_settings("{\"a\": null}").ok().unwrap()["a"], Value::Null);
}

#[test]
fn unreadable_settings_are_errors_of_their_side() {
    assert!(matches!(read_remote_settings("{"), Err(SettingsError::RemoteJson(_))));
    assert!(matches!(read_local_settings("nonsense"), Err(SettingsError::LocalJson(_))));
    assert!(matches!(push_settings_at("", 1), Err(SettingsError::LocalJson(_))));
    assert!(matches!(push_settings(Some("{,}"), UNIX_EPOCH), Err(SettingsError::LocalJson(_))));
    let remote = map(vec![]);
    assert!(matches!(pull_settings(Some(("{]", UNIX_EPOCH)), Some(&remote)), Err(SettingsError::LocalJson(_))));
}

#[test]
fn settled_text_is_indented() {
    let local = map(vec![(TS_KEY, Value::from(1)), ("b", Value::from(true))]);
    let remote = map(vec![]);
    let settled = settle_settings(&local, &remote, 5).ok().unwrap();
    assert!(settled.local_wins);
    assert_eq!(settled.text, "{\n  \"b\": true,\n  \"lastModifiedTimestamp\": 5\n}");
}

#[test]
fn pull_without_a_local_file_takes_the_remote_settings() {
    let remote = map(vec![("theme", Value::from("light"))]);
    let settled = pull_settings(None, Some(&remote)).ok().unwrap().unwrap();
    assert!(!settled.local_wins);
    assert_eq!(settled.text, "{\n  \"theme\": \"light\"\n}");
}

#[test]
fn pull_compares_the_local_file() {
    let local = "{\"theme\": \"dark\", \"lastModifiedTimestamp\": 5}";
    let remote = map(vec![("theme", Value::from("light")), (TS_KEY, Value::from(1_000))]);
    let settled = pull_settings(Some((local, sys_time_ms(2_000))), Some(&remote)).ok().unwrap().unwrap();
    assert!(settled.local_wins);
    assert_eq!(settled.text, "{\n  \"lastModifiedTimestamp\": 2000,\n  \"theme\": \"dark\"\n}");
    let settled = pull_settings(Some((local, sys_time_ms(999))), Some(&remote)).ok().unwrap().unwrap();
    assert!(!settled.local_wins);
    assert_eq!(settled.text, "{\n  \"lastModifiedTimestamp\": 1000,\n  \"theme\": \"light\"\n}");
}

#[test]
fn pull_of_local_settings_that_are_no_object() {
    let remote = map(vec![("theme", Value::from("light"))]);
    let settled = pull_settings(Some(("17", sys_time_ms(2_000))), Some(&remote)).ok().unwrap().unwrap();
    assert!(!settled.local_wins);
    assert_eq!(settled.text, "{\n  \"theme\": \"light\"\n}");
}

#[test]
fn push_stamps_once() {
    let first = push_settings(Some("{\"theme\":\"dark\"}"), sys_time_ms(4_000)).ok().unwrap().unwrap();
    assert_eq!(first, "{\n  \"lastModifiedTimestamp\": 4000,\n  \"theme\": \"dark\"\n}");
    let second = push_settings(Some(&first), sys_time_ms(9_000)).ok().unwrap().unwrap();
    assert_eq!(second, first);
}

#[test]
fn push_keeps_a_stamp_of_any_kind() {
    let text = push_settings_at("{\"lastModifiedTimestamp\": null}", 4_000).ok().unwrap();
    assert_eq!(text, "{\n  \"lastModifiedTimestamp\": null\n}");
}

#[test]
fn push_leaves_other_values_alone() {
    assert_eq!(push_settings_at("[1,\"a\"]", 4_000).ok().unwrap(), "[\n  1,\n  \"a\"\n]");
    assert_eq!(push_settings_at("null", 4_000).ok().unwrap(), "null");
}

#[test]
fn pushed_settings_arrive_on_another_machine() {
    let text = push_settings_at("{\"theme\":\"dark\"}", 4_000).ok().unwrap();
    let remote = read_remote_settings(&text).ok().unwrap();
    let other = "{\"theme\":\"light\",\"lastModifiedTimestamp\":1}";
    let settled = pull_settings(Some((other, sys_time_ms(3_999))), Some(&remote)).ok().unwrap().unwrap();
    assert!(!settled.local_wins);
    assert_eq!(settled.text, text);
    assert!(pull_settings(Some((other, sys_time_ms(4_000))), Some(&remote)).ok().unwrap().unwrap().local_wins);
}

#[test]
fn second_pull_changes_nothing_but_the_stamp() {
    let local = map(vec![("theme", Value::from("dark")), (TS_KEY, Value::from(1))]);
    let remote = map(vec![("theme", Value::from("light")), (TS_KEY, Value::from(1_000))]);
    for first_ms in vec![999, 1_000, 1_001] {
        let (settled, local_won) = merge_settings_at(&local, &remote, first_ms);
        let remote_then = if local_won { settled.clone() } else { remote.clone() };
        let (mut again, _) = merge_settings_at(&settled, &remote_then, 5_000);
        let mut before = settled.clone();
        again.remove(TS_KEY);
        before.remove(TS_KEY);
        assert_eq!(again, before);
    }
}

#[test]
fn file_keeps_keys_and_stamp() {
    let local = map(vec![("x", Value::from(0.1)), (TS_KEY, Value::from(1)), ("y", Value::from(-3))]);
    let settled = settle_settings(&local, &map(vec![]), 77).ok().unwrap();
    let read = read_local_settings(&settled.text).ok().unwrap();
    assert_eq!(read.len(), 3);
    assert_eq!(read[TS_KEY], 77);
    assert_eq!(read["y"], -3);
    assert!(read.contains_key("x"));
}

#[test]
fn nothing_to_do_without_a_file() {
    let local = "{\"theme\": \"dark\"}";
    assert!(pull_settings(Some((local, sys_time_ms(5))), None).ok().unwrap().is_none());
    assert!(pull_settings(Some(("no json", sys_time_ms(5))), None).ok().unwrap().is_none());
    assert!(push_settings(None, sys_time_ms(5)).ok().unwrap().is_none());
}

#[test]
fn push_then_pull_keeps_every_setting() {
    let content = "{\"a\": [1, {\"b\": null}], \"n\": -7, \"t\": \"x\\ny\", \"f\": 2.5, \"o\": true}";
    let before = read_local_settings(content).ok().unwrap();
    let remote_text = push_settings(Some(content), sys_time_ms(4_000)).ok().unwrap().unwrap();
    let remote = read_remote_settings(&remote_text).ok().unwrap();
    for ms in vec![3_999, 4_000, 4_001] {
        for local in vec![content, remote_text.as_str()] {
            let settled = pull_settings(Some((local, sys_time_ms(ms))), Some(&remote)).ok().unwrap().unwrap();
            let after = read_local_settings(&settled.text).ok().unwrap();
            assert_eq!(after.len(), before.len() + 1);
            assert!(after.contains_key(TS_KEY));
            for (key, value) in &before {
                assert_eq!(&after[key], value);
            }
        }
    }
}

#[test]
fn second_pull_keeps_every_setting_of_the_files() {
    let local = "{\"a\": [1.5, \"z\"], \"lastModifiedTimestamp\": 9}";
    let mut remote = map(vec![("a", Value::from("other")), (TS_KEY, Value::from(1_000))]);
    for first_ms in vec![999, 1_001] {
        let first = pull_settings(Some((local, sys_time_ms(first_ms))), Some(&remote)).ok().unwrap().unwrap();
        let first_read = read_local_settings(&first.text).ok().unwrap();
        if first.local_wins {
            remote = read_remote_settings(&first.text).ok().unwrap();
        }
        let second = pull_settings(Some((first.text.as_str(), sys_time_ms(5_000))), Some(&remote)).ok().unwrap().unwrap();
        assert!(second.local_wins);
        let second_read = read_local_settings(&second.text).ok().unwrap();
        assert_eq!(second_read.len(), first_read.len());
        assert_eq!(second_read["a"], first_read["a"]);
        assert_eq!(second_read[TS_KEY], 5_000);
    }
}

#[test]
fn pushed_file_arrives_whole() {
    let text = push_settings_at("{\"x\": {\"y\": [true]}, \"n\": 3}", 4_000).ok().unwrap();
    let remote = read_remote_settings(&text).ok().unwrap();
    let settled = pull_settings(Some(("{\"n\": 4}", sys_time_ms(9_000))), Some(&remote)).ok().unwrap().unwrap();
    let after = read_local_settings(&settled.text).ok().unwrap();
    assert_eq!(after, remote);
    assert_eq!(after["n"], 3);
    assert_eq!(after["x"]["y"][0], true);
}

#[test]
fn pull_from_both_texts() {
    let local = Some(("{\"a\": 1, \"lastModifiedTimestamp\": 5}", sys_time_ms(2_000)));
    assert!(matches!(pull_settings_texts(Some(("{", UNIX_EPOCH)), Some("{")), Err(SettingsError::RemoteJson(_))));
    assert!(matches!(pull_settings_texts(Some(("{", UNIX_EPOCH)), Some("{}")), Err(SettingsError::LocalJson(_))));
    assert!(matches!(pull_settings_texts(None, Some("nonsense")), Err(SettingsError::RemoteJson(_))));
    assert!(pull_settings_texts(Some(("{", UNIX_EPOCH)), None).ok().unwrap().is_none());
    let settled = pull_settings_texts(local, Some("{\"a\": 2, \"lastModifiedTimestamp\": 1999}")).ok().unwrap().unwrap();
    assert!(settled.local_wins);
    assert_eq!(settled.text, "{\n  \"a\": 1,\n  \"lastModifiedTimestamp\": 2000\n}");
    let settled = pull_settings_texts(local, Some("{\"a\": 2, \"lastModifiedTimestamp\": 2001}")).ok().unwrap().unwrap();
    assert!(!settled.local_wins);
    assert_eq!(settled.text, "{\n  \"a\": 2,\n  \"lastModifiedTimestamp\": 2001\n}");
}

#[test]
fn stamps_of_moments() {
    let last = sys_time_ms(253_402_300_799_999);
    assert_eq!(compact_stamp(last).as_deref(), Some("99991231-235959"));
    assert_eq!(readable_stamp(last).as_deref(), Some("9999-12-31 23:59:59 UTC"));
    let next = last + Duration::from_millis(1);
    assert_eq!(compact_stamp(next).as_deref(), Some("+100000101-000000"));
    assert_eq!(readable_stamp(next).as_deref(), Some("+10000-01-01 00:00:00 UTC"));
    assert_eq!(readable_stamp(UNIX_EPOCH - Duration::from_secs(1)), None);
    assert_eq!(readable_stamp(UNIX_EPOCH + Duration::from_secs(9_000_000_000_000)), None);
}
