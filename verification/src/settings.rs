//! Synchronisation of `settings.json`: which side wins a pull, and the stamp that a push leaves.
use crate::clock::{to_unix_millis, unix_millis};
use crate::json::{
    are_legible, entries, int_of, int_value, map_clone, map_contains_key, map_get, map_insert, map_new,
    map_or_insert, keeps, no_entries, object_entries, object_value, parse, parsed, pretty, read_back, text_holds, value_as_i64,
    value_as_object, value_as_object_mut, value_from_i64, value_from_map, write_pretty,
};
use std::time::SystemTime;
use vstd::prelude::*;

verus! {

/// The key of the stamp: Unix milliseconds of the last change.
pub const TS_KEY: &'static str = "lastModifiedTimestamp";

/// The stamp that settings carry; `None` without the key, or where its value is no integer.
pub open spec fn stamp_of(settings: Map<Seq<char>, serde_json::Value>) -> Option<i64> {
    if settings.contains_key(TS_KEY@) {
        int_of(settings[TS_KEY@])
    } else {
        None
    }
}

/// Whether local settings, last changed at `local_ms`, win over remote ones: they carry a stamp
/// key, and the remote stamp, if there is one, is not later.
pub open spec fn local_prevails(
    local: Map<Seq<char>, serde_json::Value>,
    remote: Map<Seq<char>, serde_json::Value>,
    local_ms: int,
) -> bool {
    &&& local.contains_key(TS_KEY@)
    &&& match stamp_of(remote) {
        Some(remote_ms) => remote_ms <= local_ms,
        None => true,
    }
}

/// What a pull settles on: all of the winner's content, with a fresh stamp where local wins.
pub open spec fn merged(
    local: Map<Seq<char>, serde_json::Value>,
    remote: Map<Seq<char>, serde_json::Value>,
    local_ms: i64,
) -> Map<Seq<char>, serde_json::Value> {
    if local_prevails(local, remote, local_ms as int) {
        local.insert(TS_KEY@, int_value(local_ms))
    } else {
        remote
    }
}

/// The settings that a JSON value holds: none where it is no object.
pub open spec fn settings_in(v: serde_json::Value) -> Map<Seq<char>, serde_json::Value> {
    match object_entries(v) {
        Some(e) => e,
        None => no_entries(),
    }
}

/// Settings with a stamp: the one they carry, or else `now_ms`.
pub open spec fn stamped(settings: Map<Seq<char>, serde_json::Value>, now_ms: i64) -> Map<Seq<char>, serde_json::Value> {
    if settings.contains_key(TS_KEY@) {
        settings
    } else {
        settings.insert(TS_KEY@, int_value(now_ms))
    }
}

/// The value that a push writes for a value read: an object gets a stamp, anything else stays.
pub open spec fn pushed(v: serde_json::Value, now_ms: i64) -> serde_json::Value {
    match object_entries(v) {
        Some(e) => object_value(stamped(e, now_ms)),
        None => v,
    }
}

/// Whether a text tells of these settings: where it can be read again, what comes back of them
/// is there; and it can be wherever each of them keeps and was read before.
pub open spec fn tells_of(text: Seq<char>, settings: Map<Seq<char>, serde_json::Value>) -> bool {
    &&& parsed(text) matches Some(v) ==> read_back(settings, settings_in(v))
    &&& are_legible(settings) ==> parsed(text) is Some
}

/// Whether a text, where it can be read again, holds no settings.
pub open spec fn holds_no_settings(text: Seq<char>) -> bool {
    parsed(text) matches Some(v) ==> settings_in(v) == no_entries()
}

/// Whether `text` is what a push at `now_ms` writes for an object of these settings.
pub open spec fn pushed_text(settings: Map<Seq<char>, serde_json::Value>, now_ms: i64, text: Seq<char>) -> bool {
    &&& text == pretty(object_value(stamped(settings, now_ms)))
    &&& tells_of(text, stamped(settings, now_ms))
    &&& !settings.contains_key(TS_KEY@) ==> stamp_of(stamped(settings, now_ms)) == Some(now_ms)
}

/// Whether `text` is what a pull writes for local settings last changed at `local_ms`.
pub open spec fn pulled_text(
    local: Map<Seq<char>, serde_json::Value>,
    remote: Map<Seq<char>, serde_json::Value>,
    local_ms: i64,
    text: Seq<char>,
) -> bool {
    &&& text == pretty(object_value(merged(local, remote, local_ms)))
    &&& tells_of(text, merged(local, remote, local_ms))
    &&& local_prevails(local, remote, local_ms as int) ==> stamp_of(merged(local, remote, local_ms)) == Some(local_ms)
}

/// What stops a synchronisation of settings.
pub enum SettingsError {
    /// The settings in the sync repository are not JSON.
    RemoteJson(serde_json::Error),
    /// The local settings are not JSON.
    LocalJson(serde_json::Error),
    /// The settled settings cannot be written as JSON. No settings are known of which this holds.
    Write(serde_json::Error),
}

/// The outcome of a pull of settings: the text to write to the local file, and also to the sync
/// repository where local won.
pub struct SettledSettings {
    pub text: String,
    pub local_wins: bool,
}

/// The winning settings of a pull, for local settings last changed at `local_ms`, and whether
/// local won.
pub fn merge_settings_at(
    local: &serde_json::Map<String, serde_json::Value>,
    remote: &serde_json::Map<String, serde_json::Value>,
    local_ms: i64,
) -> (r: (serde_json::Map<String, serde_json::Value>, bool))
    ensures
        entries(r.0) == merged(entries(*local), entries(*remote), local_ms),
        r.1 == local_prevails(entries(*local), entries(*remote), local_ms as int),
        r.1 ==> stamp_of(entries(r.0)) == Some(local_ms),
{
    if !map_contains_key(local, TS_KEY) {
        return (map_clone(remote), false);
    }
    let remote_ts_ms = match map_get(remote, TS_KEY) {
        Some(v) => value_as_i64(v),
        None => None,
    };
    if let Some(rts) = remote_ts_ms {
        if rts > local_ms {
            return (map_clone(remote), false);
        }
    }
    let mut result = map_clone(local);
    map_insert(&mut result, TS_KEY.to_string(), value_from_i64(local_ms));
    (result, true)
}

/// The winning settings of a pull, for a local file last changed at `local_mtime`, and whether
/// local won, so that the sync repository is to be updated with the result.
///
/// Local settings without a stamp key are taken for defaults: remote wins. Otherwise the later
/// of the two wins, local where both are equal or remote has no stamp. The winner's content is
/// taken whole.
pub fn merge_settings_json(
    local: &serde_json::Map<String, serde_json::Value>,
    remote: &serde_json::Map<String, serde_json::Value>,
    local_mtime: SystemTime,
) -> (r: (serde_json::Map<String, serde_json::Value>, bool))
    ensures
        entries(r.0) == merged(entries(*local), entries(*remote), unix_millis(local_mtime) as i64),
        r.1 == local_prevails(entries(*local), entries(*remote), unix_millis(local_mtime)),
        r.1 ==> stamp_of(entries(r.0)) == Some(unix_millis(local_mtime) as i64),
{
    merge_settings_at(local, remote, to_unix_millis(local_mtime))
}

fn settings_of_value(v: &serde_json::Value) -> (r: serde_json::Map<String, serde_json::Value>)
    ensures
        entries(r) == settings_in(*v),
{
    match value_as_object(v) {
        Some(m) => map_clone(m),
        None => map_new(),
    }
}

/// The settings that a remote file's text holds.
pub fn read_remote_settings(text: &str) -> (r: Result<serde_json::Map<String, serde_json::Value>, SettingsError>)
    ensures
        r is Ok <==> parsed(text@) is Some,
        r is Ok ==> entries(r->Ok_0) == settings_in(parsed(text@)->0),
        r is Err ==> r->Err_0 is RemoteJson,
{
    match parse(text) {
        Ok(v) => Ok(settings_of_value(&v)),
        Err(e) => Err(SettingsError::RemoteJson(e)),
    }
}

/// The settings that a local file's text holds.
pub fn read_local_settings(text: &str) -> (r: Result<serde_json::Map<String, serde_json::Value>, SettingsError>)
    ensures
        r is Ok <==> parsed(text@) is Some,
        r is Ok ==> entries(r->Ok_0) == settings_in(parsed(text@)->0),
        r is Err ==> r->Err_0 is LocalJson,
{
    match parse(text) {
        Ok(v) => Ok(settings_of_value(&v)),
        Err(e) => Err(SettingsError::LocalJson(e)),
    }
}

/// Settles local and remote settings, and writes the outcome as text.
pub fn settle_settings(
    local: &serde_json::Map<String, serde_json::Value>,
    remote: &serde_json::Map<String, serde_json::Value>,
    local_ms: i64,
) -> (r: Result<SettledSettings, SettingsError>)
    ensures
        r is Ok,
        r is Ok ==> pulled_text(entries(*local), entries(*remote), local_ms, r->Ok_0.text@),
        r is Ok ==> r->Ok_0.local_wins == local_prevails(entries(*local), entries(*remote), local_ms as int),
{
    let (result, local_wins) = merge_settings_at(local, remote, local_ms);
    match write_pretty(&value_from_map(result)) {
        Ok(text) => Ok(SettledSettings { text, local_wins }),
        Err(e) => Err(SettingsError::Write(e)),
    }
}

/// The local settings of a pull: those of the local file with its time of change, or none at
/// the Unix epoch where there is no local file.
pub open spec fn local_side(local: Option<(&str, SystemTime)>) -> Option<(Map<Seq<char>, serde_json::Value>, i64)> {
    match local {
        Some((text, mtime)) => match parsed(text@) {
            Some(v) => Some((settings_in(v), unix_millis(mtime) as i64)),
            None => None,
        },
        None => Some((no_entries(), 0i64)),
    }
}

/// Pulls settings: settles the remote settings with the text and the time of change of the
/// local file, if there is one. Without remote settings there is nothing to do: the local file
/// stays as it is.
pub fn pull_settings(
    local: Option<(&str, SystemTime)>,
    remote: Option<&serde_json::Map<String, serde_json::Value>>,
) -> (r: Result<Option<SettledSettings>, SettingsError>)
    ensures
        match (remote, local_side(local)) {
            (None, _) => r is Ok && r->Ok_0 is None,
            (Some(_), None) => r is Err && r->Err_0 is LocalJson,
            (Some(theirs), Some((settings, ms))) => {
                &&& r matches Ok(Some(settled))
                &&& pulled_text(settings, entries(*theirs), ms, settled.text@)
                &&& settled.local_wins == local_prevails(settings, entries(*theirs), ms as int)
            },
        },
{
    let remote = match remote {
        Some(m) => m,
        None => {
            return Ok(None);
        },
    };
    let settled = match local {
        Some((text, mtime)) => match read_local_settings(text) {
            Ok(settings) => settle_settings(&settings, remote, to_unix_millis(mtime)),
            Err(e) => Err(e),
        },
        None => settle_settings(&map_new(), remote, 0),
    };
    match settled {
        Ok(s) => Ok(Some(s)),
        Err(e) => Err(e),
    }
}

/// Pulls settings from the texts of both files, as far as they are there. A remote text that is
/// not JSON is told before the local one is looked at.
pub fn pull_settings_texts(
    local: Option<(&str, SystemTime)>,
    remote: Option<&str>,
) -> (r: Result<Option<SettledSettings>, SettingsError>)
    ensures
        match remote {
            None => r is Ok && r->Ok_0 is None,
            Some(text) => match (parsed(text@), local_side(local)) {
                (None, _) => r is Err && r->Err_0 is RemoteJson,
                (Some(_), None) => r is Err && r->Err_0 is LocalJson,
                (Some(v), Some((settings, ms))) => {
                    &&& r matches Ok(Some(settled))
                    &&& pulled_text(settings, settings_in(v), ms, settled.text@)
                    &&& settled.local_wins == local_prevails(settings, settings_in(v), ms as int)
                },
            },
        },
{
    match remote {
        Some(text) => match read_remote_settings(text) {
            Ok(settings) => pull_settings(local, Some(&settings)),
            Err(e) => Err(e),
        },
        None => Ok(None),
    }
}

/// Pushes settings at `now_ms`: the text to write to the sync repository for the text of the
/// local file. The stamp of the settings written is the one that a pull of the text reads.
pub fn push_settings_at(content: &str, now_ms: i64) -> (r: Result<String, SettingsError>)
    ensures
        match parsed(content@) {
            None => r is Err && r->Err_0 is LocalJson,
            Some(v) => {
                &&& r matches Ok(text)
                &&& text@ == pretty(pushed(v, now_ms))
                &&& object_entries(v) is None ==> holds_no_settings(text@)
                &&& object_entries(v) is Some ==> settings_in(pushed(v, now_ms)) == stamped(settings_in(v), now_ms)
                &&& object_entries(v) is Some ==> pushed_text(settings_in(v), now_ms, text@)
            },
        },
{
    let mut json = match parse(content) {
        Ok(v) => v,
        Err(e) => {
            return Err(SettingsError::LocalJson(e));
        },
    };
    if let Some(obj) = value_as_object_mut(&mut json) {
        map_or_insert(obj, TS_KEY, value_from_i64(now_ms));
    }
    match write_pretty(&json) {
        Ok(text) => Ok(text),
        Err(e) => Err(SettingsError::Write(e)),
    }
}

/// Pushes settings at the moment `now`: an object without a stamp gets the one of that moment,
/// by which other machines resolve conflicts against this push. Without a local file there is
/// nothing to push.
pub fn push_settings(content: Option<&str>, now: SystemTime) -> (r: Result<Option<String>, SettingsError>)
    ensures
        match content {
            None => r is Ok && r->Ok_0 is None,
            Some(c) => match parsed(c@) {
                None => r is Err && r->Err_0 is LocalJson,
                Some(v) => {
                    let now_ms = unix_millis(now) as i64;
                    &&& r matches Ok(Some(text))
                    &&& text@ == pretty(pushed(v, now_ms))
                    &&& object_entries(v) is None ==> holds_no_settings(text@)
                    &&& object_entries(v) is Some ==> settings_in(pushed(v, now_ms)) == stamped(settings_in(v), now_ms)
                    &&& object_entries(v) is Some ==> pushed_text(settings_in(v), now_ms, text@)
                },
            },
        },
{
    match content {
        Some(c) => match push_settings_at(c, to_unix_millis(now)) {
            Ok(text) => Ok(Some(text)),
            Err(e) => Err(e),
        },
        None => Ok(None),
    }
}

/// The winner's content is taken whole: under every key but the stamp's, the settled settings
/// hold what the winner holds, and nothing of the loser.
pub proof fn merge_takes_one_side(
    local: Map<Seq<char>, serde_json::Value>,
    remote: Map<Seq<char>, serde_json::Value>,
    local_ms: i64,
    key: Seq<char>,
)
    requires
        key != TS_KEY@,
    ensures
        ({
            let winner = if local_prevails(local, remote, local_ms as int) { local } else { remote };
            let settled = merged(local, remote, local_ms);
            &&& settled.contains_key(key) == winner.contains_key(key)
            &&& winner.contains_key(key) ==> settled[key] == winner[key]
        }),
{
}

/// Local settings without a stamp key yield to any remote settings, which are taken unchanged.
pub proof fn unstamped_local_yields(
    local: Map<Seq<char>, serde_json::Value>,
    remote: Map<Seq<char>, serde_json::Value>,
    local_ms: i64,
)
    requires
        !local.contains_key(TS_KEY@),
    ensures
        !local_prevails(local, remote, local_ms as int),
        merged(local, remote, local_ms) == remote,
{
}

/// Between stamped settings the later change wins, and local wins a tie.
pub proof fn later_change_wins(
    local: Map<Seq<char>, serde_json::Value>,
    remote: Map<Seq<char>, serde_json::Value>,
    local_ms: i64,
    remote_ms: i64,
)
    requires
        local.contains_key(TS_KEY@),
        stamp_of(remote) == Some(remote_ms),
    ensures
        remote_ms > local_ms ==> merged(local, remote, local_ms) == remote,
        remote_ms <= local_ms ==> merged(local, remote, local_ms) == local.insert(TS_KEY@, int_value(local_ms)),
{
}

/// Once a pull has settled, a second pull at any later time changes nothing but the stamp: the
/// local file then holds the settled settings, and so does the sync repository, which was
/// updated where local had won.
pub proof fn second_pull_keeps_contents(
    local: Map<Seq<char>, serde_json::Value>,
    remote: Map<Seq<char>, serde_json::Value>,
    first_ms: i64,
    second_ms: i64,
)
    ensures
        ({
            let settled = merged(local, remote, first_ms);
            let remote_then = if local_prevails(local, remote, first_ms as int) { settled } else { remote };
            merged(settled, remote_then, second_ms).remove(TS_KEY@) == settled.remove(TS_KEY@)
        }),
{
    let settled = merged(local, remote, first_ms);
    assert(settled.insert(TS_KEY@, int_value(second_ms)).remove(TS_KEY@) =~= settled.remove(TS_KEY@));
}

/// Stamping keeps every other setting and every stamp that is there, and stamping twice is
/// stamping once.
pub proof fn stamping_is_stable(settings: Map<Seq<char>, serde_json::Value>, first_ms: i64, second_ms: i64)
    ensures
        stamped(settings, first_ms).contains_key(TS_KEY@),
        settings.contains_key(TS_KEY@) ==> stamped(settings, first_ms) == settings,
        stamped(settings, first_ms).remove(TS_KEY@) == settings.remove(TS_KEY@),
        stamped(stamped(settings, first_ms), second_ms) == stamped(settings, first_ms),
{
    assert(stamped(settings, first_ms).remove(TS_KEY@) =~= settings.remove(TS_KEY@));
}

/// Pushed settings reach the other machine: it takes them unchanged where its own carry no stamp
/// key, or where its file is older than the stamp that the push left.
pub proof fn pushed_settings_arrive(
    source: Map<Seq<char>, serde_json::Value>,
    now_ms: i64,
    other: Map<Seq<char>, serde_json::Value>,
    other_ms: i64,
)
    requires
        !other.contains_key(TS_KEY@) || stamp_of(stamped(source, now_ms)) is Some && stamp_of(stamped(source, now_ms))->0 > other_ms,
    ensures
        merged(other, stamped(source, now_ms), other_ms) == stamped(source, now_ms),
        !local_prevails(other, stamped(source, now_ms), other_ms as int),
{
}

/// A pull decides the same whether it sees settings as they were written or as they are read
/// back from the file: both sides keep their keys and their integers, the stamp among them.
pub proof fn file_keeps_the_decision(
    local: Map<Seq<char>, serde_json::Value>,
    local_read: Map<Seq<char>, serde_json::Value>,
    remote: Map<Seq<char>, serde_json::Value>,
    remote_read: Map<Seq<char>, serde_json::Value>,
    local_ms: i64,
)
    requires
        read_back(local, local_read),
        read_back(remote, remote_read),
    ensures
        stamp_of(local_read) == stamp_of(local),
        stamp_of(remote_read) == stamp_of(remote),
        local_prevails(local_read, remote_read, local_ms as int) == local_prevails(local, remote, local_ms as int),
{
    assert(local_read.dom().contains(TS_KEY@) == local.dom().contains(TS_KEY@));
    assert(remote_read.dom().contains(TS_KEY@) == remote.dom().contains(TS_KEY@));
}

/// Whether every setting comes back unaltered when it is written and read again.
pub open spec fn all_keep(settings: Map<Seq<char>, serde_json::Value>) -> bool {
    forall|k: Seq<char>| #[trigger] settings.contains_key(k) ==> keeps(settings[k])
}

/// Whether `after` holds what `before` does under every key but the stamp's: the same keys, the
/// same integers, and the same value wherever the one before keeps.
pub open spec fn agree(before: Map<Seq<char>, serde_json::Value>, after: Map<Seq<char>, serde_json::Value>) -> bool {
    &&& after.dom().insert(TS_KEY@) == before.dom().insert(TS_KEY@)
    &&& forall|k: Seq<char>| #[trigger]
        before.contains_key(k) && k != TS_KEY@ ==> {
            &&& int_of(after[k]) == int_of(before[k])
            &&& int_of(before[k]) is Some || keeps(before[k]) ==> after[k] == before[k]
        }
}

/// Settings that were read and keep are legible, with a stamp too.
proof fn read_settings_are_legible(text: Seq<char>, settings: Map<Seq<char>, serde_json::Value>, now_ms: i64)
    requires
        parsed(text) is Some,
        settings == settings_in(parsed(text)->0),
        all_keep(settings),
    ensures
        are_legible(settings),
        int_of(int_value(now_ms)) is Some ==> are_legible(settings.insert(TS_KEY@, int_value(now_ms))),
{
    assert forall|k: Seq<char>| #[trigger] settings.contains_key(k) implies exists|t: Seq<char>, key: Seq<char>| #[trigger]
        text_holds(t, key, settings[k]) by {
        assert(text_holds(text, k, settings[k]));
    }
    let more = settings.insert(TS_KEY@, int_value(now_ms));
    assert forall|k: Seq<char>| #[trigger] more.contains_key(k) && int_of(int_value(now_ms)) is Some implies int_of(more[k]) is Some
        || keeps(more[k]) && exists|t: Seq<char>, key: Seq<char>| #[trigger] text_holds(t, key, more[k]) by {
        if k != TS_KEY@ {
            assert(settings.contains_key(k));
            assert(text_holds(text, k, more[k]));
        }
    }
}

/// A push followed by a pull on the same machine loses and alters no setting, as read from the
/// files: whoever wins, the local file afterwards has the keys that it had and the stamp's, and
/// under each other key the same integer, and the same value wherever that value keeps. Where
/// every setting keeps, both files can be read.
pub proof fn push_then_pull_keeps_settings(
    content: Seq<char>,
    now_ms: i64,
    remote_text: Seq<char>,
    local_ms: i64,
    local_text: Seq<char>,
)
    requires
        parsed(content) is Some,
        pushed_text(settings_in(parsed(content)->0), now_ms, remote_text),
        parsed(remote_text) matches Some(r) ==> pulled_text(
            settings_in(parsed(content)->0),
            settings_in(r),
            local_ms,
            local_text,
        ),
    ensures
        ({
            let before = settings_in(parsed(content)->0);
            let remote = settings_in(parsed(remote_text)->0);
            let after = settings_in(parsed(local_text)->0);
            &&& all_keep(before) ==> parsed(remote_text) is Some && parsed(local_text) is Some
            &&& parsed(remote_text) is Some ==> agree(before, remote) && remote.contains_key(TS_KEY@)
            &&& parsed(remote_text) is Some && parsed(local_text) is Some ==> agree(before, after) && after.contains_key(TS_KEY@)
        }),
{
    let before = settings_in(parsed(content)->0);
    let stamped_before = stamped(before, now_ms);
    if all_keep(before) {
        read_settings_are_legible(content, before, now_ms);
        assert(are_legible(stamped_before));
    }
    if parsed(remote_text) is Some {
        let remote = settings_in(parsed(remote_text)->0);
        assert(remote.dom() == stamped_before.dom());
        assert(agree(before, remote)) by {
            assert(remote.dom().insert(TS_KEY@) =~= before.dom().insert(TS_KEY@));
            assert forall|k: Seq<char>| #[trigger] before.contains_key(k) && k != TS_KEY@ implies int_of(remote[k]) == int_of(before[k])
                && (int_of(before[k]) is Some || keeps(before[k]) ==> remote[k] == before[k]) by {
                assert(stamped_before.contains_key(k));
            }
        }
        assert(remote.dom().contains(TS_KEY@));
        let settled = merged(before, remote, local_ms);
        if all_keep(before) {
            if local_prevails(before, remote, local_ms as int) {
                read_settings_are_legible(content, before, local_ms);
            } else {
                assert forall|k: Seq<char>| #[trigger] remote.contains_key(k) implies keeps(remote[k]) || int_of(remote[k]) is Some by {
                    assert(stamped_before.dom().contains(k));
                    if before.contains_key(k) {
                        assert(remote[k] == before[k]);
                    } else {
                        assert(k == TS_KEY@);
                    }
                }
                assert forall|k: Seq<char>| #[trigger] remote.contains_key(k) implies int_of(remote[k]) is Some || keeps(remote[k])
                    && exists|t: Seq<char>, key: Seq<char>| #[trigger] text_holds(t, key, remote[k]) by {
                    assert(text_holds(remote_text, k, remote[k]));
                }
            }
            assert(are_legible(settled));
        }
        if parsed(local_text) is Some {
            let after = settings_in(parsed(local_text)->0);
            assert(after.dom() == settled.dom());
            assert(after.dom().contains(TS_KEY@));
            assert(after.dom().insert(TS_KEY@) =~= before.dom().insert(TS_KEY@));
            assert forall|k: Seq<char>| #[trigger] before.contains_key(k) && k != TS_KEY@ implies int_of(after[k]) == int_of(before[k])
                && (int_of(before[k]) is Some || keeps(before[k]) ==> after[k] == before[k]) by {
                assert(stamped_before.contains_key(k));
                assert(remote.dom().contains(k));
                assert(settled.contains_key(k));
            }
        }
    }
}

/// Pushed settings reach the other machine through the files: where its own carry no stamp key,
/// or its file is older than the stamp that the push left, its file afterwards has the keys of the
/// settings pushed and the stamp's, and under each other key the same integer, and the same value
/// wherever that value keeps.
pub proof fn pushed_file_arrives(
    source: Map<Seq<char>, serde_json::Value>,
    now_ms: i64,
    remote_text: Seq<char>,
    other: Map<Seq<char>, serde_json::Value>,
    other_ms: i64,
    local_text: Seq<char>,
)
    requires
        pushed_text(source, now_ms, remote_text),
        parsed(remote_text) is Some,
        pulled_text(other, settings_in(parsed(remote_text)->0), other_ms, local_text),
        !other.contains_key(TS_KEY@) || stamp_of(stamped(source, now_ms)) is Some && stamp_of(stamped(source, now_ms))->0 > other_ms,
    ensures
        ({
            let remote = settings_in(parsed(remote_text)->0);
            &&& !local_prevails(other, remote, other_ms as int)
            &&& merged(other, remote, other_ms) == remote
            &&& agree(source, remote)
            &&& parsed(local_text) matches Some(v) ==> agree(source, settings_in(v)) && settings_in(v).dom() == remote.dom()
        }),
{
    let written = stamped(source, now_ms);
    let remote = settings_in(parsed(remote_text)->0);
    assert(remote.dom() == written.dom());
    assert(remote.dom().contains(TS_KEY@) && written.contains_key(TS_KEY@));
    assert(stamp_of(remote) == stamp_of(written));
    assert(remote.dom().insert(TS_KEY@) =~= source.dom().insert(TS_KEY@));
    assert forall|k: Seq<char>| #[trigger] source.contains_key(k) && k != TS_KEY@ implies int_of(remote[k]) == int_of(source[k]) && (
    int_of(source[k]) is Some || keeps(source[k]) ==> remote[k] == source[k]) by {
        assert(written.contains_key(k));
    }
    if parsed(local_text) is Some {
        let after = settings_in(parsed(local_text)->0);
        assert(after.dom() == remote.dom());
        assert forall|k: Seq<char>| #[trigger] source.contains_key(k) && k != TS_KEY@ implies int_of(after[k]) == int_of(source[k])
            && (int_of(source[k]) is Some || keeps(source[k]) ==> after[k] == source[k]) by {
            assert(written.contains_key(k));
            assert(remote.dom().contains(k));
            assert(remote.contains_key(k));
        }
    }
}

/// A second pull, with nothing changed in between, adds, loses and alters no setting, as read
/// from the files: after the first one the local file holds the settled text, and so does the
/// sync repository where local had won. Afterwards both sides agree again. Where every setting
/// keeps, the file can be read after the second pull as after the first.
pub proof fn second_pull_keeps_settings(
    local: Map<Seq<char>, serde_json::Value>,
    remote: Map<Seq<char>, serde_json::Value>,
    first_ms: i64,
    first_text: Seq<char>,
    second_ms: i64,
    second_text: Seq<char>,
)
    requires
        pulled_text(local, remote, first_ms, first_text),
        parsed(first_text) is Some,
        ({
            let first = settings_in(parsed(first_text)->0);
            let remote_then = if local_prevails(local, remote, first_ms as int) { first } else { remote };
            pulled_text(first, remote_then, second_ms, second_text)
        }),
    ensures
        ({
            let first = settings_in(parsed(first_text)->0);
            let remote_then = if local_prevails(local, remote, first_ms as int) { first } else { remote };
            let second = settings_in(parsed(second_text)->0);
            let remote_after = if local_prevails(first, remote_then, second_ms as int) { second } else { remote_then };
            &&& all_keep(first) ==> parsed(second_text) is Some
            &&& parsed(second_text) is Some ==> {
                &&& second.dom() == first.dom()
                &&& agree(first, second)
                &&& remote_after.dom() == second.dom()
                &&& agree(remote_after, second)
            }
        }),
{
    let first = settings_in(parsed(first_text)->0);
    let won = local_prevails(local, remote, first_ms as int);
    let settled = merged(local, remote, first_ms);
    let remote_then = if won { first } else { remote };
    let again = merged(first, remote_then, second_ms);
    let wins = local_prevails(first, remote_then, second_ms as int);
    if all_keep(first) {
        read_settings_are_legible(first_text, first, second_ms);
    }
    if parsed(second_text) is Some {
        let second = settings_in(parsed(second_text)->0);
        assert(second.dom() == again.dom());
        assert(again.dom() =~= first.dom());
        assert forall|k: Seq<char>| #[trigger] first.contains_key(k) && k != TS_KEY@ implies int_of(second[k]) == int_of(first[k]) && (
        int_of(first[k]) is Some || keeps(first[k]) ==> second[k] == first[k]) by {
            assert(settled.dom().contains(k));
            assert(again.dom().contains(k));
            assert(again.contains_key(k) && settled.contains_key(k));
        }
        let remote_after = if wins { second } else { remote_then };
        assert forall|k: Seq<char>| #[trigger] remote_after.contains_key(k) && k != TS_KEY@ implies int_of(second[k]) == int_of(
            remote_after[k],
        ) && (int_of(remote_after[k]) is Some || keeps(remote_after[k]) ==> second[k] == remote_after[k]) by {
            if !wins {
                assert(again.contains_key(k));
            }
        }
    }
}

/// Who wins a pull, and what it settles on. Local settings without a stamp key lose. Else local
/// loses exactly where the remote settings have an integer under the key that is later than the
/// time of the local change. A winning local side keeps all its settings and gets the time of its
/// change as stamp; a winning remote side is taken as it is.
pub proof fn pull_settles_by_time(
    local: Map<Seq<char>, serde_json::Value>,
    remote: Map<Seq<char>, serde_json::Value>,
    local_ms: i64,
)
    ensures
        ({
            let key = "lastModifiedTimestamp"@;
            let remote_is_later = remote.contains_key(key) && int_of(remote[key]) is Some && int_of(remote[key])->0 > local_ms;
            let local_wins = local.contains_key(key) && !remote_is_later;
            &&& local_prevails(local, remote, local_ms as int) == local_wins
            &&& local_wins ==> merged(local, remote, local_ms) == local.insert(key, int_value(local_ms))
            &&& !local_wins ==> merged(local, remote, local_ms) == remote
        }),
{
}

/// What a push writes: an object gets the stamp of the moment where it has no stamp key, and is
/// otherwise written as it is, as is any other value.
pub proof fn push_stamps_what_has_no_stamp(v: serde_json::Value, now_ms: i64)
    ensures
        ({
            let key = "lastModifiedTimestamp"@;
            match object_entries(v) {
                Some(e) => pushed(v, now_ms) == object_value(
                    if e.contains_key(key) {
                        e
                    } else {
                        e.insert(key, int_value(now_ms))
                    },
                ),
                None => pushed(v, now_ms) == v,
            }
        }),
        object_entries(v) matches Some(e) ==> settings_in(v) == e,
        object_entries(v) is None ==> forall|k: Seq<char>| !#[trigger] settings_in(v).contains_key(k),
{
}

/// What a pull and a push write is the text of what they settle on.
pub proof fn texts_are_of_the_settings(
    local: Map<Seq<char>, serde_json::Value>,
    remote: Map<Seq<char>, serde_json::Value>,
    ms: i64,
    text: Seq<char>,
)
    ensures
        pulled_text(local, remote, ms, text) ==> text == pretty(object_value(merged(local, remote, ms))),
        pushed_text(local, ms, text) ==> text == pretty(object_value(stamped(local, ms))),
        tells_of(text, local) ==> (parsed(text) matches Some(v) ==> read_back(local, settings_in(v))),
        holds_no_settings(text) ==> (parsed(text) matches Some(v) ==> forall|k: Seq<char>| !#[trigger]
            settings_in(v).contains_key(k)),
{
}

/// The local side of a pull is what the local file says, at the time of its change; without a file
/// there are no settings, at the epoch; a file that is not JSON has no side.
pub proof fn local_side_is_the_file(text: &str, mtime: SystemTime)
    ensures
        parsed(text@) matches Some(v) ==> local_side(Some((text, mtime))) == Some((settings_in(v), unix_millis(mtime) as i64)),
        parsed(text@) is None ==> local_side(Some((text, mtime))) is None,
        local_side(None) matches Some((settings, ms)) && ms == 0 && forall|k: Seq<char>| !#[trigger] settings.contains_key(k),
{
}

} // verus!
