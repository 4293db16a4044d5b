//! The guests' print history, how it is read back from its stored form, and
//! the rule that decides who may print now.
use crate::clock::{
    chrono_rfc3339_instant, elapsed_nanos, nanos_between, now_utc, rfc3339_instant, CalendarDate, Timestamp,
};
use crate::config::{text_of, Config};
use crate::text::{chars_of, decimal_text, extend_chars, parse_i64, parsed_i64, render_decimal,
    same_chars, string_from_chars,
};
use serde_json::Value;
use std::collections::HashMap;
use vstd::prelude::*;

verus! {

broadcast use vstd::std_specs::hash::group_hash_axioms;

/// The last print of a guest.
#[derive(Clone, Debug)]
pub struct UserPrintRecord {
    pub last_print: Timestamp,
    pub username: String,
}

impl View for UserPrintRecord {
    type V = (Timestamp, Seq<char>);

    open spec fn view(&self) -> (Timestamp, Seq<char>) {
        (self.last_print, self.username@)
    }
}

/// The last print of each guest, by user ID.
pub type PrintHistory = HashMap<i64, UserPrintRecord>;

/// A history as its abstract value: user ID to (time of last print, name).
pub open spec fn history_view(h: Map<i64, UserPrintRecord>) -> Map<i64, (Timestamp, Seq<char>)> {
    h.map_values(|r: UserPrintRecord| r@)
}

/// The name recorded for a user who has none.
pub open spec fn unknown_name() -> Seq<char> {
    "Unknown"@
}

/// How long a guest waits between two prints: seven days, in seconds.
pub const GUEST_PRINT_INTERVAL_SECONDS: i64 = 604800;

/// How long a guest waits between two prints, in nanoseconds.
pub open spec fn guest_interval_nanos() -> int {
    GUEST_PRINT_INTERVAL_SECONDS * 1_000_000_000
}

// ---------------------------------------------------------------------------
// The stored form of the history
// ---------------------------------------------------------------------------

/// One user's entry in the stored history, as far as reading it back looks
/// at it: a JSON object (each member with its value if that is a JSON
/// string), a JSON string (the timestamp alone, an older form), or any
/// other JSON value.
#[derive(Clone, Debug)]
pub enum StoredEntry {
    Object(Vec<(String, Option<String>)>),
    Text(String),
    Other,
}

/// A stored entry as its abstract value.
pub ghost enum StoredEntryView {
    Object(Seq<(Seq<char>, Option<Seq<char>>)>),
    Text(Seq<char>),
    Other,
}

impl View for StoredEntry {
    type V = StoredEntryView;

    open spec fn view(&self) -> StoredEntryView {
        match self {
            StoredEntry::Object(members) => StoredEntryView::Object(
                members@.map_values(|m: (String, Option<String>)| (m.0@, text_of(m.1))),
            ),
            StoredEntry::Text(t) => StoredEntryView::Text(t@),
            StoredEntry::Other => StoredEntryView::Other,
        }
    }
}

/// The entries of a stored history as their abstract value.
pub open spec fn entries_view(entries: Seq<(String, StoredEntry)>) -> Seq<(Seq<char>, StoredEntryView)> {
    entries.map_values(|e: (String, StoredEntry)| (e.0@, e.1@))
}

/// Why a stored entry could not be read.
#[derive(Clone, Copy, Debug, PartialEq, Eq, Structural)]
pub enum HistoryEntryError {
    /// The user ID is not an `i64`.
    InvalidUserId,
    /// The object has no `last_print` string that is an RFC 3339 timestamp.
    MissingOrInvalidLastPrint(i64),
    /// The string is not an RFC 3339 timestamp.
    InvalidTimestamp(i64),
    /// The value is neither an object nor a string.
    InvalidDataType(i64),
}

/// The string value of the first member named `key`, if that value is a
/// string.
pub open spec fn member_text(members: Seq<(Seq<char>, Option<Seq<char>>)>, key: Seq<char>) -> Option<
    Seq<char>,
>
    decreases members.len(),
{
    if members.len() == 0 {
        None
    } else if members[0].0 == key {
        members[0].1
    } else {
        member_text(members.drop_first(), key)
    }
}

/// The instant that an RFC 3339 text names, as chrono reads it.
pub open spec fn instant_of(text: Seq<char>) -> Option<Timestamp> {
    match chrono_rfc3339_instant(text) {
        Some((s, n)) => Some(Timestamp { seconds: s, nanos: n }),
        None => None,
    }
}

/// What reading one stored entry gives.
pub open spec fn entry_result(id_text: Seq<char>, data: StoredEntryView) -> Result<
    (i64, (Timestamp, Seq<char>)),
    HistoryEntryError,
> {
    match parsed_i64(id_text) {
        None => Err(HistoryEntryError::InvalidUserId),
        Some(id) => match data {
            StoredEntryView::Object(members) => {
                let stamp = match member_text(members, "last_print"@) {
                    Some(t) => instant_of(t),
                    None => None,
                };
                match stamp {
                    Some(at) => Ok(
                        (
                            id,
                            (
                                at,
                                match member_text(members, "username"@) {
                                    Some(u) => u,
                                    None => unknown_name(),
                                },
                            ),
                        ),
                    ),
                    None => Err(HistoryEntryError::MissingOrInvalidLastPrint(id)),
                }
            },
            StoredEntryView::Text(t) => match instant_of(t) {
                Some(at) => Ok((id, (at, unknown_name()))),
                None => Err(HistoryEntryError::InvalidTimestamp(id)),
            },
            StoredEntryView::Other => Err(HistoryEntryError::InvalidDataType(id)),
        },
    }
}

/// The string value of the first member named `key`, if it is a string.
fn find_member(members: &Vec<(String, Option<String>)>, key: &str) -> (r: Option<String>)
    ensures
        text_of(r) == member_text(
            members@.map_values(|m: (String, Option<String>)| (m.0@, text_of(m.1))),
            key@,
        ),
{
    let ghost view = members@.map_values(|m: (String, Option<String>)| (m.0@, text_of(m.1)));
    let key_chars = chars_of(key);
    let mut i: usize = 0;
    assert(view.skip(0) =~= view);
    while i < members.len()
        invariant
            i <= members@.len() == view.len(),
            view == members@.map_values(|m: (String, Option<String>)| (m.0@, text_of(m.1))),
            key_chars@ == key@,
            member_text(view, key@) == member_text(view.skip(i as int), key@),
        decreases members@.len() - i,
    {
        let name = chars_of(members[i].0.as_str());
        assert(view.skip(i as int)[0] == view[i as int]);
        if same_chars(name.as_slice(), key_chars.as_slice()) {
            return match &members[i].1 {
                Some(v) => Some(v.clone()),
                None => None,
            };
        }
        assert(view.skip(i as int).drop_first() =~= view.skip(i + 1));
        i = i + 1;
    }
    None
}

/// The instant an RFC 3339 text names, as chrono reads it.
fn read_instant(text: &str) -> (r: Option<Timestamp>)
    ensures
        r == instant_of(text@),
{
    match rfc3339_instant(text) {
        Some((s, n)) => Some(Timestamp { seconds: s, nanos: n }),
        None => None,
    }
}

/// Reads one stored entry: the user ID from its key, and the time of the
/// last print and the user name from its value. An object needs a
/// `last_print` member holding an RFC 3339 timestamp; its `username`
/// member, if a string, gives the name, else the name is `Unknown`. A bare
/// string is the timestamp, with the name `Unknown`.
pub fn parse_history_entry(user_id_str: &str, data: &StoredEntry) -> (r: Result<
    (i64, UserPrintRecord),
    HistoryEntryError,
>)
    ensures
        match r {
            Ok((id, record)) => entry_result(user_id_str@, data@) == Ok::<
                (i64, (Timestamp, Seq<char>)),
                HistoryEntryError,
            >((id, record@)),
            Err(e) => entry_result(user_id_str@, data@) == Err::<
                (i64, (Timestamp, Seq<char>)),
                HistoryEntryError,
            >(e),
        },
{
    let id_chars = chars_of(user_id_str);
    let user_id = match parse_i64(id_chars.as_slice()) {
        Some(id) => id,
        None => {
            return Err(HistoryEntryError::InvalidUserId);
        },
    };
    match data {
        StoredEntry::Object(members) => {
            let stamp = match find_member(members, "last_print") {
                Some(t) => read_instant(t.as_str()),
                None => None,
            };
            match stamp {
                Some(at) => {
                    let username = match find_member(members, "username") {
                        Some(u) => u,
                        None => String::from_str("Unknown"),
                    };
                    Ok((user_id, UserPrintRecord { last_print: at, username }))
                },
                None => Err(HistoryEntryError::MissingOrInvalidLastPrint(user_id)),
            }
        },
        StoredEntry::Text(t) => match read_instant(t.as_str()) {
            Some(at) => Ok(
                (user_id, UserPrintRecord { last_print: at, username: String::from_str("Unknown") }),
            ),
            None => Err(HistoryEntryError::InvalidTimestamp(user_id)),
        },
        StoredEntry::Other => Err(HistoryEntryError::InvalidDataType(user_id)),
    }
}

/// The history that the stored entries give, read in order: each entry that
/// reads sets its user's record, the others are skipped.
pub open spec fn history_from_entries(entries: Seq<(Seq<char>, StoredEntryView)>) -> Map<
    i64,
    (Timestamp, Seq<char>),
>
    decreases entries.len(),
{
    if entries.len() == 0 {
        Map::empty()
    } else {
        let earlier = history_from_entries(entries.drop_last());
        match entry_result(entries.last().0, entries.last().1) {
            Ok((id, record)) => earlier.insert(id, record),
            Err(_) => earlier,
        }
    }
}

/// Builds the history from the stored entries, in order: each entry that
/// reads sets its user's record; the others are skipped.
pub fn print_history_from_entries(entries: &Vec<(String, StoredEntry)>) -> (r: PrintHistory)
    ensures
        history_view(r@) == history_from_entries(entries_view(entries@)),
{
    let mut history: PrintHistory = HashMap::new();
    let ghost all = entries_view(entries@);
    let mut i: usize = 0;
    assert(all.take(0) =~= Seq::<(Seq<char>, StoredEntryView)>::empty());
    assert(history_view(history@) =~= Map::empty());
    while i < entries.len()
        invariant
            i <= entries@.len() == all.len(),
            all == entries_view(entries@),
            history_view(history@) == history_from_entries(all.take(i as int)),
        decreases entries@.len() - i,
    {
        let ghost before = history@;
        assert(all.take(i + 1).drop_last() =~= all.take(i as int));
        assert(all.take(i + 1).last() == all[i as int]);
        match parse_history_entry(entries[i].0.as_str(), &entries[i].1) {
            Ok((id, record)) => {
                let ghost rv = record@;
                history.insert(id, record);
                assert(history_view(history@) =~= history_view(before).insert(id, rv));
            },
            Err(_) => {},
        }
        i = i + 1;
    }
    assert(all.take(entries@.len() as int) =~= all);
    history
}

/// The members of a stored history document, as serde_json reads `contents`
/// into a `serde_json::Map<String, Value>` and each value becomes a
/// `StoredEntry`; `None` where the text is not a JSON object.
pub uninterp spec fn json_history_document(contents: Seq<char>) -> Option<
    Seq<(Seq<char>, StoredEntryView)>,
>;

/// The abstract value of a parsed document.
pub open spec fn document_view(doc: Option<Vec<(String, StoredEntry)>>) -> Option<
    Seq<(Seq<char>, StoredEntryView)>,
> {
    match doc {
        Some(entries) => Some(entries_view(entries@)),
        None => None,
    }
}

/// Calls `serde_json::from_str::<serde_json::Map<String, Value>>(contents)`
/// and turns each member's value into a `StoredEntry` (objects keep the
/// members whose values are strings as `Some`, the others as `None`). The
/// contract claims only that the result is a function of the text, named
/// `json_history_document`.
#[verifier::external_body]
fn parse_history_document(contents: &str) -> (r: Option<Vec<(String, StoredEntry)>>)
    ensures
        document_view(r) == json_history_document(contents@),
{
    serde_json::from_str::<serde_json::Map<String, Value>>(contents).ok().map(|doc| {
        doc.into_iter().map(|(user, value)| (user, match value {
            Value::Object(obj) => StoredEntry::Object(obj.into_iter().map(|(k, v)| (k, match v {
                Value::String(t) => Some(t),
                _ => None,
            })).collect()),
            Value::String(t) => StoredEntry::Text(t),
            _ => StoredEntry::Other,
        })).collect()
    })
}

/// The members of a stored history document, each value as a
/// `StoredEntry`, in the order serde_json's map gives them; `None` where
/// the text is not a JSON object.
pub fn history_document(contents: &str) -> (r: Option<Vec<(String, StoredEntry)>>)
    ensures
        document_view(r) == json_history_document(contents@),
{
    parse_history_document(contents)
}

/// The history that a stored history document gives: its entries read in
/// order, each that reads setting its user's record; empty when the text is
/// not a JSON object.
pub fn print_history_from_json(contents: &str) -> (r: PrintHistory)
    ensures
        history_view(r@) == match json_history_document(contents@) {
            Some(entries) => history_from_entries(entries),
            None => Map::empty(),
        },
{
    match parse_history_document(contents) {
        Some(entries) => print_history_from_entries(&entries),
        None => {
            let h: PrintHistory = HashMap::new();
            assert(history_view(h@) =~= Map::empty());
            h
        },
    }
}

// ---------------------------------------------------------------------------
// Recording a print
// ---------------------------------------------------------------------------

/// The name recorded for an optional user name.
pub open spec fn display_name(username: Option<&str>) -> Seq<char> {
    match username {
        Some(u) => u@,
        None => unknown_name(),
    }
}

/// Records that the user printed at `now`, under the given name (`Unknown`
/// if none). Every other user's record stays as it was.
pub fn record_print_at(
    user_id: i64,
    username: Option<&str>,
    history: &mut PrintHistory,
    now: Timestamp,
)
    ensures
        history_view(final(history)@) == history_view(old(history)@).insert(
            user_id,
            (now, display_name(username)),
        ),
{
    let name = match username {
        Some(u) => String::from_str(u),
        None => String::from_str("Unknown"),
    };
    let ghost before = history@;
    let record = UserPrintRecord { last_print: now, username: name };
    let ghost rv = record@;
    history.insert(user_id, record);
    assert(history_view(history@) =~= history_view(before).insert(user_id, rv));
}

/// Records that the user printed now, under the given name (`Unknown` if
/// none). Every other user's record stays as it was. The body records the
/// instant that one reading of the clock (`now_utc`) gives; the contract
/// cannot name that instant, which is no function of anything a contract
/// can speak of, so it states only that some instant is recorded.
pub fn record_print(user_id: i64, username: Option<&str>, history: &mut PrintHistory)
    ensures
        exists|now: Timestamp|
            history_view(final(history)@) == #[trigger] history_view(old(history)@).insert(
                user_id,
                (now, display_name(username)),
            ),
{
    let now = now_utc();
    record_print_at(user_id, username, history, now);
}

// ---------------------------------------------------------------------------
// Waiting times
// ---------------------------------------------------------------------------

/// `n` followed by the unit, plural unless `n` is one (`1 day`, `3 hours`).
pub open spec fn count_text(n: nat, unit: Seq<char>) -> Seq<char> {
    decimal_text(n) + " "@ + unit + if n == 1 {
        Seq::<char>::empty()
    } else {
        "s"@
    }
}

/// A wait of `seconds` in words: whole days and hours (`2 days, 5 hours`),
/// or whole minutes when under an hour, or `less than a minute`.
pub open spec fn wait_text(seconds: int) -> Seq<char> {
    let days = seconds / 86400;
    let hours = (seconds / 3600) % 24;
    let minutes = (seconds / 60) % 60;
    if seconds <= 0 {
        "less than a minute"@
    } else if days > 0 && hours > 0 {
        count_text(days as nat, "day"@) + ", "@ + count_text(hours as nat, "hour"@)
    } else if days > 0 {
        count_text(days as nat, "day"@)
    } else if hours > 0 {
        count_text(hours as nat, "hour"@)
    } else if minutes > 0 {
        count_text(minutes as nat, "minute"@)
    } else {
        "less than a minute"@
    }
}

/// `n` followed by the unit, plural unless `n` is one.
fn push_count(out: &mut Vec<char>, n: u128, unit: &str)
    ensures
        final(out)@ == old(out)@ + count_text(n as nat, unit@),
{
    let digits = render_decimal(n);
    extend_chars(out, digits.as_slice());
    let space = chars_of(" ");
    extend_chars(out, space.as_slice());
    let unit_chars = chars_of(unit);
    extend_chars(out, unit_chars.as_slice());
    if n != 1 {
        let s = chars_of("s");
        extend_chars(out, s.as_slice());
    }
    assert(final(out)@ =~= old(out)@ + count_text(n as nat, unit@)) by {
        assert(count_text(n as nat, unit@) =~= decimal_text(n as nat) + " "@ + unit@ + if n == 1 {
            Seq::<char>::empty()
        } else {
            "s"@
        });
    }
}

/// A wait of `wait_seconds` in words: `3 days`, `2 days, 5 hours`,
/// `5 hours`, `45 minutes` or `less than a minute`. Days and hours are
/// whole ones; minutes are given only when the wait is under an hour.
pub fn format_wait_time(wait_seconds: i128) -> (r: String)
    ensures
        r@ == wait_text(wait_seconds as int),
{
    let mut out: Vec<char> = Vec::new();
    if wait_seconds <= 0 {
        let t = chars_of("less than a minute");
        return string_from_chars(t.as_slice());
    }
    let s = wait_seconds as u128;
    let days: u128 = s / 86400;
    let hours: u128 = (s / 3600) % 24;
    let minutes: u128 = (s / 60) % 60;
    if days > 0 && hours > 0 {
        push_count(&mut out, days, "day");
        let sep = chars_of(", ");
        extend_chars(&mut out, sep.as_slice());
        push_count(&mut out, hours, "hour");
    } else if days > 0 {
        push_count(&mut out, days, "day");
    } else if hours > 0 {
        push_count(&mut out, hours, "hour");
    } else if minutes > 0 {
        push_count(&mut out, minutes, "minute");
    } else {
        let t = chars_of("less than a minute");
        extend_chars(&mut out, t.as_slice());
    }
    assert(out@ =~= wait_text(wait_seconds as int));
    string_from_chars(out.as_slice())
}

// ---------------------------------------------------------------------------
// Who may print
// ---------------------------------------------------------------------------

/// The refusal given when guests may not print.
pub open spec fn restricted_reason() -> Seq<char> {
    "Printing is restricted to authorized users only."@
}

/// The refusal given to a guest who must wait `seconds` more.
pub open spec fn cooldown_reason(seconds: int) -> Seq<char> {
    "You have already printed recently. Please wait "@ + wait_text(seconds)
        + " before printing again."@
}

/// The whole seconds left of a guest's wait, when the last print was
/// `elapsed` nanoseconds ago.
pub open spec fn seconds_left(elapsed: int) -> int {
    (guest_interval_nanos() - elapsed) / 1_000_000_000
}

/// Whether the user may print at `now`, on the UTC day `today`, and if not,
/// why. Users on the allowed list always may. While the rate-limit
/// override covers `today`, guests may exactly when guest printing is on.
/// Otherwise a guest who printed less than seven days ago must wait, and
/// any other guest may exactly when guest printing is on.
pub open spec fn print_permission(
    user_id: i64,
    config: Config,
    history: Map<i64, (Timestamp, Seq<char>)>,
    today: CalendarDate,
    now: Timestamp,
) -> (bool, Option<Seq<char>>) {
    if config.authorizes(user_id) {
        (true, None)
    } else if config.override_covers(today) {
        if config.allow_guest_printing {
            (true, None)
        } else {
            (false, Some(restricted_reason()))
        }
    } else if history.contains_key(user_id) && nanos_between(history[user_id].0, now)
        < guest_interval_nanos() {
        (false, Some(cooldown_reason(seconds_left(nanos_between(history[user_id].0, now)))))
    } else if config.allow_guest_printing {
        (true, None)
    } else {
        (false, Some(restricted_reason()))
    }
}

/// A permission as its abstract value.
pub open spec fn permission_view(p: (bool, Option<String>)) -> (bool, Option<Seq<char>>) {
    (p.0, text_of(p.1))
}

/// The text of a literal as a string.
fn literal(s: &str) -> (r: String)
    ensures
        r@ == s@,
{
    String::from_str(s)
}

/// Whether the user may print at `now`, on the UTC day `today`: `(true,
/// None)` if so, else `(false, Some(reason))`.
pub fn can_print_at(
    user_id: i64,
    config: &Config,
    history: &PrintHistory,
    today: CalendarDate,
    now: Timestamp,
) -> (r: (bool, Option<String>))
    ensures
        permission_view(r) == print_permission(user_id, *config, history_view(history@), today, now),
{
    if config.is_authorized(user_id) {
        return (true, None);
    }
    if config.is_rate_limit_override_active_on(today) {
        if config.allow_guest_printing {
            return (true, None);
        }
        return (false, Some(literal("Printing is restricted to authorized users only.")));
    }
    match history.get(&user_id) {
        Some(record) => {
            assert(history_view(history@).contains_key(user_id));
            assert(history_view(history@)[user_id] == record@);
            let elapsed: i128 = elapsed_nanos(record.last_print, now);
            let interval: i128 = GUEST_PRINT_INTERVAL_SECONDS as i128 * 1_000_000_000;
            if elapsed < interval {
                let left: i128 = (interval - elapsed) / 1_000_000_000;
                let mut out = chars_of("You have already printed recently. Please wait ");
                let wait = format_wait_time(left);
                let wait_chars = chars_of(wait.as_str());
                extend_chars(&mut out, wait_chars.as_slice());
                let tail = chars_of(" before printing again.");
                extend_chars(&mut out, tail.as_slice());
                assert(out@ =~= cooldown_reason(seconds_left(elapsed as int)));
                return (false, Some(string_from_chars(out.as_slice())));
            }
        },
        None => {
            assert(!history_view(history@).contains_key(user_id));
        },
    }
    if config.allow_guest_printing {
        (true, None)
    } else {
        (false, Some(literal("Printing is restricted to authorized users only.")))
    }
}

/// Whether the user may print now: `(true, None)` if so, else `(false,
/// Some(reason))`. The body reads the clock once (`now_utc`) and answers
/// with `can_print_at` at that instant, on that instant's UTC day. The
/// contract cannot name the instant the system clock gives, which is no
/// function of anything a contract can speak of and need not grow from one
/// reading to the next, so it states only that the answer is the rule's
/// answer at some instant, taken with that instant's own UTC day.
pub fn can_print(user_id: i64, _username: Option<&str>, config: &Config, history: &PrintHistory) -> (r:
    (bool, Option<String>))
    ensures
        exists|now: Timestamp|
            permission_view(r) == #[trigger] print_permission(
                user_id,
                *config,
                history_view(history@),
                now.spec_utc_date(),
                now,
            ),
{
    let now = now_utc();
    let today = now.utc_date();
    can_print_at(user_id, config, history, today, now)
}

// ---------------------------------------------------------------------------
// Laws
// ---------------------------------------------------------------------------

/// A user on the allowed list may always print, whatever the history, the
/// day and the time.
pub proof fn lemma_authorized_user_always_allowed(
    user_id: i64,
    config: Config,
    history: Map<i64, (Timestamp, Seq<char>)>,
    today: CalendarDate,
    now: Timestamp,
)
    requires
        config.authorizes(user_id),
    ensures
        print_permission(user_id, config, history, today, now) == (true, None::<Seq<char>>),
{
}

/// A refusal always comes with a reason, and a permission never does.
pub proof fn lemma_reason_given_exactly_when_refused(
    user_id: i64,
    config: Config,
    history: Map<i64, (Timestamp, Seq<char>)>,
    today: CalendarDate,
    now: Timestamp,
)
    ensures
        print_permission(user_id, config, history, today, now).0 <==> print_permission(
            user_id,
            config,
            history,
            today,
            now,
        ).1 is None,
{
}

/// With guest printing off, a user who is not on the allowed list may never
/// print.
pub proof fn lemma_guests_refused_when_guest_printing_off(
    user_id: i64,
    config: Config,
    history: Map<i64, (Timestamp, Seq<char>)>,
    today: CalendarDate,
    now: Timestamp,
)
    requires
        !config.authorizes(user_id),
        !config.allow_guest_printing,
    ensures
        !print_permission(user_id, config, history, today, now).0,
{
}

/// While the rate-limit override covers the day, the history plays no part:
/// a guest may print exactly when guest printing is on.
pub proof fn lemma_override_ignores_history(
    user_id: i64,
    config: Config,
    history: Map<i64, (Timestamp, Seq<char>)>,
    today: CalendarDate,
    now: Timestamp,
)
    requires
        !config.authorizes(user_id),
        config.override_covers(today),
    ensures
        print_permission(user_id, config, history, today, now).0 == config.allow_guest_printing,
        print_permission(user_id, config, history, today, now) == print_permission(
            user_id,
            config,
            Map::empty(),
            today,
            now,
        ),
{
}

/// A guest's cooldown reason tells them to wait.
pub proof fn lemma_cooldown_reason_says_please_wait(seconds: int)
    ensures
        crate::text::contains_text(cooldown_reason(seconds), "Please wait"@),
{
    let r = cooldown_reason(seconds);
    let p = "Please wait"@;
    let head = "You have already printed recently. Please wait "@;
    reveal_strlit("You have already printed recently. Please wait ");
    reveal_strlit("Please wait");
    assert(r.subrange(35, 35 + p.len() as int) =~= p) by {
        assert(r.subrange(0, head.len() as int) =~= head);
    }
    assert(crate::text::occurs_at(r, p, 35));
}

/// After a guest's print is recorded at `printed_at`, the guest may not print
/// again until seven days have passed (unless the rate-limit override
/// covers the day), and the refusal tells them to wait.
pub proof fn lemma_recorded_guest_waits(
    user_id: i64,
    username: Option<&str>,
    config: Config,
    history: Map<i64, (Timestamp, Seq<char>)>,
    printed_at: Timestamp,
    today: CalendarDate,
    now: Timestamp,
)
    requires
        !config.authorizes(user_id),
        !config.override_covers(today),
        0 <= nanos_between(printed_at, now) < guest_interval_nanos(),
    ensures
        ({
            let p = print_permission(
                user_id,
                config,
                history.insert(user_id, (printed_at, display_name(username))),
                today,
                now,
            );
            &&& !p.0
            &&& p.1 == Some(cooldown_reason(seconds_left(nanos_between(printed_at, now))))
            &&& crate::text::contains_text(p.1.unwrap(), "Please wait"@)
        }),
{
    lemma_cooldown_reason_says_please_wait(seconds_left(nanos_between(printed_at, now)));
}

/// Seven days after a guest's recorded print, the guest may print again if
/// guest printing is on.
pub proof fn lemma_guest_may_print_after_interval(
    user_id: i64,
    username: Option<&str>,
    config: Config,
    history: Map<i64, (Timestamp, Seq<char>)>,
    printed_at: Timestamp,
    today: CalendarDate,
    now: Timestamp,
)
    requires
        config.allow_guest_printing,
        nanos_between(printed_at, now) >= guest_interval_nanos(),
    ensures
        print_permission(
            user_id,
            config,
            history.insert(user_id, (printed_at, display_name(username))),
            today,
            now,
        ) == (true, None::<Seq<char>>),
{
}

/// The wait a refused guest is told of is positive and at most seven days.
pub proof fn lemma_wait_within_interval(elapsed: int)
    requires
        elapsed < guest_interval_nanos(),
        elapsed >= 0,
    ensures
        0 <= seconds_left(elapsed) <= GUEST_PRINT_INTERVAL_SECONDS,
{
}

} // verus!
