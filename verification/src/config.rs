//! The bot's configuration: what it is made of, how it is read from the
//! environment's values, and the questions the rest of the library asks it.
use crate::clock::{chrono_date_from_str, naive_date_from_str, now_utc, CalendarDate};
use crate::text::{
    chars_of, eq_ignoring_ascii_case, equals_ignoring_ascii_case, parse_i64, parse_usize,
    parsed_i64, parsed_usize, trim, trimmed,
};
use vstd::prelude::*;

verus! {

/// The resolution at which images are printed, in dots per inch.
pub const IMAGE_DPI: u32 = 300;

/// The maximum number of copies per print when `MAX_COPIES` gives none.
pub const DEFAULT_MAX_COPIES: usize = 100;

/// The size of the labels, as the rest of the library reads it.
#[derive(Clone, Debug)]
pub struct LabelSize {
    /// Label width in pixels at `IMAGE_DPI`.
    pub width_px: u32,
    /// Label height in pixels at `IMAGE_DPI`.
    pub height_px: u32,
    /// Label width in inches as `{}` prints it (`4`, `4.5`).
    pub width_text: String,
    /// Label height in inches as `{}` prints it.
    pub height_text: String,
    /// Label width in inches with exactly two decimals (`4.00`, `4.50`).
    pub width_two_decimals: String,
    /// Label height in inches with exactly two decimals.
    pub height_two_decimals: String,
}

/// The bot's configuration.
#[derive(Clone, Debug)]
pub struct Config {
    pub telegram_bot_token: String,
    pub cups_printer_name: String,
    pub cups_server_host: Option<String>,
    pub allowed_user_ids: Vec<i64>,
    pub allow_guest_printing: bool,
    pub max_copies: usize,
    pub label: LabelSize,
    /// First day (inclusive) on which guests' rate limit is suspended.
    pub rate_limit_override_start: Option<CalendarDate>,
    /// Last day (inclusive) on which guests' rate limit is suspended.
    pub rate_limit_override_end: Option<CalendarDate>,
}

/// The values of the environment variables that the configuration is read
/// from; `None` for a variable that is not set.
#[derive(Clone, Debug)]
pub struct EnvValues {
    pub telegram_bot_token: Option<String>,
    pub cups_printer_name: Option<String>,
    pub cups_server_host: Option<String>,
    pub allowed_user_ids: Option<String>,
    pub allow_guest_printing: Option<String>,
    pub max_copies: Option<String>,
    pub rate_limit_override_start: Option<String>,
    pub rate_limit_override_end: Option<String>,
}

/// Why the configuration could not be read.
#[derive(Clone, Copy, Debug, PartialEq, Eq, Structural)]
pub enum ConfigError {
    /// `TELEGRAM_BOT_TOKEN` is not set.
    MissingBotToken,
}

/// The text of an optional string.
pub open spec fn text_of(s: Option<String>) -> Option<Seq<char>> {
    match s {
        Some(t) => Some(t@),
        None => None,
    }
}

/// The text of an optional string, or the empty text.
pub open spec fn text_or_empty(s: Option<String>) -> Seq<char> {
    match s {
        Some(t) => t@,
        None => Seq::empty(),
    }
}

// ---------------------------------------------------------------------------
// Allowed user IDs
// ---------------------------------------------------------------------------

/// The comma-separated fields of `s`, as `str::split(',')` yields them:
/// empty fields included, and one field for the empty text.
pub open spec fn comma_fields(s: Seq<char>) -> Seq<Seq<char>>
    decreases s.len(),
{
    if s.len() == 0 {
        seq![Seq::<char>::empty()]
    } else {
        let f = comma_fields(s.drop_last());
        if s.last() == ',' {
            f.push(Seq::<char>::empty())
        } else {
            f.update(f.len() - 1, f.last().push(s.last()))
        }
    }
}

/// There is always at least one field.
pub proof fn lemma_comma_fields_nonempty(s: Seq<char>)
    ensures
        comma_fields(s).len() >= 1,
    decreases s.len(),
{
    if s.len() > 0 {
        lemma_comma_fields_nonempty(s.drop_last());
    }
}

/// The IDs that the fields name: each field trimmed and read as an `i64`,
/// the fields that are not one skipped.
pub open spec fn ids_of_fields(fields: Seq<Seq<char>>) -> Seq<i64>
    decreases fields.len(),
{
    if fields.len() == 0 {
        Seq::empty()
    } else {
        let rest = ids_of_fields(fields.drop_last());
        match parsed_i64(trimmed(fields.last())) {
            Some(id) => rest.push(id),
            None => rest,
        }
    }
}

/// The user IDs that an `ALLOWED_USER_IDS` value lists.
pub open spec fn listed_user_ids(s: Seq<char>) -> Seq<i64> {
    ids_of_fields(comma_fields(s))
}

/// Reads a field: its trimmed text as an `i64`, appended to `ids` if it is one.
fn add_field_id(ids: &mut Vec<i64>, field: &Vec<char>)
    ensures
        final(ids)@ == match parsed_i64(trimmed(field@)) {
            Some(id) => old(ids)@.push(id),
            None => old(ids)@,
        },
{
    let t = trim(field.as_slice());
    match parse_i64(t.as_slice()) {
        Some(id) => ids.push(id),
        None => {},
    }
}

/// The user IDs that an `ALLOWED_USER_IDS` value lists: the comma-separated
/// fields, each trimmed, read as `i64`; empty and unreadable fields skipped.
pub fn parse_user_ids(s: &[char]) -> (r: Vec<i64>)
    ensures
        r@ == listed_user_ids(s@),
{
    let mut ids: Vec<i64> = Vec::new();
    let mut field: Vec<char> = Vec::new();
    let mut i: usize = 0;
    assert(s@.take(0) =~= Seq::<char>::empty());
    while i < s.len()
        invariant
            i <= s@.len(),
            comma_fields(s@.take(i as int)).len() >= 1,
            ids@ == ids_of_fields(comma_fields(s@.take(i as int)).drop_last()),
            field@ == comma_fields(s@.take(i as int)).last(),
        decreases s@.len() - i,
    {
        let ghost prev = comma_fields(s@.take(i as int));
        let ghost next_text = s@.take(i + 1);
        assert(next_text.drop_last() =~= s@.take(i as int));
        assert(next_text.last() == s@[i as int]);
        let c = s[i];
        if c == ',' {
            add_field_id(&mut ids, &field);
            field = Vec::new();
            assert(comma_fields(next_text) == prev.push(Seq::<char>::empty()));
            assert(comma_fields(next_text).drop_last() =~= prev);
            assert(prev =~= prev.drop_last().push(prev.last()));
        } else {
            field.push(c);
            assert(comma_fields(next_text).drop_last() =~= prev.drop_last());
        }
        i = i + 1;
    }
    assert(s@.take(s@.len() as int) =~= s@);
    let ghost all = comma_fields(s@);
    add_field_id(&mut ids, &field);
    assert(all =~= all.drop_last().push(all.last()));
    ids
}

// ---------------------------------------------------------------------------
// Flags, numbers and dates
// ---------------------------------------------------------------------------

/// An `ALLOW_GUEST_PRINTING` value that turns guest printing on: once
/// trimmed, `true`, `1` or `yes` in any case of its letters. (No character
/// outside ASCII lower-cases to a letter of these words, so this is what
/// comparing the lower-cased text gives.)
pub open spec fn affirmative(s: Seq<char>) -> bool {
    let t = trimmed(s);
    ||| equals_ignoring_ascii_case(t, "true"@)
    ||| equals_ignoring_ascii_case(t, "1"@)
    ||| equals_ignoring_ascii_case(t, "yes"@)
}

/// Whether an `ALLOW_GUEST_PRINTING` value turns guest printing on.
pub fn parse_guest_flag(s: &[char]) -> (r: bool)
    ensures
        r == affirmative(s@),
{
    let t = trim(s);
    let yes_true = chars_of("true");
    let yes_one = chars_of("1");
    let yes_word = chars_of("yes");
    eq_ignoring_ascii_case(t.as_slice(), yes_true.as_slice()) || eq_ignoring_ascii_case(
        t.as_slice(),
        yes_one.as_slice(),
    ) || eq_ignoring_ascii_case(t.as_slice(), yes_word.as_slice())
}

/// The positive number that `raw` gives, or `default`.
pub open spec fn positive_or_default(raw: Option<Seq<char>>, default: usize) -> usize {
    match raw {
        Some(s) => match parsed_usize(s) {
            Some(v) => if v > 0 {
                v
            } else {
                default
            },
            None => default,
        },
        None => default,
    }
}

/// A positive whole number read from an environment value: the value if it
/// reads as a `usize` above zero, `default` if it is missing, does not read,
/// or is zero.
pub fn parse_positive_usize(raw: Option<&str>, default: usize) -> (r: usize)
    ensures
        r == positive_or_default(
            match raw {
                Some(s) => Some(s@),
                None => None,
            },
            default,
        ),
{
    match raw {
        Some(s) => {
            let cs = chars_of(s);
            match parse_usize(cs.as_slice()) {
                Some(v) => if v > 0 {
                    v
                } else {
                    default
                },
                None => default,
            }
        },
        None => default,
    }
}

/// The date that a `YYYY-MM-DD` value names, as chrono reads it.
pub open spec fn date_of(raw: Option<Seq<char>>) -> Option<CalendarDate> {
    match raw {
        Some(s) => match chrono_date_from_str(s, "%Y-%m-%d"@) {
            Some(d) => Some(CalendarDate { day_number: d as i64 }),
            None => None,
        },
        None => None,
    }
}

/// The date that an environment value names in the form `YYYY-MM-DD`;
/// `None` if it is missing or not such a date.
pub fn parse_date(raw: Option<&str>) -> (r: Option<CalendarDate>)
    ensures
        r == date_of(
            match raw {
                Some(s) => Some(s@),
                None => None,
            },
        ),
{
    match raw {
        Some(s) => match naive_date_from_str(s, "%Y-%m-%d") {
            Some(d) => Some(CalendarDate { day_number: d as i64 }),
            None => None,
        },
        None => None,
    }
}

/// The text of an optional string, or the empty text.
fn text_or_default(s: &Option<String>) -> (r: Vec<char>)
    ensures
        r@ == text_or_empty(*s),
{
    match s {
        Some(t) => chars_of(t.as_str()),
        None => Vec::new(),
    }
}

/// The optional string as `Option<&str>`.
fn as_text(s: &Option<String>) -> (r: Option<&str>)
    ensures
        match r {
            Some(t) => text_of(*s) == Some(t@),
            None => text_of(*s).is_none(),
        },
{
    match s {
        Some(t) => Some(t.as_str()),
        None => None,
    }
}

/// The server host an environment value names: `None` when missing or empty.
pub open spec fn host_of(raw: Option<String>) -> Option<Seq<char>> {
    match raw {
        Some(s) => if s@.len() > 0 {
            Some(s@)
        } else {
            None
        },
        None => None,
    }
}

impl Config {
    /// The configuration that the environment's values give, with the label
    /// size that `label` gives. Fails only when `TELEGRAM_BOT_TOKEN` is not
    /// set. `ALLOW_GUEST_PRINTING` defaults to on and `MAX_COPIES` to 100.
    pub fn from_env(env: &EnvValues, label: LabelSize) -> (r: Result<Config, ConfigError>)
        ensures
            env.telegram_bot_token.is_none() <==> r == Err::<Config, ConfigError>(
                ConfigError::MissingBotToken,
            ),
            r matches Ok(c) ==> {
                &&& Some(c.telegram_bot_token@) == text_of(env.telegram_bot_token)
                &&& c.cups_printer_name@ == text_or_empty(env.cups_printer_name)
                &&& text_of(c.cups_server_host) == host_of(env.cups_server_host)
                &&& c.allowed_user_ids@ == listed_user_ids(text_or_empty(env.allowed_user_ids))
                &&& c.allow_guest_printing == match env.allow_guest_printing {
                    Some(v) => affirmative(v@),
                    None => true,
                }
                &&& c.max_copies == positive_or_default(
                    text_of(env.max_copies),
                    DEFAULT_MAX_COPIES,
                )
                &&& c.label == label
                &&& c.rate_limit_override_start == date_of(
                    text_of(env.rate_limit_override_start),
                )
                &&& c.rate_limit_override_end == date_of(text_of(env.rate_limit_override_end))
            },
    {
        let telegram_bot_token = match &env.telegram_bot_token {
            Some(t) => t.clone(),
            None => {
                return Err(ConfigError::MissingBotToken);
            },
        };
        let cups_printer_name = match &env.cups_printer_name {
            Some(t) => t.clone(),
            None => String::new(),
        };
        let cups_server_host = match &env.cups_server_host {
            Some(t) => if !t.as_str().is_empty() {
                Some(t.clone())
            } else {
                None
            },
            None => None,
        };
        let id_text = text_or_default(&env.allowed_user_ids);
        let allowed_user_ids = parse_user_ids(id_text.as_slice());
        let allow_guest_printing = match &env.allow_guest_printing {
            Some(v) => {
                let cs = chars_of(v.as_str());
                parse_guest_flag(cs.as_slice())
            },
            None => true,
        };
        let max_copies = parse_positive_usize(as_text(&env.max_copies), DEFAULT_MAX_COPIES);
        let rate_limit_override_start = parse_date(as_text(&env.rate_limit_override_start));
        let rate_limit_override_end = parse_date(as_text(&env.rate_limit_override_end));
        Ok(
            Config {
                telegram_bot_token,
                cups_printer_name,
                cups_server_host,
                allowed_user_ids,
                allow_guest_printing,
                max_copies,
                label,
                rate_limit_override_start,
                rate_limit_override_end,
            },
        )
    }

    /// The user is on the allowed list (and the list is not empty).
    pub open spec fn authorizes(self, user_id: i64) -> bool {
        self.allowed_user_ids@.len() > 0 && self.allowed_user_ids@.contains(user_id)
    }

    /// Whether the user is on the allowed list.
    pub fn is_authorized(&self, user_id: i64) -> (r: bool)
        ensures
            r == self.authorizes(user_id),
    {
        let n = self.allowed_user_ids.len();
        let mut i: usize = 0;
        while i < n
            invariant
                n == self.allowed_user_ids@.len(),
                i <= n,
                forall|j: int| 0 <= j < i ==> self.allowed_user_ids@[j] != user_id,
            decreases n - i,
        {
            if self.allowed_user_ids[i] == user_id {
                assert(self.allowed_user_ids@[i as int] == user_id);
                return true;
            }
            i = i + 1;
        }
        false
    }

    /// The rate-limit override window is set and covers `day` (both ends
    /// inclusive).
    pub open spec fn override_covers(self, day: CalendarDate) -> bool {
        match (self.rate_limit_override_start, self.rate_limit_override_end) {
            (Some(start), Some(end)) => start.day_number <= day.day_number <= end.day_number,
            _ => false,
        }
    }

    /// Whether the rate-limit override window covers `today`.
    pub fn is_rate_limit_override_active_on(&self, today: CalendarDate) -> (r: bool)
        ensures
            r == self.override_covers(today),
    {
        match (self.rate_limit_override_start, self.rate_limit_override_end) {
            (Some(start), Some(end)) => start.day_number <= today.day_number
                && today.day_number <= end.day_number,
            _ => false,
        }
    }

    /// Whether the rate-limit override window covers the current UTC day.
    pub fn is_rate_limit_override_active(&self) -> (r: bool)
        ensures
            r ==> (self.rate_limit_override_start matches Some(start)
                && self.rate_limit_override_end matches Some(end) && start.day_number
                <= end.day_number),
            exists|now: crate::clock::Timestamp| r == #[trigger] self.override_covers(now.spec_utc_date()),
    {
        let now = now_utc();
        let today = now.utc_date();
        self.is_rate_limit_override_active_on(today)
    }
}

/// A value that reads as a number above zero is taken as that number,
/// whatever the default: the default stands in only for a missing,
/// unreadable or zero value, and is no cap.
pub proof fn lemma_positive_value_kept(s: Seq<char>, default: usize)
    requires
        parsed_usize(s) is Some,
        parsed_usize(s).unwrap() > 0,
    ensures
        positive_or_default(Some(s), default) == parsed_usize(s).unwrap(),
{
}

/// Any positive number written in decimal, such as `MAX_COPIES=200` above
/// the default of 100, is read back as itself whatever the default.
pub proof fn lemma_decimal_value_kept(n: usize, default: usize)
    requires
        n > 0,
    ensures
        positive_or_default(Some(crate::text::decimal_text(n as nat)), default) == n,
{
    crate::text::lemma_decimal_text_parses_back(n);
}

/// A value that is missing, does not read as a number, or reads as zero
/// gives the default.
pub proof fn lemma_default_when_not_positive(raw: Option<Seq<char>>, default: usize)
    requires
        !(raw matches Some(s) && parsed_usize(s) matches Some(v) && v > 0),
    ensures
        positive_or_default(raw, default) == default,
{
}

/// With an empty allowed list nobody is authorized: everyone is a guest.
pub proof fn lemma_empty_allow_list_authorizes_nobody(config: Config, user_id: i64)
    requires
        config.allowed_user_ids@.len() == 0,
    ensures
        !config.authorizes(user_id),
{
}

/// A listed ID is read back exactly when its field, trimmed, is an `i64`:
/// appending such a field to the list appends its ID.
pub proof fn lemma_listed_ids_append_field(s: Seq<char>, field: Seq<char>)
    requires
        !field.contains(','),
        parsed_i64(trimmed(field)) is Some,
    ensures
        listed_user_ids(s + seq![','] + field) == listed_user_ids(s).push(
            parsed_i64(trimmed(field)).unwrap(),
        ),
    decreases field.len(),
{
    lemma_comma_fields_append(s, field);
    let a = comma_fields(s + seq![',']);
    assert((s + seq![',']).drop_last() =~= s);
    assert(a == comma_fields(s).push(Seq::<char>::empty()));
    assert(a.drop_last() =~= comma_fields(s));
    assert(comma_fields(s + seq![','] + field) == a.update(a.len() - 1, field));
    lemma_comma_fields_nonempty(s);
    assert(a.update(a.len() - 1, field).drop_last() =~= comma_fields(s));
}

/// The fields of `s` followed by `,` and a comma-free `field`: the fields of
/// `s`, then `field`.
proof fn lemma_comma_fields_append(s: Seq<char>, field: Seq<char>)
    requires
        !field.contains(','),
    ensures
        comma_fields(s + seq![','] + field) == ({
            let a = comma_fields(s + seq![',']);
            a.update(a.len() - 1, field)
        }),
    decreases field.len(),
{
    let head = s + seq![','];
    lemma_comma_fields_nonempty(head);
    if field.len() == 0 {
        assert(head + field =~= head);
        let a = comma_fields(head);
        assert(head.drop_last() =~= s);
        assert(a.last() == Seq::<char>::empty());
        assert(field =~= Seq::<char>::empty());
        assert(a.update(a.len() - 1, field) =~= a);
    } else {
        let shorter = field.drop_last();
        assert(!shorter.contains(',')) by {
            if shorter.contains(',') {
                let i = choose|i: int| 0 <= i < shorter.len() && shorter[i] == ',';
                assert(field[i] == ',');
            }
        }
        lemma_comma_fields_append(s, shorter);
        let whole = head + field;
        assert(whole.drop_last() =~= head + shorter);
        assert(whole.last() == field.last());
        assert(field.last() != ',') by {
            assert(field[field.len() - 1] == field.last());
        }
        let a = comma_fields(head);
        let f = comma_fields(head + shorter);
        assert(f == a.update(a.len() - 1, shorter));
        assert(f.update(f.len() - 1, f.last().push(field.last())) =~= a.update(
            a.len() - 1,
            field,
        )) by {
            assert(shorter.push(field.last()) =~= field);
        }
    }
}

} // verus!
