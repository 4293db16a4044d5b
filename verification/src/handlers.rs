//! What the bot answers: the copy count a caption asks for, the replies to
//! its commands, and the decisions taken for an incoming image.
use crate::config::{text_of, Config};
use crate::history::permission_view;
use crate::text::{
    all_ascii_digits, ascii_lower, chars_of, contains, contains_text, decimal_text, extend_chars,
    parse_usize, parsed_usize, push_str, render_decimal, string_from_chars, trim, trim_start,
    trimmed, white_space, is_white_space,
};
use vstd::prelude::*;

verus! {

// ---------------------------------------------------------------------------
// Copies from a caption
// ---------------------------------------------------------------------------

/// `c` matches the lower-case letter `p` of a pattern read without regard to
/// case: `p` itself, its upper-case form, or, for `s`, the long s `ſ` that
/// Unicode case folding puts with it.
pub open spec fn letter_matches(c: char, p: char) -> bool {
    ascii_lower(c) == p || (p == 's' && c == '\u{17F}')
}

/// The digits of a caption of the form `x<digits>` (the `x` in either case).
pub open spec fn x_form_digits(t: Seq<char>) -> Option<Seq<char>> {
    if t.len() >= 2 && letter_matches(t[0], 'x') && all_ascii_digits(t.drop_first()) {
        Some(t.drop_first())
    } else {
        None
    }
}

/// The digits of a caption of the form `copies = <digits>` (the word in any
/// case, whitespace allowed around `=`).
pub open spec fn copies_form_digits(t: Seq<char>) -> Option<Seq<char>> {
    if t.len() >= 6 && letter_matches(t[0], 'c') && letter_matches(t[1], 'o') && letter_matches(
        t[2],
        'p',
    ) && letter_matches(t[3], 'i') && letter_matches(t[4], 'e') && letter_matches(t[5], 's') {
        let after_word = trim_start(t.skip(6));
        if after_word.len() > 0 && after_word[0] == '=' {
            let digits = trim_start(after_word.drop_first());
            if digits.len() > 0 && all_ascii_digits(digits) {
                Some(digits)
            } else {
                None
            }
        } else {
            None
        }
    } else {
        None
    }
}

/// `n` if it is an allowed copy count (1 to `max_copies`), else 1.
pub open spec fn within_limit(n: usize, max_copies: usize) -> usize {
    if 1 <= n <= max_copies {
        n
    } else {
        1
    }
}

/// The number of copies a caption asks for. Once trimmed, the caption must
/// be exactly `x<n>` or `copies=<n>` (case-insensitive, whitespace allowed
/// around `=`) with `1 <= n <= max_copies`; anything else, or no caption,
/// asks for one copy.
pub open spec fn requested_copies(caption: Option<Seq<char>>, max_copies: usize) -> usize {
    let t = trimmed(
        match caption {
            Some(c) => c,
            None => Seq::empty(),
        },
    );
    if t.len() == 0 {
        1
    } else {
        match x_form_digits(t) {
            Some(d) if parsed_usize(d) is Some => within_limit(parsed_usize(d).unwrap(), max_copies),
            _ => match copies_form_digits(t) {
                Some(d) if parsed_usize(d) is Some => within_limit(
                    parsed_usize(d).unwrap(),
                    max_copies,
                ),
                _ => 1,
            },
        }
    }
}

/// Whether `c` matches the lower-case pattern letter `p` regardless of case.
fn letter_matches_exec(c: char, p: char) -> (r: bool)
    ensures
        r == letter_matches(c, p),
{
    let lower: char = if 'A' <= c && c <= 'Z' {
        (c as u8 + 32) as char
    } else {
        c
    };
    lower == p || (p == 's' && c == '\u{17F}')
}

/// Whether every character of `s[start..]` is an ASCII digit.
fn digits_from(s: &[char], start: usize) -> (r: bool)
    requires
        start <= s@.len(),
    ensures
        r == all_ascii_digits(s@.skip(start as int)),
{
    let mut i = start;
    while i < s.len()
        invariant
            start <= i <= s@.len(),
            forall|j: int| start <= j < i ==> #[trigger] crate::text::is_ascii_digit(s@[j]),
        decreases s@.len() - i,
    {
        if !('0' <= s[i] && s[i] <= '9') {
            assert(s@.skip(start as int)[i - start] == s@[i as int]);
            return false;
        }
        i = i + 1;
    }
    assert forall|j: int| 0 <= j < s@.skip(start as int).len() implies crate::text::is_ascii_digit(
        #[trigger] s@.skip(start as int)[j],
    ) by {
        assert(s@.skip(start as int)[j] == s@[start + j]);
    }
    true
}

/// The first position at or after `start` that is not whitespace.
fn skip_white_space(s: &[char], start: usize) -> (r: usize)
    requires
        start <= s@.len(),
    ensures
        start <= r <= s@.len(),
        s@.skip(r as int) == trim_start(s@.skip(start as int)),
{
    let mut i = start;
    while i < s.len() && white_space(s[i])
        invariant
            start <= i <= s@.len(),
            trim_start(s@.skip(start as int)) == trim_start(s@.skip(i as int)),
        decreases s@.len() - i,
    {
        assert(s@.skip(i as int).drop_first() =~= s@.skip(i + 1));
        i = i + 1;
    }
    i
}

/// The copy count asked for by a caption whose digits start at `start`, if
/// they read as a `usize`.
fn count_from(t: &[char], start: usize, max_copies: usize) -> (r: Option<usize>)
    requires
        start <= t@.len(),
    ensures
        r == match parsed_usize(t@.skip(start as int)) {
            Some(n) => Some(within_limit(n, max_copies)),
            None => None,
        },
{
    let digits = crate::text::copy_range(t, start, t.len());
    assert(digits@ =~= t@.skip(start as int));
    match parse_usize(digits.as_slice()) {
        Some(n) => if 1 <= n && n <= max_copies {
            Some(n)
        } else {
            Some(1)
        },
        None => None,
    }
}

/// The number of copies a caption asks for: the caption, trimmed, must be
/// exactly `x<n>` or `copies=<n>` (case-insensitive, whitespace allowed
/// around `=`) with `1 <= n <= max_copies`; otherwise, and with no caption,
/// one copy.
pub fn parse_copies(caption: Option<&str>, max_copies: usize) -> (r: usize)
    ensures
        r == requested_copies(
            match caption {
                Some(c) => Some(c@),
                None => None,
            },
            max_copies,
        ),
        r == 1 || 1 <= r <= max_copies,
{
    let raw = match caption {
        Some(c) => chars_of(c),
        None => Vec::new(),
    };
    let t = trim(raw.as_slice());
    let n = t.len();
    if n == 0 {
        return 1;
    }
    // The form x<digits>.
    if n >= 2 && letter_matches_exec(t[0], 'x') && digits_from(t.as_slice(), 1) {
        assert(t@.skip(1) =~= t@.drop_first());
        match count_from(t.as_slice(), 1, max_copies) {
            Some(k) => {
                return k;
            },
            None => {},
        }
    } else {
        assert(t@.skip(1) =~= t@.drop_first());
    }
    // The form copies=<digits>.
    if n >= 6 && letter_matches_exec(t[0], 'c') && letter_matches_exec(t[1], 'o')
        && letter_matches_exec(t[2], 'p') && letter_matches_exec(t[3], 'i') && letter_matches_exec(
        t[4],
        'e',
    ) && letter_matches_exec(t[5], 's') {
        let eq_at = skip_white_space(t.as_slice(), 6);
        if eq_at < n && t[eq_at] == '=' {
            assert(t@.skip(eq_at as int)[0] == t@[eq_at as int]);
            assert(t@.skip(eq_at as int).drop_first() =~= t@.skip(eq_at + 1));
            let digits_at = skip_white_space(t.as_slice(), eq_at + 1);
            if digits_at < n && digits_from(t.as_slice(), digits_at) {
                match count_from(t.as_slice(), digits_at, max_copies) {
                    Some(k) => {
                        return k;
                    },
                    None => {},
                }
            }
        }
    }
    1
}

// ---------------------------------------------------------------------------
// Status and mentions
// ---------------------------------------------------------------------------

/// The status line shown to a guest who is waiting out the cooldown: for a
/// refusal whose reason mentions `Please wait`, the reason after a `Status`
/// heading; nothing otherwise.
pub open spec fn status_note(permission: Option<(bool, Option<Seq<char>>)>) -> Seq<char> {
    match permission {
        Some((false, Some(reason))) => if contains_text(reason, "Please wait"@) {
            "\n\n<b>\u{23f3} Status:</b> "@ + reason
        } else {
            Seq::empty()
        },
        _ => Seq::empty(),
    }
}

/// The permission's abstract value, if there is one.
pub open spec fn permission_opt_view(p: Option<&(bool, Option<String>)>) -> Option<
    (bool, Option<Seq<char>>),
> {
    match p {
        Some(q) => Some(permission_view(*q)),
        None => None,
    }
}

/// Appends the status line for the permission.
fn push_status(out: &mut Vec<char>, permission: Option<&(bool, Option<String>)>)
    ensures
        final(out)@ == old(out)@ + status_note(permission_opt_view(permission)),
{
    match permission {
        Some(p) => {
            if !p.0 {
                match &p.1 {
                    Some(reason) => {
                        let r = chars_of(reason.as_str());
                        let key = chars_of("Please wait");
                        if contains(r.as_slice(), key.as_slice()) {
                            push_str(out, "\n\n<b>\u{23f3} Status:</b> ");
                            extend_chars(out, r.as_slice());
                        } else {
                            assert(old(out)@ + Seq::<char>::empty() =~= old(out)@);
                        }
                    },
                    None => {
                        assert(old(out)@ + Seq::<char>::empty() =~= old(out)@);
                    },
                }
            } else {
                assert(old(out)@ + Seq::<char>::empty() =~= old(out)@);
            }
        },
        None => {
            assert(old(out)@ + Seq::<char>::empty() =~= old(out)@);
        },
    }
}

/// An HTML mention of a Telegram user.
pub open spec fn mention_text(user_id: u64, full_name: Seq<char>) -> Seq<char> {
    "<a href=\"tg://user?id="@ + decimal_text(user_id as nat) + "\">"@ + full_name + "</a>"@
}

/// An HTML mention of a Telegram user: a link to the user, showing the name.
pub fn user_mention(user_id: u64, full_name: &str) -> (r: String)
    ensures
        r@ == mention_text(user_id, full_name@),
{
    let mut out: Vec<char> = Vec::new();
    push_str(&mut out, "<a href=\"tg://user?id=");
    let digits = render_decimal(user_id as u128);
    extend_chars(&mut out, digits.as_slice());
    push_str(&mut out, "\">");
    push_str(&mut out, full_name);
    push_str(&mut out, "</a>");
    assert(out@ =~= mention_text(user_id, full_name@));
    string_from_chars(out.as_slice())
}

// ---------------------------------------------------------------------------
// /start
// ---------------------------------------------------------------------------

/// The notice shown when no printer is configured.
pub const PRINTER_WARNING: &'static str = "\n\n<b>\u{26a0}\u{fe0f} Warning:</b> The printer is not configured. Printing is currently disabled. Please contact the administrator.";

/// The welcome message: a greeting with the user's mention, a warning if no
/// printer is configured, and the cooldown status for a guest who must wait.
pub open spec fn start_text(
    mention: Seq<char>,
    printer_name: Seq<char>,
    permission: Option<(bool, Option<Seq<char>>)>,
) -> Seq<char> {
    "Hi "@ + mention + "! Send me an image to print on the label printer."@ + (if printer_name.len()
        == 0 {
        PRINTER_WARNING@
    } else {
        Seq::empty()
    }) + status_note(permission)
}

/// The reply to `/start`. `permission` is the user's permission to print,
/// given for users who are not on the allowed list.
pub fn start(mention: &str, config: &Config, permission: Option<&(bool, Option<String>)>) -> (r:
    String)
    ensures
        r@ == start_text(mention@, config.cups_printer_name@, permission_opt_view(permission)),
{
    let mut out: Vec<char> = Vec::new();
    push_str(&mut out, "Hi ");
    push_str(&mut out, mention);
    push_str(&mut out, "! Send me an image to print on the label printer.");
    if config.cups_printer_name.as_str().is_empty() {
        push_str(&mut out, PRINTER_WARNING);
    } else {
        assert(out@ + Seq::<char>::empty() =~= out@);
    }
    push_status(&mut out, permission);
    assert(out@ =~= start_text(mention@, config.cups_printer_name@, permission_opt_view(permission)));
    string_from_chars(out.as_slice())
}

// ---------------------------------------------------------------------------
// /help
// ---------------------------------------------------------------------------

/// The start of the help text for users on the allowed list, up to the label
/// width.
pub const HELP_AUTHORIZED_HEAD: &'static str = "<b>\u{1f916} Bot Commands & Usage:</b>\n\n\
            \u{1f44b} /start - Display the welcome message.\n\
            \u{2753} /help - Show this help message.\n\
            \u{2699}\u{fe0f} /setmaxcopies &lt;number&gt; - Set the max copies allowed per print (e.g., <code>/setmaxcopies 50</code>). (Authorized users only)\n\n\
            <b>\u{1f5a8}\u{fe0f} Printing:</b>\n\
            Simply send an image \u{1f5bc}\u{fe0f} to the chat. The bot will automatically resize it and print it on a ";

/// The part of the help text for users on the allowed list between the label
/// height and the copy limit.
pub const HELP_AUTHORIZED_MIDDLE: &'static str = " inch label.\n\n\
            <b>#\u{fe0f}\u{20e3} Multiple Copies:</b>\n\
            To print multiple copies, the image caption must contain <b>only</b> the copy specifier (case-insensitive, ignoring surrounding whitespace):\n\
            \u{2022} <code>x3</code> (prints 3 copies)\n\
            \u{2022} <code>copies=5</code> (prints 5 copies)\n\
            Any other text in the caption, or no caption, will result in 1 copy being printed.\n\n\
            <b>\u{26a0}\u{fe0f} Max Copies Limit:</b>\n\
            The maximum number of copies per request is currently <b>";

/// The start of the help text for guests, up to the label width.
pub const HELP_GUEST_HEAD: &'static str = "<b>\u{1f916} Bot Commands & Usage:</b>\n\n\
            \u{1f44b} /start - Display the welcome message.\n\
            \u{2753} /help - Show this help message.\n\n\
            <b>\u{1f5a8}\u{fe0f} Printing:</b>\n\
            Simply send an image \u{1f5bc}\u{fe0f} to the chat. The bot will automatically print <b>one copy</b> on a ";

/// The help paragraph when guest printing is on.
pub const GUEST_PRINTING_ON: &'static str = "\n\n<b>\u{1f464} Guest Printing:</b>\nGuest printing is currently <b>enabled</b>. Users not on the authorized list can print one image every 7 days.";

/// The help paragraph when guest printing is off.
pub const GUEST_PRINTING_OFF: &'static str = "\n\n<b>\u{1f464} Guest Printing:</b>\nGuest printing is currently <b>disabled</b>. Only authorized users can print.";

/// The help text: the commands and how to print (with the copy rules and
/// the current copy limit for users on the allowed list), whether guests may
/// print, and the cooldown status for a guest who must wait.
pub open spec fn help_text(
    is_authorized: bool,
    width: Seq<char>,
    height: Seq<char>,
    max_copies: usize,
    allow_guest_printing: bool,
    permission: Option<(bool, Option<Seq<char>>)>,
) -> Seq<char> {
    (if is_authorized {
        HELP_AUTHORIZED_HEAD@ + width + "x"@ + height + HELP_AUTHORIZED_MIDDLE@ + decimal_text(
            max_copies as nat,
        ) + "</b>."@
    } else {
        HELP_GUEST_HEAD@ + width + "x"@ + height + " inch label."@
    }) + (if allow_guest_printing {
        GUEST_PRINTING_ON@
    } else {
        GUEST_PRINTING_OFF@
    }) + (if is_authorized {
        Seq::empty()
    } else {
        status_note(permission)
    })
}

/// The reply to `/help`. `permission` is the user's permission to print,
/// given for users who are not on the allowed list.
pub fn help(
    config: &Config,
    is_authorized: bool,
    max_copies: usize,
    permission: Option<&(bool, Option<String>)>,
) -> (r: String)
    ensures
        r@ == help_text(
            is_authorized,
            config.label.width_text@,
            config.label.height_text@,
            max_copies,
            config.allow_guest_printing,
            permission_opt_view(permission),
        ),
{
    let mut out: Vec<char> = Vec::new();
    if is_authorized {
        push_str(&mut out, HELP_AUTHORIZED_HEAD);
        push_str(&mut out, config.label.width_text.as_str());
        push_str(&mut out, "x");
        push_str(&mut out, config.label.height_text.as_str());
        push_str(&mut out, HELP_AUTHORIZED_MIDDLE);
        let digits = render_decimal(max_copies as u128);
        extend_chars(&mut out, digits.as_slice());
        push_str(&mut out, "</b>.");
    } else {
        push_str(&mut out, HELP_GUEST_HEAD);
        push_str(&mut out, config.label.width_text.as_str());
        push_str(&mut out, "x");
        push_str(&mut out, config.label.height_text.as_str());
        push_str(&mut out, " inch label.");
    }
    if config.allow_guest_printing {
        push_str(&mut out, GUEST_PRINTING_ON);
    } else {
        push_str(&mut out, GUEST_PRINTING_OFF);
    }
    if !is_authorized {
        push_status(&mut out, permission);
    } else {
        assert(out@ + Seq::<char>::empty() =~= out@);
    }
    assert(out@ =~= help_text(
        is_authorized,
        config.label.width_text@,
        config.label.height_text@,
        max_copies,
        config.allow_guest_printing,
        permission_opt_view(permission),
    ));
    string_from_chars(out.as_slice())
}

// ---------------------------------------------------------------------------
// /setmaxcopies
// ---------------------------------------------------------------------------

/// The whitespace-separated words of `s`, as `str::split_whitespace` yields
/// them.
pub open spec fn words(s: Seq<char>) -> Seq<Seq<char>>
    decreases s.len(),
{
    if s.len() == 0 {
        Seq::empty()
    } else if is_white_space(s.last()) {
        words(s.drop_last())
    } else if s.len() >= 2 && !is_white_space(s[s.len() - 2]) {
        let w = words(s.drop_last());
        w.update(w.len() - 1, w.last().push(s.last()))
    } else {
        words(s.drop_last()).push(seq![s.last()])
    }
}

/// A text that ends in a non-whitespace character has a last word, and that
/// word ends with it.
pub proof fn lemma_words_last(s: Seq<char>)
    ensures
        s.len() > 0 && !is_white_space(s.last()) ==> words(s).len() > 0,
    decreases s.len(),
{
    if s.len() >= 2 {
        lemma_words_last(s.drop_last());
        assert(s.drop_last().last() == s[s.len() - 2]);
    }
}

/// The words of `s` (`s.split_whitespace()`).
pub fn split_words(s: &[char]) -> (r: Vec<Vec<char>>)
    ensures
        r@.map_values(|w: Vec<char>| w@) == words(s@),
{
    let mut out: Vec<Vec<char>> = Vec::new();
    let mut current: Vec<char> = Vec::new();
    let mut in_word = false;
    let mut i: usize = 0;
    assert(s@.take(0) =~= Seq::<char>::empty());
    while i < s.len()
        invariant
            i <= s@.len(),
            in_word == (i > 0 && !is_white_space(s@[i - 1])),
            in_word ==> words(s@.take(i as int)).len() > 0,
            in_word ==> out@.map_values(|w: Vec<char>| w@).push(current@) == words(
                s@.take(i as int),
            ),
            !in_word ==> out@.map_values(|w: Vec<char>| w@) == words(s@.take(i as int)),
        decreases s@.len() - i,
    {
        let ghost prev = s@.take(i as int);
        let ghost next = s@.take(i + 1);
        assert(next.drop_last() =~= prev);
        assert(next.last() == s@[i as int]);
        let c = s[i];
        if white_space(c) {
            if in_word {
                let ghost before = out@.map_values(|w: Vec<char>| w@);
                let word = current;
                current = Vec::new();
                out.push(word);
                assert(out@.map_values(|w: Vec<char>| w@) =~= before.push(word@));
            }
            in_word = false;
        } else {
            if in_word {
                proof {
                    lemma_words_last(prev);
                    assert(prev.last() == s@[i - 1]);
                    assert(next[next.len() - 2] == s@[i - 1]);
                }
                let ghost before = out@.map_values(|w: Vec<char>| w@);
                current.push(c);
                let ghost w = words(prev);
                assert(w =~= before.push(w.last()));
                assert(words(next) =~= before.push(current@));
            } else {
                assert(i == 0 || is_white_space(next[next.len() - 2]));
                current = Vec::new();
                current.push(c);
                assert(current@ =~= seq![c]);
            }
            in_word = true;
        }
        i = i + 1;
    }
    assert(s@.take(s@.len() as int) =~= s@);
    if in_word {
        let ghost before = out@.map_values(|w: Vec<char>| w@);
        out.push(current);
        assert(out@.map_values(|w: Vec<char>| w@) =~= before.push(current@));
    }
    out
}

/// The reply to a guest who tries `/setmaxcopies`.
pub open spec fn not_authorized_reply() -> Seq<char> {
    "Sorry, you are not authorized to use this command."@
}

/// The reply to `/setmaxcopies` without exactly one argument.
pub open spec fn usage_reply() -> Seq<char> {
    "Usage: /setmaxcopies <number>\nExample: /setmaxcopies 50"@
}

/// The reply to `/setmaxcopies 0`.
pub open spec fn not_positive_reply() -> Seq<char> {
    "Maximum copies must be a positive number."@
}

/// The reply to `/setmaxcopies` with an argument that is not a number.
pub open spec fn not_a_number_reply() -> Seq<char> {
    "Invalid number provided. Please enter a whole number."@
}

/// The reply confirming a new copy limit.
pub open spec fn new_limit_reply(n: usize) -> Seq<char> {
    "Maximum copies per request set to <b>"@ + decimal_text(n as nat)
        + "</b> for this session."@
}

/// What `/setmaxcopies` does: the new copy limit, if it changes, and the
/// reply. Only users on the allowed list may change the limit; the command
/// must have exactly one argument, a whole number above zero.
pub open spec fn max_copies_outcome(is_authorized: bool, text: Seq<char>) -> (Option<usize>, Seq<char>) {
    if !is_authorized {
        (None, not_authorized_reply())
    } else if words(text).len() != 2 {
        (None, usage_reply())
    } else {
        match parsed_usize(words(text)[1]) {
            Some(n) => if n > 0 {
                (Some(n), new_limit_reply(n))
            } else {
                (None, not_positive_reply())
            },
            None => (None, not_a_number_reply()),
        }
    }
}

/// The reply to `/setmaxcopies`, and the new copy limit if the command sets
/// one. `text` is the whole message.
pub fn set_max_copies(is_authorized: bool, text: &str) -> (r: (Option<usize>, String))
    ensures
        (r.0, r.1@) == max_copies_outcome(is_authorized, text@),
{
    if !is_authorized {
        return (None, String::from_str("Sorry, you are not authorized to use this command."));
    }
    let cs = chars_of(text);
    let parts = split_words(cs.as_slice());
    assert(parts@.len() == words(text@).len());
    if parts.len() != 2 {
        return (None, String::from_str("Usage: /setmaxcopies <number>\nExample: /setmaxcopies 50"));
    }
    assert(parts@[1]@ == words(text@)[1]);
    match parse_usize(parts[1].as_slice()) {
        Some(n) => if n > 0 {
            let mut out: Vec<char> = Vec::new();
            push_str(&mut out, "Maximum copies per request set to <b>");
            let digits = render_decimal(n as u128);
            extend_chars(&mut out, digits.as_slice());
            push_str(&mut out, "</b> for this session.");
            assert(out@ =~= new_limit_reply(n));
            (Some(n), string_from_chars(out.as_slice()))
        } else {
            (None, String::from_str("Maximum copies must be a positive number."))
        },
        None => (None, String::from_str("Invalid number provided. Please enter a whole number.")),
    }
}

// ---------------------------------------------------------------------------
// Incoming images
// ---------------------------------------------------------------------------

/// What to do with an incoming image.
#[derive(Debug)]
pub enum ImagePlan {
    /// Do not print; send this reply.
    Refuse(String),
    /// Print this many copies, after sending this announcement.
    Print { copies: usize, announcement: String },
}

/// The words for the copies to print, and how many: users on the allowed
/// list get the copies they asked for; guests always get one.
pub open spec fn copies_decision(is_authorized: bool, requested: usize) -> (usize, Seq<char>) {
    if is_authorized {
        (
            requested,
            if requested == 1 {
                "1 copy"@
            } else {
                decimal_text(requested as nat) + " copies"@
            },
        )
    } else if requested > 1 {
        (1, "1 copy (multiple copies ignored for guest users)"@)
    } else {
        (1, "1 copy"@)
    }
}

/// How many copies to print and how to say so.
pub fn copies_plan(is_authorized: bool, requested: usize) -> (r: (usize, String))
    ensures
        (r.0, r.1@) == copies_decision(is_authorized, requested),
{
    if is_authorized {
        if requested == 1 {
            (requested, String::from_str("1 copy"))
        } else {
            let mut out = render_decimal(requested as u128);
            push_str(&mut out, " copies");
            (requested, string_from_chars(out.as_slice()))
        }
    } else if requested > 1 {
        (1, String::from_str("1 copy (multiple copies ignored for guest users)"))
    } else {
        (1, String::from_str("1 copy"))
    }
}

/// The reply refusing a user who may not print now.
pub open spec fn refusal_text(reason: Option<Seq<char>>) -> Seq<char> {
    "Sorry, you cannot print right now. "@ + match reason {
        Some(r) => r,
        None => Seq::empty(),
    }
}

/// The reply to a message without a photo.
pub open spec fn no_photo_reply() -> Seq<char> {
    "Please send an image file."@
}

/// The reply when no printer is configured.
pub open spec fn no_printer_reply() -> Seq<char> {
    "Printer is not configured. Please contact the administrator."@
}

/// The announcement sent before printing.
pub open spec fn announcement_text(width: Seq<char>, height: Seq<char>, copies_words: Seq<char>) -> Seq<
    char,
> {
    "Received image. Resizing for "@ + width + "x"@ + height
        + "in label and preparing to print "@ + copies_words + "..."@
}

/// What to do with an incoming image: refuse a user who may not print
/// (with the reason), a message without a photo, or any image while no
/// printer is configured; otherwise print the copies the caption asks for
/// (one for guests).
pub open spec fn image_decision(
    config: Config,
    user_id: i64,
    permission: (bool, Option<Seq<char>>),
    has_photo: bool,
    caption: Option<Seq<char>>,
    max_copies: usize,
) -> (Option<usize>, Seq<char>) {
    if !permission.0 {
        (None, refusal_text(permission.1))
    } else if !has_photo {
        (None, no_photo_reply())
    } else if config.cups_printer_name@.len() == 0 {
        (None, no_printer_reply())
    } else {
        let plan = copies_decision(
            config.authorizes(user_id),
            requested_copies(caption, max_copies),
        );
        (
            Some(plan.0),
            announcement_text(config.label.width_text@, config.label.height_text@, plan.1),
        )
    }
}

/// The plan's abstract value: the copies to print (none when refusing) and
/// the message to send.
pub open spec fn plan_view(p: ImagePlan) -> (Option<usize>, Seq<char>) {
    match p {
        ImagePlan::Refuse(reply) => (None, reply@),
        ImagePlan::Print { copies, announcement } => (Some(copies), announcement@),
    }
}

/// Decides what to do with an incoming image, given the sender's permission
/// to print, whether the message holds a photo, its caption and the current
/// copy limit.
pub fn handle_image(
    config: &Config,
    user_id: i64,
    permission: &(bool, Option<String>),
    has_photo: bool,
    caption: Option<&str>,
    max_copies: usize,
) -> (r: ImagePlan)
    ensures
        plan_view(r) == image_decision(
            *config,
            user_id,
            permission_view(*permission),
            has_photo,
            match caption {
                Some(c) => Some(c@),
                None => None,
            },
            max_copies,
        ),
        r matches ImagePlan::Print { copies, .. } ==> 1 <= copies && (copies == 1 || copies
            <= max_copies),
        !config.authorizes(user_id) ==> (r matches ImagePlan::Print { copies, .. } ==> copies
            == 1),
{
    if !permission.0 {
        let mut out: Vec<char> = Vec::new();
        push_str(&mut out, "Sorry, you cannot print right now. ");
        match &permission.1 {
            Some(reason) => push_str(&mut out, reason.as_str()),
            None => {},
        }
        assert(out@ =~= refusal_text(text_of(permission.1)));
        return ImagePlan::Refuse(string_from_chars(out.as_slice()));
    }
    if !has_photo {
        return ImagePlan::Refuse(String::from_str("Please send an image file."));
    }
    if config.cups_printer_name.as_str().is_empty() {
        return ImagePlan::Refuse(
            String::from_str("Printer is not configured. Please contact the administrator."),
        );
    }
    let is_authorized = config.is_authorized(user_id);
    let requested = parse_copies(caption, max_copies);
    let (copies, words) = copies_plan(is_authorized, requested);
    let mut out: Vec<char> = Vec::new();
    push_str(&mut out, "Received image. Resizing for ");
    push_str(&mut out, config.label.width_text.as_str());
    push_str(&mut out, "x");
    push_str(&mut out, config.label.height_text.as_str());
    push_str(&mut out, "in label and preparing to print ");
    push_str(&mut out, words.as_str());
    push_str(&mut out, "...");
    assert(out@ =~= announcement_text(
        config.label.width_text@,
        config.label.height_text@,
        words@,
    ));
    ImagePlan::Print { copies, announcement: string_from_chars(out.as_slice()) }
}

/// The reply after the printer took the job.
pub open spec fn printed_text(copies: usize, printer_message: Seq<char>) -> Seq<char> {
    "Sent "@ + decimal_text(copies as nat) + " cop"@ + (if copies == 1 {
        "y"@
    } else {
        "ies"@
    }) + " to printer! CUPS message: "@ + printer_message
}

/// The reply after the printer took the job, with the printer's message.
pub fn print_success_reply(copies: usize, printer_message: &str) -> (r: String)
    ensures
        r@ == printed_text(copies, printer_message@),
{
    let mut out: Vec<char> = Vec::new();
    push_str(&mut out, "Sent ");
    let digits = render_decimal(copies as u128);
    extend_chars(&mut out, digits.as_slice());
    push_str(&mut out, " cop");
    if copies == 1 {
        push_str(&mut out, "y");
    } else {
        push_str(&mut out, "ies");
    }
    push_str(&mut out, " to printer! CUPS message: ");
    push_str(&mut out, printer_message);
    assert(out@ =~= printed_text(copies, printer_message@));
    string_from_chars(out.as_slice())
}

/// The reply when the printer refused the job.
pub fn print_failure_reply(error: &str) -> (r: String)
    ensures
        r@ == "Failed to send to printer. Error: "@ + error@,
{
    let mut out: Vec<char> = Vec::new();
    push_str(&mut out, "Failed to send to printer. Error: ");
    push_str(&mut out, error);
    string_from_chars(out.as_slice())
}

/// Whether a print is recorded in the history: it is for guests, while
/// guest printing is on.
pub fn should_record_print(config: &Config, user_id: i64) -> (r: bool)
    ensures
        r == (config.allow_guest_printing && !config.authorizes(user_id)),
{
    config.allow_guest_printing && !config.is_authorized(user_id)
}

} // verus!

verus! {

/// Only users on the allowed list can change the copy limit.
pub proof fn lemma_only_authorized_change_limit(text: Seq<char>)
    ensures
        max_copies_outcome(false, text).0 is None,
        max_copies_outcome(false, text).1 == not_authorized_reply(),
{
}

/// A copy limit that `/setmaxcopies` sets is above zero, and its reply names
/// it.
pub proof fn lemma_new_limit_positive(is_authorized: bool, text: Seq<char>)
    ensures
        max_copies_outcome(is_authorized, text).0 matches Some(n) ==> n > 0
            && max_copies_outcome(is_authorized, text).1 == new_limit_reply(n),
{
}

/// The copy count a caption asks for is one, or between one and the limit.
pub proof fn lemma_requested_copies_within_limit(caption: Option<Seq<char>>, max_copies: usize)
    ensures
        requested_copies(caption, max_copies) == 1 || 1 <= requested_copies(caption, max_copies)
            <= max_copies,
{
}

/// Guests always print exactly one copy, whatever they ask for; users on
/// the allowed list print what they ask for.
pub proof fn lemma_guests_print_one_copy(requested: usize)
    ensures
        copies_decision(false, requested).0 == 1,
        copies_decision(true, requested).0 == requested,
{
}

/// A user on the allowed list who may print and sends a photo captioned
/// `x<n>`, with `1 <= n <=` the current copy limit `max_copies`, gets `n`
/// copies printed when a printer is configured, whatever the configured
/// `MAX_COPIES` is: the limit that counts is the one passed in, which
/// `/setmaxcopies` may have raised.
pub proof fn lemma_authorized_caption_prints_requested(
    config: Config,
    user_id: i64,
    reason: Option<Seq<char>>,
    n: usize,
    max_copies: usize,
)
    requires
        config.authorizes(user_id),
        config.cups_printer_name@.len() > 0,
        1 <= n <= max_copies,
    ensures
        image_decision(
            config,
            user_id,
            (true, reason),
            true,
            Some(seq!['x'] + decimal_text(n as nat)),
            max_copies,
        ).0 == Some(n),
{
    lemma_x_caption_copies(n, max_copies);
}

/// A caption asking for `n` copies as `x<n>`, with `n` within the limit,
/// gets `n` copies.
pub proof fn lemma_x_caption_copies(n: usize, max_copies: usize)
    requires
        1 <= n <= max_copies,
    ensures
        requested_copies(Some(seq!['x'] + decimal_text(n as nat)), max_copies) == n,
{
    let t = seq!['x'] + decimal_text(n as nat);
    crate::text::lemma_decimal_text_digits(n as nat);
    crate::text::lemma_decimal_text_parses_back(n);
    assert(t.drop_first() =~= decimal_text(n as nat));
    assert(!is_white_space(t[0]));
    assert(trim_start(t) == t);
    let last = decimal_text(n as nat).last();
    assert(crate::text::is_ascii_digit(decimal_text(n as nat)[decimal_text(n as nat).len() - 1]));
    assert(t.last() == last);
    assert(trimmed(t) == t);
}

} // verus!
