use telefax::config::{Config, LabelSize};
use telefax::handlers::{
    copies_plan, handle_image, help, parse_copies, print_failure_reply, print_success_reply,
    set_max_copies, should_record_print, split_words, start, user_mention, ImagePlan,
};
use telefax::text::chars_of;

fn config(printer: &str, allowed: Vec<i64>, guest: bool) -> Config {
    Config {
        telegram_bot_token: "t".to_string(),
        cups_printer_name: printer.to_string(),
        cups_server_host: None,
        allowed_user_ids: allowed,
        allow_guest_printing: guest,
        max_copies: 100,
        label: LabelSize {
            width_px: 1350,
            height_px: 1800,
            width_text: "4.5".to_string(),
            height_text: "6".to_string(),
            width_two_decimals: "4.50".to_string(),
            height_two_decimals: "6.00".to_string(),
        },
        rate_limit_override_start: None,
        rate_limit_override_end: None,
    }
}

#[test]
fn parse_copies_empty() {
    assert_eq!(parse_copies(None, 100), 1);
    assert_eq!(parse_copies(Some("  "), 100), 1);
}

#[test]
fn parse_copies_x_format() {
    assert_eq!(parse_copies(Some("x3"), 100), 3);
    assert_eq!(parse_copies(Some("X3"), 100), 3);
    assert_eq!(parse_copies(Some("  x5  "), 100), 5);
}

#[test]
fn parse_copies_equals_format() {
    assert_eq!(parse_copies(Some("copies=5"), 100), 5);
    assert_eq!(parse_copies(Some("COPIES=5"), 100), 5);
    assert_eq!(parse_copies(Some("copies = 7"), 100), 7);
}

#[test]
fn parse_copies_out_of_range() {
    assert_eq!(parse_copies(Some("x0"), 100), 1);
    assert_eq!(parse_copies(Some("x101"), 100), 1);
    assert_eq!(parse_copies(Some("copies=999"), 100), 1);
}

#[test]
fn parse_copies_random_text() {
    assert_eq!(parse_copies(Some("hello world"), 100), 1);
    assert_eq!(parse_copies(Some("x3 extra"), 100), 1);
    assert_eq!(parse_copies(Some("print 3 copies"), 100), 1);
}

#[test]
fn parse_copies_edge_forms() {
    assert_eq!(parse_copies(Some("x"), 100), 1);
    assert_eq!(parse_copies(Some("x+3"), 100), 1);
    assert_eq!(parse_copies(Some("x\u{0663}"), 100), 1);
    assert_eq!(parse_copies(Some("x99999999999999999999999"), 100), 1);
    assert_eq!(parse_copies(Some("Copies\t=\u{3000}12"), 100), 12);
    assert_eq!(parse_copies(Some("copie\u{17F}=4"), 100), 4);
    assert_eq!(parse_copies(Some("copies="), 100), 1);
    assert_eq!(parse_copies(Some("copies=4 "), 100), 4);
    assert_eq!(parse_copies(Some("copiesx=4"), 100), 1);
    assert_eq!(parse_copies(Some("x7"), 7), 7);
    assert_eq!(parse_copies(Some("x7"), 0), 1);
}

#[test]
fn guests_print_one_copy() {
    assert_eq!(copies_plan(true, 3), (3, "3 copies".to_string()));
    assert_eq!(copies_plan(true, 1), (1, "1 copy".to_string()));
    assert_eq!(copies_plan(false, 3), (1, "1 copy (multiple copies ignored for guest users)".to_string()));
    assert_eq!(copies_plan(false, 1), (1, "1 copy".to_string()));
}

#[test]
fn image_plan_refusals_in_order() {
    let c = config("P", vec![1], true);
    let refused = (false, Some("Because.".to_string()));
    match handle_image(&c, 2, &refused, true, Some("x3"), 100) {
        ImagePlan::Refuse(t) => assert_eq!(t, "Sorry, you cannot print right now. Because."),
        other => panic!("{:?}", other),
    }
    match handle_image(&c, 2, &(false, None), false, None, 100) {
        ImagePlan::Refuse(t) => assert_eq!(t, "Sorry, you cannot print right now. "),
        other => panic!("{:?}", other),
    }
    match handle_image(&c, 1, &(true, None), false, None, 100) {
        ImagePlan::Refuse(t) => assert_eq!(t, "Please send an image file."),
        other => panic!("{:?}", other),
    }
    let no_printer = config("", vec![1], true);
    match handle_image(&no_printer, 1, &(true, None), true, None, 100) {
        ImagePlan::Refuse(t) => assert_eq!(t, "Printer is not configured. Please contact the administrator."),
        other => panic!("{:?}", other),
    }
}

#[test]
fn image_plan_copies() {
    let c = config("P", vec![1], true);
    match handle_image(&c, 1, &(true, None), true, Some("x3"), 100) {
        ImagePlan::Print { copies, announcement } => {
            assert_eq!(copies, 3);
            assert_eq!(announcement, "Received image. Resizing for 4.5x6in label and preparing to print 3 copies...");
        }
        other => panic!("{:?}", other),
    }
    match handle_image(&c, 2, &(true, None), true, Some("x3"), 100) {
        ImagePlan::Print { copies, announcement } => {
            assert_eq!(copies, 1);
            assert_eq!(announcement, "Received image. Resizing for 4.5x6in label and preparing to print 1 copy (multiple copies ignored for guest users)...");
        }
        other => panic!("{:?}", other),
    }
}

#[test]
fn print_replies() {
    assert_eq!(print_success_reply(1, "job 7"), "Sent 1 copy to printer! CUPS message: job 7");
    assert_eq!(print_success_reply(2, ""), "Sent 2 copies to printer! CUPS message: ");
    assert_eq!(print_failure_reply("boom"), "Failed to send to printer. Error: boom");
    assert!(should_record_print(&config("P", vec![1], true), 2));
    assert!(!should_record_print(&config("P", vec![1], true), 1));
    assert!(!should_record_print(&config("P", vec![1], false), 2));
}

#[test]
fn set_max_copies_replies() {
    assert_eq!(set_max_copies(false, "/setmaxcopies 5"), (None, "Sorry, you are not authorized to use this command.".to_string()));
    assert_eq!(set_max_copies(true, "/setmaxcopies"), (None, "Usage: /setmaxcopies <number>\nExample: /setmaxcopies 50".to_string()));
    assert_eq!(set_max_copies(true, "/setmaxcopies 5 6"), (None, "Usage: /setmaxcopies <number>\nExample: /setmaxcopies 50".to_string()));
    assert_eq!(set_max_copies(true, "  /setmaxcopies \t 50 "), (Some(50), "Maximum copies per request set to <b>50</b> for this session.".to_string()));
    assert_eq!(set_max_copies(true, "/setmaxcopies 0"), (None, "Maximum copies must be a positive number.".to_string()));
    assert_eq!(set_max_copies(true, "/setmaxcopies five"), (None, "Invalid number provided. Please enter a whole number.".to_string()));
}

#[test]
fn words_split_on_unicode_whitespace() {
    let words = split_words(&chars_of("  a bc\u{2003}d\n"));
    let words: Vec<String> = words.iter().map(|w| w.iter().collect()).collect();
    assert_eq!(words, vec!["a", "bc", "d"]);
    assert!(split_words(&chars_of(" \t ")).is_empty());
}

#[test]
fn start_message() {
    let mention = user_mention(42, "Ann Lee");
    assert_eq!(mention, "<a href=\"tg://user?id=42\">Ann Lee</a>");
    let c = config("P", vec![1], true);
    assert_eq!(start(&mention, &c, None), format!("Hi {}! Send me an image to print on the label printer.", mention));
    let waiting = (false, Some("You have already printed recently. Please wait 3 days before printing again.".to_string()));
    assert_eq!(
        start("M", &c, Some(&waiting)),
        "Hi M! Send me an image to print on the label printer.\n\n<b>\u{23f3} Status:</b> You have already printed recently. Please wait 3 days before printing again."
    );
    let restricted = (false, Some("Printing is restricted to authorized users only.".to_string()));
    assert_eq!(start("M", &c, Some(&restricted)), "Hi M! Send me an image to print on the label printer.");
    let no_printer = config("", vec![1], true);
    assert!(start("M", &no_printer, None).contains("The printer is not configured."));
}

#[test]
fn help_message() {
    let c = config("P", vec![1], true);
    let text = help(&c, true, 50, None);
    assert!(text.starts_with("<b>\u{1f916} Bot Commands & Usage:</b>\n\n\u{1f44b} /start - Display the welcome message.\n"));
    assert!(text.contains("print it on a 4.5x6 inch label.\n\n"));
    assert!(text.contains("The maximum number of copies per request is currently <b>50</b>."));
    assert!(text.ends_with("Users not on the authorized list can print one image every 7 days."));
    let waiting = (false, Some("Please wait 2 hours".to_string()));
    let guest = help(&config("P", vec![1], false), false, 50, Some(&waiting));
    assert!(guest.contains("print <b>one copy</b> on a 4.5x6 inch label."));
    assert!(!guest.contains("maximum number"));
    assert!(guest.contains("Guest printing is currently <b>disabled</b>."));
    assert!(guest.ends_with("\n\n<b>\u{23f3} Status:</b> Please wait 2 hours"));
}
