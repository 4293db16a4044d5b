# telefax

A Telegram bot that receives images and prints them on a CUPS label printer.
The bot's logic is a library verified with Verus; the program around it
(Telegram, files, the `lp` process) is ordinary Rust.

## Layout

- `src/` — the verified library
  - `text.rs`: whitespace and trimming, decimal numbers (reading and
    writing), substring search and pattern removal, over `Seq<char>`.
  - `clock.rs`: calendar days and instants, and the `chrono` calls that read
    the clock and parse dates.
  - `config.rs`: the configuration and how it is built from the
    environment's values; who is authorized; the rate-limit override window.
  - `history.rs`: the guests' print history, reading it back from its JSON
    form, recording prints, and the rule deciding who may print now.
  - `handlers.rs`: the copy count a caption asks for, and the replies and
    decisions for `/start`, `/help`, `/setmaxcopies` and incoming images.
  - `print.rs`: the `lp` command line and what a finished `lp` run means,
    and fitting an image to the label (resizing with the `image` crate,
    cropping the middle, PNG or JPEG).
- `app/` — the program: reading the environment, the history file, the
  Telegram handlers, the floating-point cover size of an image, and the
  CUPS call.
- `tests/` — tests of the library.
