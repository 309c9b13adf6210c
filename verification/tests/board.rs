use transit_rust::aliases::AliasTable;
use transit_rust::clock::WallClock;
use transit_rust::display_board::{
    BoardPhase, DisplayBoard, LedColor, LedPalette, RGBDisplayLine, StyledString,
};
use transit_rust::refresh::{record_poll, update_display_board, RefreshPolicy};
use transit_rust::render::{DisplayLine, Token};
use transit_rust::sign::{layout_rows, row_origin, sign_clock_text, SignLayout, TextBlock};
use transit_rust::stop_monitor::{FetchError, LineStop, MonitoredVehicleJourney};
use transit_rust::style::{Accent, Emphasis, Style, StyleResolver};
use transit_rust::terminal::{first_refused, first_refused_token, header_lines, RenderError};

fn journey(line: &str, minutes: Option<u64>, located: bool) -> MonitoredVehicleJourney {
    MonitoredVehicleJourney::new(line.to_string(), minutes, located)
}

fn feed() -> Vec<(LineStop, Vec<MonitoredVehicleJourney>)> {
    vec![
        (
            LineStop::new("14R".to_string(), "Mission".to_string()),
            vec![journey("14R", Some(5), true)],
        ),
        (
            LineStop::new("43".to_string(), "Masonic".to_string()),
            vec![journey("43", Some(11), false)],
        ),
        (
            LineStop::new("14".to_string(), "Mission".to_string()),
            vec![journey("14", Some(2), false)],
        ),
    ]
}

fn aliases() -> AliasTable {
    AliasTable::from_pairs(vec![("14R".to_string(), "14".to_string())])
}

fn at(hour: u32, minute: u32, second: u32) -> WallClock {
    WallClock { year: 2024, month: 3, day: 5, hour, minute, second }
}

fn palette() -> LedPalette {
    LedPalette {
        plain: LedColor { red: 0, green: 0, blue: 255 },
        child: LedColor::red(),
        parent: LedColor::green(),
        highlight: LedColor { red: 255, green: 0, blue: 255 },
        alert: LedColor { red: 255, green: 255, blue: 0 },
    }
}

fn texts(lines: &Vec<DisplayLine>) -> Vec<String> {
    lines.iter().map(|l| l.text()).collect()
}

fn token(text: &str, accent: Accent, emphasis: Emphasis) -> Token {
    Token { text: text.to_string(), style: Style { accent, emphasis } }
}

fn block(x: i32, y: i32, color: LedColor, text: &str) -> TextBlock {
    TextBlock { x, y, color, text: text.to_string() }
}

#[test]
fn successful_poll_replaces_rows_and_time() {
    let mut board = DisplayBoard::new();
    record_poll(&mut board, Ok(feed()), &aliases(), None, at(7, 8, 9));
    assert!(board.last_request_successful);
    assert_eq!(board.last_successful_request_time, Some(at(7, 8, 9)));
    assert_eq!(board.phase(), BoardPhase::Fresh);
    let resolver = StyleResolver::new(None);
    assert_eq!(
        board.lines_to_write(&resolver),
        vec!["14: 2 5 ".to_string(), "43: 11 ".to_string()]
    );

    let later = vec![(
        LineStop::new("1".to_string(), "California".to_string()),
        vec![journey("1", Some(0), true)],
    )];
    record_poll(&mut board, Ok(later), &aliases(), None, at(7, 8, 39));
    assert_eq!(board.last_successful_request_time, Some(at(7, 8, 39)));
    assert_eq!(board.lines_to_write(&resolver), vec!["1: 0 ".to_string()]);
}

#[test]
fn failed_poll_keeps_rows_and_time() {
    let resolver = StyleResolver::new(None);
    let mut board = DisplayBoard::new();
    record_poll(&mut board, Ok(feed()), &aliases(), None, at(7, 8, 9));
    let rows_before = board.rendered_lines(&resolver);

    record_poll(
        &mut board,
        Err(FetchError::Transport("timed out".to_string())),
        &aliases(),
        None,
        at(9, 0, 0),
    );
    assert!(!board.last_request_successful);
    assert_eq!(board.last_successful_request_time, Some(at(7, 8, 9)));
    assert_eq!(board.rendered_lines(&resolver), rows_before);
    assert_eq!(board.phase(), BoardPhase::Stale);

    update_display_board(&mut board, Err(FetchError::Parse("bad feed".to_string())), &aliases(), None);
    assert!(!board.last_request_successful);
    assert_eq!(board.last_successful_request_time, Some(at(7, 8, 9)));
    assert_eq!(board.rendered_lines(&resolver), rows_before);
}

#[test]
fn failed_first_poll_leaves_board_empty() {
    let mut board = DisplayBoard::new();
    record_poll(&mut board, Err(FetchError::Transport(String::new())), &aliases(), None, at(1, 2, 3));
    assert!(board.display_lines.is_none());
    assert!(board.last_successful_request_time.is_none());
    assert!(!board.last_request_successful);
    assert_eq!(board.phase(), BoardPhase::Empty);
}

#[test]
fn empty_feed_is_a_success_without_rows() {
    let mut board = DisplayBoard::new();
    update_display_board(&mut board, Ok(Vec::new()), &aliases(), Some(true));
    assert!(board.last_request_successful);
    assert!(board.last_successful_request_time.is_some());
    assert_eq!(board.display_lines.as_ref().map(|l| l.len()), Some(0));
    assert_eq!(board.phase(), BoardPhase::Fresh);
    assert!(board.lines_to_write(&StyleResolver::new(None)).is_empty());
    assert_eq!(RefreshPolicy::standard().next_delay_secs(&board), 30);
}

#[test]
fn poll_made_now_is_stamped_with_a_clock_reading() {
    let mut board = DisplayBoard::new();
    update_display_board(&mut board, Ok(feed()), &aliases(), None);
    let stamp = board.last_successful_request_time.unwrap();
    assert!(stamp.year >= 2024);
    assert!((1..=12).contains(&stamp.month));
    assert!((1..=31).contains(&stamp.day));
    assert!(stamp.hour < 24 && stamp.minute < 60 && stamp.second < 60);
}

#[test]
fn delay_follows_the_latest_outcome() {
    let policy = RefreshPolicy::new(45, 7);
    let mut board = DisplayBoard::new();
    assert_eq!(policy.next_delay_secs(&board), 7);
    record_poll(&mut board, Ok(feed()), &aliases(), None, at(0, 0, 0));
    assert_eq!(policy.next_delay_secs(&board), 45);
    record_poll(&mut board, Err(FetchError::Transport(String::new())), &aliases(), None, at(0, 0, 1));
    assert_eq!(policy.next_delay_secs(&board), 7);
    assert_eq!(RefreshPolicy::standard(), RefreshPolicy { refresh_secs: 30, retry_secs: 2 });
    assert_eq!(RefreshPolicy::standard().next_delay_secs(&board), 2);
}

#[test]
fn panel_shows_times_then_rows() {
    let mut board = DisplayBoard::new();
    record_poll(&mut board, Ok(feed()), &aliases(), None, at(7, 8, 9));
    let resolver = StyleResolver::new(Some("43".to_string()));
    let lines = board.draw_at(&resolver, &at(7, 8, 21)).unwrap();
    assert_eq!(
        texts(&lines),
        vec![
            "Current Time: 2024-03-05 07:08:21".to_string(),
            "Last Updated: 2024-03-05 07:08:09".to_string(),
            "14: 2 5 ".to_string(),
            "43: 11 ".to_string(),
        ]
    );
    assert_eq!(
        lines[0].tokens,
        vec![
            token("Current Time: ", Accent::Plain, Emphasis::Regular),
            token("2024-03-05 07:08:21", Accent::Plain, Emphasis::Strong),
        ]
    );
    assert_eq!(lines[2].tokens[0], token("14", Accent::Plain, Emphasis::Strong));
    assert_eq!(lines[3].tokens[0], token("43", Accent::Highlight, Emphasis::Strong));
}

#[test]
fn panel_marks_stale_rows() {
    let mut board = DisplayBoard::new();
    record_poll(&mut board, Ok(feed()), &aliases(), None, at(7, 8, 9));
    record_poll(&mut board, Err(FetchError::Transport(String::new())), &aliases(), None, at(7, 9, 0));
    let lines = board.draw_at(&StyleResolver::new(None), &at(7, 9, 1)).unwrap();
    assert_eq!(texts(&lines)[1], "Last Updated: 2024-03-05 07:08:09 (stale)");
    assert_eq!(lines[1].tokens[3], token("(stale)", Accent::Alert, Emphasis::Strong));
    assert_eq!(texts(&lines)[2], "14: 2 5 ");
}

#[test]
fn panel_without_data_says_so() {
    let board = DisplayBoard::new();
    let lines = board.draw_at(&StyleResolver::new(None), &at(7, 9, 1)).unwrap();
    assert_eq!(lines, vec![DisplayLine { tokens: vec![token("No Information", Accent::Alert, Emphasis::Regular)] }]);
    let again = board.draw_unchecked(&StyleResolver::new(None)).unwrap();
    assert_eq!(again, lines);
}

#[test]
fn panel_drawn_now_has_header_and_rows() {
    let mut board = DisplayBoard::new();
    record_poll(&mut board, Ok(feed()), &aliases(), None, at(7, 8, 9));
    let lines = board.draw_unchecked(&StyleResolver::new(None)).unwrap();
    assert_eq!(lines.len(), 4);
    assert_eq!(lines[0].tokens[0].text, "Current Time: ");
    assert_eq!(lines[0].tokens[1].text.len(), 19);
    assert_eq!(lines[1].text(), "Last Updated: 2024-03-05 07:08:09");
}

#[test]
fn panel_refuses_whitespace_other_than_spaces() {
    let stops = vec![
        (
            LineStop::new("a".to_string(), "ok label".to_string()),
            vec![journey("a", Some(1), true)],
        ),
        (
            LineStop::new("b".to_string(), "Mission\t16th".to_string()),
            vec![journey("b", Some(1), true)],
        ),
        (
            LineStop::new("c".to_string(), "two\nlines".to_string()),
            vec![journey("c", Some(1), true)],
        ),
    ];
    let mut board = DisplayBoard::new();
    record_poll(&mut board, Ok(stops), &AliasTable::new(), Some(true), at(1, 1, 1));
    let result = board.draw_at(&StyleResolver::new(None), &at(1, 1, 2));
    assert_eq!(result, Err(RenderError::InvalidWhitespace("Mission\t16th".to_string())));
    assert_eq!(
        result.unwrap_err().message(),
        "Word Mission\t16th contains non-space whitespace"
    );
}

#[test]
fn refused_token_is_the_first_in_reading_order() {
    let plain = Style { accent: Accent::Plain, emphasis: Emphasis::Regular };
    let good = DisplayLine { tokens: vec![Token { text: "a b".to_string(), style: plain }] };
    let bad = DisplayLine {
        tokens: vec![
            Token { text: "fine".to_string(), style: plain },
            Token { text: "x\ry".to_string(), style: plain },
            Token { text: "p\tq".to_string(), style: plain },
        ],
    };
    assert_eq!(first_refused_token(&good), None);
    assert_eq!(first_refused_token(&bad), Some("x\ry".to_string()));
    assert_eq!(first_refused(&vec![good.clone(), bad.clone()]), Some("x\ry".to_string()));
    assert_eq!(first_refused(&vec![good.clone(), good.clone()]), None);
    assert_eq!(first_refused(&Vec::new()), None);
    let blank = DisplayLine { tokens: vec![Token { text: " ".to_string(), style: plain }] };
    assert_eq!(first_refused_token(&blank), None);
    let wide = DisplayLine { tokens: vec![Token { text: "\u{2003}".to_string(), style: plain }] };
    assert_eq!(first_refused_token(&wide), Some("\u{2003}".to_string()));
}

#[test]
fn time_that_is_no_time_cannot_be_drawn() {
    let mut board = DisplayBoard::new();
    let no_date = WallClock { year: 2023, month: 2, day: 30, hour: 0, minute: 0, second: 0 };
    record_poll(&mut board, Ok(feed()), &aliases(), None, no_date);
    let resolver = StyleResolver::new(None);
    assert_eq!(board.draw_at(&resolver, &at(1, 1, 1)), Err(RenderError::UnformattableTime));
    assert_eq!(RenderError::UnformattableTime.message(), "Time cannot be put into text");

    let mut fine = DisplayBoard::new();
    record_poll(&mut fine, Ok(feed()), &aliases(), None, at(1, 1, 1));
    let no_hour = WallClock { year: 2023, month: 2, day: 3, hour: 24, minute: 0, second: 0 };
    assert_eq!(fine.draw_at(&resolver, &no_hour), Err(RenderError::UnformattableTime));
    assert!(DisplayBoard::new().draw_at(&resolver, &no_hour).is_ok());
}

#[test]
fn header_lines_from_texts() {
    let fresh = header_lines(Some("then"), "now", false);
    assert_eq!(texts(&fresh), vec!["Current Time: now".to_string(), "Last Updated: then".to_string()]);
    let stale = header_lines(Some("then"), "now", true);
    assert_eq!(texts(&stale)[1], "Last Updated: then (stale)");
    assert_eq!(stale[1].tokens.len(), 4);
    let none = header_lines(None, "now", true);
    assert_eq!(texts(&none), vec!["No Information".to_string()]);
}

fn columns(height: i32, glyph_width: i32) -> SignLayout {
    SignLayout { height, glyph_width, two_columns: true }
}

#[test]
fn sign_rows_go_into_two_columns() {
    assert_eq!(row_origin(0, &columns(10, 6)), (0, 21));
    assert_eq!(row_origin(1, &columns(10, 6)), (64, 21));
    assert_eq!(row_origin(2, &columns(10, 6)), (0, 32));
    assert_eq!(row_origin(3, &columns(10, 6)), (64, 32));
    assert_eq!(row_origin(4, &columns(10, 6)), (0, 43));
    assert_eq!(row_origin(5, &columns(6, 6)), (64, 27));
    assert_eq!(row_origin(0, &columns(0, 6)), (0, 1));
    assert_eq!(row_origin(usize::MAX, &columns(i32::MAX, 6)), (64, i32::MAX));
    assert_eq!(row_origin(usize::MAX, &columns(i32::MIN, 6)), (64, i32::MIN));
}

#[test]
fn sign_rows_go_one_below_the_other() {
    let layout = SignLayout { height: 10, glyph_width: 6, two_columns: false };
    assert_eq!(row_origin(0, &layout), (0, 21));
    assert_eq!(row_origin(1, &layout), (0, 32));
    assert_eq!(row_origin(2, &layout), (0, 43));
    assert_eq!(row_origin(usize::MAX, &layout), (0, i32::MAX));
    let red = LedColor::red();
    let row = |text: &str| RGBDisplayLine {
        line: vec![StyledString { string: text.to_string(), color: red }],
    };
    assert_eq!(
        layout_rows(&vec![row("a"), row("b"), row("c")], &layout),
        vec![block(0, 21, red, "a"), block(0, 32, red, "b"), block(0, 43, red, "c")]
    );
}

#[test]
fn sign_sets_pieces_one_behind_the_other() {
    let mut board = DisplayBoard::new();
    record_poll(&mut board, Ok(feed()), &aliases(), None, at(7, 8, 9));
    let resolver = StyleResolver::new(Some("43".to_string()));
    let metrics = columns(10, 6);
    let colours = palette();
    let blocks = board.write_times_at(&resolver, &colours, &metrics, &at(7, 8, 21)).unwrap();
    assert_eq!(
        blocks,
        vec![
            block(0, 10, colours.plain, "Current Time: 07:08:21"),
            block(64, 10, colours.plain, "Last Updated: 07:08:09"),
            block(0, 21, colours.plain, "14"),
            block(12, 21, colours.plain, ": "),
            block(24, 21, colours.parent, "2"),
            block(30, 21, colours.plain, " "),
            block(36, 21, colours.child, "5"),
            block(42, 21, colours.plain, " "),
            block(64, 21, colours.highlight, "43"),
            block(76, 21, colours.plain, ": "),
            block(88, 21, colours.parent, "11"),
            block(100, 21, colours.plain, " "),
        ]
    );
}

#[test]
fn sign_before_first_poll_shows_the_time_only() {
    let board = DisplayBoard::new();
    let metrics = columns(8, 5);
    let colours = palette();
    let blocks =
        board.write_times_at(&StyleResolver::new(None), &colours, &metrics, &at(23, 59, 59)).unwrap();
    assert_eq!(blocks, vec![block(0, 8, colours.plain, "Current Time: 23:59:59")]);
    let now = board.write_times(&StyleResolver::new(None), &colours, &metrics).unwrap();
    assert_eq!(now.len(), 1);
    assert!(now[0].text.starts_with("Current Time: "));
}

#[test]
fn sign_warns_of_stale_rows_by_colour() {
    let mut board = DisplayBoard::new();
    record_poll(&mut board, Ok(feed()), &aliases(), None, at(7, 8, 9));
    record_poll(&mut board, Err(FetchError::Transport(String::new())), &aliases(), None, at(7, 9, 0));
    let colours = palette();
    let blocks = board
        .write_times_at(&StyleResolver::new(None), &colours, &columns(10, 6), &at(7, 9, 30))
        .unwrap();
    assert_eq!(blocks[0], block(0, 10, colours.plain, "Current Time: 07:09:30"));
    assert_eq!(blocks[1], block(64, 10, colours.alert, "Last Updated: 07:08:09"));
    assert_eq!(blocks[2], block(0, 21, colours.plain, "14"));
}

#[test]
fn sign_greets_on_the_second_of_february() {
    let day = WallClock { year: 2025, month: 2, day: 2, hour: 12, minute: 0, second: 0 };
    assert_eq!(sign_clock_text(&day), Some("YOUR BIRTHDAY!".to_string()));
    let other = WallClock { year: 2025, month: 2, day: 3, hour: 12, minute: 0, second: 0 };
    assert_eq!(sign_clock_text(&other), Some("12:00:00".to_string()));
    let third = WallClock { year: 2025, month: 3, day: 2, hour: 1, minute: 2, second: 3 };
    assert_eq!(sign_clock_text(&third), Some("01:02:03".to_string()));
    let broken = WallClock { year: 2025, month: 3, day: 2, hour: 1, minute: 60, second: 3 };
    assert_eq!(sign_clock_text(&broken), None);

    let board = DisplayBoard::new();
    let metrics = columns(8, 5);
    let blocks = board.write_times_at(&StyleResolver::new(None), &palette(), &metrics, &day).unwrap();
    assert_eq!(blocks[0].text, "Current Time: YOUR BIRTHDAY!");
    assert_eq!(
        board.write_times_at(&StyleResolver::new(None), &palette(), &metrics, &broken),
        Err(RenderError::UnformattableTime)
    );
}

#[test]
fn sign_layout_of_given_rows() {
    let red = LedColor::red();
    let row = |texts: &[&str]| RGBDisplayLine {
        line: texts.iter().map(|t| StyledString { string: t.to_string(), color: red }).collect(),
    };
    let rows = vec![row(&["ab", "", "é"]), row(&[]), row(&["x"])];
    let metrics = columns(7, 4);
    assert_eq!(
        layout_rows(&rows, &metrics),
        vec![
            block(0, 15, red, "ab"),
            block(8, 15, red, ""),
            block(8, 15, red, "é"),
            block(0, 23, red, "x"),
        ]
    );
    let far = columns(7, i32::MAX);
    assert_eq!(
        layout_rows(&vec![row(&["ab", "c", "d"])], &far),
        vec![block(0, 15, red, "ab"), block(i32::MAX, 15, red, "c"), block(i32::MAX, 15, red, "d")]
    );
    assert!(layout_rows(&Vec::new(), &metrics).is_empty());
}

#[test]
fn sign_rows_carry_palette_colours() {
    let mut board = DisplayBoard::new();
    record_poll(&mut board, Ok(feed()), &aliases(), None, at(7, 8, 9));
    let colours = palette();
    let rows = board.get_bus_styled_lines(&StyleResolver::new(Some("43".to_string())), &colours);
    assert_eq!(rows.len(), 2);
    let first: Vec<(String, LedColor)> =
        rows[0].line.iter().map(|s| (s.string.clone(), s.color)).collect();
    assert_eq!(
        first,
        vec![
            ("14".to_string(), colours.plain),
            (": ".to_string(), colours.plain),
            ("2".to_string(), colours.parent),
            (" ".to_string(), colours.plain),
            ("5".to_string(), colours.child),
            (" ".to_string(), colours.plain),
        ]
    );
    assert_eq!(rows[1].line[0].color, colours.highlight);
    assert!(DisplayBoard::new()
        .get_bus_styled_lines(&StyleResolver::new(None), &colours)
        .is_empty());
}
