use transit_rust::aliases::AliasTable;
use transit_rust::display_board::{
    colour_line, BoardPhase, DisplayBoard, LedColor, LedPalette, RGBDisplayLine, StyledString,
    COL_WIDTH,
};
use transit_rust::grouping::DisplayLines;
use transit_rust::render::{DisplayLine, Token};
use transit_rust::rgb_matrix::{FontError, MatrixShape, RGBMatrixError};
use transit_rust::stop_monitor::MonitoredVehicleJourney;
use transit_rust::style::{Accent, Emphasis, Style, StyleResolver};
use transit_rust::text::{decimal_text, push_spaces, str_eq, str_lt};

#[test]
fn decimal_text_of_numbers() {
    assert_eq!(decimal_text(0), "0");
    assert_eq!(decimal_text(7), "7");
    assert_eq!(decimal_text(9), "9");
    assert_eq!(decimal_text(10), "10");
    assert_eq!(decimal_text(105), "105");
    assert_eq!(decimal_text(999), "999");
    assert_eq!(decimal_text(1234567890), "1234567890");
    assert_eq!(decimal_text(u64::MAX), "18446744073709551615");
    assert_eq!(decimal_text(u64::MAX), u64::MAX.to_string());
}

#[test]
fn lexical_order_of_strings() {
    assert!(str_lt("", "a"));
    assert!(!str_lt("", ""));
    assert!(!str_lt("a", ""));
    assert!(str_lt("14", "14R"));
    assert!(!str_lt("14R", "14"));
    assert!(str_lt("10", "9"));
    assert!(str_lt("14R", "2"));
    assert!(str_lt("Z", "a"));
    assert!(str_lt("z", "é"));
    assert!(str_lt("é", "中"));
    assert!(!str_lt("same", "same"));
    let words = ["", "1", "10", "14", "14R", "2", "Z", "a", "é", "中", "😀"];
    for a in words {
        for b in words {
            assert_eq!(str_lt(a, b), a < b);
            assert_eq!(str_eq(a, b), a == b);
        }
    }
}

#[test]
fn spaces_are_appended() {
    let mut s = String::from("x");
    push_spaces(&mut s, 0);
    assert_eq!(s, "x");
    push_spaces(&mut s, 3);
    assert_eq!(s, "x   ");
}

#[test]
fn alias_table_lookup() {
    let mut table = AliasTable::new();
    assert!(table.get("14R").is_none());
    table.insert("14R".to_string(), "14".to_string());
    table.insert("38R".to_string(), "38".to_string());
    assert_eq!(table.get("14R"), Some(&"14".to_string()));
    assert_eq!(table.get("38R"), Some(&"38".to_string()));
    assert!(table.get("14").is_none());
    assert!(table.get("").is_none());
    table.insert("14R".to_string(), "1".to_string());
    assert_eq!(table.get("14R"), Some(&"1".to_string()));
}

#[test]
fn alias_table_from_pairs_lets_the_later_pair_count() {
    let table = AliasTable::from_pairs(vec![
        ("5R".to_string(), "5".to_string()),
        ("9R".to_string(), "9".to_string()),
        ("5R".to_string(), "five".to_string()),
    ]);
    assert_eq!(table.get("5R"), Some(&"five".to_string()));
    assert_eq!(table.get("9R"), Some(&"9".to_string()));
    assert!(table.get("5").is_none());
    assert!(AliasTable::from_pairs(Vec::new()).get("5R").is_none());
}

#[test]
fn style_of_a_journey() {
    let resolver = StyleResolver::new(None);
    let child_located = MonitoredVehicleJourney::new("14R".to_string(), Some(1), true);
    let child_unlocated = MonitoredVehicleJourney::new("14R".to_string(), Some(1), false);
    let own_located = MonitoredVehicleJourney::new("14".to_string(), Some(1), true);
    let own_unlocated = MonitoredVehicleJourney::new("14".to_string(), Some(1), false);
    assert_eq!(
        resolver.journey_style("14", &child_located),
        Style { accent: Accent::Child, emphasis: Emphasis::Strong }
    );
    assert_eq!(
        resolver.journey_style("14", &child_unlocated),
        Style { accent: Accent::Child, emphasis: Emphasis::Weak }
    );
    assert_eq!(
        resolver.journey_style("14", &own_located),
        Style { accent: Accent::Parent, emphasis: Emphasis::Strong }
    );
    assert_eq!(
        resolver.journey_style("14", &own_unlocated),
        Style { accent: Accent::Parent, emphasis: Emphasis::Weak }
    );
}

#[test]
fn style_of_a_label() {
    let plain = StyleResolver::new(None);
    let marked = StyleResolver::new(Some("43".to_string()));
    let strong_plain = Style { accent: Accent::Plain, emphasis: Emphasis::Strong };
    let strong_marked = Style { accent: Accent::Highlight, emphasis: Emphasis::Strong };
    assert_eq!(plain.label_style("43"), strong_plain);
    assert_eq!(marked.label_style("43"), strong_marked);
    assert_eq!(marked.label_style("4"), strong_plain);
    assert_eq!(marked.label_style("433"), strong_plain);
    assert_eq!(marked.label_style(""), strong_plain);
}

#[test]
fn journey_accessors() {
    let j = MonitoredVehicleJourney::new("14R".to_string(), Some(3), true);
    assert_eq!(j.line_ref, "14R");
    assert_eq!(j.time_to_arrival(), Some(3));
    assert!(j.has_location());
    let copy = j.clone();
    assert_eq!(copy, j);
    let k = MonitoredVehicleJourney::new(String::new(), None, false);
    assert_eq!(k.time_to_arrival(), None);
    assert!(!k.has_location());
}

#[test]
fn led_colours() {
    assert_eq!(LedColor::new(), LedColor { red: 0, green: 0, blue: 0 });
    assert_eq!(LedColor::red(), LedColor { red: 255, green: 0, blue: 0 });
    assert_eq!(LedColor::green(), LedColor { red: 0, green: 255, blue: 0 });
    assert_eq!(LedColor::blue(), LedColor { red: 0, green: 0, blue: 0 });
}

#[test]
fn led_colour_channels_for_the_driver() {
    assert_eq!(LedColor::red().to_rgb(), (255, 0, 0));
    assert_eq!(LedColor::green().to_rgb(), (0, 255, 0));
    assert_eq!(LedColor::new().to_rgb(), (0, 0, 0));
    assert_eq!(LedColor { red: 300, green: -5, blue: 128 }.to_rgb(), (255, 0, 128));
    assert_eq!(LedColor { red: 256, green: -1, blue: 255 }.to_rgb(), (255, 0, 255));
    assert_eq!(LedColor { red: i32::MAX, green: i32::MIN, blue: 1 }.to_rgb(), (255, 0, 1));
}

#[test]
fn empty_values() {
    let s = StyledString::new();
    assert_eq!(s.string, "");
    assert_eq!(s.color, LedColor::new());
    assert!(RGBDisplayLine::new().line.is_empty());
    let board = DisplayBoard::new();
    assert!(board.display_lines.is_none());
    assert!(board.last_successful_request_time.is_none());
    assert!(!board.last_request_successful);
    assert_eq!(board.phase(), BoardPhase::Empty);
    assert_eq!(DisplayLines::new().len(), 0);
    assert!(DisplayLines::new().get("14").is_none());
    assert_eq!(COL_WIDTH, 64);
}

#[test]
fn palette_gives_each_role_its_colour() {
    let palette = LedPalette {
        plain: LedColor { red: 1, green: 1, blue: 1 },
        child: LedColor { red: 2, green: 2, blue: 2 },
        parent: LedColor { red: 3, green: 3, blue: 3 },
        highlight: LedColor { red: 4, green: 4, blue: 4 },
        alert: LedColor { red: 5, green: 5, blue: 5 },
    };
    assert_eq!(palette.color_of(Accent::Plain).red, 1);
    assert_eq!(palette.color_of(Accent::Child).red, 2);
    assert_eq!(palette.color_of(Accent::Parent).red, 3);
    assert_eq!(palette.color_of(Accent::Highlight).red, 4);
    assert_eq!(palette.color_of(Accent::Alert).red, 5);

    let line = DisplayLine {
        tokens: vec![
            Token { text: "43".to_string(), style: Style { accent: Accent::Highlight, emphasis: Emphasis::Strong } },
            Token { text: "7".to_string(), style: Style { accent: Accent::Child, emphasis: Emphasis::Weak } },
        ],
    };
    let row = colour_line(&line, &palette);
    assert_eq!(
        row.line,
        vec![
            StyledString { string: "43".to_string(), color: palette.highlight },
            StyledString { string: "7".to_string(), color: palette.child },
        ]
    );
    assert!(colour_line(&DisplayLine { tokens: Vec::new() }, &palette).line.is_empty());
}

#[test]
fn line_text_joins_tokens() {
    let plain = Style { accent: Accent::Plain, emphasis: Emphasis::Regular };
    let line = DisplayLine {
        tokens: vec![
            Token { text: "a".to_string(), style: plain },
            Token { text: "".to_string(), style: plain },
            Token { text: "bc ".to_string(), style: plain },
        ],
    };
    assert_eq!(line.text(), "abc ");
    assert_eq!(DisplayLine { tokens: Vec::new() }.text(), "");
}

#[test]
fn matrix_errors_say_what_failed() {
    assert_eq!(
        RGBMatrixError::HardwareInitError("Failed to initialize GPIO".to_string()).message(),
        "Hardware initialization error: Failed to initialize GPIO"
    );
    assert_eq!(
        RGBMatrixError::ConfigError("Invalid dimensions".to_string()).message(),
        "Configuration error: Invalid dimensions"
    );
    assert_eq!(
        FontError::FontLoadError("Failed to load font".to_string()).message(),
        "Font load Error: Failed to load font"
    );
    assert_eq!(FontError::FontLoadError(String::new()).message(), "Font load Error: ");
}

#[test]
fn matrix_shape_needs_positive_numbers() {
    assert_eq!(MatrixShape::new(32, 2, 1), Ok(MatrixShape { rows: 32, chained: 2, parallel: 1 }));
    assert_eq!(MatrixShape::new(1, 1, 1), Ok(MatrixShape { rows: 1, chained: 1, parallel: 1 }));
    let refused = Err(RGBMatrixError::ConfigError("Invalid dimensions".to_string()));
    assert_eq!(MatrixShape::new(0, 2, 1), refused);
    assert_eq!(MatrixShape::new(32, 0, 1), refused);
    assert_eq!(MatrixShape::new(32, 2, 0), refused);
    assert_eq!(MatrixShape::new(-1, 2, 1), refused);
    assert_eq!(MatrixShape::new(32, 2, i32::MIN), refused);
}
