use lsql::theme::{
    apply_color, color_named, format_message, message_color, string_to_table_color, TableColor,
    ThemeColor,
};
use lsql::{
    dark_theme, get_border_style, light_theme, minimal_theme, vibrant_theme, Theme, ThemeManager,
};

#[test]
fn built_in_themes_have_their_colours() {
    let default = Theme::default();
    assert_eq!(default.name, "default");
    assert_eq!(
        default.description,
        "Default LSQL theme with a clean, modern look"
    );
    assert_eq!(default.colors.prompt, "green");
    assert_eq!(default.colors.hidden, "bright black");
    assert_eq!(default.colors.row_odd, None);
    assert!(default.styles.bold_headers);
    assert!(!default.styles.italicize_paths);
    assert_eq!(default.styles.border_style, "rounded");

    let dark = dark_theme();
    assert_eq!(dark.name, "dark");
    assert_eq!(dark.colors.error, "bright red");
    assert_eq!(dark.colors.row_odd, Some("bright black".to_string()));
    assert_eq!(dark.colors.row_even, None);
    assert!(dark.styles.italicize_paths);

    let light = light_theme();
    assert_eq!(light.name, "light");
    assert_eq!(light.colors.border, "black");
    assert_eq!(light.colors.hidden, "gray");
    assert_eq!(light.colors.row_odd, Some("bright white".to_string()));

    let vibrant = vibrant_theme();
    assert_eq!(vibrant.name, "vibrant");
    assert_eq!(vibrant.colors.header, "bright magenta");
    assert_eq!(vibrant.colors.row_even, Some("bright black".to_string()));
    assert_eq!(vibrant.styles.border_style, "thick");

    let minimal = minimal_theme();
    assert_eq!(minimal.name, "minimal");
    assert_eq!(minimal.colors.executable, "white");
    assert_eq!(minimal.colors.error, "red");
    assert_eq!(minimal.styles.border_style, "ascii");
    assert!(!minimal.styles.use_unicode_symbols);
}

#[test]
fn the_manager_starts_with_the_built_in_themes() {
    let manager = ThemeManager::new();
    assert_eq!(
        manager.list_themes(),
        vec!["default", "dark", "light", "vibrant", "minimal"]
    );
    assert_eq!(manager.current_theme().name, "default");
}

#[test]
fn choosing_a_theme() {
    let mut manager = ThemeManager::new();
    assert_eq!(manager.set_theme("vibrant"), Ok(()));
    assert_eq!(manager.current_theme().name, "vibrant");
    assert_eq!(manager.current_theme().colors.border, "bright yellow");
    assert_eq!(
        manager.set_theme("neon"),
        Err("Theme 'neon' not found".to_string())
    );
    assert_eq!(manager.current_theme().name, "vibrant");
    assert_eq!(
        manager.set_theme("Dark"),
        Err("Theme 'Dark' not found".to_string())
    );
    let copy = manager.clone();
    assert_eq!(copy.current_theme().name, "vibrant");
    assert_eq!(copy.list_themes().len(), 5);
}

#[test]
fn creating_themes() {
    let mut manager = ThemeManager::new();
    let mut mine = dark_theme();
    mine.name = "mine".to_string();
    assert_eq!(manager.create_theme(mine), Ok(()));
    assert_eq!(
        manager.list_themes(),
        vec!["default", "dark", "light", "vibrant", "minimal", "mine"]
    );
    assert_eq!(manager.set_theme("mine"), Ok(()));
    assert_eq!(manager.current_theme().colors.error, "bright red");

    // A theme of a name that is taken stands in for the old one.
    let mut light = minimal_theme();
    light.name = "light".to_string();
    assert_eq!(manager.create_theme(light), Ok(()));
    assert_eq!(manager.list_themes().len(), 6);
    assert_eq!(manager.current_theme().name, "mine");
    assert_eq!(manager.set_theme("light"), Ok(()));
    assert_eq!(manager.current_theme().styles.border_style, "ascii");

    let mut nameless = dark_theme();
    nameless.name = String::new();
    assert_eq!(
        manager.create_theme(nameless),
        Err("Theme name cannot be empty".to_string())
    );
    assert_eq!(manager.list_themes().len(), 6);
}

#[test]
fn border_styles_by_name() {
    assert_eq!(get_border_style("thick"), "thick");
    assert_eq!(get_border_style("Rounded"), "rounded");
    assert_eq!(get_border_style("DOUBLE"), "double");
    assert_eq!(get_border_style("thin"), "thin");
    assert_eq!(get_border_style("ascii"), "ascii");
    assert_eq!(get_border_style("ascii_rounded"), "ascii_rounded");
    assert_eq!(get_border_style("none"), "none");
    assert_eq!(get_border_style("dotted"), "thin");
    // The name is brought to lower case: the Kelvin sign becomes a k.
    assert_eq!(get_border_style("thic\u{212a}"), "thick");
    for style in ["thick", "rounded", "double", "thin", "ascii", "ascii_rounded", "none"] {
        assert_eq!(get_border_style(get_border_style(style)), style);
    }
    assert_eq!(get_border_style(""), "thin");
}

#[test]
fn colours_by_name() {
    assert_eq!(color_named("black"), Some(ThemeColor::Black));
    assert_eq!(color_named("RED"), Some(ThemeColor::Red));
    assert_eq!(color_named("Bright Black"), Some(ThemeColor::BrightBlack));
    assert_eq!(color_named("gray"), Some(ThemeColor::BrightBlack));
    assert_eq!(color_named("grey"), Some(ThemeColor::BrightBlack));
    assert_eq!(color_named("bright white"), Some(ThemeColor::BrightWhite));
    assert_eq!(color_named("brightwhite"), None);
    assert_eq!(color_named("BLAC\u{212a}"), Some(ThemeColor::Black));
    assert_eq!(color_named("purple"), None);
    assert_eq!(color_named(""), None);
    assert_eq!(ThemeColor::BrightCyan.name(), "bright cyan");
    assert_eq!(ThemeColor::White.name(), "white");

    assert_eq!(string_to_table_color("red"), Some(TableColor::Red));
    assert_eq!(string_to_table_color("bright red"), Some(TableColor::Red));
    assert_eq!(string_to_table_color("grey"), Some(TableColor::DarkGrey));
    assert_eq!(
        string_to_table_color("bright black"),
        Some(TableColor::DarkGrey)
    );
    assert_eq!(string_to_table_color("bright white"), Some(TableColor::Grey));
    assert_eq!(string_to_table_color("white"), Some(TableColor::White));
    assert_eq!(string_to_table_color("Cyan"), Some(TableColor::Cyan));
    assert_eq!(string_to_table_color("orange"), None);
}

#[test]
fn messages_take_the_colour_of_their_kind() {
    let theme = dark_theme();
    assert_eq!(message_color("error", &theme), "bright red");
    assert_eq!(message_color("warning", &theme), "bright yellow");
    assert_eq!(message_color("success", &theme), "bright green");
    assert_eq!(message_color("info", &theme), "bright blue");
    assert_eq!(message_color("cyan", &theme), "cyan");
    assert_eq!(message_color("Error", &theme), "Error");
}

#[test]
fn without_colours_the_text_comes_back() {
    let theme = Theme::default();
    assert_eq!(format_message("done", "success", &theme, false), "done");
    assert_eq!(format_message("done", "no such colour", &theme, true), "done");
    assert_eq!(apply_color("done", "red", false), "done");
    assert_eq!(apply_color("done", "reddish", true), "done");
    // With colours the text is still in what comes back.
    assert!(apply_color("done", "red", true).contains("done"));
    assert!(format_message("done", "error", &theme, true).contains("done"));
}
