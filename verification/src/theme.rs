//! Themes: named sets of colours and styles, the built-in ones, and the
//! manager that holds them.

use crate::entry::optional_text;
use crate::text::{lower_case, str_equal, to_lower};
use vstd::prelude::*;
use vstd::string::StringExecFns;

verus! {

/// The colours of a theme, each by its name.
#[derive(Debug)]
pub struct ThemeColors {
    /// The prompt of the shell.
    pub prompt: String,
    /// Error messages.
    pub error: String,
    /// Warnings.
    pub warning: String,
    /// Reports of success.
    pub success: String,
    /// Other messages.
    pub info: String,
    /// The header of a table.
    pub header: String,
    /// The border of the header.
    pub header_border: String,
    /// The background of odd rows, if any.
    pub row_odd: Option<String>,
    /// The background of even rows, if any.
    pub row_even: Option<String>,
    /// The border of a table.
    pub border: String,
    /// Directories.
    pub directory: String,
    /// Files.
    pub file: String,
    /// Symbolic links.
    pub symlink: String,
    /// Hidden entries.
    pub hidden: String,
    /// Executable files.
    pub executable: String,
}

/// The view of [`ThemeColors`].
pub struct ThemeColorsView {
    pub prompt: Seq<char>,
    pub error: Seq<char>,
    pub warning: Seq<char>,
    pub success: Seq<char>,
    pub info: Seq<char>,
    pub header: Seq<char>,
    pub header_border: Seq<char>,
    pub row_odd: Option<Seq<char>>,
    pub row_even: Option<Seq<char>>,
    pub border: Seq<char>,
    pub directory: Seq<char>,
    pub file: Seq<char>,
    pub symlink: Seq<char>,
    pub hidden: Seq<char>,
    pub executable: Seq<char>,
}

impl View for ThemeColors {
    type V = ThemeColorsView;

    open spec fn view(&self) -> ThemeColorsView {
        ThemeColorsView {
            prompt: self.prompt@,
            error: self.error@,
            warning: self.warning@,
            success: self.success@,
            info: self.info@,
            header: self.header@,
            header_border: self.header_border@,
            row_odd: optional_text(self.row_odd),
            row_even: optional_text(self.row_even),
            border: self.border@,
            directory: self.directory@,
            file: self.file@,
            symlink: self.symlink@,
            hidden: self.hidden@,
            executable: self.executable@,
        }
    }
}

/// A copy of an optional string.
fn clone_optional(s: &Option<String>) -> (r: Option<String>)
    ensures
        r == *s,
{
    match s {
        Some(text) => Some(text.clone()),
        None => None,
    }
}

impl Clone for ThemeColors {
    fn clone(&self) -> (r: Self)
        ensures
            r == *self,
    {
        ThemeColors {
            prompt: self.prompt.clone(),
            error: self.error.clone(),
            warning: self.warning.clone(),
            success: self.success.clone(),
            info: self.info.clone(),
            header: self.header.clone(),
            header_border: self.header_border.clone(),
            row_odd: clone_optional(&self.row_odd),
            row_even: clone_optional(&self.row_even),
            border: self.border.clone(),
            directory: self.directory.clone(),
            file: self.file.clone(),
            symlink: self.symlink.clone(),
            hidden: self.hidden.clone(),
            executable: self.executable.clone(),
        }
    }
}

/// The styles of a theme.
#[derive(Debug)]
pub struct ThemeStyles {
    pub bold_headers: bool,
    pub italicize_paths: bool,
    /// The name of the border style, such as `thick`, `thin` or `rounded`.
    pub border_style: String,
    pub use_unicode_symbols: bool,
}

/// The view of [`ThemeStyles`].
pub struct ThemeStylesView {
    pub bold_headers: bool,
    pub italicize_paths: bool,
    pub border_style: Seq<char>,
    pub use_unicode_symbols: bool,
}

impl View for ThemeStyles {
    type V = ThemeStylesView;

    open spec fn view(&self) -> ThemeStylesView {
        ThemeStylesView {
            bold_headers: self.bold_headers,
            italicize_paths: self.italicize_paths,
            border_style: self.border_style@,
            use_unicode_symbols: self.use_unicode_symbols,
        }
    }
}

impl Clone for ThemeStyles {
    fn clone(&self) -> (r: Self)
        ensures
            r == *self,
    {
        ThemeStyles {
            bold_headers: self.bold_headers,
            italicize_paths: self.italicize_paths,
            border_style: self.border_style.clone(),
            use_unicode_symbols: self.use_unicode_symbols,
        }
    }
}

/// A theme: a name, a description, colours and styles.
#[derive(Debug)]
pub struct Theme {
    pub name: String,
    pub description: String,
    pub colors: ThemeColors,
    pub styles: ThemeStyles,
}

/// The view of a [`Theme`].
pub struct ThemeView {
    pub name: Seq<char>,
    pub description: Seq<char>,
    pub colors: ThemeColorsView,
    pub styles: ThemeStylesView,
}

impl View for Theme {
    type V = ThemeView;

    open spec fn view(&self) -> ThemeView {
        ThemeView {
            name: self.name@,
            description: self.description@,
            colors: self.colors@,
            styles: self.styles@,
        }
    }
}

impl Clone for Theme {
    fn clone(&self) -> (r: Self)
        ensures
            r == *self,
    {
        Theme {
            name: self.name.clone(),
            description: self.description.clone(),
            colors: self.colors.clone(),
            styles: self.styles.clone(),
        }
    }
}

/// The colours of the theme `default`.
pub open spec fn default_colors() -> ThemeColorsView {
    ThemeColorsView {
        prompt: "green"@,
        error: "red"@,
        warning: "yellow"@,
        success: "green"@,
        info: "blue"@,
        header: "blue"@,
        header_border: "blue"@,
        row_odd: None,
        row_even: None,
        border: "white"@,
        directory: "cyan"@,
        file: "white"@,
        symlink: "magenta"@,
        hidden: "bright black"@,
        executable: "green"@,
    }
}

/// The styles of the theme `default`.
pub open spec fn default_styles() -> ThemeStylesView {
    ThemeStylesView {
        bold_headers: true,
        italicize_paths: false,
        border_style: "rounded"@,
        use_unicode_symbols: true,
    }
}

/// The theme `default`.
pub open spec fn default_view() -> ThemeView {
    ThemeView {
        name: "default"@,
        description: "Default LSQL theme with a clean, modern look"@,
        colors: default_colors(),
        styles: default_styles(),
    }
}

/// The colours of the theme `dark`.
pub open spec fn dark_colors() -> ThemeColorsView {
    ThemeColorsView {
        prompt: "bright green"@,
        error: "bright red"@,
        warning: "bright yellow"@,
        success: "bright green"@,
        info: "bright blue"@,
        header: "bright blue"@,
        header_border: "bright blue"@,
        row_odd: Some("bright black"@),
        row_even: None,
        border: "white"@,
        directory: "bright cyan"@,
        file: "white"@,
        symlink: "bright magenta"@,
        hidden: "bright black"@,
        executable: "bright green"@,
    }
}

/// The styles of the theme `dark`.
pub open spec fn dark_styles() -> ThemeStylesView {
    ThemeStylesView {
        bold_headers: true,
        italicize_paths: true,
        border_style: "rounded"@,
        use_unicode_symbols: true,
    }
}

/// The theme `dark`.
pub open spec fn dark_view() -> ThemeView {
    ThemeView {
        name: "dark"@,
        description: "Dark theme optimized for dark backgrounds"@,
        colors: dark_colors(),
        styles: dark_styles(),
    }
}

/// The colours of the theme `light`.
pub open spec fn light_colors() -> ThemeColorsView {
    ThemeColorsView {
        prompt: "green"@,
        error: "red"@,
        warning: "yellow"@,
        success: "green"@,
        info: "blue"@,
        header: "blue"@,
        header_border: "blue"@,
        row_odd: Some("bright white"@),
        row_even: None,
        border: "black"@,
        directory: "blue"@,
        file: "black"@,
        symlink: "magenta"@,
        hidden: "gray"@,
        executable: "green"@,
    }
}

/// The styles of the theme `light`.
pub open spec fn light_styles() -> ThemeStylesView {
    ThemeStylesView {
        bold_headers: true,
        italicize_paths: false,
        border_style: "rounded"@,
        use_unicode_symbols: true,
    }
}

/// The theme `light`.
pub open spec fn light_view() -> ThemeView {
    ThemeView {
        name: "light"@,
        description: "Light theme optimized for light backgrounds"@,
        colors: light_colors(),
        styles: light_styles(),
    }
}

/// The colours of the theme `vibrant`.
pub open spec fn vibrant_colors() -> ThemeColorsView {
    ThemeColorsView {
        prompt: "bright green"@,
        error: "bright red"@,
        warning: "bright yellow"@,
        success: "bright green"@,
        info: "bright blue"@,
        header: "bright magenta"@,
        header_border: "bright cyan"@,
        row_odd: Some("black"@),
        row_even: Some("bright black"@),
        border: "bright yellow"@,
        directory: "bright cyan"@,
        file: "bright white"@,
        symlink: "bright magenta"@,
        hidden: "gray"@,
        executable: "bright green"@,
    }
}

/// The styles of the theme `vibrant`.
pub open spec fn vibrant_styles() -> ThemeStylesView {
    ThemeStylesView {
        bold_headers: true,
        italicize_paths: true,
        border_style: "thick"@,
        use_unicode_symbols: true,
    }
}

/// The theme `vibrant`.
pub open spec fn vibrant_view() -> ThemeView {
    ThemeView {
        name: "vibrant"@,
        description: "Vibrant theme with high contrast and bright colors"@,
        colors: vibrant_colors(),
        styles: vibrant_styles(),
    }
}

/// The colours of the theme `minimal`.
pub open spec fn minimal_colors() -> ThemeColorsView {
    ThemeColorsView {
        prompt: "white"@,
        error: "red"@,
        warning: "yellow"@,
        success: "green"@,
        info: "blue"@,
        header: "white"@,
        header_border: "white"@,
        row_odd: None,
        row_even: None,
        border: "white"@,
        directory: "white"@,
        file: "white"@,
        symlink: "white"@,
        hidden: "white"@,
        executable: "white"@,
    }
}

/// The styles of the theme `minimal`.
pub open spec fn minimal_styles() -> ThemeStylesView {
    ThemeStylesView {
        bold_headers: true,
        italicize_paths: false,
        border_style: "ascii"@,
        use_unicode_symbols: false,
    }
}

/// The theme `minimal`.
pub open spec fn minimal_view() -> ThemeView {
    ThemeView {
        name: "minimal"@,
        description: "Minimal theme with limited colors and simple design"@,
        colors: minimal_colors(),
        styles: minimal_styles(),
    }
}

impl Default for ThemeColors {
    fn default() -> (r: Self)
        ensures
            r@ == default_colors(),
    {
        ThemeColors {
            prompt: String::from_str("green"),
            error: String::from_str("red"),
            warning: String::from_str("yellow"),
            success: String::from_str("green"),
            info: String::from_str("blue"),
            header: String::from_str("blue"),
            header_border: String::from_str("blue"),
            row_odd: None,
            row_even: None,
            border: String::from_str("white"),
            directory: String::from_str("cyan"),
            file: String::from_str("white"),
            symlink: String::from_str("magenta"),
            hidden: String::from_str("bright black"),
            executable: String::from_str("green"),
        }
    }
}

impl Default for ThemeStyles {
    fn default() -> (r: Self)
        ensures
            r@ == default_styles(),
    {
        ThemeStyles {
            bold_headers: true,
            italicize_paths: false,
            border_style: String::from_str("rounded"),
            use_unicode_symbols: true,
        }
    }
}

impl Default for Theme {
    fn default() -> (r: Self)
        ensures
            r@ == default_view(),
    {
        Theme {
            name: String::from_str("default"),
            description: String::from_str("Default LSQL theme with a clean, modern look"),
            colors: ThemeColors::default(),
            styles: ThemeStyles::default(),
        }
    }
}

/// The built-in theme `dark`.
pub fn dark_theme() -> (r: Theme)
    ensures
        r@ == dark_view(),
{
    Theme {
        name: String::from_str("dark"),
        description: String::from_str("Dark theme optimized for dark backgrounds"),
        colors: ThemeColors {
            prompt: String::from_str("bright green"),
            error: String::from_str("bright red"),
            warning: String::from_str("bright yellow"),
            success: String::from_str("bright green"),
            info: String::from_str("bright blue"),
            header: String::from_str("bright blue"),
            header_border: String::from_str("bright blue"),
            row_odd: Some(String::from_str("bright black")),
            row_even: None,
            border: String::from_str("white"),
            directory: String::from_str("bright cyan"),
            file: String::from_str("white"),
            symlink: String::from_str("bright magenta"),
            hidden: String::from_str("bright black"),
            executable: String::from_str("bright green"),
        },
        styles: ThemeStyles {
            bold_headers: true,
            italicize_paths: true,
            border_style: String::from_str("rounded"),
            use_unicode_symbols: true,
        },
    }
}

/// The built-in theme `light`.
pub fn light_theme() -> (r: Theme)
    ensures
        r@ == light_view(),
{
    Theme {
        name: String::from_str("light"),
        description: String::from_str("Light theme optimized for light backgrounds"),
        colors: ThemeColors {
            prompt: String::from_str("green"),
            error: String::from_str("red"),
            warning: String::from_str("yellow"),
            success: String::from_str("green"),
            info: String::from_str("blue"),
            header: String::from_str("blue"),
            header_border: String::from_str("blue"),
            row_odd: Some(String::from_str("bright white")),
            row_even: None,
            border: String::from_str("black"),
            directory: String::from_str("blue"),
            file: String::from_str("black"),
            symlink: String::from_str("magenta"),
            hidden: String::from_str("gray"),
            executable: String::from_str("green"),
        },
        styles: ThemeStyles {
            bold_headers: true,
            italicize_paths: false,
            border_style: String::from_str("rounded"),
            use_unicode_symbols: true,
        },
    }
}

/// The built-in theme `vibrant`.
pub fn vibrant_theme() -> (r: Theme)
    ensures
        r@ == vibrant_view(),
{
    Theme {
        name: String::from_str("vibrant"),
        description: String::from_str("Vibrant theme with high contrast and bright colors"),
        colors: ThemeColors {
            prompt: String::from_str("bright green"),
            error: String::from_str("bright red"),
            warning: String::from_str("bright yellow"),
            success: String::from_str("bright green"),
            info: String::from_str("bright blue"),
            header: String::from_str("bright magenta"),
            header_border: String::from_str("bright cyan"),
            row_odd: Some(String::from_str("black")),
            row_even: Some(String::from_str("bright black")),
            border: String::from_str("bright yellow"),
            directory: String::from_str("bright cyan"),
            file: String::from_str("bright white"),
            symlink: String::from_str("bright magenta"),
            hidden: String::from_str("gray"),
            executable: String::from_str("bright green"),
        },
        styles: ThemeStyles {
            bold_headers: true,
            italicize_paths: true,
            border_style: String::from_str("thick"),
            use_unicode_symbols: true,
        },
    }
}

/// The built-in theme `minimal`.
pub fn minimal_theme() -> (r: Theme)
    ensures
        r@ == minimal_view(),
{
    Theme {
        name: String::from_str("minimal"),
        description: String::from_str("Minimal theme with limited colors and simple design"),
        colors: ThemeColors {
            prompt: String::from_str("white"),
            error: String::from_str("red"),
            warning: String::from_str("yellow"),
            success: String::from_str("green"),
            info: String::from_str("blue"),
            header: String::from_str("white"),
            header_border: String::from_str("white"),
            row_odd: None,
            row_even: None,
            border: String::from_str("white"),
            directory: String::from_str("white"),
            file: String::from_str("white"),
            symlink: String::from_str("white"),
            hidden: String::from_str("white"),
            executable: String::from_str("white"),
        },
        styles: ThemeStyles {
            bold_headers: true,
            italicize_paths: false,
            border_style: String::from_str("ascii"),
            use_unicode_symbols: false,
        },
    }
}

/// The colours a theme can name.
#[derive(Debug, Clone, Copy, PartialEq, Eq, Structural)]
pub enum ThemeColor {
    Black,
    Red,
    Green,
    Yellow,
    Blue,
    Magenta,
    Cyan,
    White,
    BrightBlack,
    BrightRed,
    BrightGreen,
    BrightYellow,
    BrightBlue,
    BrightMagenta,
    BrightCyan,
    BrightWhite,
}

/// The colour called `name` once the name is brought to lower case; `gray`
/// and `grey` are bright black.
pub open spec fn color_of(name: Seq<char>) -> Option<ThemeColor> {
    let lower = lower_case(name);
    if lower == "black"@ {
        Some(ThemeColor::Black)
    } else if lower == "red"@ {
        Some(ThemeColor::Red)
    } else if lower == "green"@ {
        Some(ThemeColor::Green)
    } else if lower == "yellow"@ {
        Some(ThemeColor::Yellow)
    } else if lower == "blue"@ {
        Some(ThemeColor::Blue)
    } else if lower == "magenta"@ {
        Some(ThemeColor::Magenta)
    } else if lower == "cyan"@ {
        Some(ThemeColor::Cyan)
    } else if lower == "white"@ {
        Some(ThemeColor::White)
    } else if lower == "bright black"@ || lower == "gray"@
        || lower == "grey"@ {
        Some(ThemeColor::BrightBlack)
    } else if lower == "bright red"@ {
        Some(ThemeColor::BrightRed)
    } else if lower == "bright green"@ {
        Some(ThemeColor::BrightGreen)
    } else if lower == "bright yellow"@ {
        Some(ThemeColor::BrightYellow)
    } else if lower == "bright blue"@ {
        Some(ThemeColor::BrightBlue)
    } else if lower == "bright magenta"@ {
        Some(ThemeColor::BrightMagenta)
    } else if lower == "bright cyan"@ {
        Some(ThemeColor::BrightCyan)
    } else if lower == "bright white"@ {
        Some(ThemeColor::BrightWhite)
    } else {
        None
    }
}

/// The name under which a colour is known to terminals.
pub open spec fn color_name(color: ThemeColor) -> Seq<char> {
    match color {
        ThemeColor::Black => "black"@,
        ThemeColor::Red => "red"@,
        ThemeColor::Green => "green"@,
        ThemeColor::Yellow => "yellow"@,
        ThemeColor::Blue => "blue"@,
        ThemeColor::Magenta => "magenta"@,
        ThemeColor::Cyan => "cyan"@,
        ThemeColor::White => "white"@,
        ThemeColor::BrightBlack => "bright black"@,
        ThemeColor::BrightRed => "bright red"@,
        ThemeColor::BrightGreen => "bright green"@,
        ThemeColor::BrightYellow => "bright yellow"@,
        ThemeColor::BrightBlue => "bright blue"@,
        ThemeColor::BrightMagenta => "bright magenta"@,
        ThemeColor::BrightCyan => "bright cyan"@,
        ThemeColor::BrightWhite => "bright white"@,
    }
}

/// The colours a table cell can have.
#[derive(Debug, Clone, Copy, PartialEq, Eq, Structural)]
pub enum TableColor {
    Black,
    Red,
    Green,
    Yellow,
    Blue,
    Magenta,
    Cyan,
    White,
    DarkGrey,
    Grey,
}

/// The table colour that stands for a colour: tables know no bright
/// colours but dark grey for bright black and grey for bright white.
pub open spec fn table_color_of(color: ThemeColor) -> TableColor {
    match color {
        ThemeColor::Black => TableColor::Black,
        ThemeColor::Red => TableColor::Red,
        ThemeColor::Green => TableColor::Green,
        ThemeColor::Yellow => TableColor::Yellow,
        ThemeColor::Blue => TableColor::Blue,
        ThemeColor::Magenta => TableColor::Magenta,
        ThemeColor::Cyan => TableColor::Cyan,
        ThemeColor::White => TableColor::White,
        ThemeColor::BrightBlack => TableColor::DarkGrey,
        ThemeColor::BrightRed => TableColor::Red,
        ThemeColor::BrightGreen => TableColor::Green,
        ThemeColor::BrightYellow => TableColor::Yellow,
        ThemeColor::BrightBlue => TableColor::Blue,
        ThemeColor::BrightMagenta => TableColor::Magenta,
        ThemeColor::BrightCyan => TableColor::Cyan,
        ThemeColor::BrightWhite => TableColor::Grey,
    }
}

/// The border style called `name` once the name is brought to lower case;
/// an unknown name means thin borders.
pub open spec fn border_style_of(name: Seq<char>) -> Seq<char> {
    let lower = lower_case(name);
    if lower == "thick"@ {
        "thick"@
    } else if lower == "rounded"@ {
        "rounded"@
    } else if lower == "double"@ {
        "double"@
    } else if lower == "thin"@ {
        "thin"@
    } else if lower == "ascii"@ {
        "ascii"@
    } else if lower == "ascii_rounded"@ {
        "ascii_rounded"@
    } else if lower == "none"@ {
        "none"@
    } else {
        "thin"@
    }
}

/// The colour called `name`.
pub fn color_named(name: &str) -> (r: Option<ThemeColor>)
    ensures
        r == color_of(name@),
{
    let lowered = to_lower(name);
    let lower = lowered.as_str();
    if str_equal(lower, "black") {
        Some(ThemeColor::Black)
    } else if str_equal(lower, "red") {
        Some(ThemeColor::Red)
    } else if str_equal(lower, "green") {
        Some(ThemeColor::Green)
    } else if str_equal(lower, "yellow") {
        Some(ThemeColor::Yellow)
    } else if str_equal(lower, "blue") {
        Some(ThemeColor::Blue)
    } else if str_equal(lower, "magenta") {
        Some(ThemeColor::Magenta)
    } else if str_equal(lower, "cyan") {
        Some(ThemeColor::Cyan)
    } else if str_equal(lower, "white") {
        Some(ThemeColor::White)
    } else if str_equal(lower, "bright black") || str_equal(lower, "gray") || str_equal(lower, "grey") {
        Some(ThemeColor::BrightBlack)
    } else if str_equal(lower, "bright red") {
        Some(ThemeColor::BrightRed)
    } else if str_equal(lower, "bright green") {
        Some(ThemeColor::BrightGreen)
    } else if str_equal(lower, "bright yellow") {
        Some(ThemeColor::BrightYellow)
    } else if str_equal(lower, "bright blue") {
        Some(ThemeColor::BrightBlue)
    } else if str_equal(lower, "bright magenta") {
        Some(ThemeColor::BrightMagenta)
    } else if str_equal(lower, "bright cyan") {
        Some(ThemeColor::BrightCyan)
    } else if str_equal(lower, "bright white") {
        Some(ThemeColor::BrightWhite)
    } else {
        None
    }
}

impl ThemeColor {
    /// The name under which the colour is known to terminals.
    pub fn name(&self) -> (r: &'static str)
        ensures
            r@ == color_name(*self),
    {
        match self {
            ThemeColor::Black => "black",
            ThemeColor::Red => "red",
            ThemeColor::Green => "green",
            ThemeColor::Yellow => "yellow",
            ThemeColor::Blue => "blue",
            ThemeColor::Magenta => "magenta",
            ThemeColor::Cyan => "cyan",
            ThemeColor::White => "white",
            ThemeColor::BrightBlack => "bright black",
            ThemeColor::BrightRed => "bright red",
            ThemeColor::BrightGreen => "bright green",
            ThemeColor::BrightYellow => "bright yellow",
            ThemeColor::BrightBlue => "bright blue",
            ThemeColor::BrightMagenta => "bright magenta",
            ThemeColor::BrightCyan => "bright cyan",
            ThemeColor::BrightWhite => "bright white",
        }
    }

    /// The table colour that stands for the colour.
    pub fn table_color(&self) -> (r: TableColor)
        ensures
            r == table_color_of(*self),
    {
        match self {
            ThemeColor::Black => TableColor::Black,
            ThemeColor::Red => TableColor::Red,
            ThemeColor::Green => TableColor::Green,
            ThemeColor::Yellow => TableColor::Yellow,
            ThemeColor::Blue => TableColor::Blue,
            ThemeColor::Magenta => TableColor::Magenta,
            ThemeColor::Cyan => TableColor::Cyan,
            ThemeColor::White => TableColor::White,
            ThemeColor::BrightBlack => TableColor::DarkGrey,
            ThemeColor::BrightRed => TableColor::Red,
            ThemeColor::BrightGreen => TableColor::Green,
            ThemeColor::BrightYellow => TableColor::Yellow,
            ThemeColor::BrightBlue => TableColor::Blue,
            ThemeColor::BrightMagenta => TableColor::Magenta,
            ThemeColor::BrightCyan => TableColor::Cyan,
            ThemeColor::BrightWhite => TableColor::Grey,
        }
    }
}

/// The table colour called `color_name`, if the name is that of a colour.
pub fn string_to_table_color(color_name: &str) -> (r: Option<TableColor>)
    ensures
        r == (match color_of(color_name@) {
            Some(color) => Some(table_color_of(color)),
            None => None,
        }),
{
    match color_named(color_name) {
        Some(color) => Some(color.table_color()),
        None => None,
    }
}

/// The border style called `style_name`; an unknown name means thin
/// borders.
pub fn get_border_style(style_name: &str) -> (r: &'static str)
    ensures
        r@ == border_style_of(style_name@),
{
    let lowered = to_lower(style_name);
    let lower = lowered.as_str();
    if str_equal(lower, "thick") {
        "thick"
    } else if str_equal(lower, "rounded") {
        "rounded"
    } else if str_equal(lower, "double") {
        "double"
    } else if str_equal(lower, "thin") {
        "thin"
    } else if str_equal(lower, "ascii") {
        "ascii"
    } else if str_equal(lower, "ascii_rounded") {
        "ascii_rounded"
    } else if str_equal(lower, "none") {
        "none"
    } else {
        "thin"
    }
}

/// The name of the colour for a message of the kind `color_name`: the
/// theme's colour for `error`, `warning`, `success` and `info`, and
/// `color_name` itself for anything else.
pub open spec fn message_color_of(color_name: Seq<char>, theme: ThemeView) -> Seq<char> {
    if color_name == "error"@ {
        theme.colors.error
    } else if color_name == "warning"@ {
        theme.colors.warning
    } else if color_name == "success"@ {
        theme.colors.success
    } else if color_name == "info"@ {
        theme.colors.info
    } else {
        color_name
    }
}

/// The name of the colour for a message of the kind `color_name`.
pub fn message_color<'a>(color_name: &'a str, theme: &'a Theme) -> (r: &'a str)
    ensures
        r@ == message_color_of(color_name@, theme@),
{
    if str_equal(color_name, "error") {
        theme.colors.error.as_str()
    } else if str_equal(color_name, "warning") {
        theme.colors.warning.as_str()
    } else if str_equal(color_name, "success") {
        theme.colors.success.as_str()
    } else if str_equal(color_name, "info") {
        theme.colors.info.as_str()
    } else {
        color_name
    }
}

/// Whether a text is the name of one of the colours, as terminals know it.
pub open spec fn is_color_name(name: Seq<char>) -> bool {
    exists|color: ThemeColor| #[trigger] color_name(color) == name
}

/// `colored::Colorize::color` on `text` with the colour called `color`,
/// then the text of the result as its `Display` gives it. Only the sixteen
/// names of the colours are admitted: a name that starts with `#` is cut
/// up by bytes there. Whether escape codes are added depends on the
/// terminal and the environment, so nothing is claimed of the result.
#[verifier::external_body]
fn paint(text: &str, color: &str) -> (r: String)
    requires
        is_color_name(color@),
{
    colored::Colorize::color(text, color).to_string()
}

/// `text` in the colour called `color_name`. Without colours, or with a
/// name that is no colour's, the text comes back as it is.
pub fn apply_color(text: &str, color_name: &str, use_color: bool) -> (r: String)
    ensures
        !use_color || color_of(color_name@) is None ==> r@ == text@,
{
    if !use_color {
        return String::from_str(text);
    }
    match color_named(color_name) {
        Some(color) => {
            let name = color.name();
            assert(self::color_name(color) == name@);
            paint(text, name)
        },
        None => String::from_str(text),
    }
}

/// `message` in the colour that `theme` gives to messages of the kind
/// `color_name`. Without colours, or if that is no colour, the message
/// comes back as it is.
pub fn format_message(message: &str, color_name: &str, theme: &Theme, use_color: bool) -> (r:
    String)
    ensures
        !use_color || color_of(message_color_of(color_name@, theme@)) is None ==> r@ == message@,
{
    if !use_color {
        return String::from_str(message);
    }
    apply_color(message, message_color(color_name, theme), use_color)
}

/// The themes that can be chosen, and the one that is.
#[derive(Debug)]
pub struct ThemeManager {
    current_theme: Theme,
    available_themes: Vec<Theme>,
}

/// The views of a sequence of themes.
pub open spec fn themes_of(themes: Seq<Theme>) -> Seq<ThemeView> {
    themes.map_values(|t: Theme| t@)
}

/// The view of a [`ThemeManager`].
pub struct ManagerView {
    pub current: ThemeView,
    pub available: Seq<ThemeView>,
}

impl View for ThemeManager {
    type V = ManagerView;

    closed spec fn view(&self) -> ManagerView {
        ManagerView { current: self.current_theme@, available: themes_of(self.available_themes@) }
    }
}

/// The position of the first theme called `name` at or after `from`.
pub open spec fn position_from(themes: Seq<ThemeView>, name: Seq<char>, from: int) -> Option<int>
    decreases themes.len() - from,
{
    if !(0 <= from < themes.len()) {
        None
    } else if themes[from].name == name {
        Some(from)
    } else {
        position_from(themes, name, from + 1)
    }
}

/// The position of the theme called `name`.
pub open spec fn position_of(themes: Seq<ThemeView>, name: Seq<char>) -> Option<int> {
    position_from(themes, name, 0)
}

/// No two themes have the same name.
pub open spec fn names_differ(themes: Seq<ThemeView>) -> bool {
    forall|i: int, j: int|
        0 <= i < j < themes.len() ==> (#[trigger] themes[i]).name != (#[trigger] themes[j]).name
}

/// The names of the themes, in order.
pub open spec fn names_of(themes: Seq<ThemeView>) -> Seq<Seq<char>> {
    themes.map_values(|t: ThemeView| t.name)
}

/// The themes with `theme` in the place of the one that has its name, or
/// at the end if none has.
pub open spec fn with_theme(themes: Seq<ThemeView>, theme: ThemeView) -> Seq<ThemeView> {
    match position_of(themes, theme.name) {
        Some(i) => themes.update(i, theme),
        None => themes.push(theme),
    }
}

/// What is found at `position_from` is in range and has the name, and
/// nothing before it has.
pub proof fn lemma_position_from(themes: Seq<ThemeView>, name: Seq<char>, from: int)
    requires
        0 <= from,
    ensures
        match position_from(themes, name, from) {
            Some(i) => from <= i < themes.len() && themes[i].name == name && forall|k: int|
                from <= k < i ==> (#[trigger] themes[k]).name != name,
            None => forall|k: int| from <= k < themes.len() ==> (#[trigger] themes[k]).name != name,
        },
    decreases themes.len() - from,
{
    if from < themes.len() && themes[from].name != name {
        lemma_position_from(themes, name, from + 1);
    }
}

/// Putting a theme in keeps the names different.
pub proof fn lemma_with_theme_keeps_names(themes: Seq<ThemeView>, theme: ThemeView)
    requires
        names_differ(themes),
    ensures
        names_differ(with_theme(themes, theme)),
{
    lemma_position_from(themes, theme.name, 0);
    let out = with_theme(themes, theme);
    assert forall|i: int, j: int| 0 <= i < j < out.len() implies (#[trigger] out[i]).name != (
    #[trigger] out[j]).name by {
        match position_of(themes, theme.name) {
            Some(p) => {
                if i != p && j != p {
                    assert(out[i] == themes[i] && out[j] == themes[j]);
                } else if i == p {
                    assert(out[j] == themes[j]);
                } else {
                    assert(out[i] == themes[i]);
                }
            },
            None => {
                if j < themes.len() {
                    assert(out[i] == themes[i] && out[j] == themes[j]);
                } else {
                    assert(out[i] == themes[i]);
                }
            },
        }
    }
}

/// The built-in themes have five different names.
pub proof fn lemma_built_in_names_differ()
    ensures
        names_differ(
            seq![default_view(), dark_view(), light_view(), vibrant_view(), minimal_view()],
        ),
{
    reveal_strlit("default");
    reveal_strlit("dark");
    reveal_strlit("light");
    reveal_strlit("vibrant");
    reveal_strlit("minimal");
    let themes = seq![default_view(), dark_view(), light_view(), vibrant_view(), minimal_view()];
    assert("default"@[0] == 'd' && "default"@[1] == 'e');
    assert("dark"@[0] == 'd' && "dark"@[1] == 'a');
    assert("light"@[0] == 'l');
    assert("vibrant"@[0] == 'v');
    assert("minimal"@[0] == 'm');
    assert forall|i: int, j: int| 0 <= i < j < themes.len() implies (#[trigger] themes[i]).name != (
    #[trigger] themes[j]).name by {
        assert(themes[i].name[0] != themes[j].name[0] || themes[i].name[1] != themes[j].name[1]);
    }
}

impl Clone for ThemeManager {
    fn clone(&self) -> (r: Self)
        ensures
            r@ == self@,
    {
        let mut available_themes: Vec<Theme> = Vec::new();
        let mut i: usize = 0;
        while i < self.available_themes.len()
            invariant
                i <= self.available_themes@.len(),
                available_themes@ == self.available_themes@.take(i as int),
            decreases self.available_themes@.len() - i,
        {
            available_themes.push(self.available_themes[i].clone());
            assert(available_themes@ =~= self.available_themes@.take(i + 1));
            i = i + 1;
        }
        assert(available_themes@ =~= self.available_themes@);
        ThemeManager { current_theme: self.current_theme.clone(), available_themes }
    }
}

impl ThemeManager {
    /// A manager with the built-in themes, the default one chosen.
    pub fn new() -> (r: Self)
        ensures
            r@.current == default_view(),
            r@.available == seq![
                default_view(),
                dark_view(),
                light_view(),
                vibrant_view(),
                minimal_view(),
            ],
            names_differ(r@.available),
    {
        proof {
            lemma_built_in_names_differ();
        }
        let mut available_themes: Vec<Theme> = Vec::new();
        available_themes.push(Theme::default());
        available_themes.push(dark_theme());
        available_themes.push(light_theme());
        available_themes.push(vibrant_theme());
        available_themes.push(minimal_theme());
        assert(themes_of(available_themes@) =~= seq![
            default_view(),
            dark_view(),
            light_view(),
            vibrant_view(),
            minimal_view(),
        ]);
        ThemeManager { current_theme: Theme::default(), available_themes }
    }

    /// Where the theme called `name` stands among the available ones.
    fn find(&self, name: &str) -> (r: Option<usize>)
        ensures
            match r {
                Some(i) => position_of(self@.available, name@) == Some(i as int) && i
                    < self.available_themes@.len(),
                None => position_of(self@.available, name@) is None,
            },
    {
        let ghost themes = themes_of(self.available_themes@);
        let mut i: usize = 0;
        while i < self.available_themes.len()
            invariant
                i <= self.available_themes@.len(),
                themes == themes_of(self.available_themes@),
                position_from(themes, name@, i as int) == position_of(themes, name@),
            decreases self.available_themes@.len() - i,
        {
            assert(themes[i as int] == self.available_themes@[i as int]@);
            if str_equal(self.available_themes[i].name.as_str(), name) {
                return Some(i);
            }
            i = i + 1;
        }
        None
    }

    /// Chooses the theme called `theme_name`. If there is none of that
    /// name, nothing changes and the error says so.
    pub fn set_theme(&mut self, theme_name: &str) -> (r: Result<(), String>)
        ensures
            final(self)@.available == old(self)@.available,
            match position_of(old(self)@.available, theme_name@) {
                Some(i) => r is Ok && final(self)@.current == old(self)@.available[i],
                None => r is Err && final(self)@.current == old(self)@.current && r->Err_0@
                    == "Theme '"@ + theme_name@ + "' not found"@,
            },
    {
        match self.find(theme_name) {
            Some(i) => {
                assert(themes_of(self.available_themes@)[i as int] == self.available_themes@[i as int]@);
                self.current_theme = self.available_themes[i].clone();
                Ok(())
            },
            None => Err(String::from_str("Theme '").concat(theme_name).concat("' not found")),
        }
    }

    /// The names of the available themes, in the order they were added.
    pub fn list_themes(&self) -> (r: Vec<String>)
        ensures
            crate::types::texts_of(r@) == names_of(self@.available),
    {
        let ghost themes = themes_of(self.available_themes@);
        let mut out: Vec<String> = Vec::new();
        let mut i: usize = 0;
        while i < self.available_themes.len()
            invariant
                i <= self.available_themes@.len(),
                themes == themes_of(self.available_themes@),
                out@.len() == i,
                forall|k: int| 0 <= k < i ==> (#[trigger] out@[k])@ == themes[k].name,
            decreases self.available_themes@.len() - i,
        {
            assert(themes[i as int] == self.available_themes@[i as int]@);
            out.push(self.available_themes[i].name.clone());
            i = i + 1;
        }
        assert(crate::types::texts_of(out@) =~= names_of(themes));
        out
    }

    /// The theme that is chosen.
    pub fn current_theme(&self) -> (r: &Theme)
        ensures
            r@ == self@.current,
    {
        &self.current_theme
    }

    /// Makes `theme` available under its name, in the place of any theme
    /// that had that name. A theme without a name is refused.
    pub fn create_theme(&mut self, theme: Theme) -> (r: Result<(), String>)
        ensures
            final(self)@.current == old(self)@.current,
            theme@.name.len() == 0 ==> r is Err && r->Err_0@ == "Theme name cannot be empty"@
                && final(self)@.available == old(self)@.available,
            theme@.name.len() > 0 ==> r is Ok && final(self)@.available == with_theme(
                old(self)@.available,
                theme@,
            ),
            names_differ(old(self)@.available) ==> names_differ(final(self)@.available),
    {
        proof {
            if names_differ(themes_of(self.available_themes@)) {
                lemma_with_theme_keeps_names(themes_of(self.available_themes@), theme@);
            }
        }
        if theme.name.as_str().unicode_len() == 0 {
            return Err(String::from_str("Theme name cannot be empty"));
        }
        let ghost before = themes_of(self.available_themes@);
        match self.find(theme.name.as_str()) {
            Some(i) => {
                self.available_themes.set(i, theme);
                assert(themes_of(self.available_themes@) =~= before.update(i as int, theme@));
            },
            None => {
                self.available_themes.push(theme);
                assert(themes_of(self.available_themes@) =~= before.push(theme@));
            },
        }
        Ok(())
    }
}

} // verus!
