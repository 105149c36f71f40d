use lsql::display::{
    cell_for, get_cell_text, get_header_titles, get_row_layout, name_color, size_unit, Cell,
};
use lsql::shell::{shell_action, ShellAction};
use lsql::text::strip;
use lsql::{dark_theme, FSEntry, SelectionType, Timestamp};

fn entry(name: &str, is_dir: bool) -> FSEntry {
    FSEntry::new(
        name.to_string(),
        format!("/data/{}", name),
        if is_dir { 0 } else { 2048 },
        is_dir,
        !is_dir,
        Timestamp::new(0, 0),
        Timestamp::new(0, 0),
        if is_dir { None } else { Some("txt".to_string()) },
        "readwrite".to_string(),
    )
}

#[test]
fn standard_columns_unless_fields_are_listed() {
    for selection in [
        SelectionType::All,
        SelectionType::Files,
        SelectionType::Directories,
    ] {
        assert_eq!(
            get_header_titles(&selection),
            vec!["Name", "Type", "Size", "Modified", "Permissions"]
        );
        assert_eq!(
            get_row_layout(&selection),
            vec![Cell::Kind, Cell::FileSize, Cell::Modified, Cell::Permissions]
        );
    }
    let fields = SelectionType::Fields(
        ["size", "name", "owner", "ext", "created"]
            .iter()
            .map(|s| s.to_string())
            .collect(),
    );
    assert_eq!(
        get_header_titles(&fields),
        vec!["Name", "size", "name", "owner", "ext", "created"]
    );
    assert_eq!(
        get_row_layout(&fields),
        vec![Cell::Size, Cell::Skip, Cell::Blank, Cell::Extension, Cell::Created]
    );
    assert_eq!(
        get_header_titles(&SelectionType::Fields(Vec::new())),
        vec!["Name"]
    );
    assert!(get_row_layout(&SelectionType::Fields(Vec::new())).is_empty());
}

#[test]
fn cells_by_field_name() {
    assert_eq!(cell_for("name"), Cell::Skip);
    assert_eq!(cell_for("path"), Cell::Path);
    assert_eq!(cell_for("size"), Cell::Size);
    assert_eq!(cell_for("modified"), Cell::Modified);
    assert_eq!(cell_for("created"), Cell::Created);
    assert_eq!(cell_for("ext"), Cell::Extension);
    assert_eq!(cell_for("permissions"), Cell::Permissions);
    assert_eq!(cell_for("is_hidden"), Cell::IsHidden);
    assert_eq!(cell_for("is_dir"), Cell::IsDir);
    assert_eq!(cell_for("is_file"), Cell::IsFile);
    assert_eq!(cell_for("type"), Cell::Blank);
    assert_eq!(cell_for(""), Cell::Blank);
}

#[test]
fn plain_cells_have_their_text() {
    let f = entry("a.txt", false);
    let d = entry(".cache", true);
    let text = |cell, e: &FSEntry| get_cell_text(cell, e);
    assert_eq!(text(Cell::Kind, &f), Some("file".to_string()));
    assert_eq!(text(Cell::Kind, &d), Some("dir".to_string()));
    assert_eq!(text(Cell::FileSize, &d), Some("-".to_string()));
    assert_eq!(text(Cell::FileSize, &f), None);
    assert_eq!(text(Cell::Size, &d), None);
    assert_eq!(text(Cell::Modified, &f), None);
    assert_eq!(text(Cell::Created, &f), None);
    assert_eq!(text(Cell::Skip, &f), None);
    assert_eq!(text(Cell::Path, &f), Some("/data/a.txt".to_string()));
    assert_eq!(text(Cell::Extension, &f), Some("txt".to_string()));
    assert_eq!(text(Cell::Extension, &d), Some("-".to_string()));
    assert_eq!(text(Cell::Permissions, &f), Some("readwrite".to_string()));
    assert_eq!(text(Cell::IsHidden, &f), Some("false".to_string()));
    assert_eq!(text(Cell::IsHidden, &d), Some("true".to_string()));
    assert_eq!(text(Cell::IsDir, &d), Some("true".to_string()));
    assert_eq!(text(Cell::IsFile, &d), Some("false".to_string()));
    assert_eq!(text(Cell::Blank, &f), Some("-".to_string()));
}

#[test]
fn names_are_coloured_by_kind() {
    let theme = dark_theme();
    assert_eq!(name_color(&entry("src", true), &theme), "bright cyan");
    assert_eq!(name_color(&entry(".git", true), &theme), "bright cyan");
    assert_eq!(name_color(&entry(".env", false), &theme), "bright black");
    assert_eq!(name_color(&entry("a.txt", false), &theme), "white");
}

#[test]
fn lines_of_the_shell() {
    assert_eq!(shell_action(""), ShellAction::Ignore);
    assert_eq!(shell_action(" \t\n"), ShellAction::Ignore);
    assert_eq!(shell_action("exit"), ShellAction::Exit);
    assert_eq!(shell_action("  QUIT \n"), ShellAction::Exit);
    assert_eq!(shell_action("Help"), ShellAction::Help);
    assert_eq!(shell_action("clear"), ShellAction::Clear);
    assert_eq!(
        shell_action(" SELECT * FROM . WHERE name = \"A\" "),
        ShellAction::Run("select * from . where name = \"a\"".to_string())
    );
    assert_eq!(
        shell_action("exit now"),
        ShellAction::Run("exit now".to_string())
    );
    assert_eq!(strip("\u{a0} a b \u{3000}"), "a b");
    assert_eq!(strip("ab"), "ab");
    assert_eq!(strip("   "), "");
}

#[test]
fn sizes_are_shown_in_the_greatest_unit_not_above_them() {
    assert_eq!(size_unit(0), (1, "B"));
    assert_eq!(size_unit(1023), (1, "B"));
    assert_eq!(size_unit(1024), (1024, "KB"));
    assert_eq!(size_unit(1024 * 1024 - 1), (1024, "KB"));
    assert_eq!(size_unit(1024 * 1024), (1024 * 1024, "MB"));
    assert_eq!(size_unit(1024 * 1024 * 1024 - 1), (1024 * 1024, "MB"));
    assert_eq!(size_unit(1024 * 1024 * 1024), (1024 * 1024 * 1024, "GB"));
    assert_eq!(size_unit((1u64 << 40) - 1), (1 << 30, "GB"));
    assert_eq!(size_unit(1u64 << 40), (1 << 40, "TB"));
    assert_eq!(size_unit(u64::MAX), (1 << 40, "TB"));
}

#[test]
fn entries_from_metadata() {
    let at = Timestamp::new(5, 6);
    let d = FSEntry::from_metadata(
        ".cache.d".to_string(),
        "/x/.cache.d".to_string(),
        4096,
        true,
        false,
        at,
        at,
        Some("d".to_string()),
        true,
    );
    assert_eq!(d.size, 0);
    assert_eq!(d.extension, None);
    assert_eq!(d.permissions, "readonly");
    assert!(d.is_hidden);
    assert!(d.is_dir && !d.is_file);
    let f = FSEntry::from_metadata(
        "a.txt".to_string(),
        "/x/a.txt".to_string(),
        4096,
        false,
        true,
        at,
        Timestamp::new(1, 2),
        Some("txt".to_string()),
        false,
    );
    assert_eq!(f.size, 4096);
    assert_eq!(f.extension, Some("txt".to_string()));
    assert_eq!(f.permissions, "readwrite");
    assert!(!f.is_hidden);
    assert_eq!(f.name, "a.txt");
    assert_eq!(f.path, "/x/a.txt");
    assert_eq!(f.modified, at);
    assert_eq!(f.created, Timestamp::new(1, 2));
}
