//! What a table of results shows: its columns, the text of the cells that
//! are plain text, and the colour of a name. Sizes and dates are laid out by
//! whoever draws the table.

use crate::entry::{optional_text, EntryView, FSEntry};
use crate::text::str_equal;
use crate::theme::{Theme, ThemeView};
use crate::types::{texts_of, SelectionType, SelectionView};
use vstd::prelude::*;
use vstd::string::StringExecFns;

verus! {

/// What a cell of a row shows of its entry.
#[derive(Debug, Clone, Copy, PartialEq, Eq, Structural)]
pub enum Cell {
    /// Nothing: the name stands in the first column of every row.
    Skip,
    /// `dir` or `file`.
    Kind,
    /// The size, or `-` for a directory.
    FileSize,
    /// The size.
    Size,
    Modified,
    Created,
    Path,
    /// The extension, or `-` if there is none.
    Extension,
    Permissions,
    IsHidden,
    IsDir,
    IsFile,
    /// `-`: the field is not known.
    Blank,
}

/// The cell that shows the field called `name`.
pub open spec fn cell_named(name: Seq<char>) -> Cell {
    if name == "name"@ {
        Cell::Skip
    } else if name == "path"@ {
        Cell::Path
    } else if name == "size"@ {
        Cell::Size
    } else if name == "modified"@ {
        Cell::Modified
    } else if name == "created"@ {
        Cell::Created
    } else if name == "ext"@ {
        Cell::Extension
    } else if name == "permissions"@ {
        Cell::Permissions
    } else if name == "is_hidden"@ {
        Cell::IsHidden
    } else if name == "is_dir"@ {
        Cell::IsDir
    } else if name == "is_file"@ {
        Cell::IsFile
    } else {
        Cell::Blank
    }
}

/// The cells that show the fields of a list, in order.
pub open spec fn cells_named(names: Seq<Seq<char>>) -> Seq<Cell> {
    names.map_values(|name: Seq<char>| cell_named(name))
}

/// The cells of a row behind the name: the kind, the size, the date of
/// the last change and the permissions, unless the selection lists fields.
pub open spec fn row_layout(selection: SelectionView) -> Seq<Cell> {
    match selection {
        SelectionView::Fields(names) => cells_named(names),
        _ => seq![Cell::Kind, Cell::FileSize, Cell::Modified, Cell::Permissions],
    }
}

/// The titles of the columns: `Name`, then those of the standard columns
/// or the fields as they are listed.
pub open spec fn header_titles(selection: SelectionView) -> Seq<Seq<char>> {
    match selection {
        SelectionView::Fields(names) => seq!["Name"@] + names,
        _ => seq!["Name"@, "Type"@, "Size"@, "Modified"@, "Permissions"@],
    }
}

/// The text of a flag.
pub open spec fn flag_text(flag: bool) -> Seq<char> {
    if flag {
        "true"@
    } else {
        "false"@
    }
}

/// The text of a cell, for the cells that are plain text; a size or a date
/// has none.
pub open spec fn cell_text(cell: Cell, e: EntryView) -> Option<Seq<char>> {
    match cell {
        Cell::Kind => Some(
            if e.is_dir {
                "dir"@
            } else {
                "file"@
            },
        ),
        Cell::FileSize => if e.is_dir {
            Some("-"@)
        } else {
            None
        },
        Cell::Path => Some(e.path),
        Cell::Extension => Some(
            match e.extension {
                Some(ext) => ext,
                None => "-"@,
            },
        ),
        Cell::Permissions => Some(e.permissions),
        Cell::IsHidden => Some(flag_text(e.is_hidden)),
        Cell::IsDir => Some(flag_text(e.is_dir)),
        Cell::IsFile => Some(flag_text(e.is_file)),
        Cell::Blank => Some("-"@),
        _ => None,
    }
}

/// The unit a size is shown in: its number of bytes and its label. A size
/// is shown in the greatest of `B`, `KB`, `MB`, `GB`, `TB` that is not
/// above it, and in bytes below 1024.
pub open spec fn unit_of_size(size: u64) -> (u64, Seq<char>) {
    if size < 1024 {
        (1, "B"@)
    } else if size < 1_048_576 {
        (1024, "KB"@)
    } else if size < 1_073_741_824 {
        (1_048_576, "MB"@)
    } else if size < 1_099_511_627_776 {
        (1_073_741_824, "GB"@)
    } else {
        (1_099_511_627_776, "TB"@)
    }
}

/// The unit a size is shown in: its number of bytes and its label.
pub fn size_unit(size: u64) -> (r: (u64, &'static str))
    ensures
        r.0 == unit_of_size(size).0,
        r.1@ == unit_of_size(size).1,
{
    if size < 1024 {
        (1, "B")
    } else if size < 1_048_576 {
        (1024, "KB")
    } else if size < 1_073_741_824 {
        (1_048_576, "MB")
    } else if size < 1_099_511_627_776 {
        (1_073_741_824, "GB")
    } else {
        (1_099_511_627_776, "TB")
    }
}

/// The colour of the name of an entry: that of directories, else that of
/// hidden entries, else that of files.
pub open spec fn name_color_of(e: EntryView, theme: ThemeView) -> Seq<char> {
    if e.is_dir {
        theme.colors.directory
    } else if e.is_hidden {
        theme.colors.hidden
    } else {
        theme.colors.file
    }
}

/// The cell that shows the field called `name`.
pub fn cell_for(name: &str) -> (r: Cell)
    ensures
        r == cell_named(name@),
{
    if str_equal(name, "name") {
        Cell::Skip
    } else if str_equal(name, "path") {
        Cell::Path
    } else if str_equal(name, "size") {
        Cell::Size
    } else if str_equal(name, "modified") {
        Cell::Modified
    } else if str_equal(name, "created") {
        Cell::Created
    } else if str_equal(name, "ext") {
        Cell::Extension
    } else if str_equal(name, "permissions") {
        Cell::Permissions
    } else if str_equal(name, "is_hidden") {
        Cell::IsHidden
    } else if str_equal(name, "is_dir") {
        Cell::IsDir
    } else if str_equal(name, "is_file") {
        Cell::IsFile
    } else {
        Cell::Blank
    }
}

/// The cells of a row behind the name.
pub fn get_row_layout(selection: &SelectionType) -> (r: Vec<Cell>)
    ensures
        r@ == row_layout(selection@),
{
    let mut cells: Vec<Cell> = Vec::new();
    match selection {
        SelectionType::Fields(names) => {
            let mut i: usize = 0;
            while i < names.len()
                invariant
                    i <= names@.len(),
                    cells@.len() == i,
                    forall|k: int| 0 <= k < i ==> cells@[k] == cell_named(#[trigger] names@[k]@),
                decreases names@.len() - i,
            {
                cells.push(cell_for(names[i].as_str()));
                i = i + 1;
            }
            assert(cells@ =~= cells_named(texts_of(names@)));
        },
        _ => {
            cells.push(Cell::Kind);
            cells.push(Cell::FileSize);
            cells.push(Cell::Modified);
            cells.push(Cell::Permissions);
            assert(cells@ =~= seq![Cell::Kind, Cell::FileSize, Cell::Modified, Cell::Permissions]);
        },
    }
    cells
}

/// The titles of the columns.
pub fn get_header_titles(selection: &SelectionType) -> (r: Vec<String>)
    ensures
        texts_of(r@) == header_titles(selection@),
{
    let mut titles: Vec<String> = Vec::new();
    titles.push(String::from_str("Name"));
    match selection {
        SelectionType::Fields(names) => {
            let mut i: usize = 0;
            while i < names.len()
                invariant
                    i <= names@.len(),
                    titles@.len() == i + 1,
                    titles@[0]@ == "Name"@,
                    forall|k: int| 1 <= k <= i ==> (#[trigger] titles@[k])@ == names@[k - 1]@,
                decreases names@.len() - i,
            {
                titles.push(names[i].clone());
                i = i + 1;
            }
            assert(texts_of(titles@) =~= seq!["Name"@] + texts_of(names@));
        },
        _ => {
            titles.push(String::from_str("Type"));
            titles.push(String::from_str("Size"));
            titles.push(String::from_str("Modified"));
            titles.push(String::from_str("Permissions"));
            assert(texts_of(titles@) =~= seq![
                "Name"@,
                "Type"@,
                "Size"@,
                "Modified"@,
                "Permissions"@,
            ]);
        },
    }
    titles
}

/// The text of a cell, for the cells that are plain text.
pub fn get_cell_text(cell: Cell, entry: &FSEntry) -> (r: Option<String>)
    ensures
        optional_text(r) == cell_text(cell, entry@),
{
    match cell {
        Cell::Kind => Some(
            String::from_str(
                if entry.is_dir {
                    "dir"
                } else {
                    "file"
                },
            ),
        ),
        Cell::FileSize => if entry.is_dir {
            Some(String::from_str("-"))
        } else {
            None
        },
        Cell::Path => Some(entry.path.clone()),
        Cell::Extension => Some(
            match &entry.extension {
                Some(ext) => ext.clone(),
                None => String::from_str("-"),
            },
        ),
        Cell::Permissions => Some(entry.permissions.clone()),
        Cell::IsHidden => Some(flag_string(entry.is_hidden)),
        Cell::IsDir => Some(flag_string(entry.is_dir)),
        Cell::IsFile => Some(flag_string(entry.is_file)),
        Cell::Blank => Some(String::from_str("-")),
        _ => None,
    }
}

/// The text of a flag.
fn flag_string(flag: bool) -> (r: String)
    ensures
        r@ == flag_text(flag),
{
    String::from_str(
        if flag {
            "true"
        } else {
            "false"
        },
    )
}

/// The colour of the name of an entry.
pub fn name_color<'a>(entry: &FSEntry, theme: &'a Theme) -> (r: &'a str)
    ensures
        r@ == name_color_of(entry@, theme@),
{
    if entry.is_dir {
        theme.colors.directory.as_str()
    } else if entry.is_hidden {
        theme.colors.hidden.as_str()
    } else {
        theme.colors.file.as_str()
    }
}

} // verus!
