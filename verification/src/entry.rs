//! A snapshot of one filesystem object.

use vstd::prelude::*;
use vstd::string::StringExecFns;

verus! {

/// A reading of the local wall clock: whole seconds since 1970-01-01
/// 00:00:00 local time, and the nanoseconds past that second.
#[derive(Debug, Clone, Copy, PartialEq, Eq, Structural)]
pub struct Timestamp {
    pub secs: i64,
    pub nanos: u32,
}

impl Timestamp {
    /// The reading in nanoseconds.
    pub open spec fn instant(self) -> int {
        self.secs * 1_000_000_000 + self.nanos
    }

    pub fn new(secs: i64, nanos: u32) -> (r: Timestamp)
        ensures
            r.secs == secs,
            r.nanos == nanos,
    {
        Timestamp { secs, nanos }
    }

    /// The reading in nanoseconds.
    pub fn nanoseconds(&self) -> (r: i128)
        ensures
            r == self.instant(),
    {
        self.secs as i128 * 1_000_000_000 + self.nanos as i128
    }
}

/// The kind of a filesystem object.
#[derive(Debug, Clone, Copy, PartialEq, Eq, Structural)]
pub enum FileType {
    Directory,
    File,
    /// Neither a directory nor a regular file.
    Other,
}

/// What may be done with a filesystem object.
#[derive(Debug, Clone, Copy, PartialEq, Eq, Structural)]
pub enum FilePermission {
    Read,
    Write,
    Execute,
}

/// One filesystem object as it was when the directory was walked.
#[derive(Debug)]
pub struct FSEntry {
    /// The last component of the path.
    pub name: String,
    /// The path as it was walked.
    pub path: String,
    /// The size in bytes.
    pub size: u64,
    pub is_dir: bool,
    pub is_file: bool,
    /// Whether the name begins with a dot.
    pub is_hidden: bool,
    pub modified: Timestamp,
    pub created: Timestamp,
    /// The extension of the name, if it has one.
    pub extension: Option<String>,
    /// A coarse description such as `readonly` or `readwrite`.
    pub permissions: String,
}

/// The view of an [`FSEntry`].
pub struct EntryView {
    pub name: Seq<char>,
    pub path: Seq<char>,
    pub size: u64,
    pub is_dir: bool,
    pub is_file: bool,
    pub is_hidden: bool,
    pub modified: Timestamp,
    pub created: Timestamp,
    pub extension: Option<Seq<char>>,
    pub permissions: Seq<char>,
}

/// The text of an optional string.
pub open spec fn optional_text(s: Option<String>) -> Option<Seq<char>> {
    match s {
        Some(text) => Some(text@),
        None => None,
    }
}

impl View for FSEntry {
    type V = EntryView;

    open spec fn view(&self) -> EntryView {
        EntryView {
            name: self.name@,
            path: self.path@,
            size: self.size,
            is_dir: self.is_dir,
            is_file: self.is_file,
            is_hidden: self.is_hidden,
            modified: self.modified,
            created: self.created,
            extension: optional_text(self.extension),
            permissions: self.permissions@,
        }
    }
}

impl Clone for FSEntry {
    fn clone(&self) -> (r: Self)
        ensures
            r == *self,
    {
        FSEntry {
            name: self.name.clone(),
            path: self.path.clone(),
            size: self.size,
            is_dir: self.is_dir,
            is_file: self.is_file,
            is_hidden: self.is_hidden,
            modified: self.modified,
            created: self.created,
            extension: match &self.extension {
                Some(text) => Some(text.clone()),
                None => None,
            },
            permissions: self.permissions.clone(),
        }
    }
}

/// The views of a sequence of entries.
pub open spec fn views_of(entries: Seq<FSEntry>) -> Seq<EntryView> {
    entries.map_values(|e: FSEntry| e@)
}

/// Whether a name marks a hidden entry: it begins with a dot.
pub open spec fn name_is_hidden(name: Seq<char>) -> bool {
    name.len() > 0 && name[0] == '.'
}

/// The kind of an entry: a directory, a file, or neither.
pub open spec fn kind_of(e: EntryView) -> FileType {
    if e.is_dir {
        FileType::Directory
    } else if e.is_file {
        FileType::File
    } else {
        FileType::Other
    }
}

impl FSEntry {
    /// The kind of the entry.
    pub fn file_type(&self) -> (r: FileType)
        ensures
            r == kind_of(self@),
    {
        if self.is_dir {
            FileType::Directory
        } else if self.is_file {
            FileType::File
        } else {
            FileType::Other
        }
    }

    /// An entry as the metadata of a path describes it: a directory has no
    /// size and no extension, and the permissions are `readonly` or
    /// `readwrite`; `is_hidden` is set from the name.
    pub fn from_metadata(
        name: String,
        path: String,
        len: u64,
        is_dir: bool,
        is_file: bool,
        modified: Timestamp,
        created: Timestamp,
        extension: Option<String>,
        readonly: bool,
    ) -> (r: FSEntry)
        ensures
            r.name == name,
            r.path == path,
            r.size == (if is_dir {
                0
            } else {
                len
            }),
            r.is_dir == is_dir,
            r.is_file == is_file,
            r.is_hidden == name_is_hidden(name@),
            r.modified == modified,
            r.created == created,
            r.extension == (if is_dir {
                None::<String>
            } else {
                extension
            }),
            r.permissions@ == (if readonly {
                "readonly"@
            } else {
                "readwrite"@
            }),
    {
        let size = if is_dir {
            0
        } else {
            len
        };
        let kept = if is_dir {
            None
        } else {
            extension
        };
        let permissions = if readonly {
            String::from_str("readonly")
        } else {
            String::from_str("readwrite")
        };
        FSEntry::new(name, path, size, is_dir, is_file, modified, created, kept, permissions)
    }

    /// An entry with the given attributes; `is_hidden` is set from the name.
    pub fn new(
        name: String,
        path: String,
        size: u64,
        is_dir: bool,
        is_file: bool,
        modified: Timestamp,
        created: Timestamp,
        extension: Option<String>,
        permissions: String,
    ) -> (r: FSEntry)
        ensures
            r.name == name,
            r.path == path,
            r.size == size,
            r.is_dir == is_dir,
            r.is_file == is_file,
            r.is_hidden == name_is_hidden(name@),
            r.modified == modified,
            r.created == created,
            r.extension == extension,
            r.permissions == permissions,
    {
        let text = name.as_str();
        let is_hidden = text.unicode_len() > 0 && text.get_char(0) == '.';
        FSEntry {
            name,
            path,
            size,
            is_dir,
            is_file,
            is_hidden,
            modified,
            created,
            extension,
            permissions,
        }
    }
}

} // verus!
