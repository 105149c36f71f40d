use lsql::parser::value::parse_decimal;
use lsql::{
    list_entries, sort_entries, ComparisonOperator, Condition, ConditionNode, DeletionBatch,
    FSEntry, OrderDirection, OrderTerm, RemovalAction, RemovalFailure, SelectionType, Timestamp,
    Value,
};

// A directory tree held in memory: every path with whether it is a
// directory. It stands in for the disk under the engine.
struct Disk {
    nodes: Vec<(String, bool)>,
}

impl Disk {
    fn new() -> Disk {
        Disk { nodes: Vec::new() }
    }

    fn create_dir(&mut self, path: &str) {
        self.nodes.push((path.to_string(), true));
    }

    fn create_file(&mut self, path: &str) {
        self.nodes.push((path.to_string(), false));
    }

    fn holds(&self, path: &str) -> bool {
        self.nodes.iter().any(|(p, _)| p == path)
    }

    fn is_below(path: &str, root: &str) -> bool {
        path.len() > root.len() + 1 && path.starts_with(root) && path[root.len()..].starts_with('/')
    }

    fn depth_below(path: &str, root: &str) -> usize {
        path[root.len()..].matches('/').count()
    }

    // What a walk from `root` meets, the root left out.
    fn walk(&self, root: &str, recursive: bool) -> Vec<FSEntry> {
        let mut found: Vec<&(String, bool)> = self
            .nodes
            .iter()
            .filter(|(p, _)| Disk::is_below(p, root))
            .filter(|(p, _)| recursive || Disk::depth_below(p, root) == 1)
            .collect();
        found.sort();
        found
            .into_iter()
            .map(|(p, is_dir)| {
                let name = p.rsplit('/').next().unwrap().to_string();
                let extension = if *is_dir {
                    None
                } else {
                    name.rsplit_once('.').map(|(_, ext)| ext.to_string())
                };
                FSEntry::new(
                    name,
                    p.clone(),
                    if *is_dir { 0 } else { 15 },
                    *is_dir,
                    !*is_dir,
                    Timestamp::new(1_700_000_000, 0),
                    Timestamp::new(1_700_000_000, 0),
                    extension,
                    "readwrite".to_string(),
                )
            })
            .collect()
    }

    fn perform(&mut self, path: &str, action: RemovalAction) -> Result<(), RemovalFailure> {
        if !self.holds(path) {
            return Err(RemovalFailure::NotFound);
        }
        match action {
            RemovalAction::RemoveFile => {
                self.nodes.retain(|(p, _)| p != path);
                Ok(())
            }
            RemovalAction::RemoveEmptyDirectory => {
                if self.nodes.iter().any(|(p, _)| Disk::is_below(p, path)) {
                    Err(RemovalFailure::DirectoryNotEmpty)
                } else {
                    self.nodes.retain(|(p, _)| p != path);
                    Ok(())
                }
            }
            RemovalAction::RemoveTree => {
                self.nodes
                    .retain(|(p, _)| p != path && !Disk::is_below(p, path));
                Ok(())
            }
        }
    }
}

// Lists what is below `path` and cuts it down as the engine does.
fn list(
    disk: &Disk,
    path: &str,
    selection: &SelectionType,
    condition: &Option<ConditionNode>,
    limit: Option<u64>,
    recursive: bool,
) -> Vec<FSEntry> {
    list_entries(disk.walk(path, recursive), selection, condition, limit)
}

// Deletes what matches below `path`, one removal after the other.
fn delete_entries(
    disk: &mut Disk,
    path: &str,
    selection: &SelectionType,
    condition: &Option<ConditionNode>,
    limit: Option<u64>,
    recursive: bool,
    dry_run: bool,
) -> (Vec<FSEntry>, usize) {
    let candidates = list(disk, path, selection, condition, limit, recursive);
    let mut batch = DeletionBatch::new(candidates, recursive, dry_run);
    loop {
        let step = batch
            .pending()
            .map(|(entry, action)| (entry.path.clone(), action));
        match step {
            Some((target, action)) => {
                let outcome = disk.perform(&target, action);
                batch = batch.record(outcome);
            }
            None => break,
        }
    }
    batch.finish()
}

// A directory with nine files and a subdirectory of four files.
fn setup_test_directory() -> Disk {
    let mut disk = Disk::new();
    disk.create_dir("/tmp/work");
    for i in 1..10 {
        disk.create_file(&format!("/tmp/work/test_file_{}.txt", i));
    }
    disk.create_dir("/tmp/work/subdir");
    for i in 1..5 {
        disk.create_file(&format!("/tmp/work/subdir/subdir_file_{}.txt", i));
    }
    disk
}

#[test]
fn test_limit_entries() {
    let disk = setup_test_directory();
    let dir_path = "/tmp/work";

    // Test with limit of 3
    let entries = list(&disk, dir_path, &SelectionType::All, &None, Some(3), false);

    assert_eq!(entries.len(), 3, "Should return exactly 3 entries");

    // Test with limit of 0 (should return empty list)
    let zero_entries = list(&disk, dir_path, &SelectionType::All, &None, Some(0), false);

    assert_eq!(
        zero_entries.len(),
        0,
        "Should return empty list with limit 0"
    );

    // Test with limit larger than available entries
    let all_entries = list(&disk, dir_path, &SelectionType::All, &None, Some(100), false);

    // Should return all entries in the directory (not recursive)
    assert!(all_entries.len() > 0, "Should return all entries");
    assert!(
        all_entries.len() <= 10,
        "Should not exceed actual entry count"
    );

    // Test with no limit
    let unlimited_entries = list(&disk, dir_path, &SelectionType::All, &None, None, false);

    assert_eq!(
        unlimited_entries.len(),
        all_entries.len(),
        "No limit should return all entries"
    );
}

#[test]
fn test_limit_with_recursive() {
    let disk = setup_test_directory();
    let dir_path = "/tmp/work";

    // Test with limit and recursive flag
    let entries = list(&disk, dir_path, &SelectionType::All, &None, Some(5), true);

    assert_eq!(
        entries.len(),
        5,
        "Should return exactly 5 entries with recursive search"
    );

    // Get all entries recursively
    let all_entries = list(&disk, dir_path, &SelectionType::All, &None, None, true);

    // Should include files from subdirectories
    assert!(
        all_entries.len() > 10,
        "Should include files from subdirectories"
    );
}

#[test]
fn test_limit_with_selection_and_condition() {
    let disk = setup_test_directory();
    let dir_path = "/tmp/work";

    // Test with files selection and limit
    let file_entries = list(&disk, dir_path, &SelectionType::All, &None, Some(4), false);

    assert_eq!(
        file_entries.len(),
        4,
        "Should return exactly 4 file entries"
    );

    // Create a simple condition for testing
    let condition = Some(ConditionNode::Leaf(Condition {
        identifier: "name".to_string(),
        operator: ComparisonOperator::Contains,
        value: Value::String("test_file".to_string()),
    }));

    // Test with condition and limit
    let filtered_entries = list(
        &disk,
        dir_path,
        &SelectionType::All,
        &condition,
        Some(2),
        false,
    );

    assert!(filtered_entries.len() <= 2, "Should not exceed limit of 2");

    // Verify that the condition was applied before the limit
    for entry in &filtered_entries {
        assert!(
            entry.name.contains("test_file"),
            "Entry should match the condition"
        );
    }
}

#[test]
fn test_delete_entries_dry_run() {
    let mut disk = setup_test_directory();
    let dir_path = "/tmp/work";

    // Test with dry run mode (should not delete anything)
    let (entries_to_delete, deleted_count) = delete_entries(
        &mut disk,
        dir_path,
        &SelectionType::All,
        &None,
        Some(3),
        false,
        true, // dry run
    );

    // Should return entries that would be deleted
    assert_eq!(
        entries_to_delete.len(),
        3,
        "Should return 3 entries that would be deleted"
    );

    // Should not delete anything
    assert_eq!(
        deleted_count, 0,
        "Should not delete any entries in dry run mode"
    );

    // Verify files still exist
    let all_entries = list(&disk, dir_path, &SelectionType::All, &None, None, false);

    assert!(
        all_entries.len() > 3,
        "Files should still exist after dry run"
    );
}

#[test]
fn test_delete_entries_with_condition() {
    let mut disk = setup_test_directory();
    let dir_path = "/tmp/work";

    // Create a condition to match specific files
    let condition = Some(ConditionNode::Leaf(Condition {
        identifier: "name".to_string(),
        operator: ComparisonOperator::Contains,
        value: Value::String("test_file_1".to_string()), // Only match test_file_1.txt
    }));

    // Count files before deletion
    let before_entries = list(&disk, dir_path, &SelectionType::All, &None, None, false);

    let before_count = before_entries.len();

    // Delete entries matching the condition
    let (failed_entries, deleted_count) = delete_entries(
        &mut disk,
        dir_path,
        &SelectionType::All,
        &condition,
        None,
        false,
        false, // actual deletion
    );

    // Should have deleted 1 file
    assert_eq!(deleted_count, 1, "Should delete 1 file");
    assert_eq!(
        failed_entries.len(),
        0,
        "Should not have any failed deletions"
    );

    // Verify file was deleted
    let after_entries = list(&disk, dir_path, &SelectionType::All, &None, None, false);

    assert_eq!(
        after_entries.len(),
        before_count - 1,
        "One file should be deleted"
    );

    // Verify the specific file was deleted
    let has_test_file_1 = after_entries.iter().any(|e| e.name.contains("test_file_1"));
    assert!(!has_test_file_1, "test_file_1.txt should be deleted");
}

#[test]
fn test_delete_entries_recursive() {
    let mut disk = setup_test_directory();
    let dir_path = "/tmp/work";

    // Create a nested directory structure
    disk.create_dir("/tmp/work/nested_dir");

    // Create files in the nested directory
    for i in 1..3 {
        disk.create_file(&format!("/tmp/work/nested_dir/nested_file_{}.txt", i));
    }

    // Count directories before deletion
    let before_dirs = list(&disk, dir_path, &SelectionType::All, &None, None, false);

    let before_dir_count = before_dirs.len();
    assert!(before_dir_count > 0, "Should have at least one directory");

    // Try to delete a directory without recursive flag (should fail)
    let condition = Some(ConditionNode::Leaf(Condition {
        identifier: "name".to_string(),
        operator: ComparisonOperator::Equal,
        value: Value::String("nested_dir".to_string()),
    }));

    let (failed_entries, deleted_count) = delete_entries(
        &mut disk,
        dir_path,
        &SelectionType::All,
        &condition, // Add condition to target specific directory
        None,       // Remove limit since we're using condition
        false,      // non-recursive
        false,      // actual deletion
    );

    // Should have failed to delete the directory because it's not empty
    assert_eq!(
        deleted_count, 0,
        "Should not delete any directories without recursive flag"
    );
    assert_eq!(failed_entries.len(), 1);
    assert_eq!(
        failed_entries[0].name,
        "nested_dir - Directory not empty (use recursive flag to delete): /tmp/work/nested_dir"
    );
    assert!(disk.holds("/tmp/work/nested_dir"));

    // Now delete with recursive flag
    let (failed_entries, deleted_count) = delete_entries(
        &mut disk,
        dir_path,
        &SelectionType::All,
        &condition, // Use same condition to target the specific directory
        None,
        true,  // recursive
        false, // actual deletion
    );

    // Should have successfully deleted the directory
    assert_eq!(deleted_count, 1, "Should delete exactly one directory");
    assert_eq!(
        failed_entries.len(),
        0,
        "Should not have any failed deletions"
    );

    // Verify directory was deleted
    let after_dirs = list(&disk, dir_path, &SelectionType::All, &None, None, false);
    assert!(
        !after_dirs.iter().any(|e| e.name == "nested_dir"),
        "nested_dir should be deleted"
    );
}

#[test]
fn test_delete_entries_with_nested_structure() {
    let mut disk = setup_test_directory();
    let dir_path = "/tmp/work";

    // Create a deeper nested directory structure
    disk.create_dir("/tmp/work/level1");
    disk.create_dir("/tmp/work/level1/level2");
    disk.create_dir("/tmp/work/level1/level2/level3");

    // Create files at each level
    for i in 1..3 {
        disk.create_file(&format!("/tmp/work/level1/level1_file_{}.txt", i));
        disk.create_file(&format!("/tmp/work/level1/level2/level2_file_{}.txt", i));
        disk.create_file(&format!(
            "/tmp/work/level1/level2/level3/level3_file_{}.txt",
            i
        ));
    }

    // Count all entries recursively before deletion
    let before_entries = list(
        &disk,
        dir_path,
        &SelectionType::All,
        &None,
        None,
        true, // recursive
    );

    let before_count = before_entries.len();

    // Delete the top-level directory recursively
    let (failed_entries, deleted_count) = delete_entries(
        &mut disk,
        dir_path,
        &SelectionType::All,
        &Some(ConditionNode::Leaf(Condition {
            identifier: "name".to_string(),
            operator: ComparisonOperator::Equal,
            value: Value::String("level1".to_string()),
        })),
        None,
        true,  // recursive
        false, // actual deletion
    );

    // Should have successfully deleted the directory and all its contents
    assert_eq!(deleted_count, 1, "Should delete one directory");
    assert_eq!(
        failed_entries.len(),
        0,
        "Should not have any failed deletions"
    );

    // Verify directory and all its contents were deleted
    let after_entries = list(
        &disk,
        dir_path,
        &SelectionType::All,
        &None,
        None,
        true, // recursive
    );

    // The count should be reduced by at least 9 entries (3 directories + 6 files)
    assert!(
        before_count - after_entries.len() >= 9,
        "Should have deleted at least 9 entries (3 dirs + 6 files)"
    );

    // Verify the level1 directory no longer exists
    let has_level1 = after_entries.iter().any(|e| e.name == "level1");
    assert!(!has_level1, "level1 directory should be deleted");
}

#[test]
fn test_sort_entries() {
    // Create a test directory with files of different sizes and names
    let disk = setup_test_directory();
    let dir_path = "/tmp/work";

    // Get all entries
    let mut entries = list(&disk, dir_path, &SelectionType::All, &None, None, false);

    // Ensure we have at least 3 entries for testing
    assert!(
        entries.len() >= 3,
        "Need at least 3 entries for sorting test"
    );

    // Sort by name ascending
    let order_by_name_asc = vec![OrderTerm {
        field: "name".to_string(),
        direction: OrderDirection::Ascending,
    }];

    sort_entries(&mut entries, &order_by_name_asc);

    // Verify entries are sorted by name ascending
    for i in 1..entries.len() {
        assert!(
            entries[i - 1].name <= entries[i].name,
            "Entries should be sorted by name ascending"
        );
    }

    // Sort by name descending
    let order_by_name_desc = vec![OrderTerm {
        field: "name".to_string(),
        direction: OrderDirection::Descending,
    }];

    sort_entries(&mut entries, &order_by_name_desc);

    // Verify entries are sorted by name descending
    for i in 1..entries.len() {
        assert!(
            entries[i - 1].name >= entries[i].name,
            "Entries should be sorted by name descending"
        );
    }

    // Test multi-field sorting
    // First, make sure we have files with different sizes
    let mut entries = list(
        &disk,
        dir_path,
        &SelectionType::All,
        &None,
        None,
        true, // recursive to get more files
    );

    // Sort by is_dir (to group directories and files) then by name
    let order_by_multiple = vec![
        OrderTerm {
            field: "is_dir".to_string(),
            direction: OrderDirection::Descending, // Directories first
        },
        OrderTerm {
            field: "name".to_string(),
            direction: OrderDirection::Ascending,
        },
    ];

    sort_entries(&mut entries, &order_by_multiple);

    // Verify directories come first, then files, and each group is sorted by name
    let mut last_is_dir = true;
    let mut last_name = String::new();

    for entry in &entries {
        // Once we switch from directories to files, reset the name comparison
        if last_is_dir && !entry.is_dir {
            last_is_dir = false;
            last_name = String::new();
        }

        // Within the same group (dirs or files), names should be ascending
        if !last_name.is_empty() {
            if last_is_dir == entry.is_dir {
                assert!(
                    last_name <= entry.name,
                    "Within same group, entries should be sorted by name ascending"
                );
            }
        }

        last_name = entry.name.clone();
    }

    // No directory stands behind a file.
    let first_file = entries.iter().position(|e| !e.is_dir).unwrap();
    assert!(entries[first_file..].iter().all(|e| !e.is_dir));
    assert!(entries[..first_file].iter().all(|e| e.is_dir));
    assert_eq!(first_file, 1);

    // Sorting what is sorted changes nothing.
    let names: Vec<String> = entries.iter().map(|e| e.name.clone()).collect();
    sort_entries(&mut entries, &order_by_multiple);
    let again: Vec<String> = entries.iter().map(|e| e.name.clone()).collect();
    assert_eq!(names, again);
}

#[test]
fn size_of_1024_bytes_against_numbers_and_units() {
    let entry = FSEntry::new(
        "test.txt".to_string(),
        "/path/to/test.txt".to_string(),
        1024,
        false,
        true,
        Timestamp::new(0, 0),
        Timestamp::new(0, 0),
        Some("txt".to_string()),
        "readwrite".to_string(),
    );
    let greater = |value: Value| {
        entry.evaluate_condition_node(&ConditionNode::Leaf(Condition {
            identifier: "size".to_string(),
            operator: ComparisonOperator::GreaterThan,
            value,
        }))
    };
    assert!(greater(Value::Number(parse_decimal("500").unwrap())));
    assert!(!greater(Value::Number(parse_decimal("2000").unwrap())));
    assert!(greater(Value::SizedNumber(
        parse_decimal("0.5").unwrap(),
        "kb".to_string()
    )));
    assert!(!greater(Value::SizedNumber(
        parse_decimal("2").unwrap(),
        "kb".to_string()
    )));
}
