// Preprocessor tests: `#import` expansion against the standard-module
// table and the file-module table.

use shard::preprocess::IncludedSet;
use shard::preprocess::ModuleTable;
use shard::preprocess::load_module_from_string;

fn malloc_module() -> &'static str {
    "; a tiny allocator stub\nmalloc:\n  return\n"
}

#[test]
fn test_module_import() {
    {
        let main_module = String::from("\
            #import std/malloc\n
            #import std/malloc\n
        ");
        let module_name = String::from("main");
        let mock_dir = String::from("");

        let mut included_modules = IncludedSet::new();
        let mut standard_modules = ModuleTable::new();
        standard_modules.insert("std/malloc", malloc_module());
        let fs_modules = ModuleTable::new();

        let lines = load_module_from_string(
            &main_module,
            &module_name,
            &mock_dir,
            &mut included_modules,
            &standard_modules,
            &fs_modules,
        )
        .unwrap();

        let mut count = 0;
        for line in lines {
            if line.contains("malloc:") {
                count += 1;
            }
        }

        assert_eq!(count, 1);
    }
    {
        let main_module = String::from("#import std/malloc\n#import std/bad_name\n");
        let module_name = String::from("main");
        let mock_dir = String::from("");

        let mut included_modules = IncludedSet::new();
        let mut standard_modules = ModuleTable::new();
        standard_modules.insert("std/malloc", malloc_module());
        let fs_modules = ModuleTable::new();

        match load_module_from_string(
            &main_module,
            &module_name,
            &mock_dir,
            &mut included_modules,
            &standard_modules,
            &fs_modules,
        ) {
            Ok(_) => {
                assert!(false);
            }
            Err(err) => {
                assert_eq!("Failed to read /std/bad_name", err.message());
            }
        };
    }
}

#[test]
fn file_modules_resolve_by_path() {
    let main_module = String::from("  nop\n#import util.srd\n");
    let module_name = String::from("main");
    let dir = String::from("prog");

    let mut included = IncludedSet::new();
    let std_modules = ModuleTable::new();
    let mut fs_modules = ModuleTable::new();
    fs_modules.insert("prog/util.srd", "util:\n  return\n");

    let lines = load_module_from_string(
        &main_module,
        &module_name,
        &dir,
        &mut included,
        &std_modules,
        &fs_modules,
    )
    .unwrap();

    // The import line is removed and the module body is appended after
    // the importing module's own lines.
    assert_eq!(lines[0], "  nop");
    assert!(lines.iter().any(|l| l == "util:"));
    assert!(lines.iter().all(|l| !l.starts_with("#import")));
}

#[test]
fn imported_blocks_follow_own_lines() {
    let main_module = String::from("first\n#import m\nlast");
    let module_name = String::from("main");
    let dir = String::from("");

    let mut included = IncludedSet::new();
    let mut std_modules = ModuleTable::new();
    std_modules.insert("m", "inner");
    let fs_modules = ModuleTable::new();

    let lines = load_module_from_string(
        &main_module,
        &module_name,
        &dir,
        &mut included,
        &std_modules,
        &fs_modules,
    )
    .unwrap();

    assert_eq!(lines, vec![
        String::from("first"),
        String::from("last"),
        String::from("inner"),
    ]);
}

#[test]
fn missing_import_name_is_an_error() {
    let main_module = String::from("nop\n#import");
    let module_name = String::from("main");
    let dir = String::from("");

    let mut included = IncludedSet::new();
    let std_modules = ModuleTable::new();
    let fs_modules = ModuleTable::new();

    match load_module_from_string(
        &main_module,
        &module_name,
        &dir,
        &mut included,
        &std_modules,
        &fs_modules,
    ) {
        Ok(_) => assert!(false),
        Err(err) => assert_eq!(err.message(), "2: invalid import - module is missing"),
    }
}

#[test]
fn windows_line_endings_split() {
    let main_module = String::from("one\r\ntwo\nthree");
    let module_name = String::from("main");
    let dir = String::from("");

    let mut included = IncludedSet::new();
    let std_modules = ModuleTable::new();
    let fs_modules = ModuleTable::new();

    let lines = load_module_from_string(
        &main_module,
        &module_name,
        &dir,
        &mut included,
        &std_modules,
        &fs_modules,
    )
    .unwrap();

    assert_eq!(lines, vec![
        String::from("one"),
        String::from("two"),
        String::from("three"),
    ]);
}

#[test]
fn imports_chain_through_modules() {
    let main_module = String::from("top\n#import a");
    let module_name = String::from("main");
    let dir = String::from("");

    let mut included = IncludedSet::new();
    let mut std_modules = ModuleTable::new();
    std_modules.insert("a", "in_a\n#import b");
    std_modules.insert("b", "in_b");
    let fs_modules = ModuleTable::new();

    let lines = load_module_from_string(
        &main_module,
        &module_name,
        &dir,
        &mut included,
        &std_modules,
        &fs_modules,
    )
    .unwrap();

    assert_eq!(lines, vec![
        String::from("top"),
        String::from("in_a"),
        String::from("in_b"),
    ]);
}
