use lexi::compiler::{extension_for, output_name, LexiCompiler};
use std::path::{Path, PathBuf};

fn compiler() -> LexiCompiler {
    LexiCompiler::at(PathBuf::from("config.json"))
}

#[test]
fn extension_follows_the_target() {
    let table = [
        ("javascript", ".js"),
        ("python", ".py"),
        ("java", ".java"),
        ("cpp", ".cpp"),
        ("rust", ".rs"),
        ("go", ".go"),
        ("sql", ".sql"),
        ("mongodb", ".js"),
        ("redis", ".txt"),
        ("kotlin", ".js"),
        ("", ".js"),
        ("Python", ".js"),
    ];
    for (target, ext) in table {
        assert_eq!(extension_for(target), ext, "{:?}", target);
    }
}

#[test]
fn output_name_is_stem_and_extension() {
    assert_eq!(output_name("task", "python"), "task.py");
    assert_eq!(output_name("", "redis"), ".txt");
    assert_eq!(output_name("a.b", "cobol"), "a.b.js");
}

#[test]
fn default_output_file_is_named_after_the_input() {
    let c = compiler();
    assert_eq!(c.get_default_output_file("task.lxi", "python"), "task.py");
    assert_eq!(c.get_default_output_file("src/main.lxi", "javascript"), "main.js");
    assert_eq!(c.get_default_output_file("/abs/dir/q.lexi", "sql"), "q.sql");
    assert_eq!(c.get_default_output_file("archive.tar.lxi", "go"), "archive.tar.go");
    assert_eq!(c.get_default_output_file(".lxi", "rust"), ".lxi.rs");
    assert_eq!(c.get_default_output_file("noext", "redis"), "noext.txt");
    assert_eq!(c.get_default_output_file("dir/task.lxi/", "java"), "task.java");
}

#[test]
fn default_output_file_is_none_without_a_file_name() {
    let c = compiler();
    assert_eq!(c.default_output_file("task.lxi", "python"), Some(String::from("task.py")));
    for input in ["", "/", "..", "a/.."] {
        assert_eq!(c.default_output_file(input, "python"), None, "{:?}", input);
    }
}

#[test]
fn default_output_file_uses_the_stem_of_std() {
    let c = compiler();
    for input in ["a.lxi", "x/y.z.lexi", "./p.lxi", "q", ".hidden", "w.", "dir.d/file"] {
        let stem = Path::new(input).file_stem().unwrap().to_str().unwrap();
        assert_eq!(c.default_output_file(input, "cpp"), Some(format!("{}.cpp", stem)));
    }
}

#[test]
fn compiler_keeps_the_path_it_was_given() {
    let c = LexiCompiler::at(PathBuf::from("/tmp/lexi/config.json"));
    assert_eq!(c.config_path, PathBuf::from("/tmp/lexi/config.json"));
}

#[test]
fn config_file_lies_in_a_hidden_directory() {
    let c = LexiCompiler::under(PathBuf::from("/home/alice"));
    assert_eq!(c.config_path, Path::new("/home/alice").join(".lexi").join("config.json"));
    assert!(c.config_path.ends_with(".lexi/config.json"));
}

#[test]
fn new_compiler_looks_in_the_home_directory() {
    if let Some(c) = LexiCompiler::new() {
        assert!(c.config_path.ends_with(".lexi/config.json"));
    }
}
