use lexi::compiler::LexiCompiler;
use lexi::sanitize::sanitize;
use std::path::PathBuf;

/// What the clean-up is to give, written with the string functions of std.
fn expected_code(response: &str) -> String {
    let code = response
        .replace("```javascript", "")
        .replace("```python", "")
        .replace("```java", "")
        .replace("```cpp", "")
        .replace("```rust", "")
        .replace("```go", "")
        .replace("```", "");
    let code = code.trim().to_string();
    let lines: Vec<&str> = code.lines().collect();
    let mut start = 0;
    let mut end = lines.len();
    for (i, line) in lines.iter().enumerate() {
        let t = line.trim();
        if t.starts_with("function ")
            || t.starts_with("def ")
            || t.starts_with("class ")
            || t.starts_with("import ")
            || t.starts_with("const ")
            || t.starts_with("let ")
            || t.starts_with("var ")
            || t.starts_with("#include")
        {
            start = i;
            break;
        }
    }
    for (i, line) in lines.iter().enumerate().rev() {
        let t = line.trim();
        if !t.is_empty() && !t.starts_with("Note:") && !t.starts_with("Example:") {
            end = i + 1;
            break;
        }
    }
    lines[start..end].join("\n")
}

const REPLIES: [&str; 30] = [
    "",
    "   ",
    "```",
    "``````",
    "```javascript\nconst x = 1;\n```",
    "```python\ndef add(a,b):\n    return a+b\n```",
    "```java\nclass A {}\n```",
    "```cpp\n#include <vector>\nint main() {}\n```",
    "```rust\nfn main() {}\n```",
    "```go\npackage main\nimport \"fmt\"\n```",
    "Here you go:\n\nfunction f() {}\n\nNote: this is a sketch",
    "Sure!\nlet x = 1;\nExample: call it\n\n",
    "Note: nothing but remarks\nExample: still nothing",
    "plain text without any anchor",
    "SELECT * FROM t;\nNote: add an index",
    "So:\n  let x = 1;",
    "a\r\r\nb",
    "intro\r\nvar a = 1\r\nvar b = 2\r\n",
    "def \n",
    "def",
    "  def f():\n    pass  ",
    "text\n\n\nimport os\n\n\nprint(1)\n\n\nNote: x\n\n",
    "`` `python``",
    "```javascriptx```pythonic",
    "```javajava",
    "prefix ```js\nconst a = 1\n```\nNote: js tag is no known tag",
    "    \n\tclass A:\n\t\tpass\n",
    "Example: first\nconst y = 2;\nExample: last",
    "\u{a0}let z = 3;\u{a0}",
    "Note:\nNote:\nfunction g() {}",
];

#[test]
fn fenced_javascript_is_unwrapped() {
    assert_eq!(sanitize("```javascript\nconst x = 1;\n```"), "const x = 1;");
}

#[test]
fn fenced_python_is_unwrapped() {
    assert_eq!(
        sanitize("```python\ndef add(a,b):\n    return a+b\n```"),
        "def add(a,b):\n    return a+b"
    );
}

#[test]
fn compiler_method_cleans_whatever_the_target() {
    let compiler = LexiCompiler::at(PathBuf::from("config.json"));
    let reply = "```python\ndef add(a,b):\n    return a+b\n```";
    assert_eq!(compiler.extract_code_from_response(reply, "python"), "def add(a,b):\n    return a+b");
    assert_eq!(compiler.extract_code_from_response(reply, "sql"), "def add(a,b):\n    return a+b");
}

#[test]
fn prose_before_the_code_is_dropped() {
    assert_eq!(sanitize("Here you go:\n\nfunction f() {}\nf();"), "function f() {}\nf();");
}

#[test]
fn remarks_after_the_code_are_dropped() {
    assert_eq!(sanitize("let x = 1;\n\nNote: x is one\nExample: x + 1\n"), "let x = 1;");
}

#[test]
fn text_without_anchor_is_kept_from_its_first_line() {
    assert_eq!(sanitize("  SELECT 1;\nSELECT 2;  "), "SELECT 1;\nSELECT 2;");
}

#[test]
fn text_of_remarks_alone_is_kept_whole() {
    assert_eq!(sanitize("Note: a\nExample: b"), "Note: a\nExample: b");
}

#[test]
fn fences_go_wherever_they_stand() {
    assert_eq!(sanitize("a```b```rustc"), "abc");
    assert_eq!(sanitize("```javascriptx"), "x");
    assert_eq!(sanitize("```javax"), "x");
}

#[test]
fn empty_reply_gives_empty_code() {
    assert_eq!(sanitize(""), "");
    assert_eq!(sanitize(" \n\t "), "");
    assert_eq!(sanitize("```"), "");
}

#[test]
fn sanitize_agrees_with_the_std_rendering() {
    for reply in REPLIES {
        assert_eq!(sanitize(reply), expected_code(reply), "{:?}", reply);
    }
}

#[test]
fn sanitize_is_idempotent_on_settled_replies() {
    let settled = [
        "",
        "const x = 1;",
        "function f() {}\nf();\n",
        "Intro\ndef f():\n    return 1",
        "SELECT 1;\n\nSELECT 2;",
        "   padded text   ",
        "intro\r\nlast",
    ];
    for reply in settled {
        let once = sanitize(reply);
        assert_eq!(sanitize(&once), once, "{:?}", reply);
    }
}

#[test]
fn sanitize_of_an_indented_block_is_not_idempotent() {
    let once = sanitize("So:\n  let x = 1;");
    assert_eq!(once, "  let x = 1;");
    assert_eq!(sanitize(&once), "let x = 1;");
}

#[test]
fn sanitize_of_a_stray_return_is_not_idempotent() {
    let once = sanitize("a\r\r\nb");
    assert_eq!(once, "a\r\nb");
    assert_eq!(sanitize(&once), "a\nb");
}

#[test]
fn fenced_block_is_cleaned_as_its_code() {
    let tags = ["```javascript", "```python", "```java", "```cpp", "```rust", "```go", "```"];
    let codes = [
        "",
        "const x = 1;",
        "def add(a,b):\n    return a+b",
        "  indented\n\nNote: with a remark",
        "javascript is no tag here",
        "prose first\nlet x = 2;\n",
        "`` two backticks are no fence",
        "\r\nwindows\r\nlines\r\n",
    ];
    for tag in tags {
        for code in codes {
            let block = format!("{}\n{}\n```", tag, code);
            assert_eq!(sanitize(&block), sanitize(code), "{:?}", block);
        }
    }
}

#[test]
fn clean_code_is_kept_as_it_is() {
    let codes = [
        "",
        "const x = 1;",
        "def add(a,b):\n    return a+b",
        "function f() {\n\n  return 1;\n}",
        "SELECT 1;\n\n-- no anchor at all",
        "#include <stdio.h>\nint main(void) { return 0; }",
    ];
    for code in codes {
        assert_eq!(sanitize(code), code);
        let block = format!("```\n{}\n```", code);
        assert_eq!(sanitize(&block), code);
    }
}
