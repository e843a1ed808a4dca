use lexi::error::InputError;
use lexi::scaffold::{init_project, init_report, readme, ProjectFile};

fn sample_text() -> &'static str {
    r#"# Sample Lexi Program
# Write your logic in plain English below

Create a function that takes a list of numbers and returns only the even ones greater than 10

Create a function to check if a string is a palindrome, ignoring case and spaces

Build a simple web server that responds with "Hello, World!" on GET requests to the root path
"#
}

fn readme_text(project_name: &str) -> String {
    format!(
        r#"# {}

A Lexi project - code generated from English descriptions using AI.

## Getting Started

1. Configure your LLM provider:
   ```bash
   lexi config set provider openai
   lexi config set model gpt-4
   lexi config set api_key sk-your-key-here
   ```

2. Write your logic in `src/main.lxi`

3. Compile:
   ```bash
   lexi compile src/main.lxi --target javascript
   ```

4. Run:
   ```bash
   node build/main.js
   ```

## Commands

- `lexi compile <file.lxi>` - Compile to JavaScript (default)
- `lexi compile <file.lxi> --target python` - Compile to Python  
- `lexi compile <file.lxi> --run` - Compile and run immediately
- `lexi config list` - Show current configuration

## Project Structure

```
{}/
├── src/           # Your .lxi source files
├── build/         # Compiled output
├── lexi.config.json
└── README.md
```
"#,
        project_name, project_name
    )
}

#[test]
fn readme_names_the_project_twice() {
    assert_eq!(readme("demo"), readme_text("demo"));
    assert_eq!(readme(""), readme_text(""));
    assert!(readme("demo").starts_with("# demo\n\nA Lexi project"));
    assert!(readme("demo").contains("```\ndemo/\n├── src/"));
}

#[test]
fn new_project_has_two_directories_and_three_files() {
    let scaffold = init_project("demo", false, String::from("{}")).unwrap();
    assert_eq!(scaffold.directories, vec!["src", "build"]);
    assert_eq!(
        scaffold.files,
        vec![
            ProjectFile { path: String::from("src/main.lxi"), content: String::from(sample_text()) },
            ProjectFile { path: String::from("lexi.config.json"), content: String::from("{}") },
            ProjectFile { path: String::from("README.md"), content: readme_text("demo") },
        ]
    );
}

#[test]
fn new_project_is_not_laid_over_what_exists() {
    let r = init_project("demo", true, String::from("{}"));
    assert_eq!(r, Err(InputError::DirectoryExists { path: String::from("demo") }));
    assert_eq!(r.unwrap_err().message(), "Error: Directory 'demo' already exists");
}

#[test]
fn report_tells_the_next_steps() {
    let want = [
        "📚 Created new Lexi project: demo",
        "📁 Project structure:",
        "   demo/",
        "   ├── src/main.lxi",
        "   ├── build/",
        "   ├── lexi.config.json",
        "   └── README.md",
        "",
        "Next steps:",
        "   cd demo",
        "   lexi config init  # Configure your AI provider",
        "   lexi compile src/main.lxi",
    ]
    .join("\n");
    assert_eq!(init_report("demo"), want);
}
