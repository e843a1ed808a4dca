//! The files of a new project.
//!
//! The descriptor of a project is a JSON document, which the caller writes
//! out; everything else of a new project is fixed text around its name.

use crate::error::{InputError, InputErrorView};
use vstd::prelude::*;
use vstd::string::StringExecFns;

verus! {

/// What the sample source of a new project holds.
pub const SAMPLE_SOURCE: &'static str =
    "# Sample Lexi Program\n\
    # Write your logic in plain English below\n\
    \n\
    Create a function that takes a list of numbers and returns only the even ones greater than 10\n\
    \n\
    Create a function to check if a string is a palindrome, ignoring case and spaces\n\
    \n\
    Build a simple web server that responds with \"Hello, World!\" on GET requests to the root path\n\
    ";

/// The introduction of a new project, up to the first mention of its name.
pub const README_HEAD: &'static str =
    "# ";

/// The introduction of a new project between the two mentions of its name.
pub const README_BODY: &'static str =
    "\n\
    \n\
    A Lexi project - code generated from English descriptions using AI.\n\
    \n\
    ## Getting Started\n\
    \n\
    1. Configure your LLM provider:\n\
    \x20  ```bash\n\
    \x20  lexi config set provider openai\n\
    \x20  lexi config set model gpt-4\n\
    \x20  lexi config set api_key sk-your-key-here\n\
    \x20  ```\n\
    \n\
    2. Write your logic in `src/main.lxi`\n\
    \n\
    3. Compile:\n\
    \x20  ```bash\n\
    \x20  lexi compile src/main.lxi --target javascript\n\
    \x20  ```\n\
    \n\
    4. Run:\n\
    \x20  ```bash\n\
    \x20  node build/main.js\n\
    \x20  ```\n\
    \n\
    ## Commands\n\
    \n\
    - `lexi compile <file.lxi>` - Compile to JavaScript (default)\n\
    - `lexi compile <file.lxi> --target python` - Compile to Python  \n\
    - `lexi compile <file.lxi> --run` - Compile and run immediately\n\
    - `lexi config list` - Show current configuration\n\
    \n\
    ## Project Structure\n\
    \n\
    ```\n\
    ";

/// The introduction of a new project behind the last mention of its name.
pub const README_TAIL: &'static str =
    "/\n\
    ├── src/           # Your .lxi source files\n\
    ├── build/         # Compiled output\n\
    ├── lexi.config.json\n\
    └── README.md\n\
    ```\n\
    ";

/// What is told of a new project, up to the first mention of its name.
pub const REPORT_HEAD: &'static str = "📚 Created new Lexi project: ";

/// What is told of a new project between the first and the second mention of
/// its name.
pub const REPORT_TREE: &'static str = "\n📁 Project structure:\n\x20  ";

/// What is told of a new project between the second and the last mention of
/// its name.
pub const REPORT_STEPS: &'static str =
    "/\n\
    \x20  ├── src/main.lxi\n\
    \x20  ├── build/\n\
    \x20  ├── lexi.config.json\n\
    \x20  └── README.md\n\
    \n\
    Next steps:\n\
    \x20  cd ";

/// What is told of a new project behind the last mention of its name.
pub const REPORT_TAIL: &'static str =
    "\n\
    \x20  lexi config init  # Configure your AI provider\n\
    \x20  lexi compile src/main.lxi";

/// A file of a new project: its path below the project's directory, and
/// what it holds.
#[derive(Debug, PartialEq, Eq)]
pub struct ProjectFile {
    pub path: String,
    pub content: String,
}

/// What a new project is made of: directories and files, both named by
/// their paths below the project's directory.
#[derive(Debug, PartialEq, Eq)]
pub struct Scaffold {
    pub directories: Vec<String>,
    pub files: Vec<ProjectFile>,
}

/// The view of a file of a new project.
pub struct ProjectFileView {
    pub path: Seq<char>,
    pub content: Seq<char>,
}

/// The view of a new project.
pub struct ScaffoldView {
    pub directories: Seq<Seq<char>>,
    pub files: Seq<ProjectFileView>,
}

impl View for ProjectFile {
    type V = ProjectFileView;

    open spec fn view(&self) -> ProjectFileView {
        ProjectFileView { path: self.path@, content: self.content@ }
    }
}

impl View for Scaffold {
    type V = ScaffoldView;

    open spec fn view(&self) -> ScaffoldView {
        ScaffoldView {
            directories: Seq::new(self.directories@.len(), |i: int| self.directories@[i]@),
            files: Seq::new(self.files@.len(), |i: int| self.files@[i]@),
        }
    }
}

/// The introduction of the project `name`.
pub open spec fn readme_of(name: Seq<char>) -> Seq<char> {
    README_HEAD@ + name + README_BODY@ + name + README_TAIL@
}

/// What is told of the new project `name`.
pub open spec fn report_of(name: Seq<char>) -> Seq<char> {
    REPORT_HEAD@ + name + REPORT_TREE@ + name + REPORT_STEPS@ + name + REPORT_TAIL@
}

/// The new project `name` with the descriptor `descriptor`: a directory for
/// sources and one for what is built; a sample source, the descriptor and
/// the introduction.
pub open spec fn scaffold_of(name: Seq<char>, descriptor: Seq<char>) -> ScaffoldView {
    ScaffoldView {
        directories: seq!["src"@, "build"@],
        files: seq![
            ProjectFileView { path: "src/main.lxi"@, content: SAMPLE_SOURCE@ },
            ProjectFileView { path: "lexi.config.json"@, content: descriptor },
            ProjectFileView { path: "README.md"@, content: readme_of(name) },
        ],
    }
}

/// The introduction of the project `project_name`.
pub fn readme(project_name: &str) -> (text: String)
    ensures
        text@ == readme_of(project_name@),
{
    let mut text = String::from_str(README_HEAD);
    text.append(project_name);
    text.append(README_BODY);
    text.append(project_name);
    text.append(README_TAIL);
    text
}

/// What is told of the new project `project_name`.
pub fn init_report(project_name: &str) -> (text: String)
    ensures
        text@ == report_of(project_name@),
{
    let mut text = String::from_str(REPORT_HEAD);
    text.append(project_name);
    text.append(REPORT_TREE);
    text.append(project_name);
    text.append(REPORT_STEPS);
    text.append(project_name);
    text.append(REPORT_TAIL);
    text
}

/// What the new project `project_name` is made of, given whether a file or
/// directory of this name exists already and what the project's descriptor
/// holds. A project is never laid over what exists.
pub fn init_project(project_name: &str, exists: bool, descriptor: String) -> (r: Result<
    Scaffold,
    InputError,
>)
    ensures
        match r {
            Ok(scaffold) => !exists && scaffold@ == scaffold_of(project_name@, descriptor@),
            Err(e) => exists && e@ == (InputErrorView::DirectoryExists { path: project_name@ }),
        },
{
    if exists {
        return Err(InputError::DirectoryExists { path: String::from_str(project_name) });
    }
    let mut directories: Vec<String> = Vec::new();
    directories.push(String::from_str("src"));
    directories.push(String::from_str("build"));
    let mut files: Vec<ProjectFile> = Vec::new();
    files.push(
        ProjectFile {
            path: String::from_str("src/main.lxi"),
            content: String::from_str(SAMPLE_SOURCE),
        },
    );
    files.push(ProjectFile { path: String::from_str("lexi.config.json"), content: descriptor });
    files.push(ProjectFile { path: String::from_str("README.md"), content: readme(project_name) });
    let scaffold = Scaffold { directories, files };
    proof {
        let want = scaffold_of(project_name@, descriptor@);
        assert(scaffold@.directories =~= want.directories);
        assert(scaffold@.files =~= want.files);
    }
    Ok(scaffold)
}

} // verus!
