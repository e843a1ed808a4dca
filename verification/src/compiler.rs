//! The compiler's front: where its configuration lives, and the three pure
//! steps of a compilation.

use crate::paths::{file_stem, file_stem_of, home_dir, path_bytes, push_component, pushed};
use crate::prompt::{build_prompt, system_prompt, user_prompt};
use crate::sanitize::{sanitize, sanitized};
use crate::text::{contains, same_str};
use std::path::PathBuf;
use vstd::pervasive::unreached;
use vstd::prelude::*;
use vstd::string::StringExecFns;

verus! {

/// The file extension of the sources of `target`. Targets without an
/// extension of their own share that of JavaScript.
pub open spec fn target_extension(target: Seq<char>) -> Seq<char> {
    if target == "javascript"@ {
        ".js"@
    } else if target == "python"@ {
        ".py"@
    } else if target == "java"@ {
        ".java"@
    } else if target == "cpp"@ {
        ".cpp"@
    } else if target == "rust"@ {
        ".rs"@
    } else if target == "go"@ {
        ".go"@
    } else if target == "sql"@ {
        ".sql"@
    } else if target == "mongodb"@ {
        ".js"@
    } else if target == "redis"@ {
        ".txt"@
    } else {
        ".js"@
    }
}

/// The file extension of the sources of `target`.
pub fn extension_for(target: &str) -> (ext: &'static str)
    ensures
        ext@ == target_extension(target@),
{
    if same_str(target, "javascript") {
        ".js"
    } else if same_str(target, "python") {
        ".py"
    } else if same_str(target, "java") {
        ".java"
    } else if same_str(target, "cpp") {
        ".cpp"
    } else if same_str(target, "rust") {
        ".rs"
    } else if same_str(target, "go") {
        ".go"
    } else if same_str(target, "sql") {
        ".sql"
    } else if same_str(target, "mongodb") {
        ".js"
    } else if same_str(target, "redis") {
        ".txt"
    } else {
        ".js"
    }
}

/// The name of the output file for an input whose stem is `stem`.
pub fn output_name(stem: &str, target: &str) -> (name: String)
    ensures
        name@ == stem@ + target_extension(target@),
{
    let mut name = String::from_str(stem);
    name.append(extension_for(target));
    name
}

/// What the path of the configuration file holds, for a directory whose path
/// holds `directory`: the directory, extended by `.lexi` and then by
/// `config.json`.
pub open spec fn config_path_under(directory: Seq<u8>) -> Seq<u8> {
    pushed(pushed(directory, ".lexi"@), "config.json"@)
}

/// The compiler, which knows where its configuration file lies.
#[derive(Debug)]
pub struct LexiCompiler {
    pub config_path: PathBuf,
}

impl LexiCompiler {
    /// A compiler whose configuration file is `.lexi/config.json` in the
    /// user's home directory, where the system knows that directory. Which
    /// directory that is, and whether there is one, is for the system to say.
    pub fn new() -> (compiler: Option<LexiCompiler>)
        ensures
            compiler matches Some(c) ==> exists|home: Seq<u8>|
                path_bytes(c.config_path) == #[trigger] config_path_under(home),
    {
        match home_dir() {
            Some(home) => {
                let ghost held = path_bytes(home);
                let compiler = LexiCompiler::under(home);
                assert(path_bytes(compiler.config_path) == config_path_under(held));
                Some(compiler)
            },
            None => None,
        }
    }

    /// A compiler whose configuration file is `.lexi/config.json` in
    /// `directory`.
    pub fn under(directory: PathBuf) -> (compiler: LexiCompiler)
        ensures
            path_bytes(compiler.config_path) == config_path_under(path_bytes(directory)),
    {
        let mut config_path = directory;
        push_component(&mut config_path, ".lexi");
        push_component(&mut config_path, "config.json");
        LexiCompiler { config_path }
    }

    /// A compiler whose configuration file is `config_path`.
    pub fn at(config_path: PathBuf) -> (compiler: LexiCompiler)
        ensures
            compiler.config_path == config_path,
    {
        LexiCompiler { config_path }
    }

    /// The name of the output file for the input `input`: the stem of the
    /// input's file name, and the extension of the target.
    pub fn get_default_output_file(&self, input: &str, target: &str) -> (name: String)
        requires
            file_stem_of(input@) is Some,
        ensures
            name@ == file_stem_of(input@).unwrap() + target_extension(target@),
    {
        match file_stem(input) {
            Some(stem) => output_name(stem.as_str(), target),
            None => unreached(),
        }
    }

    /// The name of the output file for the input `input`, where the path
    /// names a file at all.
    pub fn default_output_file(&self, input: &str, target: &str) -> (name: Option<String>)
        ensures
            match file_stem_of(input@) {
                Some(stem) => name matches Some(n) && n@ == stem + target_extension(target@),
                None => name is None,
            },
    {
        match file_stem(input) {
            Some(_) => Some(self.get_default_output_file(input, target)),
            None => None,
        }
    }

    /// The system instruction and the task for a description and a target.
    pub fn build_prompt(&self, lexi_content: &str, target: &str) -> (prompts: (String, String))
        ensures
            prompts.0@ == system_prompt(target@),
            prompts.1@ == user_prompt(lexi_content@, target@),
            contains(prompts.1@, lexi_content@),
    {
        build_prompt(lexi_content, target)
    }

    /// The code in the reply `response`. The target plays no part.
    pub fn extract_code_from_response(&self, response: &str, _target: &str) -> (code: String)
        ensures
            code@ == sanitized(response@),
    {
        sanitize(response)
    }
}

} // verus!
