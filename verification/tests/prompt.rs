use lexi::compiler::LexiCompiler;
use lexi::prompt::build_prompt;
use std::path::PathBuf;

fn sql_system() -> String {
    format!(
        "You are Lexi, a database query generator that converts English descriptions into clean, efficient SQL.

Rules:
1. Generate only the SQL code, no explanations or markdown
2. Use proper SQL syntax with appropriate JOINs, WHERE clauses, and indexing considerations
3. Include comments for complex queries
4. Use standard SQL that works across major databases (PostgreSQL, MySQL, SQL Server)
5. Generate complete, working SQL statements
6. Consider performance and use appropriate LIMIT clauses when needed

Target: SQL"
    )
}

fn mongodb_system() -> String {
    format!(
        "You are Lexi, a MongoDB query generator that converts English descriptions into MongoDB queries.

Rules:
1. Generate only MongoDB JavaScript code, no explanations or markdown
2. Use proper MongoDB syntax with appropriate aggregation pipelines
3. Include comments for complex operations
4. Use modern MongoDB methods and operators
5. Generate complete, working MongoDB queries
6. Consider performance with appropriate indexing hints

Target: MongoDB JavaScript"
    )
}

fn redis_system() -> String {
    format!(
        "You are Lexi, a Redis command generator that converts English descriptions into Redis commands.

Rules:
1. Generate only Redis commands, no explanations or markdown
2. Use proper Redis syntax and data structures
3. Include comments for complex operations
4. Use appropriate Redis commands for the use case
5. Generate complete, working Redis command sequences
6. Consider memory usage and TTL when appropriate

Target: Redis"
    )
}

fn language_system(target: &str) -> String {
    format!(
        "You are Lexi, a code generator that converts English descriptions into clean, functional {} code.

Rules:
1. Generate only the code, no explanations or markdown
2. Include proper error handling and edge cases
3. Use modern best practices for {}
4. Add structural comments but no console.log statements
5. Make functions keyboard accessible if UI-related
6. Generate complete, working implementations

Target language: {}",
        target, target, target
    )
}

fn sql_user(source: &str) -> String {
    format!(
        "Convert this description into SQL:

{}

Generate clean, efficient SQL with proper syntax.",
        source
    )
}

fn mongodb_user(source: &str) -> String {
    format!(
        "Convert this description into MongoDB JavaScript:

{}

Generate clean MongoDB queries with proper syntax.",
        source
    )
}

fn redis_user(source: &str) -> String {
    format!(
        "Convert this description into Redis commands:

{}

Generate clean Redis commands with proper syntax.",
        source
    )
}

fn language_user(source: &str, target: &str) -> String {
    format!(
        "Convert this Lexi description into {} code:

{}

Generate clean, production-ready code with proper function names and structure.",
        target, source
    )
}

#[test]
fn sql_prompt_is_the_fixed_text() {
    let (system, user) = build_prompt("list all users", "sql");
    assert_eq!(system, sql_system());
    assert_eq!(user, sql_user("list all users"));
    assert!(system.ends_with("Target: SQL"));
    assert_eq!(
        user,
        "Convert this description into SQL:\n\nlist all users\n\nGenerate clean, efficient SQL with proper syntax."
    );
}

#[test]
fn mongodb_prompt_is_the_fixed_text() {
    let (system, user) = build_prompt("count orders", "mongodb");
    assert_eq!(system, mongodb_system());
    assert_eq!(user, mongodb_user("count orders"));
    assert!(system.ends_with("Target: MongoDB JavaScript"));
}

#[test]
fn redis_prompt_is_the_fixed_text() {
    let (system, user) = build_prompt("cache the page", "redis");
    assert_eq!(system, redis_system());
    assert_eq!(user, redis_user("cache the page"));
    assert!(system.ends_with("Target: Redis"));
}

#[test]
fn any_other_target_is_named_in_the_prompt() {
    for target in ["javascript", "python", "rust", "go", "java", "cpp", "SQL", "", "brainfuck"] {
        let (system, user) = build_prompt("add two numbers", target);
        assert_eq!(system, language_system(target));
        assert_eq!(user, language_user("add two numbers", target));
    }
    let (system, user) = build_prompt("x", "python");
    assert!(system.starts_with(
        "You are Lexi, a code generator that converts English descriptions into clean, functional python code.\n"
    ));
    assert!(system.contains("3. Use modern best practices for python\n"));
    assert!(system.ends_with("Target language: python"));
    assert!(user.starts_with("Convert this Lexi description into python code:\n\nx\n\n"));
}

#[test]
fn user_prompt_holds_the_source_verbatim() {
    let sources = ["add two numbers", "line one\nline two\n", "{} {0} %s \\ \"quoted\"", "   ", "ünï¢ødé ✓"];
    for target in ["sql", "mongodb", "redis", "python", "javascript", "cobol"] {
        for source in sources {
            let (_, user) = build_prompt(source, target);
            assert!(user.contains(source), "{:?} for {:?}", source, target);
        }
    }
}

#[test]
fn compiler_method_builds_the_same_prompt() {
    let compiler = LexiCompiler::at(PathBuf::from("config.json"));
    assert_eq!(compiler.build_prompt("sum a list", "go"), build_prompt("sum a list", "go"));
    assert_eq!(compiler.build_prompt("sum a list", "sql"), build_prompt("sum a list", "sql"));
}
