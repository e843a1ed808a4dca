//! The instructions that are sent to the provider: one pair of texts for each
//! kind of target.

use crate::text::{contains, occurs_at, same_str};
use vstd::prelude::*;
use vstd::string::StringExecFns;

verus! {

/// The system instruction for the target `sql`.
pub const SQL_SYSTEM: &'static str =
    "You are Lexi, a database query generator that converts English descriptions into clean, efficient SQL.\n\
    \n\
    Rules:\n\
    1. Generate only the SQL code, no explanations or markdown\n\
    2. Use proper SQL syntax with appropriate JOINs, WHERE clauses, and indexing considerations\n\
    3. Include comments for complex queries\n\
    4. Use standard SQL that works across major databases (PostgreSQL, MySQL, SQL Server)\n\
    5. Generate complete, working SQL statements\n\
    6. Consider performance and use appropriate LIMIT clauses when needed\n\
    \n\
    Target: SQL";

/// The system instruction for the target `mongodb`.
pub const MONGODB_SYSTEM: &'static str =
    "You are Lexi, a MongoDB query generator that converts English descriptions into MongoDB queries.\n\
    \n\
    Rules:\n\
    1. Generate only MongoDB JavaScript code, no explanations or markdown\n\
    2. Use proper MongoDB syntax with appropriate aggregation pipelines\n\
    3. Include comments for complex operations\n\
    4. Use modern MongoDB methods and operators\n\
    5. Generate complete, working MongoDB queries\n\
    6. Consider performance with appropriate indexing hints\n\
    \n\
    Target: MongoDB JavaScript";

/// The system instruction for the target `redis`.
pub const REDIS_SYSTEM: &'static str =
    "You are Lexi, a Redis command generator that converts English descriptions into Redis commands.\n\
    \n\
    Rules:\n\
    1. Generate only Redis commands, no explanations or markdown\n\
    2. Use proper Redis syntax and data structures\n\
    3. Include comments for complex operations\n\
    4. Use appropriate Redis commands for the use case\n\
    5. Generate complete, working Redis command sequences\n\
    6. Consider memory usage and TTL when appropriate\n\
    \n\
    Target: Redis";

/// The system instruction for a programming language, up to the first mention of
/// the language.
pub const GENERIC_SYSTEM_HEAD: &'static str =
    "You are Lexi, a code generator that converts English descriptions into clean, functional ";

/// What stands between the first and the second mention of the language.
pub const GENERIC_SYSTEM_RULES: &'static str =
    " code.\n\
    \n\
    Rules:\n\
    1. Generate only the code, no explanations or markdown\n\
    2. Include proper error handling and edge cases\n\
    3. Use modern best practices for ";

/// What stands between the second and the last mention of the language.
pub const GENERIC_SYSTEM_TAIL: &'static str =
    "\n\
    4. Add structural comments but no console.log statements\n\
    5. Make functions keyboard accessible if UI-related\n\
    6. Generate complete, working implementations\n\
    \n\
    Target language: ";

/// What precedes the description in the task for `sql`.
pub const SQL_USER_HEAD: &'static str =
    "Convert this description into SQL:\n\
    \n\
    ";

/// What follows the description in the task for `sql`.
pub const SQL_USER_TAIL: &'static str =
    "\n\
    \n\
    Generate clean, efficient SQL with proper syntax.";

/// What precedes the description in the task for `mongodb`.
pub const MONGODB_USER_HEAD: &'static str =
    "Convert this description into MongoDB JavaScript:\n\
    \n\
    ";

/// What follows the description in the task for `mongodb`.
pub const MONGODB_USER_TAIL: &'static str =
    "\n\
    \n\
    Generate clean MongoDB queries with proper syntax.";

/// What precedes the description in the task for `redis`.
pub const REDIS_USER_HEAD: &'static str =
    "Convert this description into Redis commands:\n\
    \n\
    ";

/// What follows the description in the task for `redis`.
pub const REDIS_USER_TAIL: &'static str =
    "\n\
    \n\
    Generate clean Redis commands with proper syntax.";

/// What precedes the language in the task for a programming language.
pub const GENERIC_USER_HEAD: &'static str =
    "Convert this Lexi description into ";

/// What stands between the language and the description.
pub const GENERIC_USER_MIDDLE: &'static str =
    " code:\n\
    \n\
    ";

/// What follows the description in the task for a programming language.
pub const GENERIC_USER_TAIL: &'static str =
    "\n\
    \n\
    Generate clean, production-ready code with proper function names and structure.";

/// The system instruction for `target`: a fixed text for each of the three
/// query dialects, and for any other target the text for a programming
/// language, which names the target three times.
pub open spec fn system_prompt(target: Seq<char>) -> Seq<char> {
    if target == "sql"@ {
        SQL_SYSTEM@
    } else if target == "mongodb"@ {
        MONGODB_SYSTEM@
    } else if target == "redis"@ {
        REDIS_SYSTEM@
    } else {
        GENERIC_SYSTEM_HEAD@ + target + GENERIC_SYSTEM_RULES@ + target + GENERIC_SYSTEM_TAIL@
            + target
    }
}

/// What precedes the description in the task for `target`.
pub open spec fn user_head(target: Seq<char>) -> Seq<char> {
    if target == "sql"@ {
        SQL_USER_HEAD@
    } else if target == "mongodb"@ {
        MONGODB_USER_HEAD@
    } else if target == "redis"@ {
        REDIS_USER_HEAD@
    } else {
        GENERIC_USER_HEAD@ + target + GENERIC_USER_MIDDLE@
    }
}

/// What follows the description in the task for `target`.
pub open spec fn user_tail(target: Seq<char>) -> Seq<char> {
    if target == "sql"@ {
        SQL_USER_TAIL@
    } else if target == "mongodb"@ {
        MONGODB_USER_TAIL@
    } else if target == "redis"@ {
        REDIS_USER_TAIL@
    } else {
        GENERIC_USER_TAIL@
    }
}

/// The task for `target`: the description `source`, unchanged, between a
/// lead and a closing sentence.
pub open spec fn user_prompt(source: Seq<char>, target: Seq<char>) -> Seq<char> {
    user_head(target) + source + user_tail(target)
}

/// Whatever the target, the task holds the description verbatim: it stands
/// right behind the lead.
pub proof fn lemma_user_prompt_holds_source(source: Seq<char>, target: Seq<char>)
    ensures
        occurs_at(user_prompt(source, target), source, user_head(target).len() as int),
        contains(user_prompt(source, target), source),
{
    let head = user_head(target);
    let whole = user_prompt(source, target);
    assert(whole.subrange(head.len() as int, (head.len() + source.len()) as int) =~= source);
}

/// The system instruction and the task for the description `lexi_content` and
/// the target `target`.
pub fn build_prompt(lexi_content: &str, target: &str) -> (prompts: (String, String))
    ensures
        prompts.0@ == system_prompt(target@),
        prompts.1@ == user_prompt(lexi_content@, target@),
        contains(prompts.1@, lexi_content@),
{
    proof {
        lemma_user_prompt_holds_source(lexi_content@, target@);
    }
    if same_str(target, "sql") {
        let system = String::from_str(SQL_SYSTEM);
        let mut user = String::from_str(SQL_USER_HEAD);
        user.append(lexi_content);
        user.append(SQL_USER_TAIL);
        (system, user)
    } else if same_str(target, "mongodb") {
        let system = String::from_str(MONGODB_SYSTEM);
        let mut user = String::from_str(MONGODB_USER_HEAD);
        user.append(lexi_content);
        user.append(MONGODB_USER_TAIL);
        (system, user)
    } else if same_str(target, "redis") {
        let system = String::from_str(REDIS_SYSTEM);
        let mut user = String::from_str(REDIS_USER_HEAD);
        user.append(lexi_content);
        user.append(REDIS_USER_TAIL);
        (system, user)
    } else {
        let mut system = String::from_str(GENERIC_SYSTEM_HEAD);
        system.append(target);
        system.append(GENERIC_SYSTEM_RULES);
        system.append(target);
        system.append(GENERIC_SYSTEM_TAIL);
        system.append(target);
        let mut user = String::from_str(GENERIC_USER_HEAD);
        user.append(target);
        user.append(GENERIC_USER_MIDDLE);
        user.append(lexi_content);
        user.append(GENERIC_USER_TAIL);
        (system, user)
    }
}

} // verus!
