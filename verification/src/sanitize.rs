//! Clean-up of a provider's reply: Markdown fences go, and so do the prose
//! that precedes the code and the remarks that follow it.

use crate::text::{
    begins_with, chars_of, join_lines, join_range, lines, remove_all, split_lines, starts_with,
    string_of, trim, trimmed, views, without,
};
use vstd::prelude::*;

verus! {

/// `s` without the Markdown fence markers, tagged ones first.
pub open spec fn strip_fences(s: Seq<char>) -> Seq<char> {
    let s1 = without(s, "```javascript"@);
    let s2 = without(s1, "```python"@);
    let s3 = without(s2, "```java"@);
    let s4 = without(s3, "```cpp"@);
    let s5 = without(s4, "```rust"@);
    let s6 = without(s5, "```go"@);
    without(s6, "```"@)
}

/// A line that opens a definition, an import or a binding in one of the
/// usual target languages.
pub open spec fn looks_like_code(line: Seq<char>) -> bool {
    let t = trim(line);
    starts_with(t, "function "@) || starts_with(t, "def "@) || starts_with(t, "class "@)
        || starts_with(t, "import "@) || starts_with(t, "const "@) || starts_with(t, "let "@)
        || starts_with(t, "var "@) || starts_with(t, "#include"@)
}

/// A remark of the model about its own answer.
pub open spec fn is_commentary(line: Seq<char>) -> bool {
    let t = trim(line);
    starts_with(t, "Note:"@) || starts_with(t, "Example:"@)
}

/// A line that is neither blank nor a remark.
pub open spec fn is_payload(line: Seq<char>) -> bool {
    trim(line).len() > 0 && !is_commentary(line)
}

/// The index of the first line at or after `from` that looks like code, or
/// the number of lines where there is none.
pub open spec fn first_code_line(lines: Seq<Seq<char>>, from: int) -> int
    decreases lines.len() - from,
{
    if from >= lines.len() {
        lines.len() as int
    } else if looks_like_code(lines[from]) {
        from
    } else {
        first_code_line(lines, from + 1)
    }
}

/// One more than the index of the last payload line below `upto`, or 0 where
/// there is none.
pub open spec fn last_payload(lines: Seq<Seq<char>>, upto: int) -> int
    decreases upto,
{
    if upto <= 0 {
        0
    } else if is_payload(lines[upto - 1]) {
        upto
    } else {
        last_payload(lines, upto - 1)
    }
}

/// Where the kept block begins: at the first line that looks like code, or at
/// the first line of all where none does.
pub open spec fn payload_start(lines: Seq<Seq<char>>) -> int {
    let i = first_code_line(lines, 0);
    if i < lines.len() {
        i
    } else {
        0
    }
}

/// Where the kept block ends: behind the last payload line, or behind the
/// last line of all where none is payload.
pub open spec fn payload_end(lines: Seq<Seq<char>>) -> int {
    let e = last_payload(lines, lines.len() as int);
    if e > 0 {
        e
    } else {
        lines.len() as int
    }
}

/// The code in a reply: fences taken out, the text trimmed, and of its lines
/// those from the first that looks like code to the last that is payload.
pub open spec fn sanitized(raw: Seq<char>) -> Seq<char> {
    let lines = split_lines(trim(strip_fences(raw)));
    join_lines(lines.subrange(payload_start(lines), payload_end(lines)))
}

/// A line that looks like code is payload.
pub proof fn lemma_code_is_payload(line: Seq<char>)
    requires
        looks_like_code(line),
    ensures
        is_payload(line),
{
    reveal_strlit("function ");
    reveal_strlit("def ");
    reveal_strlit("class ");
    reveal_strlit("import ");
    reveal_strlit("const ");
    reveal_strlit("let ");
    reveal_strlit("var ");
    reveal_strlit("#include");
    reveal_strlit("Note:");
    reveal_strlit("Example:");
    let t = trim(line);
    assert(t.len() > 0);
    let c = t[0];
    assert(c == 'f' || c == 'd' || c == 'c' || c == 'i' || c == 'l' || c == 'v' || c == '#') by {
        lemma_first_char(t, "function "@);
        lemma_first_char(t, "def "@);
        lemma_first_char(t, "class "@);
        lemma_first_char(t, "import "@);
        lemma_first_char(t, "const "@);
        lemma_first_char(t, "let "@);
        lemma_first_char(t, "var "@);
        lemma_first_char(t, "#include"@);
    }
    lemma_first_char(t, "Note:"@);
    lemma_first_char(t, "Example:"@);
}

/// A text that begins with a non-empty pattern begins with the pattern's
/// first character.
pub proof fn lemma_first_char(s: Seq<char>, pat: Seq<char>)
    requires
        pat.len() > 0,
    ensures
        starts_with(s, pat) ==> s.len() > 0 && s[0] == pat[0],
{
    if starts_with(s, pat) {
        assert(s.subrange(0, pat.len() as int)[0] == s[0]);
    }
}

/// The search for the first code line finds the first one.
pub proof fn lemma_first_code_line(lines: Seq<Seq<char>>, from: int)
    requires
        0 <= from,
    ensures
        from <= first_code_line(lines, from) || first_code_line(lines, from) == lines.len(),
        first_code_line(lines, from) <= lines.len(),
        first_code_line(lines, from) < lines.len() ==> looks_like_code(
            lines[first_code_line(lines, from)],
        ),
        forall|j: int| from <= j < first_code_line(lines, from) ==> !looks_like_code(lines[j]),
    decreases lines.len() - from,
{
    if from < lines.len() && !looks_like_code(lines[from]) {
        lemma_first_code_line(lines, from + 1);
    }
}

/// The search for the last payload line finds the last one.
pub proof fn lemma_last_payload(lines: Seq<Seq<char>>, upto: int)
    requires
        upto <= lines.len(),
    ensures
        0 <= last_payload(lines, upto),
        last_payload(lines, upto) <= upto || upto < 0,
        last_payload(lines, upto) > 0 ==> is_payload(lines[last_payload(lines, upto) - 1]),
        forall|j: int| last_payload(lines, upto) <= j < upto && 0 <= j ==> !is_payload(lines[j]),
    decreases upto,
{
    if upto > 0 && !is_payload(lines[upto - 1]) {
        lemma_last_payload(lines, upto - 1);
    }
}

/// The kept block is a range of the lines: it never ends before it begins.
pub proof fn lemma_payload_range(lines: Seq<Seq<char>>)
    ensures
        0 <= payload_start(lines) <= payload_end(lines) <= lines.len(),
{
    lemma_first_code_line(lines, 0);
    lemma_last_payload(lines, lines.len() as int);
    let a = payload_start(lines);
    if a > 0 {
        lemma_code_is_payload(lines[a]);
    }
}

fn line_looks_like_code(line: &[char]) -> (r: bool)
    ensures
        r == looks_like_code(line@),
{
    let t = trimmed(line);
    begins_with(t.as_slice(), chars_of("function ").as_slice()) || begins_with(
        t.as_slice(),
        chars_of("def ").as_slice(),
    ) || begins_with(t.as_slice(), chars_of("class ").as_slice()) || begins_with(
        t.as_slice(),
        chars_of("import ").as_slice(),
    ) || begins_with(t.as_slice(), chars_of("const ").as_slice()) || begins_with(
        t.as_slice(),
        chars_of("let ").as_slice(),
    ) || begins_with(t.as_slice(), chars_of("var ").as_slice()) || begins_with(
        t.as_slice(),
        chars_of("#include").as_slice(),
    )
}

fn line_is_payload(line: &[char]) -> (r: bool)
    ensures
        r == is_payload(line@),
{
    let t = trimmed(line);
    t.len() > 0 && !begins_with(t.as_slice(), chars_of("Note:").as_slice()) && !begins_with(
        t.as_slice(),
        chars_of("Example:").as_slice(),
    )
}

fn strip_all_fences(raw: &[char]) -> (r: Vec<char>)
    ensures
        r@ == strip_fences(raw@),
{
    let s1 = remove_all(raw, chars_of("```javascript").as_slice());
    let s2 = remove_all(s1.as_slice(), chars_of("```python").as_slice());
    let s3 = remove_all(s2.as_slice(), chars_of("```java").as_slice());
    let s4 = remove_all(s3.as_slice(), chars_of("```cpp").as_slice());
    let s5 = remove_all(s4.as_slice(), chars_of("```rust").as_slice());
    let s6 = remove_all(s5.as_slice(), chars_of("```go").as_slice());
    remove_all(s6.as_slice(), chars_of("```").as_slice())
}

/// The code in the reply `raw`.
pub fn sanitize(raw: &str) -> (code: String)
    ensures
        code@ == sanitized(raw@),
{
    let stripped = strip_all_fences(chars_of(raw).as_slice());
    let body = trimmed(stripped.as_slice());
    let ls = lines(body.as_slice());
    let ghost all = views(ls@);
    let mut i: usize = 0;
    while i < ls.len() && !line_looks_like_code(ls[i].as_slice())
        invariant
            i <= ls.len(),
            all == views(ls@),
            first_code_line(all, 0) == first_code_line(all, i as int),
        decreases ls.len() - i,
    {
        assert(all[i as int] == ls@[i as int]@);
        i += 1;
    }
    assert(i < ls.len() ==> all[i as int] == ls@[i as int]@);
    let start: usize = if i < ls.len() {
        i
    } else {
        0
    };
    let mut e: usize = ls.len();
    while e > 0 && !line_is_payload(ls[e - 1].as_slice())
        invariant
            e <= ls.len(),
            all == views(ls@),
            last_payload(all, ls.len() as int) == last_payload(all, e as int),
        decreases e,
    {
        assert(all[e - 1] == ls@[e - 1]@);
        e -= 1;
    }
    assert(e > 0 ==> all[e - 1] == ls@[e - 1]@);
    let end: usize = if e > 0 {
        e
    } else {
        ls.len()
    };
    proof {
        lemma_payload_range(all);
    }
    let kept = join_range(&ls, start, end);
    string_of(kept.as_slice())
}

} // verus!
