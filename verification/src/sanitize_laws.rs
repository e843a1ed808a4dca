//! What holds of the clean-up of replies: cleaning a clean text again
//! changes nothing.

use crate::sanitize::{
    first_code_line, is_commentary, is_payload, lemma_code_is_payload, lemma_first_code_line,
    lemma_last_payload, lemma_payload_range, looks_like_code, payload_end, payload_start,
    sanitized, strip_fences,
};
use crate::text::{
    contains, is_whitespace, join_lines, lemma_join_push, lemma_line_len_bounds,
    lemma_line_len_is, lemma_trim_start_is, line_len, occurs_at, split_lines, starts_with,
    strip_return, trim, trim_end, trim_start, without,
};
use vstd::prelude::*;

verus! {

/// The text holds no fence marker: nowhere do three backticks stand in a row.
pub open spec fn fence_free(s: Seq<char>) -> bool {
    !contains(s, "```"@)
}

/// None of the lines of the trimmed text is a remark.
pub open spec fn commentary_free(s: Seq<char>) -> bool {
    let lines = split_lines(trim(s));
    forall|i: int| 0 <= i < lines.len() ==> !is_commentary(#[trigger] lines[i])
}

/// The line ends in a carriage return.
pub open spec fn ends_in_return(line: Seq<char>) -> bool {
    line.len() > 0 && line.last() == '\r'
}

/// The block that the clean-up keeps can stand alone: its first line is not
/// indented, and none of its lines but the last ends in a carriage return.
/// A block that is indented loses the indentation when it is cleaned again,
/// and a carriage return before a line feed is taken for a part of the line
/// ending then.
pub open spec fn settled(s: Seq<char>) -> bool {
    let lines = split_lines(trim(s));
    let from = payload_start(lines);
    &&& from < lines.len() ==> trim_start(lines[from]) == lines[from]
    &&& forall|i: int| from <= i < lines.len() - 1 ==> !ends_in_return(#[trigger] lines[i])
}

spec fn no_fence(s: Seq<char>) -> bool {
    forall|i: int|
        0 <= i && i + 2 < s.len() ==> !(#[trigger] s[i] == '`' && s[i + 1] == '`' && s[i + 2]
            == '`')
}

spec fn has_ink(s: Seq<char>) -> bool {
    exists|i: int| 0 <= i < s.len() && !is_whitespace(#[trigger] s[i])
}

spec fn no_line_feed(s: Seq<char>) -> bool {
    forall|j: int| 0 <= j < s.len() ==> #[trigger] s[j] != '\n'
}

proof fn lemma_fence_chars(s: Seq<char>)
    ensures
        fence_free(s) == no_fence(s),
{
    reveal_strlit("```");
    let f = "```"@;
    if contains(s, f) {
        let at = choose|at: int| occurs_at(s, f, at);
        let part = s.subrange(at, at + 3);
        assert(part[0] == s[at] && part[1] == s[at + 1] && part[2] == s[at + 2]);
        assert(s[at] == '`' && s[at + 1] == '`' && s[at + 2] == '`');
    }
    if !no_fence(s) {
        let i = choose|i: int|
            0 <= i && i + 2 < s.len() && (#[trigger] s[i] == '`' && s[i + 1] == '`' && s[i + 2]
                == '`');
        assert(s.subrange(i, i + 3) =~= f);
        assert(occurs_at(s, f, i));
    }
}

proof fn lemma_no_fence_part(s: Seq<char>, from: int, to: int)
    requires
        no_fence(s),
        0 <= from <= to <= s.len(),
    ensures
        no_fence(s.subrange(from, to)),
{
    let part = s.subrange(from, to);
    assert forall|i: int| 0 <= i && i + 2 < part.len() implies !(#[trigger] part[i] == '`'
        && part[i + 1] == '`' && part[i + 2] == '`') by {
        assert(part[i] == s[from + i]);
        assert(part[i + 1] == s[from + i + 1]);
        assert(part[i + 2] == s[from + i + 2]);
    }
}

proof fn lemma_without_absent(s: Seq<char>, pat: Seq<char>)
    requires
        !contains(s, pat),
    ensures
        without(s, pat) == s,
    decreases s.len(),
{
    if pat.len() == 0 || s.len() == 0 {
    } else {
        assert(!occurs_at(s, pat, 0));
        let rest = s.skip(1);
        if contains(rest, pat) {
            let at = choose|at: int| occurs_at(rest, pat, at);
            assert(rest.subrange(at, at + pat.len()) =~= s.subrange(at + 1, at + 1 + pat.len()));
            assert(occurs_at(s, pat, at + 1));
        }
        lemma_without_absent(rest, pat);
        assert(seq![s[0]] + rest =~= s);
    }
}

proof fn lemma_tagged_fence_absent(s: Seq<char>, tagged: Seq<char>)
    requires
        fence_free(s),
        starts_with(tagged, "```"@),
    ensures
        !contains(s, tagged),
{
    let f = "```"@;
    if contains(s, tagged) {
        let at = choose|at: int| occurs_at(s, tagged, at);
        assert(s.subrange(at, at + f.len()) =~= s.subrange(at, at + tagged.len()).subrange(
            0,
            f.len() as int,
        ));
        assert(occurs_at(s, f, at));
    }
}

proof fn lemma_strip_fence_free(s: Seq<char>)
    requires
        fence_free(s),
    ensures
        strip_fences(s) == s,
{
    reveal_strlit("```");
    reveal_strlit("```javascript");
    reveal_strlit("```python");
    reveal_strlit("```java");
    reveal_strlit("```cpp");
    reveal_strlit("```rust");
    reveal_strlit("```go");
    let f = "```"@;
    assert("```javascript"@.subrange(0, 3) =~= f);
    assert("```python"@.subrange(0, 3) =~= f);
    assert("```java"@.subrange(0, 3) =~= f);
    assert("```cpp"@.subrange(0, 3) =~= f);
    assert("```rust"@.subrange(0, 3) =~= f);
    assert("```go"@.subrange(0, 3) =~= f);
    lemma_tagged_fence_absent(s, "```javascript"@);
    lemma_tagged_fence_absent(s, "```python"@);
    lemma_tagged_fence_absent(s, "```java"@);
    lemma_tagged_fence_absent(s, "```cpp"@);
    lemma_tagged_fence_absent(s, "```rust"@);
    lemma_tagged_fence_absent(s, "```go"@);
    lemma_without_absent(s, "```javascript"@);
    lemma_without_absent(s, "```python"@);
    lemma_without_absent(s, "```java"@);
    lemma_without_absent(s, "```cpp"@);
    lemma_without_absent(s, "```rust"@);
    lemma_without_absent(s, "```go"@);
    lemma_without_absent(s, f);
}

proof fn lemma_trim_start_part(s: Seq<char>)
    ensures
        trim_start(s).len() <= s.len(),
        trim_start(s) == s.skip(s.len() - trim_start(s).len()),
        trim_start(s).len() > 0 ==> !is_whitespace(trim_start(s)[0]),
        has_ink(s) ==> has_ink(trim_start(s)),
        forall|j: int| 0 <= j < s.len() - trim_start(s).len() ==> is_whitespace(#[trigger] s[j]),
    decreases s.len(),
{
    if s.len() > 0 && is_whitespace(s[0]) {
        let rest = s.skip(1);
        lemma_trim_start_part(rest);
        assert forall|j: int| 0 <= j < s.len() - trim_start(s).len() implies is_whitespace(
            #[trigger] s[j],
        ) by {
            if j > 0 {
                assert(s[j] == rest[j - 1]);
            }
        }
        assert(rest.skip(rest.len() - trim_start(rest).len()) =~= s.skip(
            s.len() - trim_start(s).len(),
        ));
        if has_ink(s) {
            let i = choose|i: int| 0 <= i < s.len() && !is_whitespace(#[trigger] s[i]);
            assert(!is_whitespace(rest[i - 1]));
        }
    } else {
        assert(s.skip(0) =~= s);
    }
}

proof fn lemma_trim_end_part(s: Seq<char>)
    ensures
        trim_end(s).len() <= s.len(),
        trim_end(s) == s.take(trim_end(s).len() as int),
        trim_end(s).len() > 0 ==> !is_whitespace(trim_end(s).last()),
        has_ink(s) ==> has_ink(trim_end(s)),
    decreases s.len(),
{
    if s.len() > 0 && is_whitespace(s.last()) {
        let rest = s.drop_last();
        lemma_trim_end_part(rest);
        assert(rest.take(trim_end(rest).len() as int) =~= s.take(trim_end(s).len() as int));
        if has_ink(s) {
            let i = choose|i: int| 0 <= i < s.len() && !is_whitespace(#[trigger] s[i]);
            assert(!is_whitespace(rest[i]));
        }
    } else {
        assert(s.take(s.len() as int) =~= s);
    }
}

/// A trimmed text is a part of the text; it is empty, or it begins and ends
/// with a character that is no white space.
proof fn lemma_trim_facts(s: Seq<char>)
    ensures
        trim(s).len() > 0 ==> !is_whitespace(trim(s)[0]) && !is_whitespace(trim(s).last()),
        has_ink(s) ==> trim(s).len() > 0,
        no_fence(s) ==> no_fence(trim(s)),
{
    let t = trim_start(s);
    lemma_trim_start_part(s);
    lemma_trim_end_part(t);
    let b = trim(s);
    if b.len() > 0 {
        assert(b[0] == t[0]);
    }
    if has_ink(s) {
        assert(has_ink(b));
    }
    if no_fence(s) {
        lemma_no_fence_part(s, s.len() - t.len(), s.len() as int);
        assert(s.skip(s.len() - t.len()) =~= s.subrange(s.len() - t.len(), s.len() as int));
        lemma_no_fence_part(t, 0, b.len() as int);
        assert(t.take(b.len() as int) =~= t.subrange(0, b.len() as int));
    }
}

proof fn lemma_trim_fixed(s: Seq<char>)
    requires
        s.len() > 0 ==> !is_whitespace(s[0]) && !is_whitespace(s.last()),
    ensures
        trim(s) == s,
{
}

/// The lines of a text hold no line feed, and hold no fence where the text
/// holds none.
proof fn lemma_lines_facts(s: Seq<char>)
    ensures
        forall|i: int| 0 <= i < split_lines(s).len() ==> no_line_feed(#[trigger] split_lines(s)[i]),
        no_fence(s) ==> forall|i: int|
            0 <= i < split_lines(s).len() ==> no_fence(#[trigger] split_lines(s)[i]),
    decreases s.len(),
{
    let n = line_len(s);
    lemma_line_len_bounds(s);
    let lines = split_lines(s);
    if s.len() == 0 {
    } else if 0 <= n < s.len() {
        let rest = s.skip(n + 1);
        let head = strip_return(s.take(n));
        lemma_lines_facts(rest);
        assert(lines =~= seq![head] + split_lines(rest));
        assert(no_line_feed(head)) by {
            assert forall|j: int| 0 <= j < head.len() implies #[trigger] head[j] != '\n' by {
                assert(head[j] == s[j]);
            }
        }
        assert forall|i: int| 0 <= i < lines.len() implies no_line_feed(#[trigger] lines[i]) by {
            if i > 0 {
                assert(lines[i] == split_lines(rest)[i - 1]);
            }
        }
        if no_fence(s) {
            lemma_no_fence_part(s, 0, head.len() as int);
            assert(head =~= s.subrange(0, head.len() as int));
            lemma_no_fence_part(s, n + 1, s.len() as int);
            assert(rest =~= s.subrange(n + 1, s.len() as int));
            assert forall|i: int| 0 <= i < lines.len() implies no_fence(#[trigger] lines[i]) by {
                if i > 0 {
                    assert(lines[i] == split_lines(rest)[i - 1]);
                }
            }
        }
    } else {
        assert(lines =~= seq![s]);
        assert(no_line_feed(s));
    }
}

/// The first line of a text that begins with a character that is no white
/// space begins with that character.
proof fn lemma_first_line(s: Seq<char>)
    requires
        s.len() > 0,
        !is_whitespace(s[0]),
    ensures
        split_lines(s).len() > 0,
        split_lines(s)[0].len() > 0,
        split_lines(s)[0][0] == s[0],
{
    let n = line_len(s);
    lemma_line_len_bounds(s);
    if n == 0 {
        assert(s[0] == '\n');
    }
    if n < s.len() {
        let whole = s.take(n);
        assert(whole[0] == s[0]);
        if whole.len() == 1 {
            assert(whole.last() == s[0]);
        }
    }
}

/// The last line of a text that ends with a character that is no line feed
/// ends with that character.
proof fn lemma_last_line(s: Seq<char>)
    requires
        s.len() > 0,
        s.last() != '\n',
    ensures
        split_lines(s).len() > 0,
        split_lines(s).last().len() > 0,
        split_lines(s).last().last() == s.last(),
    decreases s.len(),
{
    let n = line_len(s);
    lemma_line_len_bounds(s);
    if n < s.len() {
        let rest = s.skip(n + 1);
        assert(n < s.len() - 1);
        assert(rest.last() == s.last());
        lemma_last_line(rest);
        let lines = split_lines(s);
        assert(lines =~= seq![strip_return(s.take(n))] + split_lines(rest));
        assert(lines.last() == split_lines(rest).last());
    }
}

proof fn lemma_ink_is_not_blank(line: Seq<char>, i: int)
    requires
        0 <= i < line.len(),
        !is_whitespace(line[i]),
    ensures
        trim(line).len() > 0,
{
    assert(has_ink(line));
    lemma_trim_facts(line);
}

/// Where the lines begin and end as a text would, the joined lines begin
/// with the first line's first character and end with the last line's last.
proof fn lemma_join_ends(lines: Seq<Seq<char>>)
    requires
        lines.len() > 0,
    ensures
        lines[0].len() > 0 ==> join_lines(lines).len() > 0 && join_lines(lines)[0] == lines[0][0],
        lines.last().len() > 0 ==> join_lines(lines).len() > 0 && join_lines(lines).last()
            == lines.last().last(),
    decreases lines.len(),
{
    if lines.len() > 1 {
        let rest = lines.skip(1);
        lemma_join_ends(rest);
        assert(rest.last() == lines.last());
    }
}

proof fn lemma_join_no_fence(lines: Seq<Seq<char>>)
    requires
        forall|i: int| 0 <= i < lines.len() ==> no_fence(#[trigger] lines[i]),
    ensures
        no_fence(join_lines(lines)),
    decreases lines.len(),
{
    if lines.len() == 0 {
    } else if lines.len() == 1 {
    } else {
        let rest = lines.skip(1);
        assert forall|i: int| 0 <= i < rest.len() implies no_fence(#[trigger] rest[i]) by {
            assert(rest[i] == lines[i + 1]);
        }
        lemma_join_no_fence(rest);
        let head = lines[0];
        let tail = join_lines(rest);
        let all = join_lines(lines);
        let h = head.len() as int;
        assert(all =~= head + seq!['\n'] + tail);
        assert(all[h] == '\n');
        assert forall|i: int| 0 <= i && i + 2 < all.len() implies !(#[trigger] all[i] == '`'
            && all[i + 1] == '`' && all[i + 2] == '`') by {
            if i + 2 < h {
                assert(all[i] == head[i] && all[i + 1] == head[i + 1] && all[i + 2] == head[i
                    + 2]);
            } else if i > h {
                let k = i - h - 1;
                assert(all[i] == tail[k] && all[i + 1] == tail[k + 1] && all[i + 2] == tail[k
                    + 2]);
            } else {
            }
        }
    }
}

/// Lines that were joined come apart again as they were, where each of them
/// can be a line of a text: none holds a line feed, none but the last ends
/// in a carriage return, and the last is not empty.
proof fn lemma_split_of_join(lines: Seq<Seq<char>>)
    requires
        forall|i: int| 0 <= i < lines.len() ==> no_line_feed(#[trigger] lines[i]),
        forall|i: int| 0 <= i < lines.len() - 1 ==> !ends_in_return(#[trigger] lines[i]),
        lines.len() > 0 ==> lines.last().len() > 0,
    ensures
        split_lines(join_lines(lines)) == lines,
    decreases lines.len(),
{
    if lines.len() == 0 {
    } else if lines.len() == 1 {
        let only = lines[0];
        assert(no_line_feed(only));
        lemma_line_len_is(only, only.len() as int);
        assert(split_lines(only) =~= lines);
    } else {
        let rest = lines.skip(1);
        assert forall|i: int| 0 <= i < rest.len() implies no_line_feed(#[trigger] rest[i]) by {
            assert(rest[i] == lines[i + 1]);
        }
        assert forall|i: int| 0 <= i < rest.len() - 1 implies !ends_in_return(
            #[trigger] rest[i],
        ) by {
            assert(rest[i] == lines[i + 1]);
        }
        assert(rest.last() == lines.last());
        lemma_split_of_join(rest);
        let head = lines[0];
        let tail = join_lines(rest);
        let all = join_lines(lines);
        let h = head.len() as int;
        assert(all =~= head + seq!['\n'] + tail);
        assert(no_line_feed(head));
        assert forall|j: int| 0 <= j < h implies all[j] != '\n' by {
            assert(all[j] == head[j]);
        }
        assert(all[h] == '\n');
        lemma_line_len_is(all, h);
        assert(all.take(h) =~= head);
        assert(!ends_in_return(lines[0]));
        assert(strip_return(head) == head);
        assert(all.skip(h + 1) =~= tail);
        assert(split_lines(all) =~= seq![head] + rest);
        assert(seq![head] + rest =~= lines);
    }
}

/// What the clean-up keeps of a reply without fence markers and remarks:
/// the lines of the trimmed reply from the first code line on, to the end.
proof fn lemma_kept_block(raw: Seq<char>)
    requires
        fence_free(raw),
        commentary_free(raw),
    ensures
        ({
            let lines = split_lines(trim(raw));
            let from = payload_start(lines);
            let kept = lines.subrange(from, lines.len() as int);
            &&& 0 <= from <= lines.len()
            &&& sanitized(raw) == join_lines(kept)
            &&& fence_free(sanitized(raw))
            &&& lines.len() == 0 ==> sanitized(raw).len() == 0
            &&& lines.len() > 0 ==> {
                &&& from < lines.len()
                &&& lines[from].len() > 0
                &&& from == 0 ==> !is_whitespace(lines[0][0])
                &&& lines.last().len() > 0
                &&& !is_whitespace(lines.last().last())
                &&& is_payload(lines.last())
                &&& from > 0 ==> looks_like_code(lines[from])
                &&& from == 0 ==> looks_like_code(lines[0]) || first_code_line(lines, 0)
                    == lines.len()
            }
            &&& forall|i: int| 0 <= i < lines.len() ==> no_line_feed(#[trigger] lines[i])
        }),
{
    lemma_strip_fence_free(raw);
    lemma_fence_chars(raw);
    let body = trim(raw);
    lemma_trim_facts(raw);
    let lines = split_lines(body);
    lemma_lines_facts(body);
    let from = payload_start(lines);
    lemma_first_code_line(lines, 0);
    lemma_last_payload(lines, lines.len() as int);
    let once = sanitized(raw);
    if body.len() == 0 {
        assert(lines.subrange(0, 0) =~= Seq::<Seq<char>>::empty());
        assert(once =~= Seq::<char>::empty());
        lemma_fence_chars(once);
    } else {
        lemma_first_line(body);
        assert(body.last() != '\n');
        lemma_last_line(body);
        let count = lines.len() as int;
        lemma_ink_is_not_blank(lines.last(), lines.last().len() - 1);
        assert(is_payload(lines[count - 1]));
        assert(payload_end(lines) == count);
        let kept = lines.subrange(from, count);
        assert(once == join_lines(kept));
        if from > 0 {
            lemma_code_is_payload(lines[from]);
            assert(lines[from].len() > 0) by {
                lemma_trim_start_part(lines[from]);
                lemma_trim_end_part(trim_start(lines[from]));
            }
        }
        assert forall|i: int| 0 <= i < kept.len() implies no_fence(#[trigger] kept[i]) by {
            assert(kept[i] == lines[from + i]);
        }
        lemma_join_no_fence(kept);
        lemma_fence_chars(once);
    }
}

/// Cleaning twice is cleaning once, for a reply that holds no fence marker
/// and no remark and whose kept block can stand alone.
///
/// A reply with an indented first code line behind some prose is no such
/// reply: `"So:\n  let x = 1;"` gives `"  let x = 1;"`, which gives
/// `"let x = 1;"` when it is cleaned again.
pub proof fn lemma_sanitize_idempotent(raw: Seq<char>)
    requires
        fence_free(raw),
        commentary_free(raw),
        settled(raw),
    ensures
        sanitized(sanitized(raw)) == sanitized(raw),
{
    lemma_kept_block(raw);
    let lines = split_lines(trim(raw));
    let from = payload_start(lines);
    let once = sanitized(raw);
    lemma_strip_fence_free(once);
    if lines.len() == 0 {
        assert(once =~= Seq::<char>::empty());
        assert(Seq::<Seq<char>>::empty().subrange(0, 0) =~= Seq::<Seq<char>>::empty());
    } else {
        let kept = lines.subrange(from, lines.len() as int);
        assert(kept[0] == lines[from]);
        assert(kept.last() == lines.last());
        // The block begins and ends with a character that is no white space.
        assert(!is_whitespace(kept[0][0])) by {
            lemma_trim_start_part(lines[from]);
        }
        lemma_join_ends(kept);
        lemma_trim_fixed(once);
        // Its lines are the kept lines.
        assert forall|i: int| 0 <= i < kept.len() implies no_line_feed(#[trigger] kept[i]) by {
            assert(kept[i] == lines[from + i]);
        }
        assert forall|i: int| 0 <= i < kept.len() - 1 implies !ends_in_return(
            #[trigger] kept[i],
        ) by {
            assert(kept[i] == lines[from + i]);
        }
        lemma_split_of_join(kept);
        // Of these, all are kept again.
        lemma_first_code_line(kept, 0);
        lemma_last_payload(kept, kept.len() as int);
        if looks_like_code(lines[from]) {
            assert(first_code_line(kept, 0) == 0);
        } else {
            assert(kept =~= lines);
        }
        assert(payload_start(kept) == 0);
        assert(is_payload(kept[kept.len() - 1]));
        assert(payload_end(kept) == kept.len());
        assert(kept.subrange(0, kept.len() as int) =~= kept);
    }
}

proof fn lemma_join_shrinks(lines: Seq<Seq<char>>, from: int, to: int)
    requires
        0 <= from <= to <= lines.len(),
    ensures
        join_lines(lines.subrange(from, to)).len() <= join_lines(lines).len(),
    decreases from + lines.len() - to,
{
    if from > 0 {
        let rest = lines.skip(1);
        assert(lines.subrange(from, to) =~= rest.subrange(from - 1, to - 1));
        lemma_join_shrinks(rest, from - 1, to - 1);
    } else if to < lines.len() {
        let most = lines.drop_last();
        assert(lines.subrange(0, to) =~= most.subrange(0, to));
        lemma_join_shrinks(most, 0, to);
        lemma_join_push(most, lines.last());
        assert(most.push(lines.last()) =~= lines);
    } else {
        assert(lines.subrange(0, to) =~= lines);
    }
}

/// The lines of a text, joined, are no longer than the text, and shorter
/// where a carriage return stands before a line feed.
proof fn lemma_rejoined_length(s: Seq<char>)
    ensures
        join_lines(split_lines(s)).len() <= s.len(),
        (exists|p: int| 0 <= p && p + 1 < s.len() && #[trigger] s[p] == '\r' && s[p + 1] == '\n')
            ==> join_lines(split_lines(s)).len() < s.len(),
    decreases s.len(),
{
    let n = line_len(s);
    lemma_line_len_bounds(s);
    if s.len() == 0 {
    } else if 0 <= n < s.len() {
        let rest = s.skip(n + 1);
        let head = strip_return(s.take(n));
        let lines = split_lines(s);
        lemma_rejoined_length(rest);
        assert(lines =~= seq![head] + split_lines(rest));
        assert(lines.skip(1) =~= split_lines(rest));
        if exists|p: int| 0 <= p && p + 1 < s.len() && #[trigger] s[p] == '\r' && s[p + 1] == '\n' {
            let p = choose|p: int|
                0 <= p && p + 1 < s.len() && #[trigger] s[p] == '\r' && s[p + 1] == '\n';
            if p + 1 == n {
                assert(s.take(n).last() == '\r');
            } else {
                if p + 1 < n {
                    assert(s[p + 1] != '\n');
                }
                let q = p - (n + 1);
                assert(rest[q] == s[p]);
                assert(rest[q + 1] == s[p + 1]);
                assert(0 <= q && q + 1 < rest.len() && rest[q] == '\r' && rest[q + 1] == '\n');
            }
        }
    } else {
        assert(split_lines(s) =~= seq![s]);
        if exists|p: int| 0 <= p && p + 1 < s.len() && #[trigger] s[p] == '\r' && s[p + 1] == '\n' {
            let p = choose|p: int|
                0 <= p && p + 1 < s.len() && #[trigger] s[p] == '\r' && s[p + 1] == '\n';
            assert(s[p + 1] != '\n');
        }
    }
}

/// Where a line that is not the last ends in a carriage return, the joined
/// lines hold a carriage return before a line feed.
proof fn lemma_join_holds_return(lines: Seq<Seq<char>>, i: int)
    requires
        0 <= i < lines.len() - 1,
        ends_in_return(lines[i]),
    ensures
        exists|p: int|
            0 <= p && p + 1 < join_lines(lines).len() && #[trigger] join_lines(lines)[p] == '\r'
                && join_lines(lines)[p + 1] == '\n',
    decreases lines.len(),
{
    let head = lines[0];
    let rest = lines.skip(1);
    let tail = join_lines(rest);
    let all = join_lines(lines);
    let h = head.len() as int;
    assert(all =~= head + seq!['\n'] + tail);
    if i == 0 {
        assert(all[h - 1] == '\r' && all[h] == '\n');
    } else {
        assert(rest[i - 1] == lines[i]);
        lemma_join_holds_return(rest, i - 1);
        let q = choose|q: int|
            0 <= q && q + 1 < tail.len() && #[trigger] tail[q] == '\r' && tail[q + 1] == '\n';
        let p = h + 1 + q;
        assert(all[p] == tail[q] && all[p + 1] == tail[q + 1]);
    }
}

/// Whatever is cleaned gets no longer: the code is a part of the trimmed
/// reply.
proof fn lemma_clean_is_no_longer(s: Seq<char>)
    requires
        fence_free(s),
    ensures
        sanitized(s).len() <= join_lines(split_lines(trim(s))).len(),
        join_lines(split_lines(trim(s))).len() <= trim(s).len(),
        trim(s).len() <= s.len(),
{
    lemma_strip_fence_free(s);
    let body = trim(s);
    let lines = split_lines(body);
    lemma_first_code_line(lines, 0);
    lemma_last_payload(lines, lines.len() as int);
    lemma_payload_range(lines);
    lemma_join_shrinks(lines, payload_start(lines), payload_end(lines));
    lemma_rejoined_length(body);
    lemma_trim_start_part(s);
    lemma_trim_end_part(trim_start(s));
}

/// The condition `settled` is as weak as it can be: a reply without fence
/// markers and remarks whose kept block cannot stand alone changes again
/// when it is cleaned a second time.
pub proof fn lemma_unsettled_is_not_idempotent(raw: Seq<char>)
    requires
        fence_free(raw),
        commentary_free(raw),
        !settled(raw),
    ensures
        sanitized(sanitized(raw)) != sanitized(raw),
        sanitized(sanitized(raw)).len() < sanitized(raw).len(),
{
    lemma_kept_block(raw);
    let lines = split_lines(trim(raw));
    let from = payload_start(lines);
    let once = sanitized(raw);
    let kept = lines.subrange(from, lines.len() as int);
    lemma_clean_is_no_longer(once);
    assert(lines.len() > 0);
    assert(kept[0] == lines[from]);
    if trim_start(lines[from]) != lines[from] {
        // The block is indented: trimming takes the indentation away.
        lemma_join_ends(kept);
        assert(is_whitespace(once[0]));
        lemma_trim_start_part(once.skip(1));
        lemma_trim_end_part(trim_start(once));
    } else {
        // A line ends in a carriage return that the next split takes away.
        let i = choose|i: int| from <= i < lines.len() - 1 && ends_in_return(#[trigger] lines[i]);
        assert(kept[i - from] == lines[i]);
        lemma_join_holds_return(kept, i - from);
        lemma_trim_start_part(once);
        lemma_trim_end_part(trim_start(once));
        if trim(once).len() == once.len() {
            assert(trim_start(once) =~= once);
            assert(trim(once) =~= once);
            lemma_rejoined_length(once);
        }
    }
}

/// The tags that open a block: the bare fence, and the fence with the name
/// of one of six languages.
pub open spec fn is_fence_tag(tag: Seq<char>) -> bool {
    tag == "```javascript"@ || tag == "```python"@ || tag == "```java"@ || tag == "```cpp"@ || tag
        == "```rust"@ || tag == "```go"@ || tag == "```"@
}

/// `code` as a block of Markdown: a line with the tag before it, and a line
/// with the bare fence behind it.
pub open spec fn fenced(tag: Seq<char>, code: Seq<char>) -> Seq<char> {
    tag + seq!['\n'] + code + seq!['\n'] + "```"@
}

/// `code` between two line feeds.
spec fn padded(code: Seq<char>) -> Seq<char> {
    seq!['\n'] + code + seq!['\n']
}

proof fn lemma_without_prefix(pat: Seq<char>, rest: Seq<char>)
    requires
        pat.len() > 0,
    ensures
        without(pat + rest, pat) == without(rest, pat),
{
    let all = pat + rest;
    assert(all.subrange(0, pat.len() as int) =~= pat);
    assert(all.skip(pat.len() as int) =~= rest);
}

proof fn lemma_without_suffix(head: Seq<char>, pat: Seq<char>)
    requires
        pat.len() > 0,
        forall|q: int| occurs_at(head + pat, pat, q) ==> q == head.len(),
    ensures
        without(head + pat, pat) == head,
    decreases head.len(),
{
    let all = head + pat;
    if head.len() == 0 {
        assert(all =~= pat + Seq::<char>::empty());
        lemma_without_prefix(pat, Seq::<char>::empty());
    } else {
        assert(!occurs_at(all, pat, 0));
        let less = head.skip(1);
        assert(all.skip(1) =~= less + pat);
        assert forall|q: int| occurs_at(less + pat, pat, q) implies q == less.len() by {
            assert((less + pat).subrange(q, q + pat.len()) =~= all.subrange(
                q + 1,
                q + 1 + pat.len(),
            ));
            assert(occurs_at(all, pat, q + 1));
        }
        lemma_without_suffix(less, pat);
        assert(seq![all[0]] + less =~= head);
    }
}

/// A text that begins with no tag and holds the fence only where no tag
/// fits behind it holds no tag.
proof fn lemma_tag_absent(s: Seq<char>, tag: Seq<char>)
    requires
        starts_with(tag, "```"@),
        !occurs_at(s, tag, 0),
        forall|q: int| occurs_at(s, "```"@, q) ==> q == 0 || q + tag.len() > s.len(),
    ensures
        !contains(s, tag),
{
    let f = "```"@;
    if contains(s, tag) {
        let at = choose|at: int| occurs_at(s, tag, at);
        assert(s.subrange(at, at + f.len()) =~= s.subrange(at, at + tag.len()).subrange(
            0,
            f.len() as int,
        ));
        assert(occurs_at(s, f, at));
    }
}

/// In a padded text without fences that the fence follows, the fence stands
/// at the end only.
proof fn lemma_fence_at_end_only(code: Seq<char>)
    requires
        no_fence(code),
    ensures
        forall|q: int|
            occurs_at(padded(code) + "```"@, "```"@, q) ==> q == padded(code).len(),
{
    reveal_strlit("```");
    let f = "```"@;
    let a = padded(code);
    let all = a + f;
    let n = a.len() as int;
    assert(a[0] == '\n' && a[n - 1] == '\n');
    assert forall|q: int| occurs_at(all, f, q) implies q == n by {
        let part = all.subrange(q, q + 3);
        assert(part[0] == all[q] && part[1] == all[q + 1] && part[2] == all[q + 2]);
        if q < n {
            if q + 2 < n - 1 {
                assert(q >= 1);
                assert(all[q] == code[q - 1] && all[q + 1] == code[q] && all[q + 2] == code[q
                    + 1]);
            } else {
                assert(all[n - 1] == '\n');
            }
        }
    }
}

/// In a block, the fence stands at the beginning and at the end only.
proof fn lemma_fence_in_block(tag: Seq<char>, code: Seq<char>)
    requires
        is_fence_tag(tag),
        no_fence(code),
    ensures
        forall|q: int|
            occurs_at(tag + (padded(code) + "```"@), "```"@, q) ==> q == 0 || q == tag.len()
                + padded(code).len(),
{
    reveal_strlit("```");
    reveal_strlit("```javascript");
    reveal_strlit("```python");
    reveal_strlit("```java");
    reveal_strlit("```cpp");
    reveal_strlit("```rust");
    reveal_strlit("```go");
    let f = "```"@;
    let rest = padded(code) + f;
    let all = tag + rest;
    let t = tag.len() as int;
    lemma_fence_at_end_only(code);
    assert(rest[0] == '\n');
    assert(all[t] == '\n');
    assert(forall|i: int| 3 <= i < t ==> #[trigger] tag[i] != '`');
    assert forall|q: int| occurs_at(all, f, q) implies q == 0 || q == t + padded(code).len() by {
        let part = all.subrange(q, q + 3);
        assert(part[0] == all[q] && part[1] == all[q + 1] && part[2] == all[q + 2]);
        if q >= t {
            assert(rest.subrange(q - t, q - t + 3) =~= part);
            assert(occurs_at(rest, f, q - t));
        } else if q >= 3 {
            assert(all[q] == tag[q]);
        } else if q >= 1 {
            if t > 3 {
                assert(all[3] == tag[3]);
            }
        }
    }
}

/// What is left of a block when the fences are taken out: the code between
/// two line feeds.
proof fn lemma_strip_fenced(tag: Seq<char>, code: Seq<char>)
    requires
        is_fence_tag(tag),
        fence_free(code),
    ensures
        strip_fences(fenced(tag, code)) == padded(code),
{
    reveal_strlit("```");
    reveal_strlit("```javascript");
    reveal_strlit("```python");
    reveal_strlit("```java");
    reveal_strlit("```cpp");
    reveal_strlit("```rust");
    reveal_strlit("```go");
    let f = "```"@;
    let js = "```javascript"@;
    let py = "```python"@;
    let java = "```java"@;
    let cpp = "```cpp"@;
    let rust = "```rust"@;
    let go = "```go"@;
    assert(js.subrange(0, 3) =~= f);
    assert(py.subrange(0, 3) =~= f);
    assert(java.subrange(0, 3) =~= f);
    assert(cpp.subrange(0, 3) =~= f);
    assert(rust.subrange(0, 3) =~= f);
    assert(go.subrange(0, 3) =~= f);
    lemma_fence_chars(code);
    let a = padded(code);
    let rest = a + f;
    let all = tag + rest;
    assert(all =~= fenced(tag, code));
    lemma_fence_at_end_only(code);
    lemma_fence_in_block(tag, code);
    assert(rest[0] == '\n');
    assert(all[tag.len() as int] == '\n');
    // Behind the opening tag, no tag with a name fits any more.
    assert forall|p: Seq<char>| starts_with(p, f) && p.len() > 3 implies !contains(rest, p) by {
        assert(p.subrange(0, 3)[0] == p[0]);
        if occurs_at(rest, p, 0) {
            assert(rest.subrange(0, p.len() as int)[0] == rest[0]);
        }
        lemma_tag_absent(rest, p);
    }
    // Before the opening tag is taken out, no other tag with a name stands
    // at the beginning.
    assert forall|p: Seq<char>, i: int|
        starts_with(p, f) && p.len() > 3 && 0 <= i < p.len() && i <= tag.len() && all[i]
            != p[i] implies !contains(all, p) by {
        if occurs_at(all, p, 0) {
            assert(all.subrange(0, p.len() as int)[i] == all[i]);
        }
        lemma_tag_absent(all, p);
    }
    let s1 = without(all, js);
    let s2 = without(s1, py);
    let s3 = without(s2, java);
    let s4 = without(s3, cpp);
    let s5 = without(s4, rust);
    let s6 = without(s5, go);
    if tag == js {
        lemma_without_prefix(js, rest);
        lemma_without_absent(rest, js);
        assert(s1 == rest);
    } else {
        assert(all[3] != js[3] || all[7] != js[7]) by {
            if tag.len() > 3 {
                assert(all[3] == tag[3]);
            }
            if tag.len() > 7 {
                assert(all[7] == tag[7]);
            }
        }
        if all[3] != js[3] {
            assert(!contains(all, js));
        } else {
            assert(!contains(all, js));
        }
        lemma_without_absent(all, js);
        assert(s1 == all);
    }
    if tag == py {
        lemma_without_prefix(py, rest);
        lemma_without_absent(rest, py);
        assert(s2 == rest);
    } else if s1 == all {
        assert(all[3] != py[3]) by {
            if tag.len() > 3 {
                assert(all[3] == tag[3]);
            }
        }
        assert(!contains(all, py));
        lemma_without_absent(all, py);
        assert(s2 == all);
    } else {
        lemma_without_absent(rest, py);
        assert(s2 == rest);
    }
    if tag == java {
        lemma_without_prefix(java, rest);
        lemma_without_absent(rest, java);
        assert(s3 == rest);
    } else if s2 == all {
        assert(all[3] != java[3]) by {
            if tag.len() > 3 {
                assert(all[3] == tag[3]);
            }
        }
        assert(!contains(all, java));
        lemma_without_absent(all, java);
        assert(s3 == all);
    } else {
        lemma_without_absent(rest, java);
        assert(s3 == rest);
    }
    if tag == cpp {
        lemma_without_prefix(cpp, rest);
        lemma_without_absent(rest, cpp);
        assert(s4 == rest);
    } else if s3 == all {
        assert(all[3] != cpp[3]) by {
            if tag.len() > 3 {
                assert(all[3] == tag[3]);
            }
        }
        assert(!contains(all, cpp));
        lemma_without_absent(all, cpp);
        assert(s4 == all);
    } else {
        lemma_without_absent(rest, cpp);
        assert(s4 == rest);
    }
    if tag == rust {
        lemma_without_prefix(rust, rest);
        lemma_without_absent(rest, rust);
        assert(s5 == rest);
    } else if s4 == all {
        assert(all[3] != rust[3]) by {
            if tag.len() > 3 {
                assert(all[3] == tag[3]);
            }
        }
        assert(!contains(all, rust));
        lemma_without_absent(all, rust);
        assert(s5 == all);
    } else {
        lemma_without_absent(rest, rust);
        assert(s5 == rest);
    }
    if tag == go {
        lemma_without_prefix(go, rest);
        lemma_without_absent(rest, go);
        assert(s6 == rest);
    } else if s5 == all {
        assert(all[3] != go[3]) by {
            if tag.len() > 3 {
                assert(all[3] == tag[3]);
            }
        }
        assert(!contains(all, go));
        lemma_without_absent(all, go);
        assert(s6 == all);
    } else {
        lemma_without_absent(rest, go);
        assert(s6 == rest);
    }
    lemma_without_suffix(a, f);
    if s6 == all {
        assert(tag == f);
        lemma_without_prefix(f, rest);
    }
}

/// Line feeds around a text do not show in the trimmed text.
proof fn lemma_trim_padded(s: Seq<char>)
    ensures
        trim(padded(s)) == trim(s),
{
    let wide = padded(s);
    let inner = trim_start(s);
    let k = s.len() - inner.len();
    lemma_trim_start_part(s);
    assert(wide[0] == '\n');
    assert(wide.skip(1) =~= s + seq!['\n']);
    if k == s.len() {
        assert forall|j: int| 0 <= j < wide.len() implies is_whitespace(wide[j]) by {
            if 0 < j < wide.len() - 1 {
                assert(wide[j] == s[j - 1]);
            }
        }
        lemma_trim_start_is(wide, wide.len() as int);
        assert(wide.skip(wide.len() as int) =~= Seq::<char>::empty());
        assert(inner =~= Seq::<char>::empty());
    } else {
        assert forall|j: int| 0 <= j < k + 1 implies is_whitespace(wide[j]) by {
            if j > 0 {
                assert(wide[j] == s[j - 1]);
            }
        }
        assert(wide[k + 1] == s[k]);
        assert(inner[0] == s[k]);
        lemma_trim_start_is(wide, k + 1);
        let outer = trim_start(wide);
        assert(outer =~= inner + seq!['\n']);
        assert(outer.drop_last() =~= inner);
    }
}

/// A block of Markdown is cleaned as the code in it is: the fences and the
/// tag leave no trace.
pub proof fn lemma_fenced_code_is_unwrapped(tag: Seq<char>, code: Seq<char>)
    requires
        is_fence_tag(tag),
        fence_free(code),
    ensures
        sanitized(fenced(tag, code)) == sanitized(code),
{
    lemma_strip_fenced(tag, code);
    lemma_strip_fence_free(code);
    lemma_trim_padded(code);
}

/// The lines of a text without carriage returns, joined, are the text,
/// unless the text ends in a line feed.
proof fn lemma_join_of_split(s: Seq<char>)
    requires
        forall|i: int| 0 <= i < s.len() ==> #[trigger] s[i] != '\r',
        s.len() > 0 ==> s.last() != '\n',
    ensures
        join_lines(split_lines(s)) == s,
        s.len() > 0 ==> split_lines(s).len() > 0,
    decreases s.len(),
{
    let n = line_len(s);
    lemma_line_len_bounds(s);
    if s.len() == 0 {
    } else if 0 <= n < s.len() {
        let rest = s.skip(n + 1);
        let head = s.take(n);
        assert(n < s.len() - 1);
        assert(rest.last() == s.last());
        assert forall|i: int| 0 <= i < rest.len() implies #[trigger] rest[i] != '\r' by {
            assert(rest[i] == s[n + 1 + i]);
        }
        lemma_join_of_split(rest);
        if head.len() > 0 {
            assert(head.last() == s[n - 1]);
        }
        assert(strip_return(head) == head);
        let lines = split_lines(s);
        assert(lines =~= seq![head] + split_lines(rest));
        assert(lines.skip(1) =~= split_lines(rest));
        assert(join_lines(lines) =~= head + seq!['\n'] + rest);
        assert(head + seq!['\n'] + rest =~= s);
    } else {
        assert(split_lines(s) =~= seq![s]);
    }
}

/// Clean code is kept as it is: code without fence markers, remarks,
/// carriage returns and surrounding white space, whose first line looks
/// like code unless none of its lines does.
pub proof fn lemma_clean_code_is_kept(code: Seq<char>)
    requires
        fence_free(code),
        commentary_free(code),
        trim(code) == code,
        forall|i: int| 0 <= i < code.len() ==> #[trigger] code[i] != '\r',
        payload_start(split_lines(code)) == 0,
    ensures
        sanitized(code) == code,
{
    lemma_kept_block(code);
    lemma_trim_facts(code);
    lemma_join_of_split(code);
    let lines = split_lines(code);
    assert(lines.subrange(0, lines.len() as int) =~= lines);
}

} // verus!
