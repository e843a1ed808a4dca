//! Character sequences: search, trimming, line splitting and joining.
//!
//! Every function here is stated over `Seq<char>`, the view of `str`, `String`
//! and `[char]`.

use vstd::prelude::*;

verus! {

/// `pat` stands in `s` at index `at`.
pub open spec fn occurs_at(s: Seq<char>, pat: Seq<char>, at: int) -> bool {
    0 <= at && at + pat.len() <= s.len() && s.subrange(at, at + pat.len()) == pat
}

/// `s` begins with `pat`.
pub open spec fn starts_with(s: Seq<char>, pat: Seq<char>) -> bool {
    occurs_at(s, pat, 0)
}

/// `s` ends with `pat`.
pub open spec fn ends_with(s: Seq<char>, pat: Seq<char>) -> bool {
    occurs_at(s, pat, s.len() - pat.len())
}

/// `pat` stands somewhere in `s`.
pub open spec fn contains(s: Seq<char>, pat: Seq<char>) -> bool {
    exists|at: int| occurs_at(s, pat, at)
}

/// `s` with every occurrence of a non-empty `pat` taken out, found from left
/// to right without overlap.
pub open spec fn without(s: Seq<char>, pat: Seq<char>) -> Seq<char>
    decreases s.len(),
{
    if pat.len() == 0 || s.len() == 0 {
        s
    } else if starts_with(s, pat) {
        without(s.skip(pat.len() as int), pat)
    } else {
        seq![s[0]] + without(s.skip(1), pat)
    }
}

/// The characters with the Unicode property `White_Space`.
pub open spec fn is_whitespace(c: char) -> bool {
    let n = c as u32;
    (0x09 <= n && n <= 0x0D) || n == 0x20 || n == 0x85 || n == 0xA0 || n == 0x1680 || (0x2000 <= n
        && n <= 0x200A) || n == 0x2028 || n == 0x2029 || n == 0x202F || n == 0x205F || n == 0x3000
}

/// `s` without its leading white space.
pub open spec fn trim_start(s: Seq<char>) -> Seq<char>
    decreases s.len(),
{
    if s.len() > 0 && is_whitespace(s[0]) {
        trim_start(s.skip(1))
    } else {
        s
    }
}

/// `s` without its trailing white space.
pub open spec fn trim_end(s: Seq<char>) -> Seq<char>
    decreases s.len(),
{
    if s.len() > 0 && is_whitespace(s.last()) {
        trim_end(s.drop_last())
    } else {
        s
    }
}

/// `s` without leading and trailing white space.
pub open spec fn trim(s: Seq<char>) -> Seq<char> {
    trim_end(trim_start(s))
}

/// The number of characters before the first line feed of `s`, or the length
/// of `s` where it has none.
pub open spec fn line_len(s: Seq<char>) -> int
    decreases s.len(),
{
    if s.len() == 0 || s[0] == '\n' {
        0
    } else {
        1 + line_len(s.skip(1))
    }
}

/// A line that a line feed ended, without the carriage return that may stand
/// before the line feed.
pub open spec fn strip_return(line: Seq<char>) -> Seq<char> {
    if line.len() > 0 && line.last() == '\r' {
        line.drop_last()
    } else {
        line
    }
}

/// The lines of `s`. A line ends at a line feed, or at a carriage return
/// followed by a line feed; neither belongs to the line. The last line needs
/// no ending, and an empty text has no line.
pub open spec fn split_lines(s: Seq<char>) -> Seq<Seq<char>>
    decreases s.len(),
{
    let n = line_len(s);
    if s.len() == 0 {
        Seq::empty()
    } else if 0 <= n < s.len() {
        seq![strip_return(s.take(n))] + split_lines(s.skip(n + 1))
    } else {
        seq![s]
    }
}

/// The lines put together again, with one line feed between neighbours.
pub open spec fn join_lines(lines: Seq<Seq<char>>) -> Seq<char>
    decreases lines.len(),
{
    if lines.len() == 0 {
        Seq::empty()
    } else if lines.len() == 1 {
        lines[0]
    } else {
        lines[0] + seq!['\n'] + join_lines(lines.skip(1))
    }
}

/// The views of a vector of texts.
pub open spec fn views(texts: Seq<Vec<char>>) -> Seq<Seq<char>> {
    Seq::new(texts.len(), |i: int| texts[i]@)
}

/// No line feed stands before the place that `line_len` gives, and one
/// stands at it unless it is the end of the text.
pub proof fn lemma_line_len_bounds(s: Seq<char>)
    ensures
        0 <= line_len(s) <= s.len(),
        forall|j: int| 0 <= j < line_len(s) ==> s[j] != '\n',
        line_len(s) < s.len() ==> s[line_len(s)] == '\n',
    decreases s.len(),
{
    if s.len() == 0 || s[0] == '\n' {
    } else {
        lemma_line_len_bounds(s.skip(1));
        assert forall|j: int| 0 <= j < line_len(s) implies s[j] != '\n' by {
            if j > 0 {
                assert(s.skip(1)[j - 1] == s[j]);
            }
        }
    }
}

/// The first line feed of `s` is where `line_len` says.
pub proof fn lemma_line_len_is(s: Seq<char>, k: int)
    requires
        0 <= k <= s.len(),
        forall|j: int| 0 <= j < k ==> s[j] != '\n',
        k < s.len() ==> s[k] == '\n',
    ensures
        line_len(s) == k,
{
    lemma_line_len_bounds(s);
    let n = line_len(s);
    if n < k {
        assert(s[n] == '\n');
    } else if k < n {
        assert(s[k] != '\n');
    }
}

/// The characters of `s`, in order.
pub fn chars_of(s: &str) -> (chars: Vec<char>)
    ensures
        chars@ == s@,
{
    let mut chars: Vec<char> = Vec::new();
    for c in it: s.chars()
        invariant
            chars@ == it.seq().take(it.index()),
            it.seq() == s@,
    {
        chars.push(c);
    }
    chars
}

/// `String::from_iter` over the characters of a slice: the string that holds
/// exactly these characters, in this order.
#[verifier::external_body]
pub(crate) fn string_of(chars: &[char]) -> (s: String)
    ensures
        s@ == chars@,
{
    String::from_iter(chars.iter())
}

/// A copy of the characters of `s` from `from` up to `to`.
pub fn copy_range(s: &[char], from: usize, to: usize) -> (part: Vec<char>)
    requires
        from <= to <= s.len(),
    ensures
        part@ == s@.subrange(from as int, to as int),
{
    let mut part: Vec<char> = Vec::new();
    let mut i: usize = from;
    while i < to
        invariant
            from <= i <= to <= s.len(),
            part@ == s@.subrange(from as int, i as int),
        decreases to - i,
    {
        part.push(s[i]);
        i += 1;
    }
    part
}

/// Whether two texts hold the same characters.
pub fn same(a: &[char], b: &[char]) -> (r: bool)
    ensures
        r == (a@ == b@),
{
    if a.len() != b.len() {
        return false;
    }
    let mut i: usize = 0;
    while i < a.len()
        invariant
            i <= a.len(),
            a.len() == b.len(),
            forall|j: int| 0 <= j < i ==> a@[j] == b@[j],
        decreases a.len() - i,
    {
        if a[i] != b[i] {
            return false;
        }
        i += 1;
    }
    assert(a@ =~= b@);
    true
}

/// Whether two strings hold the same characters.
pub fn same_str(a: &str, b: &str) -> (r: bool)
    ensures
        r == (a@ == b@),
{
    same(chars_of(a).as_slice(), chars_of(b).as_slice())
}

/// Whether `pat` stands in `s` at index `at`.
pub fn found_at(s: &[char], pat: &[char], at: usize) -> (r: bool)
    ensures
        r == occurs_at(s@, pat@, at as int),
{
    if pat.len() > s.len() || at > s.len() - pat.len() {
        return false;
    }
    let mut k: usize = 0;
    while k < pat.len()
        invariant
            k <= pat.len(),
            at + pat.len() <= s.len(),
            forall|j: int| 0 <= j < k ==> s@[at + j] == pat@[j],
        decreases pat.len() - k,
    {
        if s[at + k] != pat[k] {
            assert(s@.subrange(at as int, at + pat.len())[k as int] == s@[at + k]);
            return false;
        }
        k += 1;
    }
    assert(s@.subrange(at as int, at + pat.len()) =~= pat@);
    true
}

/// Whether `s` begins with `pat`.
pub fn begins_with(s: &[char], pat: &[char]) -> (r: bool)
    ensures
        r == starts_with(s@, pat@),
{
    found_at(s, pat, 0)
}

/// Whether `s` ends with `pat`.
pub fn finishes_with(s: &[char], pat: &[char]) -> (r: bool)
    ensures
        r == ends_with(s@, pat@),
{
    if pat.len() > s.len() {
        return false;
    }
    found_at(s, pat, s.len() - pat.len())
}

/// Whether the string `s` ends with `pat`.
pub fn str_ends_with(s: &str, pat: &str) -> (r: bool)
    ensures
        r == ends_with(s@, pat@),
{
    finishes_with(chars_of(s).as_slice(), chars_of(pat).as_slice())
}

/// Whether the string `s` holds nothing but white space.
pub fn is_blank(s: &str) -> (r: bool)
    ensures
        r == (trim(s@).len() == 0),
{
    trimmed(chars_of(s).as_slice()).len() == 0
}

/// `s` with every occurrence of `pat` taken out.
pub fn remove_all(s: &[char], pat: &[char]) -> (r: Vec<char>)
    ensures
        r@ == without(s@, pat@),
{
    if pat.len() == 0 {
        let whole = copy_range(s, 0, s.len());
        assert(s@.subrange(0, s@.len() as int) =~= s@);
        return whole;
    }
    let mut out: Vec<char> = Vec::new();
    let mut i: usize = 0;
    proof {
        assert(s@.skip(0) =~= s@);
        assert(out@ + without(s@, pat@) =~= without(s@, pat@));
    }
    while i < s.len()
        invariant
            i <= s.len(),
            pat.len() > 0,
            out@ + without(s@.skip(i as int), pat@) == without(s@, pat@),
        decreases s.len() - i,
    {
        let ghost rest = s@.skip(i as int);
        if found_at(s, pat, i) {
            proof {
                assert(rest.subrange(0, pat@.len() as int) =~= s@.subrange(
                    i as int,
                    i + pat@.len(),
                ));
                assert(rest.skip(pat@.len() as int) =~= s@.skip(i + pat@.len()));
            }
            i += pat.len();
        } else {
            proof {
                if pat@.len() <= rest.len() {
                    assert(rest.subrange(0, pat@.len() as int) =~= s@.subrange(
                        i as int,
                        i + pat@.len(),
                    ));
                }
                assert(rest.skip(1) =~= s@.skip(i + 1));
                assert(rest[0] == s@[i as int]);
                assert(out@.push(s@[i as int]) + without(s@.skip(i + 1), pat@) =~= out@ + (
                seq![rest[0]] + without(rest.skip(1), pat@)));
            }
            out.push(s[i]);
            i += 1;
        }
    }
    assert(out@ + Seq::<char>::empty() =~= out@);
    out
}

/// Whether `c` has the Unicode property `White_Space`.
pub fn is_space(c: char) -> (r: bool)
    ensures
        r == is_whitespace(c),
{
    let n: u32 = c as u32;
    (0x09 <= n && n <= 0x0D) || n == 0x20 || n == 0x85 || n == 0xA0 || n == 0x1680 || (0x2000 <= n
        && n <= 0x200A) || n == 0x2028 || n == 0x2029 || n == 0x202F || n == 0x205F || n == 0x3000
}

/// Dropping leading white space leaves what follows the first character that
/// is none.
pub proof fn lemma_trim_start_is(s: Seq<char>, k: int)
    requires
        0 <= k <= s.len(),
        forall|j: int| 0 <= j < k ==> is_whitespace(s[j]),
        k < s.len() ==> !is_whitespace(s[k]),
    ensures
        trim_start(s) == s.skip(k),
    decreases k,
{
    if k == 0 {
        assert(s.skip(0) =~= s);
    } else {
        let rest = s.skip(1);
        assert forall|j: int| 0 <= j < k - 1 implies is_whitespace(rest[j]) by {
            assert(rest[j] == s[j + 1]);
        }
        lemma_trim_start_is(rest, k - 1);
        assert(rest.skip(k - 1) =~= s.skip(k));
    }
}

/// Dropping trailing white space leaves what precedes the last character that
/// is none.
pub proof fn lemma_trim_end_is(s: Seq<char>, k: int)
    requires
        0 <= k <= s.len(),
        forall|j: int| k <= j < s.len() ==> is_whitespace(s[j]),
        k > 0 ==> !is_whitespace(s[k - 1]),
    ensures
        trim_end(s) == s.take(k),
    decreases s.len() - k,
{
    if k == s.len() {
        assert(s.take(k) =~= s);
    } else {
        let rest = s.drop_last();
        lemma_trim_end_is(rest, k);
        assert(rest.take(k) =~= s.take(k));
    }
}

/// `s` without leading and trailing white space.
pub fn trimmed(s: &[char]) -> (r: Vec<char>)
    ensures
        r@ == trim(s@),
{
    let mut from: usize = 0;
    while from < s.len() && is_space(s[from])
        invariant
            from <= s.len(),
            forall|j: int| 0 <= j < from ==> is_whitespace(s@[j]),
        decreases s.len() - from,
    {
        from += 1;
    }
    let mut to: usize = s.len();
    while to > from && is_space(s[to - 1])
        invariant
            from <= to <= s.len(),
            forall|j: int| to <= j < s.len() ==> is_whitespace(s@[j]),
        decreases to,
    {
        to -= 1;
    }
    proof {
        lemma_trim_start_is(s@, from as int);
        let tail = s@.skip(from as int);
        lemma_trim_end_is(tail, to - from);
        assert(tail.take(to - from) =~= s@.subrange(from as int, to as int));
    }
    copy_range(s, from, to)
}

/// The lines of `s`.
pub fn lines(s: &[char]) -> (r: Vec<Vec<char>>)
    ensures
        views(r@) == split_lines(s@),
{
    let mut out: Vec<Vec<char>> = Vec::new();
    let mut pos: usize = 0;
    proof {
        assert(s@.skip(0) =~= s@);
        assert(views(out@) + split_lines(s@.skip(0)) =~= split_lines(s@));
    }
    while pos < s.len()
        invariant
            pos <= s.len(),
            views(out@) + split_lines(s@.skip(pos as int)) == split_lines(s@),
        decreases s.len() - pos,
    {
        let ghost rest = s@.skip(pos as int);
        let mut end: usize = pos;
        while end < s.len() && s[end] != '\n'
            invariant
                pos <= end <= s.len(),
                forall|j: int| pos <= j < end ==> s@[j] != '\n',
            decreases s.len() - end,
        {
            end += 1;
        }
        proof {
            lemma_line_len_is(rest, end - pos);
        }
        let ghost before = views(out@);
        if end == s.len() {
            let line = copy_range(s, pos, end);
            out.push(line);
            proof {
                assert(s@.subrange(pos as int, end as int) =~= rest);
                assert(rest.skip(rest.len() as int) =~= Seq::<char>::empty());
                assert(views(out@) =~= before + seq![rest]);
                assert(s@.skip(end as int) =~= Seq::<char>::empty());
                assert(views(out@) + split_lines(s@.skip(end as int)) =~= before + split_lines(
                    rest,
                ));
            }
            pos = end;
        } else {
            let stop: usize = if end > pos && s[end - 1] == '\r' {
                end - 1
            } else {
                end
            };
            let line = copy_range(s, pos, stop);
            out.push(line);
            proof {
                let whole = rest.take(end - pos);
                assert(whole =~= s@.subrange(pos as int, end as int));
                assert(strip_return(whole) =~= s@.subrange(pos as int, stop as int));
                assert(rest.skip(end - pos + 1) =~= s@.skip(end + 1));
                assert(views(out@) =~= before + seq![strip_return(whole)]);
                assert(views(out@) + split_lines(s@.skip(end + 1)) =~= before + split_lines(
                    rest,
                ));
            }
            pos = end + 1;
        }
    }
    assert(views(out@) + Seq::<Seq<char>>::empty() =~= views(out@));
    out
}

/// One more line at the end is joined to the others by a line feed.
pub proof fn lemma_join_push(lines: Seq<Seq<char>>, line: Seq<char>)
    ensures
        join_lines(lines.push(line)) == if lines.len() == 0 {
            line
        } else {
            join_lines(lines) + seq!['\n'] + line
        },
    decreases lines.len(),
{
    let all = lines.push(line);
    if lines.len() == 0 {
    } else {
        assert(all.skip(1) =~= lines.skip(1).push(line));
        lemma_join_push(lines.skip(1), line);
        assert(join_lines(all) =~= join_lines(lines) + seq!['\n'] + line);
    }
}

/// The lines from `from` up to `to`, put together with line feeds between
/// them.
pub fn join_range(lines: &Vec<Vec<char>>, from: usize, to: usize) -> (r: Vec<char>)
    requires
        from <= to <= lines.len(),
    ensures
        r@ == join_lines(views(lines@).subrange(from as int, to as int)),
{
    let mut out: Vec<char> = Vec::new();
    let mut i: usize = from;
    proof {
        assert(views(lines@).subrange(from as int, from as int) =~= Seq::<Seq<char>>::empty());
    }
    while i < to
        invariant
            from <= i <= to <= lines.len(),
            out@ == join_lines(views(lines@).subrange(from as int, i as int)),
        decreases to - i,
    {
        let ghost done = views(lines@).subrange(from as int, i as int);
        let ghost start = out@;
        if i > from {
            out.push('\n');
        }
        let line = &lines[i];
        let mut k: usize = 0;
        while k < line.len()
            invariant
                k <= line.len(),
                out@ == (if i > from {
                    start.push('\n')
                } else {
                    start
                }) + line@.take(k as int),
            decreases line.len() - k,
        {
            out.push(line[k]);
            proof {
                assert(line@.take(k + 1) =~= line@.take(k as int).push(line@[k as int]));
            }
            k += 1;
        }
        proof {
            assert(line@.take(line@.len() as int) =~= line@);
            lemma_join_push(done, line@);
            assert(views(lines@).subrange(from as int, i + 1) =~= done.push(line@));
            if i > from {
                assert(start.push('\n') + line@ =~= start + seq!['\n'] + line@);
            } else {
                assert(start =~= Seq::<char>::empty());
                assert(start + line@ =~= line@);
            }
        }
        i += 1;
    }
    out
}

} // verus!
