//! Strings as sequences of characters: conversions, substrings, words, lines.
//!
//! The contracts here speak of a string through its view, a `Seq<char>`.
//! Two facts about characters come from the standard library's Unicode
//! tables and are taken on trust under a name: which characters are white
//! space, and what the lowercase form of a string is.

use vstd::prelude::*;
use vstd::string::StrSliceExecFns;

verus! {

broadcast use vstd::string::group_string_axioms;

/// Whether `c` has the Unicode property `White_Space`, as `char::is_whitespace`
/// tells it.
pub uninterp spec fn is_whitespace(c: char) -> bool;

/// `char::is_whitespace` is taken to be a function of the character alone.
pub assume_specification[ char::is_whitespace ](c: char) -> (white: bool)
    ensures
        white == is_whitespace(c),
;

/// The lowercase form of a string, as `str::to_lowercase` computes it.
pub uninterp spec fn lowercase(s: Seq<char>) -> Seq<char>;

/// `str::to_lowercase` is taken to be a function of the string's characters
/// alone.
pub assume_specification[ str::to_lowercase ](s: &str) -> (lowered: String)
    ensures
        lowered@ == lowercase(s@),
;

/// `String::push` appends the one character `c`.
pub assume_specification[ String::push ](s: &mut String, c: char)
    ensures
        final(s)@ == old(s)@.push(c),
;

/// `String::push_str` appends the characters of `tail`.
pub assume_specification[ String::push_str ](s: &mut String, tail: &str)
    ensures
        final(s)@ == old(s)@ + tail@,
;

/// The length of a string in bytes, which is that of its UTF-8 encoding.
pub open spec fn byte_len(s: Seq<char>) -> nat {
    vstd::utf8::encode_utf8(s).len()
}

/// The views of a sequence of strings.
pub open spec fn views(strings: Seq<String>) -> Seq<Seq<char>> {
    strings.map_values(|s: String| s@)
}

/// The views of a sequence of string slices.
pub open spec fn slice_views(slices: Seq<&str>) -> Seq<Seq<char>> {
    slices.map_values(|s: &str| s@)
}

/// The characters of `s`, in a vector that can be indexed.
pub fn to_chars(s: &str) -> (chars: Vec<char>)
    ensures
        chars@ == s@,
{
    let mut chars: Vec<char> = Vec::new();
    for c in it: s.chars()
        invariant
            it.seq() == s@,
            chars@ == s@.take(it.index() as int),
    {
        chars.push(c);
        assert(s@.take(it.index() + 1) == s@.take(it.index() as int).push(c));
    }
    assert(s@.take(s@.len() as int) == s@);
    chars
}

/// The string made of `chars[from..to]`.
pub fn from_chars(chars: &Vec<char>, from: usize, to: usize) -> (s: String)
    requires
        from <= to <= chars.len(),
    ensures
        s@ == chars@.subrange(from as int, to as int),
{
    let mut s = String::new();
    let mut i: usize = from;
    while i < to
        invariant
            from <= i <= to <= chars.len(),
            s@ == chars@.subrange(from as int, i as int),
        decreases to - i,
    {
        s.push(chars[i]);
        assert(chars@.subrange(from as int, i + 1) == chars@.subrange(from as int, i as int).push(
            chars@[i as int],
        ));
        i += 1;
    }
    s
}

/// For each character of `s`, whether it is white space.
pub open spec fn whitespace_marks(s: Seq<char>) -> Seq<bool> {
    s.map_values(|c: char| is_whitespace(c))
}

/// How many marks stand before the first one that is set.
pub open spec fn unmarked_len(marks: Seq<bool>) -> nat
    decreases marks.len(),
{
    if marks.len() == 0 || marks[0] {
        0
    } else {
        1 + unmarked_len(marks.skip(1))
    }
}

/// The leading run of marks that are not set is part of `marks`, none of its
/// marks is set, and it is not empty where the first mark is not set.
pub proof fn lemma_unmarked_len(marks: Seq<bool>)
    ensures
        unmarked_len(marks) <= marks.len(),
        marks.len() > 0 && !marks[0] ==> unmarked_len(marks) >= 1,
        forall|k: int| 0 <= k < unmarked_len(marks) ==> !#[trigger] marks[k],
    decreases marks.len(),
{
    if marks.len() > 0 && !marks[0] {
        lemma_unmarked_len(marks.skip(1));
        assert forall|k: int| 0 <= k < unmarked_len(marks) implies !#[trigger] marks[k] by {
            if k > 0 {
                assert(marks[k] == marks.skip(1)[k - 1]);
            }
        }
    }
}

/// The maximal runs of characters of `s` whose marks are not set, from left
/// to right. `marks` has one mark for each character.
pub open spec fn runs(s: Seq<char>, marks: Seq<bool>) -> Seq<Seq<char>>
    decreases marks.len(),
{
    if marks.len() == 0 {
        Seq::empty()
    } else if marks[0] {
        runs(s.skip(1), marks.skip(1))
    } else {
        proof {
            lemma_unmarked_len(marks);
        }
        let n = unmarked_len(marks) as int;
        seq![s.take(n)] + runs(s.skip(n), marks.skip(n))
    }
}

/// The words of `s`: its maximal runs of characters that are not white space,
/// from left to right.
pub open spec fn words(s: Seq<char>) -> Seq<Seq<char>> {
    runs(s, whitespace_marks(s))
}

/// Every run has at least one character, and each of its characters stands
/// somewhere in `s` under a mark that is not set.
pub proof fn lemma_runs_are_runs(s: Seq<char>, marks: Seq<bool>)
    requires
        s.len() == marks.len(),
    ensures
        forall|i: int| 0 <= i < runs(s, marks).len() ==> (#[trigger] runs(s, marks)[i]).len() > 0,
        forall|i: int, k: int|
            0 <= i < runs(s, marks).len() && 0 <= k < runs(s, marks)[i].len() ==> exists|at: int|
                0 <= at < s.len() && !marks[at] && s[at] == #[trigger] runs(s, marks)[i][k],
    decreases marks.len(),
{
    let all = runs(s, marks);
    if marks.len() == 0 {
    } else if marks[0] {
        let rest = runs(s.skip(1), marks.skip(1));
        lemma_runs_are_runs(s.skip(1), marks.skip(1));
        assert forall|i: int, k: int| 0 <= i < all.len() && 0 <= k < all[i].len() implies exists|
            at: int,
        | 0 <= at < s.len() && !marks[at] && s[at] == #[trigger] all[i][k] by {
            let at = choose|at: int|
                0 <= at < s.skip(1).len() && !marks.skip(1)[at] && s.skip(1)[at] == rest[i][k];
            assert(!marks[at + 1] && s[at + 1] == all[i][k]);
        }
    } else {
        lemma_unmarked_len(marks);
        let n = unmarked_len(marks) as int;
        let rest = runs(s.skip(n), marks.skip(n));
        lemma_runs_are_runs(s.skip(n), marks.skip(n));
        assert(all == seq![s.take(n)] + rest);
        assert forall|i: int| 0 <= i < all.len() implies (#[trigger] all[i]).len() > 0 by {
            if i > 0 {
                assert(all[i] == rest[i - 1]);
            }
        }
        assert forall|i: int, k: int| 0 <= i < all.len() && 0 <= k < all[i].len() implies exists|
            at: int,
        | 0 <= at < s.len() && !marks[at] && s[at] == #[trigger] all[i][k] by {
            if i > 0 {
                assert(all[i] == rest[i - 1]);
                let at = choose|at: int|
                    0 <= at < s.skip(n).len() && !marks.skip(n)[at] && s.skip(n)[at] == rest[i
                        - 1][k];
                assert(!marks[at + n] && s[at + n] == all[i][k]);
            } else {
                assert(!marks[k] && s[k] == all[0][k]);
            }
        }
    }
}

/// Every word of a text has at least one character, and none of its
/// characters is white space.
pub proof fn lemma_words_are_words(s: Seq<char>)
    ensures
        forall|i: int| 0 <= i < words(s).len() ==> (#[trigger] words(s)[i]).len() > 0,
        forall|i: int, k: int|
            0 <= i < words(s).len() && 0 <= k < words(s)[i].len() ==> !is_whitespace(
                #[trigger] words(s)[i][k],
            ),
{
    lemma_runs_are_runs(s, whitespace_marks(s));
}

/// `parts` written one after the other with `sep` between neighbours.
pub open spec fn joined(parts: Seq<Seq<char>>, sep: Seq<char>) -> Seq<char>
    decreases parts.len(),
{
    if parts.len() == 0 {
        Seq::empty()
    } else if parts.len() == 1 {
        parts[0]
    } else {
        joined(parts.drop_last(), sep) + sep + parts.last()
    }
}

/// Marks each of `chars` that is white space.
pub fn mark_whitespace(chars: &Vec<char>) -> (marks: Vec<bool>)
    ensures
        marks@ == whitespace_marks(chars@),
{
    let mut marks: Vec<bool> = Vec::new();
    let mut i: usize = 0;
    while i < chars.len()
        invariant
            i <= chars.len(),
            marks@ == whitespace_marks(chars@.take(i as int)),
        decreases chars.len() - i,
    {
        marks.push(chars[i].is_whitespace());
        assert(chars@.take(i + 1) == chars@.take(i as int).push(chars@[i as int]));
        assert(marks@ == whitespace_marks(chars@.take(i + 1)));
        i += 1;
    }
    assert(chars@.take(chars@.len() as int) == chars@);
    marks
}

/// Splits `chars` into the maximal runs of characters whose marks are not
/// set.
pub fn split_runs(chars: &Vec<char>, marks: &Vec<bool>) -> (found: Vec<String>)
    requires
        chars.len() == marks.len(),
    ensures
        views(found@) == runs(chars@, marks@),
{
    let mut found: Vec<String> = Vec::new();
    let mut i: usize = 0;
    assert(chars@.skip(0) == chars@ && marks@.skip(0) == marks@);
    assert(views(found@) + runs(chars@, marks@) == runs(chars@, marks@));
    while i < chars.len()
        invariant
            i <= chars.len(),
            chars.len() == marks.len(),
            views(found@) + runs(chars@.skip(i as int), marks@.skip(i as int)) == runs(
                chars@,
                marks@,
            ),
        decreases chars.len() - i,
    {
        let ghost rest = chars@.skip(i as int);
        let ghost rest_marks = marks@.skip(i as int);
        if marks[i] {
            assert(rest.skip(1) == chars@.skip(i + 1));
            assert(rest_marks.skip(1) == marks@.skip(i + 1));
            i += 1;
        } else {
            let start = i;
            while i < chars.len() && !marks[i]
                invariant
                    start <= i <= chars.len(),
                    chars.len() == marks.len(),
                    rest_marks == marks@.skip(start as int),
                    unmarked_len(rest_marks) == (i - start) + unmarked_len(marks@.skip(i as int)),
                decreases chars.len() - i,
            {
                assert(marks@.skip(i as int).skip(1) == marks@.skip(i + 1));
                i += 1;
            }
            let word = from_chars(chars, start, i);
            proof {
                let later = runs(chars@.skip(i as int), marks@.skip(i as int));
                assert(rest.take(i - start) == chars@.subrange(start as int, i as int));
                assert(rest.skip(i - start) == chars@.skip(i as int));
                assert(rest_marks.skip(i - start) == marks@.skip(i as int));
                assert(views(found@.push(word)) == views(found@).push(word@));
                assert(views(found@).push(word@) + later == views(found@) + (seq![word@] + later));
            }
            found.push(word);
        }
    }
    assert(marks@.skip(marks@.len() as int).len() == 0);
    found
}

/// Splits `input` into its words.
pub fn split_whitespace(input: &str) -> (found: Vec<String>)
    ensures
        views(found@) == words(input@),
{
    let chars = to_chars(input);
    let marks = mark_whitespace(&chars);
    split_runs(&chars, &marks)
}

/// Writes `parts` one after the other with `sep` between neighbours.
pub fn join(parts: &Vec<String>, sep: &str) -> (line: String)
    ensures
        line@ == joined(views(parts@), sep@),
{
    let mut line = String::new();
    let mut i: usize = 0;
    while i < parts.len()
        invariant
            i <= parts.len(),
            line@ == joined(views(parts@).take(i as int), sep@),
        decreases parts.len() - i,
    {
        if i > 0 {
            line.push_str(sep);
        }
        line.push_str(parts[i].as_str());
        proof {
            let upto = views(parts@).take(i + 1);
            assert(upto.drop_last() == views(parts@).take(i as int));
            assert(upto.last() == parts@[i as int]@);
        }
        i += 1;
    }
    assert(views(parts@).take(parts@.len() as int) == views(parts@));
    line
}

/// Whether `needle` stands in `hay` from position `at` on.
pub open spec fn occurs_at(needle: Seq<char>, hay: Seq<char>, at: int) -> bool {
    0 <= at && at + needle.len() <= hay.len() && hay.subrange(at, at + needle.len()) == needle
}

/// Whether `needle` stands somewhere in `hay`, character for character.
pub open spec fn is_substring(needle: Seq<char>, hay: Seq<char>) -> bool {
    exists|at: int| occurs_at(needle, hay, at)
}

/// Tells whether `needle` stands somewhere in `hay`.
pub fn contains(hay: &str, needle: &str) -> (found: bool)
    ensures
        found == is_substring(needle@, hay@),
{
    let h = to_chars(hay);
    let n = to_chars(needle);
    if n.len() > h.len() {
        return false;
    }
    let last = h.len() - n.len();
    let mut i: usize = 0;
    while i <= last
        invariant
            i <= last + 1,
            last == h.len() - n.len(),
            h@ == hay@,
            n@ == needle@,
            forall|k: int| 0 <= k < i ==> !occurs_at(n@, h@, k),
        decreases last + 1 - i,
    {
        let mut j: usize = 0;
        while j < n.len() && h[i + j] == n[j]
            invariant
                j <= n.len(),
                i + n.len() <= h.len(),
                forall|m: int| 0 <= m < j ==> h@[i + m] == n@[m],
            decreases n.len() - j,
        {
            j += 1;
        }
        if j == n.len() {
            assert(h@.subrange(i as int, i + n.len()) == n@);
            assert(occurs_at(n@, h@, i as int));
            return true;
        }
        assert(!occurs_at(n@, h@, i as int)) by {
            if occurs_at(n@, h@, i as int) {
                assert(h@.subrange(i as int, i + n.len())[j as int] == n@[j as int]);
            }
        }
        i += 1;
    }
    false
}

/// How many characters stand before the first line feed of `s`.
pub open spec fn line_len(s: Seq<char>) -> nat
    decreases s.len(),
{
    if s.len() == 0 || s[0] == '\n' {
        0
    } else {
        1 + line_len(s.skip(1))
    }
}

/// The first line feed, if there is one, stands within `s`.
pub proof fn lemma_line_len_bound(s: Seq<char>)
    ensures
        line_len(s) <= s.len(),
    decreases s.len(),
{
    if s.len() > 0 && s[0] != '\n' {
        lemma_line_len_bound(s.skip(1));
    }
}

/// `line` without the carriage return at its end, if it has one there.
pub open spec fn without_return(line: Seq<char>) -> Seq<char> {
    if line.len() > 0 && line.last() == '\r' {
        line.drop_last()
    } else {
        line
    }
}

/// The lines of `s`. A line ends at a line feed, which is not part of it, and
/// neither is a carriage return directly before that line feed. What follows
/// the last line feed is a line of its own unless it is empty.
pub open spec fn lines(s: Seq<char>) -> Seq<Seq<char>>
    decreases s.len(),
{
    if s.len() == 0 {
        Seq::empty()
    } else {
        proof {
            lemma_line_len_bound(s);
        }
        let n = line_len(s) as int;
        if n == s.len() {
            seq![s]
        } else {
            seq![without_return(s.take(n))] + lines(s.skip(n + 1))
        }
    }
}

/// No character before the first line feed is a line feed.
pub proof fn lemma_line_len_run(s: Seq<char>)
    ensures
        forall|k: int| 0 <= k < line_len(s) ==> #[trigger] s[k] != '\n',
    decreases s.len(),
{
    lemma_line_len_bound(s);
    if s.len() > 0 && s[0] != '\n' {
        lemma_line_len_run(s.skip(1));
        lemma_line_len_bound(s.skip(1));
        assert forall|k: int| 0 <= k < line_len(s) implies #[trigger] s[k] != '\n' by {
            if k > 0 {
                assert(s[k] == s.skip(1)[k - 1]);
            }
        }
    }
}

/// No line of a text holds a line feed.
pub proof fn lemma_lines_are_lines(s: Seq<char>)
    ensures
        forall|i: int, k: int|
            0 <= i < lines(s).len() && 0 <= k < lines(s)[i].len() ==> #[trigger] lines(s)[i][k]
                != '\n',
    decreases s.len(),
{
    if s.len() > 0 {
        lemma_line_len_bound(s);
        lemma_line_len_run(s);
        let n = line_len(s) as int;
        if n < s.len() {
            lemma_lines_are_lines(s.skip(n + 1));
            assert(lines(s) == seq![without_return(s.take(n))] + lines(s.skip(n + 1)));
            assert forall|i: int, k: int|
                0 <= i < lines(s).len() && 0 <= k < lines(s)[i].len() implies #[trigger] lines(
                s,
            )[i][k] != '\n' by {
                if i > 0 {
                    assert(lines(s)[i] == lines(s.skip(n + 1))[i - 1]);
                } else {
                    assert(lines(s)[0][k] == s[k]);
                }
            }
        } else {
            assert(lines(s) == seq![s]);
        }
    }
}

/// Splits `text` into its lines, each a slice of `text`.
pub fn split_lines<'a>(text: &'a str) -> (found: Vec<&'a str>)
    ensures
        slice_views(found@) == lines(text@),
{
    let chars = to_chars(text);
    let mut found: Vec<&'a str> = Vec::new();
    let mut i: usize = 0;
    assert(chars@.skip(0) == chars@);
    assert(slice_views(found@) + lines(chars@) == lines(chars@));
    while i < chars.len()
        invariant
            i <= chars.len(),
            chars@ == text@,
            slice_views(found@) + lines(chars@.skip(i as int)) == lines(chars@),
        decreases chars.len() - i,
    {
        let ghost rest = chars@.skip(i as int);
        let start = i;
        while i < chars.len() && chars[i] != '\n'
            invariant
                start <= i <= chars.len(),
                rest == chars@.skip(start as int),
                line_len(rest) == (i - start) + line_len(chars@.skip(i as int)),
            decreases chars.len() - i,
        {
            assert(chars@.skip(i as int).skip(1) == chars@.skip(i + 1));
            i += 1;
        }
        let ended = i < chars.len();
        let stop = if ended && start < i && chars[i - 1] == '\r' {
            i - 1
        } else {
            i
        };
        let line = text.substring_char(start, stop);
        proof {
            let n = i - start;
            assert(rest.take(n) == chars@.subrange(start as int, i as int));
            if ended {
                assert(line@ == without_return(rest.take(n)));
                assert(rest.skip(n + 1) == chars@.skip(i + 1));
            } else {
                assert(rest.take(n) == rest);
                assert(line@ == rest);
                assert(chars@.skip(i as int) == Seq::<char>::empty());
                assert(lines(chars@.skip(i as int)) == Seq::<Seq<char>>::empty());
            }
            assert(slice_views(found@.push(line)) == slice_views(found@).push(line@));
            let later = if ended {
                lines(chars@.skip(i + 1))
            } else {
                Seq::<Seq<char>>::empty()
            };
            assert(slice_views(found@).push(line@) + later == slice_views(found@) + (seq![line@]
                + later));
        }
        found.push(line);
        if ended {
            i += 1;
        }
    }
    assert(chars@.skip(chars@.len() as int) == Seq::<char>::empty());
    found
}

/// How many marks stand before the first one that is not set.
pub open spec fn marked_len(marks: Seq<bool>) -> nat
    decreases marks.len(),
{
    if marks.len() == 0 || !marks[0] {
        0
    } else {
        1 + marked_len(marks.skip(1))
    }
}

/// How many marks stand behind the last one that is not set.
pub open spec fn marked_tail_len(marks: Seq<bool>) -> nat
    decreases marks.len(),
{
    if marks.len() == 0 || !marks.last() {
        0
    } else {
        1 + marked_tail_len(marks.drop_last())
    }
}

/// The marks counted at the beginning are set, and the one that follows
/// them, if there is one, is not.
pub proof fn lemma_marked_len(marks: Seq<bool>)
    ensures
        marked_len(marks) <= marks.len(),
        forall|k: int| 0 <= k < marked_len(marks) ==> #[trigger] marks[k],
        marked_len(marks) < marks.len() ==> !marks[marked_len(marks) as int],
    decreases marks.len(),
{
    if marks.len() > 0 && marks[0] {
        lemma_marked_len(marks.skip(1));
        assert forall|k: int| 0 <= k < marked_len(marks) implies #[trigger] marks[k] by {
            if k > 0 {
                assert(marks[k] == marks.skip(1)[k - 1]);
            }
        }
        if marked_len(marks) < marks.len() {
            assert(marks[marked_len(marks) as int] == marks.skip(1)[marked_len(marks) - 1]);
        }
    }
}

/// What is marked at the end stops short of any mark that is not set.
pub proof fn lemma_marked_tail_len(marks: Seq<bool>, k: int)
    requires
        0 <= k < marks.len(),
        !marks[k],
    ensures
        marked_tail_len(marks) <= marks.len() - 1 - k,
    decreases marks.len(),
{
    if marks.last() {
        assert(marks.drop_last()[k] == marks[k]);
        lemma_marked_tail_len(marks.drop_last(), k);
    }
}

/// Unless every mark is set, what is marked at the beginning and what is
/// marked at the end do not meet.
pub proof fn lemma_marked_ends_apart(marks: Seq<bool>)
    ensures
        marked_len(marks) <= marks.len(),
        marked_len(marks) < marks.len() ==> marked_len(marks) + marked_tail_len(marks)
            < marks.len(),
{
    lemma_marked_len(marks);
    if marked_len(marks) < marks.len() {
        lemma_marked_tail_len(marks, marked_len(marks) as int);
    }
}

/// `s` without the characters at its beginning and at its end whose marks
/// are set. `marks` has one mark for each character.
pub open spec fn stripped(s: Seq<char>, marks: Seq<bool>) -> Seq<char> {
    if marked_len(marks) >= marks.len() {
        Seq::empty()
    } else {
        s.subrange(marked_len(marks) as int, marks.len() - marked_tail_len(marks))
    }
}

/// `s` without the white space at its beginning and at its end.
pub open spec fn trimmed(s: Seq<char>) -> Seq<char> {
    stripped(s, whitespace_marks(s))
}

/// Where the marks that are not set begin and where they end: what lies
/// before the first and behind the second position is marked. Where every
/// mark is set, both positions are the number of marks.
pub fn unmarked_span(marks: &Vec<bool>) -> (span: (usize, usize))
    ensures
        span.0 == marked_len(marks@),
        span.0 <= span.1 <= marks.len(),
        span.1 == if marked_len(marks@) >= marks.len() {
            marks.len() as int
        } else {
            marks.len() - marked_tail_len(marks@)
        },
{
    let mut from: usize = 0;
    assert(marks@.skip(0) == marks@);
    while from < marks.len() && marks[from]
        invariant
            from <= marks.len(),
            marked_len(marks@) == from + marked_len(marks@.skip(from as int)),
        decreases marks.len() - from,
    {
        assert(marks@.skip(from as int).skip(1) == marks@.skip(from + 1));
        from += 1;
    }
    if from == marks.len() {
        assert(marks@.skip(from as int).len() == 0);
        return (from, from);
    }
    let mut to: usize = marks.len();
    assert(marks@.take(to as int) == marks@);
    while to > from + 1 && marks[to - 1]
        invariant
            from < to <= marks.len(),
            !marks@[from as int],
            marked_tail_len(marks@) == (marks.len() - to) + marked_tail_len(marks@.take(to as int)),
        decreases to,
    {
        assert(marks@.take(to as int).drop_last() == marks@.take(to - 1));
        to -= 1;
    }
    proof {
        assert(marks@.take(to as int).last() == marks@[to - 1]);
        assert(!marks@[to - 1]);
    }
    (from, to)
}

/// The slice of `text` that is left when the white space at both ends is
/// taken away.
pub fn trim<'a>(text: &'a str) -> (inner: &'a str)
    ensures
        inner@ == trimmed(text@),
{
    let chars = to_chars(text);
    let marks = mark_whitespace(&chars);
    let (from, to) = unmarked_span(&marks);
    let inner = text.substring_char(from, to);
    assert(text@.subrange(from as int, from as int) == Seq::<char>::empty());
    inner
}

} // verus!
