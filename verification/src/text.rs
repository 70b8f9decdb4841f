//! Operations on text, stated over sequences of characters.
use vstd::prelude::*;

verus! {

/// `String::push`: appends the character to the end of the string.
pub assume_specification[ std::string::String::push ](string: &mut std::string::String, ch: char)
    ensures
        final(string)@ == old(string)@.push(ch),
;

/// The characters with the Unicode property `White_Space`.
pub open spec fn is_white_space(c: char) -> bool {
    ||| '\u{9}' <= c <= '\u{d}'
    ||| c == '\u{20}'
    ||| c == '\u{85}'
    ||| c == '\u{a0}'
    ||| c == '\u{1680}'
    ||| '\u{2000}' <= c <= '\u{200a}'
    ||| c == '\u{2028}'
    ||| c == '\u{2029}'
    ||| c == '\u{202f}'
    ||| c == '\u{205f}'
    ||| c == '\u{3000}'
}

/// `text` without the white space that it starts with.
pub open spec fn trimmed_start(text: Seq<char>) -> Seq<char>
    decreases text.len(),
{
    if text.len() > 0 && is_white_space(text[0]) {
        trimmed_start(text.drop_first())
    } else {
        text
    }
}

/// `text` without the white space that it ends with.
pub open spec fn trimmed_end(text: Seq<char>) -> Seq<char>
    decreases text.len(),
{
    if text.len() > 0 && is_white_space(text.last()) {
        trimmed_end(text.drop_last())
    } else {
        text
    }
}

/// `text` without white space at either end.
pub open spec fn trimmed(text: Seq<char>) -> Seq<char> {
    trimmed_end(trimmed_start(text))
}

/// `text` without the run of `c` that it ends with.
pub open spec fn without_trailing(text: Seq<char>, c: char) -> Seq<char>
    decreases text.len(),
{
    if text.len() > 0 && text.last() == c {
        without_trailing(text.drop_last(), c)
    } else {
        text
    }
}

/// `pattern` stands in `text` at position `at`.
pub open spec fn stands_at<T>(text: Seq<T>, pattern: Seq<T>, at: int) -> bool {
    &&& 0 <= at
    &&& at + pattern.len() <= text.len()
    &&& text.subrange(at, at + pattern.len()) == pattern
}

/// `pattern` stands somewhere in `text`.
pub open spec fn occurs<T>(text: Seq<T>, pattern: Seq<T>) -> bool {
    exists|at: int| stands_at(text, pattern, at)
}

/// `text` with `to` in place of every match of `from`, the matches taken from left to right and
/// without overlap. An empty `from` matches before every character and at the end.
pub open spec fn replaced(text: Seq<char>, from: Seq<char>, to: Seq<char>) -> Seq<char>
    decreases text.len(),
{
    if from.len() == 0 {
        if text.len() == 0 {
            to
        } else {
            to + seq![text[0]] + replaced(text.drop_first(), from, to)
        }
    } else if text.len() == 0 {
        text
    } else if stands_at(text, from, 0) {
        to + replaced(text.skip(from.len() as int), from, to)
    } else {
        seq![text[0]] + replaced(text.drop_first(), from, to)
    }
}

/// Whether the character has the property `White_Space`.
pub fn white_space(c: char) -> (r: bool)
    ensures
        r == is_white_space(c),
{
    ('\u{9}' <= c && c <= '\u{d}') || c == '\u{20}' || c == '\u{85}' || c == '\u{a0}' || c
        == '\u{1680}' || ('\u{2000}' <= c && c <= '\u{200a}') || c == '\u{2028}' || c == '\u{2029}'
        || c == '\u{202f}' || c == '\u{205f}' || c == '\u{3000}'
}

/// Whether two texts hold the same characters.
pub fn same_text(a: &str, b: &str) -> (r: bool)
    ensures
        r == (a@ == b@),
{
    a.to_owned() == b.to_owned()
}

/// The characters of a text.
pub fn characters(text: &str) -> (r: Vec<char>)
    ensures
        r@ == text@,
{
    let mut chars: Vec<char> = Vec::new();
    for c in it: text.chars()
        invariant
            it.seq() == text@,
            chars@ == text@.take(it.index() as int),
    {
        chars.push(c);
    }
    chars
}

/// Whether the text starts with the character.
pub fn starts_with(text: &str, c: char) -> (r: bool)
    ensures
        r == (text@.len() > 0 && text@[0] == c),
{
    !text.is_empty() && text.get_char(0) == c
}

/// The text without white space at either end.
pub fn trim(text: &str) -> (r: &str)
    ensures
        r@ == trimmed(text@),
{
    let chars = characters(text);
    let mut start: usize = 0;
    assert(text@.skip(0) =~= text@);
    while start < chars.len() && white_space(chars[start])
        invariant
            start <= chars.len(),
            chars@ == text@,
            trimmed_start(text@) == trimmed_start(text@.skip(start as int)),
        ensures
            start <= chars.len(),
            trimmed_start(text@) == text@.skip(start as int),
        decreases chars.len() - start,
    {
        assert(text@.skip(start as int).drop_first() =~= text@.skip(start + 1));
        start = start + 1;
    }
    let mut end: usize = chars.len();
    while start < end && white_space(chars[end - 1])
        invariant
            start <= end <= chars.len(),
            chars@ == text@,
            trimmed_end(text@.skip(start as int)) == trimmed_end(
                text@.subrange(start as int, end as int),
            ),
        ensures
            start <= end <= chars.len(),
            trimmed_end(text@.skip(start as int)) == text@.subrange(start as int, end as int),
        decreases end,
    {
        assert(text@.subrange(start as int, end as int).drop_last() =~= text@.subrange(
            start as int,
            end - 1,
        ));
        end = end - 1;
    }
    text.substring_char(start, end)
}

/// The text without the run of `c` that it ends with.
pub fn trim_end_matches(text: &str, c: char) -> (r: &str)
    ensures
        r@ == without_trailing(text@, c),
{
    let chars = characters(text);
    let mut end: usize = chars.len();
    assert(text@.take(end as int) =~= text@);
    while 0 < end && chars[end - 1] == c
        invariant
            end <= chars.len(),
            chars@ == text@,
            without_trailing(text@, c) == without_trailing(text@.take(end as int), c),
        ensures
            end <= chars.len(),
            without_trailing(text@, c) == text@.take(end as int),
        decreases end,
    {
        assert(text@.take(end as int).drop_last() =~= text@.take(end - 1));
        end = end - 1;
    }
    text.substring_char(0, end)
}

/// Whether `pattern` stands in `chars` at position `at`.
fn matches_at(chars: &Vec<char>, pattern: &Vec<char>, at: usize) -> (r: bool)
    requires
        at <= chars.len(),
    ensures
        r == stands_at(chars@, pattern@, at as int),
{
    if chars.len() - at < pattern.len() {
        return false;
    }
    let mut k: usize = 0;
    while k < pattern.len()
        invariant
            at + pattern.len() <= chars.len(),
            k <= pattern.len(),
            forall|j: int| 0 <= j < k ==> chars@[at + j] == pattern@[j],
        decreases pattern.len() - k,
    {
        if chars[at + k] != pattern[k] {
            assert(chars@.subrange(at as int, at + pattern.len())[k as int] != pattern@[k as int]);
            return false;
        }
        k = k + 1;
    }
    assert(chars@.subrange(at as int, at + pattern.len()) =~= pattern@);
    true
}

/// The text with `to` in place of every match of `from`.
pub fn replace(text: &str, from: &str, to: &str) -> (r: String)
    ensures
        r@ == replaced(text@, from@, to@),
{
    let chars = characters(text);
    let pattern = characters(from);
    let mut out = String::new();
    let mut i: usize = 0;
    assert(text@.skip(0) =~= text@);
    while i < chars.len()
        invariant
            i <= chars.len(),
            chars@ == text@,
            pattern@ == from@,
            replaced(text@, from@, to@) == out@ + replaced(text@.skip(i as int), from@, to@),
        decreases chars.len() - i,
    {
        let ghost rest = text@.skip(i as int);
        if pattern.len() == 0 {
            out.append(to);
            out.push(chars[i]);
            assert(rest.drop_first() =~= text@.skip(i + 1));
            assert(replaced(text@, from@, to@) =~= out@ + replaced(text@.skip(i + 1), from@, to@));
            i = i + 1;
        } else if matches_at(&chars, &pattern, i) {
            assert(rest.subrange(0, pattern.len() as int) =~= text@.subrange(
                i as int,
                i + pattern.len(),
            ));
            assert(stands_at(rest, from@, 0));
            out.append(to);
            assert(rest.skip(pattern.len() as int) =~= text@.skip(i + pattern.len()));
            assert(replaced(text@, from@, to@) =~= out@ + replaced(
                text@.skip(i + pattern.len()),
                from@,
                to@,
            ));
            i = i + pattern.len();
        } else {
            assert(stands_at(rest, from@, 0) ==> rest.subrange(0, from@.len() as int)
                =~= text@.subrange(i as int, i + from@.len()));
            out.push(chars[i]);
            assert(rest.drop_first() =~= text@.skip(i + 1));
            assert(replaced(text@, from@, to@) =~= out@ + replaced(text@.skip(i + 1), from@, to@));
            i = i + 1;
        }
    }
    if pattern.len() == 0 {
        out.append(to);
    }
    assert(out@ =~= replaced(text@, from@, to@));
    out
}

/// `pattern` and `to` cannot meet: neither stands in the other, and neither ends with what the
/// other starts with.
pub open spec fn apart(pattern: Seq<char>, to: Seq<char>) -> bool {
    &&& pattern.len() > 0
    &&& to.len() > 0
    &&& !occurs(to, pattern)
    &&& !occurs(pattern, to)
    &&& forall|k: int|
        1 <= k <= pattern.len() && k <= to.len() ==> pattern.skip(pattern.len() - k)
            != #[trigger] to.take(k)
    &&& forall|k: int|
        1 <= k <= pattern.len() && k <= to.len() ==> #[trigger] pattern.take(k) != to.skip(
            to.len() - k,
        )
}

/// Where a replaced text starts with an end of `pattern`, the text itself does, if the pattern is
/// apart from what was put in.
proof fn lemma_replaced_start(
    text: Seq<char>,
    from: Seq<char>,
    to: Seq<char>,
    pattern: Seq<char>,
    m: int,
)
    requires
        from.len() > 0,
        apart(pattern, to),
        0 <= m <= pattern.len(),
        stands_at(replaced(text, from, to), pattern.skip(m), 0),
    ensures
        stands_at(text, pattern.skip(m), 0),
    decreases text.len(),
{
    let out = replaced(text, from, to);
    let part = pattern.skip(m);
    if part.len() == 0 {
        assert(text.subrange(0, 0) =~= part);
    } else if text.len() > 0 {
        let head = out.subrange(0, part.len() as int);
        if stands_at(text, from, 0) {
            if part.len() <= to.len() {
                assert(to.take(part.len() as int) =~= head);
                assert(pattern.skip(pattern.len() - part.len()) =~= part);
            } else {
                assert(pattern.subrange(m, m + to.len()) =~= to) by {
                    assert forall|k: int| 0 <= k < to.len() implies pattern[m + k] == to[k] by {
                        assert(head[k] == part[k]);
                    }
                }
                assert(stands_at(pattern, to, m));
            }
        } else {
            let rest = text.drop_first();
            let tail = pattern.skip(m + 1);
            let out_rest = replaced(rest, from, to);
            assert(out_rest.subrange(0, tail.len() as int) =~= tail) by {
                assert forall|k: int| 0 <= k < tail.len() implies out_rest[k] == tail[k] by {
                    assert(head[k + 1] == part[k + 1]);
                }
            }
            lemma_replaced_start(rest, from, to, pattern, m + 1);
            assert(text.subrange(0, part.len() as int) =~= part) by {
                assert forall|k: int| 0 <= k < part.len() implies text[k] == part[k] by {
                    if k == 0 {
                        assert(head[0] == part[0]);
                    } else {
                        assert(rest.subrange(0, tail.len() as int)[k - 1] == tail[k - 1]);
                    }
                }
            }
        }
    }
}

/// Where `pattern` stands in `to + rest`, it stands in `rest`, if it is apart from `to`.
proof fn lemma_stands_past(pattern: Seq<char>, to: Seq<char>, rest: Seq<char>, at: int)
    requires
        apart(pattern, to),
        stands_at(to + rest, pattern, at),
    ensures
        stands_at(rest, pattern, at - to.len()),
{
    let whole = to + rest;
    let part = whole.subrange(at, at + pattern.len());
    if at < to.len() {
        if at + pattern.len() > to.len() {
            let k = to.len() - at;
            assert(pattern.take(k) =~= to.skip(to.len() - k)) by {
                assert forall|i: int| 0 <= i < k implies pattern[i] == to[at + i] by {
                    assert(part[i] == pattern[i]);
                }
            }
        } else {
            assert(to.subrange(at, at + pattern.len()) =~= part);
            assert(stands_at(to, pattern, at));
        }
    } else {
        assert(rest.subrange(at - to.len(), at - to.len() + pattern.len()) =~= part);
    }
}

/// A replacement brings nothing in that is apart from what it puts in: what stands in the text
/// after it stood there before.
pub proof fn lemma_replaced_brings_nothing(
    text: Seq<char>,
    from: Seq<char>,
    to: Seq<char>,
    pattern: Seq<char>,
)
    requires
        from.len() > 0,
        apart(pattern, to),
        occurs(replaced(text, from, to), pattern),
    ensures
        occurs(text, pattern),
    decreases text.len(),
{
    let out = replaced(text, from, to);
    let at = choose|at: int| stands_at(out, pattern, at);
    if text.len() > 0 {
        if stands_at(text, from, 0) {
            let rest = text.skip(from.len() as int);
            lemma_stands_past(pattern, to, replaced(rest, from, to), at);
            lemma_replaced_brings_nothing(rest, from, to, pattern);
            let k = choose|k: int| stands_at(rest, pattern, k);
            assert(text.subrange(k + from.len(), k + from.len() + pattern.len())
                =~= rest.subrange(k, k + pattern.len()));
            assert(stands_at(text, pattern, k + from.len()));
        } else if at == 0 {
            assert(pattern.skip(0) =~= pattern);
            lemma_replaced_start(text, from, to, pattern, 0);
        } else {
            let rest = text.drop_first();
            let out_rest = replaced(rest, from, to);
            assert(out_rest.subrange(at - 1, at - 1 + pattern.len()) =~= out.subrange(
                at,
                at + pattern.len(),
            ));
            assert(stands_at(out_rest, pattern, at - 1));
            lemma_replaced_brings_nothing(rest, from, to, pattern);
            let k = choose|k: int| stands_at(rest, pattern, k);
            assert(text.subrange(k + 1, k + 1 + pattern.len()) =~= rest.subrange(
                k,
                k + pattern.len(),
            ));
            assert(stands_at(text, pattern, k + 1));
        }
    }
}

/// Nothing is left of a pattern that has been replaced by a text that it is apart from.
pub proof fn lemma_replaced_is_gone(text: Seq<char>, from: Seq<char>, to: Seq<char>)
    requires
        apart(from, to),
    ensures
        !occurs(replaced(text, from, to), from),
    decreases text.len(),
{
    let out = replaced(text, from, to);
    if occurs(out, from) {
        let at = choose|at: int| stands_at(out, from, at);
        if text.len() > 0 {
            if stands_at(text, from, 0) {
                let rest = text.skip(from.len() as int);
                lemma_stands_past(from, to, replaced(rest, from, to), at);
                lemma_replaced_is_gone(rest, from, to);
            } else if at == 0 {
                assert(from.skip(0) =~= from);
                lemma_replaced_start(text, from, to, from, 0);
            } else {
                let rest = text.drop_first();
                let out_rest = replaced(rest, from, to);
                assert(out_rest.subrange(at - 1, at - 1 + from.len()) =~= out.subrange(
                    at,
                    at + from.len(),
                ));
                assert(stands_at(out_rest, from, at - 1));
                lemma_replaced_is_gone(rest, from, to);
            }
        }
    }
}

/// A text in which the pattern does not stand is left as it is.
pub proof fn lemma_replaced_nothing(text: Seq<char>, from: Seq<char>, to: Seq<char>)
    requires
        from.len() > 0,
        !occurs(text, from),
    ensures
        replaced(text, from, to) == text,
    decreases text.len(),
{
    if text.len() > 0 {
        assert(!stands_at(text, from, 0));
        let rest = text.drop_first();
        assert(!occurs(rest, from)) by {
            if occurs(rest, from) {
                let k = choose|k: int| stands_at(rest, from, k);
                assert(text.subrange(k + 1, k + 1 + from.len()) =~= rest.subrange(
                    k,
                    k + from.len(),
                ));
                assert(stands_at(text, from, k + 1));
            }
        }
        lemma_replaced_nothing(rest, from, to);
        assert(seq![text[0]] + rest =~= text);
    }
}

/// A text without its trailing run of `c` does not end with `c`.
pub proof fn lemma_without_trailing(text: Seq<char>, c: char)
    ensures
        without_trailing(text, c).len() == 0 || without_trailing(text, c).last() != c,
        without_trailing(text, c).is_prefix_of(text),
    decreases text.len(),
{
    if text.len() > 0 && text.last() == c {
        lemma_without_trailing(text.drop_last(), c);
    }
}

/// Below 128, white space is the space and what stands between the tabulator and the carriage
/// return; above, it is 19 characters.
pub proof fn law_white_space(c: char)
    ensures
        (c as int) < 128 ==> (is_white_space(c) <==> c == ' ' || 9 <= c as int <= 13),
        (c as int) >= 128 ==> (is_white_space(c) <==> set![
            133int,
            160,
            5760,
            8192,
            8193,
            8194,
            8195,
            8196,
            8197,
            8198,
            8199,
            8200,
            8201,
            8202,
            8232,
            8233,
            8239,
            8287,
            12288,
        ].contains(c as int)),
{
}

/// White space around a text is taken off, all of it, and nothing else is.
pub proof fn law_margins_are_taken_off(before: Seq<char>, text: Seq<char>, after: Seq<char>)
    requires
        forall|i: int| 0 <= i < before.len() ==> is_white_space(#[trigger] before[i]),
        text.len() == 0 || !is_white_space(text[0]) && !is_white_space(text.last()),
        forall|i: int| 0 <= i < after.len() ==> is_white_space(#[trigger] after[i]),
    ensures
        trimmed(before + text + after) == text,
{
    lemma_trimmed_start(before, text + after);
    assert(before + text + after =~= before + (text + after));
    if text.len() == 0 {
        assert(text + after =~= after);
        lemma_trimmed_start(after, Seq::empty());
        assert(after + Seq::<char>::empty() =~= after);
    } else {
        assert((text + after)[0] == text[0]);
        lemma_trimmed_end(text, after);
    }
}

proof fn lemma_trimmed_start(before: Seq<char>, text: Seq<char>)
    requires
        forall|i: int| 0 <= i < before.len() ==> is_white_space(#[trigger] before[i]),
    ensures
        trimmed_start(before + text) == trimmed_start(text),
    decreases before.len(),
{
    if before.len() == 0 {
        assert(before + text =~= text);
    } else {
        let rest = before.drop_first();
        assert forall|i: int| 0 <= i < rest.len() implies is_white_space(#[trigger] rest[i]) by {
            assert(is_white_space(before[i + 1]));
        }
        lemma_trimmed_start(rest, text);
        assert(is_white_space(before[0]));
        assert((before + text).drop_first() =~= rest + text);
    }
}

proof fn lemma_trimmed_end(text: Seq<char>, after: Seq<char>)
    requires
        text.len() > 0,
        !is_white_space(text.last()),
        forall|i: int| 0 <= i < after.len() ==> is_white_space(#[trigger] after[i]),
    ensures
        trimmed_end(text + after) == text,
    decreases after.len(),
{
    if after.len() == 0 {
        assert(text + after =~= text);
    } else {
        let rest = after.drop_last();
        assert forall|i: int| 0 <= i < rest.len() implies is_white_space(#[trigger] rest[i]) by {
            assert(is_white_space(after[i]));
        }
        lemma_trimmed_end(text, rest);
        assert(is_white_space(after[after.len() - 1]));
        assert((text + after).drop_last() =~= text + rest);
    }
}

/// A run of a character at the end of a text is taken off, all of it, and nothing else is.
pub proof fn law_a_trailing_run_is_taken_off(text: Seq<char>, run: Seq<char>, c: char)
    requires
        text.len() == 0 || text.last() != c,
        forall|i: int| 0 <= i < run.len() ==> #[trigger] run[i] == c,
    ensures
        without_trailing(text + run, c) == text,
    decreases run.len(),
{
    if run.len() == 0 {
        assert(text + run =~= text);
    } else {
        let rest = run.drop_last();
        assert forall|i: int| 0 <= i < rest.len() implies #[trigger] rest[i] == c by {
            assert(run[i] == c);
        }
        law_a_trailing_run_is_taken_off(text, rest, c);
        assert(run[run.len() - 1] == c);
        assert((text + run).drop_last() =~= text + rest);
    }
}

/// Where a pattern stands in a text for the first time, the replacement stands in its place: what
/// is in front of it is kept, and what is behind it is replaced on its own.
pub proof fn law_the_first_match_is_replaced(
    before: Seq<char>,
    from: Seq<char>,
    after: Seq<char>,
    to: Seq<char>,
)
    requires
        from.len() > 0,
        forall|at: int| 0 <= at < before.len() ==> !#[trigger] stands_at(
            before + from + after,
            from,
            at,
        ),
    ensures
        replaced(before + from + after, from, to) == before + to + replaced(after, from, to),
    decreases before.len(),
{
    let text = before + from + after;
    if before.len() == 0 {
        assert(text.subrange(0, from.len() as int) =~= from);
        assert(text.skip(from.len() as int) =~= after);
        assert(replaced(text, from, to) =~= before + to + replaced(after, from, to));
    } else {
        assert(!stands_at(text, from, 0));
        let rest = before.drop_first();
        assert(text.drop_first() =~= rest + from + after);
        assert forall|at: int| 0 <= at < rest.len() implies !#[trigger] stands_at(
            rest + from + after,
            from,
            at,
        ) by {
            assert(!stands_at(text, from, at + 1));
            if stands_at(rest + from + after, from, at) {
                assert(text.subrange(at + 1, at + 1 + from.len()) =~= (rest + from
                    + after).subrange(at, at + from.len()));
            }
        }
        law_the_first_match_is_replaced(rest, from, after, to);
        assert(replaced(text, from, to) =~= before + to + replaced(after, from, to));
    }
}

/// A text in which the pattern does not stand is left as it is, and the empty pattern stands in
/// front of every character and at the end.
pub proof fn law_what_does_not_match_is_kept(
    text: Seq<char>,
    from: Seq<char>,
    to: Seq<char>,
    c: char,
)
    ensures
        from.len() > 0 && !occurs(text, from) ==> replaced(text, from, to) == text,
        from.len() == 0 ==> replaced(Seq::empty(), from, to) == to,
        from.len() == 0 ==> replaced(seq![c] + text, from, to) == to + seq![c] + replaced(
            text,
            from,
            to,
        ),
{
    if from.len() > 0 && !occurs(text, from) {
        lemma_replaced_nothing(text, from, to);
    }
    assert((seq![c] + text).drop_first() =~= text);
}

/// A pattern stands in a text exactly where the text is something in front of it, the pattern, and
/// something behind it.
pub proof fn law_what_occurs_is_surrounded(text: Seq<char>, pattern: Seq<char>)
    ensures
        occurs(text, pattern) <==> exists|before: Seq<char>, after: Seq<char>| text == #[trigger] (
        before + pattern + after),
{
    if occurs(text, pattern) {
        let at = choose|at: int| stands_at(text, pattern, at);
        let before = text.take(at);
        let after = text.skip(at + pattern.len());
        assert(text =~= before + text.subrange(at, at + pattern.len()) + after);
        assert(text == before + pattern + after);
    }
    if exists|before: Seq<char>, after: Seq<char>| text == #[trigger] (before + pattern + after) {
        let (before, after) = choose|before: Seq<char>, after: Seq<char>|
            text == #[trigger] (before + pattern + after);
        let at = before.len() as int;
        assert(text.subrange(at, at + pattern.len()) =~= pattern);
        assert(stands_at(text, pattern, at));
    }
}

} // verus!
