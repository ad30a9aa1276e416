//! Text handling over sequences of characters.

use vstd::prelude::*;

verus! {

/// `String::push` appends one character at the end of the string.
pub assume_specification[ String::push ](text: &mut String, c: char)
    ensures
        final(text)@ == old(text)@.push(c),
;

/// The lower-case equivalent of a text, as `str::to_lowercase` gives it.
pub uninterp spec fn lowercase(text: Seq<char>) -> Seq<char>;

/// An ASCII character.
pub open spec fn is_ascii_char(c: char) -> bool {
    (c as u32) < 128
}

/// An ASCII capital letter as the small letter, and any other character as it
/// is.
pub open spec fn small_letter(c: char) -> char {
    if 'A' <= c && c <= 'Z' {
        (c as u32 + 32) as char
    } else {
        c
    }
}

/// `str::to_lowercase` gives the lower-case equivalent of a text. Of an ASCII
/// text that is the text with its capital letters as small letters; what the
/// rules of Unicode make of other texts is left to the name `lowercase`.
pub assume_specification[ str::to_lowercase ](text: &str) -> (result: String)
    ensures
        result@ == lowercase(text@),
        (forall|i: int| 0 <= i < text@.len() ==> is_ascii_char(#[trigger] text@[i])) ==> result@
            == text@.map_values(|c: char| small_letter(c)),
;

// ---------------------------------------------------------------------------
// Characters in and out
// ---------------------------------------------------------------------------

/// The characters of `text`, in order.
pub fn chars_of(text: &str) -> (chars: Vec<char>)
    ensures
        chars@ == text@,
{
    let mut chars: Vec<char> = Vec::new();
    for c in it: text.chars()
        invariant
            chars@ == it.seq().take(it.index()),
            it.seq() == text@,
    {
        chars.push(c);
    }
    chars
}

/// The characters `from..to` of `chars` as a string.
pub fn string_of_range(chars: &Vec<char>, from: usize, to: usize) -> (text: String)
    requires
        from <= to <= chars@.len(),
    ensures
        text@ == chars@.subrange(from as int, to as int),
{
    let mut text = String::new();
    let mut i: usize = from;
    while i < to
        invariant
            from <= i <= to <= chars@.len(),
            text@ == chars@.subrange(from as int, i as int),
        decreases to - i,
    {
        text.push(chars[i]);
        assert(chars@.subrange(from as int, i + 1) =~= chars@.subrange(from as int, i as int).push(
            chars@[i as int],
        ));
        i = i + 1;
    }
    text
}

/// Whether two texts hold the same characters.
pub fn same_text(a: &str, b: &str) -> (same: bool)
    ensures
        same == (a@ == b@),
{
    let x = chars_of(a);
    let y = chars_of(b);
    if x.len() != y.len() {
        return false;
    }
    let mut i: usize = 0;
    while i < x.len()
        invariant
            i <= x@.len(),
            x@.len() == y@.len(),
            forall|j: int| 0 <= j < i ==> x@[j] == y@[j],
            x@ == a@,
            y@ == b@,
        decreases x@.len() - i,
    {
        if x[i] != y[i] {
            return false;
        }
        i = i + 1;
    }
    assert(x@ =~= y@);
    true
}

/// What a list of strings stands for.
pub open spec fn text_views(texts: Seq<String>) -> Seq<Seq<char>> {
    texts.map_values(|text: String| text@)
}

/// A string at the end of a list stands at the end of what the list stands for.
pub proof fn text_views_push(texts: Seq<String>, text: String)
    ensures
        text_views(texts.push(text)) == text_views(texts).push(text@),
{
    assert(text_views(texts.push(text)) =~= text_views(texts).push(text@));
}

/// What an optional string stands for.
pub open spec fn text_view(text: Option<String>) -> Option<Seq<char>> {
    match text {
        Some(t) => Some(t@),
        None => None,
    }
}

// ---------------------------------------------------------------------------
// Occurrences of a pattern
// ---------------------------------------------------------------------------

/// `pattern` stands in `text` at position `at`.
pub open spec fn occurs_at(text: Seq<char>, pattern: Seq<char>, at: int) -> bool {
    &&& 0 <= at
    &&& at + pattern.len() <= text.len()
    &&& text.subrange(at, at + pattern.len()) == pattern
}

/// `pattern` stands somewhere in `text`.
pub open spec fn has_text(text: Seq<char>, pattern: Seq<char>) -> bool {
    exists|at: int| occurs_at(text, pattern, at)
}

/// Whether `pattern` stands in `text` at position `at`.
pub fn pattern_at(text: &Vec<char>, pattern: &Vec<char>, at: usize) -> (found: bool)
    requires
        at <= text@.len(),
    ensures
        found == occurs_at(text@, pattern@, at as int),
{
    let size: usize = text.len();
    if pattern.len() > size - at {
        return false;
    }
    let mut i: usize = 0;
    while i < pattern.len()
        invariant
            i <= pattern@.len(),
            size == text@.len(),
            at + pattern@.len() <= text@.len(),
            forall|j: int| 0 <= j < i ==> text@[at + j] == pattern@[j],
        decreases pattern@.len() - i,
    {
        if text[at + i] != pattern[i] {
            assert(text@.subrange(at as int, at + pattern@.len())[i as int] != pattern@[i as int]);
            return false;
        }
        i = i + 1;
    }
    assert(text@.subrange(at as int, at + pattern@.len()) =~= pattern@);
    true
}

/// Whether `pattern` stands somewhere in `text`.
pub fn contains(text: &str, pattern: &str) -> (found: bool)
    ensures
        found == has_text(text@, pattern@),
{
    let chars = chars_of(text);
    let wanted = chars_of(pattern);
    let mut at: usize = 0;
    while at < chars.len()
        invariant
            at <= chars@.len(),
            chars@ == text@,
            wanted@ == pattern@,
            forall|j: int| 0 <= j < at ==> !occurs_at(text@, pattern@, j),
        decreases chars@.len() - at,
    {
        if pattern_at(&chars, &wanted, at) {
            return true;
        }
        at = at + 1;
    }
    pattern_at(&chars, &wanted, at)
}

/// `text` with every occurrence of `pattern`, taken from the left and without
/// overlap, replaced by `with`.
pub open spec fn replaced(text: Seq<char>, pattern: Seq<char>, with: Seq<char>) -> Seq<char>
    decreases text.len(),
{
    if pattern.len() == 0 || text.len() < pattern.len() {
        text
    } else if occurs_at(text, pattern, 0) {
        with + replaced(text.skip(pattern.len() as int), pattern, with)
    } else {
        seq![text[0]] + replaced(text.skip(1), pattern, with)
    }
}

/// Replaces every occurrence of the non-empty `pattern` by `with`.
pub fn replace_all(text: &str, pattern: &str, with: &str) -> (result: String)
    requires
        pattern@.len() > 0,
    ensures
        result@ == replaced(text@, pattern@, with@),
{
    let chars = chars_of(text);
    let wanted = chars_of(pattern);
    let mut result = String::new();
    let mut at: usize = 0;
    assert(text@.skip(0) =~= text@);
    while at < chars.len()
        invariant
            at <= chars@.len(),
            chars@ == text@,
            wanted@ == pattern@,
            pattern@.len() > 0,
            replaced(text@, pattern@, with@) == result@ + replaced(
                text@.skip(at as int),
                pattern@,
                with@,
            ),
        decreases chars@.len() - at,
    {
        let ghost rest = text@.skip(at as int);
        let ghost before = result@;
        let found = pattern_at(&chars, &wanted, at);
        proof {
            if rest.len() >= pattern@.len() {
                assert(rest.subrange(0, pattern@.len() as int) =~= text@.subrange(
                    at as int,
                    at + pattern@.len(),
                ));
            }
            assert(found == occurs_at(rest, pattern@, 0));
        }
        if found {
            result.append(with);
            at = at + wanted.len();
            proof {
                assert(rest.skip(pattern@.len() as int) =~= text@.skip(at as int));
                assert(before + (with@ + replaced(text@.skip(at as int), pattern@, with@))
                    =~= result@ + replaced(text@.skip(at as int), pattern@, with@));
            }
        } else {
            result.push(chars[at]);
            at = at + 1;
            proof {
                assert(rest.skip(1) =~= text@.skip(at as int));
                assert(rest[0] == text@[at - 1]);
                let tail = replaced(text@.skip(at as int), pattern@, with@);
                if rest.len() < pattern@.len() {
                    assert(replaced(rest, pattern@, with@) == rest);
                    assert(tail == text@.skip(at as int));
                    assert(rest =~= seq![rest[0]] + tail);
                } else {
                    assert(replaced(rest, pattern@, with@) == seq![rest[0]] + tail);
                }
                assert(before + (seq![rest[0]] + tail) =~= result@ + tail);
            }
        }
    }
    assert(text@.skip(at as int).len() == 0);
    assert(result@ + text@.skip(at as int) =~= result@);
    result
}

/// `text` without the repetitions of `prefix` that it starts with.
pub open spec fn without_prefix(text: Seq<char>, prefix: Seq<char>) -> Seq<char>
    decreases text.len(),
{
    if prefix.len() > 0 && occurs_at(text, prefix, 0) {
        without_prefix(text.skip(prefix.len() as int), prefix)
    } else {
        text
    }
}

/// Removes `prefix` from the start of `text` as often as it stands there.
pub fn trim_prefix(text: &str, prefix: &str) -> (result: String)
    ensures
        result@ == without_prefix(text@, prefix@),
{
    let chars = chars_of(text);
    let wanted = chars_of(prefix);
    let mut at: usize = 0;
    assert(text@.skip(0) =~= text@);
    let size: usize = chars.len();
    if wanted.len() > 0 {
        let mut more: bool = pattern_at(&chars, &wanted, at);
        while more
            invariant
                size == chars@.len(),
                at <= chars@.len(),
                chars@ == text@,
                wanted@ == prefix@,
                prefix@.len() > 0,
                more == occurs_at(text@, prefix@, at as int),
                without_prefix(text@, prefix@) == without_prefix(text@.skip(at as int), prefix@),
            decreases chars@.len() - at,
        {
            let ghost rest = text@.skip(at as int);
            proof {
                assert(rest.subrange(0, prefix@.len() as int) =~= text@.subrange(
                    at as int,
                    at + prefix@.len(),
                ));
                assert(rest.skip(prefix@.len() as int) =~= text@.skip(at + prefix@.len()));
            }
            at = at + wanted.len();
            more = pattern_at(&chars, &wanted, at);
        }
        proof {
            let rest = text@.skip(at as int);
            if occurs_at(rest, prefix@, 0) {
                assert(rest.subrange(0, prefix@.len() as int) =~= text@.subrange(
                    at as int,
                    at + prefix@.len(),
                ));
            }
        }
    }
    let result = string_of_range(&chars, at, size);
    assert(result@ =~= text@.skip(at as int));
    result
}

/// `text` with every `from` replaced by `to`.
pub open spec fn with_char(text: Seq<char>, from: char, to: char) -> Seq<char> {
    text.map_values(|c: char| if c == from { to } else { c })
}

/// Replaces every character `from` by the character `to`.
pub fn replace_char(text: &str, from: char, to: char) -> (result: String)
    ensures
        result@ == with_char(text@, from, to),
{
    let chars = chars_of(text);
    let mut result = String::new();
    let mut i: usize = 0;
    while i < chars.len()
        invariant
            i <= chars@.len(),
            chars@ == text@,
            result@ == with_char(text@, from, to).take(i as int),
        decreases chars@.len() - i,
    {
        if chars[i] == from {
            result.push(to);
        } else {
            result.push(chars[i]);
        }
        i = i + 1;
        assert(with_char(text@, from, to).take(i as int) =~= with_char(text@, from, to).take(
            i - 1,
        ).push(with_char(text@, from, to)[i - 1]));
    }
    assert(with_char(text@, from, to).take(i as int) =~= with_char(text@, from, to));
    result
}

// ---------------------------------------------------------------------------
// What holds of changed texts
// ---------------------------------------------------------------------------

/// A text, so many times in a row.
pub open spec fn repeated(text: Seq<char>, times: nat) -> Seq<char>
    decreases times,
{
    if times == 0 {
        seq![]
    } else {
        text + repeated(text, (times - 1) as nat)
    }
}

/// A pattern is found wherever it stands between other texts.
pub proof fn pattern_is_found(before: Seq<char>, pattern: Seq<char>, after: Seq<char>)
    ensures
        occurs_at(before + pattern + after, pattern, before.len() as int),
        has_text(before + pattern + after, pattern),
{
    let text = before + pattern + after;
    let at = before.len() as int;
    assert(text.subrange(at, at + pattern.len()) =~= pattern);
    assert(occurs_at(text, pattern, at));
}

/// A text in which a pattern is found has it between other texts.
pub proof fn found_pattern_stands_there(text: Seq<char>, pattern: Seq<char>) -> (around: (
    Seq<char>,
    Seq<char>,
))
    requires
        has_text(text, pattern),
    ensures
        text == around.0 + pattern + around.1,
{
    let at = choose|at: int| occurs_at(text, pattern, at);
    let around = (text.take(at), text.skip(at + pattern.len()));
    assert(text =~= around.0 + text.subrange(at, at + pattern.len()) + around.1);
    around
}

/// The first occurrence of a pattern is replaced, what stands before it is
/// kept, and what stands behind it is treated alike.
pub proof fn first_occurrence_is_replaced(
    before: Seq<char>,
    pattern: Seq<char>,
    after: Seq<char>,
    with: Seq<char>,
)
    requires
        pattern.len() > 0,
        forall|i: int|
            0 <= i < before.len() ==> !#[trigger] occurs_at(before + pattern + after, pattern, i),
    ensures
        replaced(before + pattern + after, pattern, with) == before + with + replaced(
            after,
            pattern,
            with,
        ),
    decreases before.len(),
{
    let text = before + pattern + after;
    let size = pattern.len() as int;
    if before.len() == 0 {
        assert(text.subrange(0, size) =~= pattern);
        assert(text.skip(size) =~= after);
        assert(with + replaced(after, pattern, with) =~= before + with + replaced(
            after,
            pattern,
            with,
        ));
    } else {
        let rest = before.skip(1);
        assert(!occurs_at(text, pattern, 0));
        assert(text.skip(1) =~= rest + pattern + after);
        assert forall|i: int| 0 <= i < rest.len() implies !#[trigger] occurs_at(
            rest + pattern + after,
            pattern,
            i,
        ) by {
            assert((rest + pattern + after).subrange(i, i + pattern.len()) =~= text.subrange(
                i + 1,
                i + 1 + pattern.len(),
            ));
            assert(!occurs_at(text, pattern, i + 1));
        }
        first_occurrence_is_replaced(rest, pattern, after, with);
        assert(seq![text[0]] + (rest + with + replaced(after, pattern, with)) =~= before + with
            + replaced(after, pattern, with));
    }
}

/// A text without the pattern is kept as it is.
pub proof fn text_without_pattern_is_kept(
    text: Seq<char>,
    pattern: Seq<char>,
    with: Seq<char>,
)
    requires
        !has_text(text, pattern),
    ensures
        replaced(text, pattern, with) == text,
    decreases text.len(),
{
    if pattern.len() > 0 && text.len() >= pattern.len() {
        let rest = text.skip(1);
        assert(!occurs_at(text, pattern, 0));
        if has_text(rest, pattern) {
            let at = choose|at: int| occurs_at(rest, pattern, at);
            assert(text.subrange(at + 1, at + 1 + pattern.len()) =~= rest.subrange(
                at,
                at + pattern.len(),
            ));
            assert(occurs_at(text, pattern, at + 1));
        }
        text_without_pattern_is_kept(rest, pattern, with);
        assert(seq![text[0]] + rest =~= text);
    }
}

/// What is removed from the start of a text is the prefix, some times in a
/// row, and what is left does not start with it.
pub proof fn prefix_is_removed_as_often_as_it_stands_there(
    text: Seq<char>,
    prefix: Seq<char>,
) -> (times: nat)
    ensures
        text == repeated(prefix, times) + without_prefix(text, prefix),
        prefix.len() > 0 ==> !prefix.is_prefix_of(without_prefix(text, prefix)),
    decreases text.len(),
{
    if prefix.len() > 0 && occurs_at(text, prefix, 0) {
        let rest = text.skip(prefix.len() as int);
        let more = prefix_is_removed_as_often_as_it_stands_there(rest, prefix);
        let times = more + 1;
        assert(text =~= text.subrange(0, prefix.len() as int) + rest);
        assert(repeated(prefix, times) == prefix + repeated(prefix, more));
        assert(text =~= repeated(prefix, times) + without_prefix(text, prefix));
        times
    } else {
        if prefix.len() > 0 && prefix.is_prefix_of(text) {
            assert(text.subrange(0, prefix.len() as int) =~= prefix);
        }
        assert(text =~= repeated(prefix, 0) + without_prefix(text, prefix));
        0
    }
}

/// Replacing a character changes the places where it stands, and no others.
pub proof fn character_is_replaced_in_place(text: Seq<char>, from: char, to: char)
    ensures
        with_char(text, from, to).len() == text.len(),
        forall|i: int|
            0 <= i < text.len() ==> (#[trigger] with_char(text, from, to)[i]) == if text[i] == from {
                to
            } else {
                text[i]
            },
{
}

} // verus!
