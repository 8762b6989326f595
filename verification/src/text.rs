//! Text as sequences of characters: splitting, trimming, searching, numbers.
use vstd::prelude::*;
use vstd::string::*;

verus! {

/// `String::push`: the character stands behind the text that was there.
pub assume_specification[ String::push ](s: &mut String, ch: char)
    ensures
        final(s)@ == old(s)@.push(ch),
;

// ---------------------------------------------------------------------------
// Characters
// ---------------------------------------------------------------------------

/// The Unicode property White_Space.
pub open spec fn white_space(c: char) -> bool {
    ||| '\u{9}' <= c <= '\u{d}'
    ||| c == '\u{20}'
    ||| c == '\u{85}'
    ||| c == '\u{a0}'
    ||| c == '\u{1680}'
    ||| '\u{2000}' <= c <= '\u{200a}'
    ||| c == '\u{2028}'
    ||| c == '\u{2029}'
    ||| c == '\u{202f}'
    ||| c == '\u{205f}'
    ||| c == '\u{3000}'
}

/// Whether `c` has the Unicode property White_Space.
pub fn is_white_space(c: char) -> (r: bool)
    ensures
        r == white_space(c),
{
    ('\u{9}' <= c && c <= '\u{d}') || c == '\u{20}' || c == '\u{85}' || c == '\u{a0}' || c
        == '\u{1680}' || ('\u{2000}' <= c && c <= '\u{200a}') || c == '\u{2028}' || c == '\u{2029}'
        || c == '\u{202f}' || c == '\u{205f}' || c == '\u{3000}'
}

/// The characters of `text`, in order.
pub fn to_chars(text: &str) -> (r: Vec<char>)
    ensures
        r@ == text@,
{
    let mut out: Vec<char> = Vec::new();
    for c in it: text.chars()
        invariant
            out@ == it.seq().take(it.index() as int),
            it.seq() == text@,
    {
        out.push(c);
        assert(out@ =~= it.seq().take(it.index() as int + 1));
    }
    out
}

/// The text made of the characters `from..to` of `chars`.
pub(crate) fn from_chars(chars: &Vec<char>, from: usize, to: usize) -> (r: String)
    requires
        from <= to <= chars@.len(),
    ensures
        r@ == chars@.subrange(from as int, to as int),
{
    let mut out: String = String::new();
    let mut i: usize = from;
    while i < to
        invariant
            from <= i <= to <= chars@.len(),
            out@ == chars@.subrange(from as int, i as int),
        decreases to - i,
    {
        out.push(chars[i]);
        i = i + 1;
        assert(out@ =~= chars@.subrange(from as int, i as int));
    }
    out
}

/// Whether two texts hold the same characters.
pub fn same_text(a: &str, b: &str) -> (r: bool)
    ensures
        r == (a@ == b@),
{
    a.to_owned() == b.to_owned()
}

/// `a` followed by `b`.
pub fn concat(a: &str, b: &str) -> (r: String)
    ensures
        r@ == a@ + b@,
{
    let mut out: String = a.to_owned();
    out.append(b);
    out
}

/// `a`, `b` and `c`, one behind the other.
pub fn concat3(a: &str, b: &str, c: &str) -> (r: String)
    ensures
        r@ == a@ + b@ + c@,
{
    let mut out: String = a.to_owned();
    out.append(b);
    out.append(c);
    out
}

// ---------------------------------------------------------------------------
// Prefixes, suffixes, substrings
// ---------------------------------------------------------------------------

/// `s` begins with `prefix`.
pub open spec fn begins_with(s: Seq<char>, prefix: Seq<char>) -> bool {
    &&& prefix.len() <= s.len()
    &&& s.take(prefix.len() as int) == prefix
}

/// `s` ends with `suffix`.
pub open spec fn finishes_with(s: Seq<char>, suffix: Seq<char>) -> bool {
    &&& suffix.len() <= s.len()
    &&& s.skip(s.len() - suffix.len()) == suffix
}

/// `needle` stands somewhere in `s`.
pub open spec fn occurs_in(needle: Seq<char>, s: Seq<char>) -> bool {
    exists|i: int| #[trigger] occurs_at(needle, s, i)
}

/// `needle` stands in `s` at position `i`.
pub open spec fn occurs_at(needle: Seq<char>, s: Seq<char>, i: int) -> bool {
    &&& 0 <= i <= s.len() - needle.len()
    &&& s.subrange(i, i + needle.len()) == needle
}

pub fn starts_with(text: &str, prefix: &str) -> (r: bool)
    ensures
        r == begins_with(text@, prefix@),
{
    let n: usize = prefix.unicode_len();
    let m: usize = text.unicode_len();
    assert(text@.take(prefix@.len() as int) =~= text@.subrange(0, prefix@.len() as int)
        || prefix@.len() > text@.len());
    n <= m && same_text(text.substring_char(0, n), prefix)
}

pub fn ends_with(text: &str, suffix: &str) -> (r: bool)
    ensures
        r == finishes_with(text@, suffix@),
{
    let n: usize = suffix.unicode_len();
    let m: usize = text.unicode_len();
    assert(n <= m ==> text@.skip(m - n) =~= text@.subrange(m - n, m as int));
    n <= m && same_text(text.substring_char(m - n, m), suffix)
}

/// What follows `prefix` in `text`, if `text` begins with it.
pub fn strip_prefix(text: &str, prefix: &str) -> (r: Option<String>)
    ensures
        r is Some <==> begins_with(text@, prefix@),
        r matches Some(rest) ==> rest@ == text@.skip(prefix@.len() as int),
{
    if starts_with(text, prefix) {
        let n: usize = prefix.unicode_len();
        let m: usize = text.unicode_len();
        assert(text@.skip(n as int) =~= text@.subrange(n as int, m as int));
        Some(text.substring_char(n, m).to_owned())
    } else {
        None
    }
}

/// What precedes `suffix` in `text`, if `text` ends with it.
pub fn strip_suffix(text: &str, suffix: &str) -> (r: Option<String>)
    ensures
        r is Some <==> finishes_with(text@, suffix@),
        r matches Some(rest) ==> rest@ == text@.take(text@.len() - suffix@.len()),
{
    if ends_with(text, suffix) {
        let n: usize = suffix.unicode_len();
        let m: usize = text.unicode_len();
        assert(text@.take(m - n) =~= text@.subrange(0, m - n));
        Some(text.substring_char(0, m - n).to_owned())
    } else {
        None
    }
}

/// Whether `needle` stands somewhere in `text`.
pub fn contains(text: &str, needle: &str) -> (r: bool)
    ensures
        r == occurs_in(needle@, text@),
{
    let n: usize = needle.unicode_len();
    let m: usize = text.unicode_len();
    if n > m {
        return false;
    }
    let mut i: usize = 0;
    while i <= m - n
        invariant
            n == needle@.len(),
            m == text@.len(),
            n <= m,
            i <= m - n + 1,
            m - n + 1 <= usize::MAX || i <= m - n,
            forall|j: int| 0 <= j < i ==> !occurs_at(needle@, text@, j),
        decreases m - n + 1 - i,
    {
        if same_text(text.substring_char(i, i + n), needle) {
            assert(occurs_at(needle@, text@, i as int));
            return true;
        }
        if i == m - n {
            assert(forall|j: int| 0 <= j <= i ==> !occurs_at(needle@, text@, j));
            return false;
        }
        i = i + 1;
    }
    false
}

// ---------------------------------------------------------------------------
// Trimming
// ---------------------------------------------------------------------------

/// `s` without the white space at its front.
pub open spec fn trimmed_start(s: Seq<char>) -> Seq<char>
    decreases s.len(),
{
    if s.len() > 0 && white_space(s[0]) {
        trimmed_start(s.skip(1))
    } else {
        s
    }
}

/// `s` without the white space at its end.
pub open spec fn trimmed_end(s: Seq<char>) -> Seq<char>
    decreases s.len(),
{
    if s.len() > 0 && white_space(s.last()) {
        trimmed_end(s.drop_last())
    } else {
        s
    }
}

/// `s` without the white space at both ends.
pub open spec fn trimmed(s: Seq<char>) -> Seq<char> {
    trimmed_end(trimmed_start(s))
}

pub fn trim(text: &str) -> (r: String)
    ensures
        r@ == trimmed(text@),
{
    let chars: Vec<char> = to_chars(text);
    let mut from: usize = 0;
    assert(chars@.skip(0) =~= chars@);
    while from < chars.len() && is_white_space(chars[from])
        invariant
            from <= chars@.len(),
            trimmed_start(chars@) == trimmed_start(chars@.skip(from as int)),
        decreases chars@.len() - from,
    {
        assert(chars@.skip(from as int).skip(1) =~= chars@.skip(from as int + 1));
        from = from + 1;
    }
    let mut to: usize = chars.len();
    assert(chars@.subrange(from as int, to as int) =~= chars@.skip(from as int));
    while from < to && is_white_space(chars[to - 1])
        invariant
            from <= to <= chars@.len(),
            trimmed(chars@) == trimmed_end(chars@.subrange(from as int, to as int)),
        decreases to,
    {
        assert(chars@.subrange(from as int, to as int).drop_last() =~= chars@.subrange(
            from as int,
            to as int - 1,
        ));
        to = to - 1;
    }
    from_chars(&chars, from, to)
}

// ---------------------------------------------------------------------------
// Splitting and joining
// ---------------------------------------------------------------------------

/// The pieces of `s` between the separators `sep`: one more than there are
/// separators.
pub open spec fn pieces(s: Seq<char>, sep: char) -> Seq<Seq<char>>
    decreases s.len(),
{
    if s.len() == 0 {
        seq![Seq::<char>::empty()]
    } else {
        let before = pieces(s.drop_last(), sep);
        if s.last() == sep {
            before.push(Seq::<char>::empty())
        } else {
            before.drop_last().push(before.last().push(s.last()))
        }
    }
}

/// The runs of characters other than white space, in order.
pub open spec fn words(s: Seq<char>) -> Seq<Seq<char>>
    decreases s.len(),
{
    if s.len() == 0 {
        Seq::empty()
    } else {
        let before = words(s.drop_last());
        if white_space(s.last()) {
            before
        } else if s.len() > 1 && !white_space(s[s.len() - 2]) {
            before.drop_last().push(before.last().push(s.last()))
        } else {
            before.push(seq![s.last()])
        }
    }
}

/// A line without the carriage return at its end.
pub open spec fn without_return(s: Seq<char>) -> Seq<char> {
    if s.len() > 0 && s.last() == '\r' {
        s.drop_last()
    } else {
        s
    }
}

/// The lines of `s`. A line ends with a line feed, before which a carriage
/// return may stand; what follows the last line feed is a line if it is not
/// empty.
pub open spec fn text_lines(s: Seq<char>) -> Seq<Seq<char>> {
    let all = pieces(s, '\n');
    let ended = all.drop_last().map_values(|line: Seq<char>| without_return(line));
    if all.last().len() == 0 {
        ended
    } else {
        ended.push(all.last())
    }
}

/// `parts` with `sep` between each two of them.
pub open spec fn joined(parts: Seq<Seq<char>>, sep: Seq<char>) -> Seq<char>
    decreases parts.len(),
{
    if parts.len() == 0 {
        Seq::empty()
    } else if parts.len() == 1 {
        parts[0]
    } else {
        joined(parts.drop_last(), sep) + sep + parts.last()
    }
}

/// There is always a piece.
pub proof fn lemma_pieces_not_empty(s: Seq<char>, sep: char)
    ensures
        pieces(s, sep).len() > 0,
    decreases s.len(),
{
    if s.len() > 0 {
        lemma_pieces_not_empty(s.drop_last(), sep);
    }
}

/// The pieces of `text` between the separators `sep`.
pub fn split(text: &str, sep: char) -> (r: Vec<String>)
    ensures
        r.deep_view() == pieces(text@, sep),
{
    let chars: Vec<char> = to_chars(text);
    let mut out: Vec<String> = Vec::new();
    let mut current: String = String::new();
    let mut i: usize = 0;
    assert(chars@.take(0) =~= Seq::<char>::empty());
    assert(out.deep_view().push(current@) =~= pieces(chars@.take(0), sep));
    while i < chars.len()
        invariant
            i <= chars@.len(),
            out.deep_view().push(current@) == pieces(chars@.take(i as int), sep),
        decreases chars@.len() - i,
    {
        let c: char = chars[i];
        let ghost before = out.deep_view().push(current@);
        assert(chars@.take(i as int + 1).drop_last() =~= chars@.take(i as int));
        assert(before.drop_last() =~= out.deep_view());
        if c == sep {
            let done: String = current;
            out.push(done);
            current = String::new();
            assert(out.deep_view() =~= before);
        } else {
            current.push(c);
        }
        i = i + 1;
    }
    assert(chars@.take(i as int) =~= text@);
    let ghost all = out.deep_view().push(current@);
    out.push(current);
    assert(out.deep_view() =~= all);
    out
}

/// The words of `text`.
pub fn split_whitespace(text: &str) -> (r: Vec<String>)
    ensures
        r.deep_view() == words(text@),
{
    let chars: Vec<char> = to_chars(text);
    let mut out: Vec<String> = Vec::new();
    let mut current: String = String::new();
    let mut inside: bool = false;
    let mut i: usize = 0;
    assert(chars@.take(0) =~= Seq::<char>::empty());
    assert(out.deep_view() =~= words(chars@.take(0)));
    while i < chars.len()
        invariant
            i <= chars@.len(),
            inside == (i > 0 && !white_space(chars@[i - 1])),
            inside ==> out.deep_view().push(current@) == words(chars@.take(i as int)),
            !inside ==> out.deep_view() == words(chars@.take(i as int)),
            !inside ==> current@.len() == 0,
        decreases chars@.len() - i,
    {
        let c: char = chars[i];
        let ghost sofar = chars@.take(i as int + 1);
        assert(sofar.drop_last() =~= chars@.take(i as int));
        let ghost before = out.deep_view();
        if is_white_space(c) {
            if inside {
                let done: String = current;
                out.push(done);
                current = String::new();
                inside = false;
                assert(out.deep_view() =~= words(chars@.take(i as int)));
            }
        } else {
            let ghost old_current = current@;
            current.push(c);
            if inside {
                assert(before.push(old_current).drop_last() =~= before);
            } else {
                assert(current@ =~= seq![c]);
            }
            inside = true;
        }
        i = i + 1;
    }
    assert(chars@.take(i as int) =~= text@);
    if inside {
        let ghost all = out.deep_view().push(current@);
        out.push(current);
        assert(out.deep_view() =~= all);
    }
    out
}

/// The lines of `text`.
pub fn lines(text: &str) -> (r: Vec<String>)
    ensures
        r.deep_view() == text_lines(text@),
{
    let all: Vec<String> = split(text, '\n');
    proof {
        lemma_pieces_not_empty(text@, '\n');
    }
    let ghost whole = all.deep_view();
    let n: usize = all.len();
    let mut out: Vec<String> = Vec::new();
    let mut i: usize = 0;
    while i < n - 1
        invariant
            n == all@.len(),
            n > 0,
            i <= n - 1,
            whole == all.deep_view(),
            out.deep_view() == whole.take(i as int).map_values(
                |line: Seq<char>| without_return(line),
            ),
        decreases n - i,
    {
        let line: &String = &all[i];
        assert(whole[i as int] == line@);
        let length: usize = line.as_str().unicode_len();
        let ghost before = out.deep_view();
        let kept: String = if length > 0 && line.as_str().get_char(length - 1) == '\r' {
            assert(line@.subrange(0, length - 1) =~= line@.drop_last());
            line.as_str().substring_char(0, length - 1).to_owned()
        } else {
            line.clone()
        };
        assert(kept@ == without_return(line@));
        out.push(kept);
        i = i + 1;
        assert(out.deep_view() =~= before.push(without_return(line@)));
        assert(out.deep_view() =~= whole.take(i as int).map_values(
            |line: Seq<char>| without_return(line),
        ));
    }
    assert(whole.take(n - 1) =~= whole.drop_last());
    let last: &String = &all[n - 1];
    assert(whole.last() == last@);
    if !last.as_str().is_empty() {
        let ghost before = out.deep_view();
        out.push(last.clone());
        assert(out.deep_view() =~= before.push(last@));
    }
    out
}

/// `parts` with `sep` between each two of them.
pub fn join(parts: &Vec<String>, sep: &str) -> (r: String)
    ensures
        r@ == joined(parts.deep_view(), sep@),
{
    let mut out: String = String::new();
    let mut i: usize = 0;
    let ghost all = parts.deep_view();
    assert(all.take(0) =~= Seq::empty());
    while i < parts.len()
        invariant
            i <= parts@.len(),
            all == parts.deep_view(),
            out@ == joined(all.take(i as int), sep@),
        decreases parts@.len() - i,
    {
        assert(all.take(i as int + 1).drop_last() =~= all.take(i as int));
        assert(all.take(i as int + 1).last() == parts@[i as int]@);
        if i > 0 {
            out.append(sep);
        }
        out.append(parts[i].as_str());
        assert(i == 0 ==> out@ =~= parts@[0]@);
        i = i + 1;
    }
    assert(all.take(i as int) =~= all);
    out
}

// ---------------------------------------------------------------------------
// Laws
// ---------------------------------------------------------------------------

/// Joining the pieces of a text by the separator gives the text back.
pub proof fn law_join_undoes_split(s: Seq<char>, sep: char)
    ensures
        joined(pieces(s, sep), seq![sep]) == s,
    decreases s.len(),
{
    if s.len() == 0 {
        assert(s =~= Seq::empty());
    } else {
        let front = s.drop_last();
        let before = pieces(front, sep);
        let all = pieces(s, sep);
        law_join_undoes_split(front, sep);
        lemma_pieces_not_empty(front, sep);
        assert(front.push(s.last()) =~= s);
        if s.last() == sep {
            assert(all.drop_last() =~= before);
            assert(joined(all, seq![sep]) =~= s);
        } else {
            let head = before.drop_last();
            assert(all.drop_last() =~= head);
            assert(all.last() == before.last().push(s.last()));
            if before.len() == 1 {
                assert(joined(before, seq![sep]) == before[0]);
                assert(joined(all, seq![sep]) =~= s);
            } else {
                assert(joined(before, seq![sep]) == joined(head, seq![sep]) + seq![sep]
                    + before.last());
                assert(joined(all, seq![sep]) =~= s);
            }
        }
    }
}

/// No piece of a text holds the separator.
pub proof fn law_pieces_hold_no_separator(s: Seq<char>, sep: char)
    ensures
        forall|i: int|
            0 <= i < pieces(s, sep).len() ==> !(#[trigger] pieces(s, sep)[i]).contains(sep),
    decreases s.len(),
{
    if s.len() > 0 {
        let before = pieces(s.drop_last(), sep);
        let all = pieces(s, sep);
        law_pieces_hold_no_separator(s.drop_last(), sep);
        lemma_pieces_not_empty(s.drop_last(), sep);
        assert forall|i: int| 0 <= i < all.len() implies !(#[trigger] all[i]).contains(sep) by {
            if i < all.len() - 1 {
                assert(all[i] == before[i]);
            } else if s.last() != sep {
                let last = before.last();
                assert(all[i] == last.push(s.last()));
                assert(!before[before.len() - 1].contains(sep));
                assert forall|j: int| 0 <= j < all[i].len() implies all[i][j] != sep by {
                    if j < last.len() {
                        assert(last[j] == all[i][j]);
                        assert(last.contains(last[j]));
                    }
                }
            }
        }
    }
}

/// The words of a text end as it ends: a text that ends in anything but white
/// space has a last word.
proof fn lemma_last_word(s: Seq<char>)
    requires
        s.len() > 0,
        !white_space(s.last()),
    ensures
        words(s).len() > 0,
    decreases s.len(),
{
    let front = s.drop_last();
    if s.len() > 1 && !white_space(s[s.len() - 2]) {
        assert(front.last() == s[s.len() - 2]);
        lemma_last_word(front);
    }
}

/// Every word has a character, and none of its characters is white space.
pub proof fn law_words_hold_no_white_space(s: Seq<char>)
    ensures
        forall|i: int| 0 <= i < words(s).len() ==> (#[trigger] words(s)[i]).len() > 0,
        forall|i: int, j: int|
            0 <= i < words(s).len() && 0 <= j < words(s)[i].len() ==> !white_space(
                #[trigger] words(s)[i][j],
            ),
    decreases s.len(),
{
    if s.len() > 0 {
        let front = s.drop_last();
        let before = words(front);
        let all = words(s);
        law_words_hold_no_white_space(front);
        if !white_space(s.last()) && s.len() > 1 && !white_space(s[s.len() - 2]) {
            assert(front.last() == s[s.len() - 2]);
            lemma_last_word(front);
            assert forall|i: int, j: int|
                0 <= i < all.len() && 0 <= j < all[i].len() implies !white_space(
                #[trigger] all[i][j],
            ) by {
                if i < before.len() - 1 {
                    assert(all[i] == before[i]);
                    assert(!white_space(before[i][j]));
                } else {
                    assert(all[i] == before.last().push(s.last()));
                    if j < before.last().len() {
                        assert(!white_space(before[before.len() - 1][j]));
                    }
                }
            }
            assert forall|i: int| 0 <= i < all.len() implies (#[trigger] all[i]).len() > 0 by {
                if i < before.len() - 1 {
                    assert(all[i] == before[i]);
                }
            }
        } else if !white_space(s.last()) {
            assert forall|i: int, j: int|
                0 <= i < all.len() && 0 <= j < all[i].len() implies !white_space(
                #[trigger] all[i][j],
            ) by {
                if i < before.len() {
                    assert(all[i] == before[i]);
                    assert(!white_space(before[i][j]));
                }
            }
            assert forall|i: int| 0 <= i < all.len() implies (#[trigger] all[i]).len() > 0 by {
                if i < before.len() {
                    assert(all[i] == before[i]);
                }
            }
        }
    }
}

/// White space is these characters and no other.
pub proof fn law_white_space_is_listed(c: char)
    ensures
        white_space(c) <==> {
            let n = c as int;
            ||| n == 9 || n == 10 || n == 11 || n == 12 || n == 13
            ||| n == 32 || n == 133 || n == 160 || n == 5760
            ||| 8192 <= n <= 8202
            ||| n == 8232 || n == 8233 || n == 8239 || n == 8287 || n == 12288
        },
{
}

/// A text begins with another just where it is that text and something behind it.
pub proof fn law_beginning_is_what_is_put_in_front(s: Seq<char>, prefix: Seq<char>, rest: Seq<char>)
    ensures
        begins_with(prefix + rest, prefix),
        (prefix + rest).skip(prefix.len() as int) == rest,
        begins_with(s, prefix) ==> s == prefix + s.skip(prefix.len() as int),
{
    assert((prefix + rest).take(prefix.len() as int) =~= prefix);
    assert((prefix + rest).skip(prefix.len() as int) =~= rest);
    if begins_with(s, prefix) {
        assert(s =~= s.take(prefix.len() as int) + s.skip(prefix.len() as int));
    }
}

/// A text ends with another just where it is something and that text behind it.
pub proof fn law_ending_is_what_is_put_behind(s: Seq<char>, suffix: Seq<char>, rest: Seq<char>)
    ensures
        finishes_with(rest + suffix, suffix),
        (rest + suffix).take(rest.len() as int) == rest,
        finishes_with(s, suffix) ==> s == s.take(s.len() - suffix.len()) + suffix,
{
    assert((rest + suffix).skip(rest.len() as int) =~= suffix);
    assert((rest + suffix).take(rest.len() as int) =~= rest);
    if finishes_with(s, suffix) {
        assert(s =~= s.take(s.len() - suffix.len()) + s.skip(s.len() - suffix.len()));
    }
}

/// A text stands in another just where that other is something, the text, and
/// something.
pub proof fn law_occurrence_is_between(needle: Seq<char>, s: Seq<char>, a: Seq<char>, b: Seq<char>)
    ensures
        occurs_in(needle, a + needle + b),
        occurs_in(needle, s) ==> exists|c: Seq<char>, d: Seq<char>| s == #[trigger] (c + needle + d),
{
    let all = a + needle + b;
    assert(all.subrange(a.len() as int, a.len() as int + needle.len()) =~= needle);
    assert(occurs_at(needle, all, a.len() as int));
    if occurs_in(needle, s) {
        let i = choose|i: int| occurs_at(needle, s, i);
        let c = s.take(i);
        let d = s.skip(i + needle.len());
        assert(s =~= c + s.subrange(i, i + needle.len()) + d);
        assert(s == c + needle + d);
    }
}

/// What trimming takes from the front is white space, and what is left does not
/// begin with any.
proof fn lemma_trimmed_start(s: Seq<char>) -> (from: int)
    ensures
        0 <= from <= s.len(),
        trimmed_start(s) == s.skip(from),
        forall|i: int| 0 <= i < from ==> white_space(#[trigger] s[i]),
        from < s.len() ==> !white_space(s[from]),
    decreases s.len(),
{
    if s.len() > 0 && white_space(s[0]) {
        let n = lemma_trimmed_start(s.skip(1));
        assert(s.skip(1).skip(n) =~= s.skip(n + 1));
        assert forall|i: int| 0 <= i < n + 1 implies white_space(#[trigger] s[i]) by {
            if i > 0 {
                assert(s.skip(1)[i - 1] == s[i]);
            }
        }
        n + 1
    } else {
        assert(s.skip(0) =~= s);
        0
    }
}

/// What trimming takes from the end is white space, and what is left does not end
/// with any.
proof fn lemma_trimmed_end(s: Seq<char>) -> (to: int)
    ensures
        0 <= to <= s.len(),
        trimmed_end(s) == s.take(to),
        forall|i: int| to <= i < s.len() ==> white_space(#[trigger] s[i]),
        to > 0 ==> !white_space(s[to - 1]),
    decreases s.len(),
{
    if s.len() > 0 && white_space(s.last()) {
        let n = lemma_trimmed_end(s.drop_last());
        assert(s.drop_last().take(n) =~= s.take(n));
        assert forall|i: int| n <= i < s.len() implies white_space(#[trigger] s[i]) by {
            if i < s.len() - 1 {
                assert(s.drop_last()[i] == s[i]);
            }
        }
        n
    } else {
        assert(s.take(s.len() as int) =~= s);
        s.len() as int
    }
}

/// A trimmed text is what stands between white space at both ends, and neither
/// begins nor ends with any.
pub proof fn law_trimming_takes_white_space_alone(s: Seq<char>)
    ensures
        exists|from: int, to: int|
            0 <= from <= to <= s.len() && trimmed(s) == #[trigger] s.subrange(from, to) && (forall|
                i: int,
            |
                0 <= i < s.len() && !(from <= i < to) ==> white_space(#[trigger] s[i])),
        trimmed(s).len() > 0 ==> !white_space(trimmed(s)[0]) && !white_space(trimmed(s).last()),
{
    let from = lemma_trimmed_start(s);
    let rest = s.skip(from);
    let n = lemma_trimmed_end(rest);
    assert(rest.take(n) =~= s.subrange(from, from + n));
    assert forall|i: int| 0 <= i < s.len() && !(from <= i < from + n) implies white_space(
        #[trigger] s[i],
    ) by {
        if i >= from {
            assert(rest[i - from] == s[i]);
        }
    }
    if n > 0 {
        assert(rest[n - 1] == s[from + n - 1]);
        assert(rest[0] == s[from]);
    }
}

/// At a separator, a text falls into the pieces before it and those behind it.
pub proof fn law_separator_splits(a: Seq<char>, b: Seq<char>, sep: char)
    ensures
        pieces(a.push(sep) + b, sep) == pieces(a, sep) + pieces(b, sep),
    decreases b.len(),
{
    let s = a.push(sep) + b;
    if b.len() == 0 {
        assert(s =~= a.push(sep));
        assert(s.drop_last() =~= a);
        assert(pieces(s, sep) =~= pieces(a, sep) + pieces(b, sep));
    } else {
        law_separator_splits(a, b.drop_last(), sep);
        lemma_pieces_not_empty(b.drop_last(), sep);
        assert(s.drop_last() =~= a.push(sep) + b.drop_last());
        let before = pieces(b.drop_last(), sep);
        let all = pieces(a, sep) + before;
        if b.last() != sep {
            assert(all.drop_last() =~= pieces(a, sep) + before.drop_last());
            assert(all.last() == before.last());
        }
        assert(pieces(s, sep) =~= pieces(a, sep) + pieces(b, sep));
    }
}

/// A text without the separator is one piece.
pub proof fn law_text_without_separator_is_one_piece(s: Seq<char>, sep: char)
    requires
        !s.contains(sep),
    ensures
        pieces(s, sep) == seq![s],
    decreases s.len(),
{
    if s.len() == 0 {
        assert(s =~= Seq::empty());
    } else {
        assert(s.contains(s.last()));
        assert forall|i: int| 0 <= i < s.drop_last().len() implies s.drop_last()[i] != sep by {
            assert(s.contains(s[i]));
        }
        law_text_without_separator_is_one_piece(s.drop_last(), sep);
        assert(s.drop_last().push(s.last()) =~= s);
        assert(pieces(s, sep) =~= seq![s]);
    }
}

/// At white space, a text falls into the words before it and those behind it.
pub proof fn law_white_space_splits_words(a: Seq<char>, c: char, b: Seq<char>)
    requires
        white_space(c),
    ensures
        words(a.push(c) + b) == words(a) + words(b),
    decreases b.len(),
{
    let s = a.push(c) + b;
    if b.len() == 0 {
        assert(s =~= a.push(c));
        assert(s.drop_last() =~= a);
        assert(words(s) =~= words(a) + words(b));
    } else {
        let front = b.drop_last();
        law_white_space_splits_words(a, c, front);
        assert(s.drop_last() =~= a.push(c) + front);
        let before = words(front);
        let all = words(a) + before;
        assert(words(s.drop_last()) == all);
        assert(s.last() == b.last());
        if !white_space(b.last()) && b.len() > 1 && !white_space(b[b.len() - 2]) {
            assert(s[s.len() - 2] == b[b.len() - 2]);
            assert(front.last() == b[b.len() - 2]);
            lemma_last_word(front);
            assert(all.drop_last() =~= words(a) + before.drop_last());
            assert(all.last() == before.last());
        } else if !white_space(b.last()) {
            if b.len() == 1 {
                assert(s[s.len() - 2] == c);
            } else {
                assert(s[s.len() - 2] == b[b.len() - 2]);
            }
        }
        assert(words(s) =~= words(a) + words(b));
    }
}

/// A text without white space is one word, unless it is empty.
pub proof fn law_text_without_white_space_is_one_word(s: Seq<char>)
    requires
        forall|i: int| 0 <= i < s.len() ==> !white_space(#[trigger] s[i]),
    ensures
        words(s) == if s.len() == 0 {
            Seq::empty()
        } else {
            seq![s]
        },
    decreases s.len(),
{
    if s.len() > 0 {
        let front = s.drop_last();
        assert forall|i: int| 0 <= i < front.len() implies !white_space(#[trigger] front[i]) by {
            assert(front[i] == s[i]);
        }
        law_text_without_white_space_is_one_word(front);
        assert(!white_space(s[s.len() - 1]));
        if s.len() > 1 {
            assert(!white_space(s[s.len() - 2]));
            assert(front.push(s.last()) =~= s);
            assert(words(s) =~= seq![s]);
        } else {
            assert(seq![s.last()] =~= s);
            assert(words(s) =~= seq![s]);
        }
    }
}

/// A carriage return at the end of a line is dropped, once; nothing else is.
pub proof fn law_carriage_return_is_dropped(s: Seq<char>)
    ensures
        without_return(s.push('\r')) == s,
        s.len() == 0 || s.last() != '\r' ==> without_return(s) == s,
{
    assert(s.push('\r').drop_last() =~= s);
}

/// A line feed ends a line: the lines of a text are that line, without the carriage
/// return at its end, and the lines behind the line feed.
pub proof fn law_line_feed_ends_a_line(line: Seq<char>, rest: Seq<char>)
    requires
        !line.contains('\n'),
    ensures
        text_lines(line.push('\n') + rest) == seq![without_return(line)] + text_lines(rest),
{
    law_separator_splits(line, rest, '\n');
    law_text_without_separator_is_one_piece(line, '\n');
    lemma_pieces_not_empty(rest, '\n');
    let all = pieces(line.push('\n') + rest, '\n');
    let behind = pieces(rest, '\n');
    assert(all =~= seq![line] + behind);
    assert(all.last() == behind.last());
    assert(all.drop_last() =~= seq![line] + behind.drop_last());
    let f = |line: Seq<char>| without_return(line);
    assert(all.drop_last().map_values(f) =~= seq![without_return(line)]
        + behind.drop_last().map_values(f));
    assert(text_lines(line.push('\n') + rest) =~= seq![without_return(line)] + text_lines(rest));
}

/// A text without a line feed is one line, unless it is empty.
pub proof fn law_text_without_line_feed_is_one_line(s: Seq<char>)
    requires
        !s.contains('\n'),
    ensures
        text_lines(s) == if s.len() == 0 {
            Seq::empty()
        } else {
            seq![s]
        },
{
    law_text_without_separator_is_one_piece(s, '\n');
    assert(seq![s].drop_last() =~= Seq::empty());
    let f = |line: Seq<char>| without_return(line);
    assert(seq![s].drop_last().map_values(f) =~= Seq::empty());
    assert(text_lines(s) =~= if s.len() == 0 {
        Seq::empty()
    } else {
        seq![s]
    });
}

/// The separator stands between each two parts, and nowhere else.
pub proof fn law_join_puts_separator_between(a: Seq<Seq<char>>, b: Seq<Seq<char>>, sep: Seq<char>)
    ensures
        joined(Seq::empty(), sep) == Seq::<char>::empty(),
        forall|part: Seq<char>| joined(seq![part], sep) == part,
        a.len() > 0 && b.len() > 0 ==> joined(a + b, sep) == joined(a, sep) + sep + joined(b, sep),
    decreases b.len(),
{
    assert forall|part: Seq<char>| joined(seq![part], sep) == part by {
        assert(seq![part].len() == 1);
    }
    if a.len() > 0 && b.len() > 0 {
        assert((a + b).drop_last() =~= a + b.drop_last());
        assert((a + b).last() == b.last());
        if b.len() == 1 {
            assert(a + b.drop_last() =~= a);
        } else {
            law_join_puts_separator_between(a, b.drop_last(), sep);
            assert(joined(a + b, sep) =~= joined(a, sep) + sep + joined(b, sep));
        }
    }
}

} // verus!
