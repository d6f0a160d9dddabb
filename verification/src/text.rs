//! Text: white space, joining and splitting, decimal numerals.

use vstd::prelude::*;

verus! {

/// `String::push` appends the character.
pub assume_specification[ String::push ](s: &mut String, c: char)
    ensures
        final(s)@ == old(s)@.push(c),
;

/// The view of an optional text.
pub open spec fn opt_text(s: Option<&str>) -> Option<Seq<char>> {
    match s {
        Some(s) => Some(s@),
        None => None,
    }
}

/// The view of an optional text.
pub open spec fn opt_string(s: Option<String>) -> Option<Seq<char>> {
    match s {
        Some(s) => Some(s@),
        None => None,
    }
}

/// A text, or the empty one.
pub open spec fn or_empty(s: Option<Seq<char>>) -> Seq<char> {
    match s {
        Some(s) => s,
        None => Seq::empty(),
    }
}

/// A list with one more item, where there is one.
pub open spec fn push_opt<A>(list: Seq<A>, item: Option<A>) -> Seq<A> {
    match item {
        Some(item) => list.push(item),
        None => list,
    }
}

/// Whether two texts are the same.
pub fn same_text(a: &str, b: &str) -> (same: bool)
    ensures
        same == (a@ == b@),
{
    let a_chars = chars_of(a);
    let b_chars = chars_of(b);
    if a_chars.len() != b_chars.len() {
        return false;
    }
    let mut i: usize = 0;
    while i < a_chars.len()
        invariant
            i <= a_chars@.len(),
            a_chars@ == a@,
            b_chars@ == b@,
            a_chars@.len() == b_chars@.len(),
            forall|k: int| 0 <= k < i ==> a_chars@[k] == b_chars@[k],
        decreases a_chars@.len() - i,
    {
        if a_chars[i] != b_chars[i] {
            return false;
        }
        i += 1;
    }
    assert(a@ =~= b@);
    true
}

/// The characters of a text.
pub fn chars_of(s: &str) -> (chars: Vec<char>)
    ensures
        chars@ == s@,
{
    let mut chars: Vec<char> = Vec::new();
    for c in it: s.chars()
        invariant
            chars@ == it.seq().take(it.index() as int),
            it.seq() == s@,
    {
        chars.push(c);
    }
    assert(s@.take(s@.len() as int) =~= s@);
    chars
}

/// Whether a character has Unicode's `White_Space` property.
pub open spec fn is_white_space(c: char) -> bool {
    ||| '\u{9}' <= c <= '\u{d}'
    ||| c == '\u{20}'
    ||| c == '\u{85}'
    ||| c == '\u{a0}'
    ||| c == '\u{1680}'
    ||| '\u{2000}' <= c <= '\u{200a}'
    ||| c == '\u{2028}'
    ||| c == '\u{2029}'
    ||| c == '\u{202f}'
    ||| c == '\u{205f}'
    ||| c == '\u{3000}'
}

/// Whether a character is white space.
pub fn white_space(c: char) -> (yes: bool)
    ensures
        yes == is_white_space(c),
{
    ('\u{9}' <= c && c <= '\u{d}') || c == '\u{20}' || c == '\u{85}' || c == '\u{a0}' || c
        == '\u{1680}' || ('\u{2000}' <= c && c <= '\u{200a}') || c == '\u{2028}' || c == '\u{2029}'
        || c == '\u{202f}' || c == '\u{205f}' || c == '\u{3000}'
}

/// `s` without the white space that it begins with.
pub open spec fn trimmed_start(s: Seq<char>) -> Seq<char>
    decreases s.len(),
{
    if s.len() > 0 && is_white_space(s[0]) {
        trimmed_start(s.drop_first())
    } else {
        s
    }
}

/// `s` without the white space that it ends with.
pub open spec fn trimmed_end(s: Seq<char>) -> Seq<char>
    decreases s.len(),
{
    if s.len() > 0 && is_white_space(s.last()) {
        trimmed_end(s.drop_last())
    } else {
        s
    }
}

/// `s` without the white space at its two ends.
pub open spec fn trimmed(s: Seq<char>) -> Seq<char> {
    trimmed_end(trimmed_start(s))
}

/// A text without the white space at its two ends.
pub fn trim(s: &str) -> (t: String)
    ensures
        t@ == trimmed(s@),
{
    let chars = chars_of(s);
    let mut from: usize = 0;
    assert(chars@.skip(0) =~= chars@);
    while from < chars.len() && white_space(chars[from])
        invariant
            from <= chars@.len(),
            trimmed_start(chars@) == trimmed_start(chars@.skip(from as int)),
        decreases chars@.len() - from,
    {
        assert(chars@.skip(from as int).drop_first() =~= chars@.skip(from + 1));
        from += 1;
    }
    let ghost rest = chars@.skip(from as int);
    assert(trimmed_start(chars@) == rest);
    let mut to: usize = chars.len();
    assert(chars@.subrange(from as int, to as int) =~= rest);
    while from < to && white_space(chars[to - 1])
        invariant
            from <= to <= chars@.len(),
            trimmed_end(rest) == trimmed_end(chars@.subrange(from as int, to as int)),
        decreases to,
    {
        assert(chars@.subrange(from as int, to as int).drop_last() =~= chars@.subrange(
            from as int,
            to - 1,
        ));
        to -= 1;
    }
    s.substring_char(from, to).to_owned()
}

/// A text without the `c`s that it ends with.
pub open spec fn without_end(s: Seq<char>, c: char) -> Seq<char>
    decreases s.len(),
{
    if s.len() > 0 && s.last() == c {
        without_end(s.drop_last(), c)
    } else {
        s
    }
}

/// A text without the `c`s that it ends with.
pub fn trim_end_matches(s: &str, c: char) -> (t: String)
    ensures
        t@ == without_end(s@, c),
{
    let chars = chars_of(s);
    let mut to: usize = chars.len();
    assert(chars@.take(to as int) =~= chars@);
    while 0 < to && chars[to - 1] == c
        invariant
            to <= chars@.len(),
            without_end(chars@, c) == without_end(chars@.take(to as int), c),
        decreases to,
    {
        assert(chars@.take(to as int).drop_last() =~= chars@.take(to - 1));
        to -= 1;
    }
    assert(chars@.take(to as int) =~= chars@.subrange(0, to as int));
    s.substring_char(0, to).to_owned()
}

/// The pieces of `s` between the `c`s in it, one more than there are `c`s.
pub open spec fn pieces(s: Seq<char>, c: char) -> Seq<Seq<char>>
    decreases s.len(),
{
    if s.len() == 0 {
        seq![Seq::empty()]
    } else {
        let before = pieces(s.drop_last(), c);
        if s.last() == c {
            before.push(Seq::empty())
        } else {
            before.update(before.len() - 1, before.last().push(s.last()))
        }
    }
}

/// Views of a list of texts.
pub open spec fn texts(list: Seq<String>) -> Seq<Seq<char>> {
    list.map_values(|s: String| s@)
}

/// Splits a text at every `c`.
pub fn split(s: &str, c: char) -> (list: Vec<String>)
    ensures
        texts(list@) == pieces(s@, c),
{
    let chars = chars_of(s);
    let mut list: Vec<String> = Vec::new();
    let mut piece = String::new();
    let mut i: usize = 0;
    assert(chars@.take(0) =~= Seq::empty());
    assert(texts(list@).push(piece@) =~= seq![Seq::empty()]);
    while i < chars.len()
        invariant
            i <= chars@.len(),
            texts(list@).push(piece@) == pieces(chars@.take(i as int), c),
        decreases chars@.len() - i,
    {
        let ghost before = texts(list@);
        let ghost so_far = piece@;
        assert(chars@.take(i + 1).drop_last() =~= chars@.take(i as int));
        if chars[i] == c {
            list.push(piece);
            piece = String::new();
            assert(texts(list@) =~= before.push(so_far));
        } else {
            piece.push(chars[i]);
            assert(before.push(so_far).update(before.len() as int, piece@) =~= before.push(piece@));
        }
        i += 1;
    }
    assert(chars@.take(chars@.len() as int) =~= chars@);
    let ghost before = texts(list@);
    let ghost last = piece@;
    list.push(piece);
    assert(texts(list@) =~= before.push(last));
    list
}

/// How many characters of a text stand before the first `c` in it: all of them
/// where there is none.
pub open spec fn before_first(s: Seq<char>, c: char) -> nat
    decreases s.len(),
{
    if s.len() == 0 || s[0] == c {
        0
    } else {
        1 + before_first(s.drop_first(), c)
    }
}

/// What stands before the first `c` of a text and what stands behind it.
pub open spec fn halves(s: Seq<char>, c: char) -> Option<(Seq<char>, Seq<char>)> {
    let at = before_first(s, c) as int;
    if at < s.len() {
        Some((s.take(at), s.skip(at + 1)))
    } else {
        None
    }
}

/// Splits a text at the first `c`.
pub fn split_once(s: &str, c: char) -> (parts: Option<(String, String)>)
    ensures
        halves(s@, c) == (match parts {
            Some((before, after)) => Some((before@, after@)),
            None => None,
        }),
{
    let chars = chars_of(s);
    let mut i: usize = 0;
    assert(chars@.skip(0) =~= chars@);
    while i < chars.len()
        invariant
            i <= chars@.len(),
            chars@ == s@,
            before_first(s@, c) == i + before_first(s@.skip(i as int), c),
        decreases chars@.len() - i,
    {
        if chars[i] == c {
            let before = s.substring_char(0, i).to_owned();
            let after = s.substring_char(i + 1, chars.len()).to_owned();
            assert(before@ =~= s@.take(i as int));
            assert(after@ =~= s@.skip(i + 1));
            return Some((before, after));
        }
        assert(s@.skip(i as int).drop_first() =~= s@.skip(i + 1));
        i += 1;
    }
    None
}

/// A text is split at the first `c`, if and only if there is one.
pub proof fn law_split_at_the_first(s: Seq<char>, c: char)
    ensures
        halves(s, c) is Some <==> s.contains(c),
        halves(s, c) matches Some((before, after)) ==> {
            &&& !before.contains(c)
            &&& s == before.push(c) + after
        },
    decreases s.len(),
{
    if s.len() > 0 && s[0] != c {
        let rest = s.drop_first();
        law_split_at_the_first(rest, c);
        if s.contains(c) {
            let i = choose|i: int| 0 <= i < s.len() && s[i] == c;
            assert(rest[i - 1] == c);
        }
        match halves(rest, c) {
            Some((before, after)) => {
                let (longer, same) = halves(s, c).unwrap();
                assert(longer =~= seq![s[0]] + before);
                assert(same =~= after);
                assert(rest.contains(rest[before.len() as int]));
                assert(s =~= longer.push(c) + after);
                assert forall|i: int| 0 <= i < longer.len() implies longer[i] != c by {
                    if i > 0 {
                        assert(before.contains(before[i - 1]));
                    }
                }
                assert(s[before.len() as int + 1] == c);
            },
            None => {},
        }
    } else if s.len() > 0 {
        assert(s.contains(s[0]));
        assert(s.take(0).push(c) + s.skip(1) =~= s);
    }
}

/// A line without the carriage return that it ends with, where it does.
pub open spec fn without_cr(line: Seq<char>) -> Seq<char> {
    if line.len() > 0 && line.last() == '\r' {
        line.drop_last()
    } else {
        line
    }
}

/// The lines of a text. A line ends with a line feed, or a carriage return and
/// a line feed; behind the last line it may be missing.
pub open spec fn lines_of(s: Seq<char>) -> Seq<Seq<char>> {
    let all = pieces(s, '\n');
    let ended = all.drop_last().map_values(|line: Seq<char>| without_cr(line));
    if all.last().len() == 0 {
        ended
    } else {
        ended.push(all.last())
    }
}

/// The lines of a text.
pub fn lines(s: &str) -> (list: Vec<String>)
    ensures
        texts(list@) == lines_of(s@),
{
    let all = split(s, '\n');
    proof {
        lemma_pieces_nonempty(s@, '\n');
        assert(texts(all@).len() == all@.len());
    }
    let n: usize = all.len();
    let ghost pieces = texts(all@);
    let ghost ended = pieces.drop_last().map_values(|line: Seq<char>| without_cr(line));
    let mut list: Vec<String> = Vec::new();
    let mut i: usize = 0;
    while i + 1 < n
        invariant
            i + 1 <= n,
            n == all@.len(),
            pieces == texts(all@),
            ended == pieces.drop_last().map_values(|line: Seq<char>| without_cr(line)),
            texts(list@) == ended.take(i as int),
        decreases n - i,
    {
        let line = all[i].as_str();
        let len = line.unicode_len();
        let kept = if len > 0 && line.get_char(len - 1) == '\r' {
            line.substring_char(0, len - 1).to_owned()
        } else {
            line.to_owned()
        };
        assert(kept@ =~= without_cr(line@));
        let ghost before = texts(list@);
        list.push(kept);
        assert(texts(list@) =~= before.push(kept@));
        assert(ended.take(i + 1) =~= ended.take(i as int).push(ended[i as int]));
        i += 1;
    }
    assert(ended.take(n - 1) =~= ended);
    if all[n - 1].as_str().is_empty() {
        list
    } else {
        let last = all[n - 1].clone();
        list.push(last);
        assert(texts(list@) =~= ended.push(last@));
        list
    }
}

/// There is at least one piece.
pub proof fn lemma_pieces_nonempty(s: Seq<char>, c: char)
    ensures
        pieces(s, c).len() > 0,
    decreases s.len(),
{
    if s.len() > 0 {
        lemma_pieces_nonempty(s.drop_last(), c);
    }
}

/// A text behind `s` without a `c` in it extends the last piece of `s`.
pub proof fn lemma_pieces_extend(s: Seq<char>, t: Seq<char>, c: char)
    requires
        !t.contains(c),
    ensures
        pieces(s + t, c) == pieces(s, c).update(
            pieces(s, c).len() - 1,
            pieces(s, c).last() + t,
        ),
    decreases t.len(),
{
    lemma_pieces_nonempty(s, c);
    let all = pieces(s, c);
    if t.len() == 0 {
        assert(s + t =~= s);
        assert(all.last() + t =~= all.last());
        assert(all.update(all.len() - 1, all.last()) =~= all);
    } else {
        let front = t.drop_last();
        assert forall|i: int| 0 <= i < front.len() implies front[i] != c by {
            assert(t.contains(t[i]));
        }
        lemma_pieces_extend(s, front, c);
        assert(t.contains(t.last()));
        assert((s + t).drop_last() =~= s + front);
        let before = all.update(all.len() - 1, all.last() + front);
        assert((all.last() + front).push(t.last()) =~= all.last() + t);
        assert(before.update(before.len() - 1, before.last().push(t.last())) =~= all.update(
            all.len() - 1,
            all.last() + t,
        ));
    }
}

/// Lines written one behind the other, each with a line feed.
pub open spec fn unlines(list: Seq<Seq<char>>) -> Seq<char>
    decreases list.len(),
{
    if list.len() == 0 {
        Seq::empty()
    } else {
        unlines(list.drop_last()) + list.last().push('\n')
    }
}

/// Lines without a line break, written one behind the other, are read back as
/// they were.
pub proof fn law_lines_read_back(list: Seq<Seq<char>>)
    requires
        forall|i: int, k: int|
            0 <= i < list.len() && 0 <= k < list[i].len() ==> (#[trigger] list[i][k]) != '\n'
                && list[i][k] != '\r',
    ensures
        lines_of(unlines(list)) == list,
{
    lemma_pieces_of_lines(list);
    let all = pieces(unlines(list), '\n');
    assert(all.drop_last() =~= list);
    assert(all.drop_last().map_values(|line: Seq<char>| without_cr(line)) =~= list);
}

proof fn lemma_pieces_of_lines(list: Seq<Seq<char>>)
    requires
        forall|i: int, k: int|
            0 <= i < list.len() && 0 <= k < list[i].len() ==> (#[trigger] list[i][k]) != '\n'
                && list[i][k] != '\r',
    ensures
        pieces(unlines(list), '\n') == list.push(Seq::empty()),
    decreases list.len(),
{
    if list.len() == 0 {
        assert(pieces(unlines(list), '\n') =~= list.push(Seq::empty()));
    } else {
        let front = list.drop_last();
        let last = list.last();
        assert forall|i: int, k: int| 0 <= i < front.len() && 0 <= k < front[i].len() implies (
        #[trigger] front[i][k]) != '\n' && front[i][k] != '\r' by {
            assert(list[i][k] == front[i][k]);
        }
        lemma_pieces_of_lines(front);
        assert(!last.contains('\n')) by {
            assert(list[list.len() - 1] == last);
        }
        lemma_pieces_extend(unlines(front), last, '\n');
        let whole = unlines(front) + last.push('\n');
        assert(whole.drop_last() =~= unlines(front) + last);
        assert(Seq::<char>::empty() + last =~= last);
        assert(pieces(unlines(front) + last, '\n') =~= list);
        assert(pieces(whole, '\n') =~= list.push(Seq::empty()));
    }
}

/// The parts with `sep` between every two of them.
pub open spec fn joined(parts: Seq<Seq<char>>, sep: Seq<char>) -> Seq<char>
    decreases parts.len(),
{
    if parts.len() == 0 {
        Seq::empty()
    } else if parts.len() == 1 {
        parts[0]
    } else {
        joined(parts.drop_last(), sep) + sep + parts.last()
    }
}

/// Joins texts with `sep` between every two of them.
pub fn join(parts: &Vec<String>, sep: &str) -> (s: String)
    ensures
        s@ == joined(texts(parts@), sep@),
{
    let mut s = String::new();
    let mut i: usize = 0;
    while i < parts.len()
        invariant
            i <= parts@.len(),
            s@ == joined(texts(parts@).take(i as int), sep@),
        decreases parts@.len() - i,
    {
        assert(texts(parts@).take(i + 1).drop_last() =~= texts(parts@).take(i as int));
        if i > 0 {
            s.append(sep);
        } else {
            assert(s@ =~= Seq::empty());
        }
        let ghost so_far = s@;
        s.append(parts[i].as_str());
        assert(i == 0 ==> so_far + parts@[0]@ =~= parts@[0]@);
        i += 1;
    }
    assert(texts(parts@).take(parts@.len() as int) =~= texts(parts@));
    s
}

/// The digit for a number below ten.
pub open spec fn digit(n: nat) -> char {
    ('0' as u8 + n) as u8 as char
}

/// The decimal numeral of `n`.
pub open spec fn decimal(n: nat) -> Seq<char>
    decreases n,
{
    if n < 10 {
        seq![digit(n)]
    } else {
        decimal(n / 10).push(digit(n % 10))
    }
}

/// The decimal numeral of a number.
pub fn to_decimal(n: u64) -> (s: String)
    ensures
        s@ == decimal(n as nat),
    decreases n,
{
    let last = ('0' as u8 + (n % 10) as u8) as char;
    let mut s = if n < 10 {
        String::new()
    } else {
        to_decimal(n / 10)
    };
    s.push(last);
    assert(n < 10 ==> s@ =~= seq![digit(n as nat)]);
    s
}

/// Whether a text is white space alone.
pub open spec fn all_white(s: Seq<char>) -> bool {
    forall|i: int| 0 <= i < s.len() ==> is_white_space(#[trigger] s[i])
}

/// White space is what Unicode calls so, by code point.
pub proof fn law_white_space(c: char)
    ensures
        is_white_space(c) <==> {
            let n = c as int;
            ||| n == 9 || n == 10 || n == 11 || n == 12 || n == 13
            ||| n == 32 || n == 133 || n == 160 || n == 5760
            ||| 8192 <= n <= 8202
            ||| n == 8232 || n == 8233 || n == 8239 || n == 8287 || n == 12288
        },
{
}

proof fn lemma_trim_start(before: Seq<char>, s: Seq<char>)
    requires
        all_white(before),
        s.len() == 0 || !is_white_space(s[0]),
    ensures
        trimmed_start(before + s) == s,
    decreases before.len(),
{
    if before.len() == 0 {
        assert(before + s =~= s);
    } else {
        assert forall|i: int| 0 <= i < before.drop_first().len() implies is_white_space(
            #[trigger] before.drop_first()[i],
        ) by {
            assert(is_white_space(before[i + 1]));
        }
        lemma_trim_start(before.drop_first(), s);
        assert(is_white_space(before[0]));
        assert((before + s).drop_first() =~= before.drop_first() + s);
    }
}

proof fn lemma_trim_end(s: Seq<char>, after: Seq<char>)
    requires
        all_white(after),
        s.len() == 0 || !is_white_space(s.last()),
    ensures
        trimmed_end(s + after) == s,
    decreases after.len(),
{
    if after.len() == 0 {
        assert(s + after =~= s);
    } else {
        assert forall|i: int| 0 <= i < after.drop_last().len() implies is_white_space(
            #[trigger] after.drop_last()[i],
        ) by {
            assert(is_white_space(after[i]));
        }
        lemma_trim_end(s, after.drop_last());
        assert(is_white_space(after[after.len() - 1]));
        assert((s + after).drop_last() =~= s + after.drop_last());
    }
}

/// Trimming takes the white space off both ends and nothing else.
pub proof fn law_trim(before: Seq<char>, s: Seq<char>, after: Seq<char>)
    requires
        all_white(before),
        all_white(after),
        s.len() > 0 ==> !is_white_space(s[0]) && !is_white_space(s.last()),
    ensures
        trimmed(before + s + after) == s,
{
    if s.len() == 0 {
        let all = before + s + after;
        assert forall|i: int| 0 <= i < all.len() implies is_white_space(#[trigger] all[i]) by {
            if i < before.len() {
                assert(is_white_space(before[i]));
            } else {
                assert(is_white_space(after[i - before.len()]));
            }
        }
        lemma_trim_start(all, s);
        assert(all + s =~= all);
        lemma_trim_end(s, Seq::empty());
        assert(s + Seq::<char>::empty() =~= s);
    } else {
        lemma_trim_start(before, s + after);
        assert(before + (s + after) =~= before + s + after);
        lemma_trim_end(s, after);
    }
}

/// Taking a character off the end takes every one of it there is and nothing
/// else.
pub proof fn law_without_end(s: Seq<char>, c: char, n: nat)
    requires
        s.len() == 0 || s.last() != c,
    ensures
        without_end(s + Seq::new(n, |i: int| c), c) == s,
    decreases n,
{
    let run = Seq::new(n, |i: int| c);
    if n == 0 {
        assert(s + run =~= s);
    } else {
        let shorter = Seq::new((n - 1) as nat, |i: int| c);
        law_without_end(s, c, (n - 1) as nat);
        assert((s + run).drop_last() =~= s + shorter);
        assert((s + run).last() == c);
    }
}

/// Pieces hold no separator, and with the separator between every two of them
/// they are the text that was split.
pub proof fn law_split(s: Seq<char>, c: char)
    ensures
        pieces(s, c).len() > 0,
        forall|i: int| 0 <= i < pieces(s, c).len() ==> !(#[trigger] pieces(s, c)[i]).contains(c),
        joined(pieces(s, c), seq![c]) == s,
    decreases s.len(),
{
    reveal_with_fuel(joined, 2);
    if s.len() == 0 {
        assert(joined(pieces(s, c), seq![c]) =~= s);
    } else {
        law_split(s.drop_last(), c);
        let before = pieces(s.drop_last(), c);
        let all = pieces(s, c);
        assert forall|i: int| 0 <= i < all.len() implies !(#[trigger] all[i]).contains(c) by {
            if s.last() == c {
                if i < before.len() {
                    assert(!before[i].contains(c));
                }
            } else {
                assert(!before[i].contains(c));
                if i == before.len() - 1 {
                    let longer = before[i].push(s.last());
                    assert forall|k: int| 0 <= k < longer.len() implies longer[k] != c by {
                        if k < before[i].len() {
                            assert(before[i].contains(before[i][k]));
                        }
                    }
                }
            }
        }
        if s.last() == c {
            assert(all.drop_last() =~= before);
            assert(joined(all, seq![c]) =~= s);
        } else {
            assert(all.drop_last() =~= before.drop_last());
            assert(all.last() == before.last().push(s.last()));
            assert(s =~= joined(before, seq![c]).push(s.last()));
            if before.len() > 1 {
                let front = joined(before.drop_last(), seq![c]);
                assert(joined(before, seq![c]) == front + seq![c] + before.last());
                assert(joined(all, seq![c]) == front + seq![c] + all.last());
                assert(joined(all, seq![c]) =~= s);
            }
        }
    }
}

/// Joined texts follow one another with the separator between every two: one
/// text is itself, and a text in front is followed by the separator and the
/// others.
pub proof fn law_join(first: Seq<char>, rest: Seq<Seq<char>>, sep: Seq<char>)
    ensures
        joined(Seq::empty(), sep).len() == 0,
        joined(seq![first], sep) == first,
        rest.len() > 0 ==> joined(seq![first] + rest, sep) == first + sep + joined(rest, sep),
    decreases rest.len(),
{
    if rest.len() == 1 {
        assert((seq![first] + rest).drop_last() =~= seq![first]);
        assert((seq![first] + rest).last() == rest[0]);
    } else if rest.len() > 1 {
        law_join(first, rest.drop_last(), sep);
        assert((seq![first] + rest).drop_last() =~= seq![first] + rest.drop_last());
        assert(joined(seq![first] + rest, sep) =~= first + sep + joined(rest, sep));
    }
}

/// The number that a numeral stands for.
pub open spec fn number_of(s: Seq<char>) -> int
    decreases s.len(),
{
    if s.len() == 0 {
        0
    } else {
        number_of(s.drop_last()) * 10 + (s.last() as int - '0' as int)
    }
}

/// A numeral is made of digits, does not begin with a zero unless it is just
/// that, and stands for its number.
pub proof fn law_decimal(n: nat)
    ensures
        decimal(n).len() > 0,
        forall|i: int| 0 <= i < decimal(n).len() ==> '0' <= #[trigger] decimal(n)[i] <= '9',
        n > 0 ==> decimal(n)[0] != '0',
        n == 0 ==> decimal(n).len() == 1,
        number_of(decimal(n)) == n,
    decreases n,
{
    reveal_with_fuel(number_of, 2);
    if n >= 10 {
        law_decimal(n / 10);
        assert(decimal(n).drop_last() =~= decimal(n / 10));
    }
}

/// A text is read line by line: behind whole lines, one more with its line
/// break is one more line, less a carriage return in front of the break; and
/// what stands behind the last break is a line as it is, unless it is empty.
pub proof fn law_one_more_line(s: Seq<char>, line: Seq<char>)
    requires
        s.len() == 0 || s.last() == '\n',
        !line.contains('\n'),
    ensures
        lines_of(Seq::empty()).len() == 0,
        lines_of(s + line.push('\n')) == lines_of(s).push(
            if line.len() > 0 && line.last() == '\r' {
                line.drop_last()
            } else {
                line
            },
        ),
        line.len() > 0 ==> lines_of(s + line) == lines_of(s).push(line),
{
    let nothing = Seq::<char>::empty();
    assert(pieces(nothing, '\n') =~= seq![nothing]);
    assert(lines_of(nothing) =~= Seq::empty());
    let strip = |line: Seq<char>| without_cr(line);
    lemma_pieces_nonempty(s, '\n');
    let all = pieces(s, '\n');
    assert(all.last() =~= nothing);
    lemma_pieces_extend(s, line, '\n');
    assert(nothing + line =~= line);
    let longer = pieces(s + line, '\n');
    assert(longer =~= all.drop_last().push(line));
    assert(longer.drop_last() =~= all.drop_last());
    let whole = s + line.push('\n');
    assert(whole.drop_last() =~= s + line);
    assert(whole.last() == '\n');
    let more = pieces(whole, '\n');
    assert(more =~= longer.push(nothing));
    assert(more.drop_last() =~= longer);
    assert(longer.map_values(strip) =~= all.drop_last().map_values(strip).push(without_cr(line)));
}

/// An item that there is comes last, and one that there is not changes nothing.
pub proof fn law_push_opt<A>(list: Seq<A>, item: A, s: Seq<char>)
    ensures
        push_opt(list, Some(item)) == list.push(item),
        push_opt(list, None::<A>) == list,
        or_empty(Some(s)) == s,
        or_empty(None).len() == 0,
{
}

/// A list of texts is read as it stands, text by text, and so is a text that
/// may be missing.
pub proof fn law_texts(list: Seq<String>, s: String, t: &str)
    ensures
        texts(list).len() == list.len(),
        forall|i: int| 0 <= i < list.len() ==> #[trigger] texts(list)[i] == list[i]@,
        opt_string(Some(s)) == Some(s@),
        opt_string(None) is None,
        opt_text(Some(t)) == Some(t@),
        opt_text(None) is None,
{
}

} // verus!
