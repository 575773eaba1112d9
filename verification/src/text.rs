//! Settings text: comparing, trimming, lowering and splitting it, character by character.

use vstd::prelude::*;

verus! {

/// The characters with the Unicode property `White_Space`.
pub open spec fn white_space(c: char) -> bool {
    let code = c as u32;
    ||| 0x09 <= code <= 0x0d
    ||| code == 0x20
    ||| code == 0x85
    ||| code == 0xa0
    ||| code == 0x1680
    ||| 0x2000 <= code <= 0x200a
    ||| code == 0x2028
    ||| code == 0x2029
    ||| code == 0x202f
    ||| code == 0x205f
    ||| code == 0x3000
}

/// `c`, with `A` to `Z` replaced by `a` to `z`.
pub open spec fn lowered(c: char) -> char {
    if 'A' <= c <= 'Z' {
        (c as u32 + 32) as char
    } else {
        c
    }
}

/// `text` with every character lowered.
pub open spec fn ascii_lower(text: Seq<char>) -> Seq<char> {
    text.map_values(|c: char| lowered(c))
}

/// `text` without its leading white space.
pub open spec fn trim_start(text: Seq<char>) -> Seq<char>
    decreases text.len(),
{
    if text.len() > 0 && white_space(text.first()) {
        trim_start(text.drop_first())
    } else {
        text
    }
}

/// `text` without its trailing white space.
pub open spec fn trim_end(text: Seq<char>) -> Seq<char>
    decreases text.len(),
{
    if text.len() > 0 && white_space(text.last()) {
        trim_end(text.drop_last())
    } else {
        text
    }
}

/// `text` without white space at either end.
pub open spec fn trim(text: Seq<char>) -> Seq<char> {
    trim_end(trim_start(text))
}

/// How settings are read: without surrounding white space, and without regard to ASCII case.
pub open spec fn normalized(text: Seq<char>) -> Seq<char> {
    ascii_lower(trim(text))
}

/// The pieces of `text` between occurrences of `separator`; there is always at least one.
pub open spec fn pieces(text: Seq<char>, separator: char) -> Seq<Seq<char>>
    decreases text.len(),
{
    if text.len() == 0 {
        seq![Seq::<char>::empty()]
    } else {
        let before = pieces(text.drop_last(), separator);
        if text.last() == separator {
            before.push(Seq::<char>::empty())
        } else {
            before.update(before.len() - 1, before.last().push(text.last()))
        }
    }
}

/// The number that decimal digits spell, or `None` where something else is among them.
pub open spec fn digits_value(digits: Seq<char>) -> Option<nat>
    decreases digits.len(),
{
    if digits.len() == 0 {
        Some(0)
    } else {
        match digits_value(digits.drop_last()) {
            Some(value) if '0' <= digits.last() <= '9' => Some(
                value * 10 + (digits.last() as u32 - '0' as u32) as nat,
            ),
            _ => None,
        }
    }
}

/// The number that a text spells: at least one decimal digit, perhaps after a plus sign, and no more
/// than `usize` can hold.
pub open spec fn count_of(text: Seq<char>) -> Option<nat> {
    let digits = if text.len() > 0 && text.first() == '+' {
        text.drop_first()
    } else {
        text
    };
    match digits_value(digits) {
        Some(value) if digits.len() > 0 && value <= usize::MAX => Some(value),
        _ => None,
    }
}

pub fn is_white_space(c: char) -> (white: bool)
    ensures
        white == white_space(c),
        white <==> (c as u32 == 0x20 || 0x09 <= c as u32 <= 0x0d || c as u32 == 0x85 || c as u32 == 0xa0
            || c as u32 == 0x1680 || 0x2000 <= c as u32 <= 0x200a || c as u32 == 0x2028 || c as u32
            == 0x2029 || c as u32 == 0x202f || c as u32 == 0x205f || c as u32 == 0x3000),
{
    let code: u32 = c as u32;
    (0x09 <= code && code <= 0x0d) || code == 0x20 || code == 0x85 || code == 0xa0 || code == 0x1680
        || (0x2000 <= code && code <= 0x200a) || code == 0x2028 || code == 0x2029 || code == 0x202f
        || code == 0x205f || code == 0x3000
}

/// The characters of a string.
pub fn characters(text: &str) -> (chars: Vec<char>)
    ensures
        chars@ == text@,
{
    let mut chars: Vec<char> = Vec::new();
    for c in it: text.chars()
        invariant
            it.seq() == text@,
            chars@ == text@.take(it.index()),
    {
        chars.push(c);
    }
    chars
}

/// Whether two strings hold the same characters.
pub fn same_text(left: &str, right: &str) -> (same: bool)
    ensures
        same == (left@ == right@),
{
    spells(&characters(left), right)
}

/// Whether `chars` are the characters of `word`.
pub fn spells(chars: &Vec<char>, word: &str) -> (same: bool)
    ensures
        same == (chars@ == word@),
{
    let letters: Vec<char> = characters(word);
    if chars.len() != letters.len() {
        return false;
    }
    let mut i: usize = 0;
    while i < chars.len()
        invariant
            i <= chars.len(),
            chars.len() == letters.len(),
            letters@ == word@,
            forall|j: int| 0 <= j < i ==> chars@[j] == letters@[j],
        decreases chars.len() - i,
    {
        if chars[i] != letters[i] {
            return false;
        }
        i = i + 1;
    }
    assert(chars@ =~= letters@);
    true
}

fn lower(c: char) -> (low: char)
    ensures
        low == lowered(c),
{
    if 'A' <= c && c <= 'Z' {
        let code: u8 = c as u8;
        (code + 32) as char
    } else {
        c
    }
}

/// The range of `chars[from..to]` that is left without white space at either end.
pub fn trimmed_range(chars: &Vec<char>, from: usize, to: usize) -> (range: (usize, usize))
    requires
        from <= to <= chars.len(),
    ensures
        from <= range.0 <= range.1 <= to,
        chars@.subrange(range.0 as int, range.1 as int) == trim(
            chars@.subrange(from as int, to as int),
        ),
{
    let mut start: usize = from;
    while start < to && is_white_space(chars[start])
        invariant
            from <= start <= to <= chars.len(),
            trim_start(chars@.subrange(start as int, to as int)) == trim_start(
                chars@.subrange(from as int, to as int),
            ),
        decreases to - start,
    {
        assert(chars@.subrange(start as int, to as int).drop_first() =~= chars@.subrange(
            start + 1,
            to as int,
        ));
        start = start + 1;
    }
    let mut end: usize = to;
    while start < end && is_white_space(chars[end - 1])
        invariant
            start <= end <= to <= chars.len(),
            trim_end(chars@.subrange(start as int, end as int)) == trim_end(
                chars@.subrange(start as int, to as int),
            ),
        decreases end - start,
    {
        assert(chars@.subrange(start as int, end as int).drop_last() =~= chars@.subrange(
            start as int,
            end - 1,
        ));
        end = end - 1;
    }
    (start, end)
}

/// The characters of a setting without surrounding white space and in lower case.
pub fn normalize(text: &str) -> (chars: Vec<char>)
    ensures
        chars@ == normalized(text@),
{
    let all: Vec<char> = characters(text);
    let range: (usize, usize) = trimmed_range(&all, 0, all.len());
    assert(all@.subrange(0, all@.len() as int) =~= text@);
    let ghost kept = all@.subrange(range.0 as int, range.1 as int);
    let mut chars: Vec<char> = Vec::new();
    let mut i: usize = range.0;
    while i < range.1
        invariant
            range.0 <= i <= range.1 <= all.len(),
            kept == all@.subrange(range.0 as int, range.1 as int),
            chars@ == ascii_lower(kept).take(i - range.0),
        decreases range.1 - i,
    {
        chars.push(lower(all[i]));
        assert(chars@ =~= ascii_lower(kept).take(i + 1 - range.0));
        i = i + 1;
    }
    assert(chars@ =~= ascii_lower(kept));
    chars
}

proof fn lemma_more_digits_spell_more(digits: Seq<char>, count: int)
    requires
        0 <= count <= digits.len(),
    ensures
        digits_value(digits) matches Some(value) ==> (digits_value(digits.take(count)) matches Some(
            part,
        ) && part <= value),
    decreases digits.len(),
{
    if count < digits.len() {
        lemma_more_digits_spell_more(digits.drop_last(), count);
        assert(digits.drop_last().take(count) =~= digits.take(count));
    } else {
        assert(digits.take(count) =~= digits);
    }
}

/// Reads a number in decimal digits.
pub fn parse_count(text: &str) -> (count: Option<usize>)
    ensures
        match count {
            Some(value) => count_of(text@) == Some(value as nat),
            None => count_of(text@) is None,
        },
{
    let chars: Vec<char> = characters(text);
    let start: usize = if chars.len() > 0 && chars[0] == '+' {
        1
    } else {
        0
    };
    let ghost digits = if text@.len() > 0 && text@.first() == '+' {
        text@.drop_first()
    } else {
        text@
    };
    assert(digits =~= chars@.skip(start as int));
    if start == chars.len() {
        return None;
    }
    let mut value: usize = 0;
    let mut i: usize = start;
    while i < chars.len()
        invariant
            start <= i <= chars.len(),
            digits == chars@.skip(start as int),
            digits.len() > 0,
            count_of(text@) == (match digits_value(digits) {
                Some(value) if digits.len() > 0 && value <= usize::MAX => Some(value),
                _ => None,
            }),
            digits_value(digits.take(i - start)) == Some(value as nat),
        decreases chars.len() - i,
    {
        let c: char = chars[i];
        let ghost longer = digits.take(i + 1 - start);
        proof {
            assert(longer.drop_last() =~= digits.take(i - start));
            assert(longer.last() == c);
            lemma_more_digits_spell_more(digits, i + 1 - start);
        }
        if !('0' <= c && c <= '9') {
            return None;
        }
        let digit: usize = (c as u32 - '0' as u32) as usize;
        let next: Option<usize> = match value.checked_mul(10) {
            Some(shifted) => shifted.checked_add(digit),
            None => None,
        };
        match next {
            Some(longer_value) => {
                value = longer_value;
            },
            None => {
                return None;
            },
        }
        i = i + 1;
    }
    assert(digits.take(digits.len() as int) =~= digits);
    Some(value)
}

/// A text without the separator is its own only piece.
pub proof fn lemma_single_piece(text: Seq<char>, separator: char)
    requires
        forall|i: int| 0 <= i < text.len() ==> #[trigger] text[i] != separator,
    ensures
        pieces(text, separator) == seq![text],
    decreases text.len(),
{
    if text.len() > 0 {
        lemma_single_piece(text.drop_last(), separator);
        assert(text.drop_last().push(text.last()) =~= text);
    } else {
        assert(text =~= Seq::<char>::empty());
    }
    assert(pieces(text, separator) =~= seq![text]);
}

proof fn lemma_trim_start(text: Seq<char>)
    ensures
        trim_start(text).len() <= text.len(),
        trim_start(text) == text.subrange(text.len() - trim_start(text).len(), text.len() as int),
        trim_start(text).len() > 0 ==> !white_space(trim_start(text).first()),
    decreases text.len(),
{
    if text.len() > 0 && white_space(text.first()) {
        lemma_trim_start(text.drop_first());
        assert(trim_start(text) =~= text.subrange(
            text.len() - trim_start(text).len(),
            text.len() as int,
        ));
    } else {
        assert(text =~= text.subrange(0, text.len() as int));
    }
}

proof fn lemma_trim_end(text: Seq<char>)
    ensures
        trim_end(text).len() <= text.len(),
        trim_end(text) == text.subrange(0, trim_end(text).len() as int),
        trim_end(text).len() > 0 ==> !white_space(trim_end(text).last()),
    decreases text.len(),
{
    if text.len() > 0 && white_space(text.last()) {
        lemma_trim_end(text.drop_last());
        assert(trim_end(text) =~= text.subrange(0, trim_end(text).len() as int));
    } else {
        assert(text =~= text.subrange(0, text.len() as int));
    }
}

/// A normalized text has no white space at its ends and no `A` to `Z` in it, so that normalizing it
/// again changes nothing.
pub proof fn law_normalizing_twice(text: Seq<char>)
    ensures
        normalized(normalized(text)) == normalized(text),
        normalized(text).len() > 0 ==> !white_space(normalized(text).first()) && !white_space(
            normalized(text).last(),
        ),
{
    lemma_trim_start(text);
    lemma_trim_end(trim_start(text));
    let kept = trim(text);
    let low = normalized(text);
    assert forall|i: int| 0 <= i < low.len() implies !('A' <= #[trigger] low[i] <= 'Z')
        && white_space(low[i]) == white_space(kept[i]) by {
        assert(low[i] == lowered(kept[i]));
    }
    if low.len() > 0 {
        assert(kept.first() == trim_start(text).first());
    }
    lemma_normal_text(low);
}

/// Trimming takes off white space and nothing else, at both ends, and all of it: what is left is a
/// stretch of the text with white space alone before it and after it, and none at its own ends. A text
/// of white space leaves nothing.
pub proof fn law_trimming_takes_off_white_space(text: Seq<char>) -> (range: (int, int))
    ensures
        0 <= range.0 <= range.1 <= text.len(),
        trim(text) == text.subrange(range.0, range.1),
        forall|i: int| 0 <= i < range.0 ==> white_space(#[trigger] text[i]),
        forall|i: int| range.1 <= i < text.len() ==> white_space(#[trigger] text[i]),
        range.0 < range.1 ==> !white_space(text[range.0]) && !white_space(text[range.1 - 1]),
{
    lemma_trim_start(text);
    let start = text.len() - trim_start(text).len();
    let rest = trim_start(text);
    lemma_trim_end(rest);
    lemma_trimmed_off_start(text);
    lemma_trimmed_off_end(rest);
    let end = start + trim_end(rest).len();
    assert(trim(text) =~= text.subrange(start, end));
    assert forall|i: int| end <= i < text.len() implies white_space(#[trigger] text[i]) by {
        assert(rest[i - start] == text[i]);
    }
    if start < end {
        assert(trim(text).first() == text[start]);
        assert(trim(text).first() == rest.first());
        assert(trim(text).last() == text[end - 1]);
    }
    (start, end)
}

proof fn lemma_trimmed_off_start(text: Seq<char>)
    ensures
        forall|i: int|
            0 <= i < text.len() - trim_start(text).len() ==> white_space(#[trigger] text[i]),
    decreases text.len(),
{
    if text.len() > 0 && white_space(text.first()) {
        lemma_trimmed_off_start(text.drop_first());
        assert forall|i: int| 0 <= i < text.len() - trim_start(text).len() implies white_space(
            #[trigger] text[i],
        ) by {
            if i > 0 {
                assert(text.drop_first()[i - 1] == text[i]);
            }
        }
    }
}

proof fn lemma_trimmed_off_end(text: Seq<char>)
    ensures
        forall|i: int| trim_end(text).len() <= i < text.len() ==> white_space(#[trigger] text[i]),
    decreases text.len(),
{
    if text.len() > 0 && white_space(text.last()) {
        lemma_trimmed_off_end(text.drop_last());
        assert forall|i: int| trim_end(text).len() <= i < text.len() implies white_space(
            #[trigger] text[i],
        ) by {
            if i < text.len() - 1 {
                assert(text.drop_last()[i] == text[i]);
            }
        }
    }
}

/// Lowering keeps the length of a text and every character but `A` to `Z`, which become `a` to `z`.
/// Normalizing lowers what trimming leaves. White space are the characters of that Unicode property.
pub proof fn law_lowering_replaces_capitals(text: Seq<char>, i: int)
    requires
        0 <= i < text.len(),
    ensures
        ascii_lower(text).len() == text.len(),
        0x41 <= text[i] as u32 <= 0x5a ==> ascii_lower(text)[i] as u32 == text[i] as u32 + 0x20,
        !(0x41 <= text[i] as u32 <= 0x5a) ==> ascii_lower(text)[i] == text[i],
        normalized(text) == ascii_lower(trim(text)),
        white_space(text[i]) <==> (text[i] as u32 == 0x20 || 0x09 <= text[i] as u32 <= 0x0d
            || text[i] as u32
            == 0x85 || text[i] as u32 == 0xa0 || text[i] as u32 == 0x1680 || 0x2000 <= text[i] as u32
            <= 0x200a || text[i] as u32 == 0x2028 || text[i] as u32 == 0x2029
                || text[i] as u32 == 0x202f
            || text[i] as u32 == 0x205f || text[i] as u32 == 0x3000),
{
    assert(ascii_lower(text)[i] == lowered(text[i]));
}

/// A text is cut exactly at its separators: one that is joined from two has the pieces of both, and one
/// without a separator is its own only piece.
pub proof fn law_text_is_cut_at_separators(a: Seq<char>, b: Seq<char>, separator: char)
    ensures
        pieces(a.push(separator) + b, separator) == pieces(a, separator) + pieces(b, separator),
        pieces(b, separator).len() > 0,
        (forall|i: int| 0 <= i < a.len() ==> #[trigger] a[i] != separator) ==> pieces(a, separator)
            == seq![a],
    decreases b.len(),
{
    let joined = a.push(separator) + b;
    if b.len() == 0 {
        assert(joined =~= a.push(separator));
        assert(joined.drop_last() =~= a);
    } else {
        law_text_is_cut_at_separators(a, b.drop_last(), separator);
        assert(joined.drop_last() =~= a.push(separator) + b.drop_last());
        assert(joined.last() == b.last());
    }
    assert(pieces(joined, separator) =~= pieces(a, separator) + pieces(b, separator));
    if forall|i: int| 0 <= i < a.len() ==> #[trigger] a[i] != separator {
        lemma_single_piece(a, separator);
    }
}

/// How numbers are read. A digit alone stands for itself, and one more digit makes ten times as much
/// and the digit; what exceeds `usize` is no number, nor is a text with anything else in it, nor one
/// without a digit. A plus sign may stand in front.
pub proof fn law_counts_are_decimal(text: Seq<char>, c: char)
    ensures
        '0' <= c <= '9' ==> count_of(seq![c]) == Some((c as u32 - 0x30) as nat),
        text.len() > 0 && text.first() != '+' && '0' <= c <= '9' ==> (match count_of(text) {
            Some(value) => count_of(text.push(c)) == (if value * 10 + (c as u32 - 0x30) <= usize::MAX {
                Some((value * 10 + (c as u32 - 0x30)) as nat)
            } else {
                None
            }),
            None => count_of(text.push(c)) is None,
        }),
        !('0' <= c <= '9') && text.len() > 0 ==> count_of(text.push(c)) is None,
        text.len() > 0 && text.first() != '+' ==> count_of(seq!['+'] + text) == count_of(text),
        text.len() > 0 && text.first() == '+' ==> count_of(seq!['+'] + text) is None,
        !('0' <= c <= '9') ==> count_of(seq![c]) is None,
        count_of(Seq::<char>::empty()) is None,
{
    let more = text.push(c);
    assert(more.drop_last() =~= text);
    assert(more.last() == c);
    assert(seq![c].drop_last() =~= Seq::<char>::empty());
    assert(seq![c].drop_first() =~= Seq::<char>::empty());
    assert(seq![c].last() == c && seq![c].first() == c);
    assert(digits_value(Seq::<char>::empty()) == Some(0nat));
    if text.len() > 0 {
        assert(more.first() == text.first());
        assert(more.drop_first() =~= text.drop_first().push(c));
        assert(more.drop_first().drop_last() =~= text.drop_first());
        let signed = seq!['+'] + text;
        assert(signed.first() == '+');
        assert(signed.drop_first() =~= text);
        if text.first() == '+' {
            lemma_first_is_a_digit(text);
        }
    }
}

proof fn lemma_first_is_a_digit(digits: Seq<char>)
    requires
        digits.len() > 0,
    ensures
        digits_value(digits) is Some ==> '0' <= digits.first() <= '9',
    decreases digits.len(),
{
    if digits.len() > 1 {
        lemma_first_is_a_digit(digits.drop_last());
        assert(digits.drop_last().first() == digits.first());
    }
}

/// Lowering and trimming a text that is already lowered and trimmed changes nothing.
pub proof fn lemma_normal_text(text: Seq<char>)
    requires
        text.len() > 0 ==> !white_space(text.first()) && !white_space(text.last()),
        forall|i: int| 0 <= i < text.len() ==> !('A' <= #[trigger] text[i] <= 'Z'),
    ensures
        normalized(text) == text,
{
    assert(ascii_lower(text) =~= text);
}

} // verus!
