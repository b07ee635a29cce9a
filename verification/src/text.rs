//! Text: rendering numbers, comparing header names, and splitting header values.

use vstd::prelude::*;
use vstd::string::*;

verus! {

/// Whether a character has the Unicode property White_Space: the controls from tab to carriage
/// return, the space, the next line control, the no-break space, and the spaces and separators
/// beyond them.
pub open spec fn white_space(c: char) -> bool {
    ||| 0x0009 <= c as u32 <= 0x000d
    ||| c as u32 == 0x0020
    ||| c as u32 == 0x0085
    ||| c as u32 == 0x00a0
    ||| c as u32 == 0x1680
    ||| 0x2000 <= c as u32 <= 0x200a
    ||| c as u32 == 0x2028
    ||| c as u32 == 0x2029
    ||| c as u32 == 0x202f
    ||| c as u32 == 0x205f
    ||| c as u32 == 0x3000
}

/// What `str::to_lowercase` returns for a text: its lowercase equivalent in Unicode.
pub uninterp spec fn unicode_lowercase(text: Seq<char>) -> Seq<char>;

/// `String::push`: appends one character.
pub assume_specification[ String::push ](text: &mut String, c: char)
    ensures
        final(text)@ == old(text)@.push(c),
;

/// `char::is_whitespace`: whether the character has the Unicode property White_Space.
pub assume_specification[ char::is_whitespace ](c: char) -> (white: bool)
    ensures
        white == white_space(c),
;

/// `str::to_lowercase`: the lowercase equivalent, which on ASCII text is the text with each
/// capital letter replaced by its small one.
pub assume_specification[ str::to_lowercase ](text: &str) -> (lower: String)
    ensures
        lower@ == unicode_lowercase(text@),
        (forall|i: int| 0 <= i < text@.len() ==> (#[trigger] text@[i]) as u32 <= 127)
            ==> lower@ == ascii_lowercase(text@),
;

/// A character with an ASCII capital letter replaced by its small one.
pub open spec fn ascii_lower(c: char) -> char {
    if 65 <= c as u32 <= 90 {
        ((c as u32 + 32) as u32) as char
    } else {
        c
    }
}

/// A text with each ASCII capital letter replaced by its small one.
pub open spec fn ascii_lowercase(text: Seq<char>) -> Seq<char> {
    text.map_values(|c: char| ascii_lower(c))
}

/// Whether two texts differ at most in the case of their ASCII letters.
pub open spec fn same_ignoring_ascii_case(a: Seq<char>, b: Seq<char>) -> bool {
    ascii_lowercase(a) == ascii_lowercase(b)
}

/// The character of a decimal digit.
pub open spec fn digit_char(digit: nat) -> char {
    ((48 + digit) as u32) as char
}

/// A number in decimal, without leading zeros.
pub open spec fn decimal(n: nat) -> Seq<char>
    decreases n,
{
    if n < 10 {
        seq![digit_char(n)]
    } else {
        decimal(n / 10).push(digit_char(n % 10))
    }
}

/// Whether a character is a decimal digit.
pub open spec fn is_digit(c: char) -> bool {
    48 <= c as u32 <= 57
}

/// Whether a text is made of decimal digits, at least one.
pub open spec fn is_digits(text: Seq<char>) -> bool {
    text.len() > 0 && forall|i: int| 0 <= i < text.len() ==> is_digit(#[trigger] text[i])
}

/// A number in decimal is made of digits.
pub proof fn lemma_decimal_is_digits(n: nat)
    ensures
        is_digits(decimal(n)),
    decreases n,
{
    if n >= 10 {
        lemma_decimal_is_digits(n / 10);
    }
}

/// Different numbers are different in decimal.
pub proof fn lemma_decimal_tells_apart(a: nat, b: nat)
    requires
        decimal(a) == decimal(b),
    ensures
        a == b,
    decreases a,
{
    lemma_decimal_is_digits(a / 10);
    lemma_decimal_is_digits(b / 10);
    assert(decimal(a).last() == digit_char(a % 10));
    assert(decimal(b).last() == digit_char(b % 10));
    assert(digit_char(a % 10) as u32 == 48 + a % 10);
    assert(digit_char(b % 10) as u32 == 48 + b % 10);
    if a >= 10 && b >= 10 {
        assert(decimal(a).drop_last() =~= decimal(a / 10));
        assert(decimal(b).drop_last() =~= decimal(b / 10));
        lemma_decimal_tells_apart(a / 10, b / 10);
    } else {
        assert(a < 10 <==> decimal(a).len() == 1);
        assert(b < 10 <==> decimal(b).len() == 1);
    }
}

/// Renders a number in decimal.
pub fn decimal_text(n: u64) -> (text: String)
    ensures
        text@ == decimal(n as nat),
    decreases n,
{
    let mut text = if n < 10 {
        String::new()
    } else {
        decimal_text(n / 10)
    };
    let digit: u8 = (n % 10) as u8;
    text.push((48 + digit) as char);
    text
}

/// The characters of a text.
pub fn chars_of(text: &str) -> (chars: Vec<char>)
    ensures
        chars@ == text@,
{
    let mut chars: Vec<char> = Vec::new();
    for c in it: text.chars()
        invariant
            it.seq() == text@,
            chars@ == text@.take(it.index() as int),
    {
        chars.push(c);
    }
    chars
}

/// Whether two texts are the same.
pub fn same_text(a: &str, b: &str) -> (same: bool)
    ensures
        same == (a@ == b@),
{
    a.to_owned() == b.to_owned()
}

/// The text that the characters from `from` up to `to` spell.
pub fn text_of(chars: &Vec<char>, from: usize, to: usize) -> (text: String)
    requires
        from <= to <= chars@.len(),
    ensures
        text@ == chars@.subrange(from as int, to as int),
{
    let mut text = String::new();
    let mut i: usize = from;
    while i < to
        invariant
            from <= i <= to <= chars@.len(),
            text@ == chars@.subrange(from as int, i as int),
        decreases to - i,
    {
        text.push(chars[i]);
        i += 1;
    }
    text
}

/// Computes [`ascii_lower`].
fn lower_char(c: char) -> (lower: char)
    ensures
        lower == ascii_lower(c),
{
    let code: u32 = c as u32;
    if 65 <= code && code <= 90 {
        (code as u8 + 32) as char
    } else {
        c
    }
}

/// Whether two texts differ at most in the case of their ASCII letters.
pub fn eq_ignore_ascii_case(a: &str, b: &str) -> (same: bool)
    ensures
        same == same_ignoring_ascii_case(a@, b@),
{
    let left = chars_of(a);
    let right = chars_of(b);
    if left.len() != right.len() {
        proof {
            assert(ascii_lowercase(a@).len() != ascii_lowercase(b@).len());
        }
        return false;
    }
    let mut i: usize = 0;
    while i < left.len()
        invariant
            i <= left@.len(),
            left@ == a@,
            right@ == b@,
            left@.len() == right@.len(),
            forall|j: int| 0 <= j < i ==> ascii_lower(#[trigger] a@[j]) == ascii_lower(b@[j]),
        decreases left@.len() - i,
    {
        if lower_char(left[i]) != lower_char(right[i]) {
            proof {
                assert(ascii_lowercase(a@)[i as int] != ascii_lowercase(b@)[i as int]);
            }
            return false;
        }
        i += 1;
    }
    proof {
        assert(ascii_lowercase(a@) =~= ascii_lowercase(b@));
    }
    true
}

/// A text without the white space that it starts with.
pub open spec fn trimmed_front(text: Seq<char>) -> Seq<char>
    decreases text.len(),
{
    if text.len() > 0 && white_space(text.first()) {
        trimmed_front(text.drop_first())
    } else {
        text
    }
}

/// A text without the white space that it ends with.
pub open spec fn trimmed_back(text: Seq<char>) -> Seq<char>
    decreases text.len(),
{
    if text.len() > 0 && white_space(text.last()) {
        trimmed_back(text.drop_last())
    } else {
        text
    }
}

/// A text without the white space around it.
pub open spec fn trimmed(text: Seq<char>) -> Seq<char> {
    trimmed_back(trimmed_front(text))
}

/// The trimmed text that the characters from `from` up to `to` spell.
fn trim_range(chars: &Vec<char>, from: usize, to: usize) -> (text: String)
    requires
        from <= to <= chars@.len(),
    ensures
        text@ == trimmed(chars@.subrange(from as int, to as int)),
{
    let ghost whole = chars@.subrange(from as int, to as int);
    let mut start: usize = from;
    while start < to && chars[start].is_whitespace()
        invariant
            from <= start <= to <= chars@.len(),
            trimmed_front(chars@.subrange(start as int, to as int)) == trimmed_front(whole),
        decreases to - start,
    {
        proof {
            assert(chars@.subrange(start as int, to as int).drop_first()
                =~= chars@.subrange(start + 1, to as int));
        }
        start += 1;
    }
    let ghost front = chars@.subrange(start as int, to as int);
    assert(trimmed_front(whole) == front);
    let mut end: usize = to;
    while start < end && chars[end - 1].is_whitespace()
        invariant
            start <= end <= to <= chars@.len(),
            trimmed_back(chars@.subrange(start as int, end as int)) == trimmed_back(front),
        decreases end - start,
    {
        proof {
            assert(chars@.subrange(start as int, end as int).drop_last()
                =~= chars@.subrange(start as int, end - 1));
        }
        end -= 1;
    }
    text_of(chars, start, end)
}

/// Takes away the white space around a text.
pub fn trim(text: &str) -> (inner: String)
    ensures
        inner@ == trimmed(text@),
{
    let chars = chars_of(text);
    assert(chars@.subrange(0, chars@.len() as int) =~= text@);
    trim_range(&chars, 0, chars.len())
}

/// Where the first comma of a text stands, or the length of a text without one.
pub open spec fn first_comma(text: Seq<char>) -> int
    decreases text.len(),
{
    if text.len() == 0 || text.first() == ',' {
        0
    } else {
        1 + first_comma(text.drop_first())
    }
}

/// The trimmed pieces between the commas of a text, without those that are empty.
pub open spec fn comma_list(text: Seq<char>) -> Seq<Seq<char>>
    decreases text.len(),
    via comma_list_decreases
{
    let at = first_comma(text);
    let piece = trimmed(text.take(at));
    let rest = if at < text.len() {
        comma_list(text.skip(at + 1))
    } else {
        Seq::empty()
    };
    if piece.len() == 0 {
        rest
    } else {
        seq![piece] + rest
    }
}

#[via_fn]
proof fn comma_list_decreases(text: Seq<char>) {
    lemma_first_comma(text);
}

/// The first comma is a comma, and there is none before it.
proof fn lemma_first_comma(text: Seq<char>)
    ensures
        0 <= first_comma(text) <= text.len(),
        first_comma(text) < text.len() ==> text[first_comma(text)] == ',',
        forall|i: int| 0 <= i < first_comma(text) ==> text[i] != ',',
    decreases text.len(),
{
    if text.len() > 0 && text.first() != ',' {
        let rest = text.drop_first();
        lemma_first_comma(rest);
        assert forall|i: int| 0 <= i < first_comma(text) implies text[i] != ',' by {
            if i > 0 {
                assert(rest[i - 1] == text[i]);
            }
        }
        if first_comma(rest) < rest.len() {
            assert(rest[first_comma(rest)] == text[first_comma(text)]);
        }
    }
}

/// A position that holds a comma, with none before it, is the first comma.
pub(crate) proof fn lemma_first_comma_is(text: Seq<char>, at: int)
    requires
        0 <= at <= text.len(),
        at < text.len() ==> text[at] == ',',
        forall|i: int| 0 <= i < at ==> text[i] != ',',
    ensures
        first_comma(text) == at,
{
    lemma_first_comma(text);
    if first_comma(text) < at {
        assert(text[first_comma(text)] != ',');
    } else if first_comma(text) > at {
        assert(text[at] != ',');
    }
}

/// Two texts with a comma between them have the pieces of the one and then those of the other.
pub proof fn lemma_comma_list_splits(a: Seq<char>, b: Seq<char>)
    ensures
        comma_list(a.push(',') + b) == comma_list(a) + comma_list(b),
    decreases a.len(),
{
    let both = a.push(',') + b;
    let at = first_comma(a);
    lemma_first_comma(a);
    assert forall|i: int| 0 <= i < at implies both[i] != ',' by {
        assert(both[i] == a[i]);
    }
    if at < a.len() {
        assert(both[at] == a[at]);
    } else {
        assert(both[at] == ',');
    }
    lemma_first_comma_is(both, at);
    assert(both.take(at) =~= a.take(at));
    let piece = trimmed(a.take(at));
    if at < a.len() {
        let rest = a.skip(at + 1);
        assert(both.skip(at + 1) =~= rest.push(',') + b);
        lemma_comma_list_splits(rest, b);
        assert((seq![piece] + comma_list(rest)) + comma_list(b) =~= seq![piece] + (comma_list(rest)
            + comma_list(b)));
    } else {
        assert(both.skip(at + 1) =~= b);
        assert((seq![piece] + Seq::<Seq<char>>::empty()) + comma_list(b) =~= seq![piece]
            + comma_list(b));
        assert(Seq::<Seq<char>>::empty() + comma_list(b) =~= comma_list(b));
    }
}

/// The view of a text that may be missing.
pub open spec fn optional_text(text: Option<String>) -> Option<Seq<char>> {
    match text {
        Some(text) => Some(text@),
        None => None,
    }
}

/// A copy of a text that may be missing.
pub fn copy_optional(text: &Option<String>) -> (copy: Option<String>)
    ensures
        optional_text(copy) == optional_text(*text),
{
    match text {
        Some(text) => Some(text.clone()),
        None => None,
    }
}

/// Two texts with a colon between them.
pub open spec fn colon_joined(first: Seq<char>, second: Seq<char>) -> Seq<char> {
    first.push(':') + second
}

/// Joins two texts with a colon.
pub fn join_colon(first: &str, second: &str) -> (joined: String)
    ensures
        joined@ == colon_joined(first@, second@),
{
    let mut joined = first.to_owned();
    joined.push(':');
    joined.append(second);
    joined
}

/// The views of a list of texts.
pub open spec fn texts(list: Seq<String>) -> Seq<Seq<char>> {
    list.map_values(|s: String| s@)
}

/// A copy of a list of texts.
pub fn copy_texts(list: &Vec<String>) -> (copy: Vec<String>)
    ensures
        texts(copy@) == texts(list@),
{
    let mut copy: Vec<String> = Vec::new();
    let mut i: usize = 0;
    while i < list.len()
        invariant
            i <= list@.len(),
            copy@.len() == i,
            forall|j: int| 0 <= j < i ==> (#[trigger] copy@[j])@ == list@[j]@,
        decreases list@.len() - i,
    {
        copy.push(list[i].clone());
        i += 1;
    }
    assert(texts(copy@) =~= texts(list@));
    copy
}

/// Whether a text is in a list.
pub fn has_text(list: &Vec<String>, text: &str) -> (found: bool)
    ensures
        found == texts(list@).contains(text@),
{
    let mut i: usize = 0;
    while i < list.len()
        invariant
            i <= list@.len(),
            forall|j: int| 0 <= j < i ==> (#[trigger] texts(list@)[j]) != text@,
        decreases list@.len() - i,
    {
        if same_text(list[i].as_str(), text) {
            assert(texts(list@)[i as int] == text@);
            return true;
        }
        i += 1;
    }
    false
}

/// Adds texts to a list.
pub fn add_texts(list: &mut Vec<String>, more: &[&str])
    ensures
        texts(final(list)@) == texts(old(list)@) + str_texts(more@),
{
    let ghost before = texts(list@);
    let mut i: usize = 0;
    assert(str_texts(more@).take(0) =~= Seq::empty());
    assert(before + Seq::<Seq<char>>::empty() =~= before);
    while i < more.len()
        invariant
            i <= more@.len(),
            texts(list@) == before + str_texts(more@).take(i as int),
        decreases more@.len() - i,
    {
        let ghost mid = texts(list@);
        list.push(more[i].to_owned());
        assert(texts(list@) =~= mid.push(more@[i as int]@));
        assert(str_texts(more@).take(i + 1) =~= str_texts(more@).take(i as int).push(
            more@[i as int]@,
        ));
        assert(before + str_texts(more@).take(i + 1) =~= mid.push(more@[i as int]@));
        i += 1;
    }
    assert(str_texts(more@).take(i as int) =~= str_texts(more@));
}

/// The views of a list of texts.
pub open spec fn str_texts(list: Seq<&str>) -> Seq<Seq<char>> {
    list.map_values(|s: &str| s@)
}

/// Splits a text at its commas, trims the pieces and leaves out the empty ones.
pub fn split_commas(text: &str) -> (pieces: Vec<String>)
    ensures
        texts(pieces@) == comma_list(text@),
{
    let chars = chars_of(text);
    let mut pieces: Vec<String> = Vec::new();
    let mut start: usize = 0;
    let mut open: bool = true;
    assert(text@.skip(0) =~= text@);
    while open
        invariant
            chars@ == text@,
            start <= chars@.len(),
            open ==> texts(pieces@) + comma_list(text@.skip(start as int)) == comma_list(text@),
            !open ==> texts(pieces@) == comma_list(text@),
        decreases chars@.len() - start + (if open { 1int } else { 0 }),
    {
        let ghost rest = text@.skip(start as int);
        let mut end: usize = start;
        while end < chars.len() && chars[end] != ','
            invariant
                chars@ == text@,
                start <= end <= chars@.len(),
                rest == text@.skip(start as int),
                forall|i: int| 0 <= i < end - start ==> rest[i] != ',',
            decreases chars@.len() - end,
        {
            assert(rest[end - start] == chars@[end as int]);
            end += 1;
        }
        proof {
            if end < chars.len() {
                assert(rest[end - start] == chars@[end as int]);
            }
            lemma_first_comma_is(rest, end - start);
            assert(rest.take(end - start) =~= chars@.subrange(start as int, end as int));
        }
        let piece = trim_range(&chars, start, end);
        let ghost before = texts(pieces@);
        if !piece.as_str().is_empty() {
            pieces.push(piece);
            proof {
                assert(texts(pieces@) =~= before.push(piece@));
            }
        }
        if end < chars.len() {
            proof {
                assert(rest.skip(end - start + 1) =~= text@.skip(end + 1));
                let tail = comma_list(text@.skip(end + 1));
                if piece@.len() > 0 {
                    assert(before + (seq![piece@] + tail) =~= before.push(piece@) + tail);
                }
            }
            start = end + 1;
        } else {
            proof {
                if piece@.len() > 0 {
                    assert(before + (seq![piece@] + Seq::<Seq<char>>::empty())
                        =~= before.push(piece@));
                } else {
                    assert(before + Seq::<Seq<char>>::empty() =~= before);
                }
            }
            open = false;
        }
    }
    pieces
}

} // verus!
