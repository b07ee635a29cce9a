//! Texts: what stands between commas, numbers in decimal, and names whatever their case.

use crate::extractor::headers_view;
use crate::text::{
    ascii_lower, ascii_lowercase, colon_joined, comma_list, decimal, digit_char, first_comma,
    lemma_comma_list_splits, lemma_first_comma_is, optional_text, same_ignoring_ascii_case,
    str_texts, texts, trimmed, trimmed_back, trimmed_front, white_space,
};
use vstd::prelude::*;

verus! {

/// Whether a text is white space throughout.
pub open spec fn is_blank(text: Seq<char>) -> bool {
    forall|i: int| 0 <= i < text.len() ==> white_space(#[trigger] text[i])
}

/// Whether a text holds something, and neither starts nor ends with white space.
pub open spec fn is_tight(text: Seq<char>) -> bool {
    text.len() > 0 && !white_space(text[0]) && !white_space(text[text.len() - 1])
}

/// Trimming takes the white space around a text away, and nothing else.
pub proof fn law_trimming_takes_white_space_away(
    left: Seq<char>,
    inner: Seq<char>,
    right: Seq<char>,
)
    requires
        is_blank(left),
        is_blank(right),
        is_tight(inner) || inner.len() == 0,
    ensures
        trimmed(left + inner + right) == inner,
{
    if inner.len() == 0 {
        let all = left + inner + right;
        assert(is_blank(all)) by {
            assert forall|i: int| 0 <= i < all.len() implies white_space(#[trigger] all[i]) by {
                if i < left.len() {
                    assert(all[i] == left[i]);
                } else {
                    assert(all[i] == right[i - left.len()]);
                }
            }
        }
        lemma_blank_front(all);
        assert(inner =~= Seq::empty());
    } else {
        lemma_trim_front(left, inner + right);
        assert(left + inner + right =~= left + (inner + right));
        lemma_trim_back(inner, right);
    }
}

/// A blank text is trimmed away.
proof fn lemma_blank_front(text: Seq<char>)
    requires
        is_blank(text),
    ensures
        trimmed_front(text) == Seq::<char>::empty(),
        trimmed(text) == Seq::<char>::empty(),
    decreases text.len(),
{
    if text.len() > 0 {
        assert(white_space(text[0]));
        let rest = text.drop_first();
        assert forall|i: int| 0 <= i < rest.len() implies white_space(#[trigger] rest[i]) by {
            assert(rest[i] == text[i + 1]);
        }
        lemma_blank_front(rest);
    } else {
        assert(text =~= Seq::empty());
    }
}

/// White space is trimmed off the front.
proof fn lemma_trim_front(left: Seq<char>, rest: Seq<char>)
    requires
        is_blank(left),
        rest.len() > 0,
        !white_space(rest[0]),
    ensures
        trimmed_front(left + rest) == rest,
    decreases left.len(),
{
    let all = left + rest;
    if left.len() == 0 {
        assert(all =~= rest);
    } else {
        assert(white_space(left[0]));
        assert(all.first() == left[0]);
        let shorter = left.drop_first();
        assert forall|i: int| 0 <= i < shorter.len() implies white_space(#[trigger] shorter[i]) by {
            assert(shorter[i] == left[i + 1]);
        }
        assert(all.drop_first() =~= shorter + rest);
        lemma_trim_front(shorter, rest);
    }
}

/// White space is trimmed off the back.
proof fn lemma_trim_back(inner: Seq<char>, right: Seq<char>)
    requires
        is_blank(right),
        inner.len() > 0,
        !white_space(inner[inner.len() - 1]),
    ensures
        trimmed_back(inner + right) == inner,
    decreases right.len(),
{
    let all = inner + right;
    if right.len() == 0 {
        assert(all =~= inner);
    } else {
        assert(white_space(right[right.len() - 1]));
        assert(all.last() == right[right.len() - 1]);
        let shorter = right.drop_last();
        assert forall|i: int| 0 <= i < shorter.len() implies white_space(#[trigger] shorter[i]) by {
            assert(shorter[i] == right[i]);
        }
        assert(all.drop_last() =~= inner + shorter);
        lemma_trim_back(inner, shorter);
    }
}

/// Texts with commas between them.
pub open spec fn comma_joined(parts: Seq<Seq<char>>) -> Seq<char>
    decreases parts.len(),
{
    if parts.len() == 0 {
        Seq::empty()
    } else if parts.len() == 1 {
        parts[0]
    } else {
        comma_joined(parts.drop_last()).push(',') + parts.last()
    }
}

/// Whether each of some parts is the piece in the same place, with white space around it. The
/// pieces hold something, neither start nor end with white space, and hold no comma.
pub open spec fn pad(
    parts: Seq<Seq<char>>,
    lefts: Seq<Seq<char>>,
    pieces: Seq<Seq<char>>,
    rights: Seq<Seq<char>>,
) -> bool {
    &&& parts.len() == pieces.len()
    &&& lefts.len() == pieces.len()
    &&& rights.len() == pieces.len()
    &&& forall|i: int|
        0 <= i < pieces.len() ==> {
            &&& #[trigger] parts[i] == lefts[i] + pieces[i] + rights[i]
            &&& is_blank(lefts[i])
            &&& is_blank(rights[i])
            &&& is_tight(pieces[i])
            &&& !pieces[i].contains(',')
        }
}

/// The pieces between the commas of a text are listed in order, without the white space around
/// them: each of them, whatever it holds and however long it is.
pub proof fn law_pieces_between_commas_are_listed(
    parts: Seq<Seq<char>>,
    lefts: Seq<Seq<char>>,
    pieces: Seq<Seq<char>>,
    rights: Seq<Seq<char>>,
)
    requires
        pad(parts, lefts, pieces, rights),
    ensures
        comma_list(comma_joined(parts)) == pieces,
    decreases parts.len(),
{
    if parts.len() == 0 {
        law_blank_pieces_are_left_out(Seq::empty());
        assert(pieces =~= Seq::empty());
    } else {
        let n = parts.len() - 1;
        let last = parts[n];
        assert(last == lefts[n] + pieces[n] + rights[n]);
        assert forall|i: int| 0 <= i < last.len() implies last[i] != ',' by {
            if i < lefts[n].len() {
                assert(white_space(lefts[n][i]));
            } else if i < lefts[n].len() + pieces[n].len() {
                assert(pieces[n].contains(pieces[n][i - lefts[n].len()]));
            } else {
                assert(white_space(rights[n][i - lefts[n].len() - pieces[n].len()]));
            }
        }
        law_trimming_takes_white_space_away(lefts[n], pieces[n], rights[n]);
        lemma_single_piece(last);
        assert(comma_list(last) == seq![pieces[n]]);
        if n == 0 {
            assert(pieces =~= seq![pieces[0]]);
        } else {
            let rest = parts.drop_last();
            assert forall|i: int| 0 <= i < n implies {
                &&& #[trigger] rest[i] == lefts.drop_last()[i] + pieces.drop_last()[i]
                    + rights.drop_last()[i]
                &&& is_blank(lefts.drop_last()[i])
                &&& is_blank(rights.drop_last()[i])
                &&& is_tight(pieces.drop_last()[i])
                &&& !pieces.drop_last()[i].contains(',')
            } by {
                assert(rest[i] == parts[i]);
            }
            law_pieces_between_commas_are_listed(
                rest,
                lefts.drop_last(),
                pieces.drop_last(),
                rights.drop_last(),
            );
            lemma_comma_list_splits(comma_joined(rest), last);
            assert(pieces =~= pieces.drop_last() + seq![pieces[n]]);
        }
    }
}

/// A text without commas is one piece.
proof fn lemma_single_piece(text: Seq<char>)
    requires
        forall|i: int| 0 <= i < text.len() ==> text[i] != ',',
    ensures
        trimmed(text).len() > 0 ==> comma_list(text) == seq![trimmed(text)],
        trimmed(text).len() == 0 ==> comma_list(text) == Seq::<Seq<char>>::empty(),
{
    lemma_first_comma_is(text, text.len() as int);
    assert(first_comma(text) == text.len());
    assert(text.take(text.len() as int) =~= text);
    assert(seq![trimmed(text)] + Seq::<Seq<char>>::empty() =~= seq![trimmed(text)]);
}

/// A comma parts a list: the pieces on its left come first, and then those on its right.
pub proof fn law_a_comma_parts_the_list(left: Seq<char>, right: Seq<char>)
    ensures
        comma_list(left.push(',') + right) == comma_list(left) + comma_list(right),
{
    lemma_comma_list_splits(left, right);
}

/// Nothing is listed of a text that is white space throughout.
pub proof fn law_blank_pieces_are_left_out(text: Seq<char>)
    requires
        is_blank(text),
    ensures
        comma_list(text) == Seq::<Seq<char>>::empty(),
{
    assert forall|i: int| 0 <= i < text.len() implies text[i] != ',' by {
        assert(white_space(text[i]));
    }
    lemma_blank_front(text);
    lemma_single_piece(text);
}

/// The number that a text of digits stands for.
pub open spec fn number_of(digits: Seq<char>) -> int
    decreases digits.len(),
{
    if digits.len() == 0 {
        0
    } else {
        10 * number_of(digits.drop_last()) + (digits.last() as u32 - '0' as u32)
    }
}

/// A number in decimal is made of digits that stand for that number, and starts with no zero unless
/// it is zero.
pub proof fn law_decimal_stands_for_its_number(n: nat)
    ensures
        number_of(decimal(n)) == n,
        decimal(n).len() > 0,
        n > 0 ==> decimal(n)[0] != '0',
        n == 0 ==> decimal(n) == seq!['0'],
        forall|i: int| 0 <= i < decimal(n).len() ==> '0' <= #[trigger] decimal(n)[i] <= '9',
    decreases n,
{
    assert(digit_char(n % 10) as u32 == 48 + n % 10);
    if n < 10 {
        reveal_with_fuel(number_of, 2);
        assert(decimal(n).drop_last() =~= Seq::empty());
    } else {
        law_decimal_stands_for_its_number(n / 10);
        assert(decimal(n).drop_last() =~= decimal(n / 10));
    }
}

/// Whether two characters are the same, or the same ASCII letter in different cases.
pub open spec fn same_letter(a: char, b: char) -> bool {
    ||| a == b
    ||| 'A' <= a <= 'Z' && b as u32 == a as u32 + 32
    ||| 'A' <= b <= 'Z' && a as u32 == b as u32 + 32
}

/// Two names are the same whatever their case exactly where they are of the same length and have
/// the same letter in each place.
pub proof fn law_names_are_compared_letter_by_letter(a: Seq<char>, b: Seq<char>)
    ensures
        same_ignoring_ascii_case(a, b) == (a.len() == b.len() && forall|i: int|
            0 <= i < a.len() ==> same_letter(#[trigger] a[i], b[i])),
{
    let lower_a = ascii_lowercase(a);
    let lower_b = ascii_lowercase(b);
    assert(lower_a.len() == a.len() && lower_b.len() == b.len());
    if lower_a == lower_b {
        assert forall|i: int| 0 <= i < a.len() implies same_letter(#[trigger] a[i], b[i]) by {
            assert(lower_a[i] == ascii_lower(a[i]) && lower_b[i] == ascii_lower(b[i]));
            lemma_same_letter(a[i], b[i]);
        }
    }
    if a.len() == b.len() && forall|i: int|
        0 <= i < a.len() ==> same_letter(#[trigger] a[i], b[i]) {
        assert forall|i: int| 0 <= i < a.len() implies lower_a[i] == lower_b[i] by {
            assert(same_letter(a[i], b[i]));
            lemma_same_letter(a[i], b[i]);
        }
        assert(lower_a =~= lower_b);
    }
}

/// Letters are the same where they are in lower case.
proof fn lemma_same_letter(a: char, b: char)
    ensures
        same_letter(a, b) == (ascii_lower(a) == ascii_lower(b)),
{
}

/// Of two texts with a colon between them, both can be read off again.
pub proof fn law_colon_keeps_both_sides(first: Seq<char>, second: Seq<char>)
    ensures
        colon_joined(first, second).len() == first.len() + 1 + second.len(),
        colon_joined(first, second).take(first.len() as int) == first,
        colon_joined(first, second)[first.len() as int] == ':',
        colon_joined(first, second).skip(first.len() as int + 1) == second,
{
    let joined = colon_joined(first, second);
    assert(joined.take(first.len() as int) =~= first);
    assert(joined.skip(first.len() as int + 1) =~= second);
}

/// A list of texts is listed text by text, each in full.
pub proof fn law_lists_of_texts_are_kept_in_full(list: Seq<String>, more: Seq<&str>, i: int)
    ensures
        texts(list).len() == list.len(),
        0 <= i < list.len() ==> texts(list)[i] == list[i]@,
        str_texts(more).len() == more.len(),
        0 <= i < more.len() ==> str_texts(more)[i] == more[i]@,
{
}

/// A text that may be missing is that text, in full, where it is there.
pub proof fn law_optional_texts_are_kept_in_full(text: Option<String>)
    ensures
        optional_text(text) is Some == text is Some,
        text is Some ==> optional_text(text)->0 == text->0@,
{
}

/// Headers are listed in order, names and values in full.
pub proof fn law_headers_are_kept_in_full(headers: Seq<(String, String)>, i: int)
    ensures
        headers_view(headers).len() == headers.len(),
        0 <= i < headers.len() ==> headers_view(headers)[i] == (headers[i].0@, headers[i].1@),
{
}

} // verus!
