//! Texts: what is replaced, split, trimmed and written in decimal.

use crate::text::{
    ascii_lowered, begins_with, byte_len, char_is_control, char_is_whitespace, decimal, first_at,
    occurs_at, replace_all, split_on, trim_end, trim_start, trimmed, utf8_width,
};
use vstd::prelude::*;

verus! {

/// The number that decimal digits stand for.
pub open spec fn number_of(digits: Seq<char>) -> int
    decreases digits.len(),
{
    if digits.len() == 0 {
        0
    } else {
        10 * number_of(digits.drop_last()) + (digits.last() as int - '0' as int)
    }
}

/// A number in decimal reads back as that number, in digits alone, without a zero
/// in front of another digit.
pub proof fn law_decimal_reads_back(n: nat)
    ensures
        decimal(n).len() > 0,
        number_of(decimal(n)) == n,
        forall|i: int| 0 <= i < decimal(n).len() ==> '0' <= #[trigger] decimal(n)[i] <= '9',
        decimal(n).len() > 1 ==> decimal(n)[0] != '0',
    decreases n,
{
    reveal_with_fuel(number_of, 2);
    if n >= 10 {
        law_decimal_reads_back(n / 10);
        let rest = decimal(n / 10);
        assert(decimal(n).drop_last() =~= rest);
        if rest.len() == 1 {
            assert(number_of(rest) == n / 10);
            assert(rest.drop_last().len() == 0);
        }
        assert(decimal(n)[0] == rest[0]);
    } else {
        assert(decimal(n).drop_last().len() == 0);
    }
}

/// A text stands in another one at a position where its characters do, one by
/// one.
pub proof fn law_texts_occur_by_character(s: Seq<char>, needle: Seq<char>, at: int)
    ensures
        occurs_at(s, needle, at) <==> 0 <= at && at + needle.len() <= s.len() && forall|k: int|
            0 <= k < needle.len() ==> s[at + k] == #[trigger] needle[k],
        begins_with(s, needle) <==> needle.len() <= s.len() && forall|k: int|
            0 <= k < needle.len() ==> s[k] == #[trigger] needle[k],
{
    if 0 <= at && at + needle.len() <= s.len() {
        let part = s.subrange(at, at + needle.len());
        if part == needle {
            assert forall|k: int| 0 <= k < needle.len() implies s[at + k] == #[trigger] needle[k] by {
                assert(part[k] == needle[k]);
            }
        } else if forall|k: int| 0 <= k < needle.len() ==> s[at + k] == #[trigger] needle[k] {
            assert(part =~= needle);
        }
    }
    if needle.len() <= s.len() {
        let part = s.subrange(0, needle.len() as int);
        if part == needle {
            assert forall|k: int| 0 <= k < needle.len() implies s[k] == #[trigger] needle[k] by {
                assert(part[k] == needle[k]);
            }
        } else if forall|k: int| 0 <= k < needle.len() ==> s[k] == #[trigger] needle[k] {
            assert(part =~= needle);
        }
    }
}

/// A text is found where it stands first, and not found only where it stands
/// nowhere.
pub proof fn law_first_occurrence_is_found(s: Seq<char>, needle: Seq<char>, from: int)
    requires
        0 <= from,
    ensures
        match first_at(s, needle, from) {
            Some(at) => {
                &&& from <= at
                &&& occurs_at(s, needle, at)
                &&& forall|k: int| from <= k < at ==> !#[trigger] occurs_at(s, needle, k)
            },
            None => forall|k: int| from <= k ==> !#[trigger] occurs_at(s, needle, k),
        },
    decreases s.len() + 1 - from,
{
    if from + needle.len() <= s.len() && !occurs_at(s, needle, from) {
        law_first_occurrence_is_found(s, needle, from + 1);
    }
}

/// What stands before the first occurrence of a text stays when it is replaced,
/// the occurrence becomes the other text, and the rest is dealt with in the same
/// way. A text that occurs nowhere changes nothing.
pub proof fn law_replacing_replaces_each_occurrence(
    s: Seq<char>,
    from: Seq<char>,
    to: Seq<char>,
    at: int,
)
    requires
        from.len() > 0,
        0 <= at <= s.len(),
        forall|k: int| 0 <= k < at ==> !#[trigger] occurs_at(s, from, k),
        at < s.len() ==> occurs_at(s, from, at),
    ensures
        at == s.len() ==> replace_all(s, from, to) == s,
        at < s.len() ==> replace_all(s, from, to) == s.take(at) + to + replace_all(
            s.skip(at + from.len()),
            from,
            to,
        ),
    decreases s.len(),
{
    if s.len() == 0 {
    } else if at == 0 {
        assert(s.take(0) + to + replace_all(s.skip(from.len() as int), from, to) =~= to
            + replace_all(s.skip(from.len() as int), from, to));
    } else {
        assert(!occurs_at(s, from, 0));
        let rest = s.skip(1);
        assert forall|k: int| 0 <= k <= at - 1 implies occurs_at(rest, from, k) == occurs_at(
            s,
            from,
            k + 1,
        ) by {
            if k + from.len() <= rest.len() {
                assert(rest.subrange(k, k + from.len()) =~= s.subrange(k + 1, k + 1 + from.len()));
            }
        }
        assert forall|k: int| 0 <= k < at - 1 implies !#[trigger] occurs_at(rest, from, k) by {
            assert(!occurs_at(s, from, k + 1));
        }
        law_replacing_replaces_each_occurrence(rest, from, to, at - 1);
        if at == s.len() {
            assert(seq![s[0]] + rest =~= s);
        } else {
            assert(rest.skip(at - 1 + from.len()) =~= s.skip(at + from.len()));
            assert(seq![s[0]] + (rest.take(at - 1) + to + replace_all(
                s.skip(at + from.len()),
                from,
                to,
            )) =~= s.take(at) + to + replace_all(s.skip(at + from.len()), from, to));
        }
    }
}

/// Texts put together with another one between them.
pub open spec fn joined_by(pieces: Seq<Seq<char>>, sep: Seq<char>) -> Seq<char>
    decreases pieces.len(),
{
    if pieces.len() == 0 {
        Seq::empty()
    } else if pieces.len() == 1 {
        pieces[0]
    } else {
        pieces[0] + sep + joined_by(pieces.skip(1), sep)
    }
}

/// The pieces of a text make the text again with the separator between them, and
/// none of them holds the separator.
pub proof fn law_pieces_make_the_text(s: Seq<char>, sep: Seq<char>)
    requires
        sep.len() > 0,
    ensures
        split_on(s, sep).len() > 0,
        joined_by(split_on(s, sep), sep) == s,
        forall|i: int, k: int|
            #![trigger occurs_at(split_on(s, sep)[i], sep, k)]
            0 <= i < split_on(s, sep).len() ==> !occurs_at(split_on(s, sep)[i], sep, k),
    decreases s.len(),
{
    law_first_occurrence_is_found(s, sep, 0);
    let all = split_on(s, sep);
    match first_at(s, sep, 0) {
        Some(at) => {
            let rest = s.skip(at + sep.len());
            law_pieces_make_the_text(rest, sep);
            let more = split_on(rest, sep);
            assert(all == seq![s.take(at)] + more);
            assert(all.skip(1) =~= more);
            assert(s.subrange(at, at + sep.len()) == sep);
            assert(s.take(at) + sep + rest =~= s) by {
                assert(s.take(at) + s.subrange(at, at + sep.len()) + rest =~= s);
            }
            assert forall|i: int, k: int|
                #![trigger occurs_at(all[i], sep, k)]
                0 <= i < all.len() implies !occurs_at(all[i], sep, k) by {
                if i == 0 {
                    if occurs_at(s.take(at), sep, k) {
                        assert(s.take(at).subrange(k, k + sep.len()) =~= s.subrange(
                            k,
                            k + sep.len(),
                        ));
                        assert(occurs_at(s, sep, k));
                    }
                } else {
                    assert(all[i] == more[i - 1]);
                    assert(!occurs_at(more[i - 1], sep, k));
                }
            }
        },
        None => {
            assert(all == seq![s]);
            assert forall|i: int, k: int|
                #![trigger occurs_at(all[i], sep, k)]
                0 <= i < all.len() implies !occurs_at(all[i], sep, k) by {
                if k >= 0 {
                    assert(!occurs_at(s, sep, k));
                }
            }
        },
    }
}

/// A trimmed text is the text between the white space at its ends, and neither
/// begins nor ends with white space.
pub proof fn law_trimming_takes_white_space_off(s: Seq<char>)
    ensures
        trimmed(s).len() > 0 ==> !char_is_whitespace(trimmed(s)[0]) && !char_is_whitespace(
            trimmed(s).last(),
        ),
        exists|from: int, to: int|
            0 <= from <= to <= s.len() && trimmed(s) == #[trigger] s.subrange(from, to) && (
            forall|i: int|
                0 <= i < s.len() && !(from <= i < to) ==> char_is_whitespace(#[trigger] s[i])),
{
    lemma_trim_start(s);
    let from = s.len() - trim_start(s).len();
    let rest = trim_start(s);
    lemma_trim_end(rest);
    let to = from + trim_end(rest).len();
    assert(trimmed(s) =~= s.subrange(from, to));
    assert forall|i: int| 0 <= i < s.len() && !(from <= i < to) implies char_is_whitespace(
        #[trigger] s[i],
    ) by {
        if i >= to {
            assert(rest[i - from] == s[i]);
        }
    }
    if trimmed(s).len() > 0 {
        assert(trimmed(s)[0] == rest[0]);
    }
}

proof fn lemma_trim_start(s: Seq<char>)
    ensures
        trim_start(s).len() <= s.len(),
        trim_start(s) == s.skip(s.len() - trim_start(s).len()),
        trim_start(s).len() > 0 ==> !char_is_whitespace(trim_start(s)[0]),
        forall|i: int|
            0 <= i < s.len() - trim_start(s).len() ==> char_is_whitespace(#[trigger] s[i]),
    decreases s.len(),
{
    if s.len() > 0 && char_is_whitespace(s[0]) {
        let rest = s.skip(1);
        lemma_trim_start(rest);
        assert(trim_start(s) =~= s.skip(s.len() - trim_start(s).len()));
        assert forall|i: int| 0 <= i < s.len() - trim_start(s).len() implies char_is_whitespace(
            #[trigger] s[i],
        ) by {
            if i > 0 {
                assert(rest[i - 1] == s[i]);
            }
        }
    } else {
        assert(s.skip(0) =~= s);
    }
}

proof fn lemma_trim_end(s: Seq<char>)
    ensures
        trim_end(s).len() <= s.len(),
        trim_end(s) == s.take(trim_end(s).len() as int),
        trim_end(s).len() > 0 ==> !char_is_whitespace(trim_end(s).last()),
        forall|i: int| trim_end(s).len() <= i < s.len() ==> char_is_whitespace(#[trigger] s[i]),
    decreases s.len(),
{
    if s.len() > 0 && char_is_whitespace(s.last()) {
        let rest = s.drop_last();
        lemma_trim_end(rest);
        assert(trim_end(s) =~= s.take(trim_end(s).len() as int));
        assert forall|i: int| trim_end(s).len() <= i < s.len() implies char_is_whitespace(
            #[trigger] s[i],
        ) by {
            if i < s.len() - 1 {
                assert(rest[i] == s[i]);
            }
        }
    } else {
        assert(s.take(s.len() as int) =~= s);
    }
}

/// A lowered text has a small letter for each ASCII capital, and every other
/// character as it was.
pub proof fn law_lowering_lowers_capitals_alone(s: Seq<char>)
    ensures
        ascii_lowered(s).len() == s.len(),
        forall|i: int|
            0 <= i < s.len() && !('A' <= s[i] <= 'Z') ==> #[trigger] ascii_lowered(s)[i] == s[i],
        forall|i: int|
            0 <= i < s.len() && 'A' <= s[i] <= 'Z' ==> (#[trigger] ascii_lowered(s)[i]) as u32
                == s[i] as u32 + 32,
{
}

/// The control characters are the first thirty-two, and those from delete to the
/// last before the no-break space.
pub proof fn law_control_characters_have_their_codes(c: char)
    ensures
        char_is_control(c) <==> (c as u32) < 32 || 127 <= (c as u32) < 160,
{
}

/// A text takes as many bytes as its characters do, of which each takes one to
/// four.
pub proof fn law_bytes_of_a_text_add_up(a: Seq<char>, c: char, b: Seq<char>)
    ensures
        byte_len(Seq::empty()) == 0,
        byte_len(a + b) == byte_len(a) + byte_len(b),
        byte_len(seq![c]) == utf8_width(c),
        (c as u32) <= 0x7f ==> utf8_width(c) == 1,
        0x80 <= (c as u32) <= 0x7ff ==> utf8_width(c) == 2,
        0x800 <= (c as u32) <= 0xffff ==> utf8_width(c) == 3,
        0x10000 <= (c as u32) ==> utf8_width(c) == 4,
{
    crate::text::lemma_byte_len_add(a, b);
    crate::text::lemma_byte_len_push(Seq::empty(), c);
    assert(Seq::<char>::empty().push(c) =~= seq![c]);
}

} // verus!
