//! Text positions measured in UTF-16 code units, the unit of chat span offsets.

use vstd::prelude::*;

verus! {

/// Number of UTF-16 code units that encode `c`: two outside the Basic
/// Multilingual Plane, one inside it.
pub open spec fn unit_len(c: char) -> nat {
    if c as u32 >= 0x10000 {
        2
    } else {
        1
    }
}

/// Number of UTF-16 code units that encode `s`.
pub open spec fn units(s: Seq<char>) -> nat
    decreases s.len(),
{
    if s.len() == 0 {
        0
    } else {
        unit_len(s[0]) + units(s.drop_first())
    }
}

/// `s[i..j]` starts `offset` code units into `s` and spans `length` code units.
pub open spec fn span_at(s: Seq<char>, offset: int, length: int, i: int, j: int) -> bool {
    &&& 0 <= i <= j <= s.len()
    &&& units(s.take(i)) == offset
    &&& units(s.take(j)) == offset + length
}

/// The span of `length` code units at `offset` begins and ends on character
/// boundaries of `s` and lies within it.
pub open spec fn span_fits(s: Seq<char>, offset: int, length: int) -> bool {
    exists|i: int, j: int| span_at(s, offset, length, i, j)
}

/// `piece` is the text that the span of `length` code units at `offset` covers in `s`.
pub open spec fn span_text(s: Seq<char>, offset: int, length: int, piece: Seq<char>) -> bool {
    exists|i: int, j: int| span_at(s, offset, length, i, j) && piece == s.subrange(i, j)
}

/// Code units add up over concatenation.
pub proof fn lemma_units_concat(a: Seq<char>, b: Seq<char>)
    ensures
        units(a + b) == units(a) + units(b),
    decreases a.len(),
{
    if a.len() == 0 {
        assert(a + b =~= b);
    } else {
        lemma_units_concat(a.drop_first(), b);
        assert((a + b).drop_first() =~= a.drop_first() + b);
    }
}

/// Extending a text by one character adds that character's code units.
pub proof fn lemma_units_push(s: Seq<char>, c: char)
    ensures
        units(s.push(c)) == units(s) + unit_len(c),
{
    lemma_units_concat(s, seq![c]);
    assert(s.push(c) =~= s + seq![c]);
    assert(seq![c].drop_first() =~= Seq::<char>::empty());
    assert(units(Seq::<char>::empty()) == 0);
}

/// A longer prefix never holds fewer code units, and a strictly longer one holds more.
pub proof fn lemma_units_prefix_grows(s: Seq<char>, i: int, j: int)
    requires
        0 <= i <= j <= s.len(),
    ensures
        units(s.take(i)) + (j - i) <= units(s.take(j)),
    decreases j - i,
{
    if i < j {
        lemma_units_prefix_grows(s, i, j - 1);
        assert(s.take(j) =~= s.take(j - 1).push(s[j - 1]));
        lemma_units_push(s.take(j - 1), s[j - 1]);
    }
}

/// A text never holds more UTF-16 code units than UTF-8 bytes.
pub proof fn lemma_units_le_bytes(s: Seq<char>)
    ensures
        units(s) <= vstd::utf8::encode_utf8(s).len(),
    decreases s.len(),
{
    if s.len() > 0 {
        lemma_units_le_bytes(s.drop_first());
        let c = s[0] as u32;
        assert(vstd::utf8::is_scalar(c)) by {
            vstd::utf8::char_is_scalar(s[0]);
        }
    }
}

/// A span covers one text at most: the character positions at which a span
/// starts and ends are fixed by its offset and length.
pub proof fn lemma_span_text_unique(
    s: Seq<char>,
    offset: int,
    length: int,
    p: Seq<char>,
    q: Seq<char>,
)
    requires
        span_text(s, offset, length, p),
        span_text(s, offset, length, q),
    ensures
        p == q,
{
    let (i, j) = choose|i: int, j: int| span_at(s, offset, length, i, j) && p == s.subrange(i, j);
    let (k, l) = choose|k: int, l: int| span_at(s, offset, length, k, l) && q == s.subrange(k, l);
    if i < k {
        lemma_units_prefix_grows(s, i, k);
    } else if k < i {
        lemma_units_prefix_grows(s, k, i);
    }
    if j < l {
        lemma_units_prefix_grows(s, j, l);
    } else if l < j {
        lemma_units_prefix_grows(s, l, j);
    }
}

/// Number of UTF-16 code units that encode `s`.
pub fn utf16_len(s: &str) -> (n: usize)
    ensures
        n == units(s@),
{
    let ghost chars = s@;
    let byte_count = s.as_bytes().len();
    assert(byte_count == vstd::utf8::encode_utf8(chars).len());
    proof {
        lemma_units_le_bytes(chars);
    }
    let mut n: usize = 0;
    for c in it: s.chars()
        invariant
            it.seq() == chars,
            n == units(chars.take(it.index() as int)),
            units(chars) <= usize::MAX,
    {
        proof {
            let k = it.index() as int;
            assert(chars.take(k + 1) =~= chars.take(k).push(chars[k]));
            lemma_units_push(chars.take(k), chars[k]);
            lemma_units_prefix_grows(chars, k + 1, chars.len() as int);
            assert(chars.take(chars.len() as int) =~= chars);
        }
        n = n + char_units(c);
    }
    proof {
        assert(chars.take(chars.len() as int) =~= chars);
    }
    n
}

/// Number of code units of `c`.
fn char_units(c: char) -> (n: usize)
    ensures
        n == unit_len(c),
{
    if (c as u32) >= 0x10000 {
        2
    } else {
        1
    }
}

/// The text that `length` code units starting `offset` code units into `text`
/// cover, or `None` where either end falls inside a character or past the end.
pub fn slice_units(text: &str, offset: usize, length: usize) -> (r: Option<String>)
    ensures
        r is Some <==> span_fits(text@, offset as int, length as int),
        r matches Some(piece) ==> span_text(text@, offset as int, length as int, piece@),
{
    let ghost chars = text@;
    let byte_count = text.as_bytes().len();
    assert(byte_count == vstd::utf8::encode_utf8(chars).len());
    proof {
        lemma_units_le_bytes(chars);
        lemma_units_prefix_grows(chars, 0, chars.len() as int);
        assert(chars.take(chars.len() as int) =~= chars);
        assert(chars.take(0) =~= Seq::<char>::empty());
    }
    if length > usize::MAX - offset {
        proof {
            assert forall|i: int, j: int| !span_at(chars, offset as int, length as int, i, j) by {
                if 0 <= j <= chars.len() {
                    lemma_units_prefix_grows(chars, j, chars.len() as int);
                }
            }
        }
        return None;
    }
    let stop = offset + length;
    let mut pos: usize = 0;
    let mut k: usize = 0;
    let mut start: Option<usize> = None;
    let mut end: Option<usize> = None;
    for c in it: text.chars()
        invariant
            it.seq() == chars,
            k == it.index(),
            pos == units(chars.take(k as int)),
            units(chars) <= usize::MAX,
            chars.len() <= units(chars),
            chars.take(chars.len() as int) == chars,
            stop == offset + length,
            start matches Some(i) ==> i < k && units(chars.take(i as int)) == offset,
            start is None ==> forall|i: int| 0 <= i < k ==> units(#[trigger] chars.take(i)) != offset,
            end matches Some(j) ==> j < k && units(chars.take(j as int)) == stop,
            end is None ==> forall|j: int| 0 <= j < k ==> units(#[trigger] chars.take(j)) != stop,
    {
        if start.is_none() && pos == offset {
            start = Some(k);
        }
        if end.is_none() && pos == stop {
            end = Some(k);
        }
        proof {
            let kk = k as int;
            assert(chars.take(kk + 1) =~= chars.take(kk).push(chars[kk]));
            lemma_units_push(chars.take(kk), chars[kk]);
            lemma_units_prefix_grows(chars, kk + 1, chars.len() as int);
        }
        pos = pos + char_units(c);
        k = k + 1;
    }
    if start.is_none() && pos == offset {
        start = Some(k);
    }
    if end.is_none() && pos == stop {
        end = Some(k);
    }
    match (start, end) {
        (Some(i), Some(j)) => {
            proof {
                if j < i {
                    lemma_units_prefix_grows(chars, j as int, i as int);
                }
                assert(span_at(chars, offset as int, length as int, i as int, j as int));
            }
            let piece = text.substring_char(i, j);
            Some(piece.to_owned())
        },
        _ => {
            proof {
                assert forall|i: int, j: int| !span_at(chars, offset as int, length as int, i, j) by {
                    if span_at(chars, offset as int, length as int, i, j) {
                        assert(units(chars.take(i)) == offset);
                        assert(units(chars.take(j)) == stop);
                    }
                }
            }
            None
        },
    }
}

} // verus!
