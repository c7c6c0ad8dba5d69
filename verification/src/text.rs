//! Offsets into text, and the few string operations that the crate needs.
use vstd::prelude::*;
use vstd::utf8::{
    char_is_scalar, encode_scalar, encode_utf8, encode_utf8_decode_utf8, encode_utf8_first_scalar,
    encode_utf8_valid_utf8, is_char_boundary, pop_first_scalar,
};

verus! {

/// A length of text, or an offset into it, counted in UTF-8 bytes.
#[derive(Clone, Copy, PartialEq, Eq, PartialOrd, Ord, Hash, Debug, Structural)]
pub struct TextUnit(pub u32);

/// The number of bytes that `c` takes up in UTF-8.
pub open spec fn char_len(c: char) -> nat {
    encode_scalar(c as u32).len()
}

impl TextUnit {
    /// The offset `val`.
    pub fn new(val: u32) -> (unit: TextUnit)
        ensures
            unit.0 == val,
    {
        TextUnit(val)
    }

    /// The length of the character `c` in UTF-8.
    pub fn len_of_char(c: char) -> (unit: TextUnit)
        ensures
            unit.0 == char_len(c),
            1 <= unit.0 <= 4,
    {
        let scalar: u32 = c as u32;
        proof {
            char_is_scalar(c);
        }
        if scalar <= 0x7F {
            TextUnit(1)
        } else if scalar <= 0x7FF {
            TextUnit(2)
        } else if scalar <= 0xFFFF {
            TextUnit(3)
        } else {
            TextUnit(4)
        }
    }
}

/// UTF-8 encodes a concatenation piece by piece.
pub proof fn lemma_encode_utf8_concat(a: Seq<char>, b: Seq<char>)
    ensures
        encode_utf8(a + b) == encode_utf8(a) + encode_utf8(b),
    decreases a.len(),
{
    if a.len() == 0 {
        assert(a + b =~= b);
        assert(encode_utf8(a) + encode_utf8(b) =~= encode_utf8(b));
    } else {
        assert((a + b).drop_first() =~= a.drop_first() + b);
        lemma_encode_utf8_concat(a.drop_first(), b);
        assert(encode_utf8(a + b) =~= encode_utf8(a) + encode_utf8(b));
    }
}

/// The end of the encoding of a prefix is a character boundary of the whole.
pub proof fn lemma_prefix_ends_on_boundary(a: Seq<char>, b: Seq<char>)
    ensures
        is_char_boundary(encode_utf8(a + b), encode_utf8(a).len() as int),
        encode_utf8(a + b).subrange(0, encode_utf8(a).len() as int) == encode_utf8(a),
        encode_utf8(a + b).subrange(
            encode_utf8(a).len() as int,
            encode_utf8(a + b).len() as int,
        ) == encode_utf8(b),
    decreases a.len(),
{
    lemma_encode_utf8_concat(a, b);
    let whole = encode_utf8(a + b);
    let cut = encode_utf8(a).len() as int;
    assert(whole.subrange(0, cut) =~= encode_utf8(a));
    assert(whole.subrange(cut, whole.len() as int) =~= encode_utf8(b));
    encode_utf8_valid_utf8(a + b);
    if a.len() > 0 {
        let tail = a.drop_first();
        assert((a + b).drop_first() =~= tail + b);
        encode_utf8_first_scalar(a + b);
        encode_utf8_first_scalar(a);
        assert(pop_first_scalar(whole) =~= encode_utf8(tail + b));
        lemma_prefix_ends_on_boundary(tail, b);
        assert(encode_utf8(a).len() == char_len(a[0]) + encode_utf8(tail).len());
    }
}

/// The pieces one after the other, with `sep` between neighbours.
pub open spec fn joined(pieces: Seq<Seq<char>>, sep: Seq<char>) -> Seq<char>
    decreases pieces.len(),
{
    if pieces.len() == 0 {
        Seq::empty()
    } else if pieces.len() == 1 {
        pieces[0]
    } else {
        joined(pieces.drop_last(), sep) + sep + pieces.last()
    }
}

/// The characters of each string.
pub open spec fn views(strings: Seq<String>) -> Seq<Seq<char>> {
    strings.map_values(|s: String| s@)
}

/// The strings one after the other, with `sep` between neighbours.
pub fn join(pieces: &Vec<String>, sep: &str) -> (all: String)
    ensures
        all@ == joined(views(pieces@), sep@),
{
    let mut all: String = String::new();
    let ghost parts = views(pieces@);
    let mut i: usize = 0;
    while i < pieces.len()
        invariant
            i <= pieces@.len(),
            parts == views(pieces@),
            all@ == joined(parts.take(i as int), sep@),
        decreases pieces@.len() - i,
    {
        assert(parts.take(i + 1).drop_last() =~= parts.take(i as int));
        assert(parts.take(i + 1).last() == pieces@[i as int]@);
        if i > 0 {
            all.append(sep);
        }
        all.append(pieces[i].as_str());
        if i == 0 {
            assert(all@ =~= parts[0]);
        }
        i += 1;
    }
    assert(parts.take(parts.len() as int) =~= parts);
    all
}

/// Whether two strings hold the same characters.
pub fn str_eq(a: &str, b: &str) -> (same: bool)
    ensures
        same == (a@ == b@),
{
    let left: &[u8] = a.as_bytes();
    let right: &[u8] = b.as_bytes();
    proof {
        encode_utf8_decode_utf8(a@);
        encode_utf8_decode_utf8(b@);
    }
    if left.len() != right.len() {
        return false;
    }
    let mut i: usize = 0;
    while i < left.len()
        invariant
            i <= left@.len(),
            left@.len() == right@.len(),
            left@ == encode_utf8(a@),
            right@ == encode_utf8(b@),
            forall|j: int| 0 <= j < i ==> left@[j] == right@[j],
        decreases left@.len() - i,
    {
        if left[i] != right[i] {
            return false;
        }
        i += 1;
    }
    assert(left@ =~= right@);
    true
}

/// Joining two runs of pieces is joining each and putting the separator between
/// them.
pub proof fn law_joined_runs(a: Seq<Seq<char>>, b: Seq<Seq<char>>, sep: Seq<char>)
    requires
        a.len() > 0,
        b.len() > 0,
    ensures
        joined(a + b, sep) == joined(a, sep) + sep + joined(b, sep),
    decreases b.len(),
{
    assert((a + b).drop_last() =~= a + b.drop_last());
    assert((a + b).last() == b.last());
    if b.len() == 1 {
        assert(a + b.drop_last() =~= a);
    } else {
        law_joined_runs(a, b.drop_last(), sep);
        assert(joined(a + b, sep) =~= joined(a, sep) + sep + joined(b, sep));
    }
}

/// No piece gives no text, and a single piece gives itself, without a separator.
pub proof fn law_joined_few(piece: Seq<char>, sep: Seq<char>)
    ensures
        joined(Seq::empty(), sep) == Seq::<char>::empty(),
        joined(seq![piece], sep) == piece,
{
}

/// Joining strings keeps each of them whole and in its place, with one separator
/// between neighbours.
pub proof fn law_join(
    pieces: &Vec<String>,
    sep: &str,
    all: String,
    front: &Vec<String>,
    start: String,
)
    requires
        call_ensures(join, (pieces, sep), all),
        call_ensures(join, (front, sep), start),
    ensures
        pieces@.len() == 0 ==> all@ == Seq::<char>::empty(),
        pieces@.len() == 1 ==> all@ == pieces@[0]@,
        pieces@.len() == front@.len() + 1 && front@.len() > 0 && (forall|i: int|
            0 <= i < front@.len() ==> (#[trigger] front@[i])@ == pieces@[i]@) ==> all@ == start@
            + sep@ + pieces@.last()@,
{
    if pieces@.len() == front@.len() + 1 {
        if forall|i: int| 0 <= i < front@.len() ==> (#[trigger] front@[i])@ == pieces@[i]@ {
            assert(views(pieces@).drop_last() =~= views(front@)) by {
                assert forall|i: int| 0 <= i < front@.len() implies views(pieces@).drop_last()[i]
                    == views(front@)[i] by {
                    assert(front@[i]@ == pieces@[i]@);
                }
            }
        }
    }
}

/// What is seen of strings is their characters, each string in its place.
pub proof fn law_views(strings: Seq<String>, i: int)
    requires
        0 <= i < strings.len(),
    ensures
        views(strings).len() == strings.len(),
        views(strings)[i] == strings[i]@,
{
}

/// The length of a character in UTF-8, by its scalar value.
pub proof fn law_char_len(c: char, unit: TextUnit)
    requires
        call_ensures(TextUnit::len_of_char, (c,), unit),
    ensures
        unit.0 == encode_utf8(seq![c]).len(),
        unit.0 == 1 <==> c as u32 <= 0x7F,
        unit.0 == 2 <==> 0x7F < c as u32 <= 0x7FF,
        unit.0 == 3 <==> 0x7FF < c as u32 <= 0xFFFF,
        unit.0 == 4 <==> 0xFFFF < c as u32,
{
    char_is_scalar(c);
    assert(seq![c].drop_first() =~= Seq::<char>::empty());
    reveal_with_fuel(encode_utf8, 2);
}

/// Two strings are found equal exactly where they hold the same characters.
pub proof fn law_str_eq(a: &str, b: &str, same: bool, swapped: bool)
    requires
        call_ensures(str_eq, (a, b), same),
        call_ensures(str_eq, (b, a), swapped),
    ensures
        same <==> a@ == b@,
        same == swapped,
{
}

/// An offset is the number that it was made of.
pub proof fn law_offsets(val: u32, unit: TextUnit)
    requires
        call_ensures(TextUnit::new, (val,), unit),
    ensures
        unit.0 == val,
{
}

} // verus!
