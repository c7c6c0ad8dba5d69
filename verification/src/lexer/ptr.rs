//! A cursor over text.
use std::str::Chars;
use vstd::prelude::*;
use vstd::std_specs::iter::IteratorSpec;
use vstd::utf8::{
    decode_utf8, decode_utf8_encode_utf8, decode_utf8_split, encode_utf8, encode_utf8_decode_utf8,
    encode_utf8_valid_utf8, is_char_boundary, is_char_boundary_start_end_of_seq, valid_utf8_split,
};

use crate::text::{
    char_len, lemma_encode_utf8_concat, lemma_prefix_ends_on_boundary, TextUnit,
};

verus! {

/// A cursor over text: what was read so far, as a length, and what is left.
pub struct Ptr<'s> {
    text: &'s str,
    len: TextUnit,
}

impl<'s> Ptr<'s> {
    /// The whole text under the cursor.
    pub closed spec fn text(&self) -> Seq<char> {
        self.text@
    }

    /// The number of bytes read.
    pub closed spec fn offset(&self) -> nat {
        self.len.0 as nat
    }

    /// The characters read.
    pub open spec fn consumed(&self) -> Seq<char> {
        decode_utf8(encode_utf8(self.text()).subrange(0, self.offset() as int))
    }

    /// The characters left to read.
    pub open spec fn rest(&self) -> Seq<char> {
        let bytes = encode_utf8(self.text());
        decode_utf8(bytes.subrange(self.offset() as int, bytes.len() as int))
    }

    /// The character that comes `n` characters after the cursor, where there is
    /// one.
    pub open spec fn peek(&self, n: int) -> Option<char> {
        if 0 <= n < self.rest().len() {
            Some(self.rest()[n])
        } else {
            None
        }
    }

    /// The cursor never stands inside a character.
    #[verifier::type_invariant]
    spec fn on_boundary(self) -> bool {
        is_char_boundary(encode_utf8(self.text@), self.len.0 as int)
    }

    proof fn lemma_split(&self)
        requires
            self.on_boundary(),
        ensures
            self.text() == self.consumed() + self.rest(),
            self.offset() == encode_utf8(self.consumed()).len(),
            encode_utf8(self.consumed()) == encode_utf8(self.text()).subrange(
                0,
                self.offset() as int,
            ),
            self.offset() <= encode_utf8(self.text()).len(),
    {
        let bytes = encode_utf8(self.text@);
        let at = self.len.0 as int;
        encode_utf8_valid_utf8(self.text@);
        valid_utf8_split(bytes, at);
        decode_utf8_split(bytes, at);
        encode_utf8_decode_utf8(self.text@);
        decode_utf8_encode_utf8(bytes.subrange(0, at));
        reveal_with_fuel(is_char_boundary, 2);
    }

    /// A cursor at the start of `text`.
    pub fn new(text: &'s str) -> (ptr: Ptr<'s>)
        ensures
            ptr.text() == text@,
            ptr.offset() == 0,
            ptr.consumed() == Seq::<char>::empty(),
            ptr.rest() == text@,
            ptr.text() == ptr.consumed() + ptr.rest(),
    {
        proof {
            let bytes = encode_utf8(text@);
            encode_utf8_valid_utf8(text@);
            is_char_boundary_start_end_of_seq(bytes);
            encode_utf8_decode_utf8(text@);
            assert(bytes.subrange(0, bytes.len() as int) =~= bytes);
            assert(bytes.subrange(0, 0) =~= Seq::<u8>::empty());
        }
        Ptr { text, len: TextUnit::new(0) }
    }

    /// The length of what was read.
    pub fn into_len(self) -> (len: TextUnit)
        ensures
            len.0 == self.offset(),
            len.0 == encode_utf8(self.consumed()).len(),
            self.text() == self.consumed() + self.rest(),
    {
        proof {
            use_type_invariant(&self);
            self.lemma_split();
        }
        self.len
    }

    /// The next character, which stays unread.
    pub fn next(&self) -> (ch: Option<char>)
        ensures
            ch == self.peek(0),
    {
        self.chars().next()
    }

    /// The character after the next one; both stay unread.
    pub fn nnext(&self) -> (ch: Option<char>)
        ensures
            ch == self.peek(1),
    {
        let mut chars = self.chars();
        match chars.next() {
            None => None,
            Some(_) => chars.next(),
        }
    }

    /// Reads the next character. There is none once the whole text was read. The
    /// length of what was read has to fit into a [TextUnit].
    pub fn bump(&mut self) -> (ch: Option<char>)
        requires
            old(self).rest().len() > 0 ==> old(self).offset() + char_len(old(self).rest()[0])
                <= u32::MAX,
        ensures
            match ch {
                Some(c) => reads(*old(self), c, *final(self)),
                None => {
                    &&& old(self).peek(0) is None
                    &&& *final(self) == *old(self)
                },
            },
            final(self).text() == final(self).consumed() + final(self).rest(),
    {
        proof {
            use_type_invariant(&*self);
        }
        proof {
            self.lemma_split();
        }
        match self.chars().next() {
            None => None,
            Some(ch) => {
                let width: TextUnit = TextUnit::len_of_char(ch);
                proof {
                    let read = self.consumed();
                    let left = self.rest();
                    assert(read.push(ch) + left.drop_first() =~= read + left);
                    lemma_encode_utf8_concat(read, seq![ch]);
                    assert(read + seq![ch] =~= read.push(ch));
                    assert(seq![ch].drop_first() =~= Seq::<char>::empty());
                    reveal_with_fuel(encode_utf8, 2);
                    assert(encode_utf8(seq![ch]).len() == char_len(ch));
                    lemma_prefix_ends_on_boundary(read.push(ch), left.drop_first());
                    encode_utf8_decode_utf8(read.push(ch));
                    encode_utf8_decode_utf8(left.drop_first());
                }
                self.len = TextUnit(self.len.0 + width.0);
                Some(ch)
            },
        }
    }

    fn chars(&self) -> (chars: Chars<'s>)
        ensures
            chars.remaining() == self.rest(),
    {
        proof {
            use_type_invariant(&*self);
        }
        let (_, tail): (&'s str, &'s str) = self.text.split_at(self.len.0 as usize);
        proof {
            encode_utf8_decode_utf8(tail@);
        }
        tail.chars()
    }
}

/// Reading a character brings every character ahead one place nearer: what was
/// the one after the next becomes the next.
pub proof fn law_bump_shifts_lookahead(before: Ptr, c: char, after: Ptr, n: int)
    requires
        n >= 0,
        reads(before, c, after),
    ensures
        after.peek(n) == before.peek(n + 1),
{
}

/// `after` is `before` with one more character read.
pub open spec fn reads(before: Ptr, c: char, after: Ptr) -> bool {
    &&& before.peek(0) == Some(c)
    &&& after.text() == before.text()
    &&& after.consumed() == before.consumed().push(c)
    &&& after.rest() == before.rest().drop_first()
    &&& after.offset() == before.offset() + char_len(c)
}

/// A reading from the start of the text on, which yields the characters `read`.
pub open spec fn is_reading(ptrs: Seq<Ptr>, read: Seq<char>) -> bool {
    &&& ptrs.len() == read.len() + 1
    &&& ptrs[0].consumed() == Seq::<char>::empty()
    &&& ptrs[0].rest() == ptrs[0].text()
    &&& ptrs[0].offset() == 0
    &&& forall|i: int| 0 <= i < read.len() ==> reads(ptrs[i], #[trigger] read[i], ptrs[i + 1])
}

/// Reading yields the characters of the text, in their order and without a gap,
/// and the offset is the length of what was read. A reading that comes to the
/// end has yielded the whole text.
pub proof fn law_reading_yields_the_text(ptrs: Seq<Ptr>, read: Seq<char>)
    requires
        is_reading(ptrs, read),
    ensures
        ptrs.last().text() == ptrs[0].text(),
        ptrs.last().consumed() == read,
        ptrs[0].text() == read + ptrs.last().rest(),
        ptrs.last().offset() == encode_utf8(read).len(),
        ptrs.last().peek(0) is None ==> read == ptrs[0].text(),
    decreases read.len(),
{
    if read.len() == 0 {
        assert(read =~= Seq::<char>::empty());
        assert(read + ptrs.last().rest() =~= ptrs.last().rest());
    } else {
        let n = read.len() - 1;
        let front = read.drop_last();
        assert forall|i: int| 0 <= i < front.len() implies reads(
            ptrs.drop_last()[i],
            #[trigger] front[i],
            ptrs.drop_last()[i + 1],
        ) by {
            assert(front[i] == read[i]);
        }
        law_reading_yields_the_text(ptrs.drop_last(), front);
        assert(reads(ptrs[n], read[n], ptrs[n + 1]));
        assert(front.push(read[n]) =~= read);
        let left = ptrs[n].rest();
        assert(front + left =~= read + left.drop_first());
        lemma_encode_utf8_concat(front, seq![read[n]]);
        assert(front + seq![read[n]] =~= read);
        assert(seq![read[n]].drop_first() =~= Seq::<char>::empty());
        reveal_with_fuel(encode_utf8, 2);
        assert(encode_utf8(seq![read[n]]).len() == char_len(read[n]));
    }
    if ptrs.last().peek(0) is None {
        assert(read + ptrs.last().rest() =~= read);
    }
}

/// A new cursor stands before the whole text.
pub proof fn law_new_cursor<'s>(text: &'s str, ptr: Ptr<'s>)
    requires
        call_ensures(Ptr::new, (text,), ptr),
    ensures
        ptr.text() == text@,
        ptr.rest() == text@,
        ptr.consumed().len() == 0,
        ptr.offset() == 0,
        is_reading(seq![ptr], Seq::empty()),
{
    assert(ptr.consumed() =~= Seq::<char>::empty());
}

/// Looking ahead gives the characters of the text that follow those that were
/// read, as far as there are any: the first of them and the second.
pub proof fn law_lookahead(
    ptrs: Seq<Ptr>,
    read: Seq<char>,
    next: Option<char>,
    nnext: Option<char>,
)
    requires
        is_reading(ptrs, read),
        call_ensures(Ptr::next, (&ptrs.last(),), next),
        call_ensures(Ptr::nnext, (&ptrs.last(),), nnext),
    ensures
        ({
            let text = ptrs[0].text();
            let at = read.len() as int;
            &&& next is Some <==> at < text.len()
            &&& next matches Some(c) ==> c == text[at]
            &&& nnext is Some <==> at + 1 < text.len()
            &&& nnext matches Some(c) ==> c == text[at + 1]
        }),
{
    law_reading_yields_the_text(ptrs, read);
    let rest = ptrs.last().rest();
    assert(ptrs[0].text().len() == read.len() + rest.len());
    assert(forall|i: int|
        0 <= i < rest.len() ==> ptrs[0].text()[read.len() + i] == #[trigger] rest[i]);
}

/// The character that is read is the one that was next, and the one after it is
/// next then.
pub proof fn law_read_what_is_next(
    before: Ptr,
    c: char,
    after: Ptr,
    next: Option<char>,
    nnext: Option<char>,
    then: Option<char>,
)
    requires
        reads(before, c, after),
        call_ensures(Ptr::next, (&before,), next),
        call_ensures(Ptr::nnext, (&before,), nnext),
        call_ensures(Ptr::next, (&after,), then),
    ensures
        next == Some(c),
        then == nnext,
        after.text() == before.text(),
        after.consumed().len() == before.consumed().len() + 1,
        after.consumed().last() == c,
        after.offset() - before.offset() == encode_utf8(seq![c]).len(),
{
    law_bump_shifts_lookahead(before, c, after, 0);
    assert(seq![c].drop_first() =~= Seq::<char>::empty());
    reveal_with_fuel(encode_utf8, 2);
}

/// The length that a cursor ends with is the number of bytes of what was read.
pub proof fn law_length_is_what_was_read(ptrs: Seq<Ptr>, read: Seq<char>, len: TextUnit)
    requires
        is_reading(ptrs, read),
        call_ensures(Ptr::into_len, (ptrs.last(),), len),
    ensures
        len.0 == encode_utf8(read).len(),
        ptrs.last().peek(0) is None ==> len.0 == encode_utf8(ptrs[0].text()).len(),
{
    law_reading_yields_the_text(ptrs, read);
}

/// Reading gives a character exactly as long as there is one left, the next one,
/// and moves the cursor past it and no further. At the end it changes nothing.
pub proof fn law_bump()
    ensures
        forall|ptr: &mut Ptr, ch: Option<char>| #[trigger]
            call_ensures(Ptr::bump, (ptr,), ch) ==> {
                &&& ch is None <==> (*ptr).rest().len() == 0
                &&& ch is None ==> *final(ptr) == *ptr
                &&& ch matches Some(c) ==> {
                    &&& (*ptr).rest()[0] == c
                    &&& (*final(ptr)).text() == (*ptr).text()
                    &&& (*final(ptr)).rest() == (*ptr).rest().drop_first()
                    &&& (*final(ptr)).consumed() == (*ptr).consumed().push(c)
                    &&& (*final(ptr)).offset() == (*ptr).offset() + encode_utf8(seq![c]).len()
                }
            },
{
    assert forall|c: char| #[trigger] encode_utf8(seq![c]).len() == char_len(c) by {
        assert(seq![c].drop_first() =~= Seq::<char>::empty());
        reveal_with_fuel(encode_utf8, 2);
    }
}

} // verus!
