//! Topic names and topic filters.
//!
//! A topic is a path of levels separated by `/`. A published message carries a
//! topic name; a subscription carries a topic filter, in which a level may be
//! the wildcard `+` (any one level) and the last level may be `#` (any levels
//! from here on). The rules are stated over the bytes of the text: the bytes
//! that matter are ASCII, and in UTF-8 an ASCII byte is never part of another
//! character.

use vstd::prelude::*;
use vstd::string::StringSliceAdditionalSpecFns;
use vstd::utf8::encode_utf8;
use vstd::utf8::encode_utf8_valid_utf8;
use vstd::utf8::is_char_boundary;
use vstd::utf8::is_char_boundary_iff_not_is_continuation_byte;
use vstd::utf8::is_continuation_byte;
use vstd::utf8::is_char_boundary_start_end_of_seq;
use vstd::utf8::pop_first_scalar;
use vstd::utf8::valid_utf8;
use vstd::utf8::valid_utf8_split;
use internship::IStr;
use crate::intern::str_of;
use crate::intern::intern;
use crate::intern::text_of;

verus! {

/// The byte that no topic may hold.
pub const NUL: u8 = 0;

/// `/`, which separates the levels of a topic.
pub const SEPARATOR: u8 = 47;

/// `+`, the filter level that matches any one level.
pub const SINGLE_LEVEL: u8 = 43;

/// `#`, the filter level that matches every level from its place on.
pub const MULTI_LEVEL: u8 = 35;

/// The text is no topic name, or no topic filter.
#[derive(Debug, Clone)]
pub struct ParseError;

/// A topic name: the address of a published message.
#[derive(Debug, PartialEq, Eq, PartialOrd, Ord, Hash)]
pub struct Name(IStr);

/// A topic filter: the address pattern of a subscription.
#[derive(Debug, PartialEq, Eq, PartialOrd, Ord, Hash)]
pub struct Filter(IStr);

/// One level of a topic name.
#[derive(Debug, PartialEq, Eq, PartialOrd, Ord, Hash)]
pub struct NameLevel(IStr);

/// A cursor over the levels of a topic name.
#[derive(Debug)]
pub struct NameIter {
    name: Name,
    offset: usize,
}

/// One level of a topic filter.
#[derive(Debug, Clone, PartialEq, Eq, PartialOrd, Ord, Hash)]
pub enum FilterLevel {
    /// A level that matches the name level of the same text.
    Name(NameLevel),
    /// `+`: matches any one level.
    Wildcard,
    /// `#`: matches every level from its place on.
    WildMulti,
}

/// A cursor over the levels of a topic filter.
#[derive(Debug)]
pub struct FilterIter {
    filter: Filter,
    offset: usize,
}

/// Whether `bytes` spell a topic name: at least one byte, none of them NUL or
/// a wildcard.
pub open spec fn is_name(bytes: Seq<u8>) -> bool {
    &&& bytes.len() > 0
    &&& forall|i: int|
        0 <= i < bytes.len() ==> bytes[i] != NUL && bytes[i] != SINGLE_LEVEL && bytes[i]
            != MULTI_LEVEL
}

/// A level begins at `i`: at the start of the text or right after a
/// separator.
pub open spec fn level_starts_at(bytes: Seq<u8>, i: int) -> bool {
    i == 0 || bytes[i - 1] == SEPARATOR
}

/// A level ends with the byte at `i`: at the end of the text or right before
/// a separator.
pub open spec fn level_ends_at(bytes: Seq<u8>, i: int) -> bool {
    i == bytes.len() - 1 || bytes[i + 1] == SEPARATOR
}

/// Whether `bytes` spell a topic filter: at least one byte and no NUL; `+`
/// only as a whole level; `#` only as a whole level and the last one.
pub open spec fn is_filter(bytes: Seq<u8>) -> bool {
    &&& bytes.len() > 0
    &&& forall|i: int| 0 <= i < bytes.len() ==> bytes[i] != NUL
    &&& forall|i: int|
        0 <= i < bytes.len() && bytes[i] == SINGLE_LEVEL ==> level_starts_at(bytes, i)
            && level_ends_at(bytes, i)
    &&& forall|i: int|
        0 <= i < bytes.len() && bytes[i] == MULTI_LEVEL ==> level_starts_at(bytes, i) && i
            == bytes.len() - 1
}

/// Whether the byte `a` may stand right before the byte `b` in a filter.
pub open spec fn may_follow(a: u8, b: u8) -> bool {
    &&& a != NUL
    &&& a != MULTI_LEVEL
    &&& a == SEPARATOR || b == SEPARATOR || (a != SINGLE_LEVEL && b != SINGLE_LEVEL && b
        != MULTI_LEVEL)
}

/// A text is a filter exactly if it is not empty, does not end in NUL, and
/// each of its bytes may be followed by the next.
pub proof fn lemma_filter_by_neighbours(bytes: Seq<u8>)
    ensures
        is_filter(bytes) <==> {
            &&& bytes.len() > 0
            &&& bytes.last() != NUL
            &&& forall|i: int| 0 <= i < bytes.len() - 1 ==> may_follow(bytes[i], #[trigger] bytes[i + 1])
        },
{
    let by_neighbours = {
        &&& bytes.len() > 0
        &&& bytes.last() != NUL
        &&& forall|i: int| 0 <= i < bytes.len() - 1 ==> may_follow(bytes[i], #[trigger] bytes[i + 1])
    };
    if is_filter(bytes) {
        assert forall|i: int| 0 <= i < bytes.len() - 1 implies may_follow(
            bytes[i],
            #[trigger] bytes[i + 1],
        ) by {
            assert(bytes[i] != NUL);
            if bytes[i] == SINGLE_LEVEL {
                assert(level_ends_at(bytes, i));
            }
            if bytes[i + 1] == SINGLE_LEVEL || bytes[i + 1] == MULTI_LEVEL {
                assert(level_starts_at(bytes, i + 1));
            }
        }
    }
    if by_neighbours {
        assert forall|i: int| 0 <= i < bytes.len() implies bytes[i] != NUL by {
            if i < bytes.len() - 1 {
                assert(may_follow(bytes[i], bytes[i + 1]));
            }
        }
        assert forall|i: int| 0 <= i < bytes.len() && bytes[i] == SINGLE_LEVEL implies level_starts_at(
            bytes,
            i,
        ) && level_ends_at(bytes, i) by {
            if i > 0 {
                assert(may_follow(bytes[i - 1], bytes[i - 1 + 1]));
            }
            if i < bytes.len() - 1 {
                assert(may_follow(bytes[i], bytes[i + 1]));
            }
        }
        assert forall|i: int| 0 <= i < bytes.len() && bytes[i] == MULTI_LEVEL implies level_starts_at(
            bytes,
            i,
        ) && i == bytes.len() - 1 by {
            if i > 0 {
                assert(may_follow(bytes[i - 1], bytes[i - 1 + 1]));
            }
            if i < bytes.len() - 1 {
                assert(may_follow(bytes[i], bytes[i + 1]));
            }
        }
    }
}

impl View for Name {
    type V = Seq<char>;

    /// The text of the name.
    closed spec fn view(&self) -> Seq<char> {
        text_of(self.0)
    }
}

impl View for Filter {
    type V = Seq<char>;

    /// The text of the filter.
    closed spec fn view(&self) -> Seq<char> {
        text_of(self.0)
    }
}

impl Clone for Name {
    /// A name of the same text.
    fn clone(&self) -> (copy: Self)
        ensures
            copy@ == self@,
    {
        proof {
            use_type_invariant(self);
        }
        Name(self.0.clone())
    }
}

impl Name {
    /// The bytes of the name.
    pub open spec fn spec_bytes(&self) -> Seq<u8> {
        encode_utf8(self@)
    }

    #[verifier::type_invariant]
    spec fn well_formed(&self) -> bool {
        is_name(encode_utf8(text_of(self.0)))
    }

    /// Reads `src` as a topic name.
    pub fn new(src: &str) -> (parsed: Result<Name, ParseError>)
        ensures
            parsed is Ok <==> is_name(src.spec_bytes()),
            parsed matches Ok(name) ==> name@ == src@,
    {
        let bytes = src.as_bytes();
        if bytes.len() == 0 {
            return Err(ParseError);
        }
        let mut i: usize = 0;
        while i < bytes.len()
            invariant
                i <= bytes.len(),
                bytes@ == src.spec_bytes(),
                forall|j: int|
                    0 <= j < i ==> bytes@[j] != NUL && bytes@[j] != SINGLE_LEVEL && bytes@[j]
                        != MULTI_LEVEL,
            decreases bytes.len() - i,
        {
            let ch = bytes[i];
            if ch == NUL || ch == SINGLE_LEVEL || ch == MULTI_LEVEL {
                return Err(ParseError);
            }
            i += 1;
        }
        Ok(Name(intern(src)))
    }

    /// The text of the name, which is that of a topic name.
    pub fn as_str(&self) -> (text: &str)
        ensures
            text@ == self@,
            is_name(text.spec_bytes()),
    {
        proof {
            use_type_invariant(self);
        }
        str_of(&self.0)
    }
}

impl Clone for Filter {
    /// A filter of the same text.
    fn clone(&self) -> (copy: Self)
        ensures
            copy@ == self@,
    {
        proof {
            use_type_invariant(self);
        }
        Filter(self.0.clone())
    }
}

impl Filter {
    /// The bytes of the filter.
    pub open spec fn spec_bytes(&self) -> Seq<u8> {
        encode_utf8(self@)
    }

    #[verifier::type_invariant]
    spec fn well_formed(&self) -> bool {
        is_filter(encode_utf8(text_of(self.0)))
    }

    /// Reads `src` as a topic filter.
    pub fn new(src: &str) -> (parsed: Result<Filter, ParseError>)
        ensures
            parsed is Ok <==> is_filter(src.spec_bytes()),
            parsed matches Ok(filter) ==> filter@ == src@,
    {
        let bytes = src.as_bytes();
        proof {
            lemma_filter_by_neighbours(src.spec_bytes());
        }
        if bytes.len() == 0 || bytes[bytes.len() - 1] == NUL {
            return Err(ParseError);
        }
        let mut i: usize = 0;
        while i + 1 < bytes.len()
            invariant
                0 < bytes.len(),
                i < bytes.len(),
                bytes@ == src.spec_bytes(),
                forall|j: int| 0 <= j < i ==> may_follow(bytes@[j], #[trigger] bytes@[j + 1]),
            decreases bytes.len() - i,
        {
            let a = bytes[i];
            let b = bytes[i + 1];
            if a == NUL || a == MULTI_LEVEL {
                return Err(ParseError);
            }
            if a != SEPARATOR && b != SEPARATOR && (a == SINGLE_LEVEL || b == SINGLE_LEVEL || b
                == MULTI_LEVEL) {
                return Err(ParseError);
            }
            i += 1;
        }
        Ok(Filter(intern(src)))
    }

    /// The text of the filter, which is that of a topic filter.
    pub fn as_str(&self) -> (text: &str)
        ensures
            text@ == self@,
            is_filter(text.spec_bytes()),
    {
        proof {
            use_type_invariant(self);
        }
        str_of(&self.0)
    }
}

/// Whether `bytes` spell one level: they hold no separator.
pub open spec fn is_level(bytes: Seq<u8>) -> bool {
    forall|i: int| 0 <= i < bytes.len() ==> bytes[i] != SEPARATOR
}

/// The number of bytes before the first separator in `bytes`: all of them
/// where there is no separator.
pub open spec fn level_len(bytes: Seq<u8>) -> nat
    decreases bytes.len(),
{
    if bytes.len() == 0 || bytes[0] == SEPARATOR {
        0
    } else {
        1 + level_len(bytes.drop_first())
    }
}

/// The level that `bytes` begin with: what stands before the first
/// separator.
pub open spec fn first_level(bytes: Seq<u8>) -> Seq<u8> {
    bytes.take(level_len(bytes) as int)
}

/// Whether a separator follows the first level of `bytes`.
pub open spec fn has_more_levels(bytes: Seq<u8>) -> bool {
    level_len(bytes) < bytes.len()
}

/// The first level of a text is a level, and it ends at the first separator
/// of the text, or at its end.
pub proof fn lemma_first_level(bytes: Seq<u8>)
    ensures
        level_len(bytes) <= bytes.len(),
        is_level(first_level(bytes)),
        has_more_levels(bytes) ==> bytes[level_len(bytes) as int] == SEPARATOR,
    decreases bytes.len(),
{
    if bytes.len() == 0 || bytes[0] == SEPARATOR {
    } else {
        let rest = bytes.drop_first();
        lemma_first_level(rest);
        assert forall|j: int| 0 <= j < first_level(bytes).len() implies first_level(bytes)[j]
            != SEPARATOR by {
            if j > 0 {
                assert(first_level(bytes)[j] == first_level(rest)[j - 1]);
            }
        }
    }
}

/// A place with no separator before it, which holds one or is the end of
/// the text, is where the first level ends.
pub proof fn lemma_level_len_is(bytes: Seq<u8>, k: int)
    requires
        0 <= k <= bytes.len(),
        forall|j: int| 0 <= j < k ==> bytes[j] != SEPARATOR,
        k < bytes.len() ==> bytes[k] == SEPARATOR,
    ensures
        level_len(bytes) == k,
    decreases bytes.len(),
{
    if bytes.len() == 0 || bytes[0] == SEPARATOR {
    } else {
        let rest = bytes.drop_first();
        assert forall|j: int| 0 <= j < k - 1 implies rest[j] != SEPARATOR by {
            assert(rest[j] == bytes[j + 1]);
        }
        lemma_level_len_is(rest, k - 1);
    }
}

/// In a text, a character begins right after every separator, unless the
/// text ends there.
pub proof fn lemma_boundary_after_separator(bytes: Seq<u8>, k: int)
    requires
        valid_utf8(bytes),
        0 <= k < bytes.len(),
        bytes[k] == SEPARATOR,
    ensures
        is_char_boundary(bytes, k),
        is_char_boundary(bytes, k + 1),
{
    is_char_boundary_iff_not_is_continuation_byte(bytes, k);
    if k + 1 == bytes.len() {
        is_char_boundary_start_end_of_seq(bytes);
    } else {
        valid_utf8_split(bytes, k);
        let tail = bytes.subrange(k, bytes.len() as int);
        assert(tail[0] == SEPARATOR);
        let after = pop_first_scalar(tail);
        assert(after =~= bytes.subrange(k + 1, bytes.len() as int));
        assert(valid_utf8(after)) by {
            reveal_with_fuel(valid_utf8, 2);
        }
        assert(after[0] == bytes[k + 1]);
        assert(!is_continuation_byte(after[0])) by {
            reveal_with_fuel(valid_utf8, 2);
        }
        is_char_boundary_iff_not_is_continuation_byte(bytes, k + 1);
    }
}

/// The level of `text` that starts at `offset`, and where a cursor stands
/// after it: one past the length of the level where a separator ends it,
/// else at `offset` still.
fn level_at<'a>(text: &'a str, offset: usize) -> (found: (&'a str, usize))
    requires
        offset < text.spec_bytes().len(),
        is_char_boundary(text.spec_bytes(), offset as int),
    ensures
        ({
            let rest = text.spec_bytes().subrange(offset as int, text.spec_bytes().len() as int);
            &&& found.0.spec_bytes() == first_level(rest)
            &&& is_level(found.0.spec_bytes())
            &&& found.1 == if has_more_levels(rest) {
                level_len(rest) + 1
            } else {
                offset as nat
            }
            &&& found.1 <= text.spec_bytes().len()
            &&& offset == 0 ==> is_char_boundary(text.spec_bytes(), found.1 as int)
        }),
{
    let bytes = text.as_bytes();
    let mut k: usize = 0;
    while offset + k < bytes.len() && bytes[offset + k] != SEPARATOR
        invariant
            offset + k <= bytes.len(),
            forall|j: int| offset <= j < offset + k ==> bytes@[j] != SEPARATOR,
        decreases bytes.len() - k,
    {
        k += 1;
    }
    let ghost rest_bytes = bytes@.subrange(offset as int, bytes@.len() as int);
    proof {
        assert forall|j: int| 0 <= j < k implies rest_bytes[j] != SEPARATOR by {
            assert(rest_bytes[j] == bytes@[offset + j]);
        }
        lemma_level_len_is(rest_bytes, k as int);
        lemma_first_level(rest_bytes);
    }
    let rest = text.split_at(offset).1;
    assert(rest.spec_bytes() == rest_bytes);
    if offset + k < bytes.len() {
        proof {
            encode_utf8_valid_utf8(rest@);
            is_char_boundary_iff_not_is_continuation_byte(rest_bytes, k as int);
        }
        let level = rest.split_at(k).0;
        assert(level.spec_bytes() == first_level(rest_bytes));
        proof {
            if offset == 0 {
                encode_utf8_valid_utf8(text@);
                lemma_boundary_after_separator(text.spec_bytes(), k as int);
            }
        }
        (level, k + 1)
    } else {
        assert(rest_bytes == first_level(rest_bytes));
        (rest, offset)
    }
}

impl View for NameLevel {
    type V = Seq<char>;

    /// The text of the level.
    closed spec fn view(&self) -> Seq<char> {
        text_of(self.0)
    }
}

impl Clone for NameLevel {
    /// A level of the same text.
    fn clone(&self) -> (copy: Self)
        ensures
            copy@ == self@,
    {
        proof {
            use_type_invariant(self);
        }
        NameLevel(self.0.clone())
    }
}

impl NameLevel {
    /// The bytes of the level.
    pub open spec fn spec_bytes(&self) -> Seq<u8> {
        encode_utf8(self@)
    }

    #[verifier::type_invariant]
    spec fn well_formed(&self) -> bool {
        is_level(encode_utf8(text_of(self.0)))
    }

    /// Interns `level`, which holds no separator.
    fn new(level: &str) -> (interned: NameLevel)
        requires
            is_level(level.spec_bytes()),
        ensures
            interned@ == level@,
    {
        NameLevel(intern(level))
    }

    /// The text of the level, which holds no separator.
    pub fn as_str(&self) -> (text: &str)
        ensures
            text@ == self@,
            is_level(text.spec_bytes()),
    {
        proof {
            use_type_invariant(self);
        }
        str_of(&self.0)
    }
}

impl NameIter {
    /// The text of the name that the cursor walks.
    pub closed spec fn text(&self) -> Seq<char> {
        self.name@
    }

    /// The place of the cursor, in bytes from the start of the name.
    pub closed spec fn offset(&self) -> nat {
        self.offset as nat
    }

    /// The bytes of the name.
    pub open spec fn spec_bytes(&self) -> Seq<u8> {
        encode_utf8(self.text())
    }

    /// The bytes from the cursor on.
    pub open spec fn rest(&self) -> Seq<u8> {
        self.spec_bytes().subrange(self.offset() as int, self.spec_bytes().len() as int)
    }

    /// The cursor stands at the end of the name.
    pub open spec fn at_end(&self) -> bool {
        self.offset() == self.spec_bytes().len()
    }

    /// The cursor stands between two characters of the name, or at one of its
    /// ends.
    pub open spec fn on_boundary(&self) -> bool {
        is_char_boundary(self.spec_bytes(), self.offset() as int)
    }

    #[verifier::type_invariant]
    spec fn within_name(&self) -> bool {
        self.offset <= encode_utf8(self.name@).len()
    }

    /// Whether the cursor stands between two characters of the name, or at
    /// one of its ends.
    pub fn on_char_boundary(&self) -> (on_boundary: bool)
        ensures
            on_boundary == self.on_boundary(),
    {
        str_of(&self.name.0).is_char_boundary(self.offset)
    }

    /// The level that starts at the cursor, or `None` at the end of the name.
    ///
    /// The cursor has to stand on a character boundary, which
    /// `on_char_boundary` tells. Where a separator ends the level, the cursor
    /// moves to the offset one past the length of the level; at the last
    /// level it stays where it is. A cursor that stood at the start of the
    /// name stands on a character boundary afterwards.
    pub fn next(&mut self) -> (level: Option<NameLevel>)
        requires
            old(self).on_boundary(),
        ensures
            final(self).text() == old(self).text(),
            old(self).at_end() ==> level is None && final(self).offset() == old(self).offset(),
            final(self).offset() <= final(self).spec_bytes().len(),
            old(self).offset() == 0 ==> final(self).on_boundary(),
            !old(self).at_end() ==> {
                &&& level matches Some(found)
                &&& found.spec_bytes() == first_level(old(self).rest())
                &&& final(self).offset() == if has_more_levels(old(self).rest()) {
                    level_len(old(self).rest()) + 1
                } else {
                    old(self).offset()
                }
            },
    {
        proof {
            use_type_invariant(&*self);
        }
        let text = str_of(&self.name.0);
        if self.offset == text.as_bytes().len() {
            return None;
        }
        let (level, after) = level_at(text, self.offset);
        self.offset = after;
        Some(NameLevel::new(level))
    }
}

impl Name {
    /// A cursor at the start of the name.
    pub fn iter(&self) -> (cursor: NameIter)
        ensures
            cursor.text() == self@,
            cursor.offset() == 0,
            cursor.on_boundary(),
    {
        proof {
            encode_utf8_valid_utf8(self@);
            is_char_boundary_start_end_of_seq(self.spec_bytes());
        }
        NameIter { name: self.clone(), offset: 0 }
    }

    /// A cursor at the start of the name, which it takes over.
    pub fn into_iter(self) -> (cursor: NameIter)
        ensures
            cursor.text() == self@,
            cursor.offset() == 0,
            cursor.on_boundary(),
    {
        self.iter()
    }
}

impl FilterLevel {
    /// Whether this is the level that `bytes` spell: a wildcard for the text
    /// of that wildcard, a name level of the same bytes for any other text.
    pub open spec fn spells(&self, bytes: Seq<u8>) -> bool {
        match self {
            FilterLevel::Wildcard => bytes == seq![SINGLE_LEVEL],
            FilterLevel::WildMulti => bytes == seq![MULTI_LEVEL],
            FilterLevel::Name(level) => {
                &&& level.spec_bytes() == bytes
                &&& bytes != seq![SINGLE_LEVEL]
                &&& bytes != seq![MULTI_LEVEL]
            },
        }
    }

    /// Reads one level of a filter.
    fn new(level: &str) -> (read: FilterLevel)
        requires
            is_level(level.spec_bytes()),
        ensures
            read.spells(level.spec_bytes()),
    {
        let bytes = level.as_bytes();
        if bytes.len() == 1 && bytes[0] == SINGLE_LEVEL {
            assert(bytes@ =~= seq![SINGLE_LEVEL]);
            FilterLevel::Wildcard
        } else if bytes.len() == 1 && bytes[0] == MULTI_LEVEL {
            assert(bytes@ =~= seq![MULTI_LEVEL]);
            FilterLevel::WildMulti
        } else {
            assert(bytes@ != seq![SINGLE_LEVEL]) by {
                assert(seq![SINGLE_LEVEL].len() == 1 && seq![SINGLE_LEVEL][0] == SINGLE_LEVEL);
            }
            assert(bytes@ != seq![MULTI_LEVEL]) by {
                assert(seq![MULTI_LEVEL].len() == 1 && seq![MULTI_LEVEL][0] == MULTI_LEVEL);
            }
            FilterLevel::Name(NameLevel::new(level))
        }
    }
}

impl FilterIter {
    /// The text of the filter that the cursor walks.
    pub closed spec fn text(&self) -> Seq<char> {
        self.filter@
    }

    /// The place of the cursor, in bytes from the start of the filter.
    pub closed spec fn offset(&self) -> nat {
        self.offset as nat
    }

    /// The bytes of the filter.
    pub open spec fn spec_bytes(&self) -> Seq<u8> {
        encode_utf8(self.text())
    }

    /// The bytes from the cursor on.
    pub open spec fn rest(&self) -> Seq<u8> {
        self.spec_bytes().subrange(self.offset() as int, self.spec_bytes().len() as int)
    }

    /// The cursor stands at the end of the filter.
    pub open spec fn at_end(&self) -> bool {
        self.offset() == self.spec_bytes().len()
    }

    /// The cursor stands between two characters of the filter, or at one of its
    /// ends.
    pub open spec fn on_boundary(&self) -> bool {
        is_char_boundary(self.spec_bytes(), self.offset() as int)
    }

    #[verifier::type_invariant]
    spec fn within_filter(&self) -> bool {
        self.offset <= encode_utf8(self.filter@).len()
    }

    /// Whether the cursor stands between two characters of the filter, or at
    /// one of its ends.
    pub fn on_char_boundary(&self) -> (on_boundary: bool)
        ensures
            on_boundary == self.on_boundary(),
    {
        str_of(&self.filter.0).is_char_boundary(self.offset)
    }

    /// The level that starts at the cursor, or `None` at the end of the filter.
    ///
    /// The cursor has to stand on a character boundary, which
    /// `on_char_boundary` tells. Where a separator ends the level, the cursor
    /// moves to the offset one past the length of the level; at the last
    /// level it stays where it is. A cursor that stood at the start of the
    /// filter stands on a character boundary afterwards.
    pub fn next(&mut self) -> (level: Option<FilterLevel>)
        requires
            old(self).on_boundary(),
        ensures
            final(self).text() == old(self).text(),
            old(self).at_end() ==> level is None && final(self).offset() == old(self).offset(),
            final(self).offset() <= final(self).spec_bytes().len(),
            old(self).offset() == 0 ==> final(self).on_boundary(),
            !old(self).at_end() ==> {
                &&& level matches Some(found)
                &&& found.spells(first_level(old(self).rest()))
                &&& final(self).offset() == if has_more_levels(old(self).rest()) {
                    level_len(old(self).rest()) + 1
                } else {
                    old(self).offset()
                }
            },
    {
        proof {
            use_type_invariant(&*self);
        }
        let text = str_of(&self.filter.0);
        if self.offset == text.as_bytes().len() {
            return None;
        }
        let (level, after) = level_at(text, self.offset);
        self.offset = after;
        Some(FilterLevel::new(level))
    }
}

impl Filter {
    /// A cursor at the start of the filter.
    pub fn iter(&self) -> (cursor: FilterIter)
        ensures
            cursor.text() == self@,
            cursor.offset() == 0,
            cursor.on_boundary(),
    {
        proof {
            encode_utf8_valid_utf8(self@);
            is_char_boundary_start_end_of_seq(self.spec_bytes());
        }
        FilterIter { filter: self.clone(), offset: 0 }
    }

    /// A cursor at the start of the filter, which it takes over.
    pub fn into_iter(self) -> (cursor: FilterIter)
        ensures
            cursor.text() == self@,
            cursor.offset() == 0,
            cursor.on_boundary(),
    {
        self.iter()
    }
}

} // verus!
