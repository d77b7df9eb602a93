//! Comparing a [`ZalgoString`] with plain text, and joining two of them with
//! `+` and `+=`. A comparison with plain text looks at the encoded text, not
//! at the decoded one.

use crate::utf8_facts::lemma_encode_utf8_injective;
use crate::zalgo_string::ZalgoString;
use std::borrow::Cow;
use std::ops::{Range, RangeFrom, RangeFull, RangeInclusive, RangeTo, RangeToInclusive};
use vstd::prelude::*;
use vstd::pervasive::unreached;
use vstd::std_specs::cmp::PartialEqSpecImpl;
use vstd::std_specs::ops::AddSpecImpl;
use vstd::utf8::encode_utf8;

verus! {

/// Tells whether two string slices hold the same text.
pub(crate) fn same_text(left: &str, right: &str) -> (r: bool)
    ensures
        r == (left@ == right@),
{
    let a = left.as_bytes();
    let b = right.as_bytes();
    if a.len() != b.len() {
        return false;
    }
    let mut i: usize = 0;
    while i < a.len()
        invariant
            a@ == encode_utf8(left@),
            b@ == encode_utf8(right@),
            a@.len() == b@.len(),
            i <= a@.len(),
            forall|k: int| 0 <= k < i ==> a@[k] == b@[k],
        decreases a@.len() - i,
    {
        if a[i] != b[i] {
            return false;
        }
        i += 1;
    }
    proof {
        assert(a@ =~= b@);
        lemma_encode_utf8_injective(left@, right@);
    }
    true
}

impl PartialEq for ZalgoString {
    fn eq(&self, other: &ZalgoString) -> (r: bool) {
        same_text(self.as_str(), other.as_str())
    }
}

impl PartialEqSpecImpl for ZalgoString {
    open spec fn obeys_eq_spec() -> bool {
        true
    }

    open spec fn eq_spec(&self, other: &ZalgoString) -> bool {
        self@ == other@
    }
}

impl PartialEq<str> for ZalgoString {
    fn eq(&self, other: &str) -> (r: bool) {
        same_text(self.as_str(), other)
    }
}

impl PartialEqSpecImpl<str> for ZalgoString {
    open spec fn obeys_eq_spec() -> bool {
        true
    }

    open spec fn eq_spec(&self, other: &str) -> bool {
        self@ == other@
    }
}

impl PartialEq<ZalgoString> for str {
    fn eq(&self, other: &ZalgoString) -> (r: bool) {
        same_text(self, other.as_str())
    }
}

impl PartialEqSpecImpl<ZalgoString> for str {
    open spec fn obeys_eq_spec() -> bool {
        true
    }

    open spec fn eq_spec(&self, other: &ZalgoString) -> bool {
        self@ == other@
    }
}

impl PartialEq<&str> for ZalgoString {
    fn eq(&self, other: &&str) -> (r: bool) {
        same_text(self.as_str(), *other)
    }
}

impl PartialEqSpecImpl<&str> for ZalgoString {
    open spec fn obeys_eq_spec() -> bool {
        true
    }

    open spec fn eq_spec(&self, other: &&str) -> bool {
        self@ == other@
    }
}

impl PartialEq<ZalgoString> for &str {
    fn eq(&self, other: &ZalgoString) -> (r: bool) {
        same_text(*self, other.as_str())
    }
}

impl PartialEqSpecImpl<ZalgoString> for &str {
    open spec fn obeys_eq_spec() -> bool {
        true
    }

    open spec fn eq_spec(&self, other: &ZalgoString) -> bool {
        self@ == other@
    }
}

impl PartialEq<String> for ZalgoString {
    fn eq(&self, other: &String) -> (r: bool) {
        same_text(self.as_str(), other.as_str())
    }
}

impl PartialEqSpecImpl<String> for ZalgoString {
    open spec fn obeys_eq_spec() -> bool {
        true
    }

    open spec fn eq_spec(&self, other: &String) -> bool {
        self@ == other@
    }
}

impl PartialEq<ZalgoString> for String {
    fn eq(&self, other: &ZalgoString) -> (r: bool) {
        same_text(self.as_str(), other.as_str())
    }
}

impl PartialEqSpecImpl<ZalgoString> for String {
    open spec fn obeys_eq_spec() -> bool {
        true
    }

    open spec fn eq_spec(&self, other: &ZalgoString) -> bool {
        self@ == other@
    }
}

impl PartialEq<Cow<'_, str>> for ZalgoString {
    fn eq(&self, other: &Cow<'_, str>) -> (r: bool) {
        match other {
            Cow::Borrowed(text) => same_text(self.as_str(), text),
            Cow::Owned(text) => same_text(self.as_str(), text.as_str()),
        }
    }
}

impl PartialEqSpecImpl<Cow<'_, str>> for ZalgoString {
    open spec fn obeys_eq_spec() -> bool {
        true
    }

    open spec fn eq_spec(&self, other: &Cow<'_, str>) -> bool {
        self@ == other@
    }
}

impl PartialEq<ZalgoString> for Cow<'_, str> {
    fn eq(&self, other: &ZalgoString) -> (r: bool) {
        match self {
            Cow::Borrowed(text) => same_text(text, other.as_str()),
            Cow::Owned(text) => same_text(text.as_str(), other.as_str()),
        }
    }
}

impl PartialEqSpecImpl<ZalgoString> for Cow<'_, str> {
    open spec fn obeys_eq_spec() -> bool {
        true
    }

    open spec fn eq_spec(&self, other: &ZalgoString) -> bool {
        self@ == other@
    }
}

/// The `+` operator joins two `ZalgoString`s. It consumes the left-hand
/// side, extends its buffer, and copies the combining characters of the
/// right-hand side into it.
impl std::ops::Add<&ZalgoString> for ZalgoString {
    type Output = ZalgoString;

    fn add(self, rhs: &ZalgoString) -> (joined: ZalgoString)
        ensures
            joined@ == self@ + rhs@.drop_first(),
            joined.encoded() == self.encoded() + rhs.encoded().drop_first(),
            joined.decoded() == self.decoded() + rhs.decoded(),
    {
        let mut joined = self;
        joined.push_zalgo_str(rhs);
        joined
    }
}

impl AddSpecImpl<&ZalgoString> for ZalgoString {
    open spec fn obeys_add_spec() -> bool {
        false
    }

    open spec fn add_req(self, rhs: &ZalgoString) -> bool {
        true
    }

    open spec fn add_spec(self, rhs: &ZalgoString) -> ZalgoString {
        self
    }
}

/// The `+=` operator appends to a `ZalgoString`, as
/// [`push_zalgo_str`](ZalgoString::push_zalgo_str) does.
impl std::ops::AddAssign<&ZalgoString> for ZalgoString {
    fn add_assign(&mut self, rhs: &ZalgoString)
        ensures
            final(self)@ == old(self)@ + rhs@.drop_first(),
            final(self).encoded() == old(self).encoded() + rhs.encoded().drop_first(),
            final(self).decoded() == old(self).decoded() + rhs.decoded(),
    {
        self.push_zalgo_str(rhs);
    }
}

/// Indexing by a range of byte offsets gives that part of the encoded text.
/// Both ends have to lie within the text and on a character, that is at
/// offset 0 or at an odd offset.
impl std::ops::Index<Range<usize>> for ZalgoString {
    type Output = str;

    fn index(&self, index: Range<usize>) -> (part: &str)
        ensures
            encode_utf8(part@) == self.encoded().subrange(index.start as int, index.end as int),
    {
        match self.get(index) {
            Some(part) => part,
            None => unreached(),
        }
    }
}

impl vstd::std_specs::core::IndexSpecImpl<Range<usize>> for ZalgoString {
    open spec fn index_req(&self, index: &Range<usize>) -> bool {
        &&& index.start <= index.end <= self.encoded().len()
        &&& index.start == 0 || index.start % 2 == 1
        &&& index.end == 0 || index.end % 2 == 1
    }
}

impl std::ops::Index<RangeTo<usize>> for ZalgoString {
    type Output = str;

    fn index(&self, index: RangeTo<usize>) -> (part: &str)
        ensures
            encode_utf8(part@) == self.encoded().subrange(0, index.end as int),
    {
        match self.get(0..index.end) {
            Some(part) => part,
            None => unreached(),
        }
    }
}

impl vstd::std_specs::core::IndexSpecImpl<RangeTo<usize>> for ZalgoString {
    open spec fn index_req(&self, index: &RangeTo<usize>) -> bool {
        &&& index.end <= self.encoded().len()
        &&& index.end == 0 || index.end % 2 == 1
    }
}

impl std::ops::Index<RangeFrom<usize>> for ZalgoString {
    type Output = str;

    fn index(&self, index: RangeFrom<usize>) -> (part: &str)
        ensures
            encode_utf8(part@) == self.encoded().subrange(
                index.start as int,
                self.encoded().len() as int,
            ),
    {
        match self.get(index.start..self.len()) {
            Some(part) => part,
            None => unreached(),
        }
    }
}

impl vstd::std_specs::core::IndexSpecImpl<RangeFrom<usize>> for ZalgoString {
    open spec fn index_req(&self, index: &RangeFrom<usize>) -> bool {
        &&& index.start <= self.encoded().len()
        &&& index.start == 0 || index.start % 2 == 1
    }
}

impl std::ops::Index<RangeToInclusive<usize>> for ZalgoString {
    type Output = str;

    fn index(&self, index: RangeToInclusive<usize>) -> (part: &str)
        ensures
            encode_utf8(part@) == self.encoded().subrange(0, index.end + 1),
    {
        match self.get(0..index.end + 1) {
            Some(part) => part,
            None => unreached(),
        }
    }
}

impl vstd::std_specs::core::IndexSpecImpl<RangeToInclusive<usize>> for ZalgoString {
    open spec fn index_req(&self, index: &RangeToInclusive<usize>) -> bool {
        &&& index.end < self.encoded().len()
        &&& index.end % 2 == 0
    }
}

impl std::ops::Index<RangeFull> for ZalgoString {
    type Output = str;

    fn index(&self, index: RangeFull) -> (part: &str)
        ensures
            part@ == self@,
    {
        self.as_str()
    }
}

impl vstd::std_specs::core::IndexSpecImpl<RangeFull> for ZalgoString {
    open spec fn index_req(&self, index: &RangeFull) -> bool {
        true
    }
}

impl std::ops::Index<RangeInclusive<usize>> for ZalgoString {
    type Output = str;

    fn index(&self, index: RangeInclusive<usize>) -> (part: &str)
        ensures
            encode_utf8(part@) == self.encoded().subrange(
                index@.start as int,
                index@.end + 1,
            ),
    {
        let start = *index.start();
        let end = *index.end();
        match self.get(start..end + 1) {
            Some(part) => part,
            None => unreached(),
        }
    }
}

impl vstd::std_specs::core::IndexSpecImpl<RangeInclusive<usize>> for ZalgoString {
    open spec fn index_req(&self, index: &RangeInclusive<usize>) -> bool {
        &&& !index@.exhausted
        &&& index@.start <= index@.end + 1
        &&& index@.end < self.encoded().len()
        &&& index@.start == 0 || index@.start % 2 == 1
        &&& index@.end % 2 == 0
    }
}

} // verus!
