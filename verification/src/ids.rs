//! Identifiers for cards, owners and users.
//!
//! An identifier travels as text: 36 characters, hyphens at positions 8, 13,
//! 18 and 23, lowercase hexadecimal digits everywhere else. `Uid` holds such
//! a string and maintains that shape as its invariant; fresh identifiers come
//! from the `uuid` crate through a single trusted wrapper.
use vstd::prelude::*;

verus! {

/// A lowercase hexadecimal digit.
pub open spec fn is_hex_char(c: char) -> bool {
    ('0' <= c && c <= '9') || ('a' <= c && c <= 'f')
}

/// What may stand at position `i` of a canonical identifier string.
pub open spec fn uid_char_ok(c: char, i: int) -> bool {
    if i == 8 || i == 13 || i == 18 || i == 23 {
        c == '-'
    } else {
        is_hex_char(c)
    }
}

/// Canonical identifier text: 36 characters, hyphens at 8, 13, 18 and 23,
/// lowercase hexadecimal digits elsewhere.
pub open spec fn is_canonical_uid(s: Seq<char>) -> bool {
    &&& s.len() == 36
    &&& forall|i: int| 0 <= i < 36 ==> #[trigger] uid_char_ok(s[i], i)
}

/// Character-for-character string equality, stated over the views.
pub fn str_eq(a: &str, b: &str) -> (r: bool)
    ensures
        r == (a@ == b@),
{
    let a_len = a.unicode_len();
    let b_len = b.unicode_len();
    if a_len != b_len {
        return false;
    }
    let mut i: usize = 0;
    while i < a_len
        invariant
            i <= a_len,
            a_len == a@.len(),
            a_len == b@.len(),
            forall|j: int| 0 <= j < i ==> a@[j] == b@[j],
        decreases a_len - i,
    {
        if a.get_char(i) != b.get_char(i) {
            return false;
        }
        i += 1;
    }
    proof {
        assert(a@ =~= b@);
    }
    true
}

/// An identifier in canonical hyphenated form.
#[derive(Debug, PartialEq, Eq)]
pub struct Uid {
    text: String,
}

impl View for Uid {
    type V = Seq<char>;

    closed spec fn view(&self) -> Seq<char> {
        self.text@
    }
}

impl Clone for Uid {
    fn clone(&self) -> (r: Self)
        ensures
            r@ == self@,
            r.wf() == self.wf(),
    {
        Uid { text: self.text.clone() }
    }
}

impl Uid {
    /// The invariant every identifier built by this module satisfies.
    pub open spec fn wf(&self) -> bool {
        is_canonical_uid(self@)
    }

    /// Accepts exactly the canonical identifier strings.
    pub fn parse(s: &str) -> (r: Option<Uid>)
        ensures
            r is Some <==> is_canonical_uid(s@),
            r matches Some(u) ==> u@ == s@ && u.wf(),
    {
        if is_canonical_uid_str(s) {
            Some(Uid { text: s.to_owned() })
        } else {
            None
        }
    }

    /// The identifier's text.
    pub fn as_str(&self) -> (r: &str)
        ensures
            r@ == self@,
    {
        self.text.as_str()
    }

    /// The identifier's text as an owned string.
    pub fn to_text(&self) -> (r: String)
        ensures
            r@ == self@,
    {
        self.text.clone()
    }

    /// A fresh random identifier.
    pub fn fresh() -> (r: Uid)
        ensures
            r.wf(),
    {
        let text = new_uuid_text();
        Uid { text }
    }
}

/// Whether `s` is canonical identifier text.
pub fn is_canonical_uid_str(s: &str) -> (r: bool)
    ensures
        r == is_canonical_uid(s@),
{
    let len = s.unicode_len();
    if len != 36 {
        return false;
    }
    let mut i: usize = 0;
    while i < 36
        invariant
            i <= 36,
            s@.len() == 36,
            forall|j: int| 0 <= j < i ==> #[trigger] uid_char_ok(s@[j], j),
        decreases 36 - i,
    {
        let c = s.get_char(i);
        let ok = if i == 8 || i == 13 || i == 18 || i == 23 {
            c == '-'
        } else {
            ('0' <= c && c <= '9') || ('a' <= c && c <= 'f')
        };
        if !ok {
            proof {
                assert(!uid_char_ok(s@[i as int], i as int));
            }
            return false;
        }
        i += 1;
    }
    true
}

/// Relies on `uuid::Uuid::new_v4` and its `Display` impl: a version-4
/// identifier formatted in the canonical hyphenated lowercase form.
#[verifier::external_body]
fn new_uuid_text() -> (r: String)
    ensures
        is_canonical_uid(r@),
{
    uuid::Uuid::new_v4().to_string()
}

} // verus!
