//! Credential validation: the fixed email and password shape policies.
//!
//! An email is `local@domain.tld` or `local@domain.tld.tld`: the local part
//! one or more word characters, the domain two or more word characters, each
//! top-level segment two or three lowercase letters. Three or more chained
//! segments are rejected.
//!
//! A password passes when it holds a run of at least 32 consecutive
//! characters drawn from one class — letters, digits, whitespace and a fixed
//! symbol set. The policy is a repetition count over that class, not a
//! must-contain-each-category rule: a long enough all-lowercase password
//! passes.
use vstd::prelude::*;

verus! {

/// A word character: a letter, a digit, or an underscore.
pub open spec fn is_word_char(c: char) -> bool {
    ('a' <= c && c <= 'z') || ('A' <= c && c <= 'Z') || ('0' <= c && c <= '9') || c == '_'
}

/// A lowercase letter.
pub open spec fn is_lower(c: char) -> bool {
    'a' <= c && c <= 'z'
}

/// Every character of `s` is a word character.
pub open spec fn all_word_chars(s: Seq<char>) -> bool {
    forall|i: int| 0 <= i < s.len() ==> is_word_char(#[trigger] s[i])
}

/// Every character of `s` is a lowercase letter.
pub open spec fn all_lower(s: Seq<char>) -> bool {
    forall|i: int| 0 <= i < s.len() ==> is_lower(#[trigger] s[i])
}

/// The first position at or after `from` holding `c`, or the length of `s`
/// when there is none.
pub open spec fn find_char(s: Seq<char>, c: char, from: int) -> int
    decreases s.len() - from when 0 <= from <= s.len()
{
    if from >= s.len() {
        s.len() as int
    } else if s[from] == c {
        from
    } else {
        find_char(s, c, from + 1)
    }
}

/// A top-level segment: two or three lowercase letters.
pub open spec fn is_tld(s: Seq<char>) -> bool {
    all_lower(s) && 2 <= s.len() <= 3
}

/// The email shape policy.
pub open spec fn email_valid(s: Seq<char>) -> bool {
    let a = find_char(s, '@', 0);
    let d1 = find_char(s, '.', a + 1);
    let d2 = find_char(s, '.', d1 + 1);
    &&& 1 <= a < s.len()
    &&& all_word_chars(s.subrange(0, a))
    &&& a + 1 <= d1 < s.len()
    &&& d1 - (a + 1) >= 2
    &&& all_word_chars(s.subrange(a + 1, d1))
    &&& if d2 == s.len() {
        is_tld(s.subrange(d1 + 1, s.len() as int))
    } else {
        is_tld(s.subrange(d1 + 1, d2)) && is_tld(s.subrange(d2 + 1, s.len() as int))
    }
}

/// A password character: a letter, a digit, whitespace, or one of the
/// accepted symbols.
pub open spec fn is_password_char(c: char) -> bool {
    ||| ('a' <= c && c <= 'z')
    ||| ('A' <= c && c <= 'Z')
    ||| ('0' <= c && c <= '9')
    ||| c == ' '
    ||| c == '\t'
    ||| c == '\n'
    ||| c == '\r'
    ||| c == '+'
    ||| c == '('
    ||| c == ')'
    ||| c == '@'
    ||| c == '!'
    ||| c == '='
    ||| c == '_'
    ||| c == '#'
    ||| c == '&'
    ||| c == '~'
    ||| c == '['
    ||| c == ']'
    ||| c == '{'
    ||| c == '}'
    ||| c == '?'
}

/// `s` holds `n` consecutive password characters starting at `i`.
pub open spec fn class_run_at(s: Seq<char>, i: int, n: int) -> bool {
    0 <= i && i + n <= s.len() && (forall|j: int|
        i <= j < i + n ==> is_password_char(#[trigger] s[j]))
}

/// `s` holds `n` consecutive password characters somewhere.
pub open spec fn has_class_run(s: Seq<char>, n: int) -> bool {
    exists|i: int| #[trigger] class_run_at(s, i, n)
}

/// The password length policy: at least this many consecutive characters of
/// the accepted class.
pub const PASSWORD_RUN: usize = 32;

fn is_word_char_exec(c: char) -> (r: bool)
    ensures
        r == is_word_char(c),
{
    ('a' <= c && c <= 'z') || ('A' <= c && c <= 'Z') || ('0' <= c && c <= '9') || c == '_'
}

fn is_lower_exec(c: char) -> (r: bool)
    ensures
        r == is_lower(c),
{
    'a' <= c && c <= 'z'
}

fn is_password_char_exec(c: char) -> (r: bool)
    ensures
        r == is_password_char(c),
{
    ('a' <= c && c <= 'z') || ('A' <= c && c <= 'Z') || ('0' <= c && c <= '9') || c == ' '
        || c == '\t' || c == '\n' || c == '\r' || c == '+' || c == '(' || c == ')' || c == '@'
        || c == '!' || c == '=' || c == '_' || c == '#' || c == '&' || c == '~' || c == '['
        || c == ']' || c == '{' || c == '}' || c == '?'
}

fn find_char_exec(s: &str, c: char, from: usize) -> (r: usize)
    requires
        from <= s@.len(),
    ensures
        r == find_char(s@, c, from as int),
        from <= r <= s@.len(),
        r < s@.len() ==> s@[r as int] == c,
{
    let len = s.unicode_len();
    let mut i: usize = from;
    while i < len
        invariant
            from <= i <= len,
            len == s@.len(),
            find_char(s@, c, from as int) == find_char(s@, c, i as int),
        decreases len - i,
    {
        if s.get_char(i) == c {
            return i;
        }
        i += 1;
    }
    len
}

fn range_all_word(s: &str, from: usize, to: usize) -> (r: bool)
    requires
        from <= to <= s@.len(),
    ensures
        r == all_word_chars(s@.subrange(from as int, to as int)),
{
    let ghost sub = s@.subrange(from as int, to as int);
    let mut i: usize = from;
    while i < to
        invariant
            from <= i <= to <= s@.len(),
            sub == s@.subrange(from as int, to as int),
            forall|j: int| from <= j < i ==> is_word_char(#[trigger] s@[j]),
        decreases to - i,
    {
        if !is_word_char_exec(s.get_char(i)) {
            proof {
                assert(sub[i - from] == s@[i as int]);
            }
            return false;
        }
        i += 1;
    }
    proof {
        assert forall|k: int| 0 <= k < sub.len() implies is_word_char(#[trigger] sub[k]) by {
            assert(sub[k] == s@[from + k]);
        }
    }
    true
}

fn range_all_lower(s: &str, from: usize, to: usize) -> (r: bool)
    requires
        from <= to <= s@.len(),
    ensures
        r == all_lower(s@.subrange(from as int, to as int)),
{
    let ghost sub = s@.subrange(from as int, to as int);
    let mut i: usize = from;
    while i < to
        invariant
            from <= i <= to <= s@.len(),
            sub == s@.subrange(from as int, to as int),
            forall|j: int| from <= j < i ==> is_lower(#[trigger] s@[j]),
        decreases to - i,
    {
        if !is_lower_exec(s.get_char(i)) {
            proof {
                assert(sub[i - from] == s@[i as int]);
            }
            return false;
        }
        i += 1;
    }
    proof {
        assert forall|k: int| 0 <= k < sub.len() implies is_lower(#[trigger] sub[k]) by {
            assert(sub[k] == s@[from + k]);
        }
    }
    true
}

/// Whether `email` matches the email shape policy.
pub fn is_valid_email(email: &str) -> (r: bool)
    ensures
        r == email_valid(email@),
{
    let len = email.unicode_len();
    let a = find_char_exec(email, '@', 0);
    if a < 1 || a >= len {
        return false;
    }
    if !range_all_word(email, 0, a) {
        return false;
    }
    let d1 = find_char_exec(email, '.', a + 1);
    if d1 >= len {
        return false;
    }
    if d1 - (a + 1) < 2 {
        return false;
    }
    if !range_all_word(email, a + 1, d1) {
        return false;
    }
    let d2 = find_char_exec(email, '.', d1 + 1);
    if d2 == len {
        let tld_len = len - (d1 + 1);
        2 <= tld_len && tld_len <= 3 && range_all_lower(email, d1 + 1, len)
    } else {
        let t1 = d2 - (d1 + 1);
        let t2 = len - (d2 + 1);
        2 <= t1 && t1 <= 3 && range_all_lower(email, d1 + 1, d2) && 2 <= t2 && t2 <= 3
            && range_all_lower(email, d2 + 1, len)
    }
}

/// Whether `pswd` matches the password shape policy: a run of at least 32
/// consecutive characters of the accepted class.
pub fn is_valid_password(pswd: &str) -> (r: bool)
    ensures
        r == has_class_run(pswd@, PASSWORD_RUN as int),
{
    let len = pswd.unicode_len();
    let mut i: usize = 0;
    let mut run: usize = 0;
    while i < len
        invariant
            i <= len,
            len == pswd@.len(),
            run <= i,
            run < PASSWORD_RUN,
            forall|j: int| i - run <= j < i ==> is_password_char(#[trigger] pswd@[j]),
            run == i || !is_password_char(pswd@[i - run - 1]),
            forall|st: int|
                st + PASSWORD_RUN <= i ==> !#[trigger] class_run_at(
                    pswd@,
                    st,
                    PASSWORD_RUN as int,
                ),
        decreases len - i,
    {
        if is_password_char_exec(pswd.get_char(i)) {
            run += 1;
            if run == PASSWORD_RUN {
                proof {
                    let st = i + 1 - PASSWORD_RUN as int;
                    assert(class_run_at(pswd@, st, PASSWORD_RUN as int));
                }
                return true;
            }
        } else {
            run = 0;
        }
        proof {
            let st = i + 1 - PASSWORD_RUN as int;
            if st >= 0 {
                if run == 0 {
                    assert(!is_password_char(pswd@[i as int]));
                    assert(!class_run_at(pswd@, st, PASSWORD_RUN as int));
                } else {
                    assert(!is_password_char(pswd@[i - run]));
                    assert(!class_run_at(pswd@, st, PASSWORD_RUN as int));
                }
            }
        }
        i += 1;
    }
    false
}

/// Whether the email and the password both match their shape policies.
pub fn is_email_pswd_valids(email: &str, pswd: &str) -> (r: bool)
    ensures
        r == (email_valid(email@) && has_class_run(pswd@, PASSWORD_RUN as int)),
{
    let e = is_valid_email(email);
    let p = is_valid_password(pswd);
    e && p
}

} // verus!
