use crate::text::{ends_with, has_prefix, range_has_suffix, starts_with};
use vstd::prelude::*;

verus! {

pub open spec fn is_lower(c: char) -> bool {
    'a' <= c <= 'z'
}

pub open spec fn is_upper(c: char) -> bool {
    'A' <= c <= 'Z'
}

pub open spec fn is_digit(c: char) -> bool {
    '0' <= c <= '9'
}

/// `[a-z0-9]`
pub open spec fn is_lower_alnum(c: char) -> bool {
    is_lower(c) || is_digit(c)
}

/// `[a-zA-Z0-9_]`
pub open spec fn is_word_char(c: char) -> bool {
    is_lower(c) || is_upper(c) || is_digit(c) || c == '_'
}

/// `[A-Z0-9]`
pub open spec fn is_code_char(c: char) -> bool {
    is_upper(c) || is_digit(c)
}

/// A character that may stand anywhere in the local part of an address.
pub open spec fn is_local_char(c: char) -> bool {
    is_lower_alnum(c) || c == '_' || c == '+' || c == '.'
}

/// A character that may open or close the local part (no dot).
pub open spec fn is_local_edge(c: char) -> bool {
    is_lower_alnum(c) || c == '_' || c == '+'
}

pub open spec fn is_domain_sep(c: char) -> bool {
    c == '-' || c == '.'
}

/// A user name: 3 to 30 word characters, not starting with the guest
/// prefix `**`.
pub open spec fn username_ok(s: Seq<char>) -> bool {
    &&& !starts_with(s, seq!['*', '*'])
    &&& 3 <= s.len() <= 30
    &&& forall|k: int| 0 <= k < s.len() ==> is_word_char(#[trigger] s[k])
}

/// A password: 8 to 100 characters, none of them a line feed.
pub open spec fn password_ok(s: Seq<char>) -> bool {
    &&& 8 <= s.len() <= 100
    &&& forall|k: int| 0 <= k < s.len() ==> #[trigger] s[k] != '\n'
}

/// A game code: exactly six upper-case letters or digits.
pub open spec fn game_code_ok(s: Seq<char>) -> bool {
    &&& s.len() == 6
    &&& forall|k: int| 0 <= k < s.len() ==> is_code_char(#[trigger] s[k])
}

/// An address of the web: it begins with `http://` or `https://`.
pub open spec fn url_ok(s: Seq<char>) -> bool {
    starts_with(s, "http://"@) || starts_with(s, "https://"@)
}

/// `s[0..at]` is a local part: characters of `[a-z0-9_+.]`, at least one,
/// neither the first nor the last a dot.
pub open spec fn local_part_ok(s: Seq<char>, at: int) -> bool {
    &&& 1 <= at <= s.len()
    &&& is_local_edge(s[0])
    &&& is_local_edge(s[at - 1])
    &&& forall|k: int| 0 <= k < at ==> is_local_char(#[trigger] s[k])
}

/// `d[0..j]` is a chain of `[a-z0-9]+` labels joined by single `-` or `.`.
pub open spec fn label_chain(d: Seq<char>, j: int) -> bool {
    &&& 1 <= j <= d.len()
    &&& is_lower_alnum(d[0])
    &&& is_lower_alnum(d[j - 1])
    &&& forall|k: int| 0 <= k < j ==> is_lower_alnum(#[trigger] d[k]) || is_domain_sep(d[k])
    &&& forall|k: int| 0 <= k < j - 1 ==> !(is_domain_sep(#[trigger] d[k]) && is_domain_sep(d[k + 1]))
}

/// At `j` stands a dot followed by at least two lower-case letters.
pub open spec fn top_level_at(d: Seq<char>, j: int) -> bool {
    &&& 0 <= j
    &&& j + 3 <= d.len()
    &&& d[j] == '.'
    &&& is_lower(d[j + 1])
    &&& is_lower(d[j + 2])
}

/// A prefix of `d` is a domain: a label chain, a dot, and a top-level
/// label of letters.
pub open spec fn domain_prefix_ok(d: Seq<char>) -> bool {
    exists|j: int| label_chain(d, j) && #[trigger] top_level_at(d, j)
}

/// A prefix of `s` is an address: a local part, `@`, and a domain.
pub open spec fn email_shape_ok(s: Seq<char>) -> bool {
    exists|at: int|
        #![trigger s[at]]
        local_part_ok(s, at) && at < s.len() && s[at] == '@' && domain_prefix_ok(
            s.subrange(at + 1, s.len() as int),
        )
}

/// The index of the first `@` of `s` at or after `from`, or `s.len()`.
pub open spec fn next_at(s: Seq<char>, from: int) -> int
    decreases s.len() - from,
{
    if from >= s.len() {
        s.len() as int
    } else if s[from] == '@' {
        from
    } else {
        next_at(s, from + 1)
    }
}

/// The field between the first and the second `@` (the whole rest when
/// there is no second one), or nothing when `s` has no `@`.
pub open spec fn domain_field(s: Seq<char>) -> Seq<char> {
    let at = next_at(s, 0);
    if at >= s.len() {
        Seq::empty()
    } else {
        s.subrange(at + 1, next_at(s, at + 1))
    }
}

/// An address of a school: the address shape, and a domain field that ends
/// in `.edu.tr` or `.edu`.
pub open spec fn email_ok(s: Seq<char>) -> bool {
    &&& email_shape_ok(s)
    &&& (ends_with(domain_field(s), ".edu.tr"@) || ends_with(domain_field(s), ".edu"@))
}

proof fn lemma_next_at_bounds(s: Seq<char>, from: int)
    requires
        0 <= from,
    ensures
        from <= next_at(s, from) <= s.len() || (from > s.len() && next_at(s, from) == s.len()),
        next_at(s, from) < s.len() ==> s[next_at(s, from)] == '@',
    decreases s.len() - from,
{
    if from < s.len() && s[from] != '@' {
        lemma_next_at_bounds(s, from + 1);
    }
}

/// Scans `s` from `from` for `@`, giving its index or `s.len()`.
fn find_at(s: &str, from: usize) -> (r: usize)
    requires
        from <= s@.len(),
    ensures
        r as int == next_at(s@, from as int),
        from <= r <= s@.len(),
{
    let n = s.unicode_len();
    let mut i = from;
    while i < n
        invariant
            n == s@.len(),
            from <= i <= n,
            next_at(s@, from as int) == next_at(s@, i as int),
        decreases n - i,
    {
        if s.get_char(i) == '@' {
            return i;
        }
        i = i + 1;
    }
    i
}

pub fn is_lower_alnum_char(c: char) -> (r: bool)
    ensures
        r == is_lower_alnum(c),
{
    ('a' <= c && c <= 'z') || ('0' <= c && c <= '9')
}

/// Whether the local part `s[0..at]` is well formed.
fn check_local_part(s: &str, at: usize) -> (r: bool)
    requires
        at <= s@.len(),
    ensures
        r == local_part_ok(s@, at as int),
{
    if at == 0 {
        return false;
    }
    let mut i: usize = 0;
    while i < at
        invariant
            0 < at <= s@.len(),
            i <= at,
            forall|k: int| 0 <= k < i ==> is_local_char(#[trigger] s@[k]),
        decreases at - i,
    {
        let c = s.get_char(i);
        if !(is_lower_alnum_char(c) || c == '_' || c == '+' || c == '.') {
            return false;
        }
        i = i + 1;
    }
    let first = s.get_char(0);
    let last = s.get_char(at - 1);
    first != '.' && last != '.'
}

/// Whether some prefix of `s[start..]` is a domain.
fn check_domain_prefix(s: &str, start: usize) -> (r: bool)
    requires
        start <= s@.len(),
    ensures
        r == domain_prefix_ok(s@.subrange(start as int, s@.len() as int)),
{
    let n = s.unicode_len();
    let ghost d = s@.subrange(start as int, n as int);
    if start >= n || !is_lower_alnum_char(s.get_char(start)) {
        assert forall|j: int| label_chain(d, j) implies !top_level_at(d, j) by {}
        return false;
    }
    let len = n - start;
    // `chain_ok` says that `d[0..j]` is a chain up to its last character.
    let mut chain_ok = true;
    let mut j: usize = 1;
    while len - j >= 3
        invariant
            n == s@.len(),
            start < n,
            len == n - start,
            d == s@.subrange(start as int, n as int),
            is_lower_alnum(d[0]),
            1 <= j <= len,
            chain_ok ==> forall|k: int| 0 <= k < j ==> is_lower_alnum(#[trigger] d[k]) || is_domain_sep(d[k]),
            chain_ok ==> forall|k: int| 0 <= k < j - 1 ==> !(is_domain_sep(#[trigger] d[k]) && is_domain_sep(d[k + 1])),
            !chain_ok ==> forall|jj: int| j <= jj ==> !label_chain(d, jj),
            forall|jj: int| 1 <= jj < j ==> !(label_chain(d, jj) && #[trigger] top_level_at(d, jj)),
        decreases len - j,
    {
        if !chain_ok {
            assert forall|jj: int| label_chain(d, jj) implies !top_level_at(d, jj) by {
                if label_chain(d, jj) && jj >= j {
                }
            }
            return false;
        }
        let prev = s.get_char(start + j - 1);
        let c = s.get_char(start + j);
        if is_lower_alnum_char(prev) && c == '.' {
            let c1 = s.get_char(start + j + 1);
            let c2 = s.get_char(start + j + 2);
            if 'a' <= c1 && c1 <= 'z' && 'a' <= c2 && c2 <= 'z' {
                assert(label_chain(d, j as int));
                assert(top_level_at(d, j as int));
                return true;
            }
        }
        let sep_prev = prev == '-' || prev == '.';
        let sep_c = c == '-' || c == '.';
        if !(is_lower_alnum_char(c) || sep_c) || (sep_prev && sep_c) {
            chain_ok = false;
            assert forall|jj: int| j + 1 <= jj implies !label_chain(d, jj) by {
                if label_chain(d, jj) {
                    assert(is_lower_alnum(d[j as int]) || is_domain_sep(d[j as int]));
                    assert(!(is_domain_sep(d[j - 1]) && is_domain_sep(d[j as int])));
                }
            }
        }
        j = j + 1;
    }
    assert forall|jj: int| label_chain(d, jj) implies !top_level_at(d, jj) by {}
    false
}

/// Whether `email` is a school address (see `email_ok`).
pub fn validate_email(email: &str) -> (r: bool)
    ensures
        r == email_ok(email@),
{
    let n = email.unicode_len();
    let at = find_at(email, 0);
    let shape = if at < n {
        check_local_part(email, at) && check_domain_prefix(email, at + 1)
    } else {
        false
    };
    proof {
        let s = email@;
        lemma_next_at_bounds(s, 0);
        if shape {
            assert(s[at as int] == '@');
        }
        if email_shape_ok(s) {
            let a = choose|a: int|
                #![trigger s[a]]
                local_part_ok(s, a) && a < s.len() && s[a] == '@' && domain_prefix_ok(
                    s.subrange(a + 1, s.len() as int),
                );
            // the local part holds no `@`, so `a` is the first one
            if at < a {
                assert(is_local_char(s[at as int]));
            }
            if a < at {
                lemma_next_at_first(s, 0, a);
            }
            assert(a == at);
        }
    }
    if !shape {
        return false;
    }
    let end = find_at(email, at + 1);
    range_has_suffix(email, at + 1, end, ".edu.tr") || range_has_suffix(email, at + 1, end, ".edu")
}

proof fn lemma_next_at_first(s: Seq<char>, from: int, a: int)
    requires
        0 <= from <= a < s.len(),
        s[a] == '@',
    ensures
        next_at(s, from) <= a,
    decreases a - from,
{
    if s[from] != '@' {
        lemma_next_at_first(s, from + 1, a);
    }
}

/// Whether `username` is a valid user name (see `username_ok`).
pub fn validate_username(username: &str) -> (r: bool)
    ensures
        r == username_ok(username@),
{
    let n = username.unicode_len();
    if n >= 2 && username.get_char(0) == '*' && username.get_char(1) == '*' {
        assert(username@.subrange(0, 2) =~= seq!['*', '*']);
        return false;
    }
    proof {
        if starts_with(username@, seq!['*', '*']) {
            assert(username@.subrange(0, 2)[0] == '*');
            assert(username@.subrange(0, 2)[1] == '*');
        }
    }
    if n < 3 || n > 30 {
        return false;
    }
    let mut i: usize = 0;
    while i < n
        invariant
            n == username@.len(),
            i <= n,
            forall|k: int| 0 <= k < i ==> is_word_char(#[trigger] username@[k]),
        decreases n - i,
    {
        let c = username.get_char(i);
        if !(('a' <= c && c <= 'z') || ('A' <= c && c <= 'Z') || ('0' <= c && c <= '9') || c
            == '_') {
            return false;
        }
        i = i + 1;
    }
    true
}

/// Whether `password` is acceptable (see `password_ok`).
pub fn validate_password(password: &str) -> (r: bool)
    ensures
        r == password_ok(password@),
{
    let n = password.unicode_len();
    if n < 8 || n > 100 {
        return false;
    }
    let mut i: usize = 0;
    while i < n
        invariant
            n == password@.len(),
            i <= n,
            forall|k: int| 0 <= k < i ==> #[trigger] password@[k] != '\n',
        decreases n - i,
    {
        if password.get_char(i) == '\n' {
            return false;
        }
        i = i + 1;
    }
    true
}

/// Whether `code` is a well-formed game code (see `game_code_ok`).
pub fn validate_game_code(code: &str) -> (r: bool)
    ensures
        r == game_code_ok(code@),
{
    let n = code.unicode_len();
    if n != 6 {
        return false;
    }
    let mut i: usize = 0;
    while i < n
        invariant
            n == code@.len(),
            i <= n,
            forall|k: int| 0 <= k < i ==> is_code_char(#[trigger] code@[k]),
        decreases n - i,
    {
        let c = code.get_char(i);
        if !(('A' <= c && c <= 'Z') || ('0' <= c && c <= '9')) {
            return false;
        }
        i = i + 1;
    }
    true
}

/// Whether `url` names a web address (see `url_ok`).
pub fn validate_url(url: &str) -> (r: bool)
    ensures
        r == url_ok(url@),
{
    has_prefix(url, "http://") || has_prefix(url, "https://")
}

} // verus!
