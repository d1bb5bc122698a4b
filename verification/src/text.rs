//! Small string helpers.
use vstd::prelude::*;

verus! {

/// Appends one character to a `String` (`String::push`).
#[verifier::external_body]
pub(crate) fn push_char(s: &mut String, c: char)
    ensures
        final(s)@ == old(s)@.push(c),
{
    s.push(c);
}

/// The characters of a string.
pub fn chars_of(s: &str) -> (v: Vec<char>)
    ensures
        v@ == s@,
{
    broadcast use vstd::string::axiom_spec_iter;

    let mut v: Vec<char> = Vec::new();
    for c in it: s.chars()
        invariant
            v@ == it.seq().take(it.index() as int),
            it.seq() == s@,
    {
        v.push(c);
    }
    v
}

/// The string made of the characters `chars[from..to]`.
pub fn string_of_range(chars: &Vec<char>, from: usize, to: usize) -> (s: String)
    requires
        from <= to <= chars@.len(),
    ensures
        s@ == chars@.subrange(from as int, to as int),
{
    let mut s = String::new();
    let mut k = from;
    while k < to
        invariant
            from <= k <= to,
            to <= chars@.len(),
            s@ == chars@.subrange(from as int, k as int),
        decreases to - k,
    {
        push_char(&mut s, chars[k]);
        k = k + 1;
        assert(s@ =~= chars@.subrange(from as int, k as int));
    }
    s
}

/// `s` starts with `prefix`.
pub open spec fn has_prefix(s: Seq<char>, prefix: Seq<char>) -> bool {
    prefix.len() <= s.len() && s.subrange(0, prefix.len() as int) == prefix
}

/// `s` ends with `suffix`.
pub open spec fn has_suffix(s: Seq<char>, suffix: Seq<char>) -> bool {
    suffix.len() <= s.len() && s.subrange(s.len() - suffix.len(), s.len() as int) == suffix
}

/// Whether `chars[at..at + part.len()]` is `part`.
fn matches_at(chars: &Vec<char>, at: usize, part: &Vec<char>) -> (b: bool)
    requires
        at + part@.len() <= chars@.len(),
    ensures
        b == (chars@.subrange(at as int, at + part@.len()) == part@),
{
    let n: usize = chars.len();
    let mut k: usize = 0;
    while k < part.len()
        invariant
            k <= part@.len(),
            at + part@.len() <= chars@.len(),
            n == chars@.len(),
            forall|j: int| 0 <= j < k ==> chars@[at + j] == part@[j],
        decreases part@.len() - k,
    {
        if chars[at + k] != part[k] {
            assert(chars@.subrange(at as int, at + part@.len())[k as int] != part@[k as int]);
            return false;
        }
        k = k + 1;
    }
    assert(chars@.subrange(at as int, at + part@.len()) =~= part@);
    true
}

/// What follows `prefix` in `s`, where `s` starts with it (as `str::strip_prefix`).
pub fn strip_prefix(s: &str, prefix: &str) -> (r: Option<String>)
    ensures
        match r {
            Some(rest) => has_prefix(s@, prefix@) && rest@ == s@.subrange(
                prefix@.len() as int,
                s@.len() as int,
            ),
            None => !has_prefix(s@, prefix@),
        },
{
    let chars = chars_of(s);
    let part = chars_of(prefix);
    if part.len() > chars.len() {
        return None;
    }
    if matches_at(&chars, 0, &part) {
        Some(string_of_range(&chars, part.len(), chars.len()))
    } else {
        None
    }
}

/// What precedes `suffix` in `s`, where `s` ends with it (as `str::strip_suffix`).
pub fn strip_suffix(s: &str, suffix: &str) -> (r: Option<String>)
    ensures
        match r {
            Some(rest) => has_suffix(s@, suffix@) && rest@ == s@.subrange(
                0,
                s@.len() - suffix@.len(),
            ),
            None => !has_suffix(s@, suffix@),
        },
{
    let chars = chars_of(s);
    let part = chars_of(suffix);
    if part.len() > chars.len() {
        return None;
    }
    let at = chars.len() - part.len();
    if matches_at(&chars, at, &part) {
        Some(string_of_range(&chars, 0, at))
    } else {
        None
    }
}

/// The decimal digit character for a value below ten.
pub open spec fn digit_char(d: nat) -> char {
    (d + 48) as char
}

/// The decimal text of a natural number, without leading zeros.
pub open spec fn decimal(n: nat) -> Seq<char>
    decreases n,
{
    if n < 10 {
        seq![digit_char(n)]
    } else {
        decimal(n / 10).push(digit_char(n % 10))
    }
}

/// The decimal text of a number (as `to_string` writes it).
pub fn decimal_text(n: u64) -> (s: String)
    ensures
        s@ == decimal(n as nat),
    decreases n,
{
    if n < 10 {
        let mut s = String::new();
        push_char(&mut s, ((n as u8) + 48) as char);
        s
    } else {
        let mut s = decimal_text(n / 10);
        push_char(&mut s, (((n % 10) as u8) + 48) as char);
        s
    }
}

} // verus!
