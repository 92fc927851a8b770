use vstd::prelude::*;

verus! {

/// The characters with the Unicode `White_Space` property.
pub open spec fn is_whitespace_char(c: char) -> bool {
    let n = c as u32;
    (0x9 <= n && n <= 0xD) || n == 0x20 || n == 0x85 || n == 0xA0 || n == 0x1680 || (0x2000 <= n
        && n <= 0x200A) || n == 0x2028 || n == 0x2029 || n == 0x202F || n == 0x205F || n == 0x3000
}

/// `s` without its leading whitespace.
pub open spec fn strip_front(s: Seq<char>) -> Seq<char>
    decreases s.len(),
{
    if s.len() > 0 && is_whitespace_char(s[0]) {
        strip_front(s.drop_first())
    } else {
        s
    }
}

/// `s` without its trailing whitespace.
pub open spec fn strip_back(s: Seq<char>) -> Seq<char>
    decreases s.len(),
{
    if s.len() > 0 && is_whitespace_char(s.last()) {
        strip_back(s.drop_last())
    } else {
        s
    }
}

/// `s` without its leading and trailing whitespace.
pub open spec fn trimmed(s: Seq<char>) -> Seq<char> {
    strip_back(strip_front(s))
}

/// Relies on `str::trim`: the string slice with leading and trailing
/// `White_Space` characters removed.
#[verifier::external_body]
fn str_trim(s: &str) -> (r: &str)
    ensures
        r@ == trimmed(s@),
{
    s.trim()
}

/// The query text that a line of input holds: the line without surrounding
/// whitespace (the line break included).
pub fn trim_query(line: &str) -> (r: &str)
    ensures
        r@ == trimmed(line@),
{
    str_trim(line)
}

proof fn lemma_strip_front_shape(s: Seq<char>)
    ensures
        strip_front(s).len() == 0 || !is_whitespace_char(strip_front(s)[0]),
    decreases s.len(),
{
    if s.len() > 0 && is_whitespace_char(s[0]) {
        lemma_strip_front_shape(s.drop_first());
    }
}

proof fn lemma_strip_back_shape(s: Seq<char>)
    ensures
        strip_back(s).len() == 0 || !is_whitespace_char(strip_back(s).last()),
    decreases s.len(),
{
    if s.len() > 0 && is_whitespace_char(s.last()) {
        lemma_strip_back_shape(s.drop_last());
    }
}

/// Stripping trailing whitespace keeps a first character that is not whitespace.
proof fn lemma_strip_back_keeps_head(s: Seq<char>)
    requires
        s.len() > 0,
        !is_whitespace_char(s[0]),
    ensures
        strip_back(s).len() > 0,
        strip_back(s)[0] == s[0],
    decreases s.len(),
{
    if is_whitespace_char(s.last()) {
        assert(s.len() > 1);
        lemma_strip_back_keeps_head(s.drop_last());
    }
}

/// Trimming twice is trimming once: text already trimmed is left as it is.
pub proof fn lemma_trim_idempotent(s: Seq<char>)
    ensures
        trimmed(trimmed(s)) == trimmed(s),
{
    let x = strip_front(s);
    let y = strip_back(x);
    lemma_strip_front_shape(s);
    lemma_strip_back_shape(x);
    if y.len() > 0 {
        assert(x.len() > 0);
        lemma_strip_back_keeps_head(x);
    }
    assert(strip_front(y) == y);
}

} // verus!
