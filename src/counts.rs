use vstd::prelude::*;

use vstd::std_specs::iter::IteratorSpec;

verus! {

/// Characters that the PartiQL lexer skips between tokens (spaces, tabs,
/// form feeds and line breaks).
pub open spec fn is_gap(c: char) -> bool {
    let n = c as u32;
    n == 0x20 || n == 0x9 || n == 0xC || n == 0xD || n == 0xA || n == 0x85 || n == 0x2028 || n
        == 0x2029
}

pub open spec fn is_digit(c: char) -> bool {
    0x30 <= (c as u32) && (c as u32) <= 0x39
}

/// The number that a run of decimal digits spells.
pub open spec fn digits_value(d: Seq<char>) -> nat
    decreases d.len(),
{
    if d.len() == 0 {
        0
    } else {
        digits_value(d.drop_last()) * 10 + ((d.last() as u32) - 0x30) as nat
    }
}

/// `s[i..k]` is a maximal run of digits.
pub open spec fn is_digit_run(s: Seq<char>, i: int, k: int) -> bool {
    &&& 0 <= i < k <= s.len()
    &&& forall|t: int| i <= t < k ==> is_digit(#[trigger] s[t])
    &&& i == 0 || !is_digit(s[i - 1])
    &&& k == s.len() || !is_digit(s[k])
}

/// The last position before `i` that is not a gap, or -1.
pub open spec fn prev_significant(s: Seq<char>, i: int) -> int
    decreases i,
{
    if i <= 0 {
        -1
    } else if is_gap(s[i - 1]) {
        prev_significant(s, i - 1)
    } else {
        i - 1
    }
}

/// The first position from `k` on that is not a gap, or `s.len()`.
pub open spec fn next_significant(s: Seq<char>, k: int) -> int
    decreases s.len() - k,
{
    if k < 0 || k >= s.len() {
        s.len() as int
    } else if is_gap(s[k]) {
        next_significant(s, k + 1)
    } else {
        k
    }
}

/// A `--` stands on the line of position `j`, at or before `j`.
pub open spec fn dashes_behind(s: Seq<char>, j: int) -> bool
    decreases j,
{
    if j < 1 || j >= s.len() {
        false
    } else if s[j] == '\n' {
        false
    } else if s[j] == '-' && s[j - 1] == '-' {
        true
    } else {
        dashes_behind(s, j - 1)
    }
}

/// Position `p` may end a comment, so the token before it is not known.
pub open spec fn comment_ends_at(s: Seq<char>, p: int) -> bool {
    (1 <= p < s.len() && s[p] == '/' && s[p - 1] == '*') || dashes_behind(s, p)
}

/// Position `n` holds `}` or opens a comment, behind which a `}` may come.
pub open spec fn may_close(s: Seq<char>, n: int) -> bool {
    0 <= n < s.len() && (s[n] == '}' || (n + 1 < s.len() && ((s[n] == '-' && s[n + 1] == '-') || (
    s[n] == '/' && s[n + 1] == '*'))))
}

/// `c` matches the lower-case letter `w` under Unicode simple case folding:
/// `w` itself, its capital, or the long s for `s`.
pub open spec fn letter_matches(c: char, w: char) -> bool {
    c == w || (w as u32 >= 32 && c as u32 == (w as u32) - 32) || (w == 's' && c as u32 == 0x17F)
}

/// `c` can continue an identifier.
pub open spec fn is_word_char(c: char) -> bool {
    let n = c as u32;
    (0x30 <= n && n <= 0x39) || (0x41 <= n && n <= 0x5A) || (0x61 <= n && n <= 0x7A) || n == 0x5F
        || n == 0x24
}

/// The word `group` or `groups`, in ASCII letters of any case, starts at `n`.
pub open spec fn group_starts_at(s: Seq<char>, n: int) -> bool {
    let g = group_word();
    &&& 0 <= n && n + 5 <= s.len()
    &&& forall|t: int| 0 <= t < 5 ==> ascii_letter_matches(#[trigger] s[n + t], g[t])
    &&& {
        ||| n + 5 == s.len()
        ||| !is_word_char(s[n + 5])
        ||| ascii_letter_matches(s[n + 5], 's') && (n + 6 == s.len() || !is_word_char(s[n + 6]))
    }
}

pub open spec fn ascii_letter_matches(c: char, w: char) -> bool {
    c == w || (w as u32 >= 32 && c as u32 == (w as u32) - 32)
}

pub open spec fn group_word() -> Seq<char> {
    seq!['g', 'r', 'o', 'u', 'p']
}

/// The word `w` (lower case) ends at position `p`, in any case.
pub open spec fn word_ends_at(s: Seq<char>, p: int, w: Seq<char>) -> bool {
    &&& w.len() <= p + 1 <= s.len()
    &&& forall|t: int| 0 <= t < w.len() ==> letter_matches(#[trigger] s[p + 1 - w.len() + t], w[t])
}

pub open spec fn any_word() -> Seq<char> {
    seq!['a', 'n', 'y']
}

pub open spec fn shortest_word() -> Seq<char> {
    seq!['s', 'h', 'o', 'r', 't', 'e', 's', 't']
}

/// A count that the parser cannot turn into a positive 32-bit number.
pub open spec fn unusable_count(v: nat) -> bool {
    v == 0 || v > u32::MAX
}

/// The digit run `s[i..k]` (of value zero when `zero`) may stand where the parser reads a
/// graph quantifier bound or an `ANY` / `SHORTEST` path count: after `{`
/// (unless it is a zero lower bound followed by `,`), after `,` and before
/// `}`, after the word `ANY`, after the word `SHORTEST` (unless it is a zero
/// followed by `GROUP` or `GROUPS`), or after a comment.
pub open spec fn count_position(s: Seq<char>, i: int, k: int, zero: bool) -> bool {
    let p = prev_significant(s, i);
    let n = next_significant(s, k);
    p >= 0 && {
        ||| comment_ends_at(s, p)
        ||| s[p] == '{' && !(zero && n < s.len() && s[n] == ',')
        ||| s[p] == ',' && may_close(s, n)
        ||| word_ends_at(s, p, any_word())
        ||| word_ends_at(s, p, shortest_word()) && !(zero && group_starts_at(s, n))
    }
}

/// No digit run of `s` is a zero, or above `u32::MAX`, in a count position.
pub open spec fn counts_fit(s: Seq<char>) -> bool {
    forall|i: int, k: int|
        #[trigger] is_digit_run(s, i, k) && unusable_count(digits_value(s.subrange(i, k)))
            ==> !count_position(s, i, k, digits_value(s.subrange(i, k)) == 0)
}

fn is_gap_char(c: char) -> (r: bool)
    ensures
        r == is_gap(c),
{
    let n = c as u32;
    n == 0x20 || n == 0x9 || n == 0xC || n == 0xD || n == 0xA || n == 0x85 || n == 0x2028 || n
        == 0x2029
}

fn is_digit_char(c: char) -> (r: bool)
    ensures
        r == is_digit(c),
{
    0x30 <= (c as u32) && (c as u32) <= 0x39
}

/// The characters of a string, in order.
fn chars_of(q: &str) -> (v: Vec<char>)
    ensures
        v@ == q@,
{
    broadcast use vstd::string::group_string_axioms;

    let mut it = q.chars();
    let mut v: Vec<char> = Vec::new();
    loop
        invariant
            it.obeys_prophetic_iter_laws(),
            v@ + it.remaining() == q@,
            it.decrease() is Some,
        decreases it.decrease()->0,
    {
        match it.next() {
            Some(c) => {
                v.push(c);
            },
            None => {
                assert(v@ =~= q@);
                return v;
            },
        }
    }
}

fn prev_significant_at(s: &Vec<char>, i: usize) -> (r: Option<usize>)
    requires
        i <= s@.len(),
    ensures
        match r {
            Some(j) => j < i && j as int == prev_significant(s@, i as int),
            None => prev_significant(s@, i as int) == -1,
        },
{
    let mut j: usize = i;
    while j > 0
        invariant
            j <= i <= s@.len(),
            prev_significant(s@, i as int) == prev_significant(s@, j as int),
        decreases j,
    {
        if !is_gap_char(s[j - 1]) {
            return Some(j - 1);
        }
        j = j - 1;
    }
    None
}

fn next_significant_at(s: &Vec<char>, k: usize) -> (r: usize)
    requires
        k <= s@.len(),
    ensures
        r as int == next_significant(s@, k as int),
        k <= r <= s@.len(),
{
    let mut j: usize = k;
    while j < s.len()
        invariant
            k <= j <= s@.len(),
            next_significant(s@, k as int) == next_significant(s@, j as int),
        decreases s@.len() - j,
    {
        if !is_gap_char(s[j]) {
            return j;
        }
        j = j + 1;
    }
    j
}

fn dashes_behind_at(s: &Vec<char>, p: usize) -> (r: bool)
    requires
        p < s@.len(),
    ensures
        r == dashes_behind(s@, p as int),
{
    let mut j: usize = p;
    while j >= 1
        invariant
            j <= p < s@.len(),
            dashes_behind(s@, p as int) == dashes_behind(s@, j as int),
        decreases j,
    {
        if s[j] == '\n' {
            return false;
        }
        if s[j] == '-' && s[j - 1] == '-' {
            return true;
        }
        j = j - 1;
    }
    false
}

fn word_ends_at_pos(s: &Vec<char>, p: usize, w: &Vec<char>) -> (r: bool)
    requires
        p < s@.len(),
    ensures
        r == word_ends_at(s@, p as int, w@),
{
    let len = s.len();
    if w.len() > len || w.len() > p + 1 {
        return false;
    }
    let start: usize = p + 1 - w.len();
    let mut t: usize = 0;
    while t < w.len()
        invariant
            start + w@.len() == p + 1,
            p < s@.len(),
            t <= w@.len(),
            forall|u: int| 0 <= u < t ==> letter_matches(#[trigger] s@[p + 1 - w@.len() + u], w@[u]),
        decreases w@.len() - t,
    {
        let c = s[start + t];
        let l = w[t];
        if !(c == l || ((l as u32) >= 32 && (c as u32) == (l as u32) - 32) || (l == 's' && (c as u32)
            == 0x17F)) {
            assert(!letter_matches(s@[p + 1 - w@.len() + t], w@[t as int]));
            return false;
        }
        t = t + 1;
    }
    true
}

fn ascii_letter_at(c: char, w: char) -> (r: bool)
    ensures
        r == ascii_letter_matches(c, w),
{
    c == w || ((w as u32) >= 32 && (c as u32) == (w as u32) - 32)
}

fn is_word_char_at(c: char) -> (r: bool)
    ensures
        r == is_word_char(c),
{
    let n = c as u32;
    (0x30 <= n && n <= 0x39) || (0x41 <= n && n <= 0x5A) || (0x61 <= n && n <= 0x7A) || n == 0x5F
        || n == 0x24
}

fn group_starts_at_pos(s: &Vec<char>, n: usize) -> (r: bool)
    ensures
        r == group_starts_at(s@, n as int),
{
    let g = vec!['g', 'r', 'o', 'u', 'p'];
    assert(g@ =~= group_word());
    let len = s.len();
    if n > len || len - n < 5 {
        return false;
    }
    let mut t: usize = 0;
    while t < 5
        invariant
            g@ == group_word(),
            len == s@.len(),
            n + 5 <= len,
            t <= 5,
            forall|u: int| 0 <= u < t ==> ascii_letter_matches(#[trigger] s@[n + u], group_word()[u]),
        decreases 5 - t,
    {
        if !ascii_letter_at(s[n + t], g[t]) {
            return false;
        }
        t = t + 1;
    }
    n + 5 == len || !is_word_char_at(s[n + 5]) || (ascii_letter_at(s[n + 5], 's') && (n + 6 == len
        || !is_word_char_at(s[n + 6])))
}

fn count_position_at(s: &Vec<char>, i: usize, k: usize, zero: bool) -> (r: bool)
    requires
        i <= k <= s@.len(),
    ensures
        r == count_position(s@, i as int, k as int, zero),
{
    let n = next_significant_at(s, k);
    match prev_significant_at(s, i) {
        None => false,
        Some(p) => {
            let any = vec!['a', 'n', 'y'];
            let shortest = vec!['s', 'h', 'o', 'r', 't', 'e', 's', 't'];
            assert(any@ =~= any_word());
            assert(shortest@ =~= shortest_word());
            let block_end = p >= 1 && s[p] == '/' && s[p - 1] == '*';
            let may_close_n = n < s.len() && (s[n] == '}' || (n + 1 < s.len() && ((s[n] == '-'
                && s[n + 1] == '-') || (s[n] == '/' && s[n + 1] == '*'))));
            block_end || dashes_behind_at(s, p) || (s[p] == '{' && !(zero && n < s.len() && s[n]
                == ',')) || (s[p] == ',' && may_close_n) || word_ends_at_pos(s, p, &any)
                || (word_ends_at_pos(s, p, &shortest) && !(zero && group_starts_at_pos(s, n)))
        },
    }
}

fn counts_fit_in(s: &Vec<char>) -> (r: bool)
    ensures
        r == counts_fit(s@),
{
    let ghost q = s@;
    let mut i: usize = 0;
    while i < s.len()
        invariant
            q == s@,
            i <= q.len(),
            0 < i < q.len() ==> !(is_digit(q[i - 1]) && is_digit(q[i as int])),
            forall|a: int, b: int|
                #[trigger] is_digit_run(q, a, b) && a < i && unusable_count(
                    digits_value(q.subrange(a, b)),
                ) ==> !count_position(q, a, b, digits_value(q.subrange(a, b)) == 0),
        decreases q.len() - i,
    {
        if !is_digit_char(s[i]) {
            i = i + 1;
        } else {
            let first = s[i];
            let mut capped: u64 = ((first as u32) - 0x30) as u64;
            let mut k: usize = i + 1;
            assert(q.subrange(i as int, k as int).drop_last() =~= Seq::<char>::empty());
            assert(q.subrange(i as int, k as int).last() == first);
            assert(digits_value(Seq::<char>::empty()) == 0);
            while k < s.len() && is_digit_char(s[k])
                invariant
                    q == s@,
                    i < k <= q.len(),
                    forall|t: int| i <= t < k ==> is_digit(#[trigger] q[t]),
                    capped as int == if digits_value(q.subrange(i as int, k as int)) <= u32::MAX {
                        digits_value(q.subrange(i as int, k as int)) as int
                    } else {
                        u32::MAX + 1
                    },
                decreases q.len() - k,
            {
                let d = ((s[k] as u32) - 0x30) as u64;
                assert(q.subrange(i as int, k + 1).drop_last() =~= q.subrange(i as int, k as int));
                if capped <= 0xFFFF_FFFF {
                    capped = capped * 10 + d;
                    if capped > 0xFFFF_FFFF {
                        capped = 0x1_0000_0000;
                    }
                }
                k = k + 1;
            }
            assert(is_digit_run(q, i as int, k as int));
            let unusable = capped == 0 || capped > 0xFFFF_FFFF;
            if unusable && count_position_at(s, i, k, capped == 0) {
                return false;
            }
            assert forall|a: int, b: int|
                #[trigger] is_digit_run(q, a, b) && a < k && unusable_count(
                    digits_value(q.subrange(a, b)),
                ) implies !count_position(q, a, b, digits_value(q.subrange(a, b)) == 0) by {
                if a > i {
                    assert(is_digit(q[a - 1]));
                } else if a == i {
                    if b < k {
                        assert(is_digit(q[b]));
                    } else if b > k {
                        assert(is_digit(q[k as int]));
                    }
                }
            }
            i = k;
        }
    }
    true
}

/// How the PartiQL lexer reads the text before a position: as code, inside a
/// `'` string, a `"` quoted name, a `--` comment, a `/* */` comment of the
/// given depth, on the second character of a comment mark (`BlockMark`), or
/// in a place where this reading may differ from the lexer's (`Unsure`).
#[derive(Clone, Copy)]
pub enum LexMode {
    Code,
    Str,
    Name,
    Line,
    Block(usize),
    BlockMark(usize),
    Unsure,
}

/// The character at `j`, or a space past the end.
pub open spec fn char_at(s: Seq<char>, j: int) -> char {
    if 0 <= j < s.len() {
        s[j]
    } else {
        ' '
    }
}

/// A character after which the lexer's tokens end, so that a `--` or `/*`
/// right after it opens a comment.
pub open spec fn ends_token(c: char) -> bool {
    let n = c as u32;
    is_gap(c) || is_word_char(c) || n == 0x28 || n == 0x29 || n == 0x2C || n == 0x3B || n == 0x7B
        || n == 0x7D || n == 0x5B || n == 0x27 || n == 0x22 || n == 0x3D
}

pub open spec fn clear_before(s: Seq<char>, j: int) -> bool {
    j == 0 || ends_token(s[j - 1])
}

/// The mode after reading the character at `j` in mode `m`.
pub open spec fn lex_step(s: Seq<char>, j: int, m: LexMode) -> LexMode {
    let c = s[j];
    let d = char_at(s, j + 1);
    match m {
        LexMode::Code => if c == '\'' {
            LexMode::Str
        } else if c == '"' {
            LexMode::Name
        } else if c == '`' {
            LexMode::Unsure
        } else if c == '-' && d == '-' {
            if clear_before(s, j) {
                LexMode::Line
            } else {
                LexMode::Unsure
            }
        } else if c == '/' && d == '*' {
            if clear_before(s, j) {
                LexMode::BlockMark(1)
            } else {
                LexMode::Unsure
            }
        } else {
            LexMode::Code
        },
        LexMode::Str => if c == '\'' {
            LexMode::Code
        } else if c == '\\' {
            LexMode::Unsure
        } else {
            LexMode::Str
        },
        LexMode::Name => if c == '"' {
            LexMode::Code
        } else if c == '\\' {
            LexMode::Unsure
        } else {
            LexMode::Name
        },
        LexMode::Line => if c == '\n' {
            LexMode::Code
        } else {
            LexMode::Line
        },
        LexMode::Block(n) => if c == '/' && d == '*' {
            LexMode::BlockMark((n + 1) as usize)
        } else if c == '*' && d == '/' {
            LexMode::BlockMark((n - 1) as usize)
        } else {
            LexMode::Block(n)
        },
        LexMode::BlockMark(n) => if n == 0 {
            LexMode::Code
        } else {
            LexMode::Block(n)
        },
        LexMode::Unsure => LexMode::Unsure,
    }
}

/// The mode before the character at `j`.
pub open spec fn mode_at(s: Seq<char>, j: int) -> LexMode
    decreases j,
{
    if j <= 0 {
        LexMode::Code
    } else {
        lex_step(s, j - 1, mode_at(s, j - 1))
    }
}

/// The character at `j` is code and opens nothing.
pub open spec fn is_code(s: Seq<char>, j: int) -> bool {
    mode_at(s, j) is Code && lex_step(s, j, LexMode::Code) is Code
}

/// `s` with every character that is not code replaced by a space.
pub open spec fn code_only(s: Seq<char>) -> Seq<char> {
    Seq::new(s.len(), |j: int| if is_code(s, j) { s[j] } else { ' ' })
}

/// The reading of strings, names and comments is certain throughout `s`.
pub open spec fn lexes_plainly(s: Seq<char>) -> bool {
    !(mode_at(s, s.len() as int) is Unsure)
}

/// The query holds no count that the parser would have to reject by
/// panicking: no zero, and none above `u32::MAX`, where the parser reads a
/// graph quantifier bound or an `ANY` / `SHORTEST` count. Strings, quoted
/// names and comments are left aside where their extent is certain.
pub open spec fn counts_usable(s: Seq<char>) -> bool {
    if lexes_plainly(s) {
        counts_fit(code_only(s))
    } else {
        counts_fit(s)
    }
}

pub open spec fn depth_fits(m: LexMode, j: int) -> bool {
    match m {
        LexMode::Block(n) => 1 <= n <= j,
        LexMode::BlockMark(n) => n <= j,
        _ => true,
    }
}

fn ends_token_char(c: char) -> (r: bool)
    ensures
        r == ends_token(c),
{
    let n = c as u32;
    is_gap_char(c) || is_word_char_at(c) || n == 0x28 || n == 0x29 || n == 0x2C || n == 0x3B || n
        == 0x7B || n == 0x7D || n == 0x5B || n == 0x27 || n == 0x22 || n == 0x3D
}

fn next_mode(s: &Vec<char>, j: usize, m: LexMode) -> (r: LexMode)
    requires
        j < s@.len(),
        depth_fits(m, j as int),
    ensures
        r == lex_step(s@, j as int, m),
        depth_fits(r, j + 1),
{
    let c = s[j];
    let len = s.len();
    let d = if j + 1 < len {
        s[j + 1]
    } else {
        ' '
    };
    let clear = j == 0 || ends_token_char(s[j - 1]);
    match m {
        LexMode::Code => if c == '\'' {
            LexMode::Str
        } else if c == '"' {
            LexMode::Name
        } else if c == '`' {
            LexMode::Unsure
        } else if c == '-' && d == '-' {
            if clear {
                LexMode::Line
            } else {
                LexMode::Unsure
            }
        } else if c == '/' && d == '*' {
            if clear {
                LexMode::BlockMark(1)
            } else {
                LexMode::Unsure
            }
        } else {
            LexMode::Code
        },
        LexMode::Str => if c == '\'' {
            LexMode::Code
        } else if c == '\\' {
            LexMode::Unsure
        } else {
            LexMode::Str
        },
        LexMode::Name => if c == '"' {
            LexMode::Code
        } else if c == '\\' {
            LexMode::Unsure
        } else {
            LexMode::Name
        },
        LexMode::Line => if c == '\n' {
            LexMode::Code
        } else {
            LexMode::Line
        },
        LexMode::Block(n) => if c == '/' && d == '*' {
            LexMode::BlockMark(n + 1)
        } else if c == '*' && d == '/' {
            LexMode::BlockMark(n - 1)
        } else {
            LexMode::Block(n)
        },
        LexMode::BlockMark(n) => if n == 0 {
            LexMode::Code
        } else {
            LexMode::Block(n)
        },
        LexMode::Unsure => LexMode::Unsure,
    }
}

/// Whether every count in the query is one the parser can take (see
/// `counts_usable`).
pub fn counts_usable_in(query: &str) -> (r: bool)
    ensures
        r == counts_usable(query@),
{
    let s = chars_of(query);
    let mut code: Vec<char> = Vec::new();
    let mut m = LexMode::Code;
    let mut j: usize = 0;
    while j < s.len()
        invariant
            j <= s@.len(),
            m == mode_at(s@, j as int),
            depth_fits(m, j as int),
            code@ =~= code_only(s@).subrange(0, j as int),
        decreases s@.len() - j,
    {
        let here_code = match m {
            LexMode::Code => match next_mode(&s, j, LexMode::Code) {
                LexMode::Code => true,
                _ => false,
            },
            _ => false,
        };
        if here_code {
            code.push(s[j]);
        } else {
            code.push(' ');
        }
        m = next_mode(&s, j, m);
        j = j + 1;
    }
    assert(code@ =~= code_only(s@));
    match m {
        LexMode::Unsure => counts_fit_in(&s),
        _ => counts_fit_in(&code),
    }
}

} // verus!
