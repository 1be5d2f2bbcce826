//! Character-sequence utilities the scanner's logic is built on: case
//! folding, substring search, trimming, line and token splitting, and
//! decimal conversion, each with an exact specification over `Seq<char>`.

use vstd::prelude::*;

verus! {

// ---------------------------------------------------------------------------
// Character classes
// ---------------------------------------------------------------------------

/// `c` is an ASCII decimal digit.
pub open spec fn is_digit_char(c: char) -> bool {
    48 <= c as u32 && c as u32 <= 57
}

/// Value of an ASCII decimal digit.
pub open spec fn digit_of(c: char) -> int {
    c as u32 - 48
}

/// `c` is an ASCII upper-case letter.
pub open spec fn is_ascii_upper(c: char) -> bool {
    65 <= c as u32 && c as u32 <= 90
}

/// ASCII lower-casing of one character; anything but `A`..`Z` is unchanged.
pub open spec fn spec_lower_char(c: char) -> char {
    if is_ascii_upper(c) {
        (((c as u32) + 32) as u8) as char
    } else {
        c
    }
}

/// `c` is whitespace in the sense of `char::is_whitespace`.
pub open spec fn is_space_char(c: char) -> bool {
    let u = c as u32;
    (9 <= u && u <= 13) || u == 32 || u == 0x85 || u == 0xA0 || u == 0x1680 || (0x2000 <= u
        && u <= 0x200A) || u == 0x2028 || u == 0x2029 || u == 0x202F || u == 0x205F || u == 0x3000
}

/// ASCII lower-casing of one character.
pub fn lower_char(c: char) -> (r: char)
    ensures
        r == spec_lower_char(c),
{
    let u = c as u32;
    if 65 <= u && u <= 90 {
        ((u + 32) as u8) as char
    } else {
        c
    }
}

/// Whitespace test matching `is_space_char`.
pub fn is_space(c: char) -> (r: bool)
    ensures
        r == is_space_char(c),
{
    let u = c as u32;
    (9 <= u && u <= 13) || u == 32 || u == 0x85 || u == 0xA0 || u == 0x1680 || (0x2000 <= u
        && u <= 0x200A) || u == 0x2028 || u == 0x2029 || u == 0x202F || u == 0x205F || u == 0x3000
}

// ---------------------------------------------------------------------------
// Views of strings as character vectors
// ---------------------------------------------------------------------------

/// The characters of `s`, in order.
pub fn chars_of(s: &str) -> (r: Vec<char>)
    ensures
        r@ == s@,
{
    let n = s.unicode_len();
    let mut r: Vec<char> = Vec::new();
    let mut i: usize = 0;
    while i < n
        invariant
            n == s@.len(),
            i <= n,
            r@ == s@.subrange(0, i as int),
        decreases n - i,
    {
        let c = s.get_char(i);
        r.push(c);
        assert(s@.subrange(0, i + 1 as int) =~= s@.subrange(0, i as int).push(s@[i as int]));
        i += 1;
    }
    assert(s@.subrange(0, n as int) =~= s@);
    r
}

/// Builds a `String` out of the given characters.
///
/// Relies on `String::push`: it appends exactly the given character.
#[verifier::external_body]
fn push_char(s: &mut String, c: char)
    ensures
        final(s)@ == old(s)@.push(c),
{
    s.push(c);
}

/// The string holding exactly the given characters.
pub fn string_from_chars(cs: &[char]) -> (r: String)
    ensures
        r@ == cs@,
{
    let mut r = String::new();
    let mut i: usize = 0;
    while i < cs.len()
        invariant
            i <= cs@.len(),
            r@ == cs@.subrange(0, i as int),
        decreases cs@.len() - i,
    {
        push_char(&mut r, cs[i]);
        assert(cs@.subrange(0, i + 1 as int) =~= cs@.subrange(0, i as int).push(cs@[i as int]));
        i += 1;
    }
    assert(cs@.subrange(0, cs@.len() as int) =~= cs@);
    r
}

// ---------------------------------------------------------------------------
// Case folding of sequences
// ---------------------------------------------------------------------------

/// ASCII lower-casing of a whole sequence.
pub open spec fn lower_seq(s: Seq<char>) -> Seq<char> {
    s.map_values(|c: char| spec_lower_char(c))
}

/// ASCII lower-casing of a character vector.
pub fn to_lower_chars(s: &[char]) -> (r: Vec<char>)
    ensures
        r@ == lower_seq(s@),
{
    let mut r: Vec<char> = Vec::new();
    let mut i: usize = 0;
    while i < s.len()
        invariant
            i <= s@.len(),
            r@ == lower_seq(s@.subrange(0, i as int)),
        decreases s@.len() - i,
    {
        r.push(lower_char(s[i]));
        assert(lower_seq(s@.subrange(0, i + 1 as int)) =~= lower_seq(
            s@.subrange(0, i as int),
        ).push(spec_lower_char(s@[i as int])));
        i += 1;
    }
    assert(lower_seq(s@.subrange(0, s@.len() as int)) =~= lower_seq(s@));
    r
}

/// ASCII lower-casing of a string.
pub fn lower_string(s: &str) -> (r: String)
    ensures
        r@ == lower_seq(s@),
{
    let cs = chars_of(s);
    let ls = to_lower_chars(cs.as_slice());
    string_from_chars(ls.as_slice())
}

// ---------------------------------------------------------------------------
// Equality, prefix and substring search
// ---------------------------------------------------------------------------

/// The characters of `a` and `b` are the same.
pub fn eq_chars(a: &[char], b: &[char]) -> (r: bool)
    ensures
        r == (a@ == b@),
{
    if a.len() != b.len() {
        return false;
    }
    let mut i: usize = 0;
    while i < a.len()
        invariant
            a@.len() == b@.len(),
            i <= a@.len(),
            forall|k: int| 0 <= k < i ==> a@[k] == b@[k],
        decreases a@.len() - i,
    {
        if a[i] != b[i] {
            return false;
        }
        i += 1;
    }
    assert(a@ =~= b@);
    true
}

/// `p` occurs in `s` starting at index `i`.
pub open spec fn contains_at(s: Seq<char>, p: Seq<char>, i: int) -> bool {
    0 <= i && i + p.len() <= s.len() && s.subrange(i, i + p.len()) == p
}

/// `p` occurs somewhere in `s`.
pub open spec fn contains_seq(s: Seq<char>, p: Seq<char>) -> bool {
    exists|i: int| contains_at(s, p, i)
}

/// `p` occurs in `s` up to ASCII case.
pub open spec fn contains_ci(s: Seq<char>, p: Seq<char>) -> bool {
    contains_seq(lower_seq(s), lower_seq(p))
}

/// `p` is a prefix of `s`.
pub open spec fn has_prefix(s: Seq<char>, p: Seq<char>) -> bool {
    p.len() <= s.len() && s.subrange(0, p.len() as int) == p
}

fn matches_at(s: &[char], p: &[char], i: usize) -> (r: bool)
    requires
        i + p@.len() <= s@.len(),
    ensures
        r == contains_at(s@, p@, i as int),
{
    let n = s.len();
    let mut j: usize = 0;
    while j < p.len()
        invariant
            n == s@.len(),
            i + p@.len() <= s@.len(),
            j <= p@.len(),
            forall|k: int| 0 <= k < j ==> s@[i + k] == p@[k],
        decreases p@.len() - j,
    {
        if s[i + j] != p[j] {
            assert(!contains_at(s@, p@, i as int)) by {
                if s@.subrange(i as int, i + p@.len()) == p@ {
                    assert(s@.subrange(i as int, i + p@.len())[j as int] == s@[i + j]);
                }
            }
            return false;
        }
        j += 1;
    }
    assert(s@.subrange(i as int, i + p@.len()) =~= p@);
    true
}

/// Substring search: does `p` occur in `s`?
pub fn contains_chars(s: &[char], p: &[char]) -> (r: bool)
    ensures
        r == contains_seq(s@, p@),
{
    if p.len() > s.len() {
        assert(forall|i: int| !contains_at(s@, p@, i));
        return false;
    }
    if p.len() == 0 {
        assert(contains_at(s@, p@, 0)) by {
            assert(s@.subrange(0, 0) =~= p@);
        }
        return true;
    }
    let last = s.len() - p.len();
    assert(s@.len() <= usize::MAX as int);
    let mut i: usize = 0;
    while i <= last
        invariant
            1 <= p@.len() <= s@.len(),
            s@.len() <= usize::MAX as int,
            last == s@.len() - p@.len(),
            i <= last + 1,
            forall|k: int| 0 <= k < i ==> !contains_at(s@, p@, k),
        decreases last + 1 - i,
    {
        if matches_at(s, p, i) {
            return true;
        }
        i += 1;
    }
    assert(forall|k: int| k > last ==> !contains_at(s@, p@, k));
    false
}

/// Case-insensitive substring search.
pub fn contains_chars_ci(s: &[char], p: &[char]) -> (r: bool)
    ensures
        r == contains_ci(s@, p@),
{
    let ls = to_lower_chars(s);
    let lp = to_lower_chars(p);
    contains_chars(ls.as_slice(), lp.as_slice())
}

/// Case-sensitive substring search over strings.
pub fn str_contains(s: &str, p: &str) -> (r: bool)
    ensures
        r == contains_seq(s@, p@),
{
    let cs = chars_of(s);
    let cp = chars_of(p);
    contains_chars(cs.as_slice(), cp.as_slice())
}

/// Case-insensitive substring search over strings.
pub fn str_contains_ci(s: &str, p: &str) -> (r: bool)
    ensures
        r == contains_ci(s@, p@),
{
    let cs = chars_of(s);
    let cp = chars_of(p);
    contains_chars_ci(cs.as_slice(), cp.as_slice())
}

/// Prefix test.
pub fn starts_with_chars(s: &[char], p: &[char]) -> (r: bool)
    ensures
        r == has_prefix(s@, p@),
{
    if p.len() > s.len() {
        return false;
    }
    matches_at(s, p, 0)
}

// ---------------------------------------------------------------------------
// Trimming
// ---------------------------------------------------------------------------

/// `s` without leading whitespace.
pub open spec fn trim_front_spec(s: Seq<char>) -> Seq<char>
    decreases s.len(),
{
    if s.len() > 0 && is_space_char(s[0]) {
        trim_front_spec(s.drop_first())
    } else {
        s
    }
}

/// `s` without trailing whitespace.
pub open spec fn trim_back_spec(s: Seq<char>) -> Seq<char>
    decreases s.len(),
{
    if s.len() > 0 && is_space_char(s.last()) {
        trim_back_spec(s.drop_last())
    } else {
        s
    }
}

/// `s` without leading and trailing whitespace, as `str::trim` leaves it.
pub open spec fn trim_spec(s: Seq<char>) -> Seq<char> {
    trim_back_spec(trim_front_spec(s))
}

/// Trims whitespace from both ends.
pub fn trim_chars(s: &[char]) -> (r: Vec<char>)
    ensures
        r@ == trim_spec(s@),
{
    let len = s.len();
    assert(s@.subrange(0, len as int) =~= s@);
    let mut a: usize = 0;
    while a < len
        invariant
            len == s@.len(),
            a <= len,
            trim_front_spec(s@) == trim_front_spec(s@.subrange(a as int, len as int)),
        ensures
            len == s@.len(),
            a <= len,
            trim_front_spec(s@) == s@.subrange(a as int, len as int),
        decreases len - a,
    {
        if !is_space(s[a]) {
            break ;
        }
        assert(s@.subrange(a as int, len as int).drop_first() =~= s@.subrange(
            a + 1 as int,
            len as int,
        ));
        a += 1;
    }
    let mut b: usize = len;
    while b > a
        invariant
            len == s@.len(),
            a <= b <= len,
            trim_front_spec(s@) == s@.subrange(a as int, len as int),
            trim_back_spec(s@.subrange(a as int, len as int)) == trim_back_spec(
                s@.subrange(a as int, b as int),
            ),
        ensures
            len == s@.len(),
            a <= b <= len,
            trim_spec(s@) == s@.subrange(a as int, b as int),
        decreases b,
    {
        if !is_space(s[b - 1]) {
            break ;
        }
        assert(s@.subrange(a as int, b as int).drop_last() =~= s@.subrange(
            a as int,
            b - 1 as int,
        ));
        b -= 1;
    }
    assert(trim_spec(s@) == s@.subrange(a as int, b as int));
    let mut r: Vec<char> = Vec::new();
    let mut i: usize = a;
    while i < b
        invariant
            a <= i <= b <= s@.len(),
            r@ == s@.subrange(a as int, i as int),
        decreases b - i,
    {
        r.push(s[i]);
        assert(s@.subrange(a as int, i + 1 as int) =~= s@.subrange(a as int, i as int).push(
            s@[i as int],
        ));
        i += 1;
    }
    r
}

// ---------------------------------------------------------------------------
// Splitting
// ---------------------------------------------------------------------------

/// The views of a sequence of character vectors.
pub open spec fn views_of(vs: Seq<Vec<char>>) -> Seq<Seq<char>> {
    vs.map_values(|v: Vec<char>| v@)
}

/// Helper for `split_char_spec`: `cur` is the piece read so far.
pub open spec fn split_rec(s: Seq<char>, c: char, cur: Seq<char>) -> Seq<Seq<char>>
    decreases s.len(),
{
    if s.len() == 0 {
        seq![cur]
    } else if s[0] == c {
        seq![cur] + split_rec(s.drop_first(), c, Seq::empty())
    } else {
        split_rec(s.drop_first(), c, cur.push(s[0]))
    }
}

/// The pieces of `s` between occurrences of `c`, as `str::split` yields
/// them: an empty `s` gives one empty piece, and separators at the ends
/// give empty pieces.
pub open spec fn split_char_spec(s: Seq<char>, c: char) -> Seq<Seq<char>> {
    split_rec(s, c, Seq::empty())
}

/// Splits `s` at every occurrence of `c`.
pub fn split_on(s: &[char], c: char) -> (r: Vec<Vec<char>>)
    ensures
        views_of(r@) == split_char_spec(s@, c),
{
    let mut r: Vec<Vec<char>> = Vec::new();
    let mut cur: Vec<char> = Vec::new();
    let mut i: usize = 0;
    assert(s@.subrange(0, s@.len() as int) =~= s@);
    assert(views_of(r@) + split_rec(s@, c, cur@) =~~= split_char_spec(s@, c));
    while i < s.len()
        invariant
            i <= s@.len(),
            split_char_spec(s@, c) == views_of(r@) + split_rec(
                s@.subrange(i as int, s@.len() as int),
                c,
                cur@,
            ),
        decreases s@.len() - i,
    {
        let ghost rest = s@.subrange(i as int, s@.len() as int);
        assert(rest.drop_first() =~= s@.subrange(i + 1 as int, s@.len() as int));
        if s[i] == c {
            let ghost r0 = r@;
            let ghost cur0 = cur@;
            r.push(cur);
            cur = Vec::new();
            assert(cur@ =~= Seq::<char>::empty());
            assert(views_of(r@) =~~= views_of(r0).push(cur0));
            assert(views_of(r0) + split_rec(rest, c, cur0) =~~= views_of(r@) + split_rec(
                rest.drop_first(),
                c,
                cur@,
            ));
        } else {
            assert(rest[0] == s@[i as int]);
            cur.push(s[i]);
        }
        i += 1;
    }
    let ghost r0 = r@;
    let ghost cur0 = cur@;
    r.push(cur);
    assert(views_of(r@) =~~= views_of(r0).push(cur0));
    assert(views_of(r0) + seq![cur0] =~~= views_of(r@));
    r
}

/// Helper for `split_lines_spec`: `cur` is the line read so far.
pub open spec fn lines_rec(s: Seq<char>, cur: Seq<char>) -> Seq<Seq<char>>
    decreases s.len(),
{
    if s.len() == 0 {
        if cur.len() == 0 {
            Seq::empty()
        } else {
            seq![cur]
        }
    } else if s[0] == '\n' {
        seq![strip_cr(cur)] + lines_rec(s.drop_first(), Seq::empty())
    } else {
        lines_rec(s.drop_first(), cur.push(s[0]))
    }
}

/// A line without its trailing carriage return, if it has one.
pub open spec fn strip_cr(line: Seq<char>) -> Seq<char> {
    if line.len() > 0 && line.last() == '\r' {
        line.drop_last()
    } else {
        line
    }
}

/// The lines of `s`, as `str::lines` yields them: split at `\n`, a `\r`
/// directly before a `\n` is dropped, and a terminating line ending adds
/// no empty final line.
pub open spec fn split_lines_spec(s: Seq<char>) -> Seq<Seq<char>> {
    lines_rec(s, Seq::empty())
}

/// Splits `s` into its lines.
pub fn split_lines(s: &[char]) -> (r: Vec<Vec<char>>)
    ensures
        views_of(r@) == split_lines_spec(s@),
{
    let mut r: Vec<Vec<char>> = Vec::new();
    let mut cur: Vec<char> = Vec::new();
    let mut i: usize = 0;
    assert(s@.subrange(0, s@.len() as int) =~= s@);
    assert(views_of(r@) + lines_rec(s@, cur@) =~~= split_lines_spec(s@));
    while i < s.len()
        invariant
            i <= s@.len(),
            split_lines_spec(s@) == views_of(r@) + lines_rec(
                s@.subrange(i as int, s@.len() as int),
                cur@,
            ),
        decreases s@.len() - i,
    {
        let ghost rest = s@.subrange(i as int, s@.len() as int);
        assert(rest.drop_first() =~= s@.subrange(i + 1 as int, s@.len() as int));
        if s[i] == '\n' {
            let ghost r0 = r@;
            let ghost cur0 = cur@;
            if cur.len() > 0 && cur[cur.len() - 1] == '\r' {
                cur.pop();
            }
            assert(cur@ == strip_cr(cur0));
            r.push(cur);
            cur = Vec::new();
            assert(cur@ =~= Seq::<char>::empty());
            assert(views_of(r@) =~~= views_of(r0).push(strip_cr(cur0)));
            assert(views_of(r0) + lines_rec(rest, cur0) =~~= views_of(r@) + lines_rec(
                rest.drop_first(),
                cur@,
            ));
        } else {
            assert(rest[0] == s@[i as int]);
            cur.push(s[i]);
        }
        i += 1;
    }
    if cur.len() > 0 {
        let ghost r0 = r@;
        let ghost cur0 = cur@;
        r.push(cur);
        assert(views_of(r@) =~~= views_of(r0).push(cur0));
        assert(views_of(r0) + seq![cur0] =~~= views_of(r@));
    } else {
        assert(views_of(r@) + Seq::<Seq<char>>::empty() =~~= views_of(r@));
    }
    r
}

/// Helper for `split_ws_spec`: `cur` is the token read so far.
pub open spec fn split_ws_rec(s: Seq<char>, cur: Seq<char>) -> Seq<Seq<char>>
    decreases s.len(),
{
    if s.len() == 0 {
        if cur.len() == 0 {
            Seq::empty()
        } else {
            seq![cur]
        }
    } else if is_space_char(s[0]) {
        if cur.len() == 0 {
            split_ws_rec(s.drop_first(), Seq::empty())
        } else {
            seq![cur] + split_ws_rec(s.drop_first(), Seq::empty())
        }
    } else {
        split_ws_rec(s.drop_first(), cur.push(s[0]))
    }
}

/// The whitespace-separated tokens of `s`, as `str::split_whitespace`
/// yields them: no empty tokens.
pub open spec fn split_ws_spec(s: Seq<char>) -> Seq<Seq<char>> {
    split_ws_rec(s, Seq::empty())
}

/// Splits `s` into its whitespace-separated tokens.
pub fn split_whitespace(s: &[char]) -> (r: Vec<Vec<char>>)
    ensures
        views_of(r@) == split_ws_spec(s@),
{
    let mut r: Vec<Vec<char>> = Vec::new();
    let mut cur: Vec<char> = Vec::new();
    let mut i: usize = 0;
    assert(s@.subrange(0, s@.len() as int) =~= s@);
    assert(views_of(r@) + split_ws_rec(s@, cur@) =~~= split_ws_spec(s@));
    while i < s.len()
        invariant
            i <= s@.len(),
            split_ws_spec(s@) == views_of(r@) + split_ws_rec(
                s@.subrange(i as int, s@.len() as int),
                cur@,
            ),
        decreases s@.len() - i,
    {
        let ghost rest = s@.subrange(i as int, s@.len() as int);
        assert(rest.drop_first() =~= s@.subrange(i + 1 as int, s@.len() as int));
        assert(rest[0] == s@[i as int]);
        if is_space(s[i]) {
            if cur.len() > 0 {
                let ghost r0 = r@;
                let ghost cur0 = cur@;
                r.push(cur);
                cur = Vec::new();
                assert(cur@ =~= Seq::<char>::empty());
                assert(views_of(r@) =~~= views_of(r0).push(cur0));
                assert(views_of(r0) + split_ws_rec(rest, cur0) =~~= views_of(r@) + split_ws_rec(
                    rest.drop_first(),
                    cur@,
                ));
            } else {
                assert(cur@ =~= Seq::<char>::empty());
            }
        } else {
            assert(rest[0] == s@[i as int]);
            cur.push(s[i]);
        }
        i += 1;
    }
    if cur.len() > 0 {
        let ghost r0 = r@;
        let ghost cur0 = cur@;
        r.push(cur);
        assert(views_of(r@) =~~= views_of(r0).push(cur0));
        assert(views_of(r0) + seq![cur0] =~~= views_of(r@));
    } else {
        assert(views_of(r@) + Seq::<Seq<char>>::empty() =~~= views_of(r@));
    }
    r
}

// ---------------------------------------------------------------------------
// Joining lines
// ---------------------------------------------------------------------------

/// The given lines joined with `\n`, as `[&str]::join` builds it.
pub open spec fn join_nl(ls: Seq<Seq<char>>) -> Seq<char>
    decreases ls.len(),
{
    if ls.len() == 0 {
        Seq::empty()
    } else if ls.len() == 1 {
        ls[0]
    } else {
        join_nl(ls.drop_last()) + seq!['\n'] + ls.last()
    }
}

/// Joins the lines from index `from` on with `\n`.
pub fn join_lines_from(ls: &Vec<Vec<char>>, from: usize) -> (r: Vec<char>)
    requires
        from <= ls@.len(),
    ensures
        r@ == join_nl(views_of(ls@).subrange(from as int, ls@.len() as int)),
{
    let mut r: Vec<char> = Vec::new();
    let mut i: usize = from;
    assert(views_of(ls@).subrange(from as int, from as int) =~= Seq::<Seq<char>>::empty());
    while i < ls.len()
        invariant
            from <= i <= ls@.len(),
            r@ == join_nl(views_of(ls@).subrange(from as int, i as int)),
        decreases ls@.len() - i,
    {
        let ghost pref = views_of(ls@).subrange(from as int, i as int);
        let ghost pref1 = views_of(ls@).subrange(from as int, i + 1 as int);
        assert(pref1.drop_last() =~= pref);
        assert(pref1.last() == ls@[i as int]@);
        if i > from {
            r.push('\n');
        }
        let mut j: usize = 0;
        let ghost r0 = r@;
        while j < ls[i].len()
            invariant
                from <= i < ls@.len(),
                j <= ls@[i as int]@.len(),
                r@ == r0 + ls@[i as int]@.subrange(0, j as int),
            decreases ls@[i as int]@.len() - j,
        {
            let c = ls[i][j];
            r.push(c);
            assert(ls@[i as int]@.subrange(0, j + 1 as int) =~= ls@[i as int]@.subrange(
                0,
                j as int,
            ).push(ls@[i as int]@[j as int]));
            j += 1;
        }
        assert(ls@[i as int]@.subrange(0, ls@[i as int]@.len() as int) =~= ls@[i as int]@);
        assert(r@ =~= join_nl(pref1));
        i += 1;
    }
    assert(views_of(ls@).subrange(from as int, ls@.len() as int) =~= views_of(ls@).subrange(
        from as int,
        i as int,
    ));
    r
}

// ---------------------------------------------------------------------------
// Decimal numbers
// ---------------------------------------------------------------------------

/// Every character of `s` is an ASCII digit.
pub open spec fn all_digits(s: Seq<char>) -> bool {
    forall|i: int| 0 <= i < s.len() ==> is_digit_char(s[i])
}

/// The value of a digit string read as a decimal number.
pub open spec fn dec_val(s: Seq<char>) -> int
    decreases s.len(),
{
    if s.len() == 0 {
        0
    } else {
        dec_val(s.drop_last()) * 10 + digit_of(s.last())
    }
}

/// A digit string has a nonnegative value.
pub proof fn lemma_dec_val_nonneg(s: Seq<char>)
    requires
        all_digits(s),
    ensures
        dec_val(s) >= 0,
    decreases s.len(),
{
    if s.len() > 0 {
        assert(all_digits(s.drop_last()));
        lemma_dec_val_nonneg(s.drop_last());
    }
}

/// Extending a digit string never lowers its value.
pub proof fn lemma_dec_val_prefix_le(s: Seq<char>, k: int)
    requires
        all_digits(s),
        0 <= k <= s.len(),
    ensures
        dec_val(s.subrange(0, k)) <= dec_val(s),
    decreases s.len(),
{
    if k == s.len() {
        assert(s.subrange(0, k) =~= s);
    } else {
        assert(all_digits(s.drop_last()));
        assert(s.subrange(0, k) =~= s.drop_last().subrange(0, k));
        lemma_dec_val_prefix_le(s.drop_last(), k);
        lemma_dec_val_nonneg(s.drop_last());
    }
}

/// What `str::parse::<u16>` accepts: an optional leading `+`, then one or
/// more ASCII digits whose value fits in 16 bits.
pub open spec fn spec_parse_u16(s: Seq<char>) -> Option<u16> {
    let t = if s.len() > 0 && s[0] == '+' {
        s.drop_first()
    } else {
        s
    };
    if t.len() == 0 || !all_digits(t) || dec_val(t) > 65535 {
        None
    } else {
        Some(dec_val(t) as u16)
    }
}

/// Parses an unsigned 16-bit decimal number, as `str::parse::<u16>` does.
pub fn parse_u16_chars(s: &[char]) -> (r: Option<u16>)
    ensures
        r == spec_parse_u16(s@),
{
    let n = s.len();
    let start: usize = if n > 0 && s[0] == '+' {
        1
    } else {
        0
    };
    let ghost t = if s@.len() > 0 && s@[0] == '+' {
        s@.drop_first()
    } else {
        s@
    };
    assert(t =~= s@.subrange(start as int, n as int));
    if n == start {
        return None;
    }
    let mut v: u32 = 0;
    let mut i: usize = start;
    assert(t.subrange(0, 0) =~= Seq::<char>::empty());
    while i < n
        invariant
            n == s@.len(),
            start <= i <= n,
            start < n,
            t == (if s@.len() > 0 && s@[0] == '+' {
                s@.drop_first()
            } else {
                s@
            }),
            t =~= s@.subrange(start as int, n as int),
            forall|j: int| start <= j < i ==> is_digit_char(s@[j]),
            v as int == dec_val(t.subrange(0, i - start)),
            v <= 65535,
        decreases n - i,
    {
        let c = s[i];
        let u = c as u32;
        if u < 48 || u > 57 {
            proof {
                assert(t[i - start] == s@[i as int]);
                assert(!is_digit_char(t[i - start]));
            }
            return None;
        }
        let d = u - 48;
        let nv: u32 = v * 10 + d;
        proof {
            let k = i + 1 - start;
            assert(t.subrange(0, k) =~= t.subrange(0, i - start).push(s@[i as int]));
            assert(t.subrange(0, k).drop_last() =~= t.subrange(0, i - start));
            assert(t.subrange(0, k).last() == s@[i as int]);
            assert(dec_val(t.subrange(0, k)) == v * 10 + d);
        }
        if nv > 65535 {
            proof {
                if all_digits(t) {
                    lemma_dec_val_prefix_le(t, i + 1 - start);
                    assert(dec_val(t) > 65535);
                }
            }
            return None;
        }
        v = nv;
        i += 1;
    }
    assert(t.subrange(0, n - start) =~= t);
    assert(all_digits(t)) by {
        assert forall|jt: int| 0 <= jt < t.len() implies is_digit_char(t[jt]) by {
            assert(t[jt] == s@[start + jt]);
        }
    }
    Some(v as u16)
}

/// The decimal rendering of a nonnegative number, without sign or leading
/// zeros.
pub open spec fn dec_rep(n: int) -> Seq<char>
    recommends
        n >= 0,
    decreases n,
{
    if n < 10 {
        seq![((48 + n) as u8) as char]
    } else {
        dec_rep(n / 10).push(((48 + n % 10) as u8) as char)
    }
}

/// Renders a 16-bit number in decimal.
pub fn u16_to_chars(n: u16) -> (r: Vec<char>)
    ensures
        r@ == dec_rep(n as int),
{
    let mut digits: Vec<char> = Vec::new();
    let mut m: u16 = n;
    assert(dec_rep(n as int) =~= dec_rep(m as int) + digits@.reverse());
    while m >= 10
        invariant
            dec_rep(n as int) == dec_rep(m as int) + digits@.reverse(),
        decreases m,
    {
        let d = m % 10;
        let ghost digits0 = digits@;
        digits.push(((48 + d) as u8) as char);
        m = m / 10;
        assert(digits@.reverse() =~= seq![(((48 + d) as u8) as char)] + digits0.reverse());
        assert(dec_rep(m as int) + digits@.reverse() =~= dec_rep(n as int));
    }
    let mut r: Vec<char> = Vec::new();
    r.push(((48 + m as u8)) as char);
    let mut k: usize = digits.len();
    assert(r@ =~= dec_rep(m as int) + digits@.reverse().subrange(0, 0));
    while k > 0
        invariant
            k <= digits@.len(),
            r@ == dec_rep(m as int) + digits@.reverse().subrange(
                0,
                digits@.len() - k,
            ),
        decreases k,
    {
        let ghost done = digits@.len() - k;
        r.push(digits[k - 1]);
        assert(digits@.reverse()[done] == digits@[k - 1]);
        assert(digits@.reverse().subrange(0, done + 1) =~= digits@.reverse().subrange(
            0,
            done,
        ).push(digits@.reverse()[done]));
        k -= 1;
    }
    assert(digits@.reverse().subrange(0, digits@.len() as int) =~= digits@.reverse());
    r
}

/// Renders a 16-bit number as a decimal string.
pub fn u16_to_string(n: u16) -> (r: String)
    ensures
        r@ == dec_rep(n as int),
{
    let cs = u16_to_chars(n);
    string_from_chars(cs.as_slice())
}

} // verus!
