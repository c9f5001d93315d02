use vstd::prelude::*;

verus! {

/// Appends a character to a `String` (std's `String::push`: "Appends the
/// given char to the end of this String").
pub assume_specification[ String::push ](s: &mut String, ch: char)
    ensures
        final(s)@ == old(s)@.push(ch),
;

// ───────────────────────── characters ─────────────────────────

/// Unicode `White_Space` property, which `char::is_whitespace` and
/// `str::trim` use.
pub open spec fn is_ws(c: char) -> bool {
    let u = c as u32;
    ||| (0x09 <= u && u <= 0x0d)
    ||| u == 0x20
    ||| u == 0x85
    ||| u == 0xa0
    ||| u == 0x1680
    ||| (0x2000 <= u && u <= 0x200a)
    ||| u == 0x2028
    ||| u == 0x2029
    ||| u == 0x202f
    ||| u == 0x205f
    ||| u == 0x3000
}

pub fn is_whitespace(c: char) -> (b: bool)
    ensures
        b == is_ws(c),
{
    let u = c as u32;
    (0x09 <= u && u <= 0x0d) || u == 0x20 || u == 0x85 || u == 0xa0 || u == 0x1680 || (0x2000
        <= u && u <= 0x200a) || u == 0x2028 || u == 0x2029 || u == 0x202f || u == 0x205f || u
        == 0x3000
}

/// ASCII lower-casing of one character (`char::to_ascii_lowercase`).
pub open spec fn lower_char(c: char) -> char {
    if 'A' <= c && c <= 'Z' {
        ((c as u32) + 32) as char
    } else {
        c
    }
}

pub open spec fn ascii_lower(s: Seq<char>) -> Seq<char> {
    s.map_values(|c: char| lower_char(c))
}

pub fn to_lower_char(c: char) -> (r: char)
    ensures
        r == lower_char(c),
{
    if 'A' <= c && c <= 'Z' {
        let b: u8 = (c as u8) + 32;
        b as char
    } else {
        c
    }
}

/// The decimal digit character of `d < 10`.
pub open spec fn digit_of(d: nat) -> char {
    ((d + 48) as u8) as char
}

/// Decimal representation of a natural number, without leading zeros.
pub open spec fn decimal(n: nat) -> Seq<char>
    decreases n,
{
    if n < 10 {
        seq![digit_of(n)]
    } else {
        decimal(n / 10).push(digit_of(n % 10))
    }
}

/// Appends the decimal representation of `n` to `s`.
pub fn push_decimal(s: &mut String, n: u64)
    ensures
        final(s)@ == old(s)@ + decimal(n as nat),
    decreases n,
{
    if n >= 10 {
        push_decimal(s, n / 10);
    }
    let d: u8 = (n % 10) as u8;
    let c: char = (d + 48) as char;
    s.push(c);
    proof {
        assert(c == digit_of((n % 10) as nat));
    }
}

// ───────────────────────── conversions ─────────────────────────

/// The characters of a string slice, collected into a vector.
pub fn chars_of(s: &str) -> (v: Vec<char>)
    ensures
        v@ == s@,
{
    let mut v: Vec<char> = Vec::new();
    for c in it: s.chars()
        invariant
            v@ == it.seq().take(it.index() as int),
    {
        v.push(c);
    }
    v
}

/// A `String` holding `v[lo..hi]`.
pub fn string_of_range(v: &Vec<char>, lo: usize, hi: usize) -> (s: String)
    requires
        lo <= hi <= v.len(),
    ensures
        s@ == v@.subrange(lo as int, hi as int),
{
    let mut s = String::new();
    let mut i: usize = lo;
    while i < hi
        invariant
            lo <= i <= hi <= v.len(),
            s@ == v@.subrange(lo as int, i as int),
        decreases hi - i,
    {
        s.push(v[i]);
        i += 1;
        proof {
            assert(v@.subrange(lo as int, i as int) == v@.subrange(lo as int, i - 1).push(
                v@[i - 1],
            ));
        }
    }
    s
}

/// A `String` from a string slice.
pub fn string_from(s: &str) -> (r: String)
    ensures
        r@ == s@,
{
    let v = chars_of(s);
    string_of_range(&v, 0, v.len())
}

/// Appends a string slice.
pub fn push_str(s: &mut String, t: &str)
    ensures
        final(s)@ == old(s)@ + t@,
{
    let v = chars_of(t);
    let mut i: usize = 0;
    let ghost s0 = s@;
    while i < v.len()
        invariant
            i <= v.len(),
            v@ == t@,
            s@ == s0 + v@.take(i as int),
        decreases v.len() - i,
    {
        s.push(v[i]);
        i += 1;
        proof {
            assert(v@.take(i as int) == v@.take(i - 1).push(v@[i - 1]));
        }
    }
    proof {
        assert(v@.take(v.len() as int) == v@);
    }
}

/// Appends a `String`.
pub fn push_string(s: &mut String, t: &String)
    ensures
        final(s)@ == old(s)@ + t@,
{
    push_str(s, t.as_str());
}

/// Whether `v[lo..hi]` equals `w`.
pub fn range_eq(v: &Vec<char>, lo: usize, hi: usize, w: &Vec<char>) -> (b: bool)
    requires
        lo <= hi <= v.len(),
    ensures
        b == (v@.subrange(lo as int, hi as int) == w@),
{
    if hi - lo != w.len() {
        proof {
            assert(v@.subrange(lo as int, hi as int).len() != w@.len());
        }
        return false;
    }
    let mut i: usize = 0;
    while i < w.len()
        invariant
            hi - lo == w.len(),
            lo <= hi <= v.len(),
            i <= w.len(),
            forall|k: int| 0 <= k < i ==> v@[lo + k] == w@[k],
        decreases w.len() - i,
    {
        if v[lo + i] != w[i] {
            proof {
                assert(v@.subrange(lo as int, hi as int)[i as int] != w@[i as int]);
            }
            return false;
        }
        i += 1;
    }
    proof {
        assert(v@.subrange(lo as int, hi as int) =~= w@);
    }
    true
}

/// Whether `v[lo..hi]`, lower-cased, equals `w`.
pub fn range_lower_eq(v: &Vec<char>, lo: usize, hi: usize, w: &Vec<char>) -> (b: bool)
    requires
        lo <= hi <= v.len(),
    ensures
        b == (ascii_lower(v@.subrange(lo as int, hi as int)) == w@),
{
    let ghost sub = v@.subrange(lo as int, hi as int);
    if hi - lo != w.len() {
        proof {
            assert(ascii_lower(sub).len() != w@.len());
        }
        return false;
    }
    let mut i: usize = 0;
    while i < w.len()
        invariant
            sub == v@.subrange(lo as int, hi as int),
            hi - lo == w.len(),
            lo <= hi <= v.len(),
            i <= w.len(),
            forall|k: int| 0 <= k < i ==> lower_char(v@[lo + k]) == w@[k],
        decreases w.len() - i,
    {
        if to_lower_char(v[lo + i]) != w[i] {
            proof {
                assert(ascii_lower(sub)[i as int] != w@[i as int]);
            }
            return false;
        }
        i += 1;
    }
    proof {
        assert(ascii_lower(sub) =~= w@);
    }
    true
}

/// `v[lo..hi]` lower-cased, as a `String`.
pub fn lower_string_of_range(v: &Vec<char>, lo: usize, hi: usize) -> (s: String)
    requires
        lo <= hi <= v.len(),
    ensures
        s@ == ascii_lower(v@.subrange(lo as int, hi as int)),
{
    let mut s = String::new();
    let mut i: usize = lo;
    while i < hi
        invariant
            lo <= i <= hi <= v.len(),
            s@ == ascii_lower(v@.subrange(lo as int, i as int)),
        decreases hi - i,
    {
        s.push(to_lower_char(v[i]));
        i += 1;
        proof {
            assert(ascii_lower(v@.subrange(lo as int, i as int)) =~= ascii_lower(
                v@.subrange(lo as int, i - 1),
            ).push(lower_char(v@[i - 1])));
        }
    }
    s
}

// ───────────────────────── searching ─────────────────────────

/// Index of the first `c` in `s` at or after `i`.
pub open spec fn find_from(s: Seq<char>, c: char, i: int) -> Option<int>
    decreases s.len() - i,
{
    if i < 0 || i >= s.len() {
        None
    } else if s[i] == c {
        Some(i)
    } else {
        find_from(s, c, i + 1)
    }
}

/// Index of the first `c` in `s`.
pub open spec fn find(s: Seq<char>, c: char) -> Option<int> {
    find_from(s, c, 0)
}

/// Index of the last `c` in `s` before `j`.
pub open spec fn rfind_before(s: Seq<char>, c: char, j: int) -> Option<int>
    decreases j,
{
    if j <= 0 || j > s.len() {
        None
    } else if s[j - 1] == c {
        Some(j - 1)
    } else {
        rfind_before(s, c, j - 1)
    }
}

/// Index of the last `c` in `s`.
pub open spec fn rfind(s: Seq<char>, c: char) -> Option<int> {
    rfind_before(s, c, s.len() as int)
}

/// Position in `v` of the first `c` in `v[start..hi]`, or `hi`, read as a
/// search inside `v[lo..hi]`.
pub fn find_in(v: &Vec<char>, lo: usize, start: usize, hi: usize, c: char) -> (r: usize)
    requires
        lo <= start <= hi <= v.len(),
    ensures
        start <= r <= hi,
        find_from(v@.subrange(lo as int, hi as int), c, start - lo) == (if r < hi {
            Some(r - lo)
        } else {
            None::<int>
        }),
        r < hi ==> v@[r as int] == c,
{
    let ghost sub = v@.subrange(lo as int, hi as int);
    let mut i: usize = start;
    while i < hi && v[i] != c
        invariant
            sub == v@.subrange(lo as int, hi as int),
            lo <= start <= i <= hi <= v.len(),
            find_from(sub, c, start - lo) == find_from(sub, c, i - lo),
        decreases hi - i,
    {
        i += 1;
    }
    i
}

/// Index of the first `a` or `b` in `s` at or after `i`.
pub open spec fn find2_from(s: Seq<char>, a: char, b: char, i: int) -> Option<int>
    decreases s.len() - i,
{
    if i < 0 || i >= s.len() {
        None
    } else if s[i] == a || s[i] == b {
        Some(i)
    } else {
        find2_from(s, a, b, i + 1)
    }
}

/// Position in `v` of the first `a` or `b` in `v[lo..hi]`, or `hi`.
pub fn find2_in(v: &Vec<char>, lo: usize, hi: usize, a: char, b: char) -> (r: usize)
    requires
        lo <= hi <= v.len(),
    ensures
        lo <= r <= hi,
        find2_from(v@.subrange(lo as int, hi as int), a, b, 0) == (if r < hi {
            Some(r - lo)
        } else {
            None::<int>
        }),
{
    let ghost sub = v@.subrange(lo as int, hi as int);
    let mut i: usize = lo;
    while i < hi && v[i] != a && v[i] != b
        invariant
            sub == v@.subrange(lo as int, hi as int),
            lo <= i <= hi <= v.len(),
            find2_from(sub, a, b, 0) == find2_from(sub, a, b, i - lo),
        decreases hi - i,
    {
        i += 1;
    }
    i
}

pub proof fn lemma_find_from_bounds(s: Seq<char>, c: char, i: int)
    ensures
        find_from(s, c, i) matches Some(k) ==> i <= k < s.len() && s[k] == c,
    decreases s.len() - i,
{
    if 0 <= i < s.len() && s[i] != c {
        lemma_find_from_bounds(s, c, i + 1);
    }
}

pub proof fn lemma_rfind_before_bounds(s: Seq<char>, c: char, j: int)
    ensures
        rfind_before(s, c, j) matches Some(k) ==> 0 <= k < j && s[k] == c,
    decreases j,
{
    if 0 < j <= s.len() && s[j - 1] != c {
        lemma_rfind_before_bounds(s, c, j - 1);
    }
}

/// Position in `v` of the last `c` in `v[lo..hi]`, or `hi`.
pub fn rfind_in(v: &Vec<char>, lo: usize, hi: usize, c: char) -> (r: usize)
    requires
        lo <= hi <= v.len(),
    ensures
        lo <= r <= hi,
        rfind(v@.subrange(lo as int, hi as int), c) == (if r < hi {
            Some(r - lo)
        } else {
            None::<int>
        }),
{
    let ghost sub = v@.subrange(lo as int, hi as int);
    let mut j: usize = hi;
    while j > lo && v[j - 1] != c
        invariant
            sub == v@.subrange(lo as int, hi as int),
            lo <= j <= hi <= v.len(),
            rfind(sub, c) == rfind_before(sub, c, j - lo),
        decreases j,
    {
        j -= 1;
    }
    if j > lo {
        j - 1
    } else {
        hi
    }
}

// ───────────────────────── trimming ─────────────────────────

/// End of the leading run of characters satisfying `p`, from `i`.
pub open spec fn skip_while(s: Seq<char>, p: spec_fn(char) -> bool, i: int) -> int
    decreases s.len() - i,
{
    if 0 <= i < s.len() && p(s[i]) {
        skip_while(s, p, i + 1)
    } else {
        i
    }
}

/// Start of the trailing run of characters satisfying `p`, before `j`.
pub open spec fn skip_back_while(s: Seq<char>, p: spec_fn(char) -> bool, j: int) -> int
    decreases j,
{
    if 0 < j <= s.len() && p(s[j - 1]) {
        skip_back_while(s, p, j - 1)
    } else {
        j
    }
}

/// `s` without leading and trailing characters satisfying `p`
/// (`str::trim_matches`).
pub open spec fn trim_by(s: Seq<char>, p: spec_fn(char) -> bool) -> Seq<char> {
    let a = skip_while(s, p, 0);
    let t = s.skip(a);
    t.take(skip_back_while(t, p, t.len() as int))
}

pub open spec fn ws() -> spec_fn(char) -> bool {
    |c: char| is_ws(c)
}

/// `str::trim`.
pub open spec fn trim(s: Seq<char>) -> Seq<char> {
    trim_by(s, ws())
}

pub open spec fn bracket() -> spec_fn(char) -> bool {
    |c: char| c == '[' || c == ']'
}

proof fn lemma_skip_while_bounds(s: Seq<char>, p: spec_fn(char) -> bool, i: int)
    requires
        0 <= i <= s.len(),
    ensures
        i <= skip_while(s, p, i) <= s.len(),
    decreases s.len() - i,
{
    if i < s.len() && p(s[i]) {
        lemma_skip_while_bounds(s, p, i + 1);
    }
}

proof fn lemma_skip_back_while_bounds(s: Seq<char>, p: spec_fn(char) -> bool, j: int)
    requires
        0 <= j <= s.len(),
    ensures
        0 <= skip_back_while(s, p, j) <= j,
    decreases j,
{
    if j > 0 && p(s[j - 1]) {
        lemma_skip_back_while_bounds(s, p, j - 1);
    }
}

fn is_trim_char(c: char, which: bool) -> (b: bool)
    ensures
        b == (if which {
            bracket()
        } else {
            ws()
        })(c),
{
    if which {
        c == '[' || c == ']'
    } else {
        is_whitespace(c)
    }
}

/// Bounds of `trim_by(v[lo..hi], p)` inside `v`, for `p` the white-space
/// predicate (`which == false`) or the bracket predicate (`which == true`).
pub fn trim_in(v: &Vec<char>, lo: usize, hi: usize, which: bool) -> (r: (usize, usize))
    requires
        lo <= hi <= v.len(),
    ensures
        lo <= r.0 <= r.1 <= hi,
        v@.subrange(r.0 as int, r.1 as int) == trim_by(
            v@.subrange(lo as int, hi as int),
            if which {
                bracket()
            } else {
                ws()
            },
        ),
{
    let ghost p = if which {
        bracket()
    } else {
        ws()
    };
    let ghost sub = v@.subrange(lo as int, hi as int);
    let mut a: usize = lo;
    while a < hi && is_trim_char(v[a], which)
        invariant
            sub == v@.subrange(lo as int, hi as int),
            p == (if which {
                bracket()
            } else {
                ws()
            }),
            lo <= a <= hi <= v.len(),
            skip_while(sub, p, 0) == skip_while(sub, p, a - lo),
        decreases hi - a,
    {
        a += 1;
    }
    let ghost t = sub.skip(a - lo);
    assert(t == v@.subrange(a as int, hi as int));
    let mut b: usize = hi;
    while b > a && is_trim_char(v[b - 1], which)
        invariant
            sub == v@.subrange(lo as int, hi as int),
            t == v@.subrange(a as int, hi as int),
            p == (if which {
                bracket()
            } else {
                ws()
            }),
            lo <= a <= b <= hi <= v.len(),
            skip_back_while(t, p, t.len() as int) == skip_back_while(t, p, b - a),
        decreases b,
    {
        b -= 1;
    }
    proof {
        assert(v@.subrange(a as int, b as int) =~= t.take(b - a));
    }
    (a, b)
}

} // verus!

verus! {

pub proof fn lemma_digit_of(d: nat)
    requires
        d < 10,
    ensures
        digit_of(d) as u32 == d + 48,
{
}

pub proof fn lemma_decimal_len(n: nat)
    ensures
        decimal(n).len() >= 1,
        n >= 10 ==> decimal(n).len() >= 2,
    decreases n,
{
    if n >= 10 {
        lemma_decimal_len(n / 10);
    }
}

/// Different numbers have different decimal representations.
pub proof fn lemma_decimal_injective(a: nat, b: nat)
    requires
        decimal(a) == decimal(b),
    ensures
        a == b,
    decreases a,
{
    lemma_decimal_len(a);
    lemma_decimal_len(b);
    lemma_digit_of(a % 10);
    lemma_digit_of(b % 10);
    assert(decimal(a).len() == decimal(b).len());
    if a < 10 && b < 10 {
        assert(decimal(a) == seq![digit_of(a)]);
        assert(decimal(b) == seq![digit_of(b)]);
        assert(seq![digit_of(a)][0] == digit_of(a));
        assert(seq![digit_of(b)][0] == digit_of(b));
        assert(decimal(a)[0] == decimal(b)[0]);
        assert(digit_of(a) as u32 == digit_of(b) as u32);
    } else if a >= 10 && b >= 10 {
        assert(decimal(a) == decimal(a / 10).push(digit_of(a % 10)));
        assert(decimal(b) == decimal(b / 10).push(digit_of(b % 10)));
        assert(decimal(a).drop_last() == decimal(a / 10));
        assert(decimal(b).drop_last() == decimal(b / 10));
        lemma_decimal_injective(a / 10, b / 10);
        assert(decimal(a).last() == digit_of(a % 10));
        assert(decimal(b).last() == digit_of(b % 10));
        assert(digit_of(a % 10) == digit_of(b % 10));
        assert(digit_of(a % 10) as u32 == digit_of(b % 10) as u32);
        assert(a % 10 == b % 10);
    }
}

} // verus!

verus! {

/// What `Debug` of `str` writes for a string: the string quoted, with its
/// special characters escaped.
pub uninterp spec fn debug_text(s: Seq<char>) -> Seq<char>;

/// Calls `Debug` of `str` (through `format!`); the text is named by
/// `debug_text`.
#[verifier::external_body]
pub(crate) fn debug_string(s: &str) -> (r: String)
    ensures
        r@ == debug_text(s@),
{
    format!("{s:?}")
}

/// Texts joined by ", ".
pub open spec fn joined(items: Seq<Seq<char>>) -> Seq<char>
    decreases items.len(),
{
    if items.len() == 0 {
        seq![]
    } else if items.len() == 1 {
        items[0]
    } else {
        joined(items.drop_last()) + ", "@ + items.last()
    }
}

} // verus!
