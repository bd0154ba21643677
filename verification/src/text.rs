//! Text primitives shared by the mail engine: character sequences, trimming,
//! prefix stripping, case folding and previews.
//!
//! Every function here is stated over `Seq<char>`, the view of `str` and
//! `String`.

use vstd::prelude::*;

verus! {

/// Whether a character carries the Unicode `White_Space` property.
pub open spec fn is_space(c: char) -> bool {
    let n = c as u32;
    (0x09 <= n <= 0x0D) || n == 0x20 || n == 0x85 || n == 0xA0 || n == 0x1680 || (0x2000 <= n
        <= 0x200A) || n == 0x2028 || n == 0x2029 || n == 0x202F || n == 0x205F || n == 0x3000
}

/// Executable test for [`is_space`].
pub fn char_is_space(c: char) -> (r: bool)
    ensures
        r == is_space(c),
{
    let n: u32 = c as u32;
    (0x09 <= n && n <= 0x0D) || n == 0x20 || n == 0x85 || n == 0xA0 || n == 0x1680 || (0x2000 <= n
        && n <= 0x200A) || n == 0x2028 || n == 0x2029 || n == 0x202F || n == 0x205F || n == 0x3000
}

/// `String::push` of the standard library appends one character.
pub assume_specification[ String::push ](s: &mut String, c: char)
    ensures
        final(s)@ == old(s)@.push(c),
;

/// Name for what `str::to_lowercase` of the standard library returns: the
/// Unicode lower-case mapping of a character sequence.
pub uninterp spec fn lowercase(s: Seq<char>) -> Seq<char>;

/// Calls `str::to_lowercase`. The result is a function of the argument alone
/// and is known to contracts only under the name [`lowercase`].
#[verifier::external_body]
fn to_lowercase(s: &str) -> (r: String)
    ensures
        r@ == lowercase(s@),
{
    s.to_lowercase()
}

/// The characters of a string, in order.
pub fn to_chars(s: &str) -> (r: Vec<char>)
    ensures
        r@ == s@,
{
    let mut out: Vec<char> = Vec::new();
    for c in it: s.chars()
        invariant
            out@ == it.seq().take(it.index() as int),
            it.seq() == s@,
    {
        out.push(c);
    }
    out
}

/// The string made of the given characters.
pub fn from_chars(v: &Vec<char>) -> (r: String)
    ensures
        r@ == v@,
{
    let mut out = String::new();
    let mut i: usize = 0;
    while i < v.len()
        invariant
            i <= v.len(),
            out@ == v@.take(i as int),
        decreases v.len() - i,
    {
        out.push(v[i]);
        i += 1;
    }
    out
}

/// Whether two strings hold the same characters.
pub fn str_eq(a: &str, b: &str) -> (r: bool)
    ensures
        r == (a@ == b@),
{
    let x = to_chars(a);
    let y = to_chars(b);
    chars_eq(&x, &y)
}

/// Whether two character vectors hold the same characters.
pub fn chars_eq(a: &Vec<char>, b: &Vec<char>) -> (r: bool)
    ensures
        r == (a@ == b@),
{
    if a.len() != b.len() {
        return false;
    }
    let mut i: usize = 0;
    while i < a.len()
        invariant
            i <= a.len(),
            a.len() == b.len(),
            a@.take(i as int) == b@.take(i as int),
        decreases a.len() - i,
    {
        if a[i] != b[i] {
            return false;
        }
        assert(a@.take(i + 1) == a@.take(i as int).push(a@[i as int]));
        assert(b@.take(i + 1) == b@.take(i as int).push(b@[i as int]));
        i += 1;
    }
    assert(a@.take(a.len() as int) == a@);
    assert(b@.take(b.len() as int) == b@);
    true
}

/// The characters `v[a..b]`.
pub fn subvec(v: &Vec<char>, a: usize, b: usize) -> (r: Vec<char>)
    requires
        a <= b <= v.len(),
    ensures
        r@ == v@.subrange(a as int, b as int),
{
    let mut out: Vec<char> = Vec::new();
    let mut i: usize = a;
    while i < b
        invariant
            a <= i <= b <= v.len(),
            out@ == v@.subrange(a as int, i as int),
        decreases b - i,
    {
        out.push(v[i]);
        i += 1;
    }
    out
}

/// Appends `src` to `dst`.
pub fn push_all(dst: &mut Vec<char>, src: &Vec<char>)
    ensures
        final(dst)@ == old(dst)@ + src@,
{
    let mut i: usize = 0;
    while i < src.len()
        invariant
            i <= src.len(),
            dst@ == old(dst)@ + src@.take(i as int),
        decreases src.len() - i,
    {
        dst.push(src[i]);
        i += 1;
    }
    assert(src@.take(src.len() as int) == src@);
}

/// The concatenation of two strings.
pub fn join(a: &str, b: &str) -> (r: String)
    ensures
        r@ == a@ + b@,
{
    let mut v = to_chars(a);
    let w = to_chars(b);
    push_all(&mut v, &w);
    from_chars(&v)
}

/// A sequence without its leading white space.
pub open spec fn trim_start_spec(s: Seq<char>) -> Seq<char>
    decreases s.len(),
{
    if s.len() > 0 && is_space(s[0]) {
        trim_start_spec(s.drop_first())
    } else {
        s
    }
}

/// A sequence without its trailing white space.
pub open spec fn trim_end_spec(s: Seq<char>) -> Seq<char>
    decreases s.len(),
{
    if s.len() > 0 && is_space(s.last()) {
        trim_end_spec(s.drop_last())
    } else {
        s
    }
}

/// A sequence without its surrounding white space.
pub open spec fn trim_spec(s: Seq<char>) -> Seq<char> {
    trim_end_spec(trim_start_spec(s))
}

/// Whether every character of the sequence is white space.
pub open spec fn all_space(s: Seq<char>) -> bool {
    forall|i: int| 0 <= i < s.len() ==> is_space(#[trigger] s[i])
}

/// Leading white space is exactly a run of `k` spaces that ends the
/// sequence or meets a character that is none.
pub proof fn lemma_trim_start_skip(s: Seq<char>, k: int)
    requires
        0 <= k <= s.len(),
        forall|i: int| 0 <= i < k ==> is_space(#[trigger] s[i]),
        k == s.len() || !is_space(s[k]),
    ensures
        trim_start_spec(s) == s.skip(k),
    decreases k,
{
    if k == 0 {
        assert(s.skip(0) == s);
    } else {
        assert(is_space(s[0]));
        let t = s.drop_first();
        assert forall|i: int| 0 <= i < k - 1 implies is_space(#[trigger] t[i]) by {
            assert(t[i] == s[i + 1]);
        }
        lemma_trim_start_skip(t, k - 1);
        assert(t.skip(k - 1) == s.skip(k));
    }
}

/// Trailing white space is exactly the run of spaces after position `k`.
pub proof fn lemma_trim_end_take(s: Seq<char>, k: int)
    requires
        0 <= k <= s.len(),
        forall|i: int| k <= i < s.len() ==> is_space(#[trigger] s[i]),
        k == 0 || !is_space(s[k - 1]),
    ensures
        trim_end_spec(s) == s.take(k),
    decreases s.len() - k,
{
    if k == s.len() {
        assert(s.take(k) == s);
    } else {
        assert(is_space(s.last()));
        let t = s.drop_last();
        assert forall|i: int| k <= i < t.len() implies is_space(#[trigger] t[i]) by {
            assert(t[i] == s[i]);
        }
        lemma_trim_end_take(t, k);
        assert(t.take(k) == s.take(k));
    }
}

/// What is left of a sequence that is all white space is empty.
pub proof fn lemma_trim_all_space(s: Seq<char>)
    requires
        all_space(s),
    ensures
        trim_spec(s) == Seq::<char>::empty(),
{
    lemma_trim_start_skip(s, s.len() as int);
    assert(s.skip(s.len() as int) == Seq::<char>::empty());
}

/// Surrounding white space does not change what trimming leaves.
pub proof fn lemma_trim_ignores_padding(left: Seq<char>, s: Seq<char>, right: Seq<char>)
    requires
        all_space(left),
        all_space(right),
    ensures
        trim_spec(left + s + right) == trim_spec(s),
{
    lemma_trim_start_padding(left, s + right);
    assert(left + s + right == left + (s + right));
    lemma_trim_start_right_padding(s, right);
}

/// Leading white space does not change what is left without it.
pub proof fn lemma_trim_start_padding(left: Seq<char>, s: Seq<char>)
    requires
        all_space(left),
    ensures
        trim_start_spec(left + s) == trim_start_spec(s),
    decreases left.len(),
{
    if left.len() == 0 {
        assert(left + s == s);
    } else {
        assert((left + s)[0] == left[0]);
        assert((left + s).drop_first() == left.drop_first() + s);
        assert forall|i: int| 0 <= i < left.drop_first().len() implies is_space(
            #[trigger] left.drop_first()[i],
        ) by {
            assert(left.drop_first()[i] == left[i + 1]);
        }
        lemma_trim_start_padding(left.drop_first(), s);
    }
}

/// Trailing white space does not change what is left without it.
pub proof fn lemma_trim_end_padding(s: Seq<char>, right: Seq<char>)
    requires
        all_space(right),
    ensures
        trim_end_spec(s + right) == trim_end_spec(s),
    decreases right.len(),
{
    if right.len() == 0 {
        assert(s + right == s);
    } else {
        assert((s + right).last() == right.last());
        assert((s + right).drop_last() == s + right.drop_last());
        assert forall|i: int| 0 <= i < right.drop_last().len() implies is_space(
            #[trigger] right.drop_last()[i],
        ) by {
            assert(right.drop_last()[i] == right[i]);
        }
        lemma_trim_end_padding(s, right.drop_last());
    }
}

proof fn lemma_trim_start_right_padding(s: Seq<char>, right: Seq<char>)
    requires
        all_space(right),
    ensures
        trim_end_spec(trim_start_spec(s + right)) == trim_end_spec(trim_start_spec(s)),
    decreases s.len(),
{
    if s.len() > 0 && is_space(s[0]) {
        assert((s + right)[0] == s[0]);
        assert((s + right).drop_first() == s.drop_first() + right);
        lemma_trim_start_right_padding(s.drop_first(), right);
    } else if s.len() == 0 {
        assert(s + right == right);
        lemma_trim_all_space(right);
    } else {
        assert((s + right)[0] == s[0]);
        lemma_trim_end_padding(s, right);
    }
}

/// The trimmed characters of `v`.
pub fn trim_chars(v: &Vec<char>) -> (r: Vec<char>)
    ensures
        r@ == trim_spec(v@),
{
    let n = v.len();
    let mut a: usize = 0;
    while a < n && char_is_space(v[a])
        invariant
            a <= n,
            n == v.len(),
            forall|i: int| 0 <= i < a ==> is_space(#[trigger] v@[i]),
        decreases n - a,
    {
        a += 1;
    }
    let mut b: usize = n;
    while b > a && char_is_space(v[b - 1])
        invariant
            a <= b <= n,
            n == v.len(),
            forall|i: int| b <= i < n ==> is_space(#[trigger] v@[i]),
        decreases b,
    {
        b -= 1;
    }
    proof {
        lemma_trim_start_skip(v@, a as int);
        let t = v@.skip(a as int);
        assert forall|i: int| b - a <= i < t.len() implies is_space(#[trigger] t[i]) by {
            assert(t[i] == v@[i + a]);
        }
        lemma_trim_end_take(t, b - a);
        assert(t.take(b - a) == v@.subrange(a as int, b as int));
    }
    subvec(v, a, b)
}

/// The string without its surrounding white space.
pub fn trim(s: &str) -> (r: String)
    ensures
        r@ == trim_spec(s@),
{
    let v = to_chars(s);
    let t = trim_chars(&v);
    from_chars(&t)
}

/// Whether `p` stands in `v` at position `at`.
pub fn has_prefix_at(v: &Vec<char>, at: usize, p: &Vec<char>) -> (r: bool)
    requires
        at <= v.len(),
    ensures
        r == p@.is_prefix_of(v@.skip(at as int)),
{
    if p.len() > v.len() - at {
        return false;
    }
    let ghost t = v@.skip(at as int);
    let mut i: usize = 0;
    while i < p.len()
        invariant
            i <= p.len(),
            at + p.len() <= v.len(),
            t == v@.skip(at as int),
            forall|j: int| 0 <= j < i ==> p@[j] == t[j],
        decreases p.len() - i,
    {
        if v[at + i] != p[i] {
            assert(t[i as int] == v@[at + i]);
            assert(t.subrange(0, p.len() as int)[i as int] != p@[i as int]);
            return false;
        }
        assert(t[i as int] == v@[at + i]);
        i += 1;
    }
    assert(t.subrange(0, p.len() as int) =~= p@);
    true
}

/// A character with ASCII capitals folded to lower case, as a code point.
pub open spec fn ascii_fold(c: char) -> u32 {
    let n = c as u32;
    if 0x41 <= n <= 0x5A {
        (n + 32) as u32
    } else {
        n
    }
}

/// Whether two sequences are equal once ASCII capitals are folded.
pub open spec fn eq_ignore_ascii_case_spec(a: Seq<char>, b: Seq<char>) -> bool {
    a.len() == b.len() && forall|i: int|
        0 <= i < a.len() ==> ascii_fold(#[trigger] a[i]) == ascii_fold(b[i])
}

/// A character with ASCII capitals folded to lower case, as a code point.
pub fn fold_char(c: char) -> (r: u32)
    ensures
        r == ascii_fold(c),
{
    let n: u32 = c as u32;
    if 0x41 <= n && n <= 0x5A {
        n + 32
    } else {
        n
    }
}

/// Whether two strings are equal once ASCII capitals are folded.
pub fn eq_ignore_ascii_case(a: &str, b: &str) -> (r: bool)
    ensures
        r == eq_ignore_ascii_case_spec(a@, b@),
{
    let x = to_chars(a);
    let y = to_chars(b);
    if x.len() != y.len() {
        return false;
    }
    let mut i: usize = 0;
    while i < x.len()
        invariant
            i <= x.len(),
            x.len() == y.len(),
            x@ == a@,
            y@ == b@,
            forall|j: int| 0 <= j < i ==> ascii_fold(#[trigger] x@[j]) == ascii_fold(y@[j]),
        decreases x.len() - i,
    {
        if fold_char(x[i]) != fold_char(y[i]) {
            assert(ascii_fold(a@[i as int]) != ascii_fold(b@[i as int]));
            return false;
        }
        i += 1;
    }
    true
}

/// Whether `needle` occurs in `hay` as a run of consecutive characters.
pub open spec fn contains_spec(hay: Seq<char>, needle: Seq<char>) -> bool {
    exists|i: int| 0 <= i <= hay.len() && needle.is_prefix_of(#[trigger] hay.skip(i))
}

/// Whether `needle` occurs in `hay`.
pub fn contains(hay: &str, needle: &str) -> (r: bool)
    ensures
        r == contains_spec(hay@, needle@),
{
    let h = to_chars(hay);
    let n = to_chars(needle);
    let mut i: usize = 0;
    while i < h.len()
        invariant
            i <= h.len(),
            h@ == hay@,
            n@ == needle@,
            forall|j: int| 0 <= j < i ==> !n@.is_prefix_of(#[trigger] h@.skip(j)),
        decreases h.len() - i,
    {
        if has_prefix_at(&h, i, &n) {
            assert(needle@.is_prefix_of(hay@.skip(i as int)));
            return true;
        }
        i += 1;
    }
    let last = has_prefix_at(&h, i, &n);
    assert(last ==> needle@.is_prefix_of(hay@.skip(i as int)));
    last
}

/// The first `limit` characters of a sequence, or all of it if it is shorter.
pub open spec fn prefix_spec(s: Seq<char>, limit: int) -> Seq<char> {
    if s.len() <= limit {
        s
    } else {
        s.take(limit)
    }
}

/// The first `limit` characters of `v`.
pub fn prefix_chars(v: &Vec<char>, limit: usize) -> (r: Vec<char>)
    ensures
        r@ == prefix_spec(v@, limit as int),
{
    if v.len() <= limit {
        assert(v@.subrange(0, v.len() as int) == v@);
        subvec(v, 0, v.len())
    } else {
        subvec(v, 0, limit)
    }
}

} // verus!

verus! {

/// A sequence without the leading repetitions of one character.
pub open spec fn strip_char_start_spec(s: Seq<char>, c: char) -> Seq<char>
    decreases s.len(),
{
    if s.len() > 0 && s[0] == c {
        strip_char_start_spec(s.drop_first(), c)
    } else {
        s
    }
}

/// A sequence without the trailing repetitions of one character.
pub open spec fn strip_char_end_spec(s: Seq<char>, c: char) -> Seq<char>
    decreases s.len(),
{
    if s.len() > 0 && s.last() == c {
        strip_char_end_spec(s.drop_last(), c)
    } else {
        s
    }
}

/// A sequence without the repetitions of one character at either end.
pub open spec fn trim_matches_spec(s: Seq<char>, c: char) -> Seq<char> {
    strip_char_end_spec(strip_char_start_spec(s, c), c)
}

proof fn lemma_strip_char_start_skip(s: Seq<char>, c: char, k: int)
    requires
        0 <= k <= s.len(),
        forall|i: int| 0 <= i < k ==> #[trigger] s[i] == c,
        k == s.len() || s[k] != c,
    ensures
        strip_char_start_spec(s, c) == s.skip(k),
    decreases k,
{
    if k == 0 {
        assert(s.skip(0) == s);
    } else {
        assert(s[0] == c);
        let t = s.drop_first();
        assert forall|i: int| 0 <= i < k - 1 implies #[trigger] t[i] == c by {
            assert(t[i] == s[i + 1]);
        }
        lemma_strip_char_start_skip(t, c, k - 1);
        assert(t.skip(k - 1) == s.skip(k));
    }
}

proof fn lemma_strip_char_end_take(s: Seq<char>, c: char, k: int)
    requires
        0 <= k <= s.len(),
        forall|i: int| k <= i < s.len() ==> #[trigger] s[i] == c,
        k == 0 || s[k - 1] != c,
    ensures
        strip_char_end_spec(s, c) == s.take(k),
    decreases s.len() - k,
{
    if k == s.len() {
        assert(s.take(k) == s);
    } else {
        assert(s.last() == c);
        let t = s.drop_last();
        assert forall|i: int| k <= i < t.len() implies #[trigger] t[i] == c by {
            assert(t[i] == s[i]);
        }
        lemma_strip_char_end_take(t, c, k);
        assert(t.take(k) == s.take(k));
    }
}

/// The characters of `v` without the repetitions of `c` at either end.
pub fn trim_matches_chars(v: &Vec<char>, c: char) -> (r: Vec<char>)
    ensures
        r@ == trim_matches_spec(v@, c),
{
    let n = v.len();
    let mut a: usize = 0;
    while a < n && v[a] == c
        invariant
            a <= n,
            n == v.len(),
            forall|i: int| 0 <= i < a ==> #[trigger] v@[i] == c,
        decreases n - a,
    {
        a += 1;
    }
    let mut b: usize = n;
    while b > a && v[b - 1] == c
        invariant
            a <= b <= n,
            n == v.len(),
            forall|i: int| b <= i < n ==> #[trigger] v@[i] == c,
        decreases b,
    {
        b -= 1;
    }
    proof {
        lemma_strip_char_start_skip(v@, c, a as int);
        let t = v@.skip(a as int);
        assert forall|i: int| b - a <= i < t.len() implies #[trigger] t[i] == c by {
            assert(t[i] == v@[i + a]);
        }
        lemma_strip_char_end_take(t, c, b - a);
        assert(t.take(b - a) == v@.subrange(a as int, b as int));
    }
    subvec(v, a, b)
}

} // verus!

verus! {

/// The character of one decimal digit.
pub open spec fn digit_char(d: nat) -> char {
    ((0x30 + d) as u8) as char
}

/// The decimal numeral of a number, without leading zeros.
pub open spec fn decimal_spec(n: nat) -> Seq<char>
    decreases n,
{
    if n < 10 {
        seq![digit_char(n)]
    } else {
        decimal_spec(n / 10).push(digit_char(n % 10))
    }
}

/// Appends the decimal numeral of `n` to `out`.
pub fn push_decimal(out: &mut Vec<char>, n: u32)
    ensures
        final(out)@ == old(out)@ + decimal_spec(n as nat),
    decreases n,
{
    if n >= 10 {
        push_decimal(out, n / 10);
    }
    let d: u8 = (n % 10) as u8;
    let c: char = (0x30 + d) as char;
    assert(c == digit_char((n % 10) as nat));
    let ghost before = out@;
    out.push(c);
    proof {
        if n >= 10 {
            assert(out@ =~= old(out)@ + decimal_spec((n / 10) as nat).push(
                digit_char((n % 10) as nat),
            ));
        } else {
            assert(out@ =~= old(out)@ + seq![digit_char(n as nat)]);
        }
    }
}

/// The decimal numeral of `n`.
pub fn to_decimal(n: u32) -> (r: String)
    ensures
        r@ == decimal_spec(n as nat),
{
    let mut out: Vec<char> = Vec::new();
    push_decimal(&mut out, n);
    assert(out@ =~= decimal_spec(n as nat));
    from_chars(&out)
}

/// Whether `p` stands at the start of `s`, ASCII case ignored.
pub open spec fn prefix_ignoring_case(s: Seq<char>, p: Seq<char>) -> bool {
    p.len() <= s.len() && forall|i: int|
        0 <= i < p.len() ==> ascii_fold(#[trigger] s[i]) == ascii_fold(p[i])
}

/// Whether `p` stands in `v` at position `at`, ASCII case ignored.
pub fn has_prefix_ignoring_case_at(v: &Vec<char>, at: usize, p: &Vec<char>) -> (r: bool)
    requires
        at <= v.len(),
    ensures
        r == prefix_ignoring_case(v@.skip(at as int), p@),
{
    if p.len() > v.len() - at {
        return false;
    }
    let ghost t = v@.skip(at as int);
    let mut i: usize = 0;
    while i < p.len()
        invariant
            i <= p.len(),
            at + p.len() <= v.len(),
            t == v@.skip(at as int),
            forall|j: int| 0 <= j < i ==> ascii_fold(#[trigger] t[j]) == ascii_fold(p@[j]),
        decreases p.len() - i,
    {
        assert(t[i as int] == v@[at + i]);
        if fold_char(v[at + i]) != fold_char(p[i]) {
            return false;
        }
        i += 1;
    }
    true
}

/// Whether every character of the sequence is an ASCII character.
pub open spec fn is_ascii_text(s: Seq<char>) -> bool {
    forall|i: int| 0 <= i < s.len() ==> (#[trigger] s[i]) as u32 <= 0x7F
}

/// An ASCII capital as its small letter; any other character as it is.
pub open spec fn ascii_lower(c: char) -> char {
    if 0x41 <= c as u32 <= 0x5A {
        ((c as u32 + 32) as u8) as char
    } else {
        c
    }
}

/// A sequence with its ASCII capitals as small letters.
pub open spec fn ascii_lower_text(s: Seq<char>) -> Seq<char> {
    Seq::new(s.len(), |i: int| ascii_lower(s[i]))
}

/// A text in lower case. The capitals of a text of ASCII characters are
/// folded here; a text with other characters is lower-cased as the
/// standard library does it, under the name [`lowercase`].
pub open spec fn lower_spec(s: Seq<char>) -> Seq<char> {
    if is_ascii_text(s) {
        ascii_lower_text(s)
    } else {
        lowercase(s)
    }
}

/// The text in lower case.
pub fn lower(text: &str) -> (r: String)
    ensures
        r@ == lower_spec(text@),
{
    let chars = to_chars(text);
    let mut out: Vec<char> = Vec::new();
    let mut i: usize = 0;
    while i < chars.len()
        invariant
            i <= chars.len(),
            chars@ == text@,
            is_ascii_text(chars@.take(i as int)),
            out@ == ascii_lower_text(chars@.take(i as int)),
        decreases chars.len() - i,
    {
        let c = chars[i];
        let n: u32 = c as u32;
        if n > 0x7F {
            assert(!is_ascii_text(text@)) by {
                assert(text@[i as int] as u32 > 0x7F);
            }
            return to_lowercase(text);
        }
        let small: char = if 0x41 <= n && n <= 0x5A {
            ((n + 32) as u8) as char
        } else {
            c
        };
        out.push(small);
        assert(chars@.take(i + 1) =~= chars@.take(i as int).push(c));
        assert(out@ =~= ascii_lower_text(chars@.take(i + 1)));
        i += 1;
    }
    assert(chars@.take(chars.len() as int) == chars@);
    from_chars(&out)
}

/// Two ASCII texts that are equal up to the case of their letters are the
/// same text in lower case.
pub proof fn lemma_lower_ignores_ascii_case(a: Seq<char>, b: Seq<char>)
    requires
        is_ascii_text(a),
        is_ascii_text(b),
        eq_ignore_ascii_case_spec(a, b),
    ensures
        lower_spec(a) == lower_spec(b),
{
    assert forall|i: int| 0 <= i < a.len() implies ascii_lower(a[i]) == ascii_lower(b[i]) by {
        assert(ascii_fold(a[i]) == ascii_fold(b[i]));
        lemma_fold_is_lower(a[i]);
        lemma_fold_is_lower(b[i]);
    }
    assert(ascii_lower_text(a) =~= ascii_lower_text(b));
}

/// Whether a text is ASCII text without capitals.
pub open spec fn is_lower_ascii(s: Seq<char>) -> bool {
    forall|i: int| 0 <= i < s.len() ==> (#[trigger] s[i]) as u32 <= 0x7F && !(0x41 <= s[i] as u32
        <= 0x5A)
}

/// A text in lower case is a given ASCII text without capitals where it is
/// that text up to the case of its ASCII letters; for an ASCII text, only
/// there.
pub proof fn lemma_lower_finds_ascii(a: Seq<char>, b: Seq<char>)
    requires
        is_lower_ascii(b),
    ensures
        eq_ignore_ascii_case_spec(a, b) ==> lower_spec(a) == b,
        is_ascii_text(a) && lower_spec(a) == b ==> eq_ignore_ascii_case_spec(a, b),
{
    if eq_ignore_ascii_case_spec(a, b) {
        assert forall|i: int| 0 <= i < a.len() implies (#[trigger] a[i]) as u32 <= 0x7F
            && ascii_lower(a[i]) == b[i] by {
            assert(ascii_fold(a[i]) == ascii_fold(b[i]));
            assert(b[i] as u32 <= 0x7F);
            lemma_fold_is_lower(a[i]);
            lemma_fold_is_lower(b[i]);
        }
        assert(ascii_lower_text(a) =~= b);
    }
    if is_ascii_text(a) && lower_spec(a) == b {
        assert forall|i: int| 0 <= i < a.len() implies ascii_fold(#[trigger] a[i]) == ascii_fold(
            b[i],
        ) by {
            assert(ascii_lower_text(a)[i] == ascii_lower(a[i]));
            assert(b[i] as u32 <= 0x7F);
            lemma_fold_is_lower(a[i]);
            lemma_fold_is_lower(b[i]);
        }
    }
}

/// The fold of an ASCII character is the code point of its small letter.
pub proof fn lemma_fold_is_lower(c: char)
    requires
        c as u32 <= 0x7F,
    ensures
        ascii_lower(c) as u32 == ascii_fold(c),
{
}

/// Characters with one fold are both white space or both none: the two
/// cases of a letter are no white space.
pub proof fn lemma_fold_keeps_space(x: char, y: char)
    requires
        ascii_fold(x) == ascii_fold(y),
    ensures
        is_space(x) == is_space(y),
{
}

} // verus!
