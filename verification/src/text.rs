//! Text primitives: the string operations the rest of the library is stated
//! over, each with its meaning on character sequences.
use vstd::prelude::*;
use vstd::utf8::{decode_utf8, valid_utf8};

verus! {

/// Appends one character (`String::push`): the contents gain that character at
/// the end and nothing else changes.
pub assume_specification[ String::push ](s: &mut String, c: char)
    ensures
        final(s)@ == old(s)@.push(c),
;

/// The contents of a list of strings.
pub open spec fn texts(items: Seq<String>) -> Seq<Seq<char>> {
    Seq::new(items.len(), |i: int| items[i]@)
}

/// The contents of an optional text.
pub open spec fn contents(s: Option<String>) -> Option<Seq<char>> {
    match s {
        Some(t) => Some(t@),
        None => None,
    }
}

/// The contents of an optional borrowed text.
pub open spec fn contents_ref(s: Option<&str>) -> Option<Seq<char>> {
    match s {
        Some(t) => Some(t@),
        None => None,
    }
}

/// A copy of an optional text.
pub fn copy_option(s: &Option<String>) -> (r: Option<String>)
    ensures
        r == *s,
{
    match s {
        Some(t) => Some(t.clone()),
        None => None,
    }
}

/// Whether two texts hold the same characters.
pub fn text_eq(a: &str, b: &str) -> (r: bool)
    ensures
        r == (a@ == b@),
{
    a.to_owned() == b.to_owned()
}

/// The characters of a text, in order.
pub fn chars_of(s: &str) -> (r: Vec<char>)
    ensures
        r@ == s@,
{
    let mut out: Vec<char> = Vec::new();
    for c in it: s.chars()
        invariant
            it.seq() == s@,
            out@ == s@.take(it.index()),
    {
        assert(s@.take(it.index() + 1) =~= s@.take(it.index()).push(s@[it.index()]));
        out.push(c);
    }
    assert(s@.take(s@.len() as int) =~= s@);
    out
}

/// The text made of the characters from `from` up to, and without, `to`.
pub fn text_between(chars: &Vec<char>, from: usize, to: usize) -> (r: String)
    requires
        from <= to <= chars@.len(),
    ensures
        r@ == chars@.subrange(from as int, to as int),
{
    let mut out = String::new();
    let mut i: usize = from;
    while i < to
        invariant
            from <= i <= to <= chars@.len(),
            out@ == chars@.subrange(from as int, i as int),
        decreases to - i,
    {
        out.push(chars[i]);
        i = i + 1;
        assert(chars@.subrange(from as int, i as int) =~= chars@.subrange(
            from as int,
            i - 1,
        ).push(chars@[i - 1]));
    }
    out
}

// ---------------------------------------------------------------------------
// White space and trimming
// ---------------------------------------------------------------------------

/// The characters with the Unicode `White_Space` property.
pub open spec fn white_space(c: char) -> bool {
    ||| '\u{9}' <= c <= '\u{d}'
    ||| c == '\u{20}'
    ||| c == '\u{85}'
    ||| c == '\u{a0}'
    ||| c == '\u{1680}'
    ||| '\u{2000}' <= c <= '\u{200a}'
    ||| c == '\u{2028}'
    ||| c == '\u{2029}'
    ||| c == '\u{202f}'
    ||| c == '\u{205f}'
    ||| c == '\u{3000}'
}

/// Whether a character is Unicode white space.
pub fn is_white_space(c: char) -> (r: bool)
    ensures
        r == white_space(c),
{
    ('\u{9}' <= c && c <= '\u{d}') || c == '\u{20}' || c == '\u{85}' || c == '\u{a0}' || c
        == '\u{1680}' || ('\u{2000}' <= c && c <= '\u{200a}') || c == '\u{2028}' || c == '\u{2029}'
        || c == '\u{202f}' || c == '\u{205f}' || c == '\u{3000}'
}

/// A text without its leading white space.
pub open spec fn trimmed_start(s: Seq<char>) -> Seq<char>
    decreases s.len(),
{
    if s.len() > 0 && white_space(s[0]) {
        trimmed_start(s.subrange(1, s.len() as int))
    } else {
        s
    }
}

/// A text without its trailing white space.
pub open spec fn trimmed_end(s: Seq<char>) -> Seq<char>
    decreases s.len(),
{
    if s.len() > 0 && white_space(s[s.len() - 1]) {
        trimmed_end(s.subrange(0, s.len() - 1))
    } else {
        s
    }
}

/// A text without its leading and trailing white space.
pub open spec fn trimmed(s: Seq<char>) -> Seq<char> {
    trimmed_end(trimmed_start(s))
}

/// A text that holds nothing but white space.
pub open spec fn blank(s: Seq<char>) -> bool {
    forall|i: int| 0 <= i < s.len() ==> white_space(#[trigger] s[i])
}

proof fn lemma_trimmed_start(s: Seq<char>, k: int)
    requires
        0 <= k <= s.len(),
        forall|i: int| 0 <= i < k ==> white_space(#[trigger] s[i]),
        k < s.len() ==> !white_space(s[k]),
    ensures
        trimmed_start(s) == s.subrange(k, s.len() as int),
    decreases k,
{
    if k == 0 {
        assert(s.subrange(0, s.len() as int) =~= s);
    } else {
        let t = s.subrange(1, s.len() as int);
        assert(forall|i: int| 0 <= i < k - 1 ==> #[trigger] t[i] == s[i + 1]);
        if k < s.len() {
            assert(t[k - 1] == s[k]);
        }
        assert(white_space(s[0]));
        lemma_trimmed_start(t, k - 1);
        assert(t.subrange(k - 1, t.len() as int) =~= s.subrange(k, s.len() as int));
    }
}

proof fn lemma_trimmed_end(s: Seq<char>, k: int)
    requires
        0 <= k <= s.len(),
        forall|i: int| k <= i < s.len() ==> white_space(#[trigger] s[i]),
        k > 0 ==> !white_space(s[k - 1]),
    ensures
        trimmed_end(s) == s.subrange(0, k),
    decreases s.len() - k,
{
    if k == s.len() {
        assert(s.subrange(0, k) =~= s);
    } else {
        let t = s.subrange(0, s.len() - 1);
        assert(white_space(s[s.len() - 1]));
        lemma_trimmed_end(t, k);
        assert(t.subrange(0, k) =~= s.subrange(0, k));
    }
}

/// Trimming leaves nothing exactly of a text that is all white space.
pub proof fn lemma_trimmed_blank(s: Seq<char>)
    ensures
        trimmed(s).len() == 0 <==> blank(s),
    decreases s.len(),
{
    if s.len() > 0 && white_space(s[0]) {
        let t = s.subrange(1, s.len() as int);
        lemma_trimmed_blank(t);
        assert(blank(t) ==> blank(s)) by {
            if blank(t) {
                assert forall|i: int| 0 <= i < s.len() implies white_space(#[trigger] s[i]) by {
                    if i > 0 {
                        assert(s[i] == t[i - 1]);
                    }
                }
            }
        }
        assert(blank(s) ==> blank(t));
    } else if s.len() > 0 {
        lemma_trimmed_end_keeps(s);
    }
}

proof fn lemma_trimmed_end_keeps(s: Seq<char>)
    requires
        s.len() > 0,
        !white_space(s[0]),
    ensures
        trimmed_end(s).len() > 0,
        trimmed_end(s)[0] == s[0],
    decreases s.len(),
{
    if white_space(s[s.len() - 1]) {
        lemma_trimmed_end_keeps(s.subrange(0, s.len() - 1));
    }
}

proof fn lemma_trimmed_end_shape(s: Seq<char>)
    ensures
        trimmed_end(s).len() <= s.len(),
        trimmed_end(s) == s.subrange(0, trimmed_end(s).len() as int),
        trimmed_end(s).len() > 0 ==> !white_space(trimmed_end(s)[trimmed_end(s).len() - 1]),
    decreases s.len(),
{
    if s.len() > 0 && white_space(s[s.len() - 1]) {
        let t = s.subrange(0, s.len() - 1);
        lemma_trimmed_end_shape(t);
        assert(t.subrange(0, trimmed_end(t).len() as int) =~= s.subrange(
            0,
            trimmed_end(t).len() as int,
        ));
    } else {
        assert(s.subrange(0, s.len() as int) =~= s);
    }
}

proof fn lemma_trimmed_start_head(s: Seq<char>)
    ensures
        trimmed_start(s).len() > 0 ==> !white_space(trimmed_start(s)[0]),
    decreases s.len(),
{
    if s.len() > 0 && white_space(s[0]) {
        lemma_trimmed_start_head(s.subrange(1, s.len() as int));
    }
}

/// A text that neither begins nor ends with white space is its own trimming.
pub proof fn lemma_trimmed_id(s: Seq<char>)
    requires
        s.len() > 0 ==> !white_space(s[0]) && !white_space(s[s.len() - 1]),
    ensures
        trimmed(s) == s,
{
}

/// What trimming leaves neither begins nor ends with white space.
pub proof fn lemma_trimmed_ends(s: Seq<char>)
    ensures
        trimmed(s).len() > 0 ==> !white_space(trimmed(s)[0]) && !white_space(
            trimmed(s)[trimmed(s).len() - 1],
        ),
{
    let t = trimmed_start(s);
    lemma_trimmed_start_head(s);
    lemma_trimmed_end_shape(t);
}

/// Trimming a trimmed text changes nothing.
pub proof fn law_trim_is_idempotent(s: Seq<char>)
    ensures
        trimmed(trimmed(s)) == trimmed(s),
{
    lemma_trimmed_ends(s);
    lemma_trimmed_id(trimmed(s));
}

/// The text without its leading and trailing white space.
pub fn trim(s: &str) -> (r: String)
    ensures
        r@ == trimmed(s@),
{
    let chars = chars_of(s);
    let n: usize = chars.len();
    let mut a: usize = 0;
    while a < n && is_white_space(chars[a])
        invariant
            a <= n == chars@.len(),
            forall|i: int| 0 <= i < a ==> white_space(#[trigger] chars@[i]),
        decreases n - a,
    {
        a = a + 1;
    }
    let mut b: usize = n;
    while b > a && is_white_space(chars[b - 1])
        invariant
            a <= b <= n == chars@.len(),
            forall|i: int| b <= i < n ==> white_space(#[trigger] chars@[i]),
        decreases b,
    {
        b = b - 1;
    }
    proof {
        lemma_trimmed_start(s@, a as int);
        let t = s@.subrange(a as int, n as int);
        assert(forall|i: int| b - a <= i < t.len() ==> #[trigger] t[i] == s@[a + i]);
        if b > a {
            assert(t[b - a - 1] == s@[b - 1]);
        }
        lemma_trimmed_end(t, b - a);
        assert(t.subrange(0, b - a) =~= s@.subrange(a as int, b as int));
    }
    text_between(&chars, a, b)
}

/// Whether a text holds nothing but white space.
pub fn is_blank(s: &str) -> (r: bool)
    ensures
        r == blank(s@),
        r == (trimmed(s@).len() == 0),
{
    proof {
        lemma_trimmed_blank(s@);
    }
    let t = trim(s);
    t.as_str().is_empty()
}

// ---------------------------------------------------------------------------
// Letters
// ---------------------------------------------------------------------------

/// The characters of the ASCII range.
pub open spec fn ascii(c: char) -> bool {
    c <= '\u{7f}'
}

/// A text of ASCII characters only.
pub open spec fn ascii_text(s: Seq<char>) -> bool {
    forall|i: int| 0 <= i < s.len() ==> ascii(#[trigger] s[i])
}

/// An ASCII character with a capital letter made small.
pub open spec fn ascii_lower(c: char) -> char {
    if 'A' <= c <= 'Z' {
        (c as u32 + 32) as char
    } else {
        c
    }
}

/// The lowercase of a text that is not all ASCII, as `str::to_lowercase` returns it.
pub uninterp spec fn lowercased_beyond_ascii(s: Seq<char>) -> Seq<char>;

/// The lowercase of a text.
pub open spec fn lowercased(s: Seq<char>) -> Seq<char> {
    if ascii_text(s) {
        Seq::new(s.len(), |i: int| ascii_lower(s[i]))
    } else {
        lowercased_beyond_ascii(s)
    }
}

/// The lowercase of a text (`str::to_lowercase`): a function of the text alone,
/// which on ASCII text makes each capital letter small and keeps every other
/// character. What it is beyond ASCII, the Unicode tables say.
pub assume_specification[ str::to_lowercase ](s: &str) -> (r: String)
    ensures
        r@ == lowercased(s@),
        !ascii_text(s@) ==> r@ == lowercased_beyond_ascii(s@),
;

/// Whether a character beyond ASCII is a letter or a number, as
/// `char::is_alphanumeric` returns it.
pub uninterp spec fn alphanumeric_beyond_ascii(c: char) -> bool;

/// Whether a character is a letter or a number.
pub open spec fn alphanumeric(c: char) -> bool {
    if ascii(c) {
        'a' <= c <= 'z' || 'A' <= c <= 'Z' || '0' <= c <= '9'
    } else {
        alphanumeric_beyond_ascii(c)
    }
}

/// Whether a character is a letter or a number (`char::is_alphanumeric`): a
/// function of the character alone, which in the ASCII range is true of the
/// letters and the ten digits only.
pub assume_specification[ char::is_alphanumeric ](c: char) -> (r: bool)
    ensures
        r == alphanumeric(c),
        !ascii(c) ==> r == alphanumeric_beyond_ascii(c),
;

/// Small letters stay as they are: the lowercase of ASCII text is its own lowercase,
/// is ASCII, and has no capital letter.
pub proof fn law_lowercase_is_idempotent(s: Seq<char>)
    requires
        ascii_text(s),
    ensures
        ascii_text(lowercased(s)),
        lowercased(s).len() == s.len(),
        forall|i: int| 0 <= i < s.len() ==> !('A' <= #[trigger] lowercased(s)[i] <= 'Z'),
        lowercased(lowercased(s)) == lowercased(s),
{
    let l = lowercased(s);
    assert forall|i: int| 0 <= i < l.len() implies ascii(#[trigger] l[i]) && !('A' <= l[i]
        <= 'Z') by {
        assert(ascii(s[i]));
    }
    assert(lowercased(l) =~= l);
}

/// Trimming keeps a part of the text.
pub proof fn lemma_trimmed_part(s: Seq<char>)
    ensures
        exists|a: int, b: int|
            0 <= a <= b <= s.len() && trimmed(s) == #[trigger] s.subrange(a, b) && (forall|i: int|
                0 <= i < a || b <= i < s.len() ==> white_space(#[trigger] s[i])),
    decreases s.len(),
{
    if s.len() > 0 && white_space(s[0]) {
        let t = s.subrange(1, s.len() as int);
        lemma_trimmed_part(t);
        let (a, b) = choose|a: int, b: int|
            0 <= a <= b <= t.len() && trimmed(t) == #[trigger] t.subrange(a, b) && (forall|i: int|
                0 <= i < a || b <= i < t.len() ==> white_space(#[trigger] t[i]));
        assert(t.subrange(a, b) =~= s.subrange(a + 1, b + 1));
        assert forall|i: int| 0 <= i < a + 1 || b + 1 <= i < s.len() implies white_space(
            #[trigger] s[i],
        ) by {
            if i > 0 {
                assert(s[i] == t[i - 1]);
            }
        }
    } else {
        lemma_trimmed_tail(s);
    }
}

proof fn lemma_trimmed_tail(s: Seq<char>)
    ensures
        trimmed_end(s).len() <= s.len(),
        trimmed_end(s) == s.subrange(0, trimmed_end(s).len() as int),
        forall|i: int| trimmed_end(s).len() <= i < s.len() ==> white_space(#[trigger] s[i]),
    decreases s.len(),
{
    lemma_trimmed_end_shape(s);
    if s.len() > 0 && white_space(s[s.len() - 1]) {
        let t = s.subrange(0, s.len() - 1);
        lemma_trimmed_tail(t);
        assert forall|i: int| trimmed_end(s).len() <= i < s.len() implies white_space(
            #[trigger] s[i],
        ) by {
            if i < s.len() - 1 {
                assert(s[i] == t[i]);
            }
        }
    }
}

// ---------------------------------------------------------------------------
// Searching and taking apart
// ---------------------------------------------------------------------------

/// Whether `pat` stands in `s` at position `i`.
pub open spec fn stands_at(s: Seq<char>, pat: Seq<char>, i: int) -> bool {
    0 <= i && i + pat.len() <= s.len() && s.subrange(i, i + pat.len()) == pat
}

/// Whether `pat` occurs somewhere in `s`.
pub open spec fn occurs(s: Seq<char>, pat: Seq<char>) -> bool {
    exists|i: int| stands_at(s, pat, i)
}

fn matches_at(s: &Vec<char>, pat: &Vec<char>, at: usize) -> (r: bool)
    requires
        at <= s@.len(),
    ensures
        r == stands_at(s@, pat@, at as int),
{
    if pat.len() > s.len() - at {
        return false;
    }
    let mut j: usize = 0;
    while j < pat.len()
        invariant
            j <= pat@.len(),
            at + pat.len() <= s.len(),
            forall|k: int| 0 <= k < j ==> #[trigger] pat@[k] == s@[at + k],
        decreases pat.len() - j,
    {
        if pat[j] != s[at + j] {
            assert(s@.subrange(at as int, at + pat@.len())[j as int] != pat@[j as int]);
            return false;
        }
        j = j + 1;
    }
    assert(s@.subrange(at as int, at + pat@.len()) =~= pat@);
    true
}

/// Whether `pat` occurs somewhere in `s`.
pub fn contains(s: &str, pat: &str) -> (r: bool)
    ensures
        r == occurs(s@, pat@),
{
    let cs = chars_of(s);
    let ps = chars_of(pat);
    let mut i: usize = 0;
    while i < cs.len()
        invariant
            i <= cs@.len(),
            cs@ == s@,
            ps@ == pat@,
            forall|k: int| 0 <= k < i ==> !#[trigger] stands_at(s@, pat@, k),
        decreases cs.len() - i,
    {
        if matches_at(&cs, &ps, i) {
            return true;
        }
        i = i + 1;
    }
    matches_at(&cs, &ps, i)
}

/// Whether `s` begins with `pat`.
pub open spec fn begins_with(s: Seq<char>, pat: Seq<char>) -> bool {
    stands_at(s, pat, 0)
}

/// Whether `s` begins with `pat`.
pub fn starts_with(s: &str, pat: &str) -> (r: bool)
    ensures
        r == begins_with(s@, pat@),
{
    let cs = chars_of(s);
    let ps = chars_of(pat);
    matches_at(&cs, &ps, 0)
}

/// What follows the prefix `pat` in `s`; nothing when `s` begins otherwise.
pub open spec fn after_prefix(s: Seq<char>, pat: Seq<char>) -> Option<Seq<char>> {
    if begins_with(s, pat) {
        Some(s.subrange(pat.len() as int, s.len() as int))
    } else {
        None
    }
}

/// What follows the prefix `pat` in `s`.
pub fn strip_prefix(s: &str, pat: &str) -> (r: Option<String>)
    ensures
        match r {
            Some(t) => after_prefix(s@, pat@) == Some(t@),
            None => after_prefix(s@, pat@) is None,
        },
{
    let cs = chars_of(s);
    let ps = chars_of(pat);
    if matches_at(&cs, &ps, 0) {
        Some(text_between(&cs, ps.len(), cs.len()))
    } else {
        None
    }
}

/// The position of the first `c` in `s`, or the length of `s` without one.
pub open spec fn first_of(s: Seq<char>, c: char) -> int
    decreases s.len(),
{
    if s.len() == 0 || s[0] == c {
        0
    } else {
        1 + first_of(s.subrange(1, s.len() as int), c)
    }
}

/// `first_of` is the least position that holds `c`.
pub proof fn lemma_first_of(s: Seq<char>, c: char)
    ensures
        0 <= first_of(s, c) <= s.len(),
        first_of(s, c) < s.len() ==> s[first_of(s, c)] == c,
        forall|i: int| 0 <= i < first_of(s, c) ==> #[trigger] s[i] != c,
    decreases s.len(),
{
    if s.len() > 0 && s[0] != c {
        let t = s.subrange(1, s.len() as int);
        lemma_first_of(t, c);
        assert forall|i: int| 0 <= i < first_of(s, c) implies #[trigger] s[i] != c by {
            if i > 0 {
                assert(s[i] == t[i - 1]);
            }
        }
    }
}

/// A least position that holds `c` is `first_of`.
pub proof fn lemma_first_of_unique(s: Seq<char>, c: char, k: int)
    requires
        0 <= k <= s.len(),
        k < s.len() ==> s[k] == c,
        forall|i: int| 0 <= i < k ==> #[trigger] s[i] != c,
    ensures
        first_of(s, c) == k,
{
    lemma_first_of(s, c);
    let f = first_of(s, c);
    if f < k {
        assert(s[f] != c);
    } else if k < f {
        assert(s[k] != c);
    }
}

fn find_from(chars: &Vec<char>, c: char, from: usize) -> (r: usize)
    requires
        from <= chars@.len(),
    ensures
        from <= r <= chars@.len(),
        r - from == first_of(chars@.subrange(from as int, chars@.len() as int), c),
{
    let mut i: usize = from;
    while i < chars.len() && chars[i] != c
        invariant
            from <= i <= chars@.len(),
            forall|k: int| from <= k < i ==> #[trigger] chars@[k] != c,
        decreases chars.len() - i,
    {
        i = i + 1;
    }
    proof {
        let t = chars@.subrange(from as int, chars@.len() as int);
        assert(forall|k: int| 0 <= k < i - from ==> #[trigger] t[k] == chars@[from + k]);
        lemma_first_of_unique(t, c, i - from);
    }
    i
}

/// The two parts of `s` around its first `c`; nothing when `s` holds no `c`.
pub open spec fn parted_once(s: Seq<char>, c: char) -> Option<(Seq<char>, Seq<char>)> {
    let k = first_of(s, c);
    if k < s.len() {
        Some((s.subrange(0, k), s.subrange(k + 1, s.len() as int)))
    } else {
        None
    }
}

/// The two parts of `s` around its first `c`.
pub fn split_once(s: &str, c: char) -> (r: Option<(String, String)>)
    ensures
        match r {
            Some(p) => parted_once(s@, c) == Some((p.0@, p.1@)),
            None => parted_once(s@, c) is None,
        },
{
    let cs = chars_of(s);
    let k: usize = find_from(&cs, c, 0);
    assert(cs@.subrange(0, cs@.len() as int) =~= s@);
    if k < cs.len() {
        Some((text_between(&cs, 0, k), text_between(&cs, k + 1, cs.len())))
    } else {
        None
    }
}

/// The pieces of `s` between its separators `c`: one piece more than there are
/// separators.
pub open spec fn pieces(s: Seq<char>, c: char) -> Seq<Seq<char>>
    decreases s.len(),
{
    let k = first_of(s, c);
    if 0 <= k < s.len() {
        seq![s.subrange(0, k)] + pieces(s.subrange(k + 1, s.len() as int), c)
    } else {
        seq![s]
    }
}

/// The pieces of `s` between its separators `c`.
pub fn split(s: &str, c: char) -> (r: Vec<String>)
    ensures
        texts(r@) == pieces(s@, c),
{
    let cs = chars_of(s);
    let mut out: Vec<String> = Vec::new();
    let mut from: usize = 0;
    assert(cs@.subrange(0, cs@.len() as int) =~= s@);
    assert(texts(out@) + pieces(s@, c) =~= pieces(s@, c));
    loop
        invariant
            from <= cs@.len(),
            cs@ == s@,
            texts(out@) + pieces(cs@.subrange(from as int, cs@.len() as int), c) == pieces(s@, c),
        decreases cs.len() - from,
    {
        let k: usize = find_from(&cs, c, from);
        let ghost rest = cs@.subrange(from as int, cs@.len() as int);
        let ghost before = texts(out@);
        let part = text_between(&cs, from, k);
        let ghost p = part@;
        out.push(part);
        assert(texts(out@) =~= before.push(p));
        assert(rest.subrange(0, k - from) =~= p);
        if k == cs.len() {
            assert(p =~= rest);
            assert(texts(out@) =~= before + seq![rest]);
            return out;
        }
        assert(rest.subrange(k - from + 1, rest.len() as int) =~= cs@.subrange(
            k + 1,
            cs@.len() as int,
        ));
        assert(texts(out@) + pieces(cs@.subrange(k + 1, cs@.len() as int), c) =~= before + (seq![p]
            + pieces(cs@.subrange(k + 1, cs@.len() as int), c)));
        from = k + 1;
    }
}

// ---------------------------------------------------------------------------
// Lists of texts
// ---------------------------------------------------------------------------

/// The texts one after another with `sep` between neighbours.
pub open spec fn joined(items: Seq<Seq<char>>, sep: Seq<char>) -> Seq<char>
    decreases items.len(),
{
    if items.len() == 0 {
        Seq::empty()
    } else if items.len() == 1 {
        items[0]
    } else {
        joined(items.drop_last(), sep) + sep + items.last()
    }
}

/// The texts one after another with `sep` between neighbours.
pub fn join(items: &Vec<String>, sep: &str) -> (r: String)
    ensures
        r@ == joined(texts(items@), sep@),
{
    let mut out = String::new();
    let mut i: usize = 0;
    while i < items.len()
        invariant
            i <= items@.len(),
            out@ == joined(texts(items@.take(i as int)), sep@),
        decreases items.len() - i,
    {
        let ghost prev = texts(items@.take(i as int));
        let ghost next = texts(items@.take(i + 1));
        assert(next.drop_last() =~= prev);
        assert(next.last() == items@[i as int]@);
        if i > 0 {
            out.append(sep);
            out.append(items[i].as_str());
        } else {
            out.append(items[i].as_str());
            assert(next[0] == items@[0]@);
            assert(out@ =~= items@[0]@);
        }
        i = i + 1;
    }
    assert(items@.take(items@.len() as int) =~= items@);
    out
}

/// Whether a list holds the text `s`.
pub fn list_contains(items: &Vec<String>, s: &str) -> (r: bool)
    ensures
        r == texts(items@).contains(s@),
{
    let mut i: usize = 0;
    while i < items.len()
        invariant
            i <= items@.len(),
            forall|k: int| 0 <= k < i ==> (#[trigger] items@[k])@ != s@,
        decreases items.len() - i,
    {
        if text_eq(items[i].as_str(), s) {
            assert(texts(items@)[i as int] == s@);
            return true;
        }
        i = i + 1;
    }
    assert forall|k: int| 0 <= k < texts(items@).len() implies texts(items@)[k] != s@ by {
        assert(items@[k]@ != s@);
    }
    false
}

/// One more of a list of texts.
pub proof fn lemma_take_more(s: Seq<Seq<char>>, i: int)
    requires
        0 <= i < s.len(),
    ensures
        forall|k: Seq<char>| #[trigger]
            s.take(i + 1).contains(k) <==> s.take(i).contains(k) || k == s[i],
{
    let some = s.take(i);
    let more = s.take(i + 1);
    assert forall|k: Seq<char>| #[trigger]
        more.contains(k) <==> some.contains(k) || k == s[i] by {
        if more.contains(k) {
            let j = choose|j: int| 0 <= j < more.len() && more[j] == k;
            if j < i {
                assert(some[j] == k);
            }
        }
        if some.contains(k) {
            let j = choose|j: int| 0 <= j < some.len() && some[j] == k;
            assert(more[j] == k);
        }
        if k == s[i] {
            assert(more[i] == k);
        }
    }
}

/// A copy of a list of texts.
pub fn copy_texts(items: &Vec<String>) -> (r: Vec<String>)
    ensures
        texts(r@) == texts(items@),
        r@ == items@,
{
    let mut out: Vec<String> = Vec::new();
    let mut i: usize = 0;
    while i < items.len()
        invariant
            i <= items@.len(),
            out@ == items@.take(i as int),
        decreases items.len() - i,
    {
        out.push(items[i].clone());
        i = i + 1;
        assert(items@.take(i as int) =~= items@.take(i - 1).push(items@[i - 1]));
    }
    assert(items@.take(items@.len() as int) =~= items@);
    out
}

// ---------------------------------------------------------------------------
// Order
// ---------------------------------------------------------------------------

/// Dictionary order on texts by character value.
pub open spec fn before(a: Seq<char>, b: Seq<char>) -> bool
    decreases a.len(),
{
    if b.len() == 0 {
        false
    } else if a.len() == 0 {
        true
    } else if a[0] == b[0] {
        before(a.subrange(1, a.len() as int), b.subrange(1, b.len() as int))
    } else {
        a[0] < b[0]
    }
}

proof fn lemma_before_at(a: Seq<char>, b: Seq<char>, k: int)
    requires
        0 <= k <= a.len(),
        k <= b.len(),
        forall|i: int| 0 <= i < k ==> #[trigger] a[i] == b[i],
    ensures
        k == b.len() ==> !before(a, b),
        k < b.len() && k == a.len() ==> before(a, b),
        k < a.len() && k < b.len() && a[k] != b[k] ==> before(a, b) == (a[k] < b[k]),
    decreases k,
{
    if k > 0 {
        let a1 = a.subrange(1, a.len() as int);
        let b1 = b.subrange(1, b.len() as int);
        assert(a[0] == b[0]);
        assert forall|i: int| 0 <= i < k - 1 implies #[trigger] a1[i] == b1[i] by {
            assert(a[i + 1] == b[i + 1]);
        }
        lemma_before_at(a1, b1, k - 1);
    }
}

/// Whether `a` comes before `b` in dictionary order.
pub fn text_before(a: &str, b: &str) -> (r: bool)
    ensures
        r == before(a@, b@),
{
    let x = chars_of(a);
    let y = chars_of(b);
    let mut i: usize = 0;
    while i < x.len() && i < y.len() && x[i] == y[i]
        invariant
            i <= x@.len(),
            i <= y@.len(),
            forall|k: int| 0 <= k < i ==> #[trigger] x@[k] == y@[k],
        decreases x.len() - i,
    {
        i = i + 1;
    }
    proof {
        lemma_before_at(x@, y@, i as int);
    }
    if i == y.len() {
        false
    } else if i == x.len() {
        true
    } else {
        x[i] < y[i]
    }
}

/// Dictionary order is irreflexive.
pub proof fn lemma_before_irreflexive(a: Seq<char>)
    ensures
        !before(a, a),
    decreases a.len(),
{
    if a.len() > 0 {
        lemma_before_irreflexive(a.subrange(1, a.len() as int));
    }
}

/// Of two different texts one comes before the other.
pub proof fn lemma_before_total(a: Seq<char>, b: Seq<char>)
    ensures
        before(a, b) || before(b, a) || a == b,
    decreases a.len(),
{
    if a.len() == 0 || b.len() == 0 {
        if a.len() == 0 && b.len() == 0 {
            assert(a =~= b);
        }
    } else if a[0] == b[0] {
        let a1 = a.subrange(1, a.len() as int);
        let b1 = b.subrange(1, b.len() as int);
        lemma_before_total(a1, b1);
        if a1 == b1 {
            assert(a =~= seq![a[0]] + a1);
            assert(b =~= seq![b[0]] + b1);
        }
    }
}

/// Dictionary order is transitive.
pub proof fn lemma_before_transitive(a: Seq<char>, b: Seq<char>, c: Seq<char>)
    requires
        before(a, b),
        before(b, c),
    ensures
        before(a, c),
    decreases a.len(),
{
    if a.len() > 0 && b.len() > 0 && c.len() > 0 && a[0] == b[0] && b[0] == c[0] {
        lemma_before_transitive(
            a.subrange(1, a.len() as int),
            b.subrange(1, b.len() as int),
            c.subrange(1, c.len() as int),
        );
    }
}

/// The later of two day labels in dictionary order, the first when they agree.
pub open spec fn later(a: Seq<char>, b: Seq<char>) -> Seq<char> {
    if before(a, b) {
        b
    } else {
        a
    }
}

/// A text without the characters `c` at its end.
pub open spec fn without_trailing(s: Seq<char>, c: char) -> Seq<char>
    decreases s.len(),
{
    if s.len() > 0 && s.last() == c {
        without_trailing(s.drop_last(), c)
    } else {
        s
    }
}

/// A text without the characters `c` at its end.
pub fn trim_end_matches(s: &str, c: char) -> (r: String)
    ensures
        r@ == without_trailing(s@, c),
{
    let cs = chars_of(s);
    let mut n: usize = cs.len();
    assert(cs@.take(n as int) =~= cs@);
    while n > 0 && cs[n - 1] == c
        invariant
            n <= cs@.len(),
            without_trailing(cs@.take(n as int), c) == without_trailing(cs@, c),
        decreases n,
    {
        assert(cs@.take(n as int).drop_last() =~= cs@.take(n - 1));
        n = n - 1;
    }
    proof {
        if n > 0 {
            assert(cs@.take(n as int).last() == cs@[n - 1]);
        }
        assert(cs@.subrange(0, n as int) =~= cs@.take(n as int));
    }
    text_between(&cs, 0, n)
}

/// Whether a text ends with a character.
pub open spec fn ends_with_char(s: Seq<char>, c: char) -> bool {
    s.len() > 0 && s.last() == c
}

/// Whether a text ends with a character.
pub fn ends_with(s: &str, c: char) -> (r: bool)
    ensures
        r == ends_with_char(s@, c),
{
    let cs = chars_of(s);
    cs.len() > 0 && cs[cs.len() - 1] == c
}

/// What is before `pat` at the end of `s`, if `s` ends with it.
pub open spec fn before_suffix(s: Seq<char>, pat: Seq<char>) -> Option<Seq<char>> {
    if stands_at(s, pat, s.len() - pat.len()) {
        Some(s.subrange(0, s.len() - pat.len()))
    } else {
        None
    }
}

/// What is before `pat` at the end of `s`, if `s` ends with it.
pub fn strip_suffix(s: &str, pat: &str) -> (r: Option<String>)
    ensures
        contents(r) == before_suffix(s@, pat@),
{
    let cs = chars_of(s);
    let ps = chars_of(pat);
    if ps.len() > cs.len() {
        return None;
    }
    let at: usize = cs.len() - ps.len();
    if matches_at(&cs, &ps, at) {
        Some(text_between(&cs, 0, at))
    } else {
        None
    }
}

// ---------------------------------------------------------------------------
// Bytes as text
// ---------------------------------------------------------------------------

/// What `String::from_utf8_lossy` makes of bytes that are no UTF-8.
pub uninterp spec fn lossy_text(bytes: Seq<u8>) -> Seq<char>;

/// `String::from_utf8_lossy`: the text of bytes that are UTF-8; of others a text
/// that depends on the bytes alone.
#[verifier::external_body]
pub(crate) fn text_lossy(bytes: &Vec<u8>) -> (r: String)
    ensures
        valid_utf8(bytes@) ==> r@ == decode_utf8(bytes@),
        !valid_utf8(bytes@) ==> r@ == lossy_text(bytes@),
{
    String::from_utf8_lossy(bytes).into_owned()
}

/// The text that bytes are shown as.
pub open spec fn shown(bytes: Seq<u8>) -> Seq<char> {
    if valid_utf8(bytes) {
        decode_utf8(bytes)
    } else {
        lossy_text(bytes)
    }
}

// ---------------------------------------------------------------------------
// Numbers as text
// ---------------------------------------------------------------------------

/// The digit that stands for a number below ten.
pub open spec fn digit(d: int) -> char {
    (48 + d) as char
}

/// The decimal writing of a natural number.
pub open spec fn decimal(n: nat) -> Seq<char>
    decreases n,
{
    if n < 10 {
        seq![digit(n as int)]
    } else {
        decimal(n / 10).push(digit((n % 10) as int))
    }
}

/// The decimal writing of an integer, with a minus sign below zero.
pub open spec fn decimal_int(n: int) -> Seq<char> {
    if n < 0 {
        seq!['-'] + decimal((-n) as nat)
    } else {
        decimal(n as nat)
    }
}

fn digit_char(d: u64) -> (c: char)
    requires
        d < 10,
    ensures
        c == digit(d as int),
{
    (48u8 + d as u8) as char
}

/// The decimal writing of a natural number.
pub fn decimal_text(n: u64) -> (r: String)
    ensures
        r@ == decimal(n as nat),
    decreases n,
{
    if n < 10 {
        let mut out = String::new();
        out.push(digit_char(n));
        assert(out@ =~= seq![digit(n as int)]);
        out
    } else {
        let mut out = decimal_text(n / 10);
        out.push(digit_char(n % 10));
        out
    }
}

/// The decimal writing of an integer.
pub fn decimal_int_text(n: i64) -> (r: String)
    ensures
        r@ == decimal_int(n as int),
{
    if n < 0 {
        let m: u64 = (-(n as i128)) as u64;
        let mut out = "-".to_owned();
        let d = decimal_text(m);
        out.append(d.as_str());
        proof {
            reveal_strlit("-");
            assert("-"@ =~= seq!['-']);
        }
        out
    } else {
        decimal_text(n as u64)
    }
}

/// `n` copies of `c`.
pub open spec fn repeated(c: char, n: int) -> Seq<char> {
    Seq::new(if n < 0 { 0 } else { n as nat }, |i: int| c)
}

/// The decimal writing of a number, with zeros before it up to four digits.
pub open spec fn padded4(n: nat) -> Seq<char> {
    repeated('0', 4 - decimal(n).len()) + decimal(n)
}

/// The decimal writing of a number, with a zero before it up to two digits.
pub open spec fn padded2(n: nat) -> Seq<char> {
    repeated('0', 2 - decimal(n).len()) + decimal(n)
}

/// The decimal writing of a number, with zeros before it up to four digits.
pub fn padded4_text(n: u64) -> (r: String)
    ensures
        r@ == padded4(n as nat),
{
    let d = decimal_text(n);
    let cs = chars_of(d.as_str());
    let mut out = String::new();
    let mut i: usize = cs.len();
    assert(out@ =~= repeated('0', i - cs@.len()));
    while i < 4
        invariant
            cs@.len() <= i,
            i <= 4 || i == cs@.len(),
            out@ == repeated('0', i - cs@.len()),
        decreases 4 - i,
    {
        out.push('0');
        i = i + 1;
        assert(out@ =~= repeated('0', i - cs@.len()));
    }
    assert(repeated('0', 4 - cs@.len()) =~= out@);
    out.append(d.as_str());
    out
}

/// A decimal digit.
pub open spec fn is_digit(c: char) -> bool {
    '0' <= c <= '9'
}

/// The number that a row of digits stands for.
pub open spec fn digits_value(s: Seq<char>) -> int
    decreases s.len(),
{
    if s.len() == 0 {
        0
    } else {
        digits_value(s.drop_last()) * 10 + (s.last() as int - 48)
    }
}

/// Ten to the power of `k`.
spec fn tens(k: nat) -> nat
    decreases k,
{
    if k == 0 {
        1
    } else {
        10 * tens((k - 1) as nat)
    }
}

/// The decimal writing of a number is a row of digits that stands for it.
pub proof fn lemma_decimal(n: nat)
    ensures
        decimal(n).len() >= 1,
        forall|i: int| 0 <= i < decimal(n).len() ==> is_digit(#[trigger] decimal(n)[i]),
        digits_value(decimal(n)) == n,
    decreases n,
{
    if n < 10 {
        assert(decimal(n) =~= seq![digit(n as int)]);
        assert(decimal(n).drop_last() =~= Seq::<char>::empty());
        assert(digits_value(Seq::<char>::empty()) == 0);
    } else {
        lemma_decimal(n / 10);
        assert(decimal(n).drop_last() =~= decimal(n / 10));
        assert(decimal(n).last() == digit((n % 10) as int));
    }
}

proof fn lemma_decimal_short(n: nat, k: nat)
    requires
        n < tens(k),
        k >= 1,
    ensures
        decimal(n).len() <= k,
    decreases k,
{
    if n >= 10 {
        if k == 1 {
            assert(tens(1) == 10) by {
                reveal_with_fuel(tens, 2);
            }
        } else {
            assert(n / 10 < tens((k - 1) as nat));
            lemma_decimal_short(n / 10, (k - 1) as nat);
        }
    }
}

/// Digits that are the writing of an integer in 64 bits behind its sign.
spec fn writes(m: i64, negative: bool, body: Seq<char>) -> bool {
    &&& negative == (m < 0)
    &&& 1 <= body.len() <= 19
    &&& forall|i: int| 0 <= i < body.len() ==> is_digit(#[trigger] body[i])
    &&& digits_value(body) == if m < 0 {
        -(m as int)
    } else {
        m as int
    }
}

/// What the writing of an integer in 64 bits looks like.
proof fn lemma_decimal_int(m: i64, s: Seq<char>)
    requires
        s == decimal_int(m as int),
    ensures
        s.len() >= 1,
        writes(
            m,
            s[0] == '-',
            if s[0] == '-' {
                s.subrange(1, s.len() as int)
            } else {
                s
            },
        ),
{
    let n: nat = if m < 0 {
        (-(m as int)) as nat
    } else {
        m as nat
    };
    lemma_decimal(n);
    assert(n < tens(19)) by {
        reveal_with_fuel(tens, 20);
    }
    lemma_decimal_short(n, 19);
    if m < 0 {
        assert(s.subrange(1, s.len() as int) =~= decimal(n));
    } else {
        assert(is_digit(decimal(n)[0]));
    }
}

/// The integer in 64 bits whose decimal writing a text is.
pub fn read_int(s: &str) -> (r: Option<i64>)
    ensures
        match r {
            Some(n) => s@ == decimal_int(n as int),
            None => forall|m: i64| s@ != #[trigger] decimal_int(m as int),
        },
{
    let cs = chars_of(s);
    let negative = cs.len() > 0 && cs[0] == '-';
    let from: usize = if negative {
        1
    } else {
        0
    };
    let ghost body = s@.subrange(from as int, s@.len() as int);
    proof {
        assert forall|m: i64| s@ == #[trigger] decimal_int(m as int) implies writes(
            m,
            negative,
            body,
        ) by {
            lemma_decimal_int(m, s@);
            if !negative {
                assert(body =~= s@);
            }
        }
    }
    if cs.len() <= from || cs.len() - from > 19 {
        return None;
    }
    let mut acc: i128 = 0;
    let mut i: usize = from;
    assert(body.take(0) =~= Seq::empty());
    while i < cs.len()
        invariant
            from <= i <= cs@.len(),
            cs@ == s@,
            cs@.len() - from <= 19,
            body == s@.subrange(from as int, s@.len() as int),
            0 <= acc < tens((i - from) as nat),
            acc == digits_value(body.take(i - from)),
            forall|k: int| 0 <= k < i - from ==> is_digit(#[trigger] body[k]),
            forall|m: i64|
                s@ == #[trigger] decimal_int(m as int) ==> forall|k: int|
                    0 <= k < body.len() ==> is_digit(#[trigger] body[k]),
        decreases cs.len() - i,
    {
        let c = cs[i];
        assert(body[i - from] == c);
        if c < '0' || c > '9' {
            assert(!is_digit(body[i - from]));
            return None;
        }
        proof {
            assert(tens((i - from) as nat) <= tens(18)) by {
                reveal_with_fuel(tens, 20);
            }
            assert(tens(18) == 1_000_000_000_000_000_000) by {
                reveal_with_fuel(tens, 20);
            }
            assert(body.take(i + 1 - from).drop_last() =~= body.take(i - from));
        }
        acc = acc * 10 + (c as u32 - 48) as i128;
        i = i + 1;
    }
    assert(body.take(body.len() as int) =~= body);
    let value: i128 = if negative {
        -acc
    } else {
        acc
    };
    if value < i64::MIN as i128 || value > i64::MAX as i128 {
        return None;
    }
    let n: i64 = value as i64;
    let back = decimal_int_text(n);
    if text_eq(back.as_str(), s) {
        Some(n)
    } else {
        None
    }
}

/// Two integers with one writing are one.
pub proof fn lemma_decimal_int_unique(a: i64, b: i64)
    requires
        decimal_int(a as int) == decimal_int(b as int),
    ensures
        a == b,
{
    lemma_decimal_int(a, decimal_int(a as int));
    lemma_decimal_int(b, decimal_int(b as int));
}

/// The integer in 64 bits whose decimal writing a text is.
pub open spec fn int_written(s: Seq<char>) -> Option<i64> {
    if exists|m: i64| s == #[trigger] decimal_int(m as int) {
        Some(choose|m: i64| s == #[trigger] decimal_int(m as int))
    } else {
        None
    }
}

/// The writing of an integer is read as that integer.
pub proof fn law_integers_read_back(n: i64)
    ensures
        int_written(decimal_int(n as int)) == Some(n),
{
    let s = decimal_int(n as int);
    let m = choose|m: i64| s == #[trigger] decimal_int(m as int);
    assert(s == decimal_int(m as int));
    lemma_decimal_int_unique(m, n);
}

/// Which of two texts comes first is decided where they first differ: by the lesser
/// character, or by the end of the shorter one.
pub proof fn law_order_is_decided_at_the_first_difference(a: Seq<char>, b: Seq<char>, k: int)
    requires
        0 <= k <= a.len(),
        k <= b.len(),
        forall|i: int| 0 <= i < k ==> #[trigger] a[i] == b[i],
    ensures
        k < a.len() && k < b.len() && a[k] < b[k] ==> before(a, b) && !before(b, a),
        k == a.len() && k < b.len() ==> before(a, b) && !before(b, a),
        k == a.len() && k == b.len() ==> !before(a, b) && !before(b, a),
        later(a, b) == a || later(a, b) == b,
        !before(later(a, b), a) && !before(later(a, b), b),
{
    lemma_before_at(a, b, k);
    lemma_before_at(b, a, k);
    lemma_before_irreflexive(a);
    lemma_before_irreflexive(b);
    if before(a, b) && before(b, a) {
        lemma_before_transitive(a, b, a);
    }
}

/// The space, the tab and the line ends are white space, and no visible ASCII character
/// is; a text is blank exactly when it is empty or has nothing else.
pub proof fn law_what_is_blank(s: Seq<char>, c: char)
    ensures
        white_space(' '),
        white_space('\t'),
        white_space('\n'),
        white_space('\r'),
        '!' <= c <= '~' ==> !white_space(c),
        s.len() == 0 ==> blank(s),
        (exists|i: int| 0 <= i < s.len() && '!' <= #[trigger] s[i] <= '~') ==> !blank(s),
        (forall|i: int| 0 <= i < s.len() ==> #[trigger] s[i] == ' ') ==> blank(s),
{
}

/// What is left of a text without the characters at its end is its front, behind which
/// stand only those characters, and which does not end with one.
pub proof fn law_trailing_characters_go(s: Seq<char>, c: char)
    ensures
        without_trailing(s, c).len() <= s.len(),
        without_trailing(s, c) == s.take(without_trailing(s, c).len() as int),
        forall|i: int| without_trailing(s, c).len() <= i < s.len() ==> #[trigger] s[i] == c,
        without_trailing(s, c).len() > 0 ==> without_trailing(s, c).last() != c,
    decreases s.len(),
{
    if s.len() > 0 && s.last() == c {
        let t = s.drop_last();
        law_trailing_characters_go(t, c);
        let n = without_trailing(s, c).len() as int;
        assert(s.take(n) =~= t.take(n));
        assert forall|i: int| n <= i < s.len() implies #[trigger] s[i] == c by {
            if i < t.len() {
                assert(t[i] == s[i]);
            }
        }
    } else {
        assert(s.take(s.len() as int) =~= s);
    }
}

/// A text is parted at its first separator, which stands in neither part before it; it is
/// not parted exactly where it has none.
pub proof fn law_parts_around_the_first_separator(s: Seq<char>, c: char)
    ensures
        match parted_once(s, c) {
            Some(p) => s == p.0 + seq![c] + p.1 && !p.0.contains(c),
            None => !s.contains(c),
        },
{
    lemma_first_of(s, c);
    let k = first_of(s, c);
    if k < s.len() {
        assert(s =~= s.subrange(0, k) + seq![c] + s.subrange(k + 1, s.len() as int));
        assert(!s.subrange(0, k).contains(c)) by {
            if s.subrange(0, k).contains(c) {
                let i = choose|i: int| 0 <= i < k && s.subrange(0, k)[i] == c;
                assert(s[i] != c);
            }
        }
    } else if s.contains(c) {
        let i = choose|i: int| 0 <= i < s.len() && s[i] == c;
        assert(s[i] != c);
    }
}

proof fn lemma_joined_front(x: Seq<char>, rest: Seq<Seq<char>>, sep: Seq<char>)
    requires
        rest.len() > 0,
    ensures
        joined(seq![x] + rest, sep) == x + sep + joined(rest, sep),
    decreases rest.len(),
{
    let all = seq![x] + rest;
    assert(all.last() == rest.last());
    if rest.len() == 1 {
        assert(all.drop_last() =~= seq![x]);
        assert(joined(seq![x], sep) == x);
        assert(joined(rest, sep) == rest[0]);
        assert(joined(all, sep) == joined(all.drop_last(), sep) + sep + all.last());
    } else {
        assert(all.drop_last() =~= seq![x] + rest.drop_last());
        lemma_joined_front(x, rest.drop_last(), sep);
        assert(joined(all, sep) =~= x + sep + joined(rest, sep));
    }
}

/// The pieces of a text hold no separator, and joined by it they are the text again.
pub proof fn law_pieces_make_the_text(s: Seq<char>, c: char)
    ensures
        pieces(s, c).len() > 0,
        forall|i: int| 0 <= i < pieces(s, c).len() ==> !(#[trigger] pieces(s, c)[i]).contains(c),
        joined(pieces(s, c), seq![c]) == s,
    decreases s.len(),
{
    lemma_first_of(s, c);
    law_parts_around_the_first_separator(s, c);
    let k = first_of(s, c);
    let all = pieces(s, c);
    if k < s.len() {
        let rest = s.subrange(k + 1, s.len() as int);
        law_pieces_make_the_text(rest, c);
        lemma_joined_front(s.subrange(0, k), pieces(rest, c), seq![c]);
        assert forall|i: int| 0 <= i < all.len() implies !(#[trigger] all[i]).contains(c) by {
            if i > 0 {
                assert(all[i] == pieces(rest, c)[i - 1]);
            }
        }
    }
}

/// The writing of a number with zeros in front ends with the number, has zeros before it,
/// and is four characters long below ten thousand, and two below a hundred.
pub proof fn law_zeros_in_front(n: nat)
    ensures
        decimal(n).is_suffix_of(padded4(n)),
        forall|i: int|
            0 <= i < padded4(n).len() - decimal(n).len() ==> #[trigger] padded4(n)[i] == '0',
        n < 10000 ==> padded4(n).len() == 4,
        n >= 10000 ==> padded4(n) == decimal(n),
        decimal(n).is_suffix_of(padded2(n)),
        n < 100 ==> padded2(n).len() == 2,
{
    reveal_with_fuel(decimal, 6);
    let d = decimal(n);
    assert(d =~= padded4(n).subrange(padded4(n).len() - d.len(), padded4(n).len() as int));
    assert(d =~= padded2(n).subrange(padded2(n).len() - d.len(), padded2(n).len() as int));
    if n >= 10000 {
        assert(d.len() >= 5);
        assert(padded4(n) =~= d);
    }
}

} // verus!
