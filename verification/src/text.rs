//! Character-level text operations on which the payload builders rest:
//! trimming, word extraction, substring tests and decimal digits.
//!
//! Every operation is stated over the character sequence that a `str` or a
//! `String` views as, and whitespace is the Unicode `White_Space` property
//! that `char::is_whitespace` decides.
use vstd::prelude::*;

verus! {

/// Whether `c` has the Unicode `White_Space` property: the code points that
/// the Unicode Character Database (`PropList.txt`) lists for it.
pub open spec fn unicode_white_space(c: char) -> bool {
    let u = c as u32;
    (0x9 <= u <= 0xD) || u == 0x20 || u == 0x85 || u == 0xA0 || u == 0x1680 || (0x2000 <= u
        <= 0x200A) || u == 0x2028 || u == 0x2029 || u == 0x202F || u == 0x205F || u == 0x3000
}

/// `char::is_whitespace`: its documentation says that it returns whether the
/// character has the Unicode `White_Space` property, which the Unicode
/// Character Database specifies as the code points listed above.
pub assume_specification[ char::is_whitespace ](c: char) -> (r: bool)
    ensures
        r == unicode_white_space(c),
;

/// `String::push`: its documentation says that it appends the given `char` to
/// the end of the string.
pub assume_specification[ String::push ](s: &mut String, ch: char)
    ensures
        final(s)@ == old(s)@.push(ch),
;

/// `s` with its leading whitespace removed.
pub open spec fn trim_start(s: Seq<char>) -> Seq<char>
    decreases s.len(),
{
    if s.len() > 0 && unicode_white_space(s[0]) {
        trim_start(s.drop_first())
    } else {
        s
    }
}

/// `s` with its trailing whitespace removed.
pub open spec fn trim_end(s: Seq<char>) -> Seq<char>
    decreases s.len(),
{
    if s.len() > 0 && unicode_white_space(s.last()) {
        trim_end(s.drop_last())
    } else {
        s
    }
}

/// `s` with leading and trailing whitespace removed (what `str::trim` gives).
pub open spec fn trim(s: Seq<char>) -> Seq<char> {
    trim_end(trim_start(s))
}

/// `s` is empty once trimmed: it holds nothing but whitespace.
pub open spec fn is_blank(s: Seq<char>) -> bool {
    trim(s).len() == 0
}

/// The run of non-whitespace characters that `s` starts with.
pub open spec fn leading_word(s: Seq<char>) -> Seq<char>
    decreases s.len(),
{
    if s.len() == 0 || unicode_white_space(s[0]) {
        Seq::empty()
    } else {
        seq![s[0]] + leading_word(s.drop_first())
    }
}

/// The run of non-whitespace characters that `s` ends with.
pub open spec fn trailing_word(s: Seq<char>) -> Seq<char>
    decreases s.len(),
{
    if s.len() == 0 || unicode_white_space(s.last()) {
        Seq::empty()
    } else {
        trailing_word(s.drop_last()).push(s.last())
    }
}

/// The first whitespace-separated word of `s`.
pub open spec fn first_word(s: Seq<char>) -> Seq<char> {
    leading_word(trim_start(s))
}

/// The last whitespace-separated word of `s`.
pub open spec fn last_word(s: Seq<char>) -> Seq<char> {
    trailing_word(trim_end(s))
}

/// `needle` occurs in `hay` at some position.
pub open spec fn occurs_in(needle: Seq<char>, hay: Seq<char>) -> bool {
    exists|i: int|
        0 <= i && i + needle.len() <= hay.len() && #[trigger] hay.subrange(i, i + needle.len())
            == needle
}

/// `hay` begins with `prefix`.
pub open spec fn begins_with(hay: Seq<char>, prefix: Seq<char>) -> bool {
    prefix.len() <= hay.len() && hay.subrange(0, prefix.len() as int) == prefix
}

/// `hay` ends with `suffix`.
pub open spec fn ends_with(hay: Seq<char>, suffix: Seq<char>) -> bool {
    suffix.len() <= hay.len() && hay.subrange(hay.len() - suffix.len(), hay.len() as int)
        == suffix
}

/// A text occurs in any text that ends with it.
pub proof fn lemma_occurs_at_end(a: Seq<char>, x: Seq<char>)
    ensures
        occurs_in(x, a + x),
        ends_with(a + x, x),
{
    let i = a.len() as int;
    assert((a + x).subrange(i, i + x.len()) =~= x);
}

/// A text that occurs in `y` occurs in whatever `y` is extended to.
pub proof fn lemma_occurs_extend(x: Seq<char>, y: Seq<char>, z: Seq<char>)
    requires
        occurs_in(x, y),
    ensures
        occurs_in(x, y + z),
{
    let i = choose|i: int|
        0 <= i && i + x.len() <= y.len() && #[trigger] y.subrange(i, i + x.len()) == x;
    assert((y + z).subrange(i, i + x.len()) =~= y.subrange(i, i + x.len()));
}

/// A text that occurs in `y` occurs in whatever ends with `y`.
pub proof fn lemma_occurs_prepend(x: Seq<char>, w: Seq<char>, y: Seq<char>)
    requires
        occurs_in(x, y),
    ensures
        occurs_in(x, w + y),
{
    let i = choose|i: int|
        0 <= i && i + x.len() <= y.len() && #[trigger] y.subrange(i, i + x.len()) == x;
    let j = i + w.len();
    assert((w + y).subrange(j, j + x.len()) =~= y.subrange(i, i + x.len()));
}

/// A text begins with each of its prefixes.
pub proof fn lemma_begins(a: Seq<char>, b: Seq<char>)
    ensures
        begins_with(a + b, a),
        occurs_in(a, a + b),
{
    let i: int = 0;
    assert((a + b).subrange(i, i + a.len()) =~= a);
}

/// A text that begins with `x` still does once extended.
pub proof fn lemma_begins_extend(x: Seq<char>, y: Seq<char>, z: Seq<char>)
    requires
        begins_with(y, x),
    ensures
        begins_with(y + z, x),
{
    assert((y + z).subrange(0, x.len() as int) =~= y.subrange(0, x.len() as int));
}

/// The empty text occurs in every text.
pub proof fn lemma_empty_occurs(x: Seq<char>, y: Seq<char>)
    requires
        x.len() == 0,
    ensures
        occurs_in(x, y),
{
    let i: int = 0;
    assert(y.subrange(i, i + x.len()) =~= x);
}

/// A text made of four pieces begins with the first two and ends with the
/// last three.
pub proof fn lemma_four_pieces(h: Seq<char>, a: Seq<char>, b: Seq<char>, c: Seq<char>)
    ensures
        begins_with(h + a + b + c, h + a),
        ends_with(h + a + b + c, a + b + c),
{
    let t = h + a + b + c;
    assert(t.subrange(0, (h + a).len() as int) =~= h + a);
    assert(t.subrange(t.len() - (a + b + c).len(), t.len() as int) =~= a + b + c);
}

/// The ASCII digit for `d`, which is below ten.
pub open spec fn digit_char(d: nat) -> char {
    ((48 + d) as u8) as char
}

/// The decimal numeral of `n`, without leading zeros.
pub open spec fn decimal(n: nat) -> Seq<char>
    decreases n,
{
    if n < 10 {
        seq![digit_char(n)]
    } else {
        decimal(n / 10).push(digit_char(n % 10))
    }
}

pub proof fn lemma_trim_start(s: Seq<char>, k: int)
    requires
        0 <= k <= s.len(),
        forall|j: int| 0 <= j < k ==> unicode_white_space(#[trigger] s[j]),
        k == s.len() || !unicode_white_space(s[k]),
    ensures
        trim_start(s) == s.subrange(k, s.len() as int),
    decreases k,
{
    if k == 0 {
        assert(s.subrange(0, s.len() as int) =~= s);
    } else {
        let t = s.drop_first();
        assert forall|j: int| 0 <= j < k - 1 implies unicode_white_space(#[trigger] t[j]) by {
            assert(t[j] == s[j + 1]);
        }
        lemma_trim_start(t, k - 1);
        assert(t.subrange(k - 1, t.len() as int) =~= s.subrange(k, s.len() as int));
    }
}

pub proof fn lemma_trim_end(s: Seq<char>, k: int)
    requires
        0 <= k <= s.len(),
        forall|j: int| k <= j < s.len() ==> unicode_white_space(#[trigger] s[j]),
        k == 0 || !unicode_white_space(s[k - 1]),
    ensures
        trim_end(s) == s.subrange(0, k),
    decreases s.len() - k,
{
    if k == s.len() {
        assert(s.subrange(0, k) =~= s);
    } else {
        let t = s.drop_last();
        assert forall|j: int| k <= j < t.len() implies unicode_white_space(#[trigger] t[j]) by {
            assert(t[j] == s[j]);
        }
        lemma_trim_end(t, k);
        assert(t.subrange(0, k) =~= s.subrange(0, k));
    }
}

pub proof fn lemma_leading_word(s: Seq<char>, k: int)
    requires
        0 <= k <= s.len(),
        forall|j: int| 0 <= j < k ==> !unicode_white_space(#[trigger] s[j]),
        k == s.len() || unicode_white_space(s[k]),
    ensures
        leading_word(s) == s.subrange(0, k),
    decreases k,
{
    if k == 0 {
        assert(s.subrange(0, 0) =~= Seq::<char>::empty());
    } else {
        let t = s.drop_first();
        assert forall|j: int| 0 <= j < k - 1 implies !unicode_white_space(#[trigger] t[j]) by {
            assert(t[j] == s[j + 1]);
        }
        lemma_leading_word(t, k - 1);
        assert(seq![s[0]] + t.subrange(0, k - 1) =~= s.subrange(0, k));
    }
}

pub proof fn lemma_trailing_word(s: Seq<char>, k: int)
    requires
        0 <= k <= s.len(),
        forall|j: int| k <= j < s.len() ==> !unicode_white_space(#[trigger] s[j]),
        k == 0 || unicode_white_space(s[k - 1]),
    ensures
        trailing_word(s) == s.subrange(k, s.len() as int),
    decreases s.len() - k,
{
    if k == s.len() {
        assert(s.subrange(k, k) =~= Seq::<char>::empty());
    } else {
        let t = s.drop_last();
        assert forall|j: int| k <= j < t.len() implies !unicode_white_space(#[trigger] t[j]) by {
            assert(t[j] == s[j]);
        }
        lemma_trailing_word(t, k);
        assert(t.subrange(k, t.len() as int).push(s.last()) =~= s.subrange(k, s.len() as int));
    }
}

/// The number of whitespace characters that `s` starts with.
spec fn leading_white(s: Seq<char>) -> nat
    decreases s.len(),
{
    if s.len() > 0 && unicode_white_space(s[0]) {
        1 + leading_white(s.drop_first())
    } else {
        0
    }
}

/// The number of whitespace characters that `s` ends with.
spec fn trailing_white(s: Seq<char>) -> nat
    decreases s.len(),
{
    if s.len() > 0 && unicode_white_space(s.last()) {
        1 + trailing_white(s.drop_last())
    } else {
        0
    }
}

proof fn lemma_leading_white(s: Seq<char>)
    ensures
        leading_white(s) <= s.len(),
        forall|j: int| 0 <= j < leading_white(s) ==> unicode_white_space(#[trigger] s[j]),
        leading_white(s) < s.len() ==> !unicode_white_space(s[leading_white(s) as int]),
    decreases s.len(),
{
    if s.len() > 0 && unicode_white_space(s[0]) {
        let t = s.drop_first();
        lemma_leading_white(t);
        assert forall|j: int| 0 <= j < leading_white(s) implies unicode_white_space(
            #[trigger] s[j],
        ) by {
            if j > 0 {
                assert(s[j] == t[j - 1]);
            }
        }
        if leading_white(s) < s.len() {
            assert(s[leading_white(s) as int] == t[leading_white(t) as int]);
        }
    }
}

proof fn lemma_trailing_white(s: Seq<char>)
    ensures
        trailing_white(s) <= s.len(),
        forall|j: int|
            s.len() - trailing_white(s) <= j < s.len() ==> unicode_white_space(#[trigger] s[j]),
        trailing_white(s) < s.len() ==> !unicode_white_space(
            s[s.len() - trailing_white(s) - 1],
        ),
    decreases s.len(),
{
    if s.len() > 0 && unicode_white_space(s.last()) {
        let t = s.drop_last();
        lemma_trailing_white(t);
        assert forall|j: int| s.len() - trailing_white(s) <= j < s.len() implies unicode_white_space(
            #[trigger] s[j],
        ) by {
            if j < s.len() - 1 {
                assert(s[j] == t[j]);
            }
        }
        if trailing_white(s) < s.len() {
            assert(s[s.len() - trailing_white(s) - 1] == t[t.len() - trailing_white(t) - 1]);
        }
    }
}

/// Trimming removes whitespace only, and all of it at both ends: the trimmed
/// text is a stretch of `s` with nothing but whitespace before and after it,
/// and it neither starts nor ends with whitespace.
pub proof fn law_trim(s: Seq<char>)
    ensures
        exists|a: int, b: int|
            #![trigger s.subrange(a, b)]
            0 <= a <= b <= s.len() && trim(s) == s.subrange(a, b) && (forall|j: int|
                0 <= j < a ==> unicode_white_space(#[trigger] s[j])) && (forall|j: int|
                b <= j < s.len() ==> unicode_white_space(#[trigger] s[j])) && (a < b
                ==> !unicode_white_space(s[a]) && !unicode_white_space(s[b - 1])),
{
    lemma_leading_white(s);
    let a = leading_white(s) as int;
    lemma_trim_start(s, a);
    let t = s.subrange(a, s.len() as int);
    lemma_trailing_white(t);
    let k = t.len() - trailing_white(t);
    assert forall|j: int| k <= j < t.len() implies unicode_white_space(#[trigger] t[j]) by {}
    lemma_trim_end(t, k);
    let b = a + k;
    assert(t.subrange(0, k) =~= s.subrange(a, b));
    assert forall|j: int| b <= j < s.len() implies unicode_white_space(#[trigger] s[j]) by {
        assert(s[j] == t[j - a]);
    }
    if a < b {
        assert(s[b - 1] == t[k - 1]);
    }
    assert(0 <= a <= b <= s.len() && trim(s) == s.subrange(a, b));
}

/// The number of non-whitespace characters that `s` starts with.
spec fn leading_dark(s: Seq<char>) -> nat
    decreases s.len(),
{
    if s.len() > 0 && !unicode_white_space(s[0]) {
        1 + leading_dark(s.drop_first())
    } else {
        0
    }
}

/// The number of non-whitespace characters that `s` ends with.
spec fn trailing_dark(s: Seq<char>) -> nat
    decreases s.len(),
{
    if s.len() > 0 && !unicode_white_space(s.last()) {
        1 + trailing_dark(s.drop_last())
    } else {
        0
    }
}

proof fn lemma_leading_dark(s: Seq<char>)
    ensures
        leading_dark(s) <= s.len(),
        forall|j: int| 0 <= j < leading_dark(s) ==> !unicode_white_space(#[trigger] s[j]),
        leading_dark(s) < s.len() ==> unicode_white_space(s[leading_dark(s) as int]),
    decreases s.len(),
{
    if s.len() > 0 && !unicode_white_space(s[0]) {
        let t = s.drop_first();
        lemma_leading_dark(t);
        assert forall|j: int| 0 <= j < leading_dark(s) implies !unicode_white_space(
            #[trigger] s[j],
        ) by {
            if j > 0 {
                assert(s[j] == t[j - 1]);
            }
        }
        if leading_dark(s) < s.len() {
            assert(s[leading_dark(s) as int] == t[leading_dark(t) as int]);
        }
    }
}

proof fn lemma_trailing_dark(s: Seq<char>)
    ensures
        trailing_dark(s) <= s.len(),
        forall|j: int|
            s.len() - trailing_dark(s) <= j < s.len() ==> !unicode_white_space(#[trigger] s[j]),
        trailing_dark(s) < s.len() ==> unicode_white_space(s[s.len() - trailing_dark(s) - 1]),
    decreases s.len(),
{
    if s.len() > 0 && !unicode_white_space(s.last()) {
        let t = s.drop_last();
        lemma_trailing_dark(t);
        assert forall|j: int|
            s.len() - trailing_dark(s) <= j < s.len() implies !unicode_white_space(
            #[trigger] s[j],
        ) by {
            if j < s.len() - 1 {
                assert(s[j] == t[j]);
            }
        }
        if trailing_dark(s) < s.len() {
            assert(s[s.len() - trailing_dark(s) - 1] == t[t.len() - trailing_dark(t) - 1]);
        }
    }
}

/// The first word of a text that is not blank is a non-empty run of
/// non-whitespace characters with only whitespace before it, and whitespace
/// or the end of the text after it.
pub proof fn law_first_word(s: Seq<char>)
    requires
        !is_blank(s),
    ensures
        first_word(s).len() > 0,
        forall|i: int| 0 <= i < first_word(s).len() ==> !unicode_white_space(#[trigger] first_word(s)[i]),
        exists|a: int|
            #![trigger s.subrange(a, a + first_word(s).len())]
            0 <= a && a + first_word(s).len() <= s.len() && s.subrange(a, a + first_word(s).len())
                == first_word(s) && (forall|j: int| 0 <= j < a ==> unicode_white_space(#[trigger] s[j]))
                && (a + first_word(s).len() == s.len() || unicode_white_space(
                s[a + first_word(s).len()],
            )),
{
    lemma_leading_white(s);
    let a = leading_white(s) as int;
    lemma_trim_start(s, a);
    let t = s.subrange(a, s.len() as int);
    if a == s.len() {
        assert(trim(s).len() == 0);
    }
    lemma_leading_dark(t);
    let k = leading_dark(t) as int;
    assert forall|j: int| 0 <= j < k implies !unicode_white_space(#[trigger] t[j]) by {}
    lemma_leading_word(t, k);
    assert(t[0] == s[a]);
    assert(k > 0);
    assert(t.subrange(0, k) =~= s.subrange(a, a + k));
    if a + k < s.len() {
        assert(s[a + k] == t[k]);
    }
    assert(0 <= a && a + first_word(s).len() <= s.len() && s.subrange(a, a + first_word(s).len())
        == first_word(s));
}

/// The last word of a text that is not blank is a non-empty run of
/// non-whitespace characters with only whitespace after it, and whitespace
/// or the start of the text before it.
pub proof fn law_last_word(s: Seq<char>)
    requires
        !is_blank(s),
    ensures
        last_word(s).len() > 0,
        forall|i: int| 0 <= i < last_word(s).len() ==> !unicode_white_space(#[trigger] last_word(s)[i]),
        exists|b: int|
            #![trigger s.subrange(b - last_word(s).len(), b)]
            last_word(s).len() <= b <= s.len() && s.subrange(b - last_word(s).len(), b)
                == last_word(s) && (forall|j: int| b <= j < s.len() ==> unicode_white_space(#[trigger] s[j]))
                && (b - last_word(s).len() == 0 || unicode_white_space(
                s[b - last_word(s).len() - 1],
            )),
{
    lemma_trailing_white(s);
    let b = s.len() - trailing_white(s);
    assert forall|j: int| b <= j < s.len() implies unicode_white_space(#[trigger] s[j]) by {}
    lemma_trim_end(s, b);
    let t = s.subrange(0, b);
    if b == 0 {
        assert(trim_end(s).len() == 0);
        lemma_trim_start_end_empty(s);
    }
    lemma_trailing_dark(t);
    let k = t.len() - trailing_dark(t);
    assert forall|j: int| k <= j < t.len() implies !unicode_white_space(#[trigger] t[j]) by {}
    lemma_trailing_word(t, k);
    assert(t[b - 1] == s[b - 1]);
    assert(k < b);
    assert(t.subrange(k, b) =~= s.subrange(k, b));
    if k > 0 {
        assert(s[k - 1] == t[k - 1]);
    }
    assert(last_word(s).len() <= b <= s.len() && s.subrange(b - last_word(s).len(), b)
        == last_word(s));
}

/// A text whose end-trimmed form is empty is blank.
proof fn lemma_trim_start_end_empty(s: Seq<char>)
    requires
        trim_end(s).len() == 0,
    ensures
        trim(s).len() == 0,
    decreases s.len(),
{
    if s.len() > 0 {
        lemma_trim_end_tail_all(s);
        lemma_trim_start_all_white(s);
    }
}

/// Every character of a text whose end-trimmed form is empty is whitespace.
proof fn lemma_trim_end_tail_all(s: Seq<char>)
    requires
        trim_end(s).len() == 0,
    ensures
        forall|j: int| 0 <= j < s.len() ==> unicode_white_space(#[trigger] s[j]),
{
    assert forall|j: int| 0 <= j < s.len() implies unicode_white_space(#[trigger] s[j]) by {
        lemma_trim_end_suffix_white(s, 0, j);
    }
}

/// A text of whitespace only trims to nothing.
proof fn lemma_trim_start_all_white(s: Seq<char>)
    requires
        forall|j: int| 0 <= j < s.len() ==> unicode_white_space(#[trigger] s[j]),
    ensures
        trim(s).len() == 0,
{
    lemma_trim_start(s, s.len() as int);
    assert(s.subrange(s.len() as int, s.len() as int) =~= Seq::<char>::empty());
}

/// The characters of `s`, in order.
pub fn chars_of(s: &str) -> (v: Vec<char>)
    ensures
        v@ == s@,
{
    let mut v: Vec<char> = Vec::new();
    for c in it: s.chars()
        invariant
            v@ == it.seq().take(it.index() as int),
    {
        v.push(c);
    }
    v
}

/// Appends `v[from..to]` to `out`.
pub fn push_range(out: &mut String, v: &Vec<char>, from: usize, to: usize)
    requires
        from <= to <= v.len(),
    ensures
        final(out)@ == old(out)@ + v@.subrange(from as int, to as int),
{
    let mut i = from;
    while i < to
        invariant
            from <= i <= to <= v.len(),
            out@ == old(out)@ + v@.subrange(from as int, i as int),
        decreases to - i,
    {
        out.push(v[i]);
        i = i + 1;
        assert(out@ =~= old(out)@ + v@.subrange(from as int, i as int));
    }
}

/// The bounds of `v` once its leading and trailing whitespace is removed.
pub fn trim_bounds(v: &Vec<char>) -> (r: (usize, usize))
    ensures
        r.0 <= r.1 <= v.len(),
        trim_start(v@) == v@.subrange(r.0 as int, v.len() as int),
        trim(v@) == v@.subrange(r.0 as int, r.1 as int),
{
    let mut a: usize = 0;
    while a < v.len() && v[a].is_whitespace()
        invariant
            a <= v.len(),
            forall|j: int| 0 <= j < a ==> unicode_white_space(#[trigger] v@[j]),
        decreases v.len() - a,
    {
        a = a + 1;
    }
    proof {
        lemma_trim_start(v@, a as int);
    }
    let mut b: usize = v.len();
    while b > a && v[b - 1].is_whitespace()
        invariant
            a <= b <= v.len(),
            forall|j: int| b <= j < v.len() ==> unicode_white_space(#[trigger] v@[j]),
        decreases b,
    {
        b = b - 1;
    }
    proof {
        let t = v@.subrange(a as int, v.len() as int);
        assert forall|j: int| b - a <= j < t.len() implies unicode_white_space(#[trigger] t[j]) by {
            assert(t[j] == v@[a + j]);
        }
        lemma_trim_end(t, b - a);
        assert(t.subrange(0, b - a) =~= v@.subrange(a as int, b as int));
    }
    (a, b)
}

/// `s` with leading and trailing whitespace removed.
pub fn trimmed(s: &str) -> (r: String)
    ensures
        r@ == trim(s@),
{
    let v = chars_of(s);
    let (a, b) = trim_bounds(&v);
    let mut out = String::new();
    push_range(&mut out, &v, a, b);
    assert(out@ =~= trim(s@));
    out
}

/// Whether `s` holds nothing but whitespace.
pub fn is_blank_text(s: &str) -> (r: bool)
    ensures
        r == is_blank(s@),
{
    let v = chars_of(s);
    let (a, b) = trim_bounds(&v);
    a == b
}

/// Appends `s` with leading and trailing whitespace removed.
pub fn push_trimmed(out: &mut String, s: &str)
    ensures
        final(out)@ == old(out)@ + trim(s@),
{
    let v = chars_of(s);
    let (a, b) = trim_bounds(&v);
    push_range(out, &v, a, b);
}

/// The first and the last whitespace-separated word of a text that is not
/// blank.
pub fn first_and_last_word(s: &str) -> (r: (String, String))
    requires
        !is_blank(s@),
    ensures
        r.0@ == first_word(s@),
        r.1@ == last_word(s@),
{
    let v = chars_of(s);
    let (a, b) = trim_bounds(&v);
    // the first word runs from `a` to the next whitespace
    let mut e = a;
    while e < v.len() && !v[e].is_whitespace()
        invariant
            a <= e <= v.len(),
            forall|j: int| a <= j < e ==> !unicode_white_space(#[trigger] v@[j]),
        decreases v.len() - e,
    {
        e = e + 1;
    }
    proof {
        let t = v@.subrange(a as int, v.len() as int);
        assert forall|j: int| 0 <= j < e - a implies !unicode_white_space(#[trigger] t[j]) by {
            assert(t[j] == v@[a + j]);
        }
        if e < v.len() {
            assert(t[e - a] == v@[e as int]);
        }
        lemma_leading_word(t, e - a);
        assert(t.subrange(0, e - a) =~= v@.subrange(a as int, e as int));
    }
    let mut first = String::new();
    push_range(&mut first, &v, a, e);
    // the text ends, once trimmed, at `b`
    proof {
        if a == b {
            assert(trim(v@).len() == 0);
        }
        assert(a < b);
        assert forall|j: int| b <= j < v.len() implies unicode_white_space(#[trigger] v@[j]) by {
            lemma_trim_end_tail(v@, a as int, b as int, j);
        }
        lemma_trim_end_last(trim_start(v@));
        assert(trim(v@).last() == v@[b - 1]);
        lemma_trim_end(v@, b as int);
    }
    // and its last word starts after the whitespace before it
    let mut c = b;
    while c > 0 && !v[c - 1].is_whitespace()
        invariant
            c <= b <= v.len(),
            forall|j: int| c <= j < b ==> !unicode_white_space(#[trigger] v@[j]),
        decreases c,
    {
        c = c - 1;
    }
    proof {
        let t = v@.subrange(0, b as int);
        assert forall|j: int| c <= j < t.len() implies !unicode_white_space(#[trigger] t[j]) by {
            assert(t[j] == v@[j]);
        }
        lemma_trailing_word(t, c as int);
        assert(t.subrange(c as int, b as int) =~= v@.subrange(c as int, b as int));
    }
    let mut last = String::new();
    push_range(&mut last, &v, c, b);
    (first, last)
}

/// Every character after the trimmed end is whitespace.
proof fn lemma_trim_end_tail(s: Seq<char>, a: int, b: int, j: int)
    requires
        0 <= a < b <= s.len(),
        trim_start(s) == s.subrange(a, s.len() as int),
        trim(s) == s.subrange(a, b),
        b <= j < s.len(),
    ensures
        unicode_white_space(s[j]),
{
    lemma_trim_end_suffix_white(s.subrange(a, s.len() as int), b - a, j - a);
}

/// A sequence trimmed at its end does not end in whitespace.
proof fn lemma_trim_end_last(t: Seq<char>)
    ensures
        trim_end(t).len() > 0 ==> !unicode_white_space(trim_end(t).last()),
    decreases t.len(),
{
    if t.len() > 0 && unicode_white_space(t.last()) {
        lemma_trim_end_last(t.drop_last());
    }
}

/// Whatever `trim_end` removes is whitespace.
proof fn lemma_trim_end_suffix_white(t: Seq<char>, k: int, j: int)
    requires
        0 <= k <= j < t.len(),
        trim_end(t).len() == k,
    ensures
        unicode_white_space(t[j]),
    decreases t.len(),
{
    if t.len() > 0 && unicode_white_space(t.last()) {
        if j < t.len() - 1 {
            lemma_trim_end_suffix_white(t.drop_last(), k, j);
            assert(t.drop_last()[j] == t[j]);
        }
    } else {
        assert(trim_end(t) == t);
    }
}

/// Whether `needle` occurs in `hay`.
pub fn occurs(needle: &Vec<char>, hay: &Vec<char>) -> (r: bool)
    ensures
        r == occurs_in(needle@, hay@),
{
    let n = needle.len();
    if n > hay.len() {
        return false;
    }
    let mut i: usize = 0;
    while i <= hay.len() - n
        invariant
            n == needle.len(),
            n <= hay.len(),
            i <= hay.len() - n + 1,
            forall|j: int|
                0 <= j < i ==> #[trigger] hay@.subrange(j, j + n) != needle@,
        decreases hay.len() - i,
    {
        let mut k: usize = 0;
        while k < n && hay[i + k] == needle[k]
            invariant
                k <= n,
                i + n <= hay.len(),
                n == needle.len(),
                forall|m: int| 0 <= m < k ==> hay@[i + m] == needle@[m],
            decreases n - k,
        {
            k = k + 1;
        }
        if k == n {
            assert(hay@.subrange(i as int, i + n) =~= needle@);
            return true;
        }
        assert(hay@.subrange(i as int, i + n)[k as int] != needle@[k as int]);
        i = i + 1;
    }
    assert forall|j: int|
        0 <= j && j + n <= hay.len() implies #[trigger] hay@.subrange(j, j + n) != needle@ by {}
    false
}

/// Whether `hay` begins with `prefix`.
pub fn starts(hay: &Vec<char>, prefix: &Vec<char>) -> (r: bool)
    ensures
        r == begins_with(hay@, prefix@),
{
    let n = prefix.len();
    if n > hay.len() {
        return false;
    }
    let mut k: usize = 0;
    while k < n
        invariant
            k <= n <= hay.len(),
            n == prefix.len(),
            forall|m: int| 0 <= m < k ==> hay@[m] == prefix@[m],
        decreases n - k,
    {
        if hay[k] != prefix[k] {
            assert(hay@.subrange(0, n as int)[k as int] != prefix@[k as int]);
            return false;
        }
        k = k + 1;
    }
    assert(hay@.subrange(0, n as int) =~= prefix@);
    true
}

/// The ASCII digit for `d`.
pub fn digit(d: usize) -> (c: char)
    requires
        d < 10,
    ensures
        c == digit_char(d as nat),
{
    let b: u8 = 48 + (d as u8);
    b as char
}

/// The number that a numeral of ASCII digits stands for.
pub open spec fn numeral_value(t: Seq<char>) -> nat
    decreases t.len(),
{
    if t.len() == 0 {
        0
    } else {
        numeral_value(t.drop_last()) * 10 + ((t.last() as nat) - 48) as nat
    }
}

/// The decimal numeral of `n` is made of ASCII digits, stands for `n`, and
/// has no leading zero.
pub proof fn law_decimal(n: nat)
    ensures
        decimal(n).len() > 0,
        forall|i: int| 0 <= i < decimal(n).len() ==> '0' <= #[trigger] decimal(n)[i] <= '9',
        numeral_value(decimal(n)) == n,
        n >= 10 ==> decimal(n)[0] != '0',
    decreases n,
{
    let u: u8 = (48 + n % 10) as u8;
    assert((u as char) as nat == u as nat);
    assert(digit_char(n % 10) as nat == 48 + n % 10);
    if n < 10 {
        assert(decimal(n).drop_last() =~= Seq::<char>::empty());
        assert(decimal(n).last() == digit_char(n % 10));
        assert(numeral_value(decimal(n)) == numeral_value(decimal(n).drop_last()) * 10 + ((
        decimal(n).last() as nat) - 48) as nat);
        assert(numeral_value(Seq::<char>::empty()) == 0);
    }
    if n >= 10 {
        law_decimal(n / 10);
        let d = decimal(n / 10);
        assert(decimal(n).drop_last() =~= d);
        assert(decimal(n)[0] == d[0]);
        if n / 10 < 10 {
            assert(d[0] == digit_char(n / 10));
        }
        assert((n / 10) * 10 + n % 10 == n);
        assert(decimal(n).last() == digit_char(n % 10));
        assert(numeral_value(decimal(n)) == numeral_value(d) * 10 + ((decimal(n).last() as nat)
            - 48) as nat);
        assert forall|i: int| 0 <= i < decimal(n).len() implies '0' <= #[trigger] decimal(n)[i]
            <= '9' by {
            if i < d.len() {
                assert(decimal(n)[i] == d[i]);
            }
        }
    }
}

/// Appends the decimal numeral of `n`.
pub fn push_decimal(out: &mut String, n: usize)
    ensures
        final(out)@ == old(out)@ + decimal(n as nat),
    decreases n,
{
    if n >= 10 {
        push_decimal(out, n / 10);
    }
    out.push(digit(n % 10));
    assert(out@ =~= old(out)@ + decimal(n as nat));
}

} // verus!
