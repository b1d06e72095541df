//! Character-level text handling: Unicode white space, trimming,
//! splitting into words, substring search and decimal rendering.

use vstd::prelude::*;
use vstd::utf8::{decode_utf8, valid_utf8};

verus! {

/// The Unicode `White_Space` property, the set of characters that
/// `char::is_whitespace` accepts.
pub open spec fn is_white_space(c: char) -> bool {
    let v = c as u32;
    ||| 0x9 <= v <= 0xd
    ||| v == 0x20
    ||| v == 0x85
    ||| v == 0xa0
    ||| v == 0x1680
    ||| 0x2000 <= v <= 0x200a
    ||| v == 0x2028
    ||| v == 0x2029
    ||| v == 0x202f
    ||| v == 0x205f
    ||| v == 0x3000
}

/// Decides the Unicode `White_Space` property of one character.
pub fn white_space(c: char) -> (r: bool)
    ensures
        r == is_white_space(c),
{
    let v = c as u32;
    (0x9 <= v && v <= 0xd) || v == 0x20 || v == 0x85 || v == 0xa0 || v == 0x1680 || (0x2000
        <= v && v <= 0x200a) || v == 0x2028 || v == 0x2029 || v == 0x202f || v == 0x205f || v
        == 0x3000
}

/// The characters of `s`, one by one.
pub fn chars_of(s: &str) -> (v: Vec<char>)
    ensures
        v@ == s@,
{
    let mut v: Vec<char> = Vec::new();
    for c in it: s.chars()
        invariant
            v@ == it.seq().take(it.index() as int),
            it.seq() == s@,
    {
        v.push(c);
    }
    v
}


/// `s` without its leading white space.
pub open spec fn trim_start_spec(s: Seq<char>) -> Seq<char>
    decreases s.len(),
{
    if s.len() > 0 && is_white_space(s[0]) {
        trim_start_spec(s.drop_first())
    } else {
        s
    }
}

/// `s` without its trailing white space.
pub open spec fn trim_end_spec(s: Seq<char>) -> Seq<char>
    decreases s.len(),
{
    if s.len() > 0 && is_white_space(s.last()) {
        trim_end_spec(s.drop_last())
    } else {
        s
    }
}

/// `s` without white space at either end, as `str::trim` gives it.
pub open spec fn trim_spec(s: Seq<char>) -> Seq<char> {
    trim_end_spec(trim_start_spec(s))
}

/// Skipping a run of white space at the front of `s` leaves the same
/// trimmed start.
proof fn lemma_trim_start_skip(s: Seq<char>, i: int)
    requires
        0 <= i <= s.len(),
        forall|j: int| 0 <= j < i ==> is_white_space(#[trigger] s[j]),
    ensures
        trim_start_spec(s) == trim_start_spec(s.skip(i)),
    decreases i,
{
    if i > 0 {
        assert(s.drop_first().skip(i - 1) =~= s.skip(i));
        assert forall|j: int| 0 <= j < i - 1 implies is_white_space(#[trigger] s.drop_first()[j]) by {
            assert(s.drop_first()[j] == s[j + 1]);
        }
        lemma_trim_start_skip(s.drop_first(), i - 1);
    } else {
        assert(s.skip(0) =~= s);
    }
}

/// Dropping a run of white space at the back of `s` leaves the same
/// trimmed end.
proof fn lemma_trim_end_take(s: Seq<char>, k: int)
    requires
        0 <= k <= s.len(),
        forall|j: int| k <= j < s.len() ==> is_white_space(#[trigger] s[j]),
    ensures
        trim_end_spec(s) == trim_end_spec(s.take(k)),
    decreases s.len() - k,
{
    if k < s.len() {
        assert(s.drop_last().take(k) =~= s.take(k));
        lemma_trim_end_take(s.drop_last(), k);
    } else {
        assert(s.take(k) =~= s);
    }
}

/// Where does the first character that is not white space stand in
/// `chars[from..to]`; `to` when there is none.
fn first_non_white(chars: &Vec<char>, from: usize, to: usize) -> (i: usize)
    requires
        from <= to <= chars.len(),
    ensures
        from <= i <= to,
        forall|j: int| from <= j < i ==> is_white_space(#[trigger] chars@[j]),
        i < to ==> !is_white_space(chars@[i as int]),
{
    let mut i = from;
    while i < to && white_space(chars[i])
        invariant
            from <= i <= to <= chars.len(),
            forall|j: int| from <= j < i ==> is_white_space(#[trigger] chars@[j]),
        decreases to - i,
    {
        i = i + 1;
    }
    i
}

/// The text of `s` without leading and trailing white space.
pub fn trim(s: &str) -> (r: String)
    ensures
        r@ == trim_spec(s@),
{
    let chars = chars_of(s);
    let n = chars.len();
    let a = first_non_white(&chars, 0, n);
    let mut b = n;
    while b > a && white_space(chars[b - 1])
        invariant
            a <= b <= n == chars.len(),
            chars@ == s@,
            forall|j: int| b <= j < n ==> is_white_space(#[trigger] chars@[j]),
        decreases b,
    {
        b = b - 1;
    }
    proof {
        let t = s@.skip(a as int);
        lemma_trim_start_skip(s@, a as int);
        if a < n {
            assert(trim_start_spec(t) == t);
            assert forall|j: int| b - a <= j < t.len() implies is_white_space(#[trigger] t[j]) by {
                assert(t[j] == s@[j + a]);
            }
            lemma_trim_end_take(t, b - a);
            assert(t.take(b - a) =~= s@.subrange(a as int, b as int));
            assert(b > a);
            assert(trim_end_spec(t.take(b - a)) == t.take(b - a));
        } else {
            assert(t.len() == 0);
            assert(s@.subrange(a as int, b as int).len() == 0);
        }
    }
    String::from_str(s.substring_char(a, b))
}


/// The words of `s` read up to its end: the words already closed, and
/// the word still open (empty when the last character read is white
/// space).
pub open spec fn word_scan(s: Seq<char>) -> (Seq<Seq<char>>, Seq<char>)
    decreases s.len(),
{
    if s.len() == 0 {
        (Seq::empty(), Seq::empty())
    } else {
        let (done, open) = word_scan(s.drop_last());
        if is_white_space(s.last()) {
            if open.len() > 0 {
                (done.push(open), Seq::empty())
            } else {
                (done, Seq::empty())
            }
        } else {
            (done, open.push(s.last()))
        }
    }
}

/// The maximal runs of characters that are not white space, in order:
/// what `str::split_whitespace` yields.
pub open spec fn words(s: Seq<char>) -> Seq<Seq<char>> {
    let (done, open) = word_scan(s);
    if open.len() > 0 {
        done.push(open)
    } else {
        done
    }
}

/// One more character read: how the scan of words moves on.
proof fn lemma_word_scan_step(s: Seq<char>, i: int)
    requires
        0 <= i < s.len(),
    ensures
        ({
            let (done, open) = word_scan(s.take(i));
            word_scan(s.take(i + 1)) == if is_white_space(s[i]) {
                if open.len() > 0 {
                    (done.push(open), Seq::<char>::empty())
                } else {
                    (done, Seq::<char>::empty())
                }
            } else {
                (done, open.push(s[i]))
            }
        }),
{
    assert(s.take(i + 1).drop_last() =~= s.take(i));
    assert(s.take(i + 1).last() == s[i]);
}

/// The word of `s` at position `n` (counting from zero), if `s` has that
/// many words: `s.split_whitespace().nth(n)`.
pub fn nth_word(s: &str, n: usize) -> (r: Option<String>)
    ensures
        match r {
            Some(w) => n < words(s@).len() && w@ == words(s@)[n as int],
            None => n >= words(s@).len(),
        },
{
    let chars = chars_of(s);
    let len = chars.len();
    let mut starts: Vec<usize> = Vec::new();
    let mut ends: Vec<usize> = Vec::new();
    let mut open_start: usize = 0;
    let mut i: usize = 0;
    let ghost mut done: Seq<Seq<char>> = Seq::empty();
    while i < len
        invariant
            len == chars.len(),
            chars@ == s@,
            i <= len,
            open_start <= i,
            done == word_scan(s@.take(i as int)).0,
            s@.subrange(open_start as int, i as int) == word_scan(s@.take(i as int)).1,
            starts.len() == ends.len(),
            starts.len() == done.len(),
            forall|k: int|
                0 <= k < starts.len() ==> starts@[k] <= ends@[k] <= i && s@.subrange(
                    #[trigger] starts@[k] as int,
                    ends@[k] as int,
                ) == done[k],
        decreases len - i,
    {
        proof {
            lemma_word_scan_step(s@, i as int);
        }
        let ghost open = s@.subrange(open_start as int, i as int);
        let ghost old_starts = starts@;
        let ghost old_ends = ends@;
        if white_space(chars[i]) {
            if open_start < i {
                starts.push(open_start);
                ends.push(i);
                proof {
                    let prev = done;
                    done = done.push(open);
                    assert forall|k: int| 0 <= k < starts.len() implies starts@[k] <= ends@[k] <= i
                        && s@.subrange(#[trigger] starts@[k] as int, ends@[k] as int) == done[k] by {
                        if k < prev.len() {
                            assert(starts@[k] == old_starts[k]);
                            assert(ends@[k] == old_ends[k]);
                            assert(done[k] == prev[k]);
                        }
                    }
                }
            }
            open_start = i + 1;
            assert(s@.subrange(open_start as int, (i + 1) as int) =~= Seq::<char>::empty());
        } else {
            assert(s@.subrange(open_start as int, (i + 1) as int) =~= open.push(chars@[i as int]));
        }
        i = i + 1;
    }
    assert(s@.take(len as int) =~= s@);
    if n < starts.len() {
        Some(String::from_str(s.substring_char(starts[n], ends[n])))
    } else if n == starts.len() && open_start < len {
        Some(String::from_str(s.substring_char(open_start, len)))
    } else {
        None
    }
}

/// `pattern` occurs in `s` as a run of consecutive characters.
pub open spec fn contains_spec(s: Seq<char>, pattern: Seq<char>) -> bool {
    exists|i: int|
        0 <= i && i + pattern.len() <= s.len() && #[trigger] s.subrange(i, i + pattern.len())
            == pattern
}

/// Whether `pattern` occurs in `s`: `str::contains` with a string
/// pattern.
pub fn contains(s: &str, pattern: &str) -> (r: bool)
    ensures
        r == contains_spec(s@, pattern@),
{
    let hay = chars_of(s);
    let pat = chars_of(pattern);
    let n = hay.len();
    let m = pat.len();
    if m > n {
        return false;
    }
    let mut i: usize = 0;
    while i <= n - m
        invariant
            hay@ == s@,
            pat@ == pattern@,
            n == hay.len(),
            m == pat.len(),
            m <= n,
            i <= n - m + 1,
            forall|k: int| 0 <= k < i ==> #[trigger] s@.subrange(k, k + m) != pattern@,
        decreases n - m + 1 - i,
    {
        let mut j: usize = 0;
        while j < m && hay[i + j] == pat[j]
            invariant
                hay@ == s@,
                pat@ == pattern@,
                n == hay.len(),
                m == pat.len(),
                i + m <= n,
                j <= m,
                forall|l: int| 0 <= l < j ==> hay@[i + l] == pat@[l],
            decreases m - j,
        {
            j = j + 1;
        }
        if j == m {
            assert(s@.subrange(i as int, i + m) =~= pattern@);
            return true;
        }
        assert(s@.subrange(i as int, i + m)[j as int] != pattern@[j as int]);
        i = i + 1;
    }
    assert forall|k: int| 0 <= k && k + pattern@.len() <= s@.len() implies #[trigger] s@.subrange(
        k,
        k + pattern@.len(),
    ) != pattern@ by {
        assert(k < i);
    }
    false
}


/// The character of the decimal digit `d`.
pub open spec fn digit_char(d: nat) -> char
    recommends
        d < 10,
{
    (48 + d) as char
}

/// The decimal numeral of `n`, with no leading zeros: what `n.to_string()`
/// gives for an unsigned integer.
pub open spec fn decimal(n: nat) -> Seq<char>
    decreases n,
{
    if n < 10 {
        seq![digit_char(n)]
    } else {
        decimal(n / 10).push(digit_char(n % 10))
    }
}

/// The value that the digits of `s` spell in base ten.
pub open spec fn decimal_value(s: Seq<char>) -> nat
    decreases s.len(),
{
    if s.len() == 0 {
        0
    } else {
        decimal_value(s.drop_last()) * 10 + ((s.last() as u32) - 48) as nat
    }
}

/// Every character of `s` is one of `0` to `9`.
pub open spec fn all_digits(s: Seq<char>) -> bool {
    forall|i: int| 0 <= i < s.len() ==> '0' <= #[trigger] s[i] <= '9'
}

/// The one-character string of the decimal digit `d`.
fn digit_str(d: u64) -> (r: &'static str)
    requires
        d < 10,
    ensures
        r@ == seq![digit_char(d as nat)],
{
    proof {
        reveal_strlit("0");
        reveal_strlit("1");
        reveal_strlit("2");
        reveal_strlit("3");
        reveal_strlit("4");
        reveal_strlit("5");
        reveal_strlit("6");
        reveal_strlit("7");
        reveal_strlit("8");
        reveal_strlit("9");
    }
    if d == 0 {
        "0"
    } else if d == 1 {
        "1"
    } else if d == 2 {
        "2"
    } else if d == 3 {
        "3"
    } else if d == 4 {
        "4"
    } else if d == 5 {
        "5"
    } else if d == 6 {
        "6"
    } else if d == 7 {
        "7"
    } else if d == 8 {
        "8"
    } else {
        "9"
    }
}

/// The decimal numeral of `n`.
pub fn to_decimal(n: u64) -> (r: String)
    ensures
        r@ == decimal(n as nat),
    decreases n,
{
    if n < 10 {
        String::from_str(digit_str(n))
    } else {
        let mut r = to_decimal(n / 10);
        r.append(digit_str(n % 10));
        r
    }
}

/// A decimal numeral reads back as the number it was made from, is made
/// of digits only, and starts with a zero only when it is `0`.
pub proof fn lemma_decimal_round_trip(n: nat)
    ensures
        decimal_value(decimal(n)) == n,
        all_digits(decimal(n)),
        decimal(n).len() >= 1,
        decimal(n)[0] == '0' ==> n == 0,
    decreases n,
{
    if n < 10 {
        assert(((48 + n) as char) as u32 == 48 + n);
        assert(decimal(n).drop_last() =~= Seq::<char>::empty());
        assert(decimal(n).last() == (48 + n) as char);
        assert(decimal_value(decimal(n).drop_last()) == 0);
        assert(decimal_value(decimal(n)) == n);
    } else {
        lemma_decimal_round_trip(n / 10);
        let d = decimal(n);
        assert(d.drop_last() =~= decimal(n / 10));
        assert(d[0] == decimal(n / 10)[0]);
        assert(((48 + n % 10) as char) as u32 == 48 + n % 10);
        assert(n == (n / 10) * 10 + n % 10) by (nonlinear_arith);
        assert(d.last() == (48 + n % 10) as char);
        assert(decimal_value(d) == decimal_value(decimal(n / 10)) * 10 + n % 10);
    }
}


/// Whether `a` and `b` are the same text.
pub fn same_text(a: &str, b: &str) -> (r: bool)
    ensures
        r == (a@ == b@),
{
    let x = chars_of(a);
    let y = chars_of(b);
    if x.len() != y.len() {
        return false;
    }
    let mut i: usize = 0;
    while i < x.len()
        invariant
            x@ == a@,
            y@ == b@,
            x.len() == y.len(),
            i <= x.len(),
            forall|j: int| 0 <= j < i ==> x@[j] == y@[j],
        decreases x.len() - i,
    {
        if x[i] != y[i] {
            return false;
        }
        i = i + 1;
    }
    assert(x@ =~= y@);
    true
}

/// What `String::from_utf8_lossy` makes of `bytes`: their UTF-8 text,
/// with each invalid sequence replaced by U+FFFD.
pub uninterp spec fn lossy_utf8(bytes: Seq<u8>) -> Seq<char>;

/// Text of the bytes that a command wrote, by
/// `String::from_utf8_lossy`.  Claimed of it: the result is
/// `lossy_utf8` of the bytes, and bytes that are valid UTF-8 come back as
/// the text they encode.  What replaces an invalid sequence is not
/// stated.
#[verifier::external_body]
pub(crate) fn decode_lossy(bytes: &[u8]) -> (text: String)
    ensures
        text@ == lossy_utf8(bytes@),
        valid_utf8(bytes@) ==> text@ == decode_utf8(bytes@),
{
    String::from_utf8_lossy(bytes).into_owned()
}


/// Trimming the front leaves a suffix of `s` that is empty or starts
/// with a character that is not white space.
proof fn lemma_trim_start_shape(s: Seq<char>)
    ensures
        trim_start_spec(s).len() <= s.len(),
        trim_start_spec(s) == s.skip(s.len() - trim_start_spec(s).len()),
        trim_start_spec(s).len() > 0 ==> !is_white_space(trim_start_spec(s)[0]),
        forall|j: int| 0 <= j < s.len() - trim_start_spec(s).len() ==> is_white_space(#[trigger] s[j]),
    decreases s.len(),
{
    if s.len() > 0 && is_white_space(s[0]) {
        lemma_trim_start_shape(s.drop_first());
        let t = trim_start_spec(s.drop_first());
        assert(s.drop_first().skip(s.drop_first().len() - t.len()) =~= s.skip(s.len() - t.len()));
        assert forall|j: int| 0 <= j < s.len() - t.len() implies is_white_space(#[trigger] s[j]) by {
            if j > 0 {
                assert(s[j] == s.drop_first()[j - 1]);
            }
        }
    } else {
        assert(s.skip(0) =~= s);
    }
}

/// Trimming the back leaves a prefix of `s` that is empty or ends with a
/// character that is not white space; when `s` starts with such a
/// character, that character stays.
proof fn lemma_trim_end_shape(s: Seq<char>)
    ensures
        trim_end_spec(s).len() <= s.len(),
        trim_end_spec(s) == s.take(trim_end_spec(s).len() as int),
        trim_end_spec(s).len() > 0 ==> !is_white_space(trim_end_spec(s).last()),
        s.len() > 0 && !is_white_space(s[0]) ==> trim_end_spec(s).len() > 0,
        forall|j: int| trim_end_spec(s).len() <= j < s.len() ==> is_white_space(#[trigger] s[j]),
    decreases s.len(),
{
    if s.len() > 0 && is_white_space(s.last()) {
        lemma_trim_end_shape(s.drop_last());
        let t = trim_end_spec(s.drop_last());
        assert(s.drop_last().take(t.len() as int) =~= s.take(t.len() as int));
        assert forall|j: int| t.len() <= j < s.len() implies is_white_space(#[trigger] s[j]) by {
            if j < s.len() - 1 {
                assert(s[j] == s.drop_last()[j]);
            }
        }
        if s.len() > 0 && !is_white_space(s[0]) {
            assert(s.len() > 1);
            assert(s.drop_last()[0] == s[0]);
        }
    } else {
        assert(s.take(s.len() as int) =~= s);
    }
}

/// Trimmed text is empty or starts and ends with characters that are not
/// white space, and trimming it again changes nothing.
pub proof fn lemma_trim_idempotent(s: Seq<char>)
    ensures
        trim_spec(s).len() > 0 ==> !is_white_space(trim_spec(s)[0]) && !is_white_space(
            trim_spec(s).last(),
        ),
        trim_spec(trim_spec(s)) == trim_spec(s),
{
    let a = trim_start_spec(s);
    lemma_trim_start_shape(s);
    lemma_trim_end_shape(a);
    let t = trim_end_spec(a);
    if t.len() > 0 {
        assert(t[0] == a[0]);
        assert(trim_start_spec(t) == t);
        assert(trim_end_spec(t) == t);
    } else {
        assert(trim_start_spec(t) == t);
        assert(trim_end_spec(t) == t);
    }
}

/// Trimming cuts `s` to one run `s[a..b]` of its characters, and every
/// character cut away, before `a` or from `b` on, is white space; what
/// remains is empty only when all of `s` is white space.
pub proof fn lemma_trim_cuts_only_white_space(s: Seq<char>)
    ensures
        exists|a: int, b: int|
            0 <= a <= b <= s.len() && trim_spec(s) == s.subrange(a, b) && (forall|j: int|
                0 <= j < a ==> is_white_space(#[trigger] s[j])) && (forall|j: int|
                b <= j < s.len() ==> is_white_space(#[trigger] s[j])),
        trim_spec(s).len() == 0 <==> forall|j: int| 0 <= j < s.len() ==> is_white_space(#[trigger] s[j]),
{
    let t0 = trim_start_spec(s);
    lemma_trim_start_shape(s);
    lemma_trim_end_shape(t0);
    let a = s.len() - t0.len();
    let t = trim_end_spec(t0);
    let b = a + t.len();
    assert(t =~= s.subrange(a, b));
    assert forall|j: int| b <= j < s.len() implies is_white_space(#[trigger] s[j]) by {
        assert(s[j] == t0[j - a]);
    }
    if t.len() == 0 {
        assert forall|j: int| 0 <= j < s.len() implies is_white_space(#[trigger] s[j]) by {
            if j >= a {
                assert(s[j] == t0[j - a]);
            }
        }
    } else {
        assert(t[0] == s[a]);
        lemma_trim_idempotent(s);
    }
}

/// A word holds no white space.
pub open spec fn is_word(w: Seq<char>) -> bool {
    forall|i: int| 0 <= i < w.len() ==> !is_white_space(#[trigger] w[i])
}

/// The scan of words keeps its closed words non-empty and free of white
/// space, and its open word free of white space.
proof fn lemma_word_scan_shape(s: Seq<char>)
    ensures
        forall|k: int|
            0 <= k < word_scan(s).0.len() ==> #[trigger] word_scan(s).0[k].len() > 0 && is_word(
                word_scan(s).0[k],
            ),
        is_word(word_scan(s).1),
    decreases s.len(),
{
    if s.len() > 0 {
        lemma_word_scan_shape(s.drop_last());
        let (done, open) = word_scan(s.drop_last());
        if is_white_space(s.last()) {
            if open.len() > 0 {
                assert forall|k: int| 0 <= k < done.push(open).len() implies #[trigger] done.push(
                    open,
                )[k].len() > 0 && is_word(done.push(open)[k]) by {
                    if k < done.len() {
                        assert(done.push(open)[k] == done[k]);
                    }
                }
            }
        } else {
            assert forall|i: int| 0 <= i < open.push(s.last()).len() implies !is_white_space(
                #[trigger] open.push(s.last())[i],
            ) by {
                if i < open.len() {
                    assert(open.push(s.last())[i] == open[i]);
                }
            }
        }
    }
}

/// Every word that splitting yields is non-empty and holds no white
/// space.
pub proof fn lemma_words_are_words(s: Seq<char>)
    ensures
        forall|k: int|
            0 <= k < words(s).len() ==> #[trigger] words(s)[k].len() > 0 && is_word(words(s)[k]),
{
    lemma_word_scan_shape(s);
    let (done, open) = word_scan(s);
    if open.len() > 0 {
        assert forall|k: int| 0 <= k < words(s).len() implies #[trigger] words(s)[k].len() > 0
            && is_word(words(s)[k]) by {
            if k < done.len() {
                assert(done.push(open)[k] == done[k]);
            }
        }
    }
}


/// Reading `s`, a white-space character, then `t`: the words of `s` are
/// closed, and the scan carries on as over `t` alone.
proof fn lemma_word_scan_after_space(s: Seq<char>, c: char, t: Seq<char>)
    requires
        is_white_space(c),
    ensures
        word_scan(s + seq![c] + t).0 == words(s) + word_scan(t).0,
        word_scan(s + seq![c] + t).1 == word_scan(t).1,
    decreases t.len(),
{
    let whole = s + seq![c] + t;
    if t.len() == 0 {
        assert(whole.drop_last() =~= s);
        assert(whole.last() == c);
        assert(words(s) + word_scan(t).0 =~= words(s));
    } else {
        lemma_word_scan_after_space(s, c, t.drop_last());
        assert(whole.drop_last() =~= s + seq![c] + t.drop_last());
        assert(whole.last() == t.last());
        let prev = word_scan(t.drop_last());
        if is_white_space(t.last()) && prev.1.len() > 0 {
            assert(words(s) + prev.0.push(prev.1) =~= (words(s) + prev.0).push(prev.1));
        }
    }
}

/// A run of characters without white space is read as one open word.
proof fn lemma_word_scan_of_word(w: Seq<char>)
    requires
        is_word(w),
    ensures
        word_scan(w) == (Seq::<Seq<char>>::empty(), w),
    decreases w.len(),
{
    if w.len() > 0 {
        assert(is_word(w.drop_last())) by {
            assert forall|i: int| 0 <= i < w.drop_last().len() implies !is_white_space(
                #[trigger] w.drop_last()[i],
            ) by {
                assert(w.drop_last()[i] == w[i]);
            }
        }
        lemma_word_scan_of_word(w.drop_last());
        assert(!is_white_space(w[w.len() - 1]));
        assert(w.drop_last().push(w.last()) =~= w);
    }
}

/// Splitting into words, determined by three facts: empty text has no
/// words; a non-empty run without white space is one word; and text cut
/// at a white-space character splits into the words before it followed
/// by the words after it.
pub proof fn lemma_words_split(s: Seq<char>, c: char, t: Seq<char>, w: Seq<char>)
    ensures
        words(Seq::<char>::empty()) == Seq::<Seq<char>>::empty(),
        is_word(w) && w.len() > 0 ==> words(w) == seq![w],
        is_white_space(c) ==> words(s + seq![c] + t) == words(s) + words(t),
{
    if is_word(w) && w.len() > 0 {
        lemma_word_scan_of_word(w);
        assert(Seq::<Seq<char>>::empty().push(w) =~= seq![w]);
    }
    if is_white_space(c) {
        lemma_word_scan_after_space(s, c, t);
        let st = word_scan(t);
        if st.1.len() > 0 {
            assert((words(s) + st.0).push(st.1) =~= words(s) + st.0.push(st.1));
        }
    }
}

} // verus!
