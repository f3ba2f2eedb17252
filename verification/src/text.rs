//! Character-level text handling shared by the configuration, `/proc` and
//! message code: whitespace trimming, splitting, decimal numbers.
//!
//! Every exec function here works on `Vec<char>` and is specified by an
//! open spec function over `Seq<char>` that states the same operation
//! directly.
use vstd::prelude::*;

verus! {

// ---------------------------------------------------------------------------
// Specifications
// ---------------------------------------------------------------------------

/// Unicode `White_Space`: the characters for which `char::is_whitespace` holds.
pub open spec fn is_ws(c: char) -> bool {
    let u = c as u32;
    ||| 9 <= u <= 13
    ||| u == 32
    ||| u == 0x85
    ||| u == 0xA0
    ||| u == 0x1680
    ||| 0x2000 <= u <= 0x200A
    ||| u == 0x2028
    ||| u == 0x2029
    ||| u == 0x202F
    ||| u == 0x205F
    ||| u == 0x3000
}

/// `s` without its leading whitespace.
pub open spec fn trim_start(s: Seq<char>) -> Seq<char>
    decreases s.len(),
{
    if s.len() > 0 && is_ws(s[0]) {
        trim_start(s.drop_first())
    } else {
        s
    }
}

/// `s` without its trailing whitespace.
pub open spec fn trim_end(s: Seq<char>) -> Seq<char>
    decreases s.len(),
{
    if s.len() > 0 && is_ws(s.last()) {
        trim_end(s.drop_last())
    } else {
        s
    }
}

/// `s` without leading and trailing whitespace (`str::trim`).
pub open spec fn trim(s: Seq<char>) -> Seq<char> {
    trim_end(trim_start(s))
}

/// Splitting `s` at every `sep`, read from the left: the pieces that a
/// separator has closed, and the piece still open.
pub open spec fn split_acc(s: Seq<char>, sep: char) -> (Seq<Seq<char>>, Seq<char>)
    decreases s.len(),
{
    if s.len() == 0 {
        (Seq::empty(), Seq::empty())
    } else {
        let p = split_acc(s.drop_last(), sep);
        if s.last() == sep {
            (p.0.push(p.1), Seq::empty())
        } else {
            (p.0, p.1.push(s.last()))
        }
    }
}

/// The pieces of `s` between occurrences of `sep` (`str::split` with a char):
/// always at least one piece, empty pieces kept.
pub open spec fn split_on(s: Seq<char>, sep: char) -> Seq<Seq<char>> {
    split_acc(s, sep).0.push(split_acc(s, sep).1)
}

/// A line without the `'\r'` that ends it, if any.
pub open spec fn strip_cr(l: Seq<char>) -> Seq<char> {
    if l.len() > 0 && l.last() == '\r' {
        l.drop_last()
    } else {
        l
    }
}

/// The lines of `s` (`str::lines`): split at `'\n'`, a `'\r'` just before a
/// `'\n'` dropped, and no empty line after a final `'\n'`.
pub open spec fn lines(s: Seq<char>) -> Seq<Seq<char>> {
    let p = split_acc(s, '\n');
    let done = p.0.map_values(|l: Seq<char>| strip_cr(l));
    if p.1.len() > 0 {
        done.push(p.1)
    } else {
        done
    }
}

/// Splitting `s` into words, read from the left: the words already ended by
/// whitespace, and the word still open.
pub open spec fn words_acc(s: Seq<char>) -> (Seq<Seq<char>>, Seq<char>)
    decreases s.len(),
{
    if s.len() == 0 {
        (Seq::empty(), Seq::empty())
    } else {
        let p = words_acc(s.drop_last());
        let c = s.last();
        if is_ws(c) {
            if p.1.len() > 0 {
                (p.0.push(p.1), Seq::empty())
            } else {
                (p.0, Seq::empty())
            }
        } else {
            (p.0, p.1.push(c))
        }
    }
}

/// The maximal runs of non-whitespace characters of `s`, in order
/// (`str::split_whitespace`).
pub open spec fn words(s: Seq<char>) -> Seq<Seq<char>> {
    let p = words_acc(s);
    if p.1.len() > 0 {
        p.0.push(p.1)
    } else {
        p.0
    }
}

/// Index of the first `c` in `s`.
pub open spec fn first_index(s: Seq<char>, c: char) -> Option<nat>
    decreases s.len(),
{
    if s.len() == 0 {
        None
    } else if s[0] == c {
        Some(0)
    } else {
        match first_index(s.drop_first(), c) {
            Some(i) => Some(i + 1),
            None => None,
        }
    }
}

/// The text before and after the first `c` (`str::splitn(2, c)` when it
/// yields two pieces); `None` when `s` holds no `c`.
pub open spec fn split_once(s: Seq<char>, c: char) -> Option<(Seq<char>, Seq<char>)> {
    match first_index(s, c) {
        Some(i) => Some((s.take(i as int), s.skip(i + 1 as int))),
        None => None,
    }
}

/// The code of `c` with ASCII upper-case letters mapped to lower case.
pub open spec fn ascii_fold(c: char) -> int {
    let u = c as u32;
    if 65 <= u <= 90 {
        u + 32
    } else {
        u as int
    }
}

/// Equality up to ASCII case (`str::eq_ignore_ascii_case`).
pub open spec fn eq_ignore_ascii_case(a: Seq<char>, b: Seq<char>) -> bool {
    &&& a.len() == b.len()
    &&& forall|i: int| 0 <= i < a.len() ==> ascii_fold(#[trigger] a[i]) == ascii_fold(b[i])
}

/// `s` begins with `p`.
pub open spec fn starts_with(s: Seq<char>, p: Seq<char>) -> bool {
    p.len() <= s.len() && s.take(p.len() as int) == p
}

pub open spec fn is_digit(c: char) -> bool {
    48 <= c as u32 <= 57
}

pub open spec fn digit_val(c: char) -> nat {
    (c as u32 - 48) as nat
}

pub open spec fn all_digits(s: Seq<char>) -> bool {
    forall|i: int| 0 <= i < s.len() ==> is_digit(#[trigger] s[i])
}

/// The number that the decimal digits `s` spell.
pub open spec fn digits_value(s: Seq<char>) -> nat
    decreases s.len(),
{
    if s.len() == 0 {
        0
    } else {
        digits_value(s.drop_last()) * 10 + digit_val(s.last())
    }
}

/// The digits of a number without sign: an optional leading `'+'` removed.
pub open spec fn unsigned_body(s: Seq<char>) -> Seq<char> {
    if s.len() > 0 && s[0] == '+' {
        s.drop_first()
    } else {
        s
    }
}

/// A non-empty run of decimal digits whose value is at most `max`.
pub open spec fn digits_within(b: Seq<char>, max: nat) -> bool {
    b.len() > 0 && all_digits(b) && digits_value(b) <= max
}

/// What `s.parse::<u64>()` gives: an optional `'+'`, then one or more
/// decimal digits whose value fits in a `u64`.
pub open spec fn parse_u64(s: Seq<char>) -> Option<u64> {
    let b = unsigned_body(s);
    if digits_within(b, u64::MAX as nat) {
        Some(digits_value(b) as u64)
    } else {
        None
    }
}

/// What `s.parse::<i32>()` gives: an optional `'+'` or `'-'`, then one or
/// more decimal digits whose signed value fits in an `i32`.
pub open spec fn parse_i32(s: Seq<char>) -> Option<i32> {
    if s.len() > 0 && s[0] == '-' {
        let b = s.drop_first();
        if digits_within(b, 0x8000_0000) {
            Some((-(digits_value(b) as int)) as i32)
        } else {
            None
        }
    } else {
        let b = unsigned_body(s);
        if digits_within(b, 0x7fff_ffff) {
            Some(digits_value(b) as i32)
        } else {
            None
        }
    }
}

pub open spec fn digit_char(d: nat) -> char {
    if d == 0 {
        '0'
    } else if d == 1 {
        '1'
    } else if d == 2 {
        '2'
    } else if d == 3 {
        '3'
    } else if d == 4 {
        '4'
    } else if d == 5 {
        '5'
    } else if d == 6 {
        '6'
    } else if d == 7 {
        '7'
    } else if d == 8 {
        '8'
    } else {
        '9'
    }
}

/// The decimal notation of `n`, without leading zeros.
pub open spec fn dec(n: nat) -> Seq<char>
    decreases n,
{
    if n < 10 {
        seq![digit_char(n)]
    } else {
        dec(n / 10).push(digit_char(n % 10))
    }
}

/// The decimal notation of a signed number, with `'-'` before a negative one.
pub open spec fn dec_int(n: int) -> Seq<char> {
    if n < 0 {
        seq!['-'] + dec((-n) as nat)
    } else {
        dec(n as nat)
    }
}

/// What `str::to_lowercase` returns for the characters `s` (Unicode
/// lower-case mapping).
pub uninterp spec fn lowercase(s: Seq<char>) -> Seq<char>;

/// Every character of `s` is ASCII.
pub open spec fn is_ascii_text(s: Seq<char>) -> bool {
    forall|i: int| 0 <= i < s.len() ==> (#[trigger] s[i]) as u32 <= 127
}

/// `c` with `A`-`Z` mapped to `a`-`z`.
pub open spec fn ascii_lower_char(c: char) -> char {
    let u = c as u32;
    if 65 <= u <= 90 {
        (u + 32) as char
    } else {
        c
    }
}

/// `s` with `A`-`Z` mapped to `a`-`z`, other characters kept.
pub open spec fn ascii_lower(s: Seq<char>) -> Seq<char> {
    s.map_values(|c: char| ascii_lower_char(c))
}

/// The lower-case form of `s` as `str::to_lowercase` gives it: for ASCII
/// text, `A`-`Z` mapped to `a`-`z`; otherwise the Unicode mapping `lowercase`.
pub open spec fn lower_text(s: Seq<char>) -> Seq<char> {
    if is_ascii_text(s) {
        ascii_lower(s)
    } else {
        lowercase(s)
    }
}

/// The texts held by a vector of character vectors.
pub open spec fn views(v: Seq<Vec<char>>) -> Seq<Seq<char>> {
    v.map_values(|w: Vec<char>| w@)
}

// ---------------------------------------------------------------------------
// Lemmas
// ---------------------------------------------------------------------------

/// The first `c` in `s` is at `i` when none comes before it.
pub proof fn lemma_first_index(s: Seq<char>, c: char, i: int)
    requires
        0 <= i <= s.len(),
        forall|j: int| 0 <= j < i ==> s[j] != c,
    ensures
        i < s.len() && s[i] == c ==> first_index(s, c) == Some(i as nat),
        i == s.len() ==> first_index(s, c) is None,
    decreases i,
{
    if i > 0 {
        let t = s.drop_first();
        assert forall|j: int| 0 <= j < i - 1 implies t[j] != c by {
            assert(t[j] == s[j + 1]);
        }
        lemma_first_index(t, c, i - 1);
        assert(s[0] != c);
    }
}

proof fn lemma_digits_value_prefix(b: Seq<char>, k: int)
    requires
        0 <= k <= b.len(),
        all_digits(b),
    ensures
        digits_value(b.take(k)) <= digits_value(b),
    decreases b.len(),
{
    if k < b.len() {
        assert(b.drop_last().take(k) =~= b.take(k));
        lemma_digits_value_prefix(b.drop_last(), k);
    } else {
        assert(b.take(k) =~= b);
    }
}

/// A text without the separator is one piece.
pub proof fn lemma_split_acc_no_sep(s: Seq<char>, sep: char)
    requires
        forall|j: int| 0 <= j < s.len() ==> s[j] != sep,
    ensures
        split_acc(s, sep) == (Seq::<Seq<char>>::empty(), s),
    decreases s.len(),
{
    if s.len() > 0 {
        lemma_split_acc_no_sep(s.drop_last(), sep);
        assert(s.drop_last().push(s.last()) =~= s);
    }
}

/// A number as `parse_u64` accepts it neither starts nor ends with
/// whitespace.
pub proof fn lemma_parsed_number_untrimmed(s: Seq<char>)
    requires
        parse_u64(s) is Some,
    ensures
        s.len() > 0,
        !is_ws(s[0]),
        !is_ws(s.last()),
{
    let b = unsigned_body(s);
    assert(is_digit(b[0]));
    assert(is_digit(b[b.len() - 1]));
    if s.len() > 0 && s[0] == '+' {
        assert(b[b.len() - 1] == s.last());
    } else {
        assert(b[0] == s[0]);
    }
}

/// Splitting `s`, a separator, then `t`: the pieces of `s` (its open piece
/// closed by the separator) followed by those of `t`.
pub proof fn lemma_split_acc_concat(s: Seq<char>, sep: char, t: Seq<char>)
    ensures
        split_acc(s + seq![sep] + t, sep) == (
            split_acc(s, sep).0.push(split_acc(s, sep).1) + split_acc(t, sep).0,
            split_acc(t, sep).1,
        ),
    decreases t.len(),
{
    let p = split_acc(s, sep);
    if t.len() == 0 {
        assert((s + seq![sep] + t).drop_last() =~= s);
        assert(p.0.push(p.1) + split_acc(t, sep).0 =~= p.0.push(p.1));
    } else {
        let u = s + seq![sep] + t;
        lemma_split_acc_concat(s, sep, t.drop_last());
        assert(u.drop_last() =~= s + seq![sep] + t.drop_last());
        assert(u.last() == t.last());
        let q = split_acc(t.drop_last(), sep);
        assert((p.0.push(p.1) + q.0).push(q.1) =~= p.0.push(p.1) + q.0.push(q.1));
    }
}

/// The lines of `s`, a newline, then `t`: the lines of `s` whose last piece
/// is closed by the newline (so loses a final `'\r'`, and counts as a line
/// even when empty), followed by the lines of `t`.
pub proof fn lemma_lines_concat(s: Seq<char>, t: Seq<char>)
    ensures
        lines(s + seq!['\n'] + t) == split_acc(s, '\n').0.map_values(|l: Seq<char>| strip_cr(l)).push(
            strip_cr(split_acc(s, '\n').1),
        ) + lines(t),
{
    lemma_split_acc_concat(s, '\n', t);
    let f = |l: Seq<char>| strip_cr(l);
    let p = split_acc(s, '\n');
    let q = split_acc(t, '\n');
    assert((p.0.push(p.1) + q.0).map_values(f) =~= p.0.map_values(f).push(strip_cr(p.1)) + q.0.map_values(f));
    if q.1.len() > 0 {
        assert((p.0.map_values(f).push(strip_cr(p.1)) + q.0.map_values(f)).push(q.1)
            =~= p.0.map_values(f).push(strip_cr(p.1)) + q.0.map_values(f).push(q.1));
    }
}

/// Without its last character, a non-empty text trimmed at the start is the
/// trimmed-at-the-start text without its last character.
proof fn lemma_trim_start_drop_last(s: Seq<char>)
    requires
        s.len() > 0,
    ensures
        trim_start(s).len() == 0 ==> trim_start(s.drop_last()).len() == 0,
        trim_start(s).len() > 0 ==> trim_start(s.drop_last()) == trim_start(s).drop_last()
            && trim_start(s).last() == s.last(),
    decreases s.len(),
{
    if s.len() == 1 {
        assert(s.drop_last() =~= Seq::<char>::empty());
        assert(s.drop_first() =~= Seq::<char>::empty());
    } else {
        assert(s.drop_last()[0] == s[0]);
        if is_ws(s[0]) {
            lemma_trim_start_drop_last(s.drop_first());
            assert(s.drop_last().drop_first() =~= s.drop_first().drop_last());
            assert(s.drop_first().last() == s.last());
        }
    }
}

/// Trailing whitespace makes no difference to the trimmed text.
pub proof fn lemma_trim_drop_trailing_ws(s: Seq<char>)
    requires
        s.len() > 0,
        is_ws(s.last()),
    ensures
        trim(s.drop_last()) == trim(s),
{
    lemma_trim_start_drop_last(s);
    let u = trim_start(s);
    if u.len() == 0 {
        assert(trim_start(s.drop_last()) =~= u);
    }
}

// ---------------------------------------------------------------------------
// Executable operations
// ---------------------------------------------------------------------------

/// Copies the characters of a string slice into a vector.
pub fn chars_of(s: &str) -> (out: Vec<char>)
    ensures
        out@ == s@,
{
    let mut out: Vec<char> = Vec::new();
    for c in it: s.chars()
        invariant
            out@ == it.seq().take(it.index() as int),
            it.seq() == s@,
    {
        out.push(c);
    }
    out
}

/// Builds a `String` whose characters are those of `v`, in order.
#[verifier::external_body]
pub(crate) fn string_from_chars(v: &Vec<char>) -> (s: String)
    ensures
        s@ == v@,
{
    v.iter().collect()
}

/// Lower-cases `s` with `str::to_lowercase`: the result is what the
/// Unicode lower-case mapping gives (named `lowercase`), which on ASCII text
/// maps `A`-`Z` to `a`-`z` and keeps every other character.
#[verifier::external_body]
pub(crate) fn to_lowercase(s: &Vec<char>) -> (r: Vec<char>)
    ensures
        r@ == lowercase(s@),
        is_ascii_text(s@) ==> r@ == ascii_lower(s@),
{
    let st: String = s.iter().collect();
    st.to_lowercase().chars().collect()
}

/// Appends the characters of `s` to `out`.
pub fn push_str(out: &mut Vec<char>, s: &str)
    ensures
        final(out)@ == old(out)@ + s@,
{
    let ghost start = out@;
    for c in it: s.chars()
        invariant
            out@ == start + it.seq().take(it.index() as int),
            it.seq() == s@,
    {
        out.push(c);
        proof {
            assert(it.seq().take(it.index() + 1) =~= it.seq().take(it.index() as int).push(c));
        }
    }
}

/// Appends the characters of `s` to `out`.
pub fn push_chars(out: &mut Vec<char>, s: &Vec<char>)
    ensures
        final(out)@ == old(out)@ + s@,
{
    let ghost start = out@;
    let n = s.len();
    let mut k: usize = 0;
    while k < n
        invariant
            n == s@.len(),
            k <= n,
            out@ == start + s@.take(k as int),
        decreases n - k,
    {
        out.push(s[k]);
        proof {
            assert(s@.take(k + 1) =~= s@.take(k as int).push(s@[k as int]));
        }
        k += 1;
    }
    proof {
        assert(s@.take(n as int) =~= s@);
    }
}

/// Whether `c` is whitespace in the sense of `char::is_whitespace`.
pub fn is_whitespace(c: char) -> (b: bool)
    ensures
        b == is_ws(c),
{
    let u = c as u32;
    (9 <= u && u <= 13) || u == 32 || u == 0x85 || u == 0xA0 || u == 0x1680 || (0x2000 <= u && u
        <= 0x200A) || u == 0x2028 || u == 0x2029 || u == 0x202F || u == 0x205F || u == 0x3000
}

/// `s` without leading and trailing whitespace.
pub fn trim_chars(s: &Vec<char>) -> (t: Vec<char>)
    ensures
        t@ == trim(s@),
{
    let n = s.len();
    let mut i: usize = 0;
    proof {
        assert(s@.subrange(0, n as int) =~= s@);
    }
    while i < n && is_whitespace(s[i])
        invariant
            i <= n,
            n == s@.len(),
            trim_start(s@) == trim_start(s@.subrange(i as int, n as int)),
        decreases n - i,
    {
        proof {
            assert(s@.subrange(i as int, n as int).drop_first() =~= s@.subrange(i + 1, n as int));
        }
        i += 1;
    }
    proof {
        if i < n {
            assert(s@.subrange(i as int, n as int)[0] == s@[i as int]);
        }
    }
    let mut j: usize = n;
    while j > i && is_whitespace(s[j - 1])
        invariant
            i <= j <= n,
            n == s@.len(),
            trim_start(s@) == s@.subrange(i as int, n as int),
            trim_end(s@.subrange(i as int, n as int)) == trim_end(s@.subrange(i as int, j as int)),
        decreases j - i,
    {
        proof {
            assert(s@.subrange(i as int, j as int).drop_last() =~= s@.subrange(i as int, j - 1));
        }
        j -= 1;
    }
    proof {
        if j > i {
            assert(s@.subrange(i as int, j as int).last() == s@[j - 1]);
        }
    }
    let mut t: Vec<char> = Vec::new();
    let mut k: usize = i;
    while k < j
        invariant
            i <= k <= j,
            j <= n,
            n == s@.len(),
            t@ == s@.subrange(i as int, k as int),
        decreases j - k,
    {
        t.push(s[k]);
        proof {
            assert(s@.subrange(i as int, k + 1) =~= s@.subrange(i as int, k as int).push(s@[k as int]));
        }
        k += 1;
    }
    t
}

/// The pieces of `s` between occurrences of `sep`.
pub fn split_chars(s: &Vec<char>, sep: char) -> (pieces: Vec<Vec<char>>)
    ensures
        views(pieces@) == split_on(s@, sep),
{
    let n = s.len();
    let mut done: Vec<Vec<char>> = Vec::new();
    let mut cur: Vec<char> = Vec::new();
    let mut k: usize = 0;
    while k < n
        invariant
            k <= n,
            n == s@.len(),
            views(done@) == split_acc(s@.take(k as int), sep).0,
            cur@ == split_acc(s@.take(k as int), sep).1,
        decreases n - k,
    {
        let c = s[k];
        proof {
            assert(s@.take(k + 1).drop_last() =~= s@.take(k as int));
        }
        if c == sep {
            let ghost before = views(done@);
            let piece = cur;
            done.push(piece);
            proof {
                assert(views(done@) =~= before.push(piece@));
            }
            cur = Vec::new();
        } else {
            cur.push(c);
        }
        k += 1;
    }
    proof {
        assert(s@.take(n as int) =~= s@);
    }
    let ghost before = views(done@);
    let last = cur;
    done.push(last);
    proof {
        assert(views(done@) =~= before.push(last@));
    }
    done
}

/// The lines of `s`, as `str::lines` yields them.
pub fn split_lines(s: &Vec<char>) -> (out: Vec<Vec<char>>)
    ensures
        views(out@) == lines(s@),
{
    let n = s.len();
    let mut done: Vec<Vec<char>> = Vec::new();
    let mut cur: Vec<char> = Vec::new();
    let mut k: usize = 0;
    while k < n
        invariant
            k <= n,
            n == s@.len(),
            views(done@) == split_acc(s@.take(k as int), '\n').0.map_values(
                |l: Seq<char>| strip_cr(l),
            ),
            cur@ == split_acc(s@.take(k as int), '\n').1,
        decreases n - k,
    {
        let c = s[k];
        proof {
            assert(s@.take(k + 1).drop_last() =~= s@.take(k as int));
        }
        if c == '\n' {
            let ghost before = views(done@);
            let ghost raw = cur@;
            let len = cur.len();
            if len > 0 && cur[len - 1] == '\r' {
                cur.pop();
            }
            let piece = cur;
            done.push(piece);
            proof {
                assert(piece@ == strip_cr(raw));
                assert(views(done@) =~= before.push(strip_cr(raw)));
                assert(split_acc(s@.take(k + 1), '\n').0 == split_acc(s@.take(k as int), '\n').0.push(raw));
                assert(split_acc(s@.take(k + 1), '\n').0.map_values(|l: Seq<char>| strip_cr(l))
                    =~= before.push(strip_cr(raw)));
            }
            cur = Vec::new();
        } else {
            cur.push(c);
        }
        k += 1;
    }
    proof {
        assert(s@.take(n as int) =~= s@);
    }
    if cur.len() > 0 {
        let ghost before = views(done@);
        let last = cur;
        done.push(last);
        proof {
            assert(views(done@) =~= before.push(last@));
        }
    }
    done
}

/// The words of `s`, as `str::split_whitespace` yields them.
pub fn split_words(s: &Vec<char>) -> (out: Vec<Vec<char>>)
    ensures
        views(out@) == words(s@),
{
    let n = s.len();
    let mut done: Vec<Vec<char>> = Vec::new();
    let mut cur: Vec<char> = Vec::new();
    let mut k: usize = 0;
    while k < n
        invariant
            k <= n,
            n == s@.len(),
            views(done@) == words_acc(s@.take(k as int)).0,
            cur@ == words_acc(s@.take(k as int)).1,
        decreases n - k,
    {
        let c = s[k];
        proof {
            assert(s@.take(k + 1).drop_last() =~= s@.take(k as int));
        }
        if is_whitespace(c) {
            if cur.len() > 0 {
                let ghost before = views(done@);
                let piece = cur;
                done.push(piece);
                proof {
                    assert(views(done@) =~= before.push(piece@));
                }
                cur = Vec::new();
            }
        } else {
            cur.push(c);
        }
        k += 1;
    }
    proof {
        assert(s@.take(n as int) =~= s@);
    }
    if cur.len() > 0 {
        let ghost before = views(done@);
        let last = cur;
        done.push(last);
        proof {
            assert(views(done@) =~= before.push(last@));
        }
    }
    done
}

/// The text before and after the first `c` in `s`, or `None` if there is none.
pub fn split_once_chars(s: &Vec<char>, c: char) -> (r: Option<(Vec<char>, Vec<char>)>)
    ensures
        match r {
            Some((a, b)) => split_once(s@, c) == Some((a@, b@)),
            None => split_once(s@, c) is None,
        },
{
    let n = s.len();
    let mut i: usize = 0;
    while i < n && s[i] != c
        invariant
            i <= n,
            n == s@.len(),
            forall|j: int| 0 <= j < i ==> s@[j] != c,
        decreases n - i,
    {
        i += 1;
    }
    proof {
        lemma_first_index(s@, c, i as int);
    }
    if i == n {
        return None;
    }
    let mut a: Vec<char> = Vec::new();
    let mut k: usize = 0;
    while k < i
        invariant
            k <= i,
            i < n,
            n == s@.len(),
            a@ == s@.take(k as int),
        decreases i - k,
    {
        a.push(s[k]);
        proof {
            assert(s@.take(k + 1) =~= s@.take(k as int).push(s@[k as int]));
        }
        k += 1;
    }
    let mut b: Vec<char> = Vec::new();
    let mut k: usize = i + 1;
    while k < n
        invariant
            i + 1 <= k <= n,
            n == s@.len(),
            b@ == s@.subrange(i + 1, k as int),
        decreases n - k,
    {
        b.push(s[k]);
        proof {
            assert(s@.subrange(i + 1, k + 1) =~= s@.subrange(i + 1, k as int).push(s@[k as int]));
        }
        k += 1;
    }
    proof {
        assert(s@.subrange(i + 1, n as int) =~= s@.skip(i + 1));
    }
    Some((a, b))
}

/// Whether `s` is the text of `lit`.
pub fn eq_str(s: &Vec<char>, lit: &str) -> (b: bool)
    ensures
        b == (s@ == lit@),
{
    let l = chars_of(lit);
    let n = s.len();
    if n != l.len() {
        return false;
    }
    let mut k: usize = 0;
    while k < n
        invariant
            k <= n,
            n == s@.len(),
            n == l@.len(),
            l@ == lit@,
            forall|j: int| 0 <= j < k ==> s@[j] == l@[j],
        decreases n - k,
    {
        if s[k] != l[k] {
            return false;
        }
        k += 1;
    }
    proof {
        assert(s@ =~= l@);
    }
    true
}

/// Whether `s` begins with the text of `lit`.
pub fn starts_with_str(s: &Vec<char>, lit: &str) -> (b: bool)
    ensures
        b == starts_with(s@, lit@),
{
    let l = chars_of(lit);
    let m = l.len();
    if m > s.len() {
        return false;
    }
    let mut k: usize = 0;
    while k < m
        invariant
            k <= m,
            m <= s@.len(),
            m == l@.len(),
            l@ == lit@,
            forall|j: int| 0 <= j < k ==> s@[j] == l@[j],
        decreases m - k,
    {
        if s[k] != l[k] {
            proof {
                assert(s@.take(m as int)[k as int] == s@[k as int]);
            }
            return false;
        }
        k += 1;
    }
    proof {
        assert(s@.take(m as int) =~= l@);
    }
    true
}

fn ascii_fold_code(c: char) -> (r: u32)
    ensures
        r as int == ascii_fold(c),
{
    let u = c as u32;
    if 65 <= u && u <= 90 {
        u + 32
    } else {
        u
    }
}

/// Whether `a` and `lit` are equal up to ASCII case.
pub fn eq_ignore_ascii_case_str(a: &Vec<char>, lit: &str) -> (b: bool)
    ensures
        b == eq_ignore_ascii_case(a@, lit@),
{
    let l = chars_of(lit);
    let n = a.len();
    if n != l.len() {
        return false;
    }
    let mut k: usize = 0;
    while k < n
        invariant
            k <= n,
            n == a@.len(),
            n == l@.len(),
            l@ == lit@,
            forall|j: int| 0 <= j < k ==> ascii_fold(a@[j]) == ascii_fold(l@[j]),
        decreases n - k,
    {
        if ascii_fold_code(a[k]) != ascii_fold_code(l[k]) {
            return false;
        }
        k += 1;
    }
    true
}

/// The value of the digits `s[start..]`, if they are one or more decimal
/// digits whose value fits in a `u64`.
fn parse_digits(s: &Vec<char>, start: usize) -> (r: Option<u64>)
    requires
        start <= s@.len(),
    ensures
        r == (if digits_within(s@.skip(start as int), u64::MAX as nat) {
            Some(digits_value(s@.skip(start as int)) as u64)
        } else {
            None::<u64>
        }),
{
    let n = s.len();
    let ghost body = s@.skip(start as int);
    if start == n {
        return None;
    }
    let mut acc: u64 = 0;
    let mut k: usize = start;
    while k < n
        invariant
            start <= k <= n,
            start < n,
            n == s@.len(),
            body == s@.skip(start as int),
            body.take(k - start) == s@.subrange(start as int, k as int),
            acc as nat == digits_value(s@.subrange(start as int, k as int)),
            all_digits(s@.subrange(start as int, k as int)),
        decreases n - k,
    {
        let c = s[k];
        let u = c as u32;
        let ghost prev = s@.subrange(start as int, k as int);
        let ghost next = s@.subrange(start as int, k + 1);
        proof {
            assert(next.drop_last() =~= prev);
            assert(next.last() == c);
            assert(body.take(k + 1 - start) =~= next);
        }
        if !(48 <= u && u <= 57) {
            proof {
                assert(body[k - start] == c);
            }
            return None;
        }
        let d = (u - 48) as u64;
        let m = acc.checked_mul(10);
        if m.is_none() {
            proof {
                if all_digits(body) {
                    lemma_digits_value_prefix(body, k + 1 - start);
                }
            }
            return None;
        }
        let m = m.unwrap();
        let v = m.checked_add(d);
        if v.is_none() {
            proof {
                if all_digits(body) {
                    lemma_digits_value_prefix(body, k + 1 - start);
                }
            }
            return None;
        }
        acc = v.unwrap();
        proof {
            assert forall|j: int| 0 <= j < next.len() implies is_digit(#[trigger] next[j]) by {
                if j < prev.len() {
                    assert(next[j] == prev[j]);
                }
            }
        }
        k += 1;
    }
    proof {
        assert(s@.subrange(start as int, n as int) =~= body);
    }
    Some(acc)
}

/// Parses a `u64` as `str::parse::<u64>` does.
pub fn parse_u64_chars(s: &Vec<char>) -> (r: Option<u64>)
    ensures
        r == parse_u64(s@),
{
    if s.len() > 0 && s[0] == '+' {
        proof {
            assert(s@.skip(1) =~= s@.drop_first());
        }
        parse_digits(s, 1)
    } else {
        proof {
            assert(s@.skip(0) =~= s@);
        }
        parse_digits(s, 0)
    }
}

/// Parses an `i32` as `str::parse::<i32>` does.
pub fn parse_i32_chars(s: &Vec<char>) -> (r: Option<i32>)
    ensures
        r == parse_i32(s@),
{
    if s.len() > 0 && s[0] == '-' {
        proof {
            assert(s@.skip(1) =~= s@.drop_first());
        }
        match parse_digits(s, 1) {
            Some(v) => {
                if v <= 0x8000_0000 {
                    Some((0 - (v as i64)) as i32)
                } else {
                    None
                }
            },
            None => None,
        }
    } else {
        let start: usize = if s.len() > 0 && s[0] == '+' {
            1
        } else {
            0
        };
        proof {
            if start == 1 {
                assert(s@.skip(1) =~= s@.drop_first());
            } else {
                assert(s@.skip(0) =~= s@);
            }
        }
        match parse_digits(s, start) {
            Some(v) => {
                if v <= 0x7fff_ffff {
                    Some(v as i32)
                } else {
                    None
                }
            },
            None => None,
        }
    }
}

fn digit_to_char(d: u64) -> (c: char)
    requires
        d < 10,
    ensures
        c == digit_char(d as nat),
{
    if d == 0 {
        '0'
    } else if d == 1 {
        '1'
    } else if d == 2 {
        '2'
    } else if d == 3 {
        '3'
    } else if d == 4 {
        '4'
    } else if d == 5 {
        '5'
    } else if d == 6 {
        '6'
    } else if d == 7 {
        '7'
    } else if d == 8 {
        '8'
    } else {
        '9'
    }
}

/// Appends the decimal notation of `n` to `out`.
pub fn push_u64(out: &mut Vec<char>, n: u64)
    ensures
        final(out)@ == old(out)@ + dec(n as nat),
    decreases n,
{
    if n >= 10 {
        push_u64(out, n / 10);
        out.push(digit_to_char(n % 10));
        proof {
            assert(out@ =~= old(out)@ + dec(n as nat));
        }
    } else {
        out.push(digit_to_char(n));
        proof {
            assert(out@ =~= old(out)@ + dec(n as nat));
        }
    }
}

/// Appends the decimal notation of `n` to `out`, with `'-'` before a
/// negative number.
pub fn push_i32(out: &mut Vec<char>, n: i32)
    ensures
        final(out)@ == old(out)@ + dec_int(n as int),
{
    if n < 0 {
        out.push('-');
        let m: u64 = (0 - (n as i64)) as u64;
        push_u64(out, m);
        proof {
            assert(out@ =~= old(out)@ + dec_int(n as int));
        }
    } else {
        push_u64(out, n as u64);
    }
}

} // verus!
