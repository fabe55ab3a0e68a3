//! Character and string algorithms shared by the rest of the crate, each
//! stated over the `Seq<char>` view of the text.

use vstd::prelude::*;

verus! {

/// `String::push` appends one character to the end of the string.
pub assume_specification[ String::push ](s: &mut String, c: char)
    ensures
        final(s)@ == old(s)@.push(c),
;

/// The views of the elements of a sequence, one by one.
pub open spec fn views<T: View>(v: Seq<T>) -> Seq<T::V> {
    Seq::new(v.len(), |i: int| v[i]@)
}

/// Appending an element appends its view.
pub proof fn lemma_views_push<T: View>(v: Seq<T>, x: T)
    ensures
        views(v.push(x)) == views(v).push(x@),
{
    assert(views(v.push(x)) =~= views(v).push(x@));
}

/// The view of an optional text.
pub open spec fn opt_view(o: Option<String>) -> Option<Seq<char>> {
    match o {
        Some(s) => Some(s@),
        None => None,
    }
}

/// Unicode `White_Space`: what `char::is_whitespace` accepts.
pub open spec fn is_white_space(c: char) -> bool {
    let n = c as u32;
    ||| 0x09 <= n <= 0x0D
    ||| n == 0x20
    ||| n == 0x85
    ||| n == 0xA0
    ||| n == 0x1680
    ||| 0x2000 <= n <= 0x200A
    ||| n == 0x2028
    ||| n == 0x2029
    ||| n == 0x202F
    ||| n == 0x205F
    ||| n == 0x3000
}

/// Whether `c` is white space.
pub fn is_space(c: char) -> (b: bool)
    ensures
        b == is_white_space(c),
{
    let n: u32 = c as u32;
    (0x09 <= n && n <= 0x0D) || n == 0x20 || n == 0x85 || n == 0xA0 || n == 0x1680 || (0x2000 <= n
        && n <= 0x200A) || n == 0x2028 || n == 0x2029 || n == 0x202F || n == 0x205F || n == 0x3000
}

/// `s` without its leading white space.
pub open spec fn trim_start(s: Seq<char>) -> Seq<char>
    decreases s.len(),
{
    if s.len() > 0 && is_white_space(s[0]) {
        trim_start(s.drop_first())
    } else {
        s
    }
}

/// `s` without its trailing white space.
pub open spec fn trim_end(s: Seq<char>) -> Seq<char>
    decreases s.len(),
{
    if s.len() > 0 && is_white_space(s.last()) {
        trim_end(s.drop_last())
    } else {
        s
    }
}

/// `s` without leading and trailing white space.
pub open spec fn trimmed(s: Seq<char>) -> Seq<char> {
    trim_end(trim_start(s))
}

/// Nothing but white space.
pub open spec fn is_blank(s: Seq<char>) -> bool {
    forall|i: int| 0 <= i < s.len() ==> is_white_space(#[trigger] s[i])
}

/// White space at the start can be dropped before trimming the start.
pub proof fn lemma_trim_start_skip(s: Seq<char>, k: int)
    requires
        0 <= k <= s.len(),
        forall|i: int| 0 <= i < k ==> is_white_space(#[trigger] s[i]),
    ensures
        trim_start(s) == trim_start(s.skip(k)),
    decreases k,
{
    if k == 0 {
        assert(s.skip(0) =~= s);
    } else {
        lemma_trim_start_skip(s.drop_first(), k - 1);
        assert(s.drop_first().skip(k - 1) =~= s.skip(k));
    }
}

/// White space at the end can be dropped before trimming the end.
pub proof fn lemma_trim_end_take(s: Seq<char>, k: int)
    requires
        0 <= k <= s.len(),
        forall|i: int| k <= i < s.len() ==> is_white_space(#[trigger] s[i]),
    ensures
        trim_end(s) == trim_end(s.take(k)),
    decreases s.len() - k,
{
    if k == s.len() {
        assert(s.take(k) =~= s);
    } else {
        lemma_trim_end_take(s.drop_last(), k);
        assert(s.drop_last().take(k) =~= s.take(k));
    }
}

/// Trimming leaves a sub-range of the text whose ends, if it has any, are
/// not white space; everything cut away is white space.
pub proof fn lemma_trimmed_is_core(s: Seq<char>, lo: int, hi: int)
    requires
        0 <= lo <= hi <= s.len(),
        forall|i: int| 0 <= i < lo ==> is_white_space(#[trigger] s[i]),
        forall|i: int| hi <= i < s.len() ==> is_white_space(#[trigger] s[i]),
        lo < hi ==> !is_white_space(s[lo]) && !is_white_space(s[hi - 1]),
    ensures
        trimmed(s) == s.subrange(lo, hi),
{
    lemma_trim_start_skip(s, lo);
    let t = s.skip(lo);
    if lo == hi {
        // all of `t` is white space
        lemma_trim_start_skip(t, t.len() as int);
        assert(t.skip(t.len() as int) =~= Seq::<char>::empty());
        assert(s.subrange(lo, hi) =~= Seq::<char>::empty());
    } else {
        assert(t[0] == s[lo]);
        assert(trim_start(t) == t);
        lemma_trim_end_take(t, hi - lo);
        let u = t.take(hi - lo);
        assert(u =~= s.subrange(lo, hi));
        assert(u.last() == s[hi - 1]);
        assert(trim_end(u) == u);
    }
}

/// A text is blank exactly when trimming leaves nothing of it.
pub proof fn lemma_blank_iff_trimmed_empty(s: Seq<char>)
    ensures
        is_blank(s) <==> trimmed(s).len() == 0,
    decreases s.len(),
{
    if s.len() > 0 && is_white_space(s[0]) {
        lemma_blank_iff_trimmed_empty(s.drop_first());
        let t = s.drop_first();
        if is_blank(t) {
            assert forall|i: int| 0 <= i < s.len() implies is_white_space(#[trigger] s[i]) by {
                if i > 0 {
                    assert(t[i - 1] == s[i]);
                }
            }
        }
        if is_blank(s) {
            assert forall|i: int| 0 <= i < t.len() implies is_white_space(#[trigger] t[i]) by {
                assert(t[i] == s[i + 1]);
            }
        }
    } else if s.len() > 0 {
        assert(trim_start(s) == s);
        lemma_trim_end_keeps_head(s);
    }
}

proof fn lemma_trim_end_keeps_head(s: Seq<char>)
    requires
        s.len() > 0,
        !is_white_space(s[0]),
    ensures
        trim_end(s).len() > 0,
    decreases s.len(),
{
    if is_white_space(s.last()) {
        assert(s.len() > 1);
        lemma_trim_end_keeps_head(s.drop_last());
    }
}

/// The characters of `s`, in order.
pub fn chars_of(s: &str) -> (out: Vec<char>)
    ensures
        out@ == s@,
{
    broadcast use vstd::string::axiom_spec_iter;

    let mut out: Vec<char> = Vec::new();
    for c in it: s.chars()
        invariant
            it.seq() == s@,
            out@ == s@.take(it.index()),
    {
        out.push(c);
    }
    assert(s@.take(s@.len() as int) == s@);
    out
}

/// The text made of `chars[from..to]`.
pub fn string_of(chars: &Vec<char>, from: usize, to: usize) -> (out: String)
    requires
        from <= to <= chars.len(),
    ensures
        out@ == chars@.subrange(from as int, to as int),
{
    let mut out = String::new();
    let mut i: usize = from;
    while i < to
        invariant
            from <= i <= to <= chars.len(),
            out@ == chars@.subrange(from as int, i as int),
        decreases to - i,
    {
        out.push(chars[i]);
        i += 1;
    }
    out
}

/// Where the trimmed part of `chars` starts and ends.
pub fn trim_bounds(chars: &Vec<char>) -> (r: (usize, usize))
    ensures
        r.0 <= r.1 <= chars.len(),
        chars@.subrange(r.0 as int, r.1 as int) == trimmed(chars@),
        (r.0 == r.1) == is_blank(chars@),
{
    let n = chars.len();
    let mut lo: usize = 0;
    while lo < n && is_space(chars[lo])
        invariant
            lo <= n == chars.len(),
            forall|i: int| 0 <= i < lo ==> is_white_space(#[trigger] chars@[i]),
        decreases n - lo,
    {
        lo += 1;
    }
    let mut hi: usize = n;
    while hi > lo && is_space(chars[hi - 1])
        invariant
            lo <= hi <= n == chars.len(),
            forall|i: int| hi <= i < n ==> is_white_space(#[trigger] chars@[i]),
        decreases hi,
    {
        hi -= 1;
    }
    proof {
        lemma_trimmed_is_core(chars@, lo as int, hi as int);
        lemma_blank_iff_trimmed_empty(chars@);
    }
    (lo, hi)
}

/// `s` without leading and trailing white space.
pub fn trim(s: &str) -> (out: String)
    ensures
        out@ == trimmed(s@),
{
    let chars = chars_of(s);
    let (lo, hi) = trim_bounds(&chars);
    string_of(&chars, lo, hi)
}

/// Whether `s` holds nothing but white space (an empty text does).
pub fn blank(s: &str) -> (b: bool)
    ensures
        b == is_blank(s@),
        b == (trimmed(s@).len() == 0),
{
    let chars = chars_of(s);
    let (lo, hi) = trim_bounds(&chars);
    lo == hi
}

/// Whether two character vectors hold the same text.
pub fn same_chars(a: &Vec<char>, b: &Vec<char>) -> (r: bool)
    ensures
        r == (a@ == b@),
{
    if a.len() != b.len() {
        return false;
    }
    let mut i: usize = 0;
    while i < a.len()
        invariant
            i <= a.len() == b.len(),
            a@.take(i as int) == b@.take(i as int),
        decreases a.len() - i,
    {
        if a[i] != b[i] {
            return false;
        }
        assert(a@.take(i + 1) =~= a@.take(i as int).push(a@[i as int]));
        assert(b@.take(i + 1) =~= b@.take(i as int).push(b@[i as int]));
        i += 1;
    }
    assert(a@.take(a.len() as int) == a@);
    assert(b@.take(b.len() as int) == b@);
    true
}

/// Whether two texts are the same, character by character.
pub fn same_text(a: &str, b: &str) -> (r: bool)
    ensures
        r == (a@ == b@),
{
    let x = chars_of(a);
    let y = chars_of(b);
    same_chars(&x, &y)
}

/// What separates the pieces of a text.
#[derive(Clone, Copy, Debug)]
pub enum Separator {
    /// Any white space character.
    WhiteSpace,
    /// One given character.
    Char(char),
}

impl Separator {
    /// Whether `c` separates.
    pub open spec fn matches(self, c: char) -> bool {
        match self {
            Separator::WhiteSpace => is_white_space(c),
            Separator::Char(x) => c == x,
        }
    }

    /// Whether `c` separates.
    pub fn is_match(&self, c: char) -> (b: bool)
        ensures
            b == self.matches(c),
    {
        match self {
            Separator::WhiteSpace => is_space(c),
            Separator::Char(x) => c == *x,
        }
    }
}

/// How many characters at the start of `s` are not separators.
pub open spec fn piece_len(s: Seq<char>, sep: Separator) -> nat
    decreases s.len(),
{
    if s.len() > 0 && !sep.matches(s[0]) {
        1 + piece_len(s.drop_first(), sep)
    } else {
        0
    }
}

/// The leading piece is no longer than the text.
pub proof fn lemma_piece_len_bound(s: Seq<char>, sep: Separator)
    ensures
        piece_len(s, sep) <= s.len(),
    decreases s.len(),
{
    if s.len() > 0 && !sep.matches(s[0]) {
        lemma_piece_len_bound(s.drop_first(), sep);
    }
}

/// `k` is the length of the leading piece when the first `k` characters are
/// no separators and the piece ends there.
pub proof fn lemma_piece_len_is(s: Seq<char>, sep: Separator, k: int)
    requires
        0 <= k <= s.len(),
        forall|i: int| 0 <= i < k ==> !sep.matches(#[trigger] s[i]),
        k < s.len() ==> sep.matches(s[k]),
    ensures
        piece_len(s, sep) == k,
    decreases k,
{
    if k > 0 {
        let t = s.drop_first();
        assert forall|i: int| 0 <= i < k - 1 implies !sep.matches(#[trigger] t[i]) by {
            assert(t[i] == s[i + 1]);
        }
        lemma_piece_len_is(t, sep, k - 1);
    }
}

/// The maximal runs of characters that are no separators, in order. Empty
/// runs do not count, so leading, trailing and doubled separators add
/// nothing.
pub open spec fn pieces(s: Seq<char>, sep: Separator) -> Seq<Seq<char>>
    decreases s.len(),
{
    if s.len() == 0 {
        Seq::empty()
    } else if sep.matches(s[0]) {
        pieces(s.drop_first(), sep)
    } else {
        let n = piece_len(s, sep) as int;
        proof {
            lemma_piece_len_bound(s, sep);
        }
        seq![s.take(n)] + pieces(s.skip(n), sep)
    }
}

/// What splitting on white space yields.
pub open spec fn words(s: Seq<char>) -> Seq<Seq<char>> {
    pieces(s, Separator::WhiteSpace)
}

/// The pieces of `chars` between separators, empty ones dropped.
pub fn split_chars(chars: &Vec<char>, sep: Separator) -> (out: Vec<String>)
    ensures
        views(out@) == pieces(chars@, sep),
{
    let n = chars.len();
    let mut out: Vec<String> = Vec::new();
    let mut i: usize = 0;
    assert(chars@.skip(0) =~= chars@);
    assert(views(out@) =~= Seq::<Seq<char>>::empty());
    while i < n
        invariant
            i <= n == chars.len(),
            pieces(chars@, sep) == views(out@) + pieces(chars@.skip(i as int), sep),
        decreases n - i,
    {
        let ghost rest = chars@.skip(i as int);
        assert(rest[0] == chars@[i as int]);
        if sep.is_match(chars[i]) {
            assert(rest.drop_first() =~= chars@.skip(i + 1));
            i += 1;
        } else {
            let mut j: usize = i + 1;
            while j < n && !sep.is_match(chars[j])
                invariant
                    i < j <= n == chars.len(),
                    forall|k: int| i <= k < j ==> !sep.matches(#[trigger] chars@[k]),
                decreases n - j,
            {
                j += 1;
            }
            let piece = string_of(chars, i, j);
            proof {
                assert forall|k: int| 0 <= k < j - i implies !sep.matches(#[trigger] rest[k]) by {
                    assert(rest[k] == chars@[i + k]);
                }
                if j < n {
                    assert(rest[j - i] == chars@[j as int]);
                }
                lemma_piece_len_is(rest, sep, j - i);
                assert(rest.take(j - i) =~= chars@.subrange(i as int, j as int));
                assert(rest.skip(j - i) =~= chars@.skip(j as int));
                lemma_views_push(out@, piece);
                assert(views(out@).push(piece@) + pieces(chars@.skip(j as int), sep) =~= views(out@)
                    + (seq![piece@] + pieces(chars@.skip(j as int), sep)));
            }
            out.push(piece);
            i = j;
        }
    }
    assert(chars@.skip(n as int) =~= Seq::<char>::empty());
    assert(views(out@) + Seq::<Seq<char>>::empty() =~= views(out@));
    out
}

/// Splits `s` on white space, dropping empty pieces.
pub fn split_whitespace(s: &str) -> (out: Vec<String>)
    ensures
        views(out@) == words(s@),
{
    let chars = chars_of(s);
    split_chars(&chars, Separator::WhiteSpace)
}

/// The lower-case form of an ASCII capital; any other character unchanged.
pub open spec fn ascii_lower(c: char) -> char {
    if 'A' <= c && c <= 'Z' {
        ((c as u8) + 32) as u8 as char
    } else {
        c
    }
}

/// `s` with every ASCII capital in lower case.
pub open spec fn ascii_lowercase(s: Seq<char>) -> Seq<char> {
    Seq::new(s.len(), |i: int| ascii_lower(s[i]))
}

/// The lower-case form of an ASCII capital; any other character unchanged.
pub fn to_ascii_lower(c: char) -> (r: char)
    ensures
        r == ascii_lower(c),
{
    if 'A' <= c && c <= 'Z' {
        ((c as u8) + 32) as char
    } else {
        c
    }
}

/// `chars[from..to]` with every ASCII capital in lower case.
pub fn lowercase_range(chars: &Vec<char>, from: usize, to: usize) -> (out: Vec<char>)
    requires
        from <= to <= chars.len(),
    ensures
        out@ == ascii_lowercase(chars@.subrange(from as int, to as int)),
{
    let mut out: Vec<char> = Vec::new();
    let mut i: usize = from;
    while i < to
        invariant
            from <= i <= to <= chars.len(),
            out@ == ascii_lowercase(chars@.subrange(from as int, i as int)),
        decreases to - i,
    {
        out.push(to_ascii_lower(chars[i]));
        assert(out@ =~= ascii_lowercase(chars@.subrange(from as int, i + 1)));
        i += 1;
    }
    out
}

/// Whether `needle` occurs in `hay` as a run of consecutive characters.
pub open spec fn occurs_in(needle: Seq<char>, hay: Seq<char>) -> bool {
    exists|i: int|
        0 <= i && i + needle.len() <= hay.len() && #[trigger] hay.subrange(i, i + needle.len())
            == needle
}

/// A text occurs in whatever is put before and after it.
pub proof fn lemma_occurs_in_middle(before: Seq<char>, needle: Seq<char>, after: Seq<char>)
    ensures
        occurs_in(needle, before + needle + after),
{
    let hay = before + needle + after;
    let i = before.len() as int;
    assert(hay.subrange(i, i + needle.len()) =~= needle);
}

/// How many characters come before the first `c` in `s`; the length of `s`
/// when it holds none.
pub open spec fn position(s: Seq<char>, c: char) -> nat {
    piece_len(s, Separator::Char(c))
}

/// The first index at or after `from` that holds `c`, or the length.
pub fn find_char(chars: &Vec<char>, from: usize, c: char) -> (at: usize)
    requires
        from <= chars.len(),
    ensures
        from <= at <= chars.len(),
        at - from == position(chars@.skip(from as int), c),
        forall|k: int| from <= k < at ==> chars@[k] != c,
        at < chars.len() ==> chars@[at as int] == c,
{
    let mut at: usize = from;
    while at < chars.len() && chars[at] != c
        invariant
            from <= at <= chars.len(),
            forall|k: int| from <= k < at ==> chars@[k] != c,
        decreases chars.len() - at,
    {
        at += 1;
    }
    proof {
        let rest = chars@.skip(from as int);
        assert forall|k: int| 0 <= k < at - from implies !Separator::Char(c).matches(
            #[trigger] rest[k],
        ) by {
            assert(rest[k] == chars@[from + k]);
        }
        if at < chars.len() {
            assert(rest[at - from] == chars@[at as int]);
        }
        lemma_piece_len_is(rest, Separator::Char(c), at - from);
    }
    at
}

/// The two parts of `s` around its first `c`, or nothing when `s` holds
/// no `c`.
pub open spec fn split_at_first(s: Seq<char>, c: char) -> Option<(Seq<char>, Seq<char>)> {
    let at = position(s, c) as int;
    if at < s.len() {
        Some((s.take(at), s.skip(at + 1)))
    } else {
        None
    }
}

/// Splits `s` at its first `c`.
pub fn split_once(s: &str, c: char) -> (r: Option<(String, String)>)
    ensures
        match r {
            Some((before, after)) => split_at_first(s@, c) == Some((before@, after@)),
            None => split_at_first(s@, c) is None,
        },
{
    let chars = chars_of(s);
    assert(chars@.skip(0) =~= chars@);
    let at = find_char(&chars, 0, c);
    if at < chars.len() {
        let before = string_of(&chars, 0, at);
        let after = string_of(&chars, at + 1, chars.len());
        assert(chars@.subrange(0, at as int) =~= chars@.take(at as int));
        assert(chars@.subrange(at + 1, chars@.len() as int) =~= chars@.skip(at + 1));
        Some((before, after))
    } else {
        None
    }
}

/// `s` without one carriage return at its end, if it has one.
pub open spec fn strip_cr(s: Seq<char>) -> Seq<char> {
    if s.len() > 0 && s.last() == '\r' {
        s.drop_last()
    } else {
        s
    }
}

/// The lines of `s`. A line ends at a line feed; the line feed, and a
/// carriage return just before it, are not part of the line. A text that
/// ends with a line feed has no empty last line.
pub open spec fn lines_of(s: Seq<char>) -> Seq<Seq<char>>
    decreases s.len(),
{
    if s.len() == 0 {
        Seq::empty()
    } else {
        let n = position(s, '\n') as int;
        proof {
            lemma_piece_len_bound(s, Separator::Char('\n'));
        }
        if n == s.len() {
            seq![s]
        } else {
            seq![strip_cr(s.take(n))] + lines_of(s.skip(n + 1))
        }
    }
}

/// Splits `s` into its lines.
pub fn lines(s: &str) -> (out: Vec<String>)
    ensures
        views(out@) == lines_of(s@),
{
    let chars = chars_of(s);
    let n = chars.len();
    let mut out: Vec<String> = Vec::new();
    let mut i: usize = 0;
    assert(chars@.skip(0) =~= chars@);
    assert(views(out@) =~= Seq::<Seq<char>>::empty());
    while i < n
        invariant
            i <= n == chars.len(),
            lines_of(chars@) == views(out@) + lines_of(chars@.skip(i as int)),
        decreases n - i,
    {
        let ghost rest = chars@.skip(i as int);
        let end = find_char(&chars, i, '\n');
        if end == n {
            let line = string_of(&chars, i, n);
            proof {
                assert(chars@.subrange(i as int, n as int) =~= rest);
                lemma_views_push(out@, line);
                assert(chars@.skip(n as int) =~= Seq::<char>::empty());
                assert(views(out@).push(line@) + lines_of(chars@.skip(n as int)) =~= views(out@)
                    + seq![rest]);
            }
            out.push(line);
            i = n;
        } else {
            let stop = if end > i && chars[end - 1] == '\r' {
                end - 1
            } else {
                end
            };
            let line = string_of(&chars, i, stop);
            proof {
                let raw = rest.take(end - i);
                assert(raw =~= chars@.subrange(i as int, end as int));
                if end > i {
                    assert(raw.last() == chars@[end - 1]);
                }
                assert(strip_cr(raw) =~= chars@.subrange(i as int, stop as int));
                assert(rest.skip(end - i + 1) =~= chars@.skip(end + 1));
                lemma_views_push(out@, line);
                assert(views(out@).push(line@) + lines_of(chars@.skip(end + 1)) =~= views(out@) + (
                seq![line@] + lines_of(chars@.skip(end + 1))));
            }
            out.push(line);
            i = end + 1;
        }
    }
    assert(chars@.skip(n as int) =~= Seq::<char>::empty());
    assert(views(out@) + Seq::<Seq<char>>::empty() =~= views(out@));
    out
}

/// The decimal digit for `d`.
pub open spec fn digit(d: nat) -> char {
    (48 + d) as u8 as char
}

/// `n` in decimal, without sign or leading zeros.
pub open spec fn decimal_of(n: nat) -> Seq<char>
    decreases n,
{
    if n < 10 {
        seq![digit(n)]
    } else {
        decimal_of(n / 10).push(digit(n % 10))
    }
}

/// `n` in decimal.
pub fn decimal(n: u32) -> (out: String)
    ensures
        out@ == decimal_of(n as nat),
{
    // least significant digit first
    let mut rev: Vec<char> = Vec::new();
    let mut rest: u32 = n;
    while rest >= 10
        invariant
            decimal_of(n as nat) == decimal_of(rest as nat) + rev@.reverse(),
        decreases rest,
    {
        let d: u8 = (rest % 10) as u8;
        let ghost before = rev@;
        rev.push((48 + d) as char);
        proof {
            assert(rev@.reverse() =~= seq![digit((rest % 10) as nat)] + before.reverse());
            assert(decimal_of(rest as nat) + before.reverse() =~= decimal_of((rest / 10) as nat)
                + rev@.reverse());
        }
        rest = rest / 10;
    }
    let d: u8 = rest as u8;
    let ghost before = rev@;
    rev.push((48 + d) as char);
    assert(rev@.reverse() =~= decimal_of(rest as nat) + before.reverse());
    let mut out = String::new();
    let mut i: usize = rev.len();
    while i > 0
        invariant
            i <= rev.len(),
            out@ == rev@.reverse().take(rev.len() - i),
        decreases i,
    {
        i -= 1;
        out.push(rev[i]);
        assert(out@ =~= rev@.reverse().take(rev.len() - i));
    }
    assert(rev@.reverse().take(rev.len() as int) =~= rev@.reverse());
    out
}

} // verus!
