//! Text as sequences of `char`.
//!
//! The parsers of this crate work on `Vec<char>` and `&[char]`, whose view is
//! the same `Seq<char>` that a `String` has. This module holds the sequence
//! functions they are specified with, and the executable functions that
//! compute them.

use vstd::prelude::*;

verus! {

/// A set of characters that text is split at or trimmed of.
#[derive(Clone, Copy, Debug)]
pub enum CharClass {
    /// The characters with the Unicode property `White_Space`.
    Whitespace,
    /// One character.
    Exactly(char),
    /// The two square brackets.
    Bracket,
}

/// Whether `c` has the Unicode property `White_Space`.
pub open spec fn is_white_space(c: char) -> bool {
    let u = c as u32;
    ||| 0x09 <= u <= 0x0D
    ||| u == 0x20
    ||| u == 0x85
    ||| u == 0xA0
    ||| u == 0x1680
    ||| 0x2000 <= u <= 0x200A
    ||| u == 0x2028
    ||| u == 0x2029
    ||| u == 0x202F
    ||| u == 0x205F
    ||| u == 0x3000
}

impl CharClass {
    /// Membership of `c` in the class.
    pub open spec fn has(self, c: char) -> bool {
        match self {
            CharClass::Whitespace => is_white_space(c),
            CharClass::Exactly(d) => c == d,
            CharClass::Bracket => c == '[' || c == ']',
        }
    }

    pub fn contains(&self, c: char) -> (r: bool)
        ensures
            r == self.has(c),
    {
        match self {
            CharClass::Whitespace => {
                let u: u32 = c as u32;
                (0x09 <= u && u <= 0x0D) || u == 0x20 || u == 0x85 || u == 0xA0 || u == 0x1680
                    || (0x2000 <= u && u <= 0x200A) || u == 0x2028 || u == 0x2029 || u == 0x202F
                    || u == 0x205F || u == 0x3000
            },
            CharClass::Exactly(d) => c == *d,
            CharClass::Bracket => c == '[' || c == ']',
        }
    }
}

/// The index of the first character of `s` that is in `class`, or `s.len()`
/// when there is none.
pub open spec fn index_of(s: Seq<char>, class: CharClass) -> int
    decreases s.len(),
{
    if s.len() == 0 {
        0
    } else if class.has(s[0]) {
        0
    } else {
        1 + index_of(s.skip(1), class)
    }
}

/// What `index_of` returns is in range, is in the class if it is an index,
/// and nothing before it is in the class.
pub proof fn lemma_index_of(s: Seq<char>, class: CharClass)
    ensures
        0 <= index_of(s, class) <= s.len(),
        index_of(s, class) < s.len() ==> class.has(s[index_of(s, class)]),
        forall|j: int| 0 <= j < index_of(s, class) ==> !class.has(#[trigger] s[j]),
    decreases s.len(),
{
    if s.len() > 0 && !class.has(s[0]) {
        let rest = s.skip(1);
        lemma_index_of(rest, class);
        assert forall|j: int| 0 <= j < index_of(s, class) implies !class.has(#[trigger] s[j]) by {
            if j > 0 {
                assert(s[j] == rest[j - 1]);
            }
        }
    }
}

/// The first index that meets the three conditions of `lemma_index_of` is
/// `index_of`.
pub proof fn lemma_index_of_is(s: Seq<char>, class: CharClass, i: int)
    requires
        0 <= i <= s.len(),
        i < s.len() ==> class.has(s[i]),
        forall|j: int| 0 <= j < i ==> !class.has(#[trigger] s[j]),
    ensures
        index_of(s, class) == i,
{
    lemma_index_of(s, class);
    let k = index_of(s, class);
    if k < i {
        assert(class.has(s[k]));
    } else if i < k {
        assert(!class.has(s[i]));
    }
}

/// The pieces of `s` between the characters of `class`, empty pieces
/// included: one more piece than `s` has characters of the class.
pub open spec fn split(s: Seq<char>, class: CharClass) -> Seq<Seq<char>>
    decreases s.len(),
{
    let i = index_of(s, class);
    if 0 <= i < s.len() {
        seq![s.take(i)] + split(s.skip(i + 1), class)
    } else {
        seq![s]
    }
}

/// The non-empty pieces of `s` between the characters of `class`.
pub open spec fn tokens(s: Seq<char>, class: CharClass) -> Seq<Seq<char>>
    decreases s.len(),
{
    let i = index_of(s, class);
    let rest = if 0 <= i < s.len() {
        tokens(s.skip(i + 1), class)
    } else {
        Seq::empty()
    };
    if i > 0 {
        seq![s.take(i)] + rest
    } else {
        rest
    }
}

/// `s` cut at its first character of `class`: what stands before it and what
/// stands after it.
pub open spec fn split_once(s: Seq<char>, class: CharClass) -> Option<(Seq<char>, Seq<char>)> {
    let i = index_of(s, class);
    if 0 <= i < s.len() {
        Some((s.take(i), s.skip(i + 1)))
    } else {
        None
    }
}

/// `s` without its leading characters of `class`.
pub open spec fn strip_start(s: Seq<char>, class: CharClass) -> Seq<char>
    decreases s.len(),
{
    if s.len() > 0 && class.has(s[0]) {
        strip_start(s.skip(1), class)
    } else {
        s
    }
}

/// `s` without its trailing characters of `class`.
pub open spec fn strip_end(s: Seq<char>, class: CharClass) -> Seq<char>
    decreases s.len(),
{
    if s.len() > 0 && class.has(s.last()) {
        strip_end(s.drop_last(), class)
    } else {
        s
    }
}

/// `s` without its leading and trailing characters of `class`.
pub open spec fn strip(s: Seq<char>, class: CharClass) -> Seq<char> {
    strip_end(strip_start(s, class), class)
}

/// `s` without leading and trailing white space.
pub open spec fn trim(s: Seq<char>) -> Seq<char> {
    strip(s, CharClass::Whitespace)
}

/// Whether `pat` stands in `hay` at index `i`.
pub open spec fn matches_at<T>(hay: Seq<T>, pat: Seq<T>, i: int) -> bool {
    0 <= i && i + pat.len() <= hay.len() && hay.subrange(i, i + pat.len()) == pat
}

/// The first index at or after `from` at which `pat` stands in `hay`.
pub open spec fn find_from<T>(hay: Seq<T>, pat: Seq<T>, from: int) -> Option<int>
    decreases hay.len() - from + 1,
{
    if from < 0 || from + pat.len() > hay.len() {
        None
    } else if matches_at(hay, pat, from) {
        Some(from)
    } else {
        find_from(hay, pat, from + 1)
    }
}

/// The first index at which `pat` stands in `hay`.
pub open spec fn find<T>(hay: Seq<T>, pat: Seq<T>) -> Option<int> {
    find_from(hay, pat, 0)
}

/// `find_from` returns the least index not below `from` at which the
/// pattern stands, and `None` exactly when there is no such index.
pub proof fn lemma_find_from<T>(hay: Seq<T>, pat: Seq<T>, from: int)
    requires
        0 <= from,
    ensures
        match find_from(hay, pat, from) {
            Some(i) => from <= i && matches_at(hay, pat, i) && forall|j: int|
                from <= j < i ==> !matches_at(hay, pat, j),
            None => forall|j: int| from <= j ==> !matches_at(hay, pat, j),
        },
    decreases hay.len() - from + 1,
{
    if from + pat.len() <= hay.len() && !matches_at(hay, pat, from) {
        lemma_find_from(hay, pat, from + 1);
    }
}

/// Whether `s` begins with `prefix`.
pub open spec fn starts_with<T>(s: Seq<T>, prefix: Seq<T>) -> bool {
    matches_at(s, prefix, 0)
}

/// The pieces of `s` between the occurrences of `pat`, found from the left
/// and not overlapping. An empty pattern splits nothing.
pub open spec fn split_on<T>(s: Seq<T>, pat: Seq<T>) -> Seq<Seq<T>>
    decreases s.len(),
{
    match find(s, pat) {
        Some(i) => if pat.len() > 0 && 0 <= i && i + pat.len() <= s.len() {
            seq![s.take(i)] + split_on(s.skip(i + pat.len()), pat)
        } else {
            seq![s]
        },
        None => seq![s],
    }
}

/// The views of the vectors of `v`, in order.
pub open spec fn views<T>(v: Seq<Vec<T>>) -> Seq<Seq<T>> {
    Seq::new(v.len(), |i: int| v[i]@)
}

pub proof fn lemma_views_push<T>(v: Seq<Vec<T>>, x: Vec<T>)
    ensures
        views(v.push(x)) == views(v).push(x@),
{
    assert(views(v.push(x)) =~= views(v).push(x@));
}


/// The characters of `s`.
pub fn to_chars(s: &str) -> (out: Vec<char>)
    ensures
        out@ == s@,
{
    let mut out: Vec<char> = Vec::new();
    let it = s.chars();
    for c in iter: it
        invariant
            out@ == iter.seq().take(iter.index() as int),
    {
        out.push(c);
    }
    out
}

/// `String::from_iter` on the characters of `s`: the string that holds
/// exactly these characters, in this order.
#[verifier::external_body]
pub(crate) fn from_chars(s: &[char]) -> (out: String)
    ensures
        out@ == s@,
{
    String::from_iter(s.iter())
}

/// The copy of `s` from index `from` up to, not including, index `to`.
pub fn copy_range<T: Copy>(s: &[T], from: usize, to: usize) -> (out: Vec<T>)
    requires
        from <= to <= s@.len(),
    ensures
        out@ == s@.subrange(from as int, to as int),
{
    let mut out: Vec<T> = Vec::new();
    let mut i: usize = from;
    while i < to
        invariant
            from <= i <= to <= s@.len(),
            out@ == s@.subrange(from as int, i as int),
        decreases to - i,
    {
        out.push(s[i]);
        i = i + 1;
        assert(out@ =~= s@.subrange(from as int, i as int));
    }
    out
}

/// Appends the items of `src` to `dst`.
pub fn extend<T: Copy>(dst: &mut Vec<T>, src: &[T])
    ensures
        final(dst)@ == old(dst)@ + src@,
{
    let mut i: usize = 0;
    while i < src.len()
        invariant
            i <= src@.len(),
            dst@ == old(dst)@ + src@.take(i as int),
        decreases src@.len() - i,
    {
        dst.push(src[i]);
        i = i + 1;
        assert(dst@ =~= old(dst)@ + src@.take(i as int));
    }
    assert(src@.take(src@.len() as int) =~= src@);
}

/// Appends the characters of `src` to `dst`.
pub fn extend_str(dst: &mut Vec<char>, src: &str)
    ensures
        final(dst)@ == old(dst)@ + src@,
{
    let chars = to_chars(src);
    extend(dst, chars.as_slice());
}

/// Whether `a` and `b` hold the same characters.
pub fn eq_chars(a: &[char], b: &[char]) -> (r: bool)
    ensures
        r == (a@ == b@),
{
    if a.len() != b.len() {
        return false;
    }
    let mut i: usize = 0;
    while i < a.len()
        invariant
            i <= a@.len(),
            a@.len() == b@.len(),
            a@.take(i as int) == b@.take(i as int),
        decreases a@.len() - i,
    {
        if a[i] != b[i] {
            return false;
        }
        i = i + 1;
        assert(a@.take(i as int) =~= a@.take(i - 1).push(a@[i - 1]));
        assert(b@.take(i as int) =~= b@.take(i - 1).push(b@[i - 1]));
    }
    assert(a@.take(a@.len() as int) =~= a@);
    assert(b@.take(b@.len() as int) =~= b@);
    true
}

/// Whether `a` holds the characters of `b`.
pub fn eq_str(a: &[char], b: &str) -> (r: bool)
    ensures
        r == (a@ == b@),
{
    let chars = to_chars(b);
    eq_chars(a, chars.as_slice())
}

/// Whether `a` and `b` hold the same bytes.
pub fn eq_bytes(a: &[u8], b: &[u8]) -> (r: bool)
    ensures
        r == (a@ == b@),
{
    if a.len() != b.len() {
        return false;
    }
    let mut i: usize = 0;
    while i < a.len()
        invariant
            i <= a@.len(),
            a@.len() == b@.len(),
            a@.take(i as int) == b@.take(i as int),
        decreases a@.len() - i,
    {
        if a[i] != b[i] {
            return false;
        }
        i = i + 1;
        assert(a@.take(i as int) =~= a@.take(i - 1).push(a@[i - 1]));
        assert(b@.take(i as int) =~= b@.take(i - 1).push(b@[i - 1]));
    }
    assert(a@.take(a@.len() as int) =~= a@);
    assert(b@.take(b@.len() as int) =~= b@);
    true
}

/// The index of the first character of `s` in `class`; `s.len()` if none is.
pub fn find_class(s: &[char], class: CharClass) -> (i: usize)
    ensures
        i == index_of(s@, class),
        i <= s@.len(),
{
    let mut i: usize = 0;
    while i < s.len() && !class.contains(s[i])
        invariant
            i <= s@.len(),
            forall|j: int| 0 <= j < i ==> !class.has(#[trigger] s@[j]),
        decreases s@.len() - i,
    {
        i = i + 1;
    }
    proof {
        lemma_index_of_is(s@, class, i as int);
    }
    i
}

/// Cuts `s` at its first character of `class`.
pub fn split_once_chars(s: &[char], class: CharClass) -> (r: Option<(Vec<char>, Vec<char>)>)
    ensures
        match r {
            Some((a, b)) => split_once(s@, class) == Some((a@, b@)),
            None => split_once(s@, class).is_none(),
        },
{
    let i = find_class(s, class);
    if i < s.len() {
        let a = copy_range(s, 0, i);
        let b = copy_range(s, i + 1, s.len());
        Some((a, b))
    } else {
        None
    }
}

/// The pieces of `s` between its characters of `class`.
pub fn split_chars(s: &[char], class: CharClass) -> (out: Vec<Vec<char>>)
    ensures
        views(out@) == split(s@, class),
{
    let mut out: Vec<Vec<char>> = Vec::new();
    let mut start: usize = 0;
    proof {
        assert(s@.skip(0) =~= s@);
        assert(views(out@) + split(s@, class) =~= split(s@, class));
    }
    loop
        invariant_except_break
            start <= s@.len(),
            views(out@) + split(s@.skip(start as int), class) == split(s@, class),
        ensures
            views(out@) == split(s@, class),
        decreases s@.len() - start,
    {
        let rest = vstd::slice::slice_subrange(s, start, s.len());
        assert(rest@ =~= s@.skip(start as int));
        let i = find_class(rest, class);
        let ghost before = views(out@);
        let ghost pieces = out@;
        if i < rest.len() {
            let piece = copy_range(rest, 0, i);
            out.push(piece);
            proof {
                lemma_views_push(pieces, piece);
                assert(rest@.skip(i + 1) =~= s@.skip(start + i + 1));
                assert(views(out@) + split(rest@.skip(i + 1), class) =~= before + split(
                    rest@,
                    class,
                ));
            }
            start = start + i + 1;
        } else {
            let piece = copy_range(rest, 0, rest.len());
            out.push(piece);
            proof {
                lemma_views_push(pieces, piece);
                assert(piece@ =~= rest@);
                assert(views(out@) =~= before + split(rest@, class));
            }
            break;
        }
    }
    out
}


/// The non-empty pieces of `s` between its characters of `class`.
pub fn tokens_chars(s: &[char], class: CharClass) -> (out: Vec<Vec<char>>)
    ensures
        views(out@) == tokens(s@, class),
{
    let mut out: Vec<Vec<char>> = Vec::new();
    let mut start: usize = 0;
    proof {
        assert(s@.skip(0) =~= s@);
        assert(views(out@) + tokens(s@, class) =~= tokens(s@, class));
    }
    loop
        invariant_except_break
            start <= s@.len(),
            views(out@) + tokens(s@.skip(start as int), class) == tokens(s@, class),
        ensures
            views(out@) == tokens(s@, class),
        decreases s@.len() - start,
    {
        let rest = vstd::slice::slice_subrange(s, start, s.len());
        assert(rest@ =~= s@.skip(start as int));
        let i = find_class(rest, class);
        let ghost before = views(out@);
        let ghost pieces = out@;
        if i > 0 {
            let piece = copy_range(rest, 0, i);
            out.push(piece);
            proof {
                lemma_views_push(pieces, piece);
            }
        }
        if i < rest.len() {
            proof {
                assert(rest@.skip(i + 1) =~= s@.skip(start + i + 1));
                assert(views(out@) + tokens(rest@.skip(i + 1), class) =~= before + tokens(
                    rest@,
                    class,
                ));
            }
            start = start + i + 1;
        } else {
            proof {
                assert(views(out@) =~= before + tokens(rest@, class));
            }
            break;
        }
    }
    out
}

/// `s` without its leading characters of `class`.
pub fn strip_start_chars(s: &[char], class: CharClass) -> (out: Vec<char>)
    ensures
        out@ == strip_start(s@, class),
{
    let mut i: usize = 0;
    proof {
        assert(s@.skip(0) =~= s@);
    }
    while i < s.len() && class.contains(s[i])
        invariant
            i <= s@.len(),
            strip_start(s@.skip(i as int), class) == strip_start(s@, class),
        decreases s@.len() - i,
    {
        proof {
            assert(s@.skip(i as int).skip(1) =~= s@.skip(i + 1));
        }
        i = i + 1;
    }
    let out = copy_range(s, i, s.len());
    assert(out@ =~= s@.skip(i as int));
    out
}

/// `s` without its trailing characters of `class`.
pub fn strip_end_chars(s: &[char], class: CharClass) -> (out: Vec<char>)
    ensures
        out@ == strip_end(s@, class),
{
    let mut j: usize = s.len();
    proof {
        assert(s@.take(j as int) =~= s@);
    }
    while j > 0 && class.contains(s[j - 1])
        invariant
            j <= s@.len(),
            strip_end(s@.take(j as int), class) == strip_end(s@, class),
        decreases j,
    {
        proof {
            assert(s@.take(j as int).drop_last() =~= s@.take(j - 1));
        }
        j = j - 1;
    }
    let out = copy_range(s, 0, j);
    assert(out@ =~= s@.take(j as int));
    out
}

/// `s` without its leading and trailing characters of `class`.
pub fn strip_chars(s: &[char], class: CharClass) -> (out: Vec<char>)
    ensures
        out@ == strip(s@, class),
{
    let front = strip_start_chars(s, class);
    strip_end_chars(front.as_slice(), class)
}

/// `s` without leading and trailing white space.
pub fn trim_chars(s: &[char]) -> (out: Vec<char>)
    ensures
        out@ == trim(s@),
{
    strip_chars(s, CharClass::Whitespace)
}

/// Whether `pat` stands in `hay` at index `i`.
pub fn chars_match_at(hay: &[char], pat: &[char], i: usize) -> (r: bool)
    ensures
        r == matches_at(hay@, pat@, i as int),
{
    if pat.len() > hay.len() || i > hay.len() - pat.len() {
        return false;
    }
    let window = vstd::slice::slice_subrange(hay, i, i + pat.len());
    eq_chars(window, pat)
}

/// Whether `pat` stands in `hay` at index `i`.
pub fn bytes_match_at(hay: &[u8], pat: &[u8], i: usize) -> (r: bool)
    ensures
        r == matches_at(hay@, pat@, i as int),
{
    if pat.len() > hay.len() || i > hay.len() - pat.len() {
        return false;
    }
    let window = vstd::slice::slice_subrange(hay, i, i + pat.len());
    eq_bytes(window, pat)
}

/// The first index at which `pat` stands in `hay`.
pub fn find_chars(hay: &[char], pat: &[char]) -> (r: Option<usize>)
    ensures
        match r {
            Some(i) => find(hay@, pat@) == Some(i as int),
            None => find(hay@, pat@).is_none(),
        },
{
    if pat.len() > hay.len() {
        return None;
    }
    let last: usize = hay.len() - pat.len();
    let mut i: usize = 0;
    loop
        invariant
            pat@.len() <= hay@.len(),
            last == hay@.len() - pat@.len(),
            i <= last,
            find_from(hay@, pat@, i as int) == find(hay@, pat@),
        decreases last - i,
    {
        if chars_match_at(hay, pat, i) {
            return Some(i);
        }
        if i == last {
            assert(find_from(hay@, pat@, i + 1).is_none());
            return None;
        }
        i = i + 1;
    }
}

/// The first index at which `pat` stands in `hay`.
pub fn find_bytes(hay: &[u8], pat: &[u8]) -> (r: Option<usize>)
    ensures
        match r {
            Some(i) => find(hay@, pat@) == Some(i as int),
            None => find(hay@, pat@).is_none(),
        },
{
    if pat.len() > hay.len() {
        return None;
    }
    let last: usize = hay.len() - pat.len();
    let mut i: usize = 0;
    loop
        invariant
            pat@.len() <= hay@.len(),
            last == hay@.len() - pat@.len(),
            i <= last,
            find_from(hay@, pat@, i as int) == find(hay@, pat@),
        decreases last - i,
    {
        if bytes_match_at(hay, pat, i) {
            return Some(i);
        }
        if i == last {
            assert(find_from(hay@, pat@, i + 1).is_none());
            return None;
        }
        i = i + 1;
    }
}

/// Whether `s` begins with `prefix`.
pub fn starts_with_chars(s: &[char], prefix: &[char]) -> (r: bool)
    ensures
        r == starts_with(s@, prefix@),
{
    chars_match_at(s, prefix, 0)
}

/// The pieces of `s` between the occurrences of `pat`.
pub fn split_on_chars(s: &[char], pat: &[char]) -> (out: Vec<Vec<char>>)
    requires
        pat@.len() > 0,
    ensures
        views(out@) == split_on(s@, pat@),
{
    let mut out: Vec<Vec<char>> = Vec::new();
    let mut start: usize = 0;
    proof {
        assert(s@.skip(0) =~= s@);
        assert(views(out@) + split_on(s@, pat@) =~= split_on(s@, pat@));
    }
    loop
        invariant_except_break
            pat@.len() > 0,
            start <= s@.len(),
            views(out@) + split_on(s@.skip(start as int), pat@) == split_on(s@, pat@),
        ensures
            views(out@) == split_on(s@, pat@),
        decreases s@.len() - start,
    {
        let rest = vstd::slice::slice_subrange(s, start, s.len());
        assert(rest@ =~= s@.skip(start as int));
        let found = find_chars(rest, pat);
        let ghost before = views(out@);
        let ghost pieces = out@;
        proof {
            lemma_find_from(rest@, pat@, 0);
        }
        match found {
            Some(i) => {
                let piece = copy_range(rest, 0, i);
                out.push(piece);
                proof {
                    lemma_views_push(pieces, piece);
                    assert(rest@.skip(i + pat@.len()) =~= s@.skip(start + i + pat@.len()));
                    assert(views(out@) + split_on(rest@.skip(i + pat@.len()), pat@) =~= before
                        + split_on(rest@, pat@));
                }
                start = start + i + pat.len();
            },
            None => {
                let piece = copy_range(rest, 0, rest.len());
                out.push(piece);
                proof {
                    lemma_views_push(pieces, piece);
                    assert(piece@ =~= rest@);
                    assert(views(out@) =~= before + split_on(rest@, pat@));
                }
                break;
            },
        }
    }
    out
}


/// The name for what `str::to_lowercase` returns on a string with the
/// characters `s`: its Unicode lower-case form.
pub uninterp spec fn unicode_lowercase(s: Seq<char>) -> Seq<char>;

/// The lower-case form of the ASCII character `c`: the small letter for a
/// capital letter, and `c` itself otherwise.
pub open spec fn ascii_lower(c: char) -> char {
    if 'A' <= c <= 'Z' {
        ((c as u8) + 32) as u8 as char
    } else {
        c
    }
}

/// `s` with each character in its ASCII lower-case form.
pub open spec fn ascii_lowercase(s: Seq<char>) -> Seq<char> {
    Seq::new(s.len(), |i: int| ascii_lower(s[i]))
}

/// `str::to_lowercase`, which maps each character to its Unicode lower-case
/// form. The contract names the result, and says of it what Unicode says of
/// ASCII text: the capital letters become small letters, and nothing else
/// changes.
#[verifier::external_body]
pub(crate) fn to_lowercase(s: &str) -> (out: String)
    ensures
        out@ == unicode_lowercase(s@),
        vstd::utf8::is_ascii_chars(s@) ==> out@ == ascii_lowercase(s@),
{
    s.to_lowercase()
}

/// The lower-case form of `s`: for ASCII text the text with small letters
/// in place of capital letters, for any other text what `unicode_lowercase`
/// names.
pub open spec fn lowercase(s: Seq<char>) -> Seq<char> {
    if vstd::utf8::is_ascii_chars(s) {
        ascii_lowercase(s)
    } else {
        unicode_lowercase(s)
    }
}

/// The lower-case form of `s`.
pub fn lowercase_chars(s: &[char]) -> (out: Vec<char>)
    ensures
        out@ == lowercase(s@),
{
    let owned = from_chars(s);
    let lowered = to_lowercase(owned.as_str());
    to_chars(lowered.as_str())
}

/// `std::str::from_utf8`: the text that `bytes` encode, where they are
/// well-formed UTF-8, and nothing where they are not.
#[verifier::external_body]
pub(crate) fn decode_utf8(bytes: &[u8]) -> (r: Option<String>)
    ensures
        r.is_some() == vstd::utf8::valid_utf8(bytes@),
        r matches Some(s) ==> s@ == vstd::utf8::decode_utf8(bytes@),
{
    match std::str::from_utf8(bytes) {
        Ok(s) => Some(s.to_string()),
        Err(_) => None,
    }
}

/// The name for what `String::from_utf8_lossy` returns on `bytes`: the text
/// they encode, with U+FFFD in place of each ill-formed part.
pub uninterp spec fn utf8_lossy(bytes: Seq<u8>) -> Seq<char>;

/// The text that `bytes` are read as: the text they encode where they are
/// well-formed UTF-8, and what `utf8_lossy` names otherwise.
pub open spec fn lossy_text(bytes: Seq<u8>) -> Seq<char> {
    if vstd::utf8::valid_utf8(bytes) {
        vstd::utf8::decode_utf8(bytes)
    } else {
        utf8_lossy(bytes)
    }
}

/// `String::from_utf8_lossy`. The contract names the result, and says that
/// bytes that are well-formed UTF-8 come back as the text that they encode.
#[verifier::external_body]
pub(crate) fn decode_utf8_lossy(bytes: &[u8]) -> (out: String)
    ensures
        out@ == utf8_lossy(bytes@),
        vstd::utf8::valid_utf8(bytes@) ==> out@ == vstd::utf8::decode_utf8(bytes@),
{
    String::from_utf8_lossy(bytes).into_owned()
}

/// Whether `c` is one of the ten ASCII digits.
pub open spec fn is_digit(c: char) -> bool {
    '0' <= c <= '9'
}

/// The number that the ASCII digit `c` stands for.
pub open spec fn digit_value(c: char) -> nat {
    (c as u32 - '0' as u32) as nat
}

/// The ASCII digit for `d`, which is below ten.
pub open spec fn digit_char(d: nat) -> char {
    (d + '0' as u32) as u8 as char
}

/// The number that a run of ASCII digits stands for; `None` where a
/// character of `s` is no digit. The empty run stands for zero.
pub open spec fn digits_value(s: Seq<char>) -> Option<nat>
    decreases s.len(),
{
    if s.len() == 0 {
        Some(0)
    } else {
        match digits_value(s.drop_last()) {
            Some(v) => if is_digit(s.last()) {
                Some(v * 10 + digit_value(s.last()))
            } else {
                None
            },
            None => None,
        }
    }
}

/// The number that `s` is the decimal notation of: an optional `+` and then
/// one digit or more.
pub open spec fn parse_decimal(s: Seq<char>) -> Option<nat> {
    let body = if s.len() > 0 && s[0] == '+' {
        s.skip(1)
    } else {
        s
    };
    if body.len() == 0 {
        None
    } else {
        digits_value(body)
    }
}

/// The `usize` that `s` is the decimal notation of, if it is one and fits.
pub open spec fn parse_index(s: Seq<char>) -> Option<usize> {
    match parse_decimal(s) {
        Some(v) => if v <= usize::MAX {
            Some(v as usize)
        } else {
            None
        },
        None => None,
    }
}

/// A run of digits is worth no less than any of its prefixes, and is no
/// number where a prefix is none.
pub proof fn lemma_digits_prefix(s: Seq<char>, k: int)
    requires
        0 <= k <= s.len(),
    ensures
        digits_value(s.take(k)).is_none() ==> digits_value(s).is_none(),
        digits_value(s).is_some() ==> digits_value(s.take(k)).is_some() && digits_value(
            s.take(k),
        ).unwrap() <= digits_value(s).unwrap(),
    decreases s.len(),
{
    if k == s.len() {
        assert(s.take(k) =~= s);
    } else {
        assert(s.drop_last().take(k) =~= s.take(k));
        lemma_digits_prefix(s.drop_last(), k);
    }
}

/// Reads `s` as the decimal notation of a `usize`.
pub fn parse_usize(s: &[char]) -> (r: Option<usize>)
    ensures
        r == parse_index(s@),
{
    let start: usize = if s.len() > 0 && s[0] == '+' {
        1
    } else {
        0
    };
    if start == s.len() {
        return None;
    }
    let body = vstd::slice::slice_subrange(s, start, s.len());
    assert(body@ =~= if start == 1 {
        s@.skip(1)
    } else {
        s@
    });
    let mut acc: usize = 0;
    let mut i: usize = 0;
    assert(body@.take(0) =~= Seq::<char>::empty());
    while i < body.len()
        invariant
            i <= body@.len(),
            parse_decimal(s@) == digits_value(body@),
            digits_value(body@.take(i as int)) == Some(acc as nat),
        decreases body@.len() - i,
    {
        let c = body[i];
        proof {
            assert(body@.take(i + 1).drop_last() =~= body@.take(i as int));
            lemma_digits_prefix(body@, i + 1);
        }
        if !('0' <= c && c <= '9') {
            return None;
        }
        let d: usize = (c as u32 - '0' as u32) as usize;
        let scaled = match acc.checked_mul(10) {
            Some(v) => v,
            None => {
                return None;
            },
        };
        acc = match scaled.checked_add(d) {
            Some(v) => v,
            None => {
                return None;
            },
        };
        i = i + 1;
    }
    assert(body@.take(body@.len() as int) =~= body@);
    Some(acc)
}

/// The decimal notation of `n`, without leading zeros.
pub open spec fn decimal(n: nat) -> Seq<char>
    decreases n,
{
    if n < 10 {
        seq![digit_char(n)]
    } else {
        decimal(n / 10).push(digit_char(n % 10))
    }
}

/// Appends the decimal notation of `n` to `out`.
pub fn push_decimal(out: &mut Vec<char>, n: u64)
    ensures
        final(out)@ == old(out)@ + decimal(n as nat),
    decreases n,
{
    if n >= 10 {
        push_decimal(out, n / 10);
    }
    let d: u8 = (n % 10) as u8;
    out.push((d + 48u8) as char);
    proof {
        assert(out@ =~= old(out)@ + decimal(n as nat));
    }
}

/// The decimal notation of `n`.
pub fn to_decimal(n: u64) -> (out: Vec<char>)
    ensures
        out@ == decimal(n as nat),
{
    let mut out: Vec<char> = Vec::new();
    push_decimal(&mut out, n);
    assert(Seq::<char>::empty() + decimal(n as nat) =~= decimal(n as nat));
    out
}


/// The texts of `items` in one text, with `sep` between each two.
pub open spec fn join(items: Seq<Seq<char>>, sep: Seq<char>) -> Seq<char>
    decreases items.len(),
{
    if items.len() == 0 {
        Seq::empty()
    } else if items.len() == 1 {
        items[0]
    } else {
        join(items.drop_last(), sep) + sep + items.last()
    }
}

/// The views of the strings of `items`, in order.
pub open spec fn str_views(items: Seq<&str>) -> Seq<Seq<char>> {
    Seq::new(items.len(), |i: int| items[i]@)
}

/// The strings of `items` in one text, with `sep` between each two.
pub fn join_strs(items: &[&str], sep: &str) -> (out: Vec<char>)
    ensures
        out@ == join(str_views(items@), sep@),
{
    let mut out: Vec<char> = Vec::new();
    let mut i: usize = 0;
    let ghost all = str_views(items@);
    proof {
        assert(all.take(0) =~= Seq::<Seq<char>>::empty());
    }
    while i < items.len()
        invariant
            i <= items@.len(),
            all == str_views(items@),
            out@ == join(all.take(i as int), sep@),
        decreases items@.len() - i,
    {
        proof {
            assert(all.take(i + 1).drop_last() =~= all.take(i as int));
            assert(all.take(i + 1).last() == items@[i as int]@);
        }
        if i > 0 {
            extend_str(&mut out, sep);
        }
        extend_str(&mut out, items[i]);
        proof {
            if i == 0 {
                assert(out@ =~= all.take(1)[0]);
            }
        }
        i = i + 1;
    }
    proof {
        assert(all.take(items@.len() as int) =~= all);
    }
    out
}

} // verus!
