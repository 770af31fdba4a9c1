//! Request paths: their normal form, and the match of a path against a
//! pattern with named parameters.

use crate::string_map::{put, StringMap};
use crate::text::{
    copy_range, eq_chars, from_chars, split, split_chars, strip_end, strip_end_chars, to_chars,
    views, CharClass,
};
use vstd::prelude::*;

verus! {

/// The normal form of a path: without trailing slashes, and `/` where
/// nothing is left.
pub open spec fn normalized(path: Seq<char>) -> Seq<char> {
    let stripped = strip_end(path, CharClass::Exactly('/'));
    if stripped.len() == 0 {
        seq!['/']
    } else {
        stripped
    }
}

/// The normal form of `path`.
pub fn normalize_chars(path: &[char]) -> (out: Vec<char>)
    ensures
        out@ == normalized(path@),
{
    let mut out = strip_end_chars(path, CharClass::Exactly('/'));
    if out.len() == 0 {
        out.push('/');
        assert(out@ =~= seq!['/']);
    }
    out
}

/// The normal form of `path`.
pub fn normalize_path(path: &str) -> (out: String)
    ensures
        out@ == normalized(path@),
{
    let chars = to_chars(path);
    let out = normalize_chars(chars.as_slice());
    from_chars(out.as_slice())
}

/// A normal form has no trailing slash, unless it is the root, and
/// normalising it again changes nothing.
pub proof fn lemma_normalized(path: Seq<char>)
    ensures
        normalized(path).len() > 0,
        normalized(path) == seq!['/'] || normalized(path).last() != '/',
        normalized(normalized(path)) == normalized(path),
{
    let class = CharClass::Exactly('/');
    lemma_strip_end(path, class);
    let n = normalized(path);
    if strip_end(path, class).len() == 0 {
        assert(n.drop_last() =~= Seq::<char>::empty());
        assert(strip_end(n.drop_last(), class) =~= Seq::<char>::empty());
    }
}

/// What `strip_end` returns does not end with a character of the class, and
/// stripping it again changes nothing.
pub proof fn lemma_strip_end(s: Seq<char>, class: CharClass)
    ensures
        strip_end(s, class).len() == 0 || !class.has(strip_end(s, class).last()),
        strip_end(strip_end(s, class), class) == strip_end(s, class),
    decreases s.len(),
{
    if s.len() > 0 && class.has(s.last()) {
        lemma_strip_end(s.drop_last(), class);
    }
}

/// What `strip_end` returns is no longer than what it was given.
pub proof fn lemma_strip_end_len(s: Seq<char>, class: CharClass)
    ensures
        strip_end(s, class).len() <= s.len(),
    decreases s.len(),
{
    if s.len() > 0 && class.has(s.last()) {
        lemma_strip_end_len(s.drop_last(), class);
    }
}

/// The normal form of a prefix and a path in normal form: the two together
/// where the path is not the root, and the normal form of the prefix where
/// it is.
pub proof fn lemma_normalized_concat(prefix: Seq<char>, path: Seq<char>)
    requires
        normalized(path) == path,
    ensures
        path != seq!['/'] ==> normalized(prefix + path) == prefix + path,
        path == seq!['/'] ==> normalized(prefix + path) == normalized(prefix),
{
    let class = CharClass::Exactly('/');
    let whole = prefix + path;
    lemma_normalized(path);
    assert(whole.last() == path.last());
    if path == seq!['/'] {
        assert(path.last() == '/');
        assert(whole.drop_last() =~= prefix);
    } else {
        assert(path.last() != '/');
    }
}

/// Different paths in normal form stay different behind a prefix, also in
/// normal form.
pub proof fn lemma_prefixed_differ(prefix: Seq<char>, a: Seq<char>, b: Seq<char>)
    requires
        normalized(a) == a,
        normalized(b) == b,
        a != b,
    ensures
        normalized(prefix + a) != normalized(prefix + b),
{
    let class = CharClass::Exactly('/');
    lemma_normalized_concat(prefix, a);
    lemma_normalized_concat(prefix, b);
    lemma_normalized(a);
    lemma_normalized(b);
    lemma_strip_end_len(prefix, class);
    if a != seq!['/'] && b != seq!['/'] {
        if prefix + a == prefix + b {
            assert((prefix + a).skip(prefix.len() as int) =~= a);
            assert((prefix + b).skip(prefix.len() as int) =~= b);
        }
    } else if a == seq!['/'] {
        assert((prefix + b).last() == b.last());
        assert(seq!['/'].last() == '/');
    } else {
        assert((prefix + a).last() == a.last());
        assert(seq!['/'].last() == '/');
    }
}

/// Whether a segment of a pattern is a parameter: it begins with a colon.
pub open spec fn is_parameter(segment: Seq<char>) -> bool {
    segment.len() > 0 && segment[0] == ':'
}

/// The parameters that the segments of a pattern bind from the segments of
/// a path, one by one: a parameter segment binds its name to the path's
/// segment, any other segment must equal it. `None` where one does not.
pub open spec fn bind_segments(pattern: Seq<Seq<char>>, path: Seq<Seq<char>>) -> Option<
    Seq<(Seq<char>, Seq<char>)>,
>
    decreases pattern.len(),
{
    if pattern.len() == 0 || path.len() == 0 {
        Some(Seq::empty())
    } else {
        match bind_segments(pattern.drop_last(), path.drop_last()) {
            None => None,
            Some(params) => if is_parameter(pattern.last()) {
                Some(put(params, pattern.last().skip(1), path.last()))
            } else if pattern.last() == path.last() {
                Some(params)
            } else {
                None
            },
        }
    }
}

/// The parameters that `pattern` binds from `path`, where the two have the
/// same number of segments and every literal segment of the pattern equals
/// the path's segment at its place.
pub open spec fn dynamic_match(pattern: Seq<char>, path: Seq<char>) -> Option<
    Seq<(Seq<char>, Seq<char>)>,
> {
    let slash = CharClass::Exactly('/');
    if split(pattern, slash).len() != split(path, slash).len() {
        None
    } else {
        bind_segments(split(pattern, slash), split(path, slash))
    }
}

/// Where the segments bind, every literal segment of the pattern equals the
/// segment of the path at the same place.
pub proof fn lemma_bind_segments(pattern: Seq<Seq<char>>, path: Seq<Seq<char>>, i: int)
    requires
        pattern.len() == path.len(),
        bind_segments(pattern, path).is_some(),
        0 <= i < pattern.len(),
    ensures
        is_parameter(pattern[i]) || pattern[i] == path[i],
    decreases pattern.len(),
{
    if i < pattern.len() - 1 {
        lemma_bind_segments(pattern.drop_last(), path.drop_last(), i);
    }
}

/// A failure to bind a prefix of the segments is a failure to bind them
/// all.
pub proof fn lemma_bind_prefix(pattern: Seq<Seq<char>>, path: Seq<Seq<char>>, k: int)
    requires
        pattern.len() == path.len(),
        0 <= k <= pattern.len(),
    ensures
        bind_segments(pattern.take(k), path.take(k)).is_none() ==> bind_segments(
            pattern,
            path,
        ).is_none(),
    decreases pattern.len(),
{
    if k == pattern.len() {
        assert(pattern.take(k) =~= pattern);
        assert(path.take(k) =~= path);
    } else {
        assert(pattern.drop_last().take(k) =~= pattern.take(k));
        assert(path.drop_last().take(k) =~= path.take(k));
        lemma_bind_prefix(pattern.drop_last(), path.drop_last(), k);
    }
}

/// A pattern matches a path only if the two have the same number of
/// segments, and then each literal segment of the pattern is the segment of
/// the path at its place.
pub proof fn lemma_dynamic_match(pattern: Seq<char>, path: Seq<char>, i: int)
    requires
        dynamic_match(pattern, path).is_some(),
        0 <= i < split(pattern, CharClass::Exactly('/')).len(),
    ensures
        split(pattern, CharClass::Exactly('/')).len() == split(
            path,
            CharClass::Exactly('/'),
        ).len(),
        is_parameter(split(pattern, CharClass::Exactly('/'))[i]) || split(
            pattern,
            CharClass::Exactly('/'),
        )[i] == split(path, CharClass::Exactly('/'))[i],
{
    let slash = CharClass::Exactly('/');
    lemma_bind_segments(split(pattern, slash), split(path, slash), i);
}

/// Matches `path` against `pattern` and binds the pattern's parameters.
pub fn match_dynamic_path(pattern: &str, path: &str) -> (r: Option<StringMap>)
    ensures
        match r {
            Some(params) => dynamic_match(pattern@, path@) == Some(params@),
            None => dynamic_match(pattern@, path@).is_none(),
        },
{
    let pattern_chars = to_chars(pattern);
    let path_chars = to_chars(path);
    let pattern_parts = split_chars(pattern_chars.as_slice(), CharClass::Exactly('/'));
    let path_parts = split_chars(path_chars.as_slice(), CharClass::Exactly('/'));
    if pattern_parts.len() != path_parts.len() {
        return None;
    }
    let ghost a = views(pattern_parts@);
    let ghost b = views(path_parts@);
    let mut params = StringMap::new();
    let mut i: usize = 0;
    proof {
        assert(a.take(0) =~= Seq::<Seq<char>>::empty());
    }
    while i < pattern_parts.len()
        invariant
            i <= pattern_parts@.len(),
            pattern_parts@.len() == path_parts@.len(),
            a == views(pattern_parts@),
            b == views(path_parts@),
            a == split(pattern@, CharClass::Exactly('/')),
            b == split(path@, CharClass::Exactly('/')),
            bind_segments(a.take(i as int), b.take(i as int)) == Some(params@),
        decreases pattern_parts@.len() - i,
    {
        assert(a[i as int] == pattern_parts@[i as int]@);
        assert(b[i as int] == path_parts@[i as int]@);
        proof {
            assert(a.take(i + 1).drop_last() =~= a.take(i as int));
            assert(b.take(i + 1).drop_last() =~= b.take(i as int));
            lemma_bind_prefix(a, b, i + 1);
        }
        let segment = pattern_parts[i].as_slice();
        let actual = path_parts[i].as_slice();
        if segment.len() > 0 && segment[0] == ':' {
            let name = copy_range(segment, 1, segment.len());
            assert(name@ =~= segment@.skip(1));
            params.insert(from_chars(name.as_slice()), from_chars(actual));
        } else if !eq_chars(segment, actual) {
            return None;
        }
        i = i + 1;
    }
    proof {
        assert(a.take(pattern_parts@.len() as int) =~= a);
        assert(b.take(pattern_parts@.len() as int) =~= b);
    }
    Some(params)
}

/// Whether a path contains a parameter marker, which makes it a pattern.
pub open spec fn is_pattern(path: Seq<char>) -> bool {
    path.contains(':')
}

/// Whether `path` contains a colon.
pub fn has_parameter(path: &str) -> (r: bool)
    ensures
        r == is_pattern(path@),
{
    let chars = to_chars(path);
    let i = crate::text::find_class(chars.as_slice(), CharClass::Exactly(':'));
    proof {
        crate::text::lemma_index_of(path@, CharClass::Exactly(':'));
        if i < chars@.len() {
            assert(path@[i as int] == ':');
        }
    }
    i < chars.len()
}

} // verus!
