use vstd::prelude::*;
use vstd::string::StringSliceAdditionalSpecFns;
use vstd::utf8::{decode_utf8, encode_utf8_decode_utf8, valid_utf8};

verus! {

/// The characters of a string slice, in order.
pub fn char_vec(s: &str) -> (v: Vec<char>)
    ensures
        v@ == s@,
{
    let mut v: Vec<char> = Vec::new();
    for c in it: s.chars()
        invariant
            v@ == it.seq().take(it.index() as int),
    {
        v.push(c);
    }
    v
}

/// Appends one character to a `String`.
///
/// Trusted: calls `String::push`, which, as std documents, appends the given
/// character to the end of the string; the contract says exactly that.
#[verifier::external_body]
fn push_char(s: &mut String, c: char)
    ensures
        final(s)@ == old(s)@.push(c),
{
    s.push(c);
}

/// A `String` holding exactly the given characters.
pub fn string_from_chars(cs: &[char]) -> (s: String)
    ensures
        s@ == cs@,
{
    let mut s = String::new();
    let mut i: usize = 0;
    while i < cs.len()
        invariant
            i <= cs@.len(),
            s@ == cs@.take(i as int),
        decreases cs@.len() - i,
    {
        push_char(&mut s, cs[i]);
        assert(cs@.take(i as int).push(cs@[i as int]) =~= cs@.take(i + 1));
        i = i + 1;
    }
    assert(cs@.take(cs@.len() as int) =~= cs@);
    s
}

/// The pieces of `s` between occurrences of `sep`, as `split` yields them:
/// always at least one piece, empty pieces included.
pub open spec fn split_seq<A>(s: Seq<A>, sep: A) -> Seq<Seq<A>>
    decreases s.len(),
{
    if s.len() == 0 {
        seq![Seq::<A>::empty()]
    } else {
        let rest = split_seq(s.drop_last(), sep);
        if s.last() == sep {
            rest.push(Seq::<A>::empty())
        } else {
            rest.update(rest.len() - 1, rest.last().push(s.last()))
        }
    }
}

/// The pieces joined back together with `sep` between neighbours.
pub open spec fn join_seq<A>(pieces: Seq<Seq<A>>, sep: A) -> Seq<A>
    decreases pieces.len(),
{
    if pieces.len() == 0 {
        Seq::<A>::empty()
    } else if pieces.len() == 1 {
        pieces[0]
    } else {
        join_seq(pieces.drop_last(), sep).push(sep) + pieces.last()
    }
}

/// `split_seq` never yields an empty list of pieces.
pub proof fn lemma_split_nonempty<A>(s: Seq<A>, sep: A)
    ensures
        split_seq(s, sep).len() >= 1,
    decreases s.len(),
{
    if s.len() > 0 {
        lemma_split_nonempty(s.drop_last(), sep);
    }
}

/// `sep` does not occur in `t`.
pub open spec fn free_of<A>(t: Seq<A>, sep: A) -> bool {
    forall|i: int| 0 <= i < t.len() ==> t[i] != sep
}

/// A sequence without the separator splits into itself alone.
pub proof fn lemma_split_free<A>(t: Seq<A>, sep: A)
    requires
        free_of(t, sep),
    ensures
        split_seq(t, sep) == seq![t],
    decreases t.len(),
{
    if t.len() > 0 {
        let u = t.drop_last();
        assert(free_of(u, sep)) by {
            assert forall|i: int| 0 <= i < u.len() implies u[i] != sep by {
                assert(u[i] == t[i]);
            }
        }
        lemma_split_free(u, sep);
        assert(t.last() != sep);
        assert(u.push(t.last()) =~= t);
        assert(seq![u].update(0, u.push(t.last())) =~= seq![t]);
    } else {
        assert(t =~= Seq::<A>::empty());
    }
}

/// Splitting `s`, a separator, then a piece without separators, adds that piece
/// to the pieces of `s`.
pub proof fn lemma_split_then_piece<A>(s: Seq<A>, sep: A, t: Seq<A>)
    requires
        free_of(t, sep),
    ensures
        split_seq(s.push(sep) + t, sep) == split_seq(s, sep).push(t),
    decreases t.len(),
{
    let u = s.push(sep) + t;
    if t.len() == 0 {
        assert(u =~= s.push(sep));
        assert(u.drop_last() =~= s);
        assert(u.last() == sep);
        assert(t =~= Seq::<A>::empty());
    } else {
        let t0 = t.drop_last();
        assert(free_of(t0, sep)) by {
            assert forall|i: int| 0 <= i < t0.len() implies t0[i] != sep by {
                assert(t0[i] == t[i]);
            }
        }
        lemma_split_then_piece(s, sep, t0);
        assert(u.drop_last() =~= s.push(sep) + t0);
        assert(u.last() == t.last());
        assert(t.last() != sep);
        let rest = split_seq(s, sep).push(t0);
        assert(rest.last() == t0);
        assert(t0.push(t.last()) =~= t);
        assert(rest.update(rest.len() - 1, rest.last().push(u.last())) =~= split_seq(s, sep).push(t));
    }
}

/// Joining the pieces of a split with the same separator gives the input back.
pub proof fn lemma_join_split<A>(s: Seq<A>, sep: A)
    ensures
        join_seq(split_seq(s, sep), sep) == s,
    decreases s.len(),
{
    if s.len() > 0 {
        let t = s.drop_last();
        lemma_join_split(t, sep);
        lemma_split_nonempty(t, sep);
        let rest = split_seq(t, sep);
        if s.last() == sep {
            assert(split_seq(s, sep).drop_last() =~= rest);
            assert(s =~= join_seq(rest, sep).push(sep) + Seq::<A>::empty());
        } else {
            let upd = rest.update(rest.len() - 1, rest.last().push(s.last()));
            if rest.len() == 1 {
                assert(s =~= rest[0].push(s.last()));
            } else {
                assert(upd.drop_last() =~= rest.drop_last());
                assert(join_seq(rest, sep) == join_seq(rest.drop_last(), sep).push(sep) + rest.last());
                let j = join_seq(rest.drop_last(), sep).push(sep);
                assert(s =~= t.push(s.last()));
                assert(t == j + rest.last());
                assert((j + rest.last()).push(s.last()) =~= j + rest.last().push(s.last()));
                assert(upd.last() == rest.last().push(s.last()));
                assert(join_seq(upd, sep) == join_seq(upd.drop_last(), sep).push(sep) + upd.last());
            }
        }
    }
}

/// Splits a character sequence at every `sep`.
pub fn split_chars(s: &Vec<char>, sep: char) -> (pieces: Vec<Vec<char>>)
    ensures
        pieces@.map_values(|p: Vec<char>| p@) == split_seq(s@, sep),
{
    let mut pieces: Vec<Vec<char>> = Vec::new();
    let mut cur: Vec<char> = Vec::new();
    let mut i: usize = 0;
    while i < s.len()
        invariant
            i <= s@.len(),
            pieces@.map_values(|p: Vec<char>| p@).push(cur@) == split_seq(s@.take(i as int), sep),
        decreases s@.len() - i,
    {
        let c = s[i];
        proof {
            assert(s@.take(i + 1).drop_last() =~= s@.take(i as int));
        }
        if c == sep {
            let done = cur;
            pieces.push(done);
            cur = Vec::new();
            assert(pieces@.map_values(|p: Vec<char>| p@).push(cur@) =~= split_seq(s@.take(i as int), sep).push(Seq::empty()));
        } else {
            let ghost before = pieces@.map_values(|p: Vec<char>| p@).push(cur@);
            cur.push(c);
            assert(pieces@.map_values(|p: Vec<char>| p@).push(cur@) =~= before.update(before.len() - 1, before.last().push(c)));
        }
        i = i + 1;
    }
    pieces.push(cur);
    assert(s@.take(s@.len() as int) =~= s@);
    pieces
}


/// Splits a byte sequence at every `sep`.
pub fn split_bytes(s: &[u8], sep: u8) -> (pieces: Vec<Vec<u8>>)
    ensures
        pieces@.map_values(|p: Vec<u8>| p@) == split_seq(s@, sep),
{
    let mut pieces: Vec<Vec<u8>> = Vec::new();
    let mut cur: Vec<u8> = Vec::new();
    let mut i: usize = 0;
    while i < s.len()
        invariant
            i <= s@.len(),
            pieces@.map_values(|p: Vec<u8>| p@).push(cur@) == split_seq(s@.take(i as int), sep),
        decreases s@.len() - i,
    {
        let c = s[i];
        proof {
            assert(s@.take(i + 1).drop_last() =~= s@.take(i as int));
        }
        if c == sep {
            let done = cur;
            pieces.push(done);
            cur = Vec::new();
            assert(pieces@.map_values(|p: Vec<u8>| p@).push(cur@) =~= split_seq(s@.take(i as int), sep).push(Seq::empty()));
        } else {
            let ghost before = pieces@.map_values(|p: Vec<u8>| p@).push(cur@);
            cur.push(c);
            assert(pieces@.map_values(|p: Vec<u8>| p@).push(cur@) =~= before.update(before.len() - 1, before.last().push(c)));
        }
        i = i + 1;
    }
    pieces.push(cur);
    assert(s@.take(s@.len() as int) =~= s@);
    pieces
}

/// Joins character pieces with `sep` between neighbours.
pub fn join_chars(pieces: &Vec<Vec<char>>, sep: char) -> (s: Vec<char>)
    ensures
        s@ == join_seq(pieces@.map_values(|p: Vec<char>| p@), sep),
{
    let ghost views = pieces@.map_values(|p: Vec<char>| p@);
    let mut s: Vec<char> = Vec::new();
    let mut i: usize = 0;
    while i < pieces.len()
        invariant
            i <= pieces@.len(),
            views == pieces@.map_values(|p: Vec<char>| p@),
            s@ == join_seq(views.take(i as int), sep),
        decreases pieces@.len() - i,
    {
        let ghost prev = s@;
        if i > 0 {
            s.push(sep);
        }
        let piece = &pieces[i];
        let mut k: usize = 0;
        while k < piece.len()
            invariant
                k <= piece@.len(),
                i > 0 ==> s@ == prev.push(sep) + piece@.take(k as int),
                i == 0 ==> s@ == piece@.take(k as int),
                prev == join_seq(views.take(i as int), sep),
                i < pieces@.len(),
                piece == pieces@[i as int],
            decreases piece@.len() - k,
        {
            s.push(piece[k]);
            assert(piece@.take(k + 1) =~= piece@.take(k as int).push(piece@[k as int]));
            k = k + 1;
        }
        proof {
            assert(piece@.take(piece@.len() as int) =~= piece@);
            let t = views.take(i + 1);
            assert(t.drop_last() =~= views.take(i as int));
            assert(t.last() == piece@);
            if i == 0 {
                assert(s@ =~= piece@);
            }
        }
        i = i + 1;
    }
    assert(views.take(pieces@.len() as int) =~= views);
    s
}

/// `n` occurs in `h` starting at position `i`.
pub open spec fn occurs_at<A>(h: Seq<A>, n: Seq<A>, i: int) -> bool {
    0 <= i && i + n.len() <= h.len() && h.subrange(i, i + n.len()) == n
}

/// `n` occurs somewhere in `h` (the empty sequence occurs everywhere).
pub open spec fn contains_seq<A>(h: Seq<A>, n: Seq<A>) -> bool {
    exists|i: int| occurs_at(h, n, i)
}

/// Whether `needle` occurs in `hay`.
pub fn contains_chars(hay: &Vec<char>, needle: &Vec<char>) -> (r: bool)
    ensures
        r == contains_seq(hay@, needle@),
{
    if needle.len() == 0 {
        assert(hay@.subrange(0, 0) =~= needle@);
        assert(occurs_at(hay@, needle@, 0));
        return true;
    }
    if needle.len() > hay.len() {
        assert(forall|i: int| !occurs_at(hay@, needle@, i));
        return false;
    }
    let hl = hay.len();
    let last = hl - needle.len();
    let mut i: usize = 0;
    while i <= last
        invariant
            hl == hay@.len(),
            last == hay@.len() - needle@.len(),
            1 <= needle@.len() <= hay@.len(),
            i <= last + 1,
            last < hay@.len(),
            forall|j: int| 0 <= j < i ==> !occurs_at(hay@, needle@, j),
        decreases last + 1 - i,
    {
        let mut k: usize = 0;
        while k < needle.len() && hay[i + k] == needle[k]
            invariant
                k <= needle@.len(),
                i <= last,
                i + needle@.len() <= hay@.len(),
                hl == hay@.len(),
                last == hay@.len() - needle@.len(),
                1 <= needle@.len() <= hay@.len(),
                forall|m: int| 0 <= m < k ==> hay@[i + m] == needle@[m],
            decreases needle@.len() - k,
        {
            k = k + 1;
        }
        if k == needle.len() {
            assert(hay@.subrange(i as int, i + needle@.len()) =~= needle@);
            assert(occurs_at(hay@, needle@, i as int));
            return true;
        }
        assert(hay@.subrange(i as int, i + needle@.len())[k as int] != needle@[k as int]);
        i = i + 1;
    }
    assert forall|j: int| !occurs_at(hay@, needle@, j) by {
        if 0 <= j && j + needle@.len() <= hay@.len() {
            assert(j < i);
        }
    }
    false
}

/// Whether `needle` occurs in `hay`, on string slices.
pub fn str_contains(hay: &str, needle: &str) -> (r: bool)
    ensures
        r == contains_seq(hay@, needle@),
{
    let h = char_vec(hay);
    let n = char_vec(needle);
    contains_chars(&h, &n)
}

/// The characters with the Unicode White_Space property, which is what
/// `char::is_whitespace` and `str::trim` go by.
pub open spec fn is_white_space(c: char) -> bool {
    ||| ('\u{9}' <= c && c <= '\u{d}')
    ||| c == ' '
    ||| c == '\u{85}'
    ||| c == '\u{a0}'
    ||| c == '\u{1680}'
    ||| ('\u{2000}' <= c && c <= '\u{200a}')
    ||| c == '\u{2028}'
    ||| c == '\u{2029}'
    ||| c == '\u{202f}'
    ||| c == '\u{205f}'
    ||| c == '\u{3000}'
}

/// Whether `c` is white space.
pub fn white_space(c: char) -> (r: bool)
    ensures
        r == is_white_space(c),
{
    ('\u{9}' <= c && c <= '\u{d}') || c == ' ' || c == '\u{85}' || c == '\u{a0}' || c == '\u{1680}'
        || ('\u{2000}' <= c && c <= '\u{200a}') || c == '\u{2028}' || c == '\u{2029}'
        || c == '\u{202f}' || c == '\u{205f}' || c == '\u{3000}'
}

/// `s` without its leading white space.
pub open spec fn trim_start(s: Seq<char>) -> Seq<char>
    decreases s.len(),
{
    if s.len() > 0 && is_white_space(s[0]) {
        trim_start(s.drop_first())
    } else {
        s
    }
}

/// `s` without its trailing white space.
pub open spec fn trim_end(s: Seq<char>) -> Seq<char>
    decreases s.len(),
{
    if s.len() > 0 && is_white_space(s.last()) {
        trim_end(s.drop_last())
    } else {
        s
    }
}

/// `s` without leading and trailing white space, as `str::trim` gives it.
pub open spec fn trim(s: Seq<char>) -> Seq<char> {
    trim_end(trim_start(s))
}

/// A sequence that neither begins nor ends with white space is its own trim.
pub proof fn lemma_trim_unchanged(s: Seq<char>)
    requires
        s.len() > 0,
        !is_white_space(s[0]),
        !is_white_space(s.last()),
    ensures
        trim(s) == s,
{
}

/// Trims white space from both ends.
pub fn trim_chars(s: &Vec<char>) -> (r: Vec<char>)
    ensures
        r@ == trim(s@),
{
    let n = s.len();
    let mut i: usize = 0;
    assert(s@.subrange(0, n as int) =~= s@);
    while i < n && white_space(s[i])
        invariant
            n == s@.len(),
            i <= n,
            trim_start(s@) == trim_start(s@.subrange(i as int, n as int)),
        decreases n - i,
    {
        assert(s@.subrange(i as int, n as int).drop_first() =~= s@.subrange(i + 1, n as int));
        i = i + 1;
    }
    assert(trim_start(s@) == s@.subrange(i as int, n as int));
    let ghost t = s@.subrange(i as int, n as int);
    let mut j: usize = n;
    while j > i && white_space(s[j - 1])
        invariant
            n == s@.len(),
            i <= j <= n,
            t == s@.subrange(i as int, n as int),
            trim_end(t) == trim_end(s@.subrange(i as int, j as int)),
        decreases j - i,
    {
        assert(s@.subrange(i as int, j as int).drop_last() =~= s@.subrange(i as int, j - 1));
        j = j - 1;
    }
    let mut r: Vec<char> = Vec::new();
    let mut k: usize = i;
    while k < j
        invariant
            i <= k <= j <= n,
            n == s@.len(),
            r@ == s@.subrange(i as int, k as int),
        decreases j - k,
    {
        r.push(s[k]);
        assert(s@.subrange(i as int, k + 1) =~= s@.subrange(i as int, k as int).push(s@[k as int]));
        k = k + 1;
    }
    r
}

/// Reads `bytes` as UTF-8 text.
///
/// Trusted: calls `std::str::from_utf8`, which, as std documents, succeeds exactly
/// on valid UTF-8 and then hands back a string slice made of the same bytes. The
/// contract states that over vstd's `valid_utf8` and the slice's byte encoding.
#[verifier::external_body]
fn str_from_utf8(bytes: &[u8]) -> (r: Option<&str>)
    ensures
        r is Some <==> valid_utf8(bytes@),
        r matches Some(s) ==> s.spec_bytes() == bytes@,
{
    std::str::from_utf8(bytes).ok()
}

/// Decodes UTF-8 bytes into an owned `String`, or `None` where they are not valid UTF-8.
pub fn decode_utf8_string(bytes: &[u8]) -> (r: Option<String>)
    ensures
        r is Some <==> valid_utf8(bytes@),
        r matches Some(s) ==> s@ == decode_utf8(bytes@),
{
    match str_from_utf8(bytes) {
        Some(s) => {
            proof {
                encode_utf8_decode_utf8(s@);
            }
            Some(s.to_owned())
        },
        None => None,
    }
}

} // verus!
