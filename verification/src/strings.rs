//! Text primitives: characters of a string, trimming, splitting at
//! separator characters, substring search and joining.
use vstd::prelude::*;

verus! {

/// Appends one character to a string (`String::push`).
#[verifier::external_body]
pub fn push_char(s: &mut String, c: char)
    ensures
        final(s)@ == old(s)@.push(c),
{
    s.push(c);
}

/// The lower-case mapping of a string that `str::to_lowercase` computes
/// from the Unicode tables.
pub uninterp spec fn lowercase_of(s: Seq<char>) -> Seq<char>;

/// `str::to_lowercase`: its result is the Unicode lower-case mapping of
/// its argument, a function of the argument alone; what that mapping is,
/// character by character, is left to the name `lowercase_of`.
#[verifier::external_body]
pub fn to_lowercase(s: &str) -> (out: String)
    ensures
        out@ == lowercase_of(s@),
{
    s.to_lowercase()
}

/// The texts of a sequence of strings.
pub open spec fn texts_view(v: Seq<String>) -> Seq<Seq<char>> {
    Seq::new(v.len(), |i: int| v[i]@)
}

/// The characters of a string slice, in order.
pub fn chars_of(s: &str) -> (out: Vec<char>)
    ensures
        out@ == s@,
{
    let mut out: Vec<char> = Vec::new();
    for c in it: s.chars()
        invariant
            out@ == it.seq().take(it.index() as int),
    {
        out.push(c);
    }
    out
}

/// The string made of the characters of `cs`, in order.
pub fn string_of(cs: &[char]) -> (out: String)
    ensures
        out@ == cs@,
{
    let mut out = String::new();
    let mut i: usize = 0;
    while i < cs.len()
        invariant
            i <= cs.len(),
            out@ == cs@.take(i as int),
        decreases cs.len() - i,
    {
        push_char(&mut out, cs[i]);
        assert(cs@.take(i + 1) == cs@.take(i as int).push(cs@[i as int]));
        i += 1;
    }
    assert(cs@.take(cs.len() as int) == cs@);
    out
}

/// The characters with the Unicode `White_Space` property, which is what
/// `char::is_whitespace` tests.
pub open spec fn is_white_space(c: char) -> bool {
    ||| ('\u{9}' <= c && c <= '\u{d}')
    ||| c == ' '
    ||| c == '\u{85}'
    ||| c == '\u{a0}'
    ||| c == '\u{1680}'
    ||| ('\u{2000}' <= c && c <= '\u{200a}')
    ||| c == '\u{2028}'
    ||| c == '\u{2029}'
    ||| c == '\u{202f}'
    ||| c == '\u{205f}'
    ||| c == '\u{3000}'
}

pub fn is_white_space_char(c: char) -> (b: bool)
    ensures
        b == is_white_space(c),
{
    ('\u{9}' <= c && c <= '\u{d}') || c == ' ' || c == '\u{85}' || c == '\u{a0}' || c
        == '\u{1680}' || ('\u{2000}' <= c && c <= '\u{200a}') || c == '\u{2028}' || c
        == '\u{2029}' || c == '\u{202f}' || c == '\u{205f}' || c == '\u{3000}'
}

/// `s` without its leading white space.
pub open spec fn trim_start(s: Seq<char>) -> Seq<char>
    decreases s.len(),
{
    if s.len() > 0 && is_white_space(s[0]) {
        trim_start(s.drop_first())
    } else {
        s
    }
}

/// `s` without its trailing white space.
pub open spec fn trim_end(s: Seq<char>) -> Seq<char>
    decreases s.len(),
{
    if s.len() > 0 && is_white_space(s.last()) {
        trim_end(s.drop_last())
    } else {
        s
    }
}

/// What `str::trim` gives.
pub open spec fn trim(s: Seq<char>) -> Seq<char> {
    trim_end(trim_start(s))
}

proof fn lemma_trim_start_skip(s: Seq<char>, i: int)
    requires
        0 <= i <= s.len(),
        forall|k: int| 0 <= k < i ==> is_white_space(#[trigger] s[k]),
    ensures
        trim_start(s) == trim_start(s.skip(i)),
    decreases i,
{
    if i > 0 {
        assert(s.drop_first().skip(i - 1) =~= s.skip(i));
        assert forall|k: int| 0 <= k < i - 1 implies is_white_space(
            #[trigger] s.drop_first()[k],
        ) by {
            assert(s.drop_first()[k] == s[k + 1]);
        }
        lemma_trim_start_skip(s.drop_first(), i - 1);
    } else {
        assert(s.skip(0) =~= s);
    }
}

proof fn lemma_trim_end_take(s: Seq<char>, j: int)
    requires
        0 <= j <= s.len(),
        forall|k: int| j <= k < s.len() ==> is_white_space(#[trigger] s[k]),
    ensures
        trim_end(s) == trim_end(s.take(j)),
    decreases s.len() - j,
{
    if j < s.len() {
        assert(s.drop_last().take(j) =~= s.take(j));
        lemma_trim_end_take(s.drop_last(), j);
    } else {
        assert(s.take(j) =~= s);
    }
}

/// Trim result facts: no white space at either end.
pub proof fn lemma_trim_ends(s: Seq<char>)
    ensures
        trim(s).len() > 0 ==> !is_white_space(trim(s)[0]) && !is_white_space(trim(s).last()),
        trim(s).len() <= s.len(),
    decreases s.len(),
{
    lemma_trim_start_shape(s);
    lemma_trim_end_shape(trim_start(s));
}

proof fn lemma_trim_start_shape(s: Seq<char>)
    ensures
        trim_start(s).len() <= s.len(),
        trim_start(s) =~= s.skip(s.len() - trim_start(s).len()),
        trim_start(s).len() > 0 ==> !is_white_space(trim_start(s)[0]),
    decreases s.len(),
{
    if s.len() > 0 && is_white_space(s[0]) {
        lemma_trim_start_shape(s.drop_first());
    }
}

proof fn lemma_trim_end_shape(s: Seq<char>)
    ensures
        trim_end(s).len() <= s.len(),
        trim_end(s).len() > 0 ==> !is_white_space(trim_end(s).last()),
        trim_end(s).len() > 0 && s.len() > 0 ==> trim_end(s)[0] == s[0],
        trim_end(s) =~= s.take(trim_end(s).len() as int),
    decreases s.len(),
{
    if s.len() > 0 && is_white_space(s.last()) {
        lemma_trim_end_shape(s.drop_last());
        assert(s.drop_last().take(trim_end(s).len() as int) =~= s.take(
            trim_end(s).len() as int,
        ));
    } else {
        assert(s.take(s.len() as int) =~= s);
    }
}

/// A trimmed text is a contiguous piece of the text: it starts at the
/// returned offset.
pub proof fn lemma_trim_is_infix(s: Seq<char>) -> (a: int)
    ensures
        0 <= a && a + trim(s).len() <= s.len(),
        trim(s) =~= s.subrange(a, a + trim(s).len()),
{
    lemma_trim_start_shape(s);
    let t = trim_start(s);
    lemma_trim_end_shape(t);
    let a = s.len() - t.len();
    assert(trim(s) =~= s.subrange(a, a + trim(s).len()));
    a
}

/// `str::trim` on a sequence of characters.
pub fn trim_chars(s: &[char]) -> (out: Vec<char>)
    ensures
        out@ == trim(s@),
{
    let mut i: usize = 0;
    while i < s.len() && is_white_space_char(s[i])
        invariant
            i <= s.len(),
            forall|k: int| 0 <= k < i ==> is_white_space(#[trigger] s@[k]),
        decreases s.len() - i,
    {
        i += 1;
    }
    proof {
        lemma_trim_start_skip(s@, i as int);
        if i < s.len() {
            assert(s@.skip(i as int)[0] == s@[i as int]);
        }
    }
    let ghost rest = s@.skip(i as int);
    assert(trim_start(s@) == rest);
    let mut j: usize = s.len();
    while j > i && is_white_space_char(s[j - 1])
        invariant
            i <= j <= s.len(),
            rest == s@.skip(i as int),
            forall|k: int| j - i <= k < rest.len() ==> is_white_space(#[trigger] rest[k]),
        decreases j,
    {
        j -= 1;
    }
    proof {
        lemma_trim_end_take(rest, j - i);
        if j > i {
            assert(rest.take(j - i).last() == s@[j - 1]);
        }
    }
    let mut out: Vec<char> = Vec::new();
    let mut k: usize = i;
    while k < j
        invariant
            i <= k <= j <= s.len(),
            out@ == s@.subrange(i as int, k as int),
        decreases j - k,
    {
        out.push(s[k]);
        assert(s@.subrange(i as int, k + 1) =~= s@.subrange(i as int, k as int).push(s@[k as int]));
        k += 1;
    }
    assert(rest.take(j - i) =~= s@.subrange(i as int, j as int));
    out
}

/// `str::trim`.
pub fn trim_str(s: &str) -> (out: String)
    ensures
        out@ == trim(s@),
{
    let cs = chars_of(s);
    let t = trim_chars(cs.as_slice());
    string_of(t.as_slice())
}

/// The pieces of `s` between the characters that `seps` holds, in order,
/// empty pieces included: what `str::split` gives with a predicate that
/// accepts exactly those characters.
pub open spec fn pieces(s: Seq<char>, seps: Seq<char>) -> Seq<Seq<char>>
    decreases s.len(),
{
    if s.len() == 0 {
        seq![Seq::<char>::empty()]
    } else {
        let p = pieces(s.drop_last(), seps);
        if seps.contains(s.last()) {
            p.push(Seq::<char>::empty())
        } else {
            p.update(p.len() - 1, p.last().push(s.last()))
        }
    }
}

pub proof fn lemma_pieces_nonempty(s: Seq<char>, seps: Seq<char>)
    ensures
        pieces(s, seps).len() >= 1,
    decreases s.len(),
{
    if s.len() > 0 {
        lemma_pieces_nonempty(s.drop_last(), seps);
    }
}

/// A text with no separator is one piece: itself.
pub proof fn lemma_pieces_without_separator(s: Seq<char>, seps: Seq<char>)
    requires
        forall|k: int| 0 <= k < s.len() ==> !seps.contains(#[trigger] s[k]),
    ensures
        pieces(s, seps) == seq![s],
    decreases s.len(),
{
    if s.len() > 0 {
        assert forall|k: int| 0 <= k < s.drop_last().len() implies !seps.contains(
            #[trigger] s.drop_last()[k],
        ) by {
            assert(s.drop_last()[k] == s[k]);
        }
        lemma_pieces_without_separator(s.drop_last(), seps);
        assert(!seps.contains(s[s.len() - 1]));
        assert(s.drop_last().push(s.last()) =~= s);
        assert(seq![s.drop_last()].update(0, s.drop_last().push(s.last())) =~= seq![s]);
    } else {
        assert(s =~= Seq::<char>::empty());
    }
}

/// Splitting at a separator: the pieces of `a`, a separator, then `b` are
/// the pieces of `a` followed by those of `b`.
pub proof fn lemma_pieces_concat(a: Seq<char>, c: char, b: Seq<char>, seps: Seq<char>)
    requires
        seps.contains(c),
    ensures
        pieces(a + seq![c] + b, seps) == pieces(a, seps) + pieces(b, seps),
    decreases b.len(),
{
    let s = a + seq![c] + b;
    lemma_pieces_nonempty(a, seps);
    if b.len() == 0 {
        assert(s.drop_last() =~= a);
        assert(s.last() == c);
        assert(pieces(b, seps) == seq![Seq::<char>::empty()]) by {
            assert(b =~= Seq::<char>::empty());
        }
        assert(pieces(a, seps).push(Seq::<char>::empty()) =~= pieces(a, seps) + seq![Seq::<char>::empty()]);
    } else {
        lemma_pieces_concat(a, c, b.drop_last(), seps);
        lemma_pieces_nonempty(b.drop_last(), seps);
        assert(s.drop_last() =~= a + seq![c] + b.drop_last());
        assert(s.last() == b.last());
        let p = pieces(a, seps);
        let q = pieces(b.drop_last(), seps);
        if seps.contains(b.last()) {
            assert((p + q).push(Seq::<char>::empty()) =~= p + q.push(Seq::<char>::empty()));
        } else {
            assert((p + q).update((p + q).len() - 1, (p + q).last().push(b.last())) =~= p + q.update(
                q.len() - 1,
                q.last().push(b.last()),
            ));
        }
    }
}

/// No piece holds a separator.
pub proof fn lemma_pieces_have_no_separator(s: Seq<char>, seps: Seq<char>)
    ensures
        forall|i: int, k: int|
            0 <= i < pieces(s, seps).len() && 0 <= k < pieces(s, seps)[i].len() ==> !seps.contains(
                #[trigger] pieces(s, seps)[i][k],
            ),
    decreases s.len(),
{
    if s.len() > 0 {
        lemma_pieces_nonempty(s.drop_last(), seps);
        lemma_pieces_have_no_separator(s.drop_last(), seps);
        let p = pieces(s.drop_last(), seps);
        if !seps.contains(s.last()) {
            assert forall|i: int, k: int|
                0 <= i < pieces(s, seps).len() && 0 <= k < pieces(s, seps)[i].len() implies !seps.contains(
                #[trigger] pieces(s, seps)[i][k],
            ) by {
                if i == p.len() - 1 && k == p.last().len() {
                } else if i == p.len() - 1 {
                    assert(pieces(s, seps)[i][k] == p[i][k]);
                }
            }
        }
    }
}

/// Whether `c` is one of `seps`.
pub fn is_one_of(c: char, seps: &[char]) -> (b: bool)
    ensures
        b == seps@.contains(c),
{
    let mut i: usize = 0;
    while i < seps.len()
        invariant
            i <= seps.len(),
            forall|k: int| 0 <= k < i ==> seps@[k] != c,
        decreases seps.len() - i,
    {
        if seps[i] == c {
            assert(seps@[i as int] == c);
            return true;
        }
        i += 1;
    }
    false
}

/// Whether two character sequences are equal.
pub fn chars_equal(a: &[char], b: &[char]) -> (r: bool)
    ensures
        r == (a@ == b@),
{
    if a.len() != b.len() {
        return false;
    }
    let mut i: usize = 0;
    while i < a.len()
        invariant
            a.len() == b.len(),
            i <= a.len(),
            forall|k: int| 0 <= k < i ==> a@[k] == b@[k],
        decreases a.len() - i,
    {
        if a[i] != b[i] {
            return false;
        }
        i += 1;
    }
    assert(a@ =~= b@);
    true
}

/// Whether two strings are equal.
pub fn str_equal(a: &str, b: &str) -> (r: bool)
    ensures
        r == (a@ == b@),
{
    let x = chars_of(a);
    let y = chars_of(b);
    chars_equal(x.as_slice(), y.as_slice())
}

/// Whether `needle` occurs in `hay` at position `at`.
pub open spec fn occurs_at(hay: Seq<char>, needle: Seq<char>, at: int) -> bool {
    0 <= at && at + needle.len() <= hay.len() && hay.subrange(at, at + needle.len()) == needle
}

/// What `str::contains` with a string pattern gives.
pub open spec fn contains_text(hay: Seq<char>, needle: Seq<char>) -> bool {
    exists|at: int| occurs_at(hay, needle, at)
}

/// `str::contains` with a string pattern.
pub fn contains_chars(hay: &[char], needle: &[char]) -> (b: bool)
    ensures
        b == contains_text(hay@, needle@),
{
    if needle.len() > hay.len() {
        assert forall|at: int| !occurs_at(hay@, needle@, at) by {}
        return false;
    }
    let last: usize = hay.len() - needle.len();
    let mut at: usize = 0;
    while at <= last
        invariant
            last == hay.len() - needle.len(),
            at <= last + 1,
            forall|a: int| 0 <= a < at ==> !occurs_at(hay@, needle@, a),
        decreases last + 1 - at,
    {
        let mut k: usize = 0;
        let mut same = true;
        while k < needle.len()
            invariant
                at <= last,
                last == hay.len() - needle.len(),
                k <= needle.len(),
                same == (forall|m: int| 0 <= m < k ==> hay@[at + m] == needle@[m]),
            decreases needle.len() - k,
        {
            if hay[at + k] != needle[k] {
                same = false;
            }
            k += 1;
        }
        if same {
            assert(hay@.subrange(at as int, at + needle.len()) =~= needle@);
            assert(occurs_at(hay@, needle@, at as int));
            return true;
        } else {
            assert(!occurs_at(hay@, needle@, at as int)) by {
                let m = choose|m: int| 0 <= m < needle.len() && hay@[at + m] != needle@[m];
                if hay@.subrange(at as int, at + needle.len()) == needle@ {
                    assert(hay@.subrange(at as int, at + needle.len())[m] == hay@[at + m]);
                }
            }
        }
        at += 1;
    }
    assert forall|a: int| !occurs_at(hay@, needle@, a) by {
        if 0 <= a && a + needle.len() <= hay.len() {
            assert(a < at);
        }
    }
    false
}

/// The texts of `parts` with `sep` between each two: what `join` gives on
/// a slice of strings.
pub open spec fn joined(parts: Seq<Seq<char>>, sep: Seq<char>) -> Seq<char>
    decreases parts.len(),
{
    if parts.len() == 0 {
        Seq::empty()
    } else if parts.len() == 1 {
        parts[0]
    } else {
        joined(parts.drop_last(), sep) + sep + parts.last()
    }
}

} // verus!
