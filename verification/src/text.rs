//! Character-level text operations with their mathematical models.

use vstd::prelude::*;

verus! {

/// Unicode lowercase mapping of one character, as `char::to_lowercase` yields it.
pub uninterp spec fn char_lowercase(c: char) -> Seq<char>;

/// Unicode uppercase mapping of one character, as `char::to_uppercase` yields it.
pub uninterp spec fn char_uppercase(c: char) -> Seq<char>;

/// Lowercase form of a whole string, as `str::to_lowercase` returns it.
pub uninterp spec fn str_lowercase(s: Seq<char>) -> Seq<char>;

pub open spec fn is_ascii_char(c: char) -> bool {
    (c as u32) < 128
}

pub open spec fn is_ascii_upper(c: char) -> bool {
    65 <= (c as u32) <= 90
}

pub open spec fn is_ascii_lower(c: char) -> bool {
    97 <= (c as u32) <= 122
}

pub open spec fn is_ascii_digit(c: char) -> bool {
    48 <= (c as u32) <= 57
}

pub open spec fn is_ascii_alnum(c: char) -> bool {
    is_ascii_upper(c) || is_ascii_lower(c) || is_ascii_digit(c)
}

/// The ASCII lowercase form of a character; every other character is kept.
pub open spec fn ascii_to_lower(c: char) -> char {
    if is_ascii_upper(c) {
        ((c as u32) + 32) as char
    } else {
        c
    }
}

/// The ASCII uppercase form of a character; every other character is kept.
pub open spec fn ascii_to_upper(c: char) -> char {
    if is_ascii_lower(c) {
        ((c as u32) - 32) as char
    } else {
        c
    }
}

/// Text in which every character is ASCII.
pub open spec fn is_ascii_text(s: Seq<char>) -> bool {
    forall|i: int| 0 <= i < s.len() ==> is_ascii_char(#[trigger] s[i])
}

/// Text holding no ASCII uppercase letter.
pub open spec fn has_no_ascii_upper(s: Seq<char>) -> bool {
    forall|i: int| 0 <= i < s.len() ==> !is_ascii_upper(#[trigger] s[i])
}

/// Every ASCII uppercase letter of `s` turned into its lowercase form.
pub open spec fn ascii_fold(s: Seq<char>) -> Seq<char> {
    s.map_values(|c: char| ascii_to_lower(c))
}

/// The lowercase mapping of a character: ASCII lowercase for ASCII characters,
/// the Unicode mapping otherwise.
pub open spec fn lower_mapping(c: char) -> Seq<char> {
    if is_ascii_char(c) {
        seq![ascii_to_lower(c)]
    } else {
        char_lowercase(c)
    }
}

/// The uppercase mapping of a character: ASCII uppercase for ASCII characters,
/// the Unicode mapping otherwise.
pub open spec fn upper_mapping(c: char) -> Seq<char> {
    if is_ascii_char(c) {
        seq![ascii_to_upper(c)]
    } else {
        char_uppercase(c)
    }
}

/// Each character replaced by its lowercase mapping.
pub open spec fn lower_each(s: Seq<char>) -> Seq<char>
    decreases s.len(),
{
    if s.len() == 0 {
        seq![]
    } else {
        lower_each(s.drop_last()) + lower_mapping(s.last())
    }
}

/// Characters with the same ASCII-folded form have the same lowercase mapping;
/// a non-ASCII one is only ever folded together with itself.
pub proof fn lemma_fold_equal_lower(c: char, d: char)
    requires
        ascii_to_lower(c) == ascii_to_lower(d),
    ensures
        lower_mapping(c) == lower_mapping(d),
        !is_ascii_char(c) ==> c == d,
{
    if is_ascii_upper(c) {
        assert((ascii_to_lower(c) as u32) == (c as u32) + 32);
    }
    if is_ascii_upper(d) {
        assert((ascii_to_lower(d) as u32) == (d as u32) + 32);
    }
}

/// Texts with the same ASCII-folded form lowercase alike, character by character.
pub proof fn lemma_lower_each_fold(s: Seq<char>, t: Seq<char>)
    requires
        ascii_fold(s) == ascii_fold(t),
    ensures
        lower_each(s) == lower_each(t),
    decreases s.len(),
{
    assert(s.len() == ascii_fold(s).len() && t.len() == ascii_fold(t).len());
    if s.len() > 0 {
        let n = s.len() - 1;
        assert(ascii_fold(s.drop_last()) == ascii_fold(s).drop_last());
        assert(ascii_fold(t.drop_last()) == ascii_fold(t).drop_last());
        lemma_lower_each_fold(s.drop_last(), t.drop_last());
        assert(ascii_fold(s)[n] == ascii_fold(t)[n]);
        assert(ascii_fold(s)[n] == ascii_to_lower(s[n]));
        assert(ascii_fold(t)[n] == ascii_to_lower(t[n]));
        lemma_fold_equal_lower(s[n], t[n]);
    }
}

/// Texts with the same ASCII-folded form hold a given non-ASCII character alike.
pub proof fn lemma_fold_keeps_non_ascii(s: Seq<char>, t: Seq<char>, c: char)
    requires
        ascii_fold(s) == ascii_fold(t),
        !is_ascii_char(c),
    ensures
        s.contains(c) <==> t.contains(c),
{
    assert(s.len() == ascii_fold(s).len() && t.len() == ascii_fold(t).len());
    if s.contains(c) {
        let i = choose|i: int| 0 <= i < s.len() && s[i] == c;
        assert(ascii_fold(s)[i] == ascii_to_lower(s[i]));
        assert(ascii_fold(t)[i] == ascii_to_lower(t[i]));
        lemma_fold_equal_lower(s[i], t[i]);
        assert(t[i] == c);
    }
    if t.contains(c) {
        let i = choose|i: int| 0 <= i < t.len() && t[i] == c;
        assert(ascii_fold(s)[i] == ascii_to_lower(s[i]));
        assert(ascii_fold(t)[i] == ascii_to_lower(t[i]));
        lemma_fold_equal_lower(t[i], s[i]);
        assert(s[i] == c);
    }
}

/// Folding ASCII case commutes with concatenation.
pub proof fn lemma_ascii_fold_concat(a: Seq<char>, b: Seq<char>)
    ensures
        ascii_fold(a + b) == ascii_fold(a) + ascii_fold(b),
{
    assert(ascii_fold(a + b) == ascii_fold(a) + ascii_fold(b));
}

/// Lowercase mapping of one character (`char::to_lowercase`).
/// Claimed: the mapping is the named one, it has at least one character and no
/// ASCII uppercase letter, and an ASCII character maps to its ASCII lowercase form alone.
#[verifier::external_body]
pub(crate) fn lowercase_char(c: char) -> (r: Vec<char>)
    ensures
        r@ == char_lowercase(c),
        r@.len() >= 1,
        has_no_ascii_upper(r@),
        is_ascii_char(c) ==> r@ == seq![ascii_to_lower(c)],
{
    c.to_lowercase().collect()
}

/// Uppercase mapping of one character (`char::to_uppercase`).
/// Claimed: the mapping is the named one, it has at least one character,
/// and an ASCII character maps to its ASCII uppercase form alone.
#[verifier::external_body]
pub(crate) fn uppercase_char(c: char) -> (r: Vec<char>)
    ensures
        r@ == char_uppercase(c),
        r@.len() >= 1,
        is_ascii_char(c) ==> r@ == seq![ascii_to_upper(c)],
{
    c.to_uppercase().collect()
}

/// Lowercase form of a string (`str::to_lowercase`).
/// Claimed: the result is the named lowercase form of the argument; an all-ASCII
/// string is lowercased letter by letter in ASCII; and a string without `Σ`
/// (U+03A3) is lowercased character by character. How `Σ` is lowercased depends on
/// its neighbours (the final-sigma rule) and is left to the name.
#[verifier::external_body]
pub(crate) fn lowercase_str(s: &str) -> (r: String)
    ensures
        r@ == str_lowercase(s@),
        is_ascii_text(s@) ==> r@ == ascii_fold(s@),
        !s@.contains('\u{3A3}') ==> r@ == lower_each(s@),
{
    s.to_lowercase()
}

/// Appends one character (`String::push`).
/// Claimed: the string afterwards is the old one followed by `c`.
#[verifier::external_body]
pub(crate) fn push_char(s: &mut String, c: char)
    ensures
        final(s)@ == old(s)@.push(c),
{
    s.push(c);
}

/// The characters of a string, in order.
pub fn chars_of(s: &str) -> (r: Vec<char>)
    ensures
        r@ == s@,
{
    let mut r: Vec<char> = Vec::new();
    for c in it: s.chars()
        invariant
            it.seq() == s@,
            r@ == it.seq().take(it.index() as int),
    {
        r.push(c);
    }
    r
}

/// A string holding exactly the given characters.
pub fn string_from_chars(v: &Vec<char>) -> (r: String)
    ensures
        r@ == v@,
{
    let mut r = String::new();
    let mut i: usize = 0;
    while i < v.len()
        invariant
            i <= v.len(),
            r@ == v@.take(i as int),
        decreases v.len() - i,
    {
        push_char(&mut r, v[i]);
        assert(v@.take(i + 1) == v@.take(i as int).push(v@[i as int]));
        i = i + 1;
    }
    assert(v@.take(v.len() as int) == v@);
    r
}

/// The pieces in order, `sep` between two neighbours.
pub open spec fn join_with(ws: Seq<Seq<char>>, sep: Seq<char>) -> Seq<char>
    decreases ws.len(),
{
    if ws.len() == 0 {
        seq![]
    } else if ws.len() == 1 {
        ws[0]
    } else {
        join_with(ws.drop_last(), sep) + sep + ws.last()
    }
}

/// `p` occurs in `s` as a contiguous run of characters.
pub open spec fn has_substring(s: Seq<char>, p: Seq<char>) -> bool {
    exists|i: int| 0 <= i <= s.len() - p.len() && #[trigger] s.subrange(i, i + p.len()) == p
}

/// `s` with every occurrence of the non-empty pattern `pat`, scanned left to right
/// without overlap, replaced by `rep`.
pub open spec fn replace_all(s: Seq<char>, pat: Seq<char>, rep: Seq<char>) -> Seq<char>
    decreases s.len(),
{
    if pat.len() == 0 || s.len() < pat.len() {
        s
    } else if s.take(pat.len() as int) == pat {
        rep + replace_all(s.skip(pat.len() as int), pat, rep)
    } else {
        seq![s[0]] + replace_all(s.skip(1), pat, rep)
    }
}

/// `s` with every character `from` turned into `to`.
pub open spec fn replace_char(s: Seq<char>, from: char, to: char) -> Seq<char> {
    s.map_values(|c: char| if c == from { to } else { c })
}

/// An occurrence in either part is an occurrence in the concatenation.
pub proof fn lemma_substring_in_concat(a: Seq<char>, b: Seq<char>, p: Seq<char>)
    ensures
        has_substring(a, p) ==> has_substring(a + b, p),
        has_substring(b, p) ==> has_substring(a + b, p),
{
    if has_substring(a, p) {
        let i = choose|i: int| 0 <= i <= a.len() - p.len() && #[trigger] a.subrange(i, i + p.len()) == p;
        assert((a + b).subrange(i, i + p.len()) == a.subrange(i, i + p.len()));
    }
    if has_substring(b, p) {
        let i = choose|i: int| 0 <= i <= b.len() - p.len() && #[trigger] b.subrange(i, i + p.len()) == p;
        let j = i + a.len();
        assert((a + b).subrange(j, j + p.len()) == b.subrange(i, i + p.len()));
    }
}

/// Every text occurs in itself surrounded by anything.
pub proof fn lemma_substring_middle(a: Seq<char>, p: Seq<char>, b: Seq<char>)
    ensures
        has_substring(a + p + b, p),
{
    let j = a.len() as int;
    assert((a + p + b).subrange(j, j + p.len()) == p);
}

/// Whether `p` occurs in `s`.
pub fn contains_str(s: &str, p: &str) -> (b: bool)
    ensures
        b == has_substring(s@, p@),
{
    let sc = chars_of(s);
    let pc = chars_of(p);
    let n = sc.len();
    let m = pc.len();
    if m > n {
        return false;
    }
    let mut i: usize = 0;
    while i <= n - m
        invariant
            m <= n,
            n == sc@.len(),
            m == pc@.len(),
            sc@ == s@,
            pc@ == p@,
            forall|k: int| 0 <= k < i ==> #[trigger] sc@.subrange(k, k + m) != pc@,
        decreases n - m + 1 - i,
    {
        let mut j: usize = 0;
        let mut same = true;
        while j < m && same
            invariant
                j <= m,
                i + m <= n,
                n == sc@.len(),
                m == pc@.len(),
                same <==> forall|t: int| 0 <= t < j ==> sc@[i + t] == pc@[t],
            decreases m - j,
        {
            if sc[i + j] != pc[j] {
                same = false;
            }
            j = j + 1;
        }
        if same {
            assert(sc@.subrange(i as int, i + m) == pc@);
            return true;
        }
        assert(sc@.subrange(i as int, i + m) != pc@) by {
            let t = choose|t: int| 0 <= t < j && sc@[i + t] != pc@[t];
            assert(sc@.subrange(i as int, i + m)[t] == sc@[i + t]);
        }
        i = i + 1;
    }
    false
}

/// Whether two strings hold the same characters.
pub fn str_equal(a: &str, b: &str) -> (r: bool)
    ensures
        r == (a@ == b@),
{
    let ac = chars_of(a);
    let bc = chars_of(b);
    if ac.len() != bc.len() {
        return false;
    }
    let mut i: usize = 0;
    while i < ac.len()
        invariant
            i <= ac@.len(),
            ac@.len() == bc@.len(),
            ac@ == a@,
            bc@ == b@,
            forall|k: int| 0 <= k < i ==> ac@[k] == bc@[k],
        decreases ac@.len() - i,
    {
        if ac[i] != bc[i] {
            return false;
        }
        i = i + 1;
    }
    assert(ac@ == bc@);
    true
}

/// `s` with every non-overlapping occurrence of `pat` replaced by `rep`, left to right.
pub fn replace_str(s: &str, pat: &str, rep: &str) -> (r: String)
    requires
        pat@.len() > 0,
    ensures
        r@ == replace_all(s@, pat@, rep@),
{
    let sc = chars_of(s);
    let pc = chars_of(pat);
    let rc = chars_of(rep);
    let n = sc.len();
    let m = pc.len();
    let mut out: Vec<char> = Vec::new();
    let mut i: usize = 0;
    assert(sc@.skip(0) == sc@);
    assert(out@ + replace_all(sc@, pc@, rc@) == replace_all(sc@, pc@, rc@));
    while i < n
        invariant
            i <= n,
            n == sc@.len(),
            m == pc@.len(),
            m > 0,
            sc@ == s@,
            pc@ == pat@,
            rc@ == rep@,
            out@ + replace_all(sc@.skip(i as int), pc@, rc@) == replace_all(sc@, pc@, rc@),
        decreases n - i,
    {
        let ghost rest = sc@.skip(i as int);
        let mut hit = false;
        if m <= n - i {
            let mut j: usize = 0;
            hit = true;
            while j < m && hit
                invariant
                    j <= m,
                    i + m <= n,
                    n == sc@.len(),
                    m == pc@.len(),
                    hit <==> forall|t: int| 0 <= t < j ==> sc@[i + t] == pc@[t],
                decreases m - j,
            {
                if sc[i + j] != pc[j] {
                    hit = false;
                }
                j = j + 1;
            }
            if hit {
                assert(rest.take(m as int) == pc@);
            } else {
                assert(rest.take(m as int) != pc@) by {
                    let t = choose|t: int| 0 <= t < j && sc@[i + t] != pc@[t];
                    assert(rest.take(m as int)[t] == sc@[i + t]);
                }
            }
        }
        if hit {
            let ghost before = out@;
            let mut k: usize = 0;
            while k < rc.len()
                invariant
                    k <= rc@.len(),
                    out@ == before + rc@.take(k as int),
                decreases rc@.len() - k,
            {
                out.push(rc[k]);
                assert(rc@.take(k + 1) == rc@.take(k as int).push(rc@[k as int]));
                k = k + 1;
            }
            assert(rc@.take(rc@.len() as int) == rc@);
            assert(rest.skip(m as int) == sc@.skip(i + m));
            assert(before + replace_all(rest, pc@, rc@) == out@ + replace_all(sc@.skip(i + m), pc@, rc@));
            i = i + m;
        } else {
            let ghost before = out@;
            out.push(sc[i]);
            assert(rest.skip(1) == sc@.skip(i + 1));
            assert(rest[0] == sc@[i as int]);
            assert(before + replace_all(rest, pc@, rc@) == out@ + replace_all(sc@.skip(i + 1), pc@, rc@));
            i = i + 1;
        }
    }
    assert(sc@.skip(n as int) == Seq::<char>::empty());
    assert(out@ + Seq::<char>::empty() == out@);
    assert(sc@.skip(0) == sc@);
    string_from_chars(&out)
}

/// `s` with every character `from` turned into `to`.
pub fn replace_char_in(s: &str, from: char, to: char) -> (r: String)
    ensures
        r@ == replace_char(s@, from, to),
{
    let sc = chars_of(s);
    let mut out: Vec<char> = Vec::new();
    let mut i: usize = 0;
    while i < sc.len()
        invariant
            i <= sc@.len(),
            sc@ == s@,
            out@ == replace_char(sc@.take(i as int), from, to),
        decreases sc@.len() - i,
    {
        let c = sc[i];
        out.push(if c == from { to } else { c });
        assert(replace_char(sc@.take(i + 1), from, to) == replace_char(sc@.take(i as int), from, to).push(
            if c == from { to } else { c },
        ));
        i = i + 1;
    }
    assert(sc@.take(sc@.len() as int) == sc@);
    string_from_chars(&out)
}

} // verus!
