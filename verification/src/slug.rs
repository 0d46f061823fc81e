//! Identifier slugs and display titles.

use vstd::prelude::*;
use crate::text::{
    ascii_fold, ascii_to_lower, lemma_fold_equal_lower, lemma_lower_each_fold, lower_each, chars_of, has_no_ascii_upper, is_ascii_alnum, is_ascii_char,
    ascii_to_upper, is_ascii_upper, join_with, lower_mapping, lowercase_char, replace_char,
    string_from_chars, upper_mapping, uppercase_char,
};

verus! {

/// The characters that Unicode gives the `White_Space` property.
pub open spec fn is_unicode_whitespace(c: char) -> bool {
    let u = c as u32;
    ||| 9 <= u <= 13
    ||| u == 32
    ||| u == 0x85
    ||| u == 0xA0
    ||| u == 0x1680
    ||| 0x2000 <= u <= 0x200A
    ||| u == 0x2028
    ||| u == 0x2029
    ||| u == 0x202F
    ||| u == 0x205F
    ||| u == 0x3000
}

/// Index of the first character at or after `i` that is not whitespace.
pub open spec fn trim_start_from(s: Seq<char>, i: int) -> int
    decreases s.len() - i,
{
    if 0 <= i < s.len() && is_unicode_whitespace(s[i]) {
        trim_start_from(s, i + 1)
    } else {
        i
    }
}

/// End (exclusive) of `s` once trailing whitespace after `lo` is dropped.
pub open spec fn trim_end_to(s: Seq<char>, lo: int, j: int) -> int
    decreases j - lo,
{
    if lo < j && j <= s.len() && is_unicode_whitespace(s[j - 1]) {
        trim_end_to(s, lo, j - 1)
    } else {
        j
    }
}

/// `s` without leading and trailing whitespace.
pub open spec fn trim(s: Seq<char>) -> Seq<char> {
    let a = trim_start_from(s, 0);
    s.subrange(a, trim_end_to(s, a, s.len() as int))
}


/// Left-to-right scan: ASCII alphanumerics are kept, every run of other
/// characters after the first kept one becomes a single `_`.
/// The flag says whether the last character emitted is such a separator.
pub open spec fn slug_scan(s: Seq<char>) -> (Seq<char>, bool)
    decreases s.len(),
{
    if s.len() == 0 {
        (seq![], false)
    } else {
        let (out, sep) = slug_scan(s.drop_last());
        let ch = s.last();
        if is_ascii_alnum(ch) {
            (out.push(ch), false)
        } else if !sep && out.len() > 0 {
            (out.push('_'), true)
        } else {
            (out, sep)
        }
    }
}

/// `s` without its trailing underscores.
pub open spec fn strip_trailing_underscores(s: Seq<char>) -> Seq<char>
    decreases s.len(),
{
    if s.len() > 0 && s.last() == '_' {
        strip_trailing_underscores(s.drop_last())
    } else {
        s
    }
}

/// The slug of text that is already lowercased.
pub open spec fn slug_of_lowered(s: Seq<char>) -> Seq<char> {
    let t = strip_trailing_underscores(slug_scan(s).0);
    if t.len() == 0 {
        "artifact"@
    } else {
        t
    }
}

/// The slug of arbitrary text: trimmed, lowercased character by character, scanned.
pub open spec fn slug_of(s: Seq<char>) -> Seq<char> {
    slug_of_lowered(lower_each(trim(s)))
}

/// A well-formed slug: non-empty, made of ASCII alphanumerics and single
/// underscores that neither start nor end it.
pub open spec fn is_slug(s: Seq<char>) -> bool {
    &&& s.len() > 0
    &&& forall|i: int| 0 <= i < s.len() ==> is_ascii_alnum(#[trigger] s[i]) || s[i] == '_'
    &&& s[0] != '_'
    &&& s.last() != '_'
    &&& forall|i: int| 0 <= i < s.len() - 1 ==> !(#[trigger] s[i] == '_' && s[i + 1] == '_')
}

/// A slug without ASCII uppercase letters.
pub open spec fn is_lower_slug(s: Seq<char>) -> bool {
    &&& is_slug(s)
    &&& forall|i: int| 0 <= i < s.len() ==> !is_ascii_upper(#[trigger] s[i])
}

/// Whether `c` is Unicode whitespace.
pub fn is_whitespace(c: char) -> (b: bool)
    ensures
        b == is_unicode_whitespace(c),
{
    let u = c as u32;
    (9 <= u && u <= 13) || u == 32 || u == 0x85 || u == 0xA0 || u == 0x1680 || (0x2000 <= u
        && u <= 0x200A) || u == 0x2028 || u == 0x2029 || u == 0x202F || u == 0x205F || u
        == 0x3000
}

/// Whether `c` is an ASCII letter or digit.
pub fn is_ascii_alphanumeric(c: char) -> (b: bool)
    ensures
        b == is_ascii_alnum(c),
{
    let u = c as u32;
    (65 <= u && u <= 90) || (97 <= u && u <= 122) || (48 <= u && u <= 57)
}

proof fn lemma_scan_shape(s: Seq<char>)
    ensures
        ({
            let (o, sep) = slug_scan(s);
            &&& forall|i: int| 0 <= i < o.len() ==> is_ascii_alnum(#[trigger] o[i]) || o[i] == '_'
            &&& o.len() > 0 ==> o[0] != '_'
            &&& forall|i: int| 0 <= i < o.len() - 1 ==> !(#[trigger] o[i] == '_' && o[i + 1] == '_')
            &&& sep <==> (o.len() > 0 && o.last() == '_')
        }),
    decreases s.len(),
{
    if s.len() > 0 {
        lemma_scan_shape(s.drop_last());
    }
}

proof fn lemma_strip_prefix(s: Seq<char>)
    ensures
        strip_trailing_underscores(s).len() <= s.len(),
        strip_trailing_underscores(s) == s.take(strip_trailing_underscores(s).len() as int),
        strip_trailing_underscores(s).len() > 0 ==> strip_trailing_underscores(s).last() != '_',
    decreases s.len(),
{
    if s.len() > 0 && s.last() == '_' {
        lemma_strip_prefix(s.drop_last());
        let t = strip_trailing_underscores(s.drop_last());
        assert(s.drop_last().take(t.len() as int) == s.take(t.len() as int));
    } else {
        assert(s.take(s.len() as int) == s);
    }
}

/// A prefix of a lowercase slug is reproduced by the scan.
proof fn lemma_scan_keeps_lower_slug_prefix(s: Seq<char>)
    requires
        forall|i: int| 0 <= i < s.len() ==> (is_ascii_alnum(#[trigger] s[i]) || s[i] == '_'),
        s.len() > 0 ==> s[0] != '_',
        forall|i: int| 0 <= i < s.len() - 1 ==> !(#[trigger] s[i] == '_' && s[i + 1] == '_'),
    ensures
        slug_scan(s) == (s, s.len() > 0 && s.last() == '_'),
    decreases s.len(),
{
    if s.len() > 0 {
        let p = s.drop_last();
        assert forall|i: int| 0 <= i < p.len() - 1 implies !(#[trigger] p[i] == '_' && p[i + 1] == '_') by {
            assert(p[i] == s[i] && p[i + 1] == s[i + 1]);
        }
        lemma_scan_keeps_lower_slug_prefix(p);
        if s.len() > 1 {
            assert(!(s[s.len() - 2] == '_' && s[s.len() - 1] == '_'));
        }
        assert(p.push(s.last()) == s);
    }
}

/// Every slug is well formed: non-empty, ASCII alphanumerics and single inner underscores.
pub proof fn slug_is_well_formed(s: Seq<char>)
    ensures
        is_slug(slug_of_lowered(s)),
        is_slug(slug_of(s)),
{
    assert forall|x: Seq<char>| #[trigger] is_slug(slug_of_lowered(x)) by {
        let scanned = slug_scan(x).0;
        lemma_scan_shape(x);
        lemma_strip_prefix(scanned);
        let t = strip_trailing_underscores(scanned);
        if t.len() == 0 {
            reveal_strlit("artifact");
        } else {
            assert forall|i: int| 0 <= i < t.len() implies is_ascii_alnum(#[trigger] t[i]) || t[i] == '_' by {
                assert(t[i] == scanned[i]);
            }
            assert forall|i: int| 0 <= i < t.len() - 1 implies !(#[trigger] t[i] == '_' && t[i + 1] == '_') by {
                assert(t[i] == scanned[i] && t[i + 1] == scanned[i + 1]);
            }
            assert(t[0] == scanned[0]);
        }
    }
    assert(is_slug(slug_of_lowered(lower_each(trim(s)))));
}

/// The slug of characters that are already lowercased.
pub fn slugify_lowered(lowered: &Vec<char>) -> (r: String)
    ensures
        r@ == slug_of_lowered(lowered@),
        is_slug(r@),
{
    let mut out: Vec<char> = Vec::new();
    let mut last_was_sep = false;
    let mut i: usize = 0;
    while i < lowered.len()
        invariant
            i <= lowered.len(),
            (out@, last_was_sep) == slug_scan(lowered@.take(i as int)),
        decreases lowered.len() - i,
    {
        let ch = lowered[i];
        assert(lowered@.take(i + 1).drop_last() == lowered@.take(i as int));
        if is_ascii_alphanumeric(ch) {
            out.push(ch);
            last_was_sep = false;
        } else if !last_was_sep && out.len() > 0 {
            out.push('_');
            last_was_sep = true;
        }
        i = i + 1;
    }
    assert(lowered@.take(lowered.len() as int) == lowered@);
    let ghost scanned = out@;
    while out.len() > 0 && out[out.len() - 1] == '_'
        invariant
            strip_trailing_underscores(out@) == strip_trailing_underscores(scanned),
        decreases out.len(),
    {
        let ghost before = out@;
        out.pop();
        assert(out@ == before.drop_last());
    }
    proof {
        slug_is_well_formed(lowered@);
    }
    if out.len() == 0 {
        let r = "artifact".to_owned();
        proof {
            reveal_strlit("artifact");
        }
        r
    } else {
        string_from_chars(&out)
    }
}

/// The identifier slug of `value`: surrounding whitespace dropped, each character
/// lowercased, ASCII alphanumerics kept and every other run turned into one `_`,
/// trailing underscores dropped, and `artifact` where nothing is left.
/// The slug is lowercase and is its own slug, so slugifying twice changes nothing.
pub fn slugify(value: &str) -> (r: String)
    ensures
        r@ == slug_of(value@),
        is_lower_slug(r@),
        slug_of(r@) == r@,
        is_lower_slug(value@) ==> r@ == value@,
{
    let chars = chars_of(value);
    let n = chars.len();
    let mut start: usize = 0;
    while start < n && is_whitespace(chars[start])
        invariant
            start <= n,
            n == chars@.len(),
            trim_start_from(chars@, 0) == trim_start_from(chars@, start as int),
        decreases n - start,
    {
        start = start + 1;
    }
    let mut end: usize = n;
    while end > start && is_whitespace(chars[end - 1])
        invariant
            start <= end <= n,
            n == chars@.len(),
            trim_end_to(chars@, start as int, n as int) == trim_end_to(chars@, start as int, end as int),
        decreases end,
    {
        end = end - 1;
    }
    let mut lowered: Vec<char> = Vec::new();
    let mut i: usize = start;
    while i < end
        invariant
            start <= i <= end <= n,
            n == chars@.len(),
            chars@ == value@,
            lowered@ == lower_each(chars@.subrange(start as int, i as int)),
            has_no_ascii_upper(lowered@),
        decreases end - i,
    {
        let c = chars[i];
        let mut l = lowercase_char(c);
        assert(chars@.subrange(start as int, i + 1).drop_last() == chars@.subrange(start as int, i as int));
        let ghost before = lowered@;
        let ghost added = l@;
        lowered.append(&mut l);
        assert forall|k: int| 0 <= k < lowered@.len() implies !is_ascii_upper(#[trigger] lowered@[k]) by {
            if k >= before.len() {
                assert(lowered@[k] == added[k - before.len()]);
            }
        }
        i = i + 1;
    }
    let r = slugify_lowered(&lowered);
    proof {
        lemma_lower_slug_of_lowered(lowered@);
        lower_slugs_are_fixed_points(r@);
        if is_lower_slug(value@) {
            lower_slugs_are_fixed_points(value@);
        }
    }
    r
}

proof fn lemma_scan_no_upper(s: Seq<char>)
    requires
        has_no_ascii_upper(s),
    ensures
        has_no_ascii_upper(slug_scan(s).0),
    decreases s.len(),
{
    if s.len() > 0 {
        lemma_scan_no_upper(s.drop_last());
        assert(!is_ascii_upper(s[s.len() - 1]));
    }
}

/// Text with no ASCII uppercase letter has a lowercase slug.
proof fn lemma_lower_slug_of_lowered(s: Seq<char>)
    requires
        has_no_ascii_upper(s),
    ensures
        is_lower_slug(slug_of_lowered(s)),
{
    slug_is_well_formed(s);
    lemma_scan_no_upper(s);
    let scanned = slug_scan(s).0;
    lemma_strip_prefix(scanned);
    let t = strip_trailing_underscores(scanned);
    if t.len() == 0 {
        reveal_strlit("artifact");
    } else {
        assert forall|i: int| 0 <= i < t.len() implies !is_ascii_upper(#[trigger] t[i]) by {
            assert(t[i] == scanned[i]);
        }
    }
}

proof fn lemma_lower_each_of_ascii_lower(s: Seq<char>)
    requires
        forall|i: int| 0 <= i < s.len() ==> is_ascii_char(#[trigger] s[i]) && !is_ascii_upper(s[i]),
    ensures
        lower_each(s) == s,
    decreases s.len(),
{
    if s.len() > 0 {
        let p = s.drop_last();
        assert forall|i: int| 0 <= i < p.len() implies is_ascii_char(#[trigger] p[i]) && !is_ascii_upper(p[i]) by {
            assert(p[i] == s[i]);
        }
        lemma_lower_each_of_ascii_lower(p);
        assert(is_ascii_char(s[s.len() - 1]) && !is_ascii_upper(s[s.len() - 1]));
        assert(p.push(s.last()) == s);
    }
}

/// A lowercase slug is its own slug.
pub proof fn lower_slugs_are_fixed_points(s: Seq<char>)
    requires
        is_lower_slug(s),
    ensures
        slug_of(s) == s,
{
    let n = s.len() as int;
    assert(is_ascii_alnum(s[0]) || s[0] == '_');
    assert(is_ascii_alnum(s[n - 1]) || s[n - 1] == '_');
    assert(trim_start_from(s, 0) == 0);
    assert(trim_end_to(s, 0, n) == n);
    assert(trim(s) == s.subrange(0, n));
    assert(s.subrange(0, n) == s);
    assert forall|i: int| 0 <= i < s.len() implies is_ascii_char(#[trigger] s[i]) && !is_ascii_upper(s[i]) by {
        assert(is_ascii_alnum(s[i]) || s[i] == '_');
    }
    lemma_lower_each_of_ascii_lower(s);
    lemma_scan_keeps_lower_slug_prefix(s);
}

/// Two characters with the same ASCII-folded form have the same lowercase
/// mapping and are both whitespace or both not.
proof fn lemma_fold_equal_chars(c: char, d: char)
    requires
        ascii_to_lower(c) == ascii_to_lower(d),
    ensures
        lower_mapping(c) == lower_mapping(d),
        is_unicode_whitespace(c) == is_unicode_whitespace(d),
{
    lemma_fold_equal_lower(c, d);
    if is_ascii_upper(c) {
        assert((ascii_to_lower(c) as u32) == (c as u32) + 32);
    }
    if is_ascii_upper(d) {
        assert((ascii_to_lower(d) as u32) == (d as u32) + 32);
    }
}

proof fn lemma_trim_bounds(s: Seq<char>, i: int, lo: int, j: int)
    requires
        0 <= i <= s.len(),
        0 <= lo <= j <= s.len(),
    ensures
        i <= trim_start_from(s, i) <= s.len(),
        lo <= trim_end_to(s, lo, j) <= j,
    decreases s.len() - i + j - lo,
{
    if 0 <= i < s.len() && is_unicode_whitespace(s[i]) {
        lemma_trim_bounds(s, i + 1, lo, j);
    }
    if lo < j && is_unicode_whitespace(s[j - 1]) {
        lemma_trim_bounds(s, i, lo, j - 1);
    }
}

proof fn lemma_trim_start_fold(s: Seq<char>, t: Seq<char>, i: int)
    requires
        ascii_fold(s) == ascii_fold(t),
    ensures
        trim_start_from(s, i) == trim_start_from(t, i),
    decreases s.len() - i,
{
    assert(s.len() == ascii_fold(s).len() && t.len() == ascii_fold(t).len());
    if 0 <= i < s.len() {
        assert(ascii_fold(s)[i] == ascii_fold(t)[i]);
        assert(ascii_fold(s)[i] == ascii_to_lower(s[i]));
        assert(ascii_fold(t)[i] == ascii_to_lower(t[i]));
        lemma_fold_equal_chars(s[i], t[i]);
        lemma_trim_start_fold(s, t, i + 1);
    }
}

proof fn lemma_trim_end_fold(s: Seq<char>, t: Seq<char>, lo: int, j: int)
    requires
        ascii_fold(s) == ascii_fold(t),
        0 <= lo,
    ensures
        trim_end_to(s, lo, j) == trim_end_to(t, lo, j),
    decreases j - lo,
{
    assert(s.len() == ascii_fold(s).len() && t.len() == ascii_fold(t).len());
    if lo < j && j <= s.len() {
        assert(ascii_fold(s)[j - 1] == ascii_fold(t)[j - 1]);
        assert(ascii_fold(s)[j - 1] == ascii_to_lower(s[j - 1]));
        assert(ascii_fold(t)[j - 1] == ascii_to_lower(t[j - 1]));
        lemma_fold_equal_chars(s[j - 1], t[j - 1]);
        lemma_trim_end_fold(s, t, lo, j - 1);
    }
}


/// Texts that differ only in the case of ASCII letters have the same slug.
pub proof fn slug_ignores_ascii_case(s: Seq<char>, t: Seq<char>)
    requires
        ascii_fold(s) == ascii_fold(t),
    ensures
        slug_of(s) == slug_of(t),
{
    assert(s.len() == ascii_fold(s).len() && t.len() == ascii_fold(t).len());
    lemma_trim_start_fold(s, t, 0);
    let a = trim_start_from(s, 0);
    lemma_trim_bounds(s, 0, 0, s.len() as int);
    lemma_trim_end_fold(s, t, a, s.len() as int);
    lemma_trim_bounds(s, 0, a, s.len() as int);
    let b = trim_end_to(s, a, s.len() as int);
    assert(ascii_fold(trim(s)) == ascii_fold(trim(t))) by {
        assert forall|k: int| 0 <= k < trim(s).len() implies #[trigger] ascii_fold(trim(s))[k] == ascii_fold(trim(t))[k] by {
            assert(trim(s)[k] == s[a + k]);
            assert(trim(t)[k] == t[a + k]);
            assert(ascii_fold(s)[a + k] == ascii_fold(t)[a + k]);
            assert(ascii_fold(s)[a + k] == ascii_to_lower(s[a + k]));
            assert(ascii_fold(t)[a + k] == ascii_to_lower(t[a + k]));
        }
    }
    lemma_lower_each_fold(trim(s), trim(t));
}

/// The non-empty pieces of `s` between underscores, in order.
pub open spec fn underscore_words(s: Seq<char>) -> Seq<Seq<char>>
    decreases s.len(),
{
    if s.len() == 0 {
        seq![]
    } else {
        let w = underscore_words(s.drop_last());
        let c = s.last();
        if c == '_' {
            w
        } else if s.len() >= 2 && s[s.len() - 2] != '_' {
            w.update(w.len() - 1, w.last().push(c))
        } else {
            w.push(seq![c])
        }
    }
}

/// A word with its first character uppercased.
pub open spec fn capitalize(w: Seq<char>) -> Seq<char> {
    upper_mapping(w[0]) + w.skip(1)
}

/// The display title of an identifier: its underscore-separated words,
/// each with an uppercased first character, joined by spaces.
pub open spec fn title_of(s: Seq<char>) -> Seq<char> {
    join_with(underscore_words(s).map_values(|w: Seq<char>| capitalize(w)), seq![' '])
}

proof fn lemma_words_nonempty(s: Seq<char>)
    ensures
        forall|k: int| 0 <= k < underscore_words(s).len() ==> #[trigger] underscore_words(s)[k].len() > 0,
        (s.len() > 0 && s.last() != '_') ==> underscore_words(s).len() > 0,
    decreases s.len(),
{
    if s.len() > 0 {
        let p = s.drop_last();
        lemma_words_nonempty(p);
        let w = underscore_words(p);
        if s.last() != '_' && s.len() >= 2 && s[s.len() - 2] != '_' {
            assert(p.last() == s[s.len() - 2]);
            assert(w.len() > 0);
            let u = w.update(w.len() - 1, w.last().push(s.last()));
            assert forall|k: int| 0 <= k < u.len() implies #[trigger] u[k].len() > 0 by {
                if k != w.len() - 1 {
                    assert(u[k] == w[k]);
                }
            }
        }
    }
}

/// Splits `value` into its non-empty underscore-separated words.
fn split_words(value: &str) -> (words: Vec<Vec<char>>)
    ensures
        words@.len() == underscore_words(value@).len(),
        forall|k: int| 0 <= k < words@.len() ==> #[trigger] words@[k]@ == underscore_words(value@)[k],
{
    let chars = chars_of(value);
    let n = chars.len();
    let mut words: Vec<Vec<char>> = Vec::new();
    let mut cur: Vec<char> = Vec::new();
    let mut i: usize = 0;
    while i < n
        invariant
            i <= n,
            n == chars@.len(),
            chars@ == value@,
            underscore_words(chars@.take(i as int)) == words@.map_values(|v: Vec<char>| v@) + (if cur@.len() > 0 {
                seq![cur@]
            } else {
                seq![]
            }),
            cur@.len() > 0 <==> (i > 0 && chars@[i - 1] != '_'),
        decreases n - i,
    {
        let c = chars[i];
        let ghost s = chars@.take(i + 1);
        let ghost committed = words@.map_values(|v: Vec<char>| v@);
        assert(s.drop_last() == chars@.take(i as int));
        if c == '_' {
            if cur.len() > 0 {
                let ghost old_cur = cur@;
                words.push(cur);
                cur = Vec::new();
                assert(words@.map_values(|v: Vec<char>| v@) == committed.push(old_cur));
            }
        } else if i >= 1 && chars[i - 1] != '_' {
            let ghost old_cur = cur@;
            cur.push(c);
            assert(s[s.len() - 2] == chars@[i - 1]);
            assert((committed + seq![old_cur]).update(committed.len() as int, old_cur.push(c))
                == committed + seq![cur@]);
        } else {
            assert(cur@ == Seq::<char>::empty());
            assert(committed + seq![] == committed);
            cur.push(c);
            assert(cur@ == seq![c]);
            assert(committed.push(seq![c]) == committed + seq![cur@]);
        }
        i = i + 1;
    }
    assert(chars@.take(n as int) == chars@);
    if cur.len() > 0 {
        let ghost committed = words@.map_values(|v: Vec<char>| v@);
        let ghost old_cur = cur@;
        words.push(cur);
        assert(words@.map_values(|v: Vec<char>| v@) == committed + seq![old_cur]);
    } else {
        assert(words@.map_values(|v: Vec<char>| v@) + seq![] == words@.map_values(|v: Vec<char>| v@));
    }
    let ghost w = words@.map_values(|v: Vec<char>| v@);
    assert forall|k: int| 0 <= k < words@.len() implies #[trigger] words@[k]@ == underscore_words(value@)[k] by {
        assert(w[k] == words@[k]@);
    }
    words
}

/// The display title of an identifier: `stale_prs` becomes `Stale Prs`.
pub fn titleize(value: &str) -> (r: String)
    ensures
        r@ == title_of(value@),
{
    let words = split_words(value);
    proof {
        lemma_words_nonempty(value@);
    }
    let mut firsts: Vec<Vec<char>> = Vec::new();
    let mut k: usize = 0;
    while k < words.len()
        invariant
            k <= words@.len(),
            words@.len() == underscore_words(value@).len(),
            forall|j: int| 0 <= j < words@.len() ==> #[trigger] words@[j]@ == underscore_words(value@)[j],
            forall|j: int| 0 <= j < underscore_words(value@).len() ==> #[trigger] underscore_words(value@)[j].len() > 0,
            firsts@.len() == k,
            forall|j: int| 0 <= j < k ==> #[trigger] firsts@[j]@ == upper_mapping(words@[j]@[0]),
        decreases words@.len() - k,
    {
        assert(words@[k as int]@ == underscore_words(value@)[k as int]);
        firsts.push(uppercase_char(words[k][0]));
        k = k + 1;
    }
    let r = title_from_parts(&words, &firsts);
    let ghost parts = Seq::new(words@.len(), |i: int| with_first(firsts@[i]@, words@[i]@));
    let ghost caps = underscore_words(value@).map_values(|w: Seq<char>| capitalize(w));
    assert(parts == caps) by {
        assert forall|i: int| 0 <= i < parts.len() implies #[trigger] parts[i] == caps[i] by {
            assert(words@[i]@ == underscore_words(value@)[i]);
            assert(words@[i]@.len() > 0);
        }
    }
    r
}

/// `first` followed by all but the first character of `word`.
pub open spec fn with_first(first: Seq<char>, word: Seq<char>) -> Seq<char> {
    if word.len() == 0 {
        first
    } else {
        first + word.skip(1)
    }
}

/// The words joined by single spaces, the first character of `words[i]`
/// replaced by `firsts[i]`.
pub fn title_from_parts(words: &Vec<Vec<char>>, firsts: &Vec<Vec<char>>) -> (r: String)
    requires
        words@.len() == firsts@.len(),
    ensures
        r@ == join_with(Seq::new(words@.len(), |i: int| with_first(firsts@[i]@, words@[i]@)), seq![' ']),
{
    let ghost parts = Seq::new(words@.len(), |i: int| with_first(firsts@[i]@, words@[i]@));
    let mut out: Vec<char> = Vec::new();
    let mut k: usize = 0;
    while k < words.len()
        invariant
            k <= words@.len(),
            words@.len() == firsts@.len(),
            parts == Seq::new(words@.len(), |i: int| with_first(firsts@[i]@, words@[i]@)),
            out@ == join_with(parts.take(k as int), seq![' ']),
        decreases words@.len() - k,
    {
        let ghost before = out@;
        let word = &words[k];
        let first = &firsts[k];
        if k > 0 {
            out.push(' ');
        }
        let ghost with_sep = out@;
        let mut i: usize = 0;
        while i < first.len()
            invariant
                i <= first@.len(),
                out@ == with_sep + first@.take(i as int),
            decreases first@.len() - i,
        {
            out.push(first[i]);
            assert(first@.take(i + 1) == first@.take(i as int).push(first@[i as int]));
            i = i + 1;
        }
        assert(first@.take(first@.len() as int) == first@);
        let mut j: usize = 1;
        while j < word.len()
            invariant
                1 <= j,
                j <= word@.len() || word@.len() == 0,
                word@.len() > 0 ==> out@ == with_sep + first@ + word@.subrange(1, j as int),
                word@.len() == 0 ==> out@ == with_sep + first@,
            decreases word@.len() - j,
        {
            out.push(word[j]);
            assert(word@.subrange(1, j + 1) == word@.subrange(1, j as int).push(word@[j as int]));
            j = j + 1;
        }
        if word.len() > 0 {
            assert(word@.subrange(1, word@.len() as int) == word@.skip(1));
        }
        assert(parts[k as int] == with_first(first@, word@));
        assert(parts.take(k + 1).drop_last() == parts.take(k as int));
        if k > 0 {
            assert(out@ == before + seq![' '] + parts[k as int]);
        } else {
            assert(before == Seq::<char>::empty());
            assert(out@ == parts[k as int]);
        }
        k = k + 1;
    }
    assert(parts.take(words@.len() as int) == parts);
    string_from_chars(&out)
}

/// A character of a lowercase slug other than `_`.
pub open spec fn is_slug_letter(c: char) -> bool {
    is_ascii_alnum(c) && !is_ascii_upper(c)
}

/// The map that turns a title back into a slug: spaces to `_`, ASCII lowercase.
pub open spec fn untitle_char(c: char) -> char {
    ascii_to_lower(if c == ' ' { '_' } else { c })
}

proof fn lemma_words_letters(p: Seq<char>)
    requires
        forall|i: int| 0 <= i < p.len() ==> is_slug_letter(#[trigger] p[i]) || p[i] == '_',
    ensures
        forall|k: int, j: int|
            0 <= k < underscore_words(p).len() && 0 <= j < underscore_words(p)[k].len()
                ==> is_slug_letter(#[trigger] underscore_words(p)[k][j]),
    decreases p.len(),
{
    if p.len() > 0 {
        let q = p.drop_last();
        assert forall|i: int| 0 <= i < q.len() implies is_slug_letter(#[trigger] q[i]) || q[i] == '_' by {
            assert(q[i] == p[i]);
        }
        lemma_words_letters(q);
        lemma_words_nonempty(p);
        lemma_words_nonempty(q);
        let w = underscore_words(q);
        let c = p.last();
        assert(is_slug_letter(c) || c == '_');
        if c != '_' {
            if p.len() >= 2 && p[p.len() - 2] != '_' {
                assert(q.last() == p[p.len() - 2]);
                let u = w.update(w.len() - 1, w.last().push(c));
                assert forall|k: int, j: int| 0 <= k < u.len() && 0 <= j < u[k].len() implies is_slug_letter(#[trigger] u[k][j]) by {
                    if k == w.len() - 1 {
                        if j < w.last().len() {
                            assert(u[k][j] == w[k][j]);
                        }
                    } else {
                        assert(u[k] == w[k]);
                    }
                }
            } else {
                let u = w.push(seq![c]);
                assert forall|k: int, j: int| 0 <= k < u.len() && 0 <= j < u[k].len() implies is_slug_letter(#[trigger] u[k][j]) by {
                    if k < w.len() {
                        assert(u[k] == w[k]);
                    }
                }
            }
        }
    }
}

proof fn lemma_join_extend_last(ws: Seq<Seq<char>>, sep: Seq<char>, c: char)
    requires
        ws.len() > 0,
    ensures
        join_with(ws.update(ws.len() - 1, ws.last().push(c)), sep) == join_with(ws, sep).push(c),
{
    let u = ws.update(ws.len() - 1, ws.last().push(c));
    if ws.len() > 1 {
        assert(u.drop_last() == ws.drop_last());
    }
}

/// Joining the words of a prefix of a slug with `_` gives the prefix back,
/// less a trailing `_`.
proof fn lemma_join_words(p: Seq<char>)
    requires
        p.len() > 0 ==> p[0] != '_',
        forall|i: int| 0 <= i < p.len() - 1 ==> !(#[trigger] p[i] == '_' && p[i + 1] == '_'),
    ensures
        join_with(underscore_words(p), seq!['_']) == (if p.len() > 0 && p.last() == '_' {
            p.drop_last()
        } else {
            p
        }),
    decreases p.len(),
{
    if p.len() > 0 {
        let q = p.drop_last();
        assert forall|i: int| 0 <= i < q.len() - 1 implies !(#[trigger] q[i] == '_' && q[i + 1] == '_') by {
            assert(q[i] == p[i] && q[i + 1] == p[i + 1]);
        }
        lemma_join_words(q);
        lemma_words_nonempty(q);
        let w = underscore_words(q);
        let c = p.last();
        if c == '_' {
            assert(q.len() > 0);
            assert(q.last() != '_') by {
                if q.len() >= 1 {
                    assert(!(p[p.len() - 2] == '_' && p[p.len() - 1] == '_'));
                }
            }
        } else if p.len() >= 2 && p[p.len() - 2] != '_' {
            assert(q.last() == p[p.len() - 2]);
            lemma_join_extend_last(w, seq!['_'], c);
            assert(q.push(c) == p);
        } else {
            let u = w.push(seq![c]);
            if q.len() == 0 {
                assert(w.len() == 0);
                assert(u == seq![seq![c]]);
                assert(p == seq![c]);
            } else {
                assert(q.last() == '_');
                let r = q.drop_last();
                assert(r.len() > 0 && r.last() != '_') by {
                    assert(r.len() > 0);
                    if q.len() >= 2 {
                        assert(!(q[q.len() - 2] == '_' && q[q.len() - 1] == '_'));
                        assert(!(p[q.len() - 2] == '_' && p[q.len() - 1] == '_'));
                    }
                }
                lemma_words_nonempty(r);
                assert(w == underscore_words(r));
                assert(u.drop_last() == w);
                assert(join_with(u, seq!['_']) == r + seq!['_'] + seq![c]);
                assert(r + seq!['_'] + seq![c] == p);
            }
        }
    }
}

proof fn lemma_join_map(ws: Seq<Seq<char>>, sep: Seq<char>)
    ensures
        join_with(ws, sep).map_values(|c: char| untitle_char(c)) == join_with(
            ws.map_values(|w: Seq<char>| w.map_values(|c: char| untitle_char(c))),
            sep.map_values(|c: char| untitle_char(c)),
        ),
    decreases ws.len(),
{
    let f = |c: char| untitle_char(c);
    let g = |w: Seq<char>| w.map_values(f);
    if ws.len() > 1 {
        lemma_join_map(ws.drop_last(), sep);
        assert(ws.map_values(g).drop_last() == ws.drop_last().map_values(g));
        let a = join_with(ws.drop_last(), sep);
        assert((a + sep + ws.last()).map_values(f) == a.map_values(f) + sep.map_values(f) + ws.last().map_values(f));
    } else if ws.len() == 1 {
        assert(ws.map_values(g)[0] == ws[0].map_values(f));
    } else {
        assert(join_with(ws, sep).map_values(f) == Seq::<char>::empty());
    }
}

proof fn lemma_capitalize_untitles(w: Seq<char>)
    requires
        w.len() > 0,
        forall|j: int| 0 <= j < w.len() ==> is_slug_letter(#[trigger] w[j]),
    ensures
        capitalize(w).map_values(|c: char| untitle_char(c)) == w,
{
    let c = w[0];
    assert(is_slug_letter(c));
    let u = ascii_to_upper(c);
    if 97 <= (c as u32) <= 122 {
        assert((u as u32) == (c as u32) - 32);
        assert(u != ' ');
        assert((u as u32) + 32 == (c as u32));
        assert(ascii_to_lower(u) == (((u as u32) + 32) as char));
        vstd::utf8::char_u32_cast(c, c as u32);
        assert(((c as u32) as char) == c);
        assert(ascii_to_lower(u) == c);
    } else {
        assert(u == c);
        assert(c != ' ');
    }
    assert(untitle_char(u) == c);
    let m = capitalize(w).map_values(|c: char| untitle_char(c));
    assert forall|j: int| 0 <= j < w.len() implies #[trigger] m[j] == w[j] by {
        if j > 0 {
            assert(capitalize(w)[j] == w[j]);
            assert(is_slug_letter(w[j]));
        }
    }
    assert(m == w);
}

/// The title of a lowercase slug, with spaces turned back into `_` and ASCII
/// letters lowercased, is the slug again.
pub proof fn title_folds_back_to_slug(s: Seq<char>)
    requires
        is_lower_slug(s),
    ensures
        ascii_fold(replace_char(title_of(s), ' ', '_')) == s,
{
    let f = |c: char| untitle_char(c);
    let words = underscore_words(s);
    let caps = words.map_values(|w: Seq<char>| capitalize(w));
    assert(ascii_fold(replace_char(title_of(s), ' ', '_')) == title_of(s).map_values(f));
    lemma_join_map(caps, seq![' ']);
    assert(seq![' '].map_values(f) == seq!['_']);
    assert forall|i: int| 0 <= i < s.len() implies is_slug_letter(#[trigger] s[i]) || s[i] == '_' by {
        assert(is_ascii_alnum(s[i]) || s[i] == '_');
    }
    lemma_words_letters(s);
    lemma_words_nonempty(s);
    let back = caps.map_values(|w: Seq<char>| w.map_values(f));
    assert forall|k: int| 0 <= k < back.len() implies #[trigger] back[k] == words[k] by {
        assert forall|j: int| 0 <= j < words[k].len() implies is_slug_letter(#[trigger] words[k][j]) by {}
        lemma_capitalize_untitles(words[k]);
    }
    assert(back == words);
    lemma_join_words(s);
}

proof fn lemma_scan_separator_run(a: Seq<char>, r: Seq<char>, k: int)
    requires
        is_lower_slug(a),
        1 <= k <= r.len(),
        forall|i: int| 0 <= i < r.len() ==> !is_ascii_alnum(#[trigger] r[i]),
    ensures
        slug_scan(a + r.take(k)) == (a.push('_'), true),
    decreases k,
{
    let x = a + r.take(k);
    assert(x.drop_last() == a + r.take(k - 1));
    assert(x.last() == r[k - 1]);
    if k == 1 {
        assert(a + r.take(0) == a);
        lemma_scan_keeps_lower_slug_prefix(a);
    } else {
        lemma_scan_separator_run(a, r, k - 1);
    }
}

proof fn lemma_scan_after_run(a: Seq<char>, r: Seq<char>, b: Seq<char>, j: int)
    requires
        is_lower_slug(a),
        is_lower_slug(b),
        r.len() > 0,
        forall|i: int| 0 <= i < r.len() ==> !is_ascii_alnum(#[trigger] r[i]),
        0 <= j <= b.len(),
    ensures
        slug_scan(a + r + b.take(j)) == (a.push('_') + b.take(j), j == 0 || b[j - 1] == '_'),
    decreases j,
{
    if j == 0 {
        assert(a + r + b.take(0) == a + r.take(r.len() as int));
        lemma_scan_separator_run(a, r, r.len() as int);
        assert(a.push('_') + b.take(0) == a.push('_'));
    } else {
        lemma_scan_after_run(a, r, b, j - 1);
        let x = a + r + b.take(j);
        assert(x.drop_last() == a + r + b.take(j - 1));
        assert(x.last() == b[j - 1]);
        let c = b[j - 1];
        assert(is_ascii_alnum(c) || c == '_');
        assert(a.push('_') + b.take(j) == (a.push('_') + b.take(j - 1)).push(c));
        if c == '_' {
            assert(j - 1 != 0);
            assert(!(b[j - 2] == '_' && b[j - 1] == '_'));
        }
    }
}

/// Between two lowercase slugs, any non-empty run of characters that are not ASCII
/// letters or digits becomes exactly one `_`: nothing of it is dropped and nothing kept.
pub proof fn separator_runs_become_one_underscore(a: Seq<char>, r: Seq<char>, b: Seq<char>)
    requires
        is_lower_slug(a),
        is_lower_slug(b),
        r.len() > 0,
        forall|i: int| 0 <= i < r.len() ==> !is_ascii_alnum(#[trigger] r[i]),
    ensures
        slug_of_lowered(a + r + b) == a + seq!['_'] + b,
{
    lemma_scan_after_run(a, r, b, b.len() as int);
    assert(b.take(b.len() as int) == b);
    assert(a + r + b.take(b.len() as int) == a + r + b);
    let out = a.push('_') + b;
    assert(out.last() == b.last());
    assert(strip_trailing_underscores(out) == out);
    assert(out == a + seq!['_'] + b);
}

/// The same for text before lowercasing: two lowercase slugs joined by a non-empty
/// run of ASCII characters that are not letters or digits slugify to the two
/// slugs joined by a single `_`.
pub proof fn ascii_separator_runs_become_one_underscore(a: Seq<char>, r: Seq<char>, b: Seq<char>)
    requires
        is_lower_slug(a),
        is_lower_slug(b),
        r.len() > 0,
        forall|i: int| 0 <= i < r.len() ==> is_ascii_char(#[trigger] r[i]) && !is_ascii_alnum(r[i]),
    ensures
        slug_of(a + r + b) == a + seq!['_'] + b,
{
    let s = a + r + b;
    let n = s.len() as int;
    assert(s[0] == a[0]);
    assert(s[n - 1] == b[b.len() - 1]);
    assert(is_ascii_alnum(a[0]) || a[0] == '_');
    assert(is_ascii_alnum(b[b.len() - 1]) || b[b.len() - 1] == '_');
    assert(trim_start_from(s, 0) == 0);
    assert(trim_end_to(s, 0, n) == n);
    assert(trim(s) == s.subrange(0, n));
    assert(s.subrange(0, n) == s);
    assert forall|i: int| 0 <= i < s.len() implies is_ascii_char(#[trigger] s[i]) && !is_ascii_upper(s[i]) by {
        if i < a.len() {
            assert(s[i] == a[i]);
            assert(is_ascii_alnum(a[i]) || a[i] == '_');
        } else if i < a.len() + r.len() {
            assert(s[i] == r[i - a.len()]);
        } else {
            assert(s[i] == b[i - a.len() - r.len()]);
            assert(is_ascii_alnum(b[i - a.len() - r.len()]) || b[i - a.len() - r.len()] == '_');
        }
    }
    lemma_lower_each_of_ascii_lower(s);
    assert forall|i: int| 0 <= i < r.len() implies !is_ascii_alnum(#[trigger] r[i]) by {}
    separator_runs_become_one_underscore(a, r, b);
}

} // verus!
