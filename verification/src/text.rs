//! Character-sequence primitives shared by every parser and document builder of the
//! library: character classes, substring search, trimming, and decimal conversion.
//! All positions are character positions.
use vstd::prelude::*;

verus! {

// ---------------------------------------------------------------------------
// Character classes
// ---------------------------------------------------------------------------

pub open spec fn is_digit(c: char) -> bool {
    '0' <= c && c <= '9'
}

pub open spec fn is_upper(c: char) -> bool {
    'A' <= c && c <= 'Z'
}

pub open spec fn is_lower(c: char) -> bool {
    'a' <= c && c <= 'z'
}

pub open spec fn is_alnum(c: char) -> bool {
    is_digit(c) || is_upper(c) || is_lower(c)
}

pub open spec fn is_hex(c: char) -> bool {
    is_digit(c) || ('a' <= c && c <= 'f') || ('A' <= c && c <= 'F')
}

/// Unicode general category Cc.
pub open spec fn is_control(c: char) -> bool {
    ('\u{0}' <= c && c <= '\u{1f}') || ('\u{7f}' <= c && c <= '\u{9f}')
}

/// The Unicode `White_Space` property.
pub open spec fn is_ws(c: char) -> bool {
    c == ' ' || ('\t' <= c && c <= '\r') || c == '\u{85}' || c == '\u{a0}' || c == '\u{1680}'
        || ('\u{2000}' <= c && c <= '\u{200a}') || c == '\u{2028}' || c == '\u{2029}' || c
        == '\u{202f}' || c == '\u{205f}' || c == '\u{3000}'
}

pub open spec fn lower_char(c: char) -> char {
    if is_upper(c) {
        ((c as u32) + 32) as char
    } else {
        c
    }
}

pub open spec fn upper_char(c: char) -> char {
    if is_lower(c) {
        ((c as u32) - 32) as char
    } else {
        c
    }
}

pub open spec fn lower(s: Seq<char>) -> Seq<char> {
    s.map_values(|c: char| lower_char(c))
}

pub open spec fn upper(s: Seq<char>) -> Seq<char> {
    s.map_values(|c: char| upper_char(c))
}

pub open spec fn all_chars(s: Seq<char>, p: spec_fn(char) -> bool) -> bool {
    forall|i: int| 0 <= i < s.len() ==> #[trigger] p(s[i])
}

pub fn char_is_digit(c: char) -> (r: bool)
    ensures
        r == is_digit(c),
{
    '0' <= c && c <= '9'
}

pub fn char_is_alnum(c: char) -> (r: bool)
    ensures
        r == is_alnum(c),
{
    ('0' <= c && c <= '9') || ('A' <= c && c <= 'Z') || ('a' <= c && c <= 'z')
}

pub fn char_is_hex(c: char) -> (r: bool)
    ensures
        r == is_hex(c),
{
    ('0' <= c && c <= '9') || ('a' <= c && c <= 'f') || ('A' <= c && c <= 'F')
}

pub fn char_is_control(c: char) -> (r: bool)
    ensures
        r == is_control(c),
{
    ('\u{0}' <= c && c <= '\u{1f}') || ('\u{7f}' <= c && c <= '\u{9f}')
}

pub fn char_is_ws(c: char) -> (r: bool)
    ensures
        r == is_ws(c),
{
    c == ' ' || ('\t' <= c && c <= '\r') || c == '\u{85}' || c == '\u{a0}' || c == '\u{1680}'
        || ('\u{2000}' <= c && c <= '\u{200a}') || c == '\u{2028}' || c == '\u{2029}' || c
        == '\u{202f}' || c == '\u{205f}' || c == '\u{3000}'
}

pub fn char_lower(c: char) -> (r: char)
    ensures
        r == lower_char(c),
{
    if 'A' <= c && c <= 'Z' {
        ((c as u8) + 32) as char
    } else {
        c
    }
}

pub fn char_upper(c: char) -> (r: char)
    ensures
        r == upper_char(c),
{
    if 'a' <= c && c <= 'z' {
        ((c as u8) - 32) as char
    } else {
        c
    }
}

// ---------------------------------------------------------------------------
// Conversions between strings and character vectors
// ---------------------------------------------------------------------------

/// Appends one character to a string (`String::push`).
#[verifier::external_body]
pub(crate) fn push_char(s: &mut String, c: char)
    ensures
        final(s)@ == old(s)@.push(c),
{
    s.push(c);
}

pub fn chars_of(s: &str) -> (v: Vec<char>)
    ensures
        v@ == s@,
{
    let n = s.unicode_len();
    let mut v: Vec<char> = Vec::new();
    let mut i: usize = 0;
    while i < n
        invariant
            n == s@.len(),
            i <= n,
            v@ == s@.subrange(0, i as int),
        decreases n - i,
    {
        let c = s.get_char(i);
        v.push(c);
        i = i + 1;
    }
    v
}

/// The string made of `s[from..to]`.
pub fn string_of(s: &[char], from: usize, to: usize) -> (r: String)
    requires
        from <= to <= s@.len(),
    ensures
        r@ == s@.subrange(from as int, to as int),
{
    let mut r = String::new();
    let mut i = from;
    while i < to
        invariant
            from <= i <= to <= s@.len(),
            r@ == s@.subrange(from as int, i as int),
        decreases to - i,
    {
        push_char(&mut r, s[i]);
        i = i + 1;
    }
    r
}

pub fn string_of_all(s: &[char]) -> (r: String)
    ensures
        r@ == s@,
{
    let r = string_of(s, 0, s.len());
    proof {
        assert(s@.subrange(0, s@.len() as int) =~= s@);
    }
    r
}

pub fn append_chars(r: &mut String, s: &[char], from: usize, to: usize)
    requires
        from <= to <= s@.len(),
    ensures
        final(r)@ == old(r)@ + s@.subrange(from as int, to as int),
{
    let mut i = from;
    while i < to
        invariant
            from <= i <= to <= s@.len(),
            r@ == old(r)@ + s@.subrange(from as int, i as int),
        decreases to - i,
    {
        push_char(r, s[i]);
        proof {
            assert(s@.subrange(from as int, i + 1) =~= s@.subrange(from as int, i as int).push(
                s@[i as int],
            ));
        }
        i = i + 1;
    }
}

pub fn copy_string(s: &String) -> (r: String)
    ensures
        r@ == s@,
{
    s.clone()
}

pub fn str_to_string(s: &str) -> (r: String)
    ensures
        r@ == s@,
{
    String::from_str(s)
}

pub fn lower_string(s: &str) -> (r: String)
    ensures
        r@ == lower(s@),
{
    let v = chars_of(s);
    let mut r = String::new();
    let mut i: usize = 0;
    while i < v.len()
        invariant
            v@ == s@,
            i <= v@.len(),
            r@ == lower(s@.subrange(0, i as int)),
        decreases v@.len() - i,
    {
        push_char(&mut r, char_lower(v[i]));
        proof {
            assert(lower(s@.subrange(0, i + 1)) =~= lower(s@.subrange(0, i as int)).push(
                lower_char(s@[i as int]),
            ));
        }
        i = i + 1;
    }
    proof {
        assert(s@.subrange(0, s@.len() as int) =~= s@);
    }
    r
}

pub fn lower_chars(s: &[char]) -> (r: Vec<char>)
    ensures
        r@ == lower(s@),
{
    let mut r: Vec<char> = Vec::new();
    let mut i: usize = 0;
    while i < s.len()
        invariant
            i <= s@.len(),
            r@ == lower(s@.subrange(0, i as int)),
        decreases s@.len() - i,
    {
        r.push(char_lower(s[i]));
        proof {
            assert(lower(s@.subrange(0, i + 1)) =~= lower(s@.subrange(0, i as int)).push(
                lower_char(s@[i as int]),
            ));
        }
        i = i + 1;
    }
    proof {
        assert(s@.subrange(0, s@.len() as int) =~= s@);
    }
    r
}

pub fn upper_chars(s: &[char]) -> (r: Vec<char>)
    ensures
        r@ == upper(s@),
{
    let mut r: Vec<char> = Vec::new();
    let mut i: usize = 0;
    while i < s.len()
        invariant
            i <= s@.len(),
            r@ == upper(s@.subrange(0, i as int)),
        decreases s@.len() - i,
    {
        r.push(char_upper(s[i]));
        proof {
            assert(upper(s@.subrange(0, i + 1)) =~= upper(s@.subrange(0, i as int)).push(
                upper_char(s@[i as int]),
            ));
        }
        i = i + 1;
    }
    proof {
        assert(s@.subrange(0, s@.len() as int) =~= s@);
    }
    r
}

pub fn seq_eq(a: &[char], b: &[char]) -> (r: bool)
    ensures
        r == (a@ == b@),
{
    if a.len() != b.len() {
        return false;
    }
    let mut i: usize = 0;
    while i < a.len()
        invariant
            a@.len() == b@.len(),
            i <= a@.len(),
            forall|j: int| 0 <= j < i ==> a@[j] == b@[j],
        decreases a@.len() - i,
    {
        if a[i] != b[i] {
            return false;
        }
        i = i + 1;
    }
    proof {
        assert(a@ =~= b@);
    }
    true
}

pub fn str_eq(a: &str, b: &str) -> (r: bool)
    ensures
        r == (a@ == b@),
{
    let x = chars_of(a);
    let y = chars_of(b);
    seq_eq(x.as_slice(), y.as_slice())
}

// ---------------------------------------------------------------------------
// Search
// ---------------------------------------------------------------------------

pub open spec fn occurs_at(s: Seq<char>, p: Seq<char>, i: int) -> bool {
    0 <= i && i + p.len() <= s.len() && s.subrange(i, i + p.len()) == p
}

/// First position at or after `from` where `p` occurs in `s`.
pub open spec fn find_from(s: Seq<char>, p: Seq<char>, from: int) -> Option<int>
    decreases s.len() + 1 - from,
{
    if from < 0 || from + p.len() > s.len() {
        None
    } else if occurs_at(s, p, from) {
        Some(from)
    } else {
        find_from(s, p, from + 1)
    }
}

pub open spec fn find(s: Seq<char>, p: Seq<char>) -> Option<int> {
    find_from(s, p, 0)
}

pub open spec fn contains(s: Seq<char>, p: Seq<char>) -> bool {
    find(s, p) is Some
}

pub open spec fn starts_with(s: Seq<char>, p: Seq<char>) -> bool {
    p.len() <= s.len() && s.subrange(0, p.len() as int) == p
}

pub open spec fn ends_with(s: Seq<char>, p: Seq<char>) -> bool {
    p.len() <= s.len() && s.subrange(s.len() - p.len(), s.len() as int) == p
}

/// Last position where `p` occurs in `s[..to]`, searching backwards from `start`.
pub open spec fn rfind_upto(s: Seq<char>, p: Seq<char>, start: int) -> Option<int>
    decreases start + 1,
{
    if start < 0 {
        None
    } else if occurs_at(s, p, start) {
        Some(start)
    } else {
        rfind_upto(s, p, start - 1)
    }
}

/// Last occurrence of `p` in `s` (`str::rfind`).
pub open spec fn rfind(s: Seq<char>, p: Seq<char>) -> Option<int> {
    rfind_upto(s, p, s.len() - p.len())
}

pub open spec fn opt_int(o: Option<usize>) -> Option<int> {
    match o {
        Some(x) => Some(x as int),
        None => None,
    }
}

pub proof fn lemma_find_from_props(s: Seq<char>, p: Seq<char>, from: int)
    requires
        0 <= from,
    ensures
        find_from(s, p, from) matches Some(i) ==> {
            &&& from <= i
            &&& occurs_at(s, p, i)
            &&& forall|j: int| from <= j < i ==> !occurs_at(s, p, j)
        },
        find_from(s, p, from) is None ==> forall|j: int| from <= j ==> !occurs_at(s, p, j),
    decreases s.len() + 1 - from,
{
    if from + p.len() > s.len() {
    } else if occurs_at(s, p, from) {
    } else {
        lemma_find_from_props(s, p, from + 1);
    }
}

pub proof fn lemma_find_from_shift(s: Seq<char>, p: Seq<char>, from: int, k: int)
    requires
        0 <= from <= k,
        forall|j: int| from <= j < k ==> !occurs_at(s, p, j),
    ensures
        find_from(s, p, from) == find_from(s, p, k),
    decreases k - from,
{
    if from < k {
        assert(!occurs_at(s, p, from));
        lemma_find_from_shift(s, p, from + 1, k);
    }
}

pub fn matches_at(s: &[char], p: &[char], i: usize) -> (r: bool)
    ensures
        r == occurs_at(s@, p@, i as int),
{
    if i > s.len() || p.len() > s.len() - i {
        return false;
    }
    let mut k: usize = 0;
    let n = s.len();
    while k < p.len()
        invariant
            n == s@.len(),
            i + p@.len() <= s@.len(),
            k <= p@.len(),
            forall|j: int| 0 <= j < k ==> s@[i + j] == p@[j],
        decreases p@.len() - k,
    {
        if s[i + k] != p[k] {
            proof {
                assert(s@.subrange(i as int, i + p@.len())[k as int] != p@[k as int]);
            }
            return false;
        }
        k = k + 1;
    }
    proof {
        assert(s@.subrange(i as int, i + p@.len()) =~= p@);
    }
    true
}

pub fn find_from_at(s: &[char], p: &[char], from: usize) -> (r: Option<usize>)
    ensures
        opt_int(r) == find_from(s@, p@, from as int),
        r matches Some(i) ==> i + p@.len() <= s@.len() && from <= i,
{
    let mut i = from;
    while i <= s.len() && p.len() <= s.len() - i
        invariant
            from <= i,
            find_from(s@, p@, from as int) == find_from(s@, p@, i as int),
        decreases s@.len() + 1 - i,
    {
        if matches_at(s, p, i) {
            return Some(i);
        }
        if i == s.len() {
            proof {
                assert(find_from(s@, p@, i + 1) is None);
            }
            return None;
        }
        i = i + 1;
    }
    None
}

pub fn find_at(s: &[char], p: &[char]) -> (r: Option<usize>)
    ensures
        opt_int(r) == find(s@, p@),
        r matches Some(i) ==> i + p@.len() <= s@.len(),
{
    find_from_at(s, p, 0)
}

pub fn find_str(s: &[char], p: &str) -> (r: Option<usize>)
    ensures
        opt_int(r) == find(s@, p@),
        r matches Some(i) ==> i + p@.len() <= s@.len(),
{
    let pv = chars_of(p);
    find_at(s, pv.as_slice())
}

pub fn find_str_from(s: &[char], p: &str, from: usize) -> (r: Option<usize>)
    ensures
        opt_int(r) == find_from(s@, p@, from as int),
        r matches Some(i) ==> i + p@.len() <= s@.len() && from <= i,
{
    let pv = chars_of(p);
    find_from_at(s, pv.as_slice(), from)
}

pub fn contains_str(s: &[char], p: &str) -> (r: bool)
    ensures
        r == contains(s@, p@),
{
    find_str(s, p).is_some()
}

pub fn contains_chars(s: &[char], p: &[char]) -> (r: bool)
    ensures
        r == contains(s@, p@),
{
    find_at(s, p).is_some()
}

pub fn starts_with_str(s: &[char], p: &str) -> (r: bool)
    ensures
        r == starts_with(s@, p@),
{
    let pv = chars_of(p);
    let r = matches_at(s, pv.as_slice(), 0);
    r
}

pub fn ends_with_str(s: &[char], p: &str) -> (r: bool)
    ensures
        r == ends_with(s@, p@),
{
    let pv = chars_of(p);
    if pv.len() > s.len() {
        return false;
    }
    matches_at(s, pv.as_slice(), s.len() - pv.len())
}

pub fn rfind_chars(s: &[char], p: &[char]) -> (r: Option<usize>)
    ensures
        opt_int(r) == rfind(s@, p@),
        r matches Some(i) ==> i + p@.len() <= s@.len(),
{
    if p.len() > s.len() {
        return None;
    }
    let mut i: usize = s.len() - p.len();
    loop
        invariant
            i + p@.len() <= s@.len(),
            rfind(s@, p@) == rfind_upto(s@, p@, i as int),
        decreases i,
    {
        if matches_at(s, p, i) {
            return Some(i);
        }
        if i == 0 {
            proof {
                assert(rfind_upto(s@, p@, -1) is None);
            }
            return None;
        }
        i = i - 1;
    }
}


/// Searching a suffix of `s` is searching `s` itself, shifted.
pub proof fn lemma_find_from_suffix(s: Seq<char>, p: Seq<char>, pos: int, k: int)
    requires
        0 <= pos <= s.len(),
        0 <= k,
    ensures
        find_from(s.subrange(pos, s.len() as int), p, k) == match find_from(s, p, pos + k) {
            Some(i) => Some(i - pos),
            None => None,
        },
    decreases s.len() + 1 - pos - k,
{
    let t = s.subrange(pos, s.len() as int);
    if k + p.len() > t.len() {
    } else {
        assert(t.subrange(k, k + p.len()) =~= s.subrange(pos + k, pos + k + p.len()));
        if !occurs_at(t, p, k) {
            lemma_find_from_suffix(s, p, pos, k + 1);
        }
    }
}

pub fn copy_range(s: &[char], from: usize, to: usize) -> (r: Vec<char>)
    requires
        from <= to <= s@.len(),
    ensures
        r@ == s@.subrange(from as int, to as int),
{
    let mut r: Vec<char> = Vec::new();
    let mut i = from;
    while i < to
        invariant
            from <= i <= to <= s@.len(),
            r@ == s@.subrange(from as int, i as int),
        decreases to - i,
    {
        r.push(s[i]);
        proof {
            assert(s@.subrange(from as int, i + 1) =~= s@.subrange(from as int, i as int).push(
                s@[i as int],
            ));
        }
        i = i + 1;
    }
    r
}

/// `s` with every occurrence of `p` taken out, left to right (`str::replace(p, "")`).
pub open spec fn remove_all(s: Seq<char>, p: Seq<char>) -> Seq<char>
    decreases s.len(),
{
    if p.len() == 0 {
        s
    } else {
        match find(s, p) {
            Some(i) => if 0 <= i && i + p.len() <= s.len() {
                s.subrange(0, i) + remove_all(s.subrange(i + p.len(), s.len() as int), p)
            } else {
                s
            },
            None => s,
        }
    }
}

pub fn remove_all_str(s: &[char], p: &str) -> (r: Vec<char>)
    ensures
        r@ == remove_all(s@, p@),
{
    let pv = chars_of(p);
    let n = s.len();
    if pv.len() == 0 {
        return copy_range(s, 0, n);
    }
    let mut out: Vec<char> = Vec::new();
    let mut pos: usize = 0;
    proof {
        assert(s@.subrange(0, n as int) =~= s@);
    }
    while pos < n
        invariant
            n == s@.len(),
            pv@ == p@,
            pv@.len() > 0,
            pos <= n,
            remove_all(s@, p@) == out@ + remove_all(s@.subrange(pos as int, n as int), p@),
        decreases n - pos,
    {
        let ghost rest = s@.subrange(pos as int, n as int);
        proof {
            lemma_find_from_suffix(s@, p@, pos as int, 0);
        }
        match find_from_at(s, pv.as_slice(), pos) {
            Some(i) => {
                let piece = copy_range(s, pos, i);
                let ghost before = out@;
                out.append(&mut piece.clone());
                proof {
                    let k = i - pos;
                    assert(rest.subrange(0, k) =~= s@.subrange(pos as int, i as int));
                    assert(rest.subrange(k + p@.len(), rest.len() as int) =~= s@.subrange(i + p@.len(), n as int));
                    assert(out@ =~= before + piece@);
                    assert(before + (piece@ + remove_all(s@.subrange(i + p@.len(), n as int), p@)) =~= out@
                        + remove_all(s@.subrange(i + p@.len(), n as int), p@));
                }
                pos = i + pv.len();
            },
            None => {
                let piece = copy_range(s, pos, n);
                let ghost before = out@;
                out.append(&mut piece.clone());
                proof {
                    assert(out@ =~= before + rest);
                    assert(remove_all(s@.subrange(n as int, n as int), p@) =~= Seq::<char>::empty());
                    assert(out@ + Seq::<char>::empty() =~= out@);
                }
                pos = n;
            },
        }
    }
    proof {
        assert(remove_all(s@.subrange(n as int, n as int), p@) =~= Seq::<char>::empty());
        assert(out@ + Seq::<char>::empty() =~= out@);
    }
    out
}

/// `s` with every occurrence of `p` replaced by `r`, left to right (`str::replace`).
pub open spec fn replace_all(s: Seq<char>, p: Seq<char>, r: Seq<char>) -> Seq<char>
    decreases s.len(),
{
    if p.len() == 0 {
        s
    } else {
        match find(s, p) {
            Some(i) => if 0 <= i && i + p.len() <= s.len() {
                s.subrange(0, i) + r + replace_all(s.subrange(i + p.len(), s.len() as int), p, r)
            } else {
                s
            },
            None => s,
        }
    }
}

/// `str::replace` for a non-empty pattern.
pub fn replace_all_str(s: &str, p: &str, r: &str) -> (out: String)
    requires
        p@.len() > 0,
    ensures
        out@ == replace_all(s@, p@, r@),
{
    let sv = chars_of(s);
    let pv = chars_of(p);
    let n = sv.len();
    let mut out = String::new();
    let mut pos: usize = 0;
    proof {
        assert(sv@.subrange(0, n as int) =~= sv@);
    }
    while pos < n
        invariant
            n == sv@.len(),
            sv@ == s@,
            pv@ == p@,
            pv@.len() > 0,
            pos <= n,
            replace_all(s@, p@, r@) == out@ + replace_all(sv@.subrange(pos as int, n as int), p@, r@),
        decreases n - pos,
    {
        let ghost rest = sv@.subrange(pos as int, n as int);
        proof {
            lemma_find_from_suffix(sv@, p@, pos as int, 0);
        }
        match find_from_at(sv.as_slice(), pv.as_slice(), pos) {
            Some(i) => {
                let ghost before = out@;
                append_chars(&mut out, sv.as_slice(), pos, i);
                out.append(r);
                proof {
                    let k = i - pos;
                    assert(rest.subrange(0, k) =~= sv@.subrange(pos as int, i as int));
                    assert(rest.subrange(k + p@.len(), rest.len() as int) =~= sv@.subrange(i + p@.len(), n as int));
                    assert(before + (sv@.subrange(pos as int, i as int) + r@ + replace_all(
                        sv@.subrange(i + p@.len(), n as int),
                        p@,
                        r@,
                    )) =~= out@ + replace_all(sv@.subrange(i + p@.len(), n as int), p@, r@));
                }
                pos = i + pv.len();
            },
            None => {
                let ghost before = out@;
                append_chars(&mut out, sv.as_slice(), pos, n);
                proof {
                    assert(replace_all(sv@.subrange(n as int, n as int), p@, r@) =~= Seq::<char>::empty());
                    assert(out@ + Seq::<char>::empty() =~= out@);
                }
                pos = n;
            },
        }
    }
    proof {
        assert(replace_all(sv@.subrange(n as int, n as int), p@, r@) =~= Seq::<char>::empty());
        assert(out@ + Seq::<char>::empty() =~= out@);
    }
    out
}

/// First position at or after `i` that holds `a` or `b`.
pub open spec fn first_sep(s: Seq<char>, a: char, b: char, i: int) -> Option<int>
    decreases s.len() - i,
{
    if i < 0 || i >= s.len() {
        None
    } else if s[i] == a || s[i] == b {
        Some(i)
    } else {
        first_sep(s, a, b, i + 1)
    }
}

/// The pieces of `s` between the characters `a` and `b` (`str::split` on either).
pub open spec fn split_on(s: Seq<char>, a: char, b: char) -> Seq<Seq<char>>
    decreases s.len(),
{
    match first_sep(s, a, b, 0) {
        Some(i) => if 0 <= i < s.len() {
            seq![s.subrange(0, i)] + split_on(s.subrange(i + 1, s.len() as int), a, b)
        } else {
            seq![s]
        },
        None => seq![s],
    }
}

proof fn lemma_first_sep_suffix(s: Seq<char>, a: char, b: char, pos: int, k: int)
    requires
        0 <= pos <= s.len(),
        0 <= k,
    ensures
        first_sep(s.subrange(pos, s.len() as int), a, b, k) == match first_sep(s, a, b, pos + k) {
            Some(i) => Some(i - pos),
            None => None,
        },
    decreases s.len() - pos - k,
{
    if pos + k < s.len() {
        let t = s.subrange(pos, s.len() as int);
        assert(t[k] == s[pos + k]);
        if !(s[pos + k] == a || s[pos + k] == b) {
            lemma_first_sep_suffix(s, a, b, pos, k + 1);
        }
    }
}

/// `s` split at every `a` or `b`.
pub fn split_on_chars(s: &[char], a: char, b: char) -> (r: Vec<Vec<char>>)
    ensures
        lines_view(r@) == split_on(s@, a, b),
{
    let n = s.len();
    let mut out: Vec<Vec<char>> = Vec::new();
    let mut start: usize = 0;
    let mut i: usize = 0;
    proof {
        assert(s@.subrange(0, n as int) =~= s@);
    }
    while i < n
        invariant
            n == s@.len(),
            start <= i <= n,
            split_on(s@, a, b) == lines_view(out@) + split_on(s@.subrange(start as int, n as int), a, b),
            first_sep(s@, a, b, start as int) == first_sep(s@, a, b, i as int),
        decreases n - i,
    {
        if s[i] == a || s[i] == b {
            let piece = copy_range(s, start, i);
            let ghost rest = s@.subrange(start as int, n as int);
            proof {
                lemma_first_sep_suffix(s@, a, b, start as int, 0);
                let k = i - start;
                assert(rest.subrange(0, k) =~= piece@);
                assert(rest.subrange(k + 1, rest.len() as int) =~= s@.subrange(i + 1, n as int));
            }
            let ghost before = lines_view(out@);
            out.push(piece);
            proof {
                assert(lines_view(out@) =~= before.push(piece@));
                assert(before + (seq![piece@] + split_on(s@.subrange(i + 1, n as int), a, b)) =~= lines_view(out@)
                    + split_on(s@.subrange(i + 1, n as int), a, b));
            }
            start = i + 1;
        }
        i = i + 1;
    }
    let piece = copy_range(s, start, n);
    proof {
        lemma_first_sep_suffix(s@, a, b, start as int, 0);
        assert(first_sep(s@, a, b, n as int) is None);
        assert(split_on(s@.subrange(start as int, n as int), a, b) == seq![piece@]);
    }
    let ghost before = lines_view(out@);
    out.push(piece);
    proof {
        assert(lines_view(out@) =~= before.push(piece@));
        assert(before + seq![piece@] =~= lines_view(out@));
    }
    out
}

/// Removes every leading occurrence of `c`.
pub open spec fn strip_start(s: Seq<char>, c: char) -> Seq<char>
    decreases s.len(),
{
    if s.len() > 0 && s[0] == c {
        strip_start(s.drop_first(), c)
    } else {
        s
    }
}

/// Removes every trailing occurrence of `c`.
pub open spec fn strip_end(s: Seq<char>, c: char) -> Seq<char>
    decreases s.len(),
{
    if s.len() > 0 && s.last() == c {
        strip_end(s.drop_last(), c)
    } else {
        s
    }
}

/// `str::trim_matches` with a single character.
pub open spec fn strip_all(s: Seq<char>, c: char) -> Seq<char> {
    strip_end(strip_start(s, c), c)
}

pub fn strip_all_chars(s: &[char], c: char) -> (r: Vec<char>)
    ensures
        r@ == strip_all(s@, c),
{
    let n = s.len();
    let mut a: usize = 0;
    proof {
        assert(s@.subrange(0, n as int) =~= s@);
    }
    while a < n && s[a] == c
        invariant
            n == s@.len(),
            a <= n,
            strip_start(s@, c) == strip_start(s@.subrange(a as int, n as int), c),
        decreases n - a,
    {
        proof {
            assert(s@.subrange(a + 1, n as int) =~= s@.subrange(a as int, n as int).drop_first());
        }
        a = a + 1;
    }
    let mut b: usize = n;
    proof {
        assert(strip_start(s@.subrange(a as int, n as int), c) == s@.subrange(a as int, n as int));
    }
    while b > a && s[b - 1] == c
        invariant
            n == s@.len(),
            a <= b <= n,
            strip_all(s@, c) == strip_end(s@.subrange(a as int, b as int), c),
        decreases b,
    {
        proof {
            assert(s@.subrange(a as int, b - 1) =~= s@.subrange(a as int, b as int).drop_last());
        }
        b = b - 1;
    }
    proof {
        assert(strip_end(s@.subrange(a as int, b as int), c) == s@.subrange(a as int, b as int));
    }
    copy_range(s, a, b)
}

/// Removes a `\r` that ends a line terminated by `\n`.
pub open spec fn strip_cr(line: Seq<char>) -> Seq<char> {
    if line.len() > 0 && line.last() == '\r' {
        line.drop_last()
    } else {
        line
    }
}

/// `str::lines`: lines split at `\n`, each without a `\r\n` terminator.
pub open spec fn lines(s: Seq<char>) -> Seq<Seq<char>>
    decreases s.len(),
{
    if s.len() == 0 {
        Seq::empty()
    } else {
        match find(s, "\n"@) {
            Some(i) => if 0 <= i < s.len() {
                seq![strip_cr(s.subrange(0, i))] + lines(s.subrange(i + 1, s.len() as int))
            } else {
                Seq::empty()
            },
            None => seq![s],
        }
    }
}


pub open spec fn lines_view(v: Seq<Vec<char>>) -> Seq<Seq<char>> {
    v.map_values(|l: Vec<char>| l@)
}

/// The lines of `s` (`str::lines`).
pub fn split_lines(s: &str) -> (r: Vec<Vec<char>>)
    ensures
        lines_view(r@) == lines(s@),
{
    let v = chars_of(s);
    let n = v.len();
    let nl = chars_of("\n");
    let mut pos: usize = 0;
    let mut out: Vec<Vec<char>> = Vec::new();
    proof {
        assert(v@.subrange(0, n as int) =~= v@);
    }
    while pos < n
        invariant
            n == v@.len(),
            v@ == s@,
            nl@ == "\n"@,
            pos <= n,
            lines(v@) == lines_view(out@) + lines(v@.subrange(pos as int, n as int)),
        decreases n - pos,
    {
        let ghost rest = v@.subrange(pos as int, n as int);
        proof {
            reveal_strlit("\n");
            lemma_find_from_suffix(v@, "\n"@, pos as int, 0);
        }
        let line;
        match find_from_at(v.as_slice(), nl.as_slice(), pos) {
            Some(i) => {
                let mut end = i;
                if end > pos && v[end - 1] == '\r' {
                    end = end - 1;
                }
                line = copy_range(v.as_slice(), pos, end);
                proof {
                    let k = i - pos;
                    assert(rest.subrange(0, k) =~= v@.subrange(pos as int, i as int));
                    assert(rest.subrange(k + 1, rest.len() as int) =~= v@.subrange(i + 1, n as int));
                    if end < i {
                        assert(v@.subrange(pos as int, end as int) =~= v@.subrange(pos as int, i as int).drop_last());
                    }
                    assert(lines(rest) == seq![line@] + lines(v@.subrange(i + 1, n as int)));
                }
                pos = i + 1;
            },
            None => {
                line = copy_range(v.as_slice(), pos, n);
                proof {
                    assert(lines(rest) == seq![rest]);
                    assert(lines(v@.subrange(n as int, n as int)) =~= Seq::<Seq<char>>::empty());
                }
                pos = n;
            },
        }
        let ghost before = out@;
        out.push(line);
        proof {
            assert(lines_view(out@) =~= lines_view(before).push(line@));
            assert(lines_view(before) + lines(rest) =~= lines_view(out@) + lines(v@.subrange(pos as int, n as int)));
        }
    }
    proof {
        assert(lines(v@.subrange(n as int, n as int)) =~= Seq::<Seq<char>>::empty());
        assert(lines_view(out@) + Seq::<Seq<char>>::empty() =~= lines_view(out@));
    }
    out
}

// ---------------------------------------------------------------------------
// Trimming
// ---------------------------------------------------------------------------

/// First position at or after `i` that does not hold whitespace.
pub open spec fn skip_ws(s: Seq<char>, i: int) -> int
    decreases s.len() - i,
{
    if 0 <= i < s.len() && is_ws(s[i]) {
        skip_ws(s, i + 1)
    } else {
        i
    }
}

/// End of `s[lo..hi]` once trailing whitespace is removed.
pub open spec fn skip_ws_back(s: Seq<char>, lo: int, hi: int) -> int
    decreases hi - lo,
{
    if lo < hi && 0 < hi <= s.len() && is_ws(s[hi - 1]) {
        skip_ws_back(s, lo, hi - 1)
    } else {
        hi
    }
}

pub open spec fn trim_start(s: Seq<char>) -> Seq<char> {
    s.subrange(skip_ws(s, 0), s.len() as int)
}

pub open spec fn trim_end(s: Seq<char>) -> Seq<char> {
    s.subrange(0, skip_ws_back(s, 0, s.len() as int))
}

/// `str::trim`: both leading and trailing whitespace removed.
pub open spec fn trim(s: Seq<char>) -> Seq<char> {
    s.subrange(skip_ws(s, 0), skip_ws_back(s, skip_ws(s, 0), s.len() as int))
}

pub proof fn lemma_skip_ws_bounds(s: Seq<char>, i: int)
    requires
        0 <= i <= s.len(),
    ensures
        i <= skip_ws(s, i) <= s.len(),
    decreases s.len() - i,
{
    if 0 <= i < s.len() && is_ws(s[i]) {
        lemma_skip_ws_bounds(s, i + 1);
    }
}

pub proof fn lemma_skip_ws_back_bounds(s: Seq<char>, lo: int, hi: int)
    requires
        0 <= lo <= hi <= s.len(),
    ensures
        lo <= skip_ws_back(s, lo, hi) <= hi,
    decreases hi - lo,
{
    if lo < hi && 0 < hi <= s.len() && is_ws(s[hi - 1]) {
        lemma_skip_ws_back_bounds(s, lo, hi - 1);
    }
}

pub fn skip_ws_exec(s: &[char], i: usize) -> (r: usize)
    requires
        i <= s@.len(),
    ensures
        r == skip_ws(s@, i as int),
        i <= r <= s@.len(),
        r < s@.len() ==> !is_ws(s@[r as int]),
{
    let mut k = i;
    while k < s.len() && char_is_ws(s[k])
        invariant
            i <= k <= s@.len(),
            skip_ws(s@, i as int) == skip_ws(s@, k as int),
        decreases s@.len() - k,
    {
        k = k + 1;
    }
    k
}

pub fn skip_ws_back_exec(s: &[char], lo: usize, hi: usize) -> (r: usize)
    requires
        lo <= hi <= s@.len(),
    ensures
        r == skip_ws_back(s@, lo as int, hi as int),
        lo <= r <= hi,
{
    let mut k = hi;
    while k > lo && char_is_ws(s[k - 1])
        invariant
            lo <= k <= hi <= s@.len(),
            skip_ws_back(s@, lo as int, hi as int) == skip_ws_back(s@, lo as int, k as int),
        decreases k,
    {
        k = k - 1;
    }
    k
}

/// Bounds `(a, b)` such that `s[a..b]` is `trim(s[from..to])`.
pub fn trim_bounds(s: &[char], from: usize, to: usize) -> (r: (usize, usize))
    requires
        from <= to <= s@.len(),
    ensures
        from <= r.0 <= r.1 <= to,
        s@.subrange(r.0 as int, r.1 as int) == trim(s@.subrange(from as int, to as int)),
{
    let ghost t = s@.subrange(from as int, to as int);
    let mut a = from;
    while a < to && char_is_ws(s[a])
        invariant
            from <= a <= to <= s@.len(),
            t == s@.subrange(from as int, to as int),
            skip_ws(t, 0) == skip_ws(t, a - from),
        decreases to - a,
    {
        a = a + 1;
    }
    let mut b = to;
    while b > a && char_is_ws(s[b - 1])
        invariant
            from <= a <= b <= to <= s@.len(),
            t == s@.subrange(from as int, to as int),
            skip_ws(t, 0) == a - from,
            skip_ws_back(t, a - from, to - from) == skip_ws_back(t, a - from, b - from),
        decreases b,
    {
        b = b - 1;
    }
    proof {
        assert(s@.subrange(a as int, b as int) =~= t.subrange(a - from, b - from));
    }
    (a, b)
}

pub fn trim_string(s: &str) -> (r: String)
    ensures
        r@ == trim(s@),
{
    let v = chars_of(s);
    let (a, b) = trim_bounds(v.as_slice(), 0, v.len());
    proof {
        assert(v@.subrange(0, v@.len() as int) =~= v@);
    }
    string_of(v.as_slice(), a, b)
}

pub fn is_blank(s: &str) -> (r: bool)
    ensures
        r == (trim(s@).len() == 0),
{
    let v = chars_of(s);
    let (a, b) = trim_bounds(v.as_slice(), 0, v.len());
    proof {
        assert(v@.subrange(0, v@.len() as int) =~= v@);
    }
    a == b
}


/// End of the run of non-whitespace characters that starts at `i`.
pub open spec fn word_end(s: Seq<char>, i: int) -> int
    decreases s.len() - i,
{
    if 0 <= i < s.len() && !is_ws(s[i]) {
        word_end(s, i + 1)
    } else {
        i
    }
}

/// The whitespace-separated words of `s[i..]` (`str::split_whitespace`).
pub open spec fn words_from(s: Seq<char>, i: int) -> Seq<Seq<char>>
    decreases s.len() - i,
{
    let a = skip_ws(s, i);
    if i < 0 || a >= s.len() || a < i {
        Seq::empty()
    } else {
        let b = word_end(s, a);
        if b <= a || b > s.len() {
            Seq::empty()
        } else {
            seq![s.subrange(a, b)] + words_from(s, b)
        }
    }
}

pub proof fn lemma_word_end_bounds(s: Seq<char>, i: int)
    requires
        0 <= i <= s.len(),
    ensures
        i <= word_end(s, i) <= s.len(),
    decreases s.len() - i,
{
    if 0 <= i < s.len() && !is_ws(s[i]) {
        lemma_word_end_bounds(s, i + 1);
    }
}

/// The whitespace-separated words of `s`.
pub fn split_whitespace(s: &[char]) -> (r: Vec<Vec<char>>)
    ensures
        lines_view(r@) == words_from(s@, 0),
{
    let n = s.len();
    let mut i: usize = 0;
    let mut out: Vec<Vec<char>> = Vec::new();
    while i < n
        invariant
            n == s@.len(),
            i <= n,
            words_from(s@, 0) == lines_view(out@) + words_from(s@, i as int),
        decreases n - i,
    {
        let a = skip_ws_exec(s, i);
        if a >= n {
            proof {
                assert(words_from(s@, i as int) =~= Seq::<Seq<char>>::empty());
                assert(words_from(s@, n as int) =~= Seq::<Seq<char>>::empty());
                assert(lines_view(out@) + Seq::<Seq<char>>::empty() =~= lines_view(out@));
            }
            i = n;
        } else {
            let mut b = a;
            while b < n && !char_is_ws(s[b])
                invariant
                    n == s@.len(),
                    i < n,
                    a == skip_ws(s@, i as int),
                    i <= a < n,
                    !is_ws(s@[a as int]),
                    a <= b <= n,
                    word_end(s@, a as int) == word_end(s@, b as int),
                decreases n - b,
            {
                b = b + 1;
            }
            proof {
                assert(b > a);
                assert(word_end(s@, b as int) == b as int);
            }
            let w = copy_range(s, a, b);
            let ghost before = out@;
            out.push(w);
            proof {
                assert(lines_view(out@) =~= lines_view(before).push(w@));
                assert(words_from(s@, i as int) == seq![w@] + words_from(s@, b as int));
                assert(lines_view(before) + (seq![w@] + words_from(s@, b as int)) =~= lines_view(out@) + words_from(s@, b as int));
            }
            i = b;
        }
    }
    proof {
        assert(words_from(s@, i as int) =~= Seq::<Seq<char>>::empty());
        assert(lines_view(out@) + Seq::<Seq<char>>::empty() =~= lines_view(out@));
    }
    out
}

// ---------------------------------------------------------------------------
// Decimal numbers
// ---------------------------------------------------------------------------

pub open spec fn digit_val(c: char) -> nat {
    ((c as u32) - ('0' as u32)) as nat
}

/// Value of a sequence of decimal digits.
pub open spec fn digits_value(s: Seq<char>) -> nat
    decreases s.len(),
{
    if s.len() == 0 {
        0
    } else {
        digits_value(s.drop_last()) * 10 + digit_val(s.last())
    }
}

pub open spec fn all_digits(s: Seq<char>) -> bool {
    forall|i: int| 0 <= i < s.len() ==> is_digit(#[trigger] s[i])
}

/// The digits of an unsigned integer literal: an optional `+` sign is dropped.
pub open spec fn unsigned_body(s: Seq<char>) -> Seq<char> {
    if s.len() > 0 && s[0] == '+' {
        s.drop_first()
    } else {
        s
    }
}

/// `str::parse` for an unsigned integer type whose largest value is `max`.
pub open spec fn parse_unsigned(s: Seq<char>, max: nat) -> Option<nat> {
    let body = unsigned_body(s);
    if body.len() > 0 && all_digits(body) && digits_value(body) <= max {
        Some(digits_value(body))
    } else {
        None
    }
}

/// `str::parse` for a signed integer type with range `min..=max`.
pub open spec fn parse_signed(s: Seq<char>, min: int, max: int) -> Option<int> {
    if s.len() > 0 && s[0] == '-' {
        let body = s.drop_first();
        if body.len() > 0 && all_digits(body) && -(digits_value(body) as int) >= min {
            Some(-(digits_value(body) as int))
        } else {
            None
        }
    } else {
        match parse_unsigned(s, max as nat) {
            Some(v) => if max >= 0 {
                Some(v as int)
            } else {
                None
            },
            None => None,
        }
    }
}

pub proof fn lemma_digits_value_push(s: Seq<char>, c: char)
    ensures
        digits_value(s.push(c)) == digits_value(s) * 10 + digit_val(c),
{
    assert(s.push(c).drop_last() =~= s);
}

pub proof fn lemma_digits_value_bound(s: Seq<char>)
    requires
        all_digits(s),
    ensures
        digits_value(s) >= 0,
        s.len() > 0 ==> digits_value(s) >= digits_value(s.drop_last()),
    decreases s.len(),
{
    if s.len() > 0 {
        lemma_digits_value_bound(s.drop_last());
    }
}

/// Value of the digits in `s[from..to]` when it is at most `max`.
pub fn digits_value_bounded(s: &[char], from: usize, to: usize, max: u64) -> (r: Option<u64>)
    requires
        from <= to <= s@.len(),
        all_digits(s@.subrange(from as int, to as int)),
    ensures
        digits_value(s@.subrange(from as int, to as int)) <= max ==> r == Some(
            digits_value(s@.subrange(from as int, to as int)) as u64,
        ),
        digits_value(s@.subrange(from as int, to as int)) > max ==> r is None,
{
    let mut acc: u64 = 0;
    let mut i = from;
    while i < to
        invariant
            from <= i <= to <= s@.len(),
            all_digits(s@.subrange(from as int, to as int)),
            acc == digits_value(s@.subrange(from as int, i as int)),
            acc <= max,
        decreases to - i,
    {
        let c = s[i];
        proof {
            assert(s@.subrange(from as int, to as int)[i - from] == c);
            assert(s@.subrange(from as int, i + 1) =~= s@.subrange(from as int, i as int).push(c));
            lemma_digits_value_push(s@.subrange(from as int, i as int), c);
        }
        let d = ((c as u32) - ('0' as u32)) as u64;
        if d > max || acc > (max - d) / 10 {
            proof {
                if d <= max {
                    assert(acc * 10 + d > max) by (nonlinear_arith)
                        requires
                            acc > (max - d) / 10,
                            d <= 9,
                            d <= max,
                    ;
                }
                lemma_digits_value_grows(s@.subrange(from as int, to as int), i + 1 - from);
                assert(s@.subrange(from as int, to as int).subrange(0, i + 1 - from)
                    =~= s@.subrange(from as int, i + 1));
            }
            return None;
        }
        proof {
            assert(acc * 10 + d <= max) by (nonlinear_arith)
                requires
                    acc <= (max - d) / 10,
                    d <= 9,
                    d <= max,
            ;
        }
        acc = acc * 10 + d;
        i = i + 1;
    }
    Some(acc)
}

/// A prefix of a digit sequence never has a greater value than the whole sequence.
pub proof fn lemma_digits_value_grows(s: Seq<char>, k: int)
    requires
        all_digits(s),
        0 <= k <= s.len(),
    ensures
        digits_value(s.subrange(0, k)) <= digits_value(s),
    decreases s.len() - k,
{
    if k < s.len() {
        lemma_digits_value_grows(s, k + 1);
        let t = s.subrange(0, k + 1);
        assert(t.drop_last() =~= s.subrange(0, k));
    } else {
        assert(s.subrange(0, k) =~= s);
    }
}

pub fn all_digits_range(s: &[char], from: usize, to: usize) -> (r: bool)
    requires
        from <= to <= s@.len(),
    ensures
        r == all_digits(s@.subrange(from as int, to as int)),
{
    let mut i = from;
    while i < to
        invariant
            from <= i <= to <= s@.len(),
            forall|j: int| from <= j < i ==> is_digit(s@[j]),
        decreases to - i,
    {
        if !char_is_digit(s[i]) {
            proof {
                assert(s@.subrange(from as int, to as int)[i - from] == s@[i as int]);
            }
            return false;
        }
        i = i + 1;
    }
    proof {
        assert forall|j: int| 0 <= j < to - from implies is_digit(
            #[trigger] s@.subrange(from as int, to as int)[j],
        ) by {
            assert(s@.subrange(from as int, to as int)[j] == s@[from + j]);
        }
    }
    true
}

/// Parses `s[from..to]` as an unsigned integer no greater than `max`.
pub fn parse_unsigned_range(s: &[char], from: usize, to: usize, max: u64) -> (r: Option<u64>)
    requires
        from <= to <= s@.len(),
    ensures
        opt_nat(r) == parse_unsigned(s@.subrange(from as int, to as int), max as nat),
{
    let ghost t = s@.subrange(from as int, to as int);
    let mut start = from;
    if from < to && s[from] == '+' {
        start = from + 1;
        proof {
            assert(t.drop_first() =~= s@.subrange(start as int, to as int));
        }
    } else {
        proof {
            assert(t =~= s@.subrange(start as int, to as int));
        }
    }
    if start == to {
        return None;
    }
    if !all_digits_range(s, start, to) {
        return None;
    }
    digits_value_bounded(s, start, to, max)
}

pub open spec fn opt_nat(o: Option<u64>) -> Option<nat> {
    match o {
        Some(x) => Some(x as nat),
        None => None,
    }
}


/// Parses `s` as a signed integer in `min..=max` (`str::parse` for a signed type).
pub fn parse_signed_str(s: &str, min: i64, max: i64) -> (r: Option<i64>)
    requires
        min < 0 <= max,
    ensures
        match r {
            Some(v) => parse_signed(s@, min as int, max as int) == Some(v as int),
            None => parse_signed(s@, min as int, max as int) is None,
        },
{
    let v = chars_of(s);
    let n = v.len();
    proof {
        assert(v@.subrange(0, n as int) =~= v@);
    }
    if n > 0 && v[0] == '-' {
        proof {
            assert(v@.drop_first() =~= v@.subrange(1, n as int));
        }
        if n == 1 || !all_digits_range(v.as_slice(), 1, n) {
            return None;
        }
        let limit: u64 = if min == i64::MIN {
            9223372036854775808u64
        } else {
            (-min) as u64
        };
        match digits_value_bounded(v.as_slice(), 1, n, limit) {
            Some(m) => {
                if m == 9223372036854775808u64 {
                    Some(i64::MIN)
                } else {
                    Some(-(m as i64))
                }
            },
            None => None,
        }
    } else {
        match parse_unsigned_range(v.as_slice(), 0, n, max as u64) {
            Some(u) => Some(u as i64),
            None => None,
        }
    }
}

/// Decimal digits of a natural number.
pub open spec fn dec(n: nat) -> Seq<char>
    decreases n,
{
    if n < 10 {
        seq![(('0' as u32) + n) as char]
    } else {
        dec(n / 10).push((('0' as u32) + (n % 10)) as char)
    }
}

/// Decimal form of an integer, with a leading `-` when it is negative.
pub open spec fn dec_int(n: int) -> Seq<char> {
    if n < 0 {
        seq!['-'].add(dec((-n) as nat))
    } else {
        dec(n as nat)
    }
}

pub fn fmt_u64(n: u64) -> (r: String)
    ensures
        r@ == dec(n as nat),
    decreases n,
{
    if n < 10 {
        let mut r = String::new();
        push_char(&mut r, ((n as u8) + 48) as char);
        proof {
            assert(r@ =~= dec(n as nat));
        }
        r
    } else {
        let mut r = fmt_u64(n / 10);
        push_char(&mut r, (((n % 10) as u8) + 48) as char);
        r
    }
}

pub fn fmt_i64(n: i64) -> (r: String)
    ensures
        r@ == dec_int(n as int),
{
    if n < 0 {
        let mut r = String::new();
        push_char(&mut r, '-');
        let m: u64 = if n == i64::MIN {
            9223372036854775808u64
        } else {
            (-n) as u64
        };
        let d = fmt_u64(m);
        r.append(d.as_str());
        proof {
            assert(r@ =~= dec_int(n as int));
        }
        r
    } else {
        fmt_u64(n as u64)
    }
}

} // verus!
