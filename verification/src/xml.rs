//! Small, dependency-free XML helpers: value validation and escaping for documents the
//! library builds, and tag scanning for the documents libvirt returns.
use crate::error::AppError;
use crate::text::{
    chars_of, char_is_control, find_from, find_from_at, find_str_from, is_control, matches_at,
    occurs_at, opt_int, push_char, string_of,
};
use vstd::prelude::*;

verus! {

/// Longest text or attribute value accepted in a generated document.
pub const MAX_TEXT_LEN: usize = 4096;

/// Longest identifier accepted in a generated document.
pub const MAX_IDENTIFIER_LEN: usize = 255;

/// XML whitespace.
pub open spec fn xml_ws(c: char) -> bool {
    c == ' ' || c == '\t' || c == '\n' || c == '\r'
}

/// Characters that may appear in XML character data.
pub open spec fn text_char_ok(c: char) -> bool {
    !('\u{0}' <= c && c < ' ') || c == '\t' || c == '\n' || c == '\r'
}

/// A value that may be placed in text or an attribute of a generated document.
pub open spec fn text_ok(s: Seq<char>) -> bool {
    s.len() <= MAX_TEXT_LEN && forall|i: int| 0 <= i < s.len() ==> text_char_ok(#[trigger] s[i])
}

/// A non-empty, bounded name without control characters.
pub open spec fn identifier_ok(s: Seq<char>) -> bool {
    0 < s.len() <= MAX_IDENTIFIER_LEN && forall|i: int|
        0 <= i < s.len() ==> !is_control(#[trigger] s[i])
}

/// Escaped form of one character.
pub open spec fn escape_char(c: char) -> Seq<char> {
    if c == '&' {
        "&amp;"@
    } else if c == '<' {
        "&lt;"@
    } else if c == '>' {
        "&gt;"@
    } else if c == '\'' {
        "&apos;"@
    } else if c == '"' {
        "&quot;"@
    } else {
        seq![c]
    }
}

/// Escaped form of a value, usable both as character data and as a quoted attribute.
pub open spec fn escape(s: Seq<char>) -> Seq<char>
    decreases s.len(),
{
    if s.len() == 0 {
        Seq::empty()
    } else {
        escape(s.drop_last()) + escape_char(s.last())
    }
}

pub proof fn lemma_escape_push(s: Seq<char>, c: char)
    ensures
        escape(s.push(c)) == escape(s) + escape_char(c),
{
    assert(s.push(c).drop_last() =~= s);
}

fn push_escaped_char(out: &mut String, c: char)
    ensures
        final(out)@ == old(out)@ + escape_char(c),
{
    if c == '&' {
        out.append("&amp;");
    } else if c == '<' {
        out.append("&lt;");
    } else if c == '>' {
        out.append("&gt;");
    } else if c == '\'' {
        out.append("&apos;");
    } else if c == '"' {
        out.append("&quot;");
    } else {
        push_char(out, c);
        proof {
            assert(old(out)@.push(c) =~= old(out)@ + seq![c]);
        }
    }
}

/// Appends the escaped form of `s[from..to]`.
pub fn push_escaped(out: &mut String, s: &[char], from: usize, to: usize)
    requires
        from <= to <= s@.len(),
    ensures
        final(out)@ == old(out)@ + escape(s@.subrange(from as int, to as int)),
{
    let mut i = from;
    proof {
        assert(s@.subrange(from as int, from as int) =~= Seq::<char>::empty());
        assert(old(out)@ + escape(Seq::<char>::empty()) =~= old(out)@);
    }
    while i < to
        invariant
            from <= i <= to <= s@.len(),
            out@ == old(out)@ + escape(s@.subrange(from as int, i as int)),
        decreases to - i,
    {
        let ghost before = out@;
        push_escaped_char(out, s[i]);
        proof {
            assert(s@.subrange(from as int, i + 1) =~= s@.subrange(from as int, i as int).push(
                s@[i as int],
            ));
            lemma_escape_push(s@.subrange(from as int, i as int), s@[i as int]);
            assert(out@ =~= old(out)@ + escape(s@.subrange(from as int, i + 1)));
        }
        i = i + 1;
    }
}

pub fn push_escaped_str(out: &mut String, s: &str)
    ensures
        final(out)@ == old(out)@ + escape(s@),
{
    let v = chars_of(s);
    push_escaped(out, v.as_slice(), 0, v.len());
    proof {
        assert(v@.subrange(0, v@.len() as int) =~= v@);
    }
}

pub fn text_ok_chars(s: &[char]) -> (r: bool)
    ensures
        r == text_ok(s@),
{
    if s.len() > MAX_TEXT_LEN {
        return false;
    }
    let mut i: usize = 0;
    while i < s.len()
        invariant
            i <= s@.len(),
            forall|j: int| 0 <= j < i ==> text_char_ok(#[trigger] s@[j]),
        decreases s@.len() - i,
    {
        let c = s[i];
        if '\u{0}' <= c && c < ' ' && c != '\t' && c != '\n' && c != '\r' {
            return false;
        }
        i = i + 1;
    }
    true
}

pub fn identifier_ok_chars(s: &[char]) -> (r: bool)
    ensures
        r == identifier_ok(s@),
{
    if s.len() == 0 || s.len() > MAX_IDENTIFIER_LEN {
        return false;
    }
    let mut i: usize = 0;
    while i < s.len()
        invariant
            i <= s@.len(),
            forall|j: int| 0 <= j < i ==> !is_control(#[trigger] s@[j]),
        decreases s@.len() - i,
    {
        if char_is_control(s[i]) {
            return false;
        }
        i = i + 1;
    }
    true
}

/// Rejects a value that cannot be placed in a generated document.
pub fn validate_text(value: &str, field: &str) -> (r: Result<(), AppError>)
    ensures
        r is Ok <==> text_ok(value@),
        r matches Err(e) ==> (e matches AppError::InvalidConfig(m) && m@ == field@
            + " contains characters that are not allowed"@),
{
    let v = chars_of(value);
    if text_ok_chars(v.as_slice()) {
        Ok(())
    } else {
        let mut m = String::from_str(field);
        m.append(" contains characters that are not allowed");
        Err(AppError::InvalidConfig(m))
    }
}

/// Rejects an empty, overlong or control-character name.
pub fn validate_identifier(value: &str, field: &str) -> (r: Result<(), AppError>)
    ensures
        r is Ok <==> identifier_ok(value@),
        r matches Err(e) ==> e is InvalidConfig,
{
    let v = chars_of(value);
    if identifier_ok_chars(v.as_slice()) {
        Ok(())
    } else {
        let mut m = String::from_str(field);
        m.append(" is not a valid identifier");
        Err(AppError::InvalidConfig(m))
    }
}

/// The escaped form of a value that is valid text.
pub fn escaped_attribute(value: &str, field: &str) -> (r: Result<String, AppError>)
    ensures
        match r {
            Ok(s) => text_ok(value@) && s@ == escape(value@),
            Err(e) => !text_ok(value@) && (e matches AppError::InvalidConfig(m) && m@ == field@
                + " contains characters that are not allowed"@),
        },
{
    validate_text(value, field)?;
    let mut out = String::new();
    push_escaped_str(&mut out, value);
    Ok(out)
}

/// `<name>text</name>` with the text escaped.
pub open spec fn text_element(name: Seq<char>, text: Seq<char>) -> Seq<char> {
    "<"@ + name + ">"@ + escape(text) + "</"@ + name + ">"@
}

pub fn xml_text_element(name: &str, text: &str) -> (r: Result<String, AppError>)
    ensures
        match r {
            Ok(s) => text_ok(text@) && s@ == text_element(name@, text@),
            Err(e) => !text_ok(text@) && e is InvalidConfig,
        },
{
    validate_text(text, name)?;
    let mut out = String::new();
    out.append("<");
    out.append(name);
    out.append(">");
    push_escaped_str(&mut out, text);
    out.append("</");
    out.append(name);
    out.append(">");
    Ok(out)
}

// ---------------------------------------------------------------------------
// Tag scanning
// ---------------------------------------------------------------------------

pub open spec fn tag_delim(c: char) -> bool {
    xml_ws(c) || c == '>' || c == '/'
}

/// A start (or empty-element) tag named `name` begins at `i`.
pub open spec fn start_tag_at(s: Seq<char>, name: Seq<char>, i: int) -> bool {
    &&& 0 <= i
    &&& i + name.len() + 1 < s.len()
    &&& s[i] == '<'
    &&& s.subrange(i + 1, i + 1 + name.len()) == name
    &&& tag_delim(s[i + 1 + name.len()])
}

/// First start tag named `name` at or after `from`.
pub open spec fn find_tag_from(s: Seq<char>, name: Seq<char>, from: int) -> Option<int>
    decreases s.len() + 1 - from,
{
    if from < 0 || from >= s.len() {
        None
    } else if start_tag_at(s, name, from) {
        Some(from)
    } else {
        find_tag_from(s, name, from + 1)
    }
}

/// Number of start tags named `name` at or after `from`.
pub open spec fn count_tags_from(s: Seq<char>, name: Seq<char>, from: int) -> nat
    decreases s.len() + 1 - from,
{
    if from < 0 || from >= s.len() {
        0
    } else {
        (if start_tag_at(s, name, from) {
            1nat
        } else {
            0nat
        }) + count_tags_from(s, name, from + 1)
    }
}

pub fn start_tag_at_exec(s: &[char], name: &[char], i: usize) -> (r: bool)
    ensures
        r == start_tag_at(s@, name@, i as int),
{
    if i >= s.len() || name.len() >= s.len() - i - 1 {
        return false;
    }
    if s[i] != '<' {
        return false;
    }
    if !matches_at(s, name, i + 1) {
        return false;
    }
    let c = s[i + 1 + name.len()];
    c == ' ' || c == '\t' || c == '\n' || c == '\r' || c == '>' || c == '/'
}

pub fn find_tag_from_exec(s: &[char], name: &[char], from: usize) -> (r: Option<usize>)
    ensures
        opt_int(r) == find_tag_from(s@, name@, from as int),
        r matches Some(i) ==> start_tag_at(s@, name@, i as int) && from <= i,
{
    let mut i = from;
    while i < s.len()
        invariant
            from <= i,
            find_tag_from(s@, name@, from as int) == find_tag_from(s@, name@, i as int),
        decreases s@.len() - i,
    {
        if start_tag_at_exec(s, name, i) {
            return Some(i);
        }
        i = i + 1;
    }
    None
}

pub fn count_tags_exec(s: &[char], name: &[char]) -> (r: usize)
    ensures
        r == count_tags_from(s@, name@, 0),
{
    let len = s.len();
    let mut i: usize = len;
    let mut n: usize = 0;
    while i > 0
        invariant
            len == s@.len(),
            i <= s@.len(),
            n == count_tags_from(s@, name@, i as int),
            n <= s@.len() - i,
        decreases i,
    {
        i = i - 1;
        if start_tag_at_exec(s, name, i) {
            n = n + 1;
        }
    }
    n
}

pub open spec fn skip_xml_ws(s: Seq<char>, i: int) -> int
    decreases s.len() - i,
{
    if 0 <= i < s.len() && xml_ws(s[i]) {
        skip_xml_ws(s, i + 1)
    } else {
        i
    }
}

/// Position of the first markup after an optional `<?...?>` declaration.
pub open spec fn prolog_end(s: Seq<char>) -> int {
    let a = skip_xml_ws(s, 0);
    if occurs_at(s, "<?"@, a) {
        match find_from(s, "?>"@, a + 2) {
            Some(e) => skip_xml_ws(s, e + 2),
            None => a,
        }
    } else {
        a
    }
}

/// The document element of `s` is named `root`.
pub open spec fn root_ok(s: Seq<char>, root: Seq<char>) -> bool {
    start_tag_at(s, root, prolog_end(s))
}

fn skip_xml_ws_exec(s: &[char], i: usize) -> (r: usize)
    requires
        i <= s@.len(),
    ensures
        r == skip_xml_ws(s@, i as int),
        i <= r <= s@.len(),
{
    let mut k = i;
    while k < s.len() && (s[k] == ' ' || s[k] == '\t' || s[k] == '\n' || s[k] == '\r')
        invariant
            i <= k <= s@.len(),
            skip_xml_ws(s@, i as int) == skip_xml_ws(s@, k as int),
        decreases s@.len() - k,
    {
        k = k + 1;
    }
    k
}

fn prolog_end_exec(s: &[char]) -> (r: usize)
    ensures
        r == prolog_end(s@),
{
    let len = s.len();
    let a = skip_xml_ws_exec(s, 0);
    let open = chars_of("<?");
    let close = chars_of("?>");
    proof {
        reveal_strlit("<?");
        reveal_strlit("?>");
    }
    if matches_at(s, open.as_slice(), a) {
        match find_from_at(s, close.as_slice(), a + 2) {
            Some(e) => skip_xml_ws_exec(s, e + 2),
            None => a,
        }
    } else {
        a
    }
}

pub fn root_ok_exec(s: &[char], root: &str) -> (r: bool)
    ensures
        r == root_ok(s@, root@),
{
    let rv = chars_of(root);
    let p = prolog_end_exec(s);
    start_tag_at_exec(s, rv.as_slice(), p)
}

/// A document that opens with `<root` and a tag delimiter has `root` as its document
/// element.
pub proof fn lemma_root_ok_opening(s: Seq<char>, root: Seq<char>)
    requires
        0 < root.len(),
        root[0] != '?',
        root.len() + 1 < s.len(),
        s[0] == '<',
        s.subrange(1, 1 + root.len() as int) == root,
        tag_delim(s[1 + root.len() as int]),
    ensures
        root_ok(s, root),
{
    reveal_strlit("<?");
    assert(skip_xml_ws(s, 0) == 0);
    assert(s[1] == s.subrange(1, 1 + root.len() as int)[0]);
    if occurs_at(s, "<?"@, 0) {
        assert(s.subrange(0, 2)[1] == s[1]);
    }
}

/// A valid identifier is valid text.
pub proof fn lemma_identifier_is_text(s: Seq<char>)
    requires
        identifier_ok(s),
    ensures
        text_ok(s),
{
    assert forall|i: int| 0 <= i < s.len() implies text_char_ok(#[trigger] s[i]) by {
        assert(!is_control(s[i]));
    }
}

/// Rejects a document whose top-level element is not `root`.
pub fn validate_document_root(xml: &str, root: &str) -> (r: Result<(), AppError>)
    ensures
        r is Ok <==> root_ok(xml@, root@),
        r matches Err(e) ==> e is InvalidConfig,
{
    let v = chars_of(xml);
    if root_ok_exec(v.as_slice(), root) {
        Ok(())
    } else {
        let mut m = String::from_str("Document root must be ");
        m.append(root);
        Err(AppError::InvalidConfig(m))
    }
}

/// An attribute `attr` begins at `j`: preceded by whitespace, followed by `=` and a quote,
/// and its opening quote lies before `hi`.
pub open spec fn attr_at(s: Seq<char>, attr: Seq<char>, j: int, hi: int) -> bool {
    &&& 1 <= j
    &&& j + attr.len() + 2 <= hi <= s.len()
    &&& xml_ws(s[j - 1])
    &&& s.subrange(j, j + attr.len()) == attr
    &&& s[j + attr.len()] == '='
    &&& (s[j + attr.len() + 1] == '\'' || s[j + attr.len() + 1] == '"')
}

pub open spec fn find_attr_from(s: Seq<char>, attr: Seq<char>, j: int, hi: int) -> Option<int>
    decreases hi - j,
{
    if j < 0 || j >= hi {
        None
    } else if attr_at(s, attr, j, hi) {
        Some(j)
    } else {
        find_attr_from(s, attr, j + 1, hi)
    }
}

/// Value of the attribute that starts at `j`: the text up to the matching quote.
pub open spec fn attr_value_at(s: Seq<char>, attr: Seq<char>, j: int) -> Option<Seq<char>> {
    let v0 = j + attr.len() + 2;
    let q = s[j + attr.len() + 1];
    match find_from(s, seq![q], v0) {
        Some(v1) => Some(s.subrange(v0, v1)),
        None => None,
    }
}

/// End of the tag that starts at `i`: the first `>` after it.
pub open spec fn tag_end(s: Seq<char>, i: int) -> Option<int> {
    find_from(s, ">"@, i)
}

/// Value of attribute `attr` on the first `element` tag, once the root is checked.
pub open spec fn element_attribute(s: Seq<char>, element: Seq<char>, attr: Seq<char>) -> Option<
    Seq<char>,
> {
    match find_tag_from(s, element, 0) {
        None => None,
        Some(i) => match tag_end(s, i) {
            None => None,
            Some(e) => match find_attr_from(s, attr, i + 1 + element.len(), e) {
                None => None,
                Some(j) => attr_value_at(s, attr, j),
            },
        },
    }
}

/// Character data of the first `element`: empty for an empty-element tag.
pub open spec fn element_text(s: Seq<char>, element: Seq<char>) -> Option<Seq<char>> {
    match find_tag_from(s, element, 0) {
        None => None,
        Some(i) => match tag_end(s, i) {
            None => None,
            Some(e) => if s[e - 1] == '/' {
                Some(Seq::empty())
            } else {
                match find_from(s, "</"@ + element + ">"@, e + 1) {
                    Some(c) => Some(s.subrange(e + 1, c)),
                    None => None,
                }
            },
        },
    }
}

fn attr_at_exec(s: &[char], attr: &[char], j: usize, hi: usize) -> (r: bool)
    requires
        hi <= s@.len(),
    ensures
        r == attr_at(s@, attr@, j as int, hi as int),
{
    if j < 1 || j > hi || attr.len() > hi - j || hi - j - attr.len() < 2 {
        return false;
    }
    let w = s[j - 1];
    if !(w == ' ' || w == '\t' || w == '\n' || w == '\r') {
        return false;
    }
    if !matches_at(s, attr, j) {
        return false;
    }
    if s[j + attr.len()] != '=' {
        return false;
    }
    let q = s[j + attr.len() + 1];
    q == '\'' || q == '"'
}

fn find_attr_exec(s: &[char], attr: &[char], from: usize, hi: usize) -> (r: Option<usize>)
    requires
        hi <= s@.len(),
    ensures
        opt_int(r) == find_attr_from(s@, attr@, from as int, hi as int),
        r matches Some(j) ==> attr_at(s@, attr@, j as int, hi as int),
{
    let mut j = from;
    while j < hi
        invariant
            from <= j,
            hi <= s@.len(),
            find_attr_from(s@, attr@, from as int, hi as int) == find_attr_from(
                s@,
                attr@,
                j as int,
                hi as int,
            ),
        decreases hi - j,
    {
        if attr_at_exec(s, attr, j, hi) {
            return Some(j);
        }
        j = j + 1;
    }
    None
}

/// Value of attribute `attr` on the first `element` of `s`, without the root check.
pub fn element_attribute_exec(s: &[char], element: &str, attr: &str) -> (r: Option<String>)
    ensures
        match r {
            Some(v) => element_attribute(s@, element@, attr@) == Some(v@),
            None => element_attribute(s@, element@, attr@) is None,
        },
{
    let len = s.len();
    let ev = chars_of(element);
    let av = chars_of(attr);
    let i = match find_tag_from_exec(s, ev.as_slice(), 0) {
        Some(i) => i,
        None => return None,
    };
    let e = match find_str_from(s, ">", i) {
        Some(e) => e,
        None => return None,
    };
    let j = match find_attr_exec(s, av.as_slice(), i + 1 + ev.len(), e) {
        Some(j) => j,
        None => return None,
    };
    let q = s[j + av.len() + 1];
    let mut qv: Vec<char> = Vec::new();
    qv.push(q);
    proof {
        assert(qv@ =~= seq![q]);
    }
    match find_from_at(s, qv.as_slice(), j + av.len() + 2) {
        Some(v1) => Some(string_of(s, j + av.len() + 2, v1)),
        None => None,
    }
}

/// Character data of the first `element` of `s`, without the root check.
pub fn element_text_exec(s: &[char], element: &str) -> (r: Option<String>)
    ensures
        match r {
            Some(v) => element_text(s@, element@) == Some(v@),
            None => element_text(s@, element@) is None,
        },
{
    let len = s.len();
    let ev = chars_of(element);
    let i = match find_tag_from_exec(s, ev.as_slice(), 0) {
        Some(i) => i,
        None => return None,
    };
    let e = match find_str_from(s, ">", i) {
        Some(e) => e,
        None => return None,
    };
    proof {
        reveal_strlit(">");
        assert(start_tag_at(s@, element@, i as int));
        crate::text::lemma_find_from_props(s@, ">"@, i as int);
        if e == i {
            assert(s@.subrange(i as int, i + 1)[0] == ">"@[0]);
        }
        assert(e >= i + 1);
    }
    if s[e - 1] == '/' {
        return Some(String::new());
    }
    let mut close = String::new();
    close.append("</");
    close.append(element);
    close.append(">");
    let cv = chars_of(close.as_str());
    match find_from_at(s, cv.as_slice(), e + 1) {
        Some(c) => Some(string_of(s, e + 1, c)),
        None => None,
    }
}

/// Attribute `attr` of the first `element` of a document whose root is `root`.
pub fn first_element_attribute(xml: &str, root: &str, element: &str, attr: &str) -> (r: Result<
    Option<String>,
    AppError,
>)
    ensures
        match r {
            Ok(Some(v)) => root_ok(xml@, root@) && element_attribute(xml@, element@, attr@) == Some(
                v@,
            ),
            Ok(None) => root_ok(xml@, root@) && element_attribute(xml@, element@, attr@) is None,
            Err(e) => !root_ok(xml@, root@) && e is InvalidConfig,
        },
{
    let v = chars_of(xml);
    if !root_ok_exec(v.as_slice(), root) {
        return Err(AppError::invalid("Document root is not the expected element"));
    }
    Ok(element_attribute_exec(v.as_slice(), element, attr))
}

/// Character data of the first `element` of a document whose root is `root`.
pub fn first_element_text(xml: &str, root: &str, element: &str) -> (r: Result<
    Option<String>,
    AppError,
>)
    ensures
        match r {
            Ok(Some(v)) => root_ok(xml@, root@) && element_text(xml@, element@) == Some(v@),
            Ok(None) => root_ok(xml@, root@) && element_text(xml@, element@) is None,
            Err(e) => !root_ok(xml@, root@) && e is InvalidConfig,
        },
{
    let v = chars_of(xml);
    if !root_ok_exec(v.as_slice(), root) {
        return Err(AppError::invalid("Document root is not the expected element"));
    }
    Ok(element_text_exec(v.as_slice(), element))
}

/// Number of `element` tags of a document whose root is `root`.
pub fn count_elements(xml: &str, root: &str, element: &str) -> (r: Result<usize, AppError>)
    ensures
        match r {
            Ok(n) => root_ok(xml@, root@) && n == count_tags_from(xml@, element@, 0),
            Err(e) => !root_ok(xml@, root@) && e is InvalidConfig,
        },
{
    let v = chars_of(xml);
    if !root_ok_exec(v.as_slice(), root) {
        return Err(AppError::invalid("Document root is not the expected element"));
    }
    let ev = chars_of(element);
    Ok(count_tags_exec(v.as_slice(), ev.as_slice()))
}

} // verus!
