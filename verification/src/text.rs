//! Names as text: lower case, parts, prefixes and joins.
use vstd::prelude::*;
use vstd::string::*;

verus! {

/// A text with every letter in lower case, as the Unicode tables of the standard
/// library give it.
pub uninterp spec fn lowercase(text: Seq<char>) -> Seq<char>;

/// `str::to_lowercase` of the standard library. The result is named and not spelled
/// out: it is a function of the text alone, by the Unicode tables.
#[verifier::external_body]
pub(crate) fn to_lowercase(text: &str) -> (r: String)
    ensures
        r@ == lowercase(text@),
{
    text.to_lowercase()
}

/// `part` occurs somewhere in `text`.
pub open spec fn has_part(text: Seq<char>, part: Seq<char>) -> bool {
    exists|i: int| #[trigger] occurs_at(text, part, i)
}

/// `part` occurs in `text` at position `i`.
pub open spec fn occurs_at(text: Seq<char>, part: Seq<char>, i: int) -> bool {
    0 <= i <= text.len() - part.len() && text.subrange(i, i + part.len()) == part
}

fn to_chars(text: &str) -> (r: Vec<char>)
    ensures
        r@ == text@,
{
    let mut chars: Vec<char> = Vec::new();
    let n: usize = text.unicode_len();
    for i in 0..n
        invariant
            n == text@.len(),
            chars@ == text@.take(i as int),
    {
        chars.push(text.get_char(i));
        assert(chars@ =~= text@.take(i + 1));
    }
    assert(chars@ =~= text@);
    chars
}

fn matches_at(text: &Vec<char>, part: &Vec<char>, i: usize) -> (r: bool)
    requires
        i + part@.len() <= text@.len(),
    ensures
        r == occurs_at(text@, part@, i as int),
{
    let ghost window = text@.subrange(i as int, i + part@.len());
    let n: usize = text.len();
    for k in 0..part.len()
        invariant
            n == text@.len(),
            i + part@.len() <= text@.len(),
            window == text@.subrange(i as int, i + part@.len()),
            forall|j: int| 0 <= j < k ==> window[j] == part@[j],
    {
        if text[i + k] != part[k] {
            assert(window[k as int] != part@[k as int]);
            return false;
        }
    }
    assert(window =~= part@);
    true
}

/// Whether `part` occurs in `text`.
pub fn contains(text: &str, part: &str) -> (r: bool)
    ensures
        r == has_part(text@, part@),
{
    let t = to_chars(text);
    let p = to_chars(part);
    if p.len() > t.len() {
        return false;
    }
    let last: usize = t.len() - p.len();
    let mut i: usize = 0;
    while i <= last
        invariant
            t@ == text@,
            p@ == part@,
            p@.len() <= t@.len(),
            last == t@.len() - p@.len(),
            i <= last + 1,
            forall|j: int| 0 <= j < i ==> !occurs_at(text@, part@, j),
        decreases last + 1 - i,
    {
        if matches_at(&t, &p, i) {
            return true;
        }
        if i == last {
            return false;
        }
        i = i + 1;
    }
    false
}

/// Whether `text` begins with `part`.
pub fn starts_with(text: &str, part: &str) -> (r: bool)
    ensures
        r == occurs_at(text@, part@, 0),
{
    let t = to_chars(text);
    let p = to_chars(part);
    p.len() <= t.len() && matches_at(&t, &p, 0)
}

/// `text` ends with `part`.
pub open spec fn ends_with(text: Seq<char>, part: Seq<char>) -> bool {
    occurs_at(text, part, text.len() - part.len())
}

/// What is before `part` in a text that ends with it.
pub fn strip_suffix(text: &str, part: &str) -> (r: Option<String>)
    ensures
        match r {
            Some(rest) => ends_with(text@, part@) && rest@ == text@.take(
                text@.len() - part@.len(),
            ),
            None => !ends_with(text@, part@),
        },
{
    let t = to_chars(text);
    let p = to_chars(part);
    if p.len() > t.len() {
        return None;
    }
    let at: usize = t.len() - p.len();
    if matches_at(&t, &p, at) {
        let rest = text.substring_char(0, at).to_owned();
        assert(rest@ =~= text@.take(at as int));
        Some(rest)
    } else {
        None
    }
}

/// What is put before a suffix comes back when the suffix is taken off.
pub proof fn suffix_comes_off(text: Seq<char>, part: Seq<char>)
    ensures
        ends_with(text + part, part),
        (text + part).take((text + part).len() - part.len()) == text,
{
    assert((text + part).subrange(text.len() as int, (text + part).len() as int) =~= part);
    assert((text + part).take(text.len() as int) =~= text);
}

/// Whether two texts are the same.
pub fn same_text(a: &str, b: &str) -> (r: bool)
    ensures
        r == (a@ == b@),
{
    let x = a.to_owned();
    let y = b.to_owned();
    x == y
}

/// `a` followed by `b`.
pub fn join(a: &str, b: &str) -> (r: String)
    ensures
        r@ == a@ + b@,
{
    a.to_owned().concat(b)
}

/// Some name in the list is `name`.
pub open spec fn listed(names: Seq<String>, name: Seq<char>) -> bool {
    exists|i: int| 0 <= i < names.len() && (#[trigger] names[i])@ == name
}

/// Whether a name is in a list.
pub fn is_listed(names: &Vec<String>, name: &str) -> (r: bool)
    ensures
        r == listed(names@, name@),
{
    let wanted = name.to_owned();
    for i in 0..names.len()
        invariant
            wanted@ == name@,
            forall|k: int| 0 <= k < i ==> (#[trigger] names@[k])@ != name@,
    {
        if names[i] == wanted {
            assert(names@[i as int]@ == name@);
            return true;
        }
    }
    false
}

} // verus!
