//! The string utilities the engine's standard library exposes.  Each
//! function receives the structured argument value of a synchronous call
//! adapter — a dictionary of named attributes — and yields a tagged value
//! or a typed operational error.  Text positions and lengths count
//! characters.  Case conversion is the one outside call here, behind
//! trusted wrappers whose results are named.

use vstd::prelude::*;
use vstd::string::StringExecFns;
use vstd::string::StrSliceExecFns;

use crate::errors::BridgeError;
use crate::ops::attr_find_text;
use crate::ops::attr_lookup;
use crate::ops::lemma_attr_find_text;
use crate::search::chars_contain;
use crate::search::chars_end_with;
use crate::search::chars_start_with;
use crate::search::find_chars;
use crate::search::has_slice;
use crate::search::slice_matches_at;
use crate::value::TaggedValue;

verus! {

/// The uppercase conversion of a text, by the host language's case mapping:
/// a function of the characters alone, named here and computed outside.
pub uninterp spec fn upper_of(s: Seq<char>) -> Seq<char>;

/// The lowercase conversion of a text, by the host language's case mapping.
pub uninterp spec fn lower_of(s: Seq<char>) -> Seq<char>;

/// Relies on `str::to_uppercase`: the result depends on the characters
/// alone, and an empty text stays empty.
#[verifier::external_body]
fn to_upper(s: &str) -> (r: String)
    ensures
        r@ == upper_of(s@),
        s@.len() == 0 ==> r@.len() == 0,
{
    s.to_uppercase()
}

/// Relies on `str::to_lowercase`: the result depends on the characters
/// alone, and an empty text stays empty.
#[verifier::external_body]
fn to_lower(s: &str) -> (r: String)
    ensures
        r@ == lower_of(s@),
        s@.len() == 0 ==> r@.len() == 0,
{
    s.to_lowercase()
}

/// Reads a text attribute out of a stdlib argument dictionary, or reports
/// the typed error carrying the given text.
pub fn text_attribute(argument: &TaggedValue, key: &str, bad: &str) -> (r: Result<
    String,
    BridgeError,
>)
    ensures
        match attr_find_text(*argument, key@) {
            Option::Some(v) => match v {
                TaggedValue::Text(s) => r matches Ok(out) && out@ == s@,
                _ => r matches Err(e) && e matches BridgeError::InvalidOperation(m) && m@
                    == bad@,
            },
            Option::None => r matches Err(e) && e matches BridgeError::InvalidOperation(m) && m@
                == "Attribute not found"@,
        },
{
    let key_value = TaggedValue::Text(key.to_string());
    proof {
        lemma_attr_find_text(*argument, key_value->Text_0);
    }
    match attr_lookup(argument, &key_value) {
        Ok(v) => match v {
            TaggedValue::Text(s) => Ok(s),
            _ => Err(BridgeError::InvalidOperation(bad.to_string())),
        },
        Err(e) => Err(e),
    }
}

/// Reads an integer attribute out of a stdlib argument dictionary, or
/// reports the typed error carrying the given text.
pub fn int_attribute(argument: &TaggedValue, key: &str, bad: &str) -> (r: Result<
    i64,
    BridgeError,
>)
    ensures
        match attr_find_text(*argument, key@) {
            Option::Some(v) => match v {
                TaggedValue::Integer(i) => r == Ok::<i64, BridgeError>(i),
                _ => r matches Err(e) && e matches BridgeError::InvalidOperation(m) && m@
                    == bad@,
            },
            Option::None => r matches Err(e) && e matches BridgeError::InvalidOperation(m) && m@
                == "Attribute not found"@,
        },
{
    let key_value = TaggedValue::Text(key.to_string());
    proof {
        lemma_attr_find_text(*argument, key_value->Text_0);
    }
    match attr_lookup(argument, &key_value) {
        Ok(v) => match v {
            TaggedValue::Integer(i) => Ok(i),
            _ => Err(BridgeError::InvalidOperation(bad.to_string())),
        },
        Err(e) => Err(e),
    }
}

/// The byte length of the `string` attribute, as an engine integer.
pub fn length(argument: &TaggedValue) -> (r: Result<TaggedValue, BridgeError>)
    ensures
        match attr_find_text(*argument, "string"@) {
            Option::Some(v) => match v {
                TaggedValue::Text(s) => {
                    let n = (vstd::utf8::encode_utf8(s@).len() as usize) as int;
                    if n <= i64::MAX {
                        r matches Ok(out) && out == TaggedValue::Integer(n as i64)
                    } else {
                        r matches Err(e) && e matches BridgeError::InvalidOperation(m) && m@
                            == "Length exceeds the engine integer range"@
                    }
                },
                _ => r matches Err(e) && e matches BridgeError::InvalidOperation(m) && m@
                    == "length requires string"@,
            },
            Option::None => r matches Err(e) && e is InvalidOperation,
        },
{
    let s = text_attribute(argument, "string", "length requires string")?;
    let n = s.as_str().len();
    if (n as u64) <= 9223372036854775807u64 {
        Ok(TaggedValue::Integer(n as i64))
    } else {
        Err(BridgeError::InvalidOperation(
            String::from_str("Length exceeds the engine integer range"),
        ))
    }
}

/// Whether the `string` attribute is the empty text.
pub fn is_empty(argument: &TaggedValue) -> (r: Result<TaggedValue, BridgeError>)
    ensures
        match attr_find_text(*argument, "string"@) {
            Option::Some(v) => match v {
                TaggedValue::Text(s) => r == Ok::<TaggedValue, BridgeError>(
                    TaggedValue::Boolean(s@.len() == 0),
                ),
                _ => r matches Err(e) && e matches BridgeError::InvalidOperation(m) && m@
                    == "is_empty requires string"@,
            },
            Option::None => r matches Err(e) && e is InvalidOperation,
        },
{
    let s = text_attribute(argument, "string", "is_empty requires string")?;
    Ok(TaggedValue::Boolean(s.as_str().unicode_len() == 0))
}

/// The `string` attribute in the host language's uppercase.
pub fn uppercase(argument: &TaggedValue) -> (r: Result<TaggedValue, BridgeError>)
    ensures
        match attr_find_text(*argument, "string"@) {
            Option::Some(v) => match v {
                TaggedValue::Text(s) => r matches Ok(out) && out matches TaggedValue::Text(t)
                    && t@ == upper_of(s@),
                _ => r matches Err(e) && e matches BridgeError::InvalidOperation(m) && m@
                    == "uppercase requires string"@,
            },
            Option::None => r matches Err(e) && e is InvalidOperation,
        },
{
    let s = text_attribute(argument, "string", "uppercase requires string")?;
    Ok(TaggedValue::Text(to_upper(s.as_str())))
}

/// The `string` attribute in the host language's lowercase.
pub fn lowercase(argument: &TaggedValue) -> (r: Result<TaggedValue, BridgeError>)
    ensures
        match attr_find_text(*argument, "string"@) {
            Option::Some(v) => match v {
                TaggedValue::Text(s) => r matches Ok(out) && out matches TaggedValue::Text(t)
                    && t@ == lower_of(s@),
                _ => r matches Err(e) && e matches BridgeError::InvalidOperation(m) && m@
                    == "lowercase requires string"@,
            },
            Option::None => r matches Err(e) && e is InvalidOperation,
        },
{
    let s = text_attribute(argument, "string", "lowercase requires string")?;
    Ok(TaggedValue::Text(to_lower(s.as_str())))
}

/// Whether the `substring` attribute occurs inside the `string` attribute.
pub fn contains(argument: &TaggedValue) -> (r: Result<TaggedValue, BridgeError>)
    ensures
        match (attr_find_text(*argument, "string"@), attr_find_text(*argument, "substring"@)) {
            (Option::Some(TaggedValue::Text(s)), Option::Some(TaggedValue::Text(sub))) => r
                == Ok::<TaggedValue, BridgeError>(TaggedValue::Boolean(has_slice(s@, sub@))),
            _ => r is Err,
        },
{
    let s = text_attribute(argument, "string", "contains requires string arguments")?;
    let sub = text_attribute(argument, "substring", "contains requires string arguments")?;
    Ok(TaggedValue::Boolean(chars_contain(s.as_str(), sub.as_str())))
}

/// The concatenation of the `a` and `b` text attributes.
pub fn concat(argument: &TaggedValue) -> (r: Result<TaggedValue, BridgeError>)
    ensures
        match (attr_find_text(*argument, "a"@), attr_find_text(*argument, "b"@)) {
            (Option::Some(TaggedValue::Text(a)), Option::Some(TaggedValue::Text(b))) => r
                matches Ok(out) && out matches TaggedValue::Text(t) && t@ == a@ + b@,
            _ => r is Err,
        },
{
    let a = text_attribute(argument, "a", "concat requires string arguments")?;
    let b = text_attribute(argument, "b", "concat requires string arguments")?;
    Ok(TaggedValue::Text(a.concat(b.as_str())))
}

/// The character position of the first occurrence of the `substring`
/// attribute inside the `string` attribute, or minus one when it does not
/// occur.
pub fn index_of(argument: &TaggedValue) -> (r: Result<TaggedValue, BridgeError>)
    ensures
        match (attr_find_text(*argument, "string"@), attr_find_text(*argument, "substring"@)) {
            (Option::Some(TaggedValue::Text(s)), Option::Some(TaggedValue::Text(sub))) => {
                if has_slice(s@, sub@) {
                    match r {
                        Ok(out) => out matches TaggedValue::Integer(n) && 0 <= n
                            && slice_matches_at(s@, sub@, n as int) && forall|j: int|
                            0 <= j < n ==> !slice_matches_at(s@, sub@, j),
                        Err(e) => e matches BridgeError::InvalidOperation(m) && m@
                            == "Index exceeds the engine integer range"@ && forall|j: int|
                            0 <= j <= i64::MAX ==> !slice_matches_at(s@, sub@, j),
                    }
                } else {
                    r matches Ok(out) && out == TaggedValue::Integer(-1i64)
                }
            },
            _ => r is Err,
        },
{
    let s = text_attribute(argument, "string", "index_of requires string arguments")?;
    let sub = text_attribute(argument, "substring", "index_of requires string arguments")?;
    match find_chars(s.as_str(), sub.as_str()) {
        Option::Some(i) => {
            if (i as u64) <= 9223372036854775807u64 {
                Ok(TaggedValue::Integer(i as i64))
            } else {
                Err(BridgeError::InvalidOperation(
                    String::from_str("Index exceeds the engine integer range"),
                ))
            }
        },
        Option::None => Ok(TaggedValue::Integer(-1)),
    }
}

/// Whether the `string` attribute starts with the `prefix` attribute.
pub fn starts_with(argument: &TaggedValue) -> (r: Result<TaggedValue, BridgeError>)
    ensures
        match (attr_find_text(*argument, "string"@), attr_find_text(*argument, "prefix"@)) {
            (Option::Some(TaggedValue::Text(s)), Option::Some(TaggedValue::Text(p))) => r
                == Ok::<TaggedValue, BridgeError>(
                TaggedValue::Boolean(
                    p@.len() <= s@.len() && s@.subrange(0, p@.len() as int) == p@,
                ),
            ),
            _ => r is Err,
        },
{
    let s = text_attribute(argument, "string", "starts_with requires string arguments")?;
    let p = text_attribute(argument, "prefix", "starts_with requires string arguments")?;
    Ok(TaggedValue::Boolean(chars_start_with(s.as_str(), p.as_str())))
}

/// Whether the `string` attribute ends with the `suffix` attribute.
pub fn ends_with(argument: &TaggedValue) -> (r: Result<TaggedValue, BridgeError>)
    ensures
        match (attr_find_text(*argument, "string"@), attr_find_text(*argument, "suffix"@)) {
            (Option::Some(TaggedValue::Text(s)), Option::Some(TaggedValue::Text(p))) => r
                == Ok::<TaggedValue, BridgeError>(
                TaggedValue::Boolean(
                    p@.len() <= s@.len() && s@.subrange(
                        s@.len() - p@.len(),
                        s@.len() as int,
                    ) == p@,
                ),
            ),
            _ => r is Err,
        },
{
    let s = text_attribute(argument, "string", "ends_with requires string arguments")?;
    let p = text_attribute(argument, "suffix", "ends_with requires string arguments")?;
    Ok(TaggedValue::Boolean(chars_end_with(s.as_str(), p.as_str())))
}

/// The characters of the `string` attribute in reverse order.
pub fn reverse(argument: &TaggedValue) -> (r: Result<TaggedValue, BridgeError>)
    ensures
        match attr_find_text(*argument, "string"@) {
            Option::Some(v) => match v {
                TaggedValue::Text(s) => r matches Ok(out) && out matches TaggedValue::Text(t) && {
                    &&& t@.len() == s@.len()
                    &&& forall|i: int| 0 <= i < s@.len() ==> t@[i] == s@[s@.len() - 1 - i]
                },
                _ => r matches Err(e) && e matches BridgeError::InvalidOperation(m) && m@
                    == "reverse requires string"@,
            },
            Option::None => r matches Err(e) && e is InvalidOperation,
        },
{
    let s = text_attribute(argument, "string", "reverse requires string")?;
    let n = s.as_str().unicode_len();
    let mut out = String::new();
    let mut k: usize = 0;
    while k < n
        invariant
            n == s@.len(),
            k <= n,
            out@.len() == k,
            forall|i: int| 0 <= i < k ==> out@[i] == s@[n - 1 - i],
        decreases n - k,
    {
        let piece = s.as_str().substring_char(n - 1 - k, n - k);
        out.append(piece);
        proof {
            assert(piece@ =~= s@.subrange(n - 1 - k, n - k as int));
            assert(piece@.len() == 1);
            assert(out@[k as int] == s@[n - 1 - k]);
        }
        k = k + 1;
    }
    Ok(TaggedValue::Text(out))
}

/// The `string` attribute repeated `count` times; a negative count is
/// rejected.
pub fn repeat(argument: &TaggedValue) -> (r: Result<TaggedValue, BridgeError>)
    ensures
        match (attr_find_text(*argument, "string"@), attr_find_text(*argument, "count"@)) {
            (Option::Some(TaggedValue::Text(s)), Option::Some(TaggedValue::Integer(n))) => {
                if n < 0 {
                    r matches Err(e) && e matches BridgeError::InvalidOperation(m) && m@
                        == "repeat count cannot be negative"@
                } else {
                    r matches Ok(out) && out matches TaggedValue::Text(t) && {
                        &&& t@.len() == n * s@.len()
                        &&& forall|i: int|
                            0 <= i < t@.len() ==> t@[i] == s@[i % (s@.len() as int)]
                    }
                }
            },
            _ => r is Err,
        },
{
    let s = text_attribute(argument, "string", "repeat requires string and integer arguments")?;
    let n = int_attribute(argument, "count", "repeat requires string and integer arguments")?;
    if n < 0 {
        return Err(BridgeError::InvalidOperation(
            String::from_str("repeat count cannot be negative"),
        ));
    }
    let slen = s.as_str().unicode_len();
    if slen == 0 {
        proof {
            assert(n * s@.len() == 0) by (nonlinear_arith)
                requires
                    s@.len() == 0,
            ;
        }
        return Ok(TaggedValue::Text(String::new()));
    }
    let mut out = String::new();
    let mut k: u64 = 0;
    while k < n as u64
        invariant
            slen == s@.len(),
            s@.len() > 0,
            n >= 0,
            k <= n as u64,
            out@.len() == k * s@.len(),
            forall|i: int| 0 <= i < out@.len() ==> out@[i] == s@[i % (s@.len() as int)],
        decreases n as u64 - k,
    {
        let ghost before = out@;
        out.append(s.as_str());
        proof {
            assert((k + 1) * s@.len() == k * s@.len() + s@.len()) by (nonlinear_arith);
            assert forall|i: int| 0 <= i < out@.len() implies out@[i] == s@[i % (
            s@.len() as int)] by {
                if i < before.len() {
                    assert(out@[i] == before[i]);
                } else {
                    let j = i - before.len();
                    assert(out@[i] == s@[j]);
                    assert(i == (k as int) * (s@.len() as int) + j);
                    assert(i % (s@.len() as int) == j) by (nonlinear_arith)
                        requires
                            0 <= j < s@.len() as int,
                            i == (k as int) * (s@.len() as int) + j,
                    ;
                }
            }
        }
        k = k + 1;
    }
    proof {
        assert(out@.len() == n * s@.len());
    }
    Ok(TaggedValue::Text(out))
}

} // verus!

verus! {

/// The whitespace characters this library trims: the host language's ASCII
/// whitespace set.
pub open spec fn is_space(c: char) -> bool {
    c == ' ' || c == '\t' || c == '\n' || c == '\r' || c == '\u{b}' || c == '\u{c}'
}

/// A text with its leading whitespace removed.
pub open spec fn trim_front(s: Seq<char>) -> Seq<char>
    decreases s.len(),
{
    if s.len() > 0 && is_space(s[0]) {
        trim_front(s.skip(1))
    } else {
        s
    }
}

/// A text with its trailing whitespace removed.
pub open spec fn trim_back(s: Seq<char>) -> Seq<char>
    decreases s.len(),
{
    if s.len() > 0 && is_space(s.last()) {
        trim_back(s.drop_last())
    } else {
        s
    }
}

/// A text with leading and trailing whitespace removed.
pub open spec fn trimmed(s: Seq<char>) -> Seq<char> {
    trim_back(trim_front(s))
}

fn is_space_char(c: char) -> (r: bool)
    ensures
        r == is_space(c),
{
    c == ' ' || c == '\t' || c == '\n' || c == '\r' || c == '\u{b}' || c == '\u{c}'
}

/// Removes leading and trailing whitespace from a text.
pub fn trim_text(s: &str) -> (r: String)
    ensures
        r@ == trimmed(s@),
{
    let n = s.unicode_len();
    let mut a: usize = 0;
    proof {
        assert(s@.skip(0) =~= s@);
    }
    while a < n && is_space_char(s.get_char(a))
        invariant
            n == s@.len(),
            a <= n,
            trim_front(s@) == trim_front(s@.skip(a as int)),
            forall|i: int| 0 <= i < a ==> is_space(#[trigger] s@[i]),
        decreases n - a,
    {
        proof {
            assert(s@.skip(a as int).skip(1) =~= s@.skip(a + 1));
        }
        a = a + 1;
    }
    proof {
        if a < n {
            assert(trim_front(s@.skip(a as int)) == s@.skip(a as int));
        } else {
            assert(s@.skip(a as int) =~= Seq::<char>::empty());
        }
        assert(trim_front(s@) == s@.skip(a as int));
    }
    let mut b: usize = n;
    proof {
        assert(s@.skip(a as int).take(n - a) =~= s@.skip(a as int));
    }
    while b > a && is_space_char(s.get_char(b - 1))
        invariant
            n == s@.len(),
            a <= b <= n,
            trim_front(s@) == s@.skip(a as int),
            a < n ==> !is_space(s@[a as int]),
            trim_back(s@.skip(a as int)) == trim_back(s@.skip(a as int).take(b - a)),
        decreases b,
    {
        proof {
            let piece = s@.skip(a as int).take(b - a);
            assert(piece.last() == s@[b - 1]);
            assert(piece.drop_last() =~= s@.skip(a as int).take(b - 1 - a));
        }
        b = b - 1;
    }
    proof {
        let piece = s@.skip(a as int).take(b - a);
        if b > a {
            assert(piece.last() == s@[b - 1]);
            assert(trim_back(piece) == piece);
        } else {
            assert(piece =~= Seq::<char>::empty());
            assert(trim_back(piece) == piece);
        }
        assert(trimmed(s@) == s@.skip(a as int).take(b - a));
        assert(s@.subrange(a as int, b as int) =~= s@.skip(a as int).take(b - a));
    }
    s.substring_char(a, b).to_string()
}

/// The `string` attribute with leading and trailing whitespace removed.
pub fn trim(argument: &TaggedValue) -> (r: Result<TaggedValue, BridgeError>)
    ensures
        match attr_find_text(*argument, "string"@) {
            Option::Some(v) => match v {
                TaggedValue::Text(s) => r matches Ok(out) && out matches TaggedValue::Text(t)
                    && t@ == trimmed(s@),
                _ => r matches Err(e) && e matches BridgeError::InvalidOperation(m) && m@
                    == "trim requires string"@,
            },
            Option::None => r matches Err(e) && e is InvalidOperation,
        },
{
    let s = text_attribute(argument, "string", "trim requires string")?;
    Ok(TaggedValue::Text(trim_text(s.as_str())))
}

/// The substring of the `string` attribute from character `start`, of at
/// most `length` characters: empty when the start lies at or past the end,
/// the remainder when the length is negative or reaches past the end, as
/// the host's unsigned index casts behave.
pub fn substr(argument: &TaggedValue) -> (r: Result<TaggedValue, BridgeError>)
    ensures
        match (
            attr_find_text(*argument, "string"@),
            attr_find_text(*argument, "start"@),
            attr_find_text(*argument, "length"@),
        ) {
            (
                Option::Some(TaggedValue::Text(s)),
                Option::Some(TaggedValue::Integer(start)),
                Option::Some(TaggedValue::Integer(len)),
            ) => (r matches Ok(out) && out matches TaggedValue::Text(t) && {
                if start < 0 || start >= s@.len() {
                    t@ == Seq::<char>::empty()
                } else if len < 0 || start + len > s@.len() {
                    t@ == s@.subrange(start as int, s@.len() as int)
                } else {
                    t@ == s@.subrange(start as int, start + len)
                }
            }),
            _ => r is Err,
        },
{
    let s = text_attribute(argument, "string", "substr requires string and integer arguments")?;
    let start = int_attribute(argument, "start", "substr requires string and integer arguments")?;
    let len = int_attribute(argument, "length", "substr requires string and integer arguments")?;
    let n = s.as_str().unicode_len();
    if start < 0 || (start as u64) >= (n as u64) {
        return Ok(TaggedValue::Text(String::new()));
    }
    let start_idx = start as usize;
    let remaining = n - start_idx;
    if len < 0 || (len as u64) > (remaining as u64) {
        return Ok(TaggedValue::Text(s.as_str().substring_char(start_idx, n).to_string()));
    }
    let end_idx = start_idx + (len as usize);
    Ok(TaggedValue::Text(s.as_str().substring_char(start_idx, end_idx).to_string()))
}

/// The `string` attribute left-padded with the first character of the
/// `pad_char` attribute (a space when it is empty) up to `length`
/// characters; unchanged when already long enough.  A negative target
/// length counts as zero.
pub fn pad_left(argument: &TaggedValue) -> (r: Result<TaggedValue, BridgeError>)
    ensures
        match (
            attr_find_text(*argument, "string"@),
            attr_find_text(*argument, "length"@),
            attr_find_text(*argument, "pad_char"@),
        ) {
            (
                Option::Some(TaggedValue::Text(s)),
                Option::Some(TaggedValue::Integer(len)),
                Option::Some(TaggedValue::Text(pad)),
            ) => (r matches Ok(out) && out matches TaggedValue::Text(t) && {
                let c = if pad@.len() > 0 {
                    pad@[0]
                } else {
                    ' '
                };
                if len <= s@.len() {
                    t@ == s@
                } else {
                    t@ == Seq::new((len - s@.len()) as nat, |i: int| c) + s@
                }
            }),
            _ => r is Err,
        },
{
    let s = text_attribute(argument, "string", "pad_left requires string, integer, and string arguments")?;
    let len = int_attribute(argument, "length", "pad_left requires string, integer, and string arguments")?;
    let pad = text_attribute(argument, "pad_char", "pad_left requires string, integer, and string arguments")?;
    let n = s.as_str().unicode_len();
    if len <= 0 || (len as u64) <= (n as u64) {
        return Ok(TaggedValue::Text(s));
    }
    let pad_str = if pad.as_str().unicode_len() > 0 {
        pad.as_str().substring_char(0, 1).to_string()
    } else {
        String::from_str(" ")
    };
    proof {
        reveal_strlit(" ");
        assert(pad_str@ =~= seq![if pad@.len() > 0 { pad@[0] } else { ' ' }]);
    }
    let count: u64 = (len as u64) - (n as u64);
    let mut out = String::new();
    let mut k: u64 = 0;
    while k < count
        invariant
            k <= count,
            pad_str@.len() == 1,
            out@ =~= Seq::new(k as nat, |i: int| pad_str@[0]),
        decreases count - k,
    {
        out.append(pad_str.as_str());
        proof {
            assert(out@ =~= Seq::new((k + 1) as nat, |i: int| pad_str@[0]));
        }
        k = k + 1;
    }
    out.append(s.as_str());
    proof {
        assert(out@ =~= Seq::new(count as nat, |i: int| pad_str@[0]) + s@);
    }
    Ok(TaggedValue::Text(out))
}

/// The `string` attribute right-padded with the first character of the
/// `pad_char` attribute (a space when it is empty) up to `length`
/// characters; unchanged when already long enough.  A negative target
/// length counts as zero.
pub fn pad_right(argument: &TaggedValue) -> (r: Result<TaggedValue, BridgeError>)
    ensures
        match (
            attr_find_text(*argument, "string"@),
            attr_find_text(*argument, "length"@),
            attr_find_text(*argument, "pad_char"@),
        ) {
            (
                Option::Some(TaggedValue::Text(s)),
                Option::Some(TaggedValue::Integer(len)),
                Option::Some(TaggedValue::Text(pad)),
            ) => (r matches Ok(out) && out matches TaggedValue::Text(t) && {
                let c = if pad@.len() > 0 {
                    pad@[0]
                } else {
                    ' '
                };
                if len <= s@.len() {
                    t@ == s@
                } else {
                    t@ == s@ + Seq::new((len - s@.len()) as nat, |i: int| c)
                }
            }),
            _ => r is Err,
        },
{
    let s = text_attribute(argument, "string", "pad_right requires string, integer, and string arguments")?;
    let len = int_attribute(argument, "length", "pad_right requires string, integer, and string arguments")?;
    let pad = text_attribute(argument, "pad_char", "pad_right requires string, integer, and string arguments")?;
    let n = s.as_str().unicode_len();
    if len <= 0 || (len as u64) <= (n as u64) {
        return Ok(TaggedValue::Text(s));
    }
    let pad_str = if pad.as_str().unicode_len() > 0 {
        pad.as_str().substring_char(0, 1).to_string()
    } else {
        String::from_str(" ")
    };
    proof {
        reveal_strlit(" ");
        assert(pad_str@ =~= seq![if pad@.len() > 0 { pad@[0] } else { ' ' }]);
    }
    let count: u64 = (len as u64) - (n as u64);
    let mut out = s;
    let mut k: u64 = 0;
    let ghost s_view = out@;
    while k < count
        invariant
            k <= count,
            pad_str@.len() == 1,
            out@ =~= s_view + Seq::new(k as nat, |i: int| pad_str@[0]),
        decreases count - k,
    {
        out.append(pad_str.as_str());
        proof {
            assert(out@ =~= s_view + Seq::new((k + 1) as nat, |i: int| pad_str@[0]));
        }
        k = k + 1;
    }
    Ok(TaggedValue::Text(out))
}

} // verus!

verus! {

/// The first position at or after `i` where the needle occurs, if any.
pub open spec fn first_hit(s: Seq<char>, d: Seq<char>, i: int) -> Option<int>
    decreases s.len() - i,
{
    if i < 0 || d.len() == 0 || i + d.len() > s.len() {
        Option::None
    } else if slice_matches_at(s, d, i) {
        Option::Some(i)
    } else {
        first_hit(s, d, i + 1)
    }
}

/// A hit reported by `first_hit` lies in range, matches, and is the first
/// at or after the start.
proof fn lemma_first_hit_some(s: Seq<char>, d: Seq<char>, i: int)
    requires
        first_hit(s, d, i) is Some,
    ensures
        first_hit(s, d, i) matches Option::Some(j) && i <= j && slice_matches_at(s, d, j),
    decreases s.len() - i,
{
    if !(i < 0 || d.len() == 0 || i + d.len() > s.len()) && !slice_matches_at(s, d, i) {
        lemma_first_hit_some(s, d, i + 1);
    }
}

/// A first match seen from outside pins `first_hit` down.
proof fn lemma_first_hit_is(s: Seq<char>, d: Seq<char>, k: int, i: int)
    requires
        d.len() >= 1,
        0 <= k <= i,
        slice_matches_at(s, d, i),
        forall|j: int| k <= j < i ==> !slice_matches_at(s, d, j),
    ensures
        first_hit(s, d, k) == Option::Some(i),
    decreases i - k,
{
    if k < i {
        lemma_first_hit_is(s, d, k + 1, i);
    }
}

/// No match anywhere pins `first_hit` to nothing.
proof fn lemma_first_hit_none(s: Seq<char>, d: Seq<char>, k: int)
    requires
        forall|j: int| !slice_matches_at(s, d, j),
    ensures
        first_hit(s, d, k) is None,
    decreases s.len() - k,
{
    if !(k < 0 || d.len() == 0 || k + d.len() > s.len()) {
        lemma_first_hit_none(s, d, k + 1);
    }
}

/// The pieces a text splits into around a non-empty delimiter, leftmost
/// occurrence first: always at least one piece, and an empty text between
/// two adjacent occurrences stays an empty piece.
pub open spec fn split_text(s: Seq<char>, d: Seq<char>) -> Seq<Seq<char>>
    decreases s.len(),
    via split_text_dec
{
    if d.len() == 0 {
        seq![s]
    } else {
        match first_hit(s, d, 0) {
            Option::None => seq![s],
            Option::Some(i) => seq![s.take(i)] + split_text(s.skip(i + d.len()), d),
        }
    }
}

#[via_fn]
proof fn split_text_dec(s: Seq<char>, d: Seq<char>) {
    if d.len() > 0 && first_hit(s, d, 0) is Some {
        lemma_first_hit_some(s, d, 0);
    }
}

/// The text with every occurrence of a non-empty needle replaced, scanning
/// left to right.
pub open spec fn replace_text(s: Seq<char>, from: Seq<char>, to: Seq<char>) -> Seq<char>
    decreases s.len(),
    via replace_text_dec
{
    if from.len() == 0 {
        s
    } else {
        match first_hit(s, from, 0) {
            Option::None => s,
            Option::Some(i) => s.take(i) + to + replace_text(s.skip(i + from.len()), from, to),
        }
    }
}

#[via_fn]
proof fn replace_text_dec(s: Seq<char>, from: Seq<char>, to: Seq<char>) {
    if from.len() > 0 && first_hit(s, from, 0) is Some {
        lemma_first_hit_some(s, from, 0);
    }
}

/// The `string` attribute split by the `delimiter` attribute into a tuple
/// of texts.  The delimiter must not be empty.
pub fn split(argument: &TaggedValue) -> (r: Result<TaggedValue, BridgeError>)
    ensures
        match (attr_find_text(*argument, "string"@), attr_find_text(*argument, "delimiter"@)) {
            (Option::Some(TaggedValue::Text(s)), Option::Some(TaggedValue::Text(d))) => {
                if d@.len() == 0 {
                    r matches Err(e) && e matches BridgeError::InvalidOperation(m) && m@
                        == "split requires a non-empty delimiter"@
                } else {
                    r matches Ok(out) && out matches TaggedValue::Tuple(es) && {
                        &&& es@.len() == split_text(s@, d@).len()
                        &&& forall|k: int|
                            0 <= k < es@.len() ==> ((#[trigger] es@[k]) matches TaggedValue::Text(
                                t,
                            ) && t@ == split_text(s@, d@)[k])
                    }
                }
            },
            _ => r is Err,
        },
{
    let s = text_attribute(argument, "string", "split requires string arguments")?;
    let d = text_attribute(argument, "delimiter", "split requires string arguments")?;
    let dlen = d.as_str().unicode_len();
    if dlen == 0 {
        return Err(BridgeError::InvalidOperation(
            String::from_str("split requires a non-empty delimiter"),
        ));
    }
    let n = s.as_str().unicode_len();
    let mut parts: Vec<TaggedValue> = Vec::new();
    let mut pos: usize = 0;
    proof {
        assert(s@.skip(0) =~= s@);
        assert(parts_views(parts@) =~= Seq::<Seq<char>>::empty());
    }
    loop
        invariant
            attr_find_text(*argument, "string"@) matches Option::Some(av) && av matches
                TaggedValue::Text(astr) && astr@ == s@,
            attr_find_text(*argument, "delimiter"@) matches Option::Some(dv) && dv matches
                TaggedValue::Text(dstr) && dstr@ == d@,
            n == s@.len(),
            dlen == d@.len(),
            dlen >= 1,
            pos <= n,
            split_text(s@, d@) =~= parts_views(parts@) + split_text(s@.skip(pos as int), d@),
            forall|k: int| 0 <= k < parts@.len() ==> (#[trigger] parts@[k]) is Text,
        decreases n - pos,
    {
        let tail = s.as_str().substring_char(pos, n);
        proof {
            assert(tail@ =~= s@.skip(pos as int));
        }
        match find_chars(tail, d.as_str()) {
            Option::Some(i) => {
                proof {
                    lemma_first_hit_is(tail@, d@, 0, i as int);
                }
                let piece = s.as_str().substring_char(pos, pos + i);
                proof {
                    assert(piece@ =~= tail@.take(i as int));
                }
                parts.push(TaggedValue::Text(piece.to_string()));
                let ghost old_pos = pos as int;
                pos = pos + i + dlen;
                proof {
                    assert(s@.skip(pos as int) =~= tail@.skip(i + d@.len()));
                    assert(split_text(tail@, d@) =~= seq![tail@.take(i as int)] + split_text(
                        s@.skip(pos as int),
                        d@,
                    ));
                    lemma_parts_views_push(parts@, split_text(s@, d@));
                }
            },
            Option::None => {
                proof {
                    lemma_first_hit_none(tail@, d@, 0);
                    assert(split_text(tail@, d@) =~= seq![tail@]);
                }
                parts.push(TaggedValue::Text(tail.to_string()));
                proof {
                    lemma_parts_views_push(parts@, split_text(s@, d@));
                }
                return Ok(TaggedValue::Tuple(parts));
            },
        }
    }
}

/// The views of a sequence of text values.
pub open spec fn parts_views(vs: Seq<TaggedValue>) -> Seq<Seq<char>> {
    vs.map_values(|v: TaggedValue| v->Text_0@)
}

proof fn lemma_parts_views_push(vs: Seq<TaggedValue>, whole: Seq<Seq<char>>)
    requires
        vs.len() > 0,
    ensures
        parts_views(vs) =~= parts_views(vs.drop_last()) + seq![vs.last()->Text_0@],
{
}

/// The `string` attribute with every occurrence of the `from` attribute
/// replaced by the `to` attribute, scanning left to right.  With an empty
/// `from` the text is returned unchanged.
pub fn replace(argument: &TaggedValue) -> (r: Result<TaggedValue, BridgeError>)
    ensures
        match (
            attr_find_text(*argument, "string"@),
            attr_find_text(*argument, "from"@),
            attr_find_text(*argument, "to"@),
        ) {
            (
                Option::Some(TaggedValue::Text(s)),
                Option::Some(TaggedValue::Text(f)),
                Option::Some(TaggedValue::Text(t)),
            ) => (r matches Ok(out) && out matches TaggedValue::Text(res) && res@
                == replace_text(s@, f@, t@)),
            _ => r is Err,
        },
{
    let s = text_attribute(argument, "string", "replace requires string arguments")?;
    let f = text_attribute(argument, "from", "replace requires string arguments")?;
    let t = text_attribute(argument, "to", "replace requires string arguments")?;
    let flen = f.as_str().unicode_len();
    if flen == 0 {
        return Ok(TaggedValue::Text(s));
    }
    let n = s.as_str().unicode_len();
    let mut out = String::new();
    let mut pos: usize = 0;
    proof {
        assert(s@.skip(0) =~= s@);
    }
    loop
        invariant
            attr_find_text(*argument, "string"@) matches Option::Some(av) && av matches
                TaggedValue::Text(astr) && astr@ == s@,
            attr_find_text(*argument, "from"@) matches Option::Some(fv) && fv matches
                TaggedValue::Text(fstr) && fstr@ == f@,
            attr_find_text(*argument, "to"@) matches Option::Some(tv) && tv matches
                TaggedValue::Text(tstr) && tstr@ == t@,
            n == s@.len(),
            flen == f@.len(),
            flen >= 1,
            pos <= n,
            replace_text(s@, f@, t@) =~= out@ + replace_text(s@.skip(pos as int), f@, t@),
        decreases n - pos,
    {
        let tail = s.as_str().substring_char(pos, n);
        proof {
            assert(tail@ =~= s@.skip(pos as int));
        }
        match find_chars(tail, f.as_str()) {
            Option::Some(i) => {
                proof {
                    lemma_first_hit_is(tail@, f@, 0, i as int);
                }
                let piece = s.as_str().substring_char(pos, pos + i);
                proof {
                    assert(piece@ =~= tail@.take(i as int));
                }
                out.append(piece);
                out.append(t.as_str());
                let ghost old_pos = pos as int;
                pos = pos + i + flen;
                proof {
                    assert(s@.skip(pos as int) =~= tail@.skip(i + f@.len()));
                    assert(replace_text(tail@, f@, t@) =~= tail@.take(i as int) + t@
                        + replace_text(s@.skip(pos as int), f@, t@));
                    assert(replace_text(s@, f@, t@) =~= out@ + replace_text(
                        s@.skip(pos as int),
                        f@,
                        t@,
                    ));
                }
            },
            Option::None => {
                proof {
                    lemma_first_hit_none(tail@, f@, 0);
                }
                out.append(tail);
                proof {
                    assert(replace_text(tail@, f@, t@) =~= tail@);
                    assert(out@ =~= replace_text(s@, f@, t@));
                }
                return Ok(TaggedValue::Text(out));
            },
        }
    }
}

} // verus!
