//! Small shared helpers: string equality, the name validator shared by tag
//! and field names, boolean parsing for connection parameters, and the
//! snake-case rendering used for defaulted measurement names.

use vstd::prelude::*;
use vstd::string::*;

verus! {

/// Compares two string slices by their characters.
pub fn str_eq(a: &str, b: &str) -> (r: bool)
    ensures
        r == (a@ == b@),
{
    let ab = a.as_bytes();
    let bb = b.as_bytes();
    if ab.len() != bb.len() {
        proof {
            if a@ == b@ {
                assert(a.spec_bytes() == b.spec_bytes());
            }
        }
        return false;
    }
    let n = ab.len();
    let mut i: usize = 0;
    while i < n
        invariant
            n == ab@.len(),
            n == bb@.len(),
            ab@ == a.spec_bytes(),
            bb@ == b.spec_bytes(),
            forall|j: int| 0 <= j < i ==> ab@[j] == #[trigger] bb@[j],
        decreases n - i,
    {
        if ab[i] != bb[i] {
            proof {
                if a@ == b@ {
                    assert(a.spec_bytes() == b.spec_bytes());
                }
            }
            return false;
        }
        i += 1;
    }
    proof {
        assert(ab@ =~= bb@);
        vstd::utf8::encode_utf8_decode_utf8(a@);
        vstd::utf8::encode_utf8_decode_utf8(b@);
    }
    true
}

/// True of a byte that may open a name: an ASCII letter or digit.
pub open spec fn spec_alnum_byte(b: u8) -> bool {
    (0x30 <= b <= 0x39) || (0x41 <= b <= 0x5a) || (0x61 <= b <= 0x7a)
}

/// True of a byte that may stand anywhere in a name: alphanumeric, `_` or `-`.
pub open spec fn spec_name_byte(b: u8) -> bool {
    spec_alnum_byte(b) || b == 0x5f || b == 0x2d
}

/// True when a name's UTF-8 bytes satisfy the validator: non-empty, first
/// byte ASCII alphanumeric, every byte alphanumeric, `_` or `-`.
pub open spec fn spec_valid_name(s: Seq<u8>) -> bool {
    &&& s.len() > 0
    &&& spec_alnum_byte(s[0])
    &&& forall|i: int| 0 <= i < s.len() ==> spec_name_byte(#[trigger] s[i])
}

fn alnum_byte(b: u8) -> (r: bool)
    ensures
        r == spec_alnum_byte(b),
{
    (0x30 <= b && b <= 0x39) || (0x41 <= b && b <= 0x5a) || (0x61 <= b && b <= 0x7a)
}

fn name_byte(b: u8) -> (r: bool)
    ensures
        r == spec_name_byte(b),
{
    alnum_byte(b) || b == 0x5f || b == 0x2d
}

/// The validator shared by tag names and field names.
pub fn validate_name(name: &str) -> (r: bool)
    ensures
        r == spec_valid_name(name.spec_bytes()),
{
    let bytes = name.as_bytes();
    let n = bytes.len();
    if n == 0 {
        return false;
    }
    if !alnum_byte(bytes[0]) {
        return false;
    }
    let mut i: usize = 0;
    while i < n
        invariant
            n == bytes@.len(),
            bytes@ == name.spec_bytes(),
            n > 0,
            spec_alnum_byte(bytes@[0]),
            forall|j: int| 0 <= j < i ==> spec_name_byte(#[trigger] bytes@[j]),
        decreases n - i,
    {
        if !name_byte(bytes[i]) {
            return false;
        }
        i += 1;
    }
    true
}

/// Names the result of `str::to_lowercase`: the Unicode-lowercased text,
/// a function of the characters alone.
pub uninterp spec fn lower_str_of(s: Seq<char>) -> Seq<char>;

/// Relies on `str::to_lowercase`: returns the Unicode lowercase mapping of
/// the text, which depends on the characters alone.
#[verifier::external_body]
fn str_to_lowercase(s: &str) -> (r: String)
    ensures
        r@ == lower_str_of(s@),
{
    s.to_lowercase()
}

/// What `parse_bool` answers for a lowercased token: `true`, `1` and `t`
/// affirm; `false`, `0` and `f` deny; anything else is rejected.
pub open spec fn spec_parse_bool(lowered: Seq<char>) -> Option<bool> {
    if lowered == "true"@ || lowered == "1"@ || lowered == "t"@ {
        Some(true)
    } else if lowered == "false"@ || lowered == "0"@ || lowered == "f"@ {
        Some(false)
    } else {
        None
    }
}

/// Parses a boolean connection parameter, case-insensitively.  Returns the
/// input itself when the token is not recognised.
pub fn parse_bool(s: &str) -> (r: Result<bool, &str>)
    ensures
        match spec_parse_bool(lower_str_of(s@)) {
            Some(b) => r == Ok::<bool, &str>(b),
            None => r matches Err(e) && e@ == s@,
        },
{
    let lowered = str_to_lowercase(s);
    let ls = lowered.as_str();
    if str_eq(ls, "true") || str_eq(ls, "1") || str_eq(ls, "t") {
        Ok(true)
    } else if str_eq(ls, "false") || str_eq(ls, "0") || str_eq(ls, "f") {
        Ok(false)
    } else {
        Err(s)
    }
}

/// Names the result of `char::is_uppercase`: the Unicode uppercase property.
pub uninterp spec fn is_upper_of(c: char) -> bool;

/// Names the result of `char::is_lowercase`: the Unicode lowercase property.
pub uninterp spec fn is_lower_of(c: char) -> bool;

/// Names the first character of `char::to_lowercase`: the leading character
/// of the Unicode lowercase mapping.
pub uninterp spec fn lower_char_of(c: char) -> char;

/// Relies on `char::is_uppercase`: the Unicode uppercase property of the
/// character.
#[verifier::external_body]
fn char_is_uppercase(c: char) -> (r: bool)
    ensures
        r == is_upper_of(c),
{
    c.is_uppercase()
}

/// Relies on `char::is_lowercase`: the Unicode lowercase property of the
/// character.
#[verifier::external_body]
fn char_is_lowercase(c: char) -> (r: bool)
    ensures
        r == is_lower_of(c),
{
    c.is_lowercase()
}

/// Relies on `char::to_lowercase`: its iterator yields at least one
/// character, and the mapping depends on the character alone.
#[verifier::external_body]
fn char_lowercase_first(c: char) -> (r: char)
    ensures
        r == lower_char_of(c),
{
    c.to_lowercase().next().unwrap()
}

/// Relies on `String`'s `FromIterator<char>`: collecting characters yields
/// the string of exactly those characters.
#[verifier::external_body]
fn chars_to_string(v: Vec<char>) -> (r: String)
    ensures
        r@ == v@,
{
    v.into_iter().collect()
}

/// The snake-case rendering of the characters from index `i` on, given
/// whether the previous kept character was lowercase.  An uppercase letter
/// is lowercased, and preceded by `_` when it follows a lowercase one.
pub open spec fn spec_snake_from(s: Seq<char>, i: int, prev_lower: bool) -> Seq<char>
    decreases s.len() - i,
{
    if i < 0 || i >= s.len() {
        Seq::empty()
    } else {
        let c = s[i];
        if is_upper_of(c) {
            (if i > 0 && prev_lower {
                seq!['_']
            } else {
                Seq::empty()
            }) + seq![lower_char_of(c)] + spec_snake_from(s, i + 1, false)
        } else {
            seq![c] + spec_snake_from(s, i + 1, is_lower_of(c))
        }
    }
}

/// The snake-case rendering of a text, as used for defaulted measurement
/// names.
pub open spec fn spec_to_snake_case(s: Seq<char>) -> Seq<char> {
    spec_snake_from(s, 0, false)
}

/// Renders a name in snake case: uppercase letters are lowercased, with `_`
/// inserted before one that follows a lowercase letter.
pub fn to_snake_case(s: &str) -> (r: String)
    ensures
        r@ == spec_to_snake_case(s@),
{
    let n = s.unicode_len();
    let mut out: Vec<char> = Vec::new();
    let mut prev_is_lower = false;
    let mut i: usize = 0;
    while i < n
        invariant
            n == s@.len(),
            i <= n,
            spec_to_snake_case(s@) == out@ + spec_snake_from(s@, i as int, prev_is_lower),
        decreases n - i,
    {
        let c = s.get_char(i);
        if char_is_uppercase(c) {
            if i > 0 && prev_is_lower {
                out.push('_');
            }
            out.push(char_lowercase_first(c));
            prev_is_lower = false;
        } else {
            out.push(c);
            prev_is_lower = char_is_lowercase(c);
        }
        i += 1;
    }
    chars_to_string(out)
}

} // verus!
