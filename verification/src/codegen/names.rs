use vstd::prelude::*;

use vstd::string::StrSliceExecFns;
use vstd::string::StringExecFns;

verus! {

/// Whether two string slices hold the same characters.
pub fn str_eq(a: &str, b: &str) -> (r: bool)
    ensures
        r == (a@ == b@),
{
    let la = a.unicode_len();
    let lb = b.unicode_len();
    if la != lb {
        proof {
            assert(a@ != b@);
        }
        return false;
    }
    let mut i: usize = 0;
    while i < la
        invariant
            i <= la,
            la == a@.len(),
            la == b@.len(),
            forall|j: int| 0 <= j < i ==> a@[j] == b@[j],
        decreases la - i,
    {
        if a.get_char(i) != b.get_char(i) {
            return false;
        }
        i += 1;
    }
    proof {
        assert(a@ =~= b@);
    }
    true
}

/// The result of heck's UpperCamelCase conversion on a string.
pub uninterp spec fn upper_camel_of(s: Seq<char>) -> Seq<char>;

/// The result of heck's snake_case conversion on a string.
pub uninterp spec fn snake_of(s: Seq<char>) -> Seq<char>;

/// Relies on heck::ToUpperCamelCase::to_upper_camel_case: the result
/// depends on the characters alone.
#[verifier::external_body]
pub fn to_upper_camel(s: &str) -> (r: String)
    ensures
        r@ == upper_camel_of(s@),
{
    heck::ToUpperCamelCase::to_upper_camel_case(s)
}

/// Relies on heck::ToSnakeCase::to_snake_case: the result depends on the
/// characters alone.
#[verifier::external_body]
pub fn to_snake(s: &str) -> (r: String)
    ensures
        r@ == snake_of(s@),
{
    heck::ToSnakeCase::to_snake_case(s)
}

/// The words an identifier may not be.
pub open spec fn spec_is_keyword(s: Seq<char>) -> bool {
    ||| s == "as"@
    ||| s == "break"@
    ||| s == "const"@
    ||| s == "continue"@
    ||| s == "crate"@
    ||| s == "dyn"@
    ||| s == "else"@
    ||| s == "enum"@
    ||| s == "false"@
    ||| s == "fn"@
    ||| s == "for"@
    ||| s == "if"@
    ||| s == "impl"@
    ||| s == "in"@
    ||| s == "let"@
    ||| s == "loop"@
    ||| s == "match"@
    ||| s == "mod"@
    ||| s == "move"@
    ||| s == "mut"@
    ||| s == "pub"@
    ||| s == "ref"@
    ||| s == "return"@
    ||| s == "self"@
    ||| s == "Self"@
    ||| s == "static"@
    ||| s == "struct"@
    ||| s == "super"@
    ||| s == "trait"@
    ||| s == "true"@
    ||| s == "type"@
    ||| s == "unsafe"@
    ||| s == "use"@
    ||| s == "where"@
    ||| s == "while"@
    ||| s == "async"@
    ||| s == "await"@
    ||| s == "abstract"@
    ||| s == "become"@
    ||| s == "box"@
    ||| s == "do"@
    ||| s == "final"@
    ||| s == "macro"@
    ||| s == "override"@
    ||| s == "priv"@
    ||| s == "typeof"@
    ||| s == "unsized"@
    ||| s == "virtual"@
    ||| s == "yield"@
    ||| s == "try"@
}

/// Whether a string is one of the words an identifier may not be.
pub fn is_keyword(x: &str) -> (r: bool)
    ensures
        r == spec_is_keyword(x@),
{
    str_eq(x, "as") || str_eq(x, "break") || str_eq(x, "const") || str_eq(x, "continue") || str_eq(
        x,
        "crate",
    ) || str_eq(x, "dyn") || str_eq(x, "else") || str_eq(x, "enum") || str_eq(x, "false") || str_eq(
        x,
        "fn",
    ) || str_eq(x, "for") || str_eq(x, "if") || str_eq(x, "impl") || str_eq(x, "in") || str_eq(
        x,
        "let",
    ) || str_eq(x, "loop") || str_eq(x, "match") || str_eq(x, "mod") || str_eq(x, "move") || str_eq(
        x,
        "mut",
    ) || str_eq(x, "pub") || str_eq(x, "ref") || str_eq(x, "return") || str_eq(x, "self") || str_eq(
        x,
        "Self",
    ) || str_eq(x, "static") || str_eq(x, "struct") || str_eq(x, "super") || str_eq(x, "trait")
        || str_eq(x, "true") || str_eq(x, "type") || str_eq(x, "unsafe") || str_eq(x, "use")
        || str_eq(x, "where") || str_eq(x, "while") || str_eq(x, "async") || str_eq(x, "await")
        || str_eq(x, "abstract") || str_eq(x, "become") || str_eq(x, "box") || str_eq(x, "do")
        || str_eq(x, "final") || str_eq(x, "macro") || str_eq(x, "override") || str_eq(x, "priv")
        || str_eq(x, "typeof") || str_eq(x, "unsized") || str_eq(x, "virtual") || str_eq(x, "yield")
        || str_eq(x, "try")
}

/// Whether a character is an ASCII letter.
pub open spec fn spec_is_ascii_alpha(c: char) -> bool {
    (97 <= c as u32 <= 122) || (65 <= c as u32 <= 90)
}

/// Whether a string starts with an ASCII letter.
pub open spec fn spec_starts_alpha(s: Seq<char>) -> bool {
    s.len() > 0 && spec_is_ascii_alpha(s[0])
}

/// Whether a string starts with an ASCII letter.
pub fn starts_alpha(x: &str) -> (r: bool)
    ensures
        r == spec_starts_alpha(x@),
{
    if x.unicode_len() == 0 {
        return false;
    }
    let c = x.get_char(0);
    let u = c as u32;
    (97 <= u && u <= 122) || (65 <= u && u <= 90)
}

/// The type name an identifier turns into: UpperCamelCase, guarded with an
/// `X` prefix where the identifier is a keyword or starts with no letter.
pub open spec fn spec_type_ident(s: Seq<char>) -> Seq<char> {
    if spec_is_keyword(s) || !spec_starts_alpha(s) {
        "X"@ + upper_camel_of(s)
    } else {
        upper_camel_of(s)
    }
}

/// The type name an identifier turns into.
pub fn type_ident(x: &str) -> (r: String)
    ensures
        r@ == spec_type_ident(x@),
{
    let camel = to_upper_camel(x);
    if is_keyword(x) || !starts_alpha(x) {
        let mut s = String::from_str("X");
        s.append(camel.as_str());
        s
    } else {
        camel
    }
}

/// The field name an identifier turns into: snake_case, guarded with an
/// `x` prefix where the identifier is a keyword or starts with no letter.
pub open spec fn spec_field_ident(s: Seq<char>) -> Seq<char> {
    if spec_is_keyword(s) || !spec_starts_alpha(s) {
        "x"@ + snake_of(s)
    } else {
        snake_of(s)
    }
}

/// The field name an identifier turns into.
pub fn field_ident(x: &str) -> (r: String)
    ensures
        r@ == spec_field_ident(x@),
{
    let snake = to_snake(x);
    if is_keyword(x) || !starts_alpha(x) {
        let mut s = String::from_str("x");
        s.append(snake.as_str());
        s
    } else {
        snake
    }
}

} // verus!
