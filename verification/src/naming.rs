//! Names derived from schema names: `PascalCase` variants of field names
//! and gRPC method paths.

use vstd::prelude::*;
use vstd::string::*;

use crate::text::{char_uppercase, owned, push_char, uppercase};

verus! {

/// `chars` in PascalCase: every `_` dropped, and the first character and
/// every character after an `_` replaced by its uppercase mapping, when
/// `capitalize` says the next one is such a character.
pub open spec fn pascal_from(chars: Seq<char>, capitalize: bool) -> Seq<char>
    decreases chars.len(),
{
    if chars.len() == 0 {
        Seq::empty()
    } else if chars[0] == '_' {
        pascal_from(chars.drop_first(), true)
    } else if capitalize {
        char_uppercase(chars[0]) + pascal_from(chars.drop_first(), false)
    } else {
        seq![chars[0]] + pascal_from(chars.drop_first(), false)
    }
}

/// `value` in PascalCase.
pub open spec fn pascal_case(value: Seq<char>) -> Seq<char> {
    pascal_from(value, true)
}

/// The ASCII uppercase letter of an ASCII small letter; any other char
/// as is.
pub open spec fn ascii_upper(c: char) -> char {
    if 'a' <= c && c <= 'z' {
        ((c as u32) - 32) as char
    } else {
        c
    }
}

/// `pascal_from` for ASCII text, where each uppercase mapping is the
/// ASCII one.
pub open spec fn ascii_pascal_from(chars: Seq<char>, capitalize: bool) -> Seq<char>
    decreases chars.len(),
{
    if chars.len() == 0 {
        Seq::empty()
    } else if chars[0] == '_' {
        ascii_pascal_from(chars.drop_first(), true)
    } else if capitalize {
        seq![ascii_upper(chars[0])] + ascii_pascal_from(chars.drop_first(), false)
    } else {
        seq![chars[0]] + ascii_pascal_from(chars.drop_first(), false)
    }
}

/// Every character is ASCII.
pub open spec fn is_ascii_chars(s: Seq<char>) -> bool {
    forall|i: int| 0 <= i < s.len() ==> (s[i] as u32) < 128
}

/// `snake_case` (or any `_`-separated name) to `PascalCase`: `_` dropped,
/// the first character and each one after an `_` uppercased. For an ASCII
/// name the result holds no `_`.
pub fn to_pascal_case(value: &str) -> (r: String)
    ensures
        r@ == pascal_case(value@),
        is_ascii_chars(value@) ==> r@ == ascii_pascal_from(value@, true),
        is_ascii_chars(value@) ==> !r@.contains('_'),
{
    let mut result = String::new();
    let mut capitalize_next = true;
    let n = value.unicode_len();
    let mut i: usize = 0;
    assert(value@.skip(0) =~= value@);
    while i < n
        invariant
            n == value@.len(),
            i <= n,
            result@ + pascal_from(value@.skip(i as int), capitalize_next) == pascal_case(value@),
            is_ascii_chars(value@) ==> result@ + ascii_pascal_from(value@.skip(i as int), capitalize_next)
                == ascii_pascal_from(value@, true),
            is_ascii_chars(value@) ==> !result@.contains('_'),
        decreases n - i,
    {
        let ch = value.get_char(i);
        let ghost rest = value@.skip(i as int);
        assert(rest[0] == ch);
        assert(rest.drop_first() =~= value@.skip(i + 1));
        let ghost before = result@;
        if ch == '_' {
            capitalize_next = true;
        } else if capitalize_next {
            let upper = uppercase(ch);
            result.append(upper.as_str());
            capitalize_next = false;
            proof {
                assert(before + char_uppercase(ch) + pascal_from(value@.skip(i + 1), false)
                    =~= before + (char_uppercase(ch) + pascal_from(value@.skip(i + 1), false)));
                if is_ascii_chars(value@) {
                    assert((value@[i as int] as u32) < 128);
                    assert(upper@ =~= seq![ascii_upper(ch)]);
                    assert(before + upper@ + ascii_pascal_from(value@.skip(i + 1), false) =~= before + (
                    seq![ascii_upper(ch)] + ascii_pascal_from(value@.skip(i + 1), false)));
                    if !result@.contains('_') {
                    } else {
                        let k = choose|k: int| 0 <= k < result@.len() && result@[k] == '_';
                        if k < before.len() {
                            assert(before[k] == '_');
                        }
                    }
                }
            }
        } else {
            push_char(&mut result, ch);
            proof {
                assert(before.push(ch) + pascal_from(value@.skip(i + 1), false) =~= before + (seq![
                    ch,
                ] + pascal_from(value@.skip(i + 1), false)));
                if is_ascii_chars(value@) && result@.contains('_') {
                    let k = choose|k: int| 0 <= k < result@.len() && result@[k] == '_';
                    if k < before.len() {
                        assert(before[k] == '_');
                    }
                }
            }
        }
        i = i + 1;
    }
    assert(value@.skip(n as int) =~= Seq::<char>::empty());
    assert(result@ + Seq::<char>::empty() =~= result@);
    result
}

/// `/<package>.Api/Model<model><verb>`: the gRPC path of a model's CRUD
/// method.
pub open spec fn spec_method_path(package: Seq<char>, model: Seq<char>, verb_pascal: Seq<char>) -> Seq<
    char,
> {
    "/"@ + package + ".Api/Model"@ + model + verb_pascal
}

pub fn method_path(package: &str, model: &str, verb_pascal: &str) -> (r: String)
    ensures
        r@ == spec_method_path(package@, model@, verb_pascal@),
{
    let mut path = owned("/");
    path.append(package);
    path.append(".Api/Model");
    path.append(model);
    path.append(verb_pascal);
    path
}

/// `c` is an ASCII capital letter.
pub open spec fn is_ascii_upper(c: char) -> bool {
    'A' <= c && c <= 'Z'
}

/// The ASCII lowercase letter of an ASCII capital; any other char as is.
pub open spec fn ascii_lower(c: char) -> char {
    if is_ascii_upper(c) {
        ((c as u32) + 32) as char
    } else {
        c
    }
}

/// `chars` in snake_case: each ASCII capital lowercased, with a `_` before
/// it unless it is the very first character (`at_start`).
pub open spec fn snake_from(chars: Seq<char>, at_start: bool) -> Seq<char>
    decreases chars.len(),
{
    if chars.len() == 0 {
        Seq::empty()
    } else {
        let c = chars[0];
        let head = if !is_ascii_upper(c) {
            seq![c]
        } else if at_start {
            seq![ascii_lower(c)]
        } else {
            seq!['_', ascii_lower(c)]
        };
        head + snake_from(chars.drop_first(), false)
    }
}

/// `value` in snake_case: `BlogPost` is `blog_post`.
pub open spec fn snake_case(value: Seq<char>) -> Seq<char> {
    snake_from(value, true)
}

/// `PascalCase` (or camelCase) to `snake_case`: a `_` before every ASCII
/// capital but a leading one, and every ASCII capital lowercased.
pub fn to_snake_case(value: &str) -> (r: String)
    ensures
        r@ == snake_case(value@),
{
    let mut result = String::new();
    let n = value.unicode_len();
    let mut i: usize = 0;
    assert(value@.skip(0) =~= value@);
    while i < n
        invariant
            n == value@.len(),
            i <= n,
            result@ + snake_from(value@.skip(i as int), i == 0) == snake_case(value@),
        decreases n - i,
    {
        let ch = value.get_char(i);
        let ghost rest = value@.skip(i as int);
        assert(rest[0] == ch);
        assert(rest.drop_first() =~= value@.skip(i + 1));
        let ghost before = result@;
        if 'A' <= ch && ch <= 'Z' {
            if i > 0 {
                push_char(&mut result, '_');
            }
            let lower = ((ch as u8) + 32) as char;
            assert(lower == ascii_lower(ch));
            push_char(&mut result, lower);
        } else {
            push_char(&mut result, ch);
        }
        proof {
            let head = if !is_ascii_upper(ch) {
                seq![ch]
            } else if i == 0 {
                seq![ascii_lower(ch)]
            } else {
                seq!['_', ascii_lower(ch)]
            };
            assert(result@ =~= before + head);
            assert(before + (head + snake_from(value@.skip(i + 1), false)) =~= result@ + snake_from(
                value@.skip(i + 1),
                false,
            ));
        }
        i = i + 1;
    }
    assert(value@.skip(n as int) =~= Seq::<char>::empty());
    assert(result@ + Seq::<char>::empty() =~= result@);
    result
}

/// The uppercase mapping of every character of `chars`, in order.
pub open spec fn upper_from(chars: Seq<char>) -> Seq<char>
    decreases chars.len(),
{
    if chars.len() == 0 {
        Seq::empty()
    } else {
        char_uppercase(chars[0]) + upper_from(chars.drop_first())
    }
}

/// `upper_from` for ASCII text: each ASCII small letter uppercased.
pub open spec fn ascii_upper_from(chars: Seq<char>) -> Seq<char>
    decreases chars.len(),
{
    if chars.len() == 0 {
        Seq::empty()
    } else {
        seq![ascii_upper(chars[0])] + ascii_upper_from(chars.drop_first())
    }
}

/// `value` uppercased, as `str::to_uppercase` maps it: each character
/// replaced by its own uppercase mapping.
pub fn to_upper(value: &str) -> (r: String)
    ensures
        r@ == upper_from(value@),
        is_ascii_chars(value@) ==> r@ == ascii_upper_from(value@),
{
    let mut result = String::new();
    let n = value.unicode_len();
    let mut i: usize = 0;
    assert(value@.skip(0) =~= value@);
    while i < n
        invariant
            n == value@.len(),
            i <= n,
            result@ + upper_from(value@.skip(i as int)) == upper_from(value@),
            is_ascii_chars(value@) ==> result@ + ascii_upper_from(value@.skip(i as int))
                == ascii_upper_from(value@),
        decreases n - i,
    {
        let ch = value.get_char(i);
        assert(value@.skip(i as int)[0] == ch);
        assert(value@.skip(i as int).drop_first() =~= value@.skip(i + 1));
        let ghost before = result@;
        let upper = uppercase(ch);
        result.append(upper.as_str());
        assert(before + (char_uppercase(ch) + upper_from(value@.skip(i + 1))) =~= result@
            + upper_from(value@.skip(i + 1)));
        proof {
            if is_ascii_chars(value@) {
                assert((value@[i as int] as u32) < 128);
                assert(upper@ =~= seq![ascii_upper(ch)]);
                assert(before + (seq![ascii_upper(ch)] + ascii_upper_from(value@.skip(i + 1)))
                    =~= result@ + ascii_upper_from(value@.skip(i + 1)));
            }
        }
        i = i + 1;
    }
    assert(value@.skip(n as int) =~= Seq::<char>::empty());
    assert(result@ + Seq::<char>::empty() =~= result@);
    result
}

/// The plural of a table name: `-s` takes `es`, `-y` becomes `-ies`,
/// anything else takes `s`.
pub open spec fn plural(value: Seq<char>) -> Seq<char> {
    if value.len() > 0 && value.last() == 's' {
        value + "es"@
    } else if value.len() > 0 && value.last() == 'y' {
        value.drop_last() + "ies"@
    } else {
        value + "s"@
    }
}

pub fn pluralize(value: &str) -> (r: String)
    ensures
        r@ == plural(value@),
{
    let n = value.unicode_len();
    if n > 0 && value.get_char(n - 1) == 's' {
        let mut r = owned(value);
        r.append("es");
        r
    } else if n > 0 && value.get_char(n - 1) == 'y' {
        let mut r = owned(value.substring_char(0, n - 1));
        r.append("ies");
        assert(value@.subrange(0, n - 1) =~= value@.drop_last());
        r
    } else {
        let mut r = owned(value);
        r.append("s");
        r
    }
}

/// The name of a model's descriptor constant: `BlogPost` is
/// `BLOG_POST_MODEL`.
pub open spec fn spec_descriptor_name(model: Seq<char>) -> Seq<char> {
    upper_from(snake_case(model)) + "_MODEL"@
}

pub fn descriptor_name(model: &str) -> (r: String)
    ensures
        r@ == spec_descriptor_name(model@),
{
    let snake = to_snake_case(model);
    let mut r = to_upper(snake.as_str());
    r.append("_MODEL");
    r
}

/// The table a model is stored in: its snake_case name, pluralized.
pub open spec fn spec_table_name(model: Seq<char>) -> Seq<char> {
    plural(snake_case(model))
}

pub fn table_name(model: &str) -> (r: String)
    ensures
        r@ == spec_table_name(model@),
{
    let snake = to_snake_case(model);
    pluralize(snake.as_str())
}

} // verus!
