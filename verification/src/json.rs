//! JSON text of strings, and JavaScript array literals of labels.
use vstd::prelude::*;
use vstd::string::*;
use crate::ids::hex_digit;

verus! {

/// Declares `serde_json::Error` so that the serializing wrapper can hand it back.
#[verifier::external_type_specification]
#[verifier::external_body]
pub struct ExJsonError(serde_json::Error);

/// How `serde_json` writes one char inside a string literal: a quote and a backslash are
/// escaped with a backslash; backspace, tab, line feed, form feed and carriage return by their
/// short escapes; the other control chars below U+0020 as `\u00` and two lowercase hex digits;
/// every other char as itself.
pub open spec fn json_escape(c: char) -> Seq<char> {
    let v = c as u32;
    if c == '"' {
        seq!['\\', '"']
    } else if c == '\\' {
        seq!['\\', '\\']
    } else if v == 8 {
        seq!['\\', 'b']
    } else if v == 9 {
        seq!['\\', 't']
    } else if v == 10 {
        seq!['\\', 'n']
    } else if v == 12 {
        seq!['\\', 'f']
    } else if v == 13 {
        seq!['\\', 'r']
    } else if v < 32 {
        seq!['\\', 'u', '0', '0', hex_digit(v as int / 16), hex_digit(v as int % 16)]
    } else {
        seq![c]
    }
}

/// The chars of `s`, each escaped as `json_escape` says.
pub open spec fn json_escaped(s: Seq<char>) -> Seq<char>
    decreases s.len(),
{
    if s.len() == 0 {
        Seq::empty()
    } else {
        json_escaped(s.drop_last()) + json_escape(s.last())
    }
}

/// What `serde_json::to_string` writes for a string: the escaped chars between quotes.
pub open spec fn json_text(s: Seq<char>) -> Seq<char> {
    seq!['"'] + json_escaped(s) + seq!['"']
}

/// Calls `serde_json::to_string` on a `str`, which writes the quoted string with the escapes of
/// its `ESCAPE` table (`format_escaped_str`); `json_text` states them. The call is
/// always `Ok`: a `str` serializes through `format_escaped_str` into a `Vec<u8>`, whose
/// writes never fail, and that is the only source of an error on this path.
#[verifier::external_body]
fn json_string(s: &str) -> (r: Result<String, serde_json::Error>)
    ensures
        r is Ok,
        r matches Ok(t) ==> t@ == json_text(s@),
{
    serde_json::to_string(s)
}

/// The JSON string literal of `s`, as JavaScript source.
pub fn to_js_string(s: &str) -> (r: String)
    ensures
        r@ == json_text(s@),
{
    match json_string(s) {
        Ok(t) => t,
        Err(_) => {
            proof {
                assert(false);
            }
            String::new()
        },
    }
}

/// The items of a JSON array of the strings `items`: their literals joined by `,`.
pub open spec fn json_items(items: Seq<Seq<char>>) -> Seq<char>
    decreases items.len(),
{
    if items.len() == 0 {
        Seq::empty()
    } else if items.len() == 1 {
        json_text(items[0])
    } else {
        json_items(items.drop_last()) + ","@ + json_text(items.last())
    }
}

/// The compact JSON array of the strings `items`, which is also a JavaScript array literal.
pub open spec fn json_array(items: Seq<Seq<char>>) -> Seq<char> {
    "["@ + json_items(items) + "]"@
}

/// The views of a vector of strings.
pub open spec fn string_views(v: Seq<String>) -> Seq<Seq<char>> {
    v.map_values(|s: String| s@)
}

/// The JavaScript array literal of the labels, each as a JSON string.
pub fn labels_to_javascript_array(labels: &Vec<String>) -> (r: String)
    ensures
        r@ == json_array(string_views(labels@)),
{
    let ghost views = string_views(labels@);
    let mut body = String::new();
    let mut i: usize = 0;
    while i < labels.len()
        invariant
            i <= labels@.len(),
            views == string_views(labels@),
            body@ == json_items(views.take(i as int)),
        decreases labels@.len() - i,
    {
        let item = to_js_string(labels[i].as_str());
        proof {
            assert(views.take(i + 1).drop_last() =~= views.take(i as int));
            assert(views.take(i + 1).last() == labels@[i as int]@);
        }
        if i > 0 {
            body.append(",");
        } else {
            proof {
                assert(body@ =~= Seq::<char>::empty());
            }
        }
        body.append(item.as_str());
        proof {
            if i == 0 {
                assert(body@ =~= json_items(views.take(1)));
            }
        }
        i = i + 1;
    }
    proof {
        assert(views.take(labels@.len() as int) =~= views);
    }
    let mut r = String::from_str("[");
    r.append(body.as_str());
    r.append("]");
    r
}

} // verus!
