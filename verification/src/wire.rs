//! The snapshot document's wire format.
//!
//! Serialisation to JSON text is implemented and verified here; reading JSON
//! text back, and canonicalising embedded JSON, rely on `serde_json` behind
//! trusted wrappers whose results are named by uninterpreted functions.

use vstd::prelude::*;
use vstd::string::StringExecFns;
use crate::doc::{Document, FieldValue, FieldV};
use crate::text::push_char;

verus! {

/// The lower-case hexadecimal digit for `d`.
pub open spec fn spec_hex_digit(d: u32) -> char {
    if d == 0 { '0' }
    else if d == 1 { '1' }
    else if d == 2 { '2' }
    else if d == 3 { '3' }
    else if d == 4 { '4' }
    else if d == 5 { '5' }
    else if d == 6 { '6' }
    else if d == 7 { '7' }
    else if d == 8 { '8' }
    else if d == 9 { '9' }
    else if d == 10 { 'a' }
    else if d == 11 { 'b' }
    else if d == 12 { 'c' }
    else if d == 13 { 'd' }
    else if d == 14 { 'e' }
    else { 'f' }
}

fn hex_digit(d: u32) -> (c: char)
    requires
        d < 16,
    ensures
        c == spec_hex_digit(d),
{
    if d == 0 { '0' }
    else if d == 1 { '1' }
    else if d == 2 { '2' }
    else if d == 3 { '3' }
    else if d == 4 { '4' }
    else if d == 5 { '5' }
    else if d == 6 { '6' }
    else if d == 7 { '7' }
    else if d == 8 { '8' }
    else if d == 9 { '9' }
    else if d == 10 { 'a' }
    else if d == 11 { 'b' }
    else if d == 12 { 'c' }
    else if d == 13 { 'd' }
    else if d == 14 { 'e' }
    else { 'f' }
}

/// How one character is written inside a JSON string.
pub open spec fn spec_escape_char(c: char) -> Seq<char> {
    if c == '"' {
        "\\\""@
    } else if c == '\\' {
        "\\\\"@
    } else if c == '\n' {
        "\\n"@
    } else if c == '\r' {
        "\\r"@
    } else if c == '\t' {
        "\\t"@
    } else if (c as u32) < 32 {
        "\\u00"@ + seq![spec_hex_digit((c as u32) / 16), spec_hex_digit((c as u32) % 16)]
    } else {
        seq![c]
    }
}

/// How a whole character sequence is written inside a JSON string.
pub open spec fn spec_escape(s: Seq<char>) -> Seq<char>
    decreases s.len(),
{
    if s.len() == 0 {
        Seq::<char>::empty()
    } else {
        spec_escape_char(s[0]) + spec_escape(s.skip(1))
    }
}

proof fn lemma_escape_snoc(s: Seq<char>, c: char)
    ensures
        spec_escape(s.push(c)) == spec_escape(s) + spec_escape_char(c),
    decreases s.len(),
{
    if s.len() == 0 {
        assert(s.push(c)[0] == c);
        assert(s.push(c).skip(1) =~= Seq::<char>::empty());
        assert(spec_escape(Seq::<char>::empty()) =~= Seq::<char>::empty());
        assert(spec_escape(s.push(c)) == spec_escape_char(c) + spec_escape(s.push(c).skip(1)));
        assert(spec_escape(s.push(c)) =~= spec_escape_char(c));
        assert(spec_escape(s) + spec_escape_char(c) =~= spec_escape_char(c));
    } else {
        assert(s.push(c)[0] == s[0]);
        assert(s.push(c).skip(1) =~= s.skip(1).push(c));
        lemma_escape_snoc(s.skip(1), c);
        assert(spec_escape(s.push(c)) =~= spec_escape(s) + spec_escape_char(c));
    }
}

/// Append the escaped form of `s` to `out`.
fn escape_into(out: &mut String, s: &str)
    ensures
        final(out)@ == old(out)@ + spec_escape(s@),
{
    let n = s.unicode_len();
    let mut i: usize = 0;
    proof {
        assert(s@.take(0) =~= Seq::<char>::empty());
        assert(old(out)@ + spec_escape(s@.take(0)) =~= old(out)@);
    }
    while i < n
        invariant
            n == s@.len(),
            0 <= i <= n,
            out@ == old(out)@ + spec_escape(s@.take(i as int)),
        decreases n - i,
    {
        let ghost pre = out@;
        let c = s.get_char(i);
        if c == '"' {
            out.append("\\\"");
        } else if c == '\\' {
            out.append("\\\\");
        } else if c == '\n' {
            out.append("\\n");
        } else if c == '\r' {
            out.append("\\r");
        } else if c == '\t' {
            out.append("\\t");
        } else {
            let cu = c as u32;
            if cu < 32 {
                out.append("\\u00");
                push_char(out, hex_digit(cu / 16));
                push_char(out, hex_digit(cu % 16));
                proof {
                    assert(out@ =~= pre + spec_escape_char(c));
                }
            } else {
                push_char(out, c);
                proof {
                    assert(out@ =~= pre + spec_escape_char(c));
                }
            }
        }
        proof {
            assert(s@.take(i + 1 as int) =~= s@.take(i as int).push(s@[i as int]));
            lemma_escape_snoc(s@.take(i as int), s@[i as int]);
            assert(out@ =~= old(out)@ + spec_escape(s@.take(i + 1 as int)));
        }
        i += 1;
    }
    proof {
        assert(s@.take(n as int) =~= s@);
    }
}

/// A JSON string literal: the escaped text between quotes.
pub open spec fn spec_quoted(s: Seq<char>) -> Seq<char> {
    "\""@ + spec_escape(s) + "\""@
}

/// Append the quoted form of `s` to `out`.
fn quote_into(out: &mut String, s: &str)
    ensures
        final(out)@ == old(out)@ + spec_quoted(s@),
{
    out.append("\"");
    escape_into(out, s);
    out.append("\"");
    proof {
        assert(final(out)@ =~= old(out)@ + spec_quoted(s@));
    }
}

/// The items of a JSON array of strings, comma-separated.
pub open spec fn spec_key_list_items(ks: Seq<Seq<char>>) -> Seq<char>
    decreases ks.len(),
{
    if ks.len() == 0 {
        Seq::<char>::empty()
    } else if ks.len() == 1 {
        spec_quoted(ks[0])
    } else {
        spec_quoted(ks[0]) + ", "@ + spec_key_list_items(ks.skip(1))
    }
}

/// A JSON array of strings.
pub open spec fn spec_key_list(ks: Seq<Seq<char>>) -> Seq<char> {
    "["@ + spec_key_list_items(ks) + "]"@
}

fn key_list_items_into(out: &mut String, ks: &Vec<String>, i: usize)
    requires
        i <= ks@.len(),
    ensures
        final(out)@ == old(out)@ + spec_key_list_items(ks.deep_view().skip(i as int)),
    decreases ks@.len() - i,
{
    let ghost ksv = ks.deep_view();
    if i == ks.len() {
        proof {
            assert(ksv.skip(i as int).len() == 0);
            assert(old(out)@ + spec_key_list_items(ksv.skip(i as int)) =~= old(out)@);
        }
    } else {
        quote_into(out, ks[i].as_str());
        proof {
            assert(ksv.skip(i as int)[0] == ks@[i as int]@);
        }
        if i + 1 == ks.len() {
            proof {
                assert(ksv.skip(i as int).len() == 1);
            }
        } else {
            out.append(", ");
            key_list_items_into(out, ks, i + 1);
            proof {
                assert(ksv.skip(i as int).skip(1) =~= ksv.skip(i + 1 as int));
            }
        }
    }
}

/// How one field value is written: text quoted, a key list as an array of
/// strings, a structured value spliced verbatim in its canonical form.
pub open spec fn spec_field_text(v: FieldV) -> Seq<char> {
    match v {
        FieldV::Text(s) => spec_quoted(s),
        FieldV::KeyList(ks) => spec_key_list(ks),
        FieldV::Structured(c) => c,
    }
}

fn field_value_into(out: &mut String, v: &FieldValue)
    ensures
        final(out)@ == old(out)@ + spec_field_text(v@),
{
    match v {
        FieldValue::Text(s) => {
            quote_into(out, s.as_str());
        },
        FieldValue::KeyList(ks) => {
            out.append("[");
            key_list_items_into(out, ks, 0);
            out.append("]");
            proof {
                assert(ks.deep_view().skip(0) =~= ks.deep_view());
                assert(final(out)@ =~= old(out)@ + spec_key_list(ks.deep_view()));
            }
        },
        FieldValue::Structured(c) => {
            out.append(c.as_str());
        },
    }
}

/// One document line: two spaces, the quoted key, a colon, the value.
pub open spec fn spec_field_line(p: (Seq<char>, FieldV)) -> Seq<char> {
    "  "@ + spec_quoted(p.0) + ": "@ + spec_field_text(p.1)
}

/// The document's lines, comma-and-newline separated.
pub open spec fn spec_fields_text(d: Seq<(Seq<char>, FieldV)>) -> Seq<char>
    decreases d.len(),
{
    if d.len() == 0 {
        Seq::<char>::empty()
    } else if d.len() == 1 {
        spec_field_line(d[0])
    } else {
        spec_field_line(d[0]) + ",\n"@ + spec_fields_text(d.skip(1))
    }
}

/// The serialized document: a pretty-printed JSON object, one field per
/// line.
pub open spec fn spec_document_text(d: Seq<(Seq<char>, FieldV)>) -> Seq<char> {
    if d.len() == 0 {
        "{}"@
    } else {
        "{\n"@ + spec_fields_text(d) + "\n}"@
    }
}

fn fields_into(out: &mut String, doc: &Document, i: usize)
    requires
        i <= doc@.len(),
    ensures
        final(out)@ == old(out)@ + spec_fields_text(doc@.skip(i as int)),
    decreases doc@.len() - i,
{
    if i == doc.len() {
        proof {
            assert(doc@.skip(i as int).len() == 0);
            assert(old(out)@ + spec_fields_text(doc@.skip(i as int)) =~= old(out)@);
        }
    } else {
        let f = doc.field_at(i);
        out.append("  ");
        quote_into(out, f.0.as_str());
        out.append(": ");
        field_value_into(out, &f.1);
        proof {
            assert(doc@.skip(i as int)[0] == doc@[i as int]);
            assert(out@ =~= old(out)@ + spec_field_line(doc@.skip(i as int)[0]));
        }
        if i + 1 == doc.len() {
            proof {
                assert(doc@.skip(i as int).len() == 1);
            }
        } else {
            out.append(",\n");
            fields_into(out, doc, i + 1);
            proof {
                assert(doc@.skip(i as int).skip(1) =~= doc@.skip(i + 1 as int));
            }
        }
    }
}

/// Serialize a snapshot document to its JSON text.
pub fn document_to_text(doc: &Document) -> (r: String)
    ensures
        r@ == spec_document_text(doc@),
{
    if doc.len() == 0 {
        String::from_str("{}")
    } else {
        let mut out = String::from_str("{\n");
        fields_into(&mut out, doc, 0);
        out.append("\n}");
        proof {
            assert(doc@.skip(0) =~= doc@);
            assert(out@ =~= spec_document_text(doc@));
        }
        out
    }
}

/// The canonical (compact) rendering of a JSON text, or `None` when the text
/// is not valid JSON.  Names the composite of `serde_json::from_str` and
/// `serde_json::to_string`, which depends on the input text alone.
pub uninterp spec fn json_canon(s: Seq<char>) -> Option<Seq<char>>;

/// Relies on `serde_json::from_str::<Value>` followed by
/// `serde_json::to_string`: deterministic in the input text; text that does
/// not parse as JSON yields `None`.
#[verifier::external_body]
pub fn canonical_json(s: &str) -> (r: Option<String>)
    ensures
        match r {
            Some(c) => json_canon(s@) == Some(c@),
            None => json_canon(s@) is None,
        },
{
    match serde_json::from_str::<serde_json::Value>(s) {
        Ok(v) => match serde_json::to_string(&v) {
            Ok(c) => Some(c),
            Err(_) => None,
        },
        Err(_) => None,
    }
}

/// The document denoted by a JSON text: its top-level object read as a flat
/// field list in the reader's (ascending key) order, or `None` when the text
/// is not a JSON object.  Names the result of `serde_json::from_str`, which
/// depends on the input text alone.
pub uninterp spec fn flat_parse(s: Seq<char>) -> Option<Seq<(Seq<char>, FieldV)>>;

#[verifier::external_type_specification]
#[verifier::external_body]
pub struct ExValue(serde_json::Value);

/// Converts one `serde_json::Value` entry to a field, telling its variants
/// apart: a string is kept verbatim, an array becomes the list of its
/// elements rendered as strings, and any other value is kept as its compact
/// rendering (relying on `serde_json`'s `to_string` of a `Value`).
#[verifier::external_body]
fn field_of_value(val: serde_json::Value) -> (r: FieldValue) {
    match val {
        serde_json::Value::String(t) => FieldValue::Text(t),
        serde_json::Value::Array(items) => FieldValue::KeyList(
            items.into_iter().map(|x| match x {
                serde_json::Value::String(t) => t,
                other => other.to_string(),
            }).collect(),
        ),
        other => FieldValue::Structured(other.to_string()),
    }
}

/// Relies on `serde_json::from_str::<Value>`: a top-level object becomes a
/// field per entry, in the parser's ascending key order, each converted by
/// `field_of_value`.
#[verifier::external_body]
pub fn parse_document_text(s: &str) -> (r: Option<Document>)
    ensures
        match r {
            Some(d) => flat_parse(s@) == Some(d@),
            None => flat_parse(s@) is None,
        },
{
    let v: serde_json::Value = match serde_json::from_str(s) {
        Ok(v) => v,
        Err(_) => return None,
    };
    let obj = match v {
        serde_json::Value::Object(m) => m,
        _ => return None,
    };
    let mut fields: Vec<(String, FieldValue)> = Vec::new();
    for (k, val) in obj {
        fields.push((k, field_of_value(val)));
    }
    Some(Document { fields })
}

} // verus!
