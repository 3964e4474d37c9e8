//! Reading manifest text with the `toml` crate and turning its values into `Doc` trees.
use vstd::prelude::*;
use crate::document::Doc;
use crate::model::{Dartfile, Fault};
use crate::parser::{parse, parse_of, ParseError, Section};

verus! {

#[verifier::external_type_specification]
#[verifier::external_body]
pub struct ExTomlValue(toml::Value);

#[verifier::external_type_specification]
#[verifier::external_body]
pub struct ExTomlError(toml::de::Error);

/// Nesting beyond this depth is read as `Doc::Other`; the manifest schema
/// reads four levels.
pub const NESTING_LIMIT: usize = 64;

/// The top level of a TOML value, with its children still as TOML values.
enum TomlNode {
    Str(String),
    Array(Vec<toml::Value>),
    Table(Vec<(String, toml::Value)>),
    Other,
}

/// Whether `toml::from_str` reads the text as a TOML document: a function of
/// the text alone.
pub uninterp spec fn toml_parses(text: Seq<char>) -> bool;

/// Relies on `<toml::Table as FromStr>::from_str` (that is, `toml::from_str`):
/// parses a whole TOML document into its top-level table, or reports a syntax
/// error. The table is handed back as a `toml::Value::Table`.
#[verifier::external_body]
fn parse_toml_table(text: &str) -> (r: Result<toml::Value, toml::de::Error>)
    ensures
        r is Ok <==> toml_parses(text@),
{
    text.parse::<toml::Table>().map(toml::Value::Table)
}

/// Relies on `toml::de::Error::message`: the text of what went wrong.
#[verifier::external_body]
fn toml_error_message(e: &toml::de::Error) -> (r: String) {
    e.message().to_string()
}

/// Relies on the variants of `toml::Value`: tells a string, an array and a
/// table apart from the other scalars, and copies out what each holds (a
/// table's pairs in its iteration order).
#[verifier::external_body]
fn toml_node(v: &toml::Value) -> (r: TomlNode) {
    match v {
        toml::Value::String(s) => TomlNode::Str(s.clone()),
        toml::Value::Array(a) => TomlNode::Array(a.clone()),
        toml::Value::Table(t) => TomlNode::Table(t.clone().into_iter().collect()),
        toml::Value::Integer(_) => TomlNode::Other,
        toml::Value::Float(_) => TomlNode::Other,
        toml::Value::Boolean(_) => TomlNode::Other,
        toml::Value::Datetime(_) => TomlNode::Other,
    }
}

/// Converts a TOML value into a document tree, reading arrays and tables down
/// to `depth` levels; deeper ones become `Doc::Other`.
fn doc_of(v: &toml::Value, depth: usize) -> (r: Doc)
    decreases depth,
{
    match toml_node(v) {
        TomlNode::Str(s) => Doc::Str(s),
        TomlNode::Other => Doc::Other,
        TomlNode::Array(items) => {
            if depth == 0 {
                return Doc::Other;
            }
            let mut out: Vec<Doc> = Vec::new();
            let mut i: usize = 0;
            while i < items.len()
                invariant
                    depth > 0,
                decreases items@.len() - i,
            {
                out.push(doc_of(&items[i], depth - 1));
                i = i + 1;
            }
            Doc::Array(out)
        },
        TomlNode::Table(entries) => {
            if depth == 0 {
                return Doc::Other;
            }
            let mut out: Vec<(String, Doc)> = Vec::new();
            let mut i: usize = 0;
            while i < entries.len()
                invariant
                    depth > 0,
                decreases entries@.len() - i,
            {
                let key = entries[i].0.clone();
                out.push((key, doc_of(&entries[i].1, depth - 1)));
                i = i + 1;
            }
            Doc::Table(out)
        },
    }
}

/// Reads a TOML document into a document tree, or the text of its syntax error.
pub fn read_toml(text: &str) -> (r: Result<Doc, String>)
    ensures
        r is Ok <==> toml_parses(text@),
{
    match parse_toml_table(text) {
        Ok(v) => Ok(doc_of(&v, NESTING_LIMIT)),
        Err(e) => Err(toml_error_message(&e)),
    }
}

/// Parses the manifest text and the machine-identity text, both TOML. A
/// syntax error in the manifest, or else in the machine text, fails with
/// `Fault::Syntax` for that document; otherwise the result is that of `parse`
/// on the two document trees read from the texts.
pub fn parse_text(manifest: &str, machine: &str) -> (r: Result<Dartfile, ParseError>)
    ensures
        !toml_parses(manifest@) ==> (r matches Err(e) && e.section == Section::Manifest
            && e.fault is Syntax),
        toml_parses(manifest@) && !toml_parses(machine@) ==> (r matches Err(e) && e.section
            == Section::Machine && e.fault is Syntax),
        toml_parses(manifest@) && toml_parses(machine@) ==> match r {
            Ok(d) => exists|m: Doc, c: Doc|
                parse_of(m, c) == Ok::<crate::model::DartfileView, ParseError>(d@),
            Err(e) => exists|m: Doc, c: Doc|
                parse_of(m, c) == Err::<crate::model::DartfileView, ParseError>(e),
        },
{
    let m = match read_toml(manifest) {
        Ok(d) => d,
        Err(msg) => return Err(ParseError { section: Section::Manifest, fault: Fault::Syntax(msg) }),
    };
    let c = match read_toml(machine) {
        Ok(d) => d,
        Err(msg) => return Err(ParseError { section: Section::Machine, fault: Fault::Syntax(msg) }),
    };
    parse(&m, &c)
}

} // verus!
