//! Trusted declarations for the outside crates and the few std functions
//! vstd gives no specification to. Everything else in the library is
//! verified against the contracts stated here.

use vstd::prelude::*;
use crate::events::EventKind as K;
use crate::events::{Mark, RawEvent, RawEventV, ScanIssue, ScanIssueV};
use crate::yaml::Yaml as Y;
use yaml_rust::Event as E;
use yaml_rust::scanner::TScalarStyle as S;

verus! {

/// The character with a given code point; what `char::from_u32` returns on
/// the code points it accepts.
pub uninterp spec fn char_of_code(v: int) -> char;

/// Relies on char::from_u32 of std: `Some` exactly when the value is
/// neither a surrogate code point nor above 0x10FFFF; the character has
/// the given code.
#[verifier::external_body]
pub fn char_from_code(v: u32) -> (r: Option<char>)
    ensures
        r is None <==> (0xD800 <= v < 0xE000 || v > 0x10FFFF),
        r matches Some(c) ==> c == char_of_code(v as int) && c as int == v as int,
{
    char::from_u32(v)
}

/// Holds the yaml event parser over an input text. Declaring the outside
/// parser type is refused here (its name collides with this crate's own),
/// so it stays behind this opaque struct.
#[verifier::external_body]
pub struct EventSource {
    inner: yaml_rust::parser::Parser<std::vec::IntoIter<char>>,
}

/// An emitter-side YAML document. Declaring the outside value type is
/// refused here (its name collides with this crate's own), so it stays
/// behind this opaque struct; `yr_view` names its contents.
#[verifier::external_body]
pub struct EmitYaml {
    inner: yaml_rust::Yaml,
}

/// The text an event source reads.
pub uninterp spec fn source_text(p: EventSource) -> Seq<char>;

/// How many events an event source has already delivered.
pub uninterp spec fn source_pos(p: EventSource) -> int;

/// The outcome of the k-th event request on a fresh parser over a text:
/// the event with its position, or the scanner's failure with its
/// position. The parser is a deterministic function of its input, so this
/// is a function of the text and the position alone; past the stream's
/// end it keeps returning the stream-end event.
pub uninterp spec fn yaml_scan_of(s: Seq<char>, k: int) -> Result<RawEventV, ScanIssueV>;

/// Relies on yaml_rust's Parser::new: a fresh event parser over the text,
/// no events delivered yet.
#[verifier::external_body]
pub fn new_yaml_parser(input: &str) -> (p: EventSource)
    ensures
        source_text(p) == input@,
        source_pos(p) == 0,
{
    let chars: Vec<char> = input.chars().collect();
    EventSource { inner: yaml_rust::parser::Parser::new(chars.into_iter()) }
}

/// Relies on yaml_rust's Parser::next: delivers the next outcome of the
/// stream, which depends on the text and the position alone; after the
/// stream's end it keeps returning the stream-end event.
#[verifier::external_body]
pub fn next_raw_event(p: &mut EventSource) -> (r: Result<RawEvent, ScanIssue>)
    ensures
        source_text(*final(p)) == source_text(*old(p)),
        source_pos(*final(p)) == source_pos(*old(p)) + 1,
        (match r {
            Ok(ev) => Ok::<RawEventV, ScanIssueV>(crate::events::event_view(ev)),
            Err(e) => Err(crate::events::issue_view(e)),
        }) == yaml_scan_of(source_text(*old(p)), source_pos(*old(p))),
{
    let (e, m) = match p.inner.next() {
        Ok(x) => x,
        Err(er) => return Err(issue_of(&er)),
    };
    let mark = mark_of(&m);
    let kind = match e {
        E::Nothing => K::Nothing, E::StreamStart => K::StreamStart,
        E::StreamEnd => K::StreamEnd, E::DocumentStart => K::DocStart,
        E::DocumentEnd => K::DocEnd, E::Alias(_) => K::Alias,
        E::SequenceStart(_) => K::SeqStart, E::SequenceEnd => K::SeqEnd,
        E::MappingStart(_) => K::MapStart, E::MappingEnd => K::MapEnd,
        E::Scalar(v, st, _, tag) => K::Scalar(v, matches!(st, S::Plain), tag.is_some()),
    };
    Ok(RawEvent { kind, mark })
}

#[verifier::external_type_specification]
#[verifier::external_body]
pub struct ExYamlMarker(yaml_rust::scanner::Marker);

/// Relies on yaml_rust's Marker accessors: copies the position out.
#[verifier::external_body]
fn mark_of(m: &yaml_rust::scanner::Marker) -> Mark {
    Mark { index: m.index(), line: m.line(), col: m.col() }
}

/// Relies on yaml_rust's ScanError accessors: copies the failure's
/// position and message out.
#[verifier::external_body]
fn issue_of(er: &yaml_rust::scanner::ScanError) -> ScanIssue {
    ScanIssue { mark: mark_of(er.marker()), message: er.to_string() }
}

#[verifier::external_type_specification]
#[verifier::external_body]
pub struct ExYamlScanError(yaml_rust::scanner::ScanError);

/// The value yaml_rust's `Yaml::from_str` reads from the text of a plain
/// untagged scalar; a function of the text alone.
pub uninterp spec fn plain_scalar_value(s: Seq<char>) -> crate::yaml::YamlV;

/// Relies on yaml_rust's Yaml::from_str: resolves a plain scalar's text to
/// a real, integer, boolean, null or string value, never to a container.
#[verifier::external_body]
pub fn resolve_plain_scalar(s: &str) -> (y: crate::yaml::Yaml)
    ensures
        y@ == plain_scalar_value(s@),
        !(y@ is Array),
        !(y@ is Hash),
{
    match yaml_rust::Yaml::from_str(s) {
        yaml_rust::Yaml::Real(v) => Y::Real(v),
        yaml_rust::Yaml::Integer(v) => Y::Integer(v),
        yaml_rust::Yaml::String(v) => Y::String(v),
        yaml_rust::Yaml::Boolean(v) => Y::Boolean(v),
        yaml_rust::Yaml::Null => Y::Null,
        _ => Y::String(s.to_string()),
    }
}

/// The contents of an emitter-side YAML value.
pub uninterp spec fn yr_view(y: EmitYaml) -> crate::yaml::YamlV;

/// Relies on yaml_rust's Yaml::Real: holds the given number text.
#[verifier::external_body]
pub fn yr_real(s: &str) -> (y: EmitYaml)
    ensures
        yr_view(y) == crate::yaml::YamlV::Real(s@),
{
    EmitYaml { inner: yaml_rust::Yaml::Real(s.to_string()) }
}

/// Relies on yaml_rust's Yaml::Integer: holds the given integer.
#[verifier::external_body]
pub fn yr_int(i: i64) -> (y: EmitYaml)
    ensures
        yr_view(y) == crate::yaml::YamlV::Integer(i as int),
{
    EmitYaml { inner: yaml_rust::Yaml::Integer(i) }
}

/// Relies on yaml_rust's Yaml::Boolean: holds the given boolean.
#[verifier::external_body]
pub fn yr_bool(b: bool) -> (y: EmitYaml)
    ensures
        yr_view(y) == crate::yaml::YamlV::Boolean(b),
{
    EmitYaml { inner: yaml_rust::Yaml::Boolean(b) }
}

/// Relies on yaml_rust's Yaml::Null.
#[verifier::external_body]
pub fn yr_null() -> (y: EmitYaml)
    ensures
        yr_view(y) == crate::yaml::YamlV::Null,
{
    EmitYaml { inner: yaml_rust::Yaml::Null }
}

/// Relies on yaml_rust's Yaml::Array: holds the given items in order.
#[verifier::external_body]
pub fn yr_array(items: Vec<EmitYaml>) -> (y: EmitYaml)
    ensures
        yr_view(y) == crate::yaml::YamlV::Array(
            Seq::new(items@.len(), |i: int| yr_view(items@[i])),
        ),
{
    EmitYaml { inner: yaml_rust::Yaml::Array(items.into_iter().map(|d| d.inner).collect()) }
}

/// Relies on yaml_rust's Yaml::Hash and its LinkedHashMap: entries are
/// kept in insertion order. The keys must have pairwise distinct
/// contents; the map compares keys by their entries in iteration order,
/// so distinct contents are distinct keys, every insert appends, and the
/// map's entries are exactly the given pairs.
#[verifier::external_body]
pub fn yr_hash(pairs: Vec<(EmitYaml, EmitYaml)>) -> (y: EmitYaml)
    requires
        forall|i: int, j: int|
            0 <= i < j < pairs@.len() ==> yr_view(#[trigger] pairs@[i].0) != yr_view(
                #[trigger] pairs@[j].0,
            ),
    ensures
        yr_view(y) == crate::yaml::YamlV::Hash(
            Seq::new(pairs@.len(), |i: int| (yr_view(pairs@[i].0), yr_view(pairs@[i].1))),
        ),
{
    let mut h = yaml_rust::yaml::Hash::new();
    for (k, v) in pairs {
        h.insert(k.inner, v.inner);
    }
    EmitYaml { inner: yaml_rust::Yaml::Hash(h) }
}

/// The text yaml_rust's YamlEmitter::dump writes for one document; a
/// function of the document's contents alone.
pub uninterp spec fn emitted_doc(v: crate::yaml::YamlV) -> Seq<char>;

/// Relies on yaml_rust's YamlEmitter::dump: writes `---`, a newline, and
/// the document in block style. Its only failure source is the writer,
/// and writing into a String cannot fail, so the result is always Ok.
#[verifier::external_body]
pub fn emit_yaml_doc(doc: &EmitYaml) -> (r: Result<String, String>)
    ensures
        r is Ok,
        r matches Ok(s) ==> s@ == emitted_doc(yr_view(*doc)) && s@.len() >= 4 && s@[0] == '-'
            && s@[1] == '-' && s@[2] == '-' && s@[3] == '\n',
{
    let mut out = String::new();
    match yaml_rust::YamlEmitter::new(&mut out).dump(&doc.inner) {
        Ok(()) => Ok(out),
        Err(e) => Err(e.to_string()),
    }
}

} // verus!
