//! The configuration loader: builds YAML values from the event stream.
//! Plain untagged scalars resolve to typed values; non-plain scalars stay
//! strings; aliases and plain tagged scalars are rejected.

use vstd::prelude::*;
use crate::events::{EventKind, EventKindV, RawEvent, RawEventV, events_view};
use crate::outside::{plain_scalar_value, resolve_plain_scalar};
use crate::yaml::{Yaml, YamlV, hash_insert, hash_insert_v, yaml_pairs_view, yaml_seq_view, yaml_view};

verus! {

broadcast use vstd::seq::group_seq_axioms, vstd::std_specs::vec::group_vec_axioms, crate::yaml::group_yaml_view_lemmas;

/// Why loading failed.
#[derive(Debug)]
pub enum LoadError {
    AliasNotSupported,
    TagNotSupported,
    UnexpectedEvent,
    ScanFailed(String),
}

/// The model of a load failure.
pub enum LoadErrorV {
    AliasNotSupported,
    TagNotSupported,
    UnexpectedEvent,
    ScanFailed(Seq<char>),
}

pub open spec fn load_error_view(e: LoadError) -> LoadErrorV {
    match e {
        LoadError::AliasNotSupported => LoadErrorV::AliasNotSupported,
        LoadError::TagNotSupported => LoadErrorV::TagNotSupported,
        LoadError::UnexpectedEvent => LoadErrorV::UnexpectedEvent,
        LoadError::ScanFailed(m) => LoadErrorV::ScanFailed(m@),
    }
}

/// The message of a load failure.
pub open spec fn load_error_message(e: LoadErrorV) -> Seq<char> {
    match e {
        LoadErrorV::AliasNotSupported => "yaml aliases not supported"@,
        LoadErrorV::TagNotSupported => "yaml tags are not supported"@,
        LoadErrorV::UnexpectedEvent => "unexpected yaml event"@,
        LoadErrorV::ScanFailed(m) => m,
    }
}

impl LoadError {
    /// The message of a load failure.
    pub fn render(&self) -> (r: String)
        ensures
            r@ == load_error_message(load_error_view(*self)),
    {
        match self {
            LoadError::AliasNotSupported => msg_of("yaml aliases not supported"),
            LoadError::TagNotSupported => msg_of("yaml tags are not supported"),
            LoadError::UnexpectedEvent => msg_of("unexpected yaml event"),
            LoadError::ScanFailed(m) => msg_of(m.as_str()),
        }
    }
}

fn msg_of(s: &str) -> (r: String)
    ensures
        r@ == s@,
{
    let mut out = String::new();
    out.append(s);
    proof {
        assert(out@ =~= s@);
    }
    out
}

/// Loads one value from the events at `i`.
pub open spec fn sp_l_node(evs: Seq<RawEventV>, i: int) -> Result<(YamlV, int), LoadErrorV>
    decreases evs.len() - i, 2int,
{
    if i < 0 || i >= evs.len() {
        Err(LoadErrorV::UnexpectedEvent)
    } else {
        match evs[i].kind {
            EventKindV::SeqStart => match sp_l_items(evs, i + 1, Seq::empty()) {
                Err(e) => Err(e),
                Ok((items, j)) => Ok((YamlV::Array(items), j + 1)),
            },
            EventKindV::MapStart => match sp_l_entries(evs, i + 1, Seq::empty()) {
                Err(e) => Err(e),
                Ok((es, j)) => Ok((YamlV::Hash(es), j + 1)),
            },
            EventKindV::Scalar(text, plain, tagged) => if plain && tagged {
                Err(LoadErrorV::TagNotSupported)
            } else if plain {
                Ok((plain_scalar_value(text), i + 1))
            } else {
                Ok((YamlV::String(text), i + 1))
            },
            EventKindV::Alias => Err(LoadErrorV::AliasNotSupported),
            _ => Err(LoadErrorV::UnexpectedEvent),
        }
    }
}

/// Loads sequence items until the end event.
pub open spec fn sp_l_items(evs: Seq<RawEventV>, i: int, acc: Seq<YamlV>) -> Result<
    (Seq<YamlV>, int),
    LoadErrorV,
>
    decreases evs.len() - i, 3int,
{
    if i < 0 || i >= evs.len() {
        Err(LoadErrorV::UnexpectedEvent)
    } else {
        match evs[i].kind {
            EventKindV::SeqEnd => Ok((acc, i)),
            EventKindV::SeqStart | EventKindV::MapStart | EventKindV::Scalar(_, _, _)
                | EventKindV::Alias => match sp_l_node(evs, i) {
                Err(e) => Err(e),
                Ok((v, j)) => if i < j <= evs.len() {
                    sp_l_items(evs, j, acc.push(v))
                } else {
                    Err(LoadErrorV::UnexpectedEvent)
                },
            },
            _ => Err(LoadErrorV::UnexpectedEvent),
        }
    }
}

/// Loads map entries until the end event; a repeated key takes the new
/// value in its old position.
pub open spec fn sp_l_entries(evs: Seq<RawEventV>, i: int, acc: Seq<(YamlV, YamlV)>) -> Result<
    (Seq<(YamlV, YamlV)>, int),
    LoadErrorV,
>
    decreases evs.len() - i, 3int,
{
    if i < 0 || i >= evs.len() {
        Err(LoadErrorV::UnexpectedEvent)
    } else {
        match evs[i].kind {
            EventKindV::MapEnd => Ok((acc, i)),
            EventKindV::SeqStart | EventKindV::MapStart | EventKindV::Scalar(_, _, _)
                | EventKindV::Alias => match sp_l_node(evs, i) {
                Err(e) => Err(e),
                Ok((k, j)) => if i < j <= evs.len() {
                    match sp_l_node(evs, j) {
                        Err(e) => Err(e),
                        Ok((v, j2)) => if j < j2 <= evs.len() {
                            sp_l_entries(evs, j2, hash_insert_v(acc, k, v))
                        } else {
                            Err(LoadErrorV::UnexpectedEvent)
                        },
                    }
                } else {
                    Err(LoadErrorV::UnexpectedEvent)
                },
            },
            _ => Err(LoadErrorV::UnexpectedEvent),
        }
    }
}

/// Loads one document: a document-start event, one value, a document-end
/// event.
pub open spec fn sp_l_doc(evs: Seq<RawEventV>, i: int) -> Result<(YamlV, int), LoadErrorV>
    decreases evs.len() - i, 3int,
{
    if i < 0 || i >= evs.len() || !(evs[i].kind is DocStart) {
        Err(LoadErrorV::UnexpectedEvent)
    } else {
        match sp_l_node(evs, i + 1) {
            Err(e) => Err(e),
            Ok((v, j)) => if i < j < evs.len() && evs[j].kind is DocEnd {
                Ok((v, j + 1))
            } else {
                Err(LoadErrorV::UnexpectedEvent)
            },
        }
    }
}

/// Loads the documents of the stream until the stream-end event.
pub open spec fn sp_l_docs(evs: Seq<RawEventV>, i: int, acc: Seq<YamlV>) -> Result<
    Seq<YamlV>,
    LoadErrorV,
>
    decreases evs.len() - i, 4int,
{
    if i < 0 || i >= evs.len() {
        Err(LoadErrorV::UnexpectedEvent)
    } else {
        match evs[i].kind {
            EventKindV::StreamEnd => Ok(acc),
            EventKindV::DocStart => match sp_l_doc(evs, i) {
                Err(e) => Err(e),
                Ok((v, j)) => if i < j <= evs.len() {
                    sp_l_docs(evs, j, acc.push(v))
                } else {
                    Err(LoadErrorV::UnexpectedEvent)
                },
            },
            _ => Err(LoadErrorV::UnexpectedEvent),
        }
    }
}

/// Loads a whole stream of documents.
pub open spec fn sp_l_file(evs: Seq<RawEventV>) -> Result<Seq<YamlV>, LoadErrorV> {
    if evs.len() == 0 || !(evs[0].kind is StreamStart) {
        Err(LoadErrorV::UnexpectedEvent)
    } else {
        sp_l_docs(evs, 1, Seq::empty())
    }
}

/// Loads one value, mirroring `sp_l_node`.
fn load_node(evs: &Vec<RawEvent>, i: usize) -> (r: Result<(Yaml, usize), LoadError>)
    requires
        i <= evs@.len(),
    ensures
        match r {
            Ok((v, j)) => sp_l_node(events_view(evs@), i as int) == Ok::<_, LoadErrorV>(
                (yaml_view(v), j as int),
            ) && i < j <= evs@.len(),
            Err(e) => sp_l_node(events_view(evs@), i as int) == Err::<(YamlV, int), _>(
                load_error_view(e),
            ),
        },
    decreases evs@.len() - i, 2int,
{
    if i >= evs.len() {
        return Err(LoadError::UnexpectedEvent);
    }
    match &evs[i].kind {
        EventKind::SeqStart => {
            let start: Vec<Yaml> = Vec::new();
            proof {
                assert(yaml_seq_view(start@) =~= Seq::<YamlV>::empty());
            }
            let (items, j) = match load_items(evs, i + 1, start) {
                Err(e) => {
                    return Err(e);
                },
                Ok(x) => x,
            };
            let _stream_len = evs.len();
            Ok((Yaml::Array(items), j + 1))
        },
        EventKind::MapStart => {
            let start: Vec<(Yaml, Yaml)> = Vec::new();
            proof {
                assert(yaml_pairs_view(start@) =~= Seq::<(YamlV, YamlV)>::empty());
            }
            let (es, j) = match load_entries(evs, i + 1, start) {
                Err(e) => {
                    return Err(e);
                },
                Ok(x) => x,
            };
            let _stream_len = evs.len();
            Ok((Yaml::Hash(es), j + 1))
        },
        EventKind::Scalar(text, plain, tagged) => {
            if *plain && *tagged {
                Err(LoadError::TagNotSupported)
            } else if *plain {
                Ok((resolve_plain_scalar(text.as_str()), i + 1))
            } else {
                Ok((Yaml::String(text.clone()), i + 1))
            }
        },
        EventKind::Alias => Err(LoadError::AliasNotSupported),
        _ => Err(LoadError::UnexpectedEvent),
    }
}

/// Loads sequence items, mirroring `sp_l_items`.
fn load_items(evs: &Vec<RawEvent>, i: usize, acc: Vec<Yaml>) -> (r: Result<
    (Vec<Yaml>, usize),
    LoadError,
>)
    requires
        i <= evs@.len(),
    ensures
        match r {
            Ok((vs, j)) => sp_l_items(events_view(evs@), i as int, yaml_seq_view(acc@)) == Ok::<
                _,
                LoadErrorV,
            >((yaml_seq_view(vs@), j as int)) && i <= j < evs@.len(),
            Err(e) => sp_l_items(events_view(evs@), i as int, yaml_seq_view(acc@)) == Err::<
                (Seq<YamlV>, int),
                _,
            >(load_error_view(e)),
        },
    decreases evs@.len() - i, 3int,
{
    if i >= evs.len() {
        return Err(LoadError::UnexpectedEvent);
    }
    if matches!(&evs[i].kind, EventKind::SeqEnd) {
        return Ok((acc, i));
    }
    let ok_item = matches!(
        &evs[i].kind,
        EventKind::SeqStart | EventKind::MapStart | EventKind::Scalar(_, _, _) | EventKind::Alias
    );
    if !ok_item {
        return Err(LoadError::UnexpectedEvent);
    }
    let (v, j) = match load_node(evs, i) {
        Err(e) => {
            return Err(e);
        },
        Ok(x) => x,
    };
    let ghost prev = yaml_seq_view(acc@);
    let ghost prevseq = acc@;
    let mut acc = acc;
    acc.push(v);
    proof {
        assert(acc@.drop_last() =~= prevseq);
        assert(yaml_seq_view(acc@) =~= prev.push(yaml_view(acc@.last())));
    }
    load_items(evs, j, acc)
}

/// Loads map entries, mirroring `sp_l_entries`.
fn load_entries(evs: &Vec<RawEvent>, i: usize, acc: Vec<(Yaml, Yaml)>) -> (r: Result<
    (Vec<(Yaml, Yaml)>, usize),
    LoadError,
>)
    requires
        i <= evs@.len(),
    ensures
        match r {
            Ok((es, j)) => sp_l_entries(events_view(evs@), i as int, yaml_pairs_view(acc@)) == Ok::<
                _,
                LoadErrorV,
            >((yaml_pairs_view(es@), j as int)) && i <= j < evs@.len(),
            Err(e) => sp_l_entries(events_view(evs@), i as int, yaml_pairs_view(acc@)) == Err::<
                (Seq<(YamlV, YamlV)>, int),
                _,
            >(load_error_view(e)),
        },
    decreases evs@.len() - i, 3int,
{
    if i >= evs.len() {
        return Err(LoadError::UnexpectedEvent);
    }
    if matches!(&evs[i].kind, EventKind::MapEnd) {
        return Ok((acc, i));
    }
    let ok_item = matches!(
        &evs[i].kind,
        EventKind::SeqStart | EventKind::MapStart | EventKind::Scalar(_, _, _) | EventKind::Alias
    );
    if !ok_item {
        return Err(LoadError::UnexpectedEvent);
    }
    let (k, j) = match load_node(evs, i) {
        Err(e) => {
            return Err(e);
        },
        Ok(x) => x,
    };
    let (v, j2) = match load_node(evs, j) {
        Err(e) => {
            return Err(e);
        },
        Ok(x) => x,
    };
    let mut acc = acc;
    hash_insert(&mut acc, k, v);
    load_entries(evs, j2, acc)
}

/// Loads one document, mirroring `sp_l_doc`.
fn load_doc(evs: &Vec<RawEvent>, i: usize) -> (r: Result<(Yaml, usize), LoadError>)
    requires
        i <= evs@.len(),
    ensures
        match r {
            Ok((v, j)) => sp_l_doc(events_view(evs@), i as int) == Ok::<_, LoadErrorV>(
                (yaml_view(v), j as int),
            ) && i < j <= evs@.len(),
            Err(e) => sp_l_doc(events_view(evs@), i as int) == Err::<(YamlV, int), _>(
                load_error_view(e),
            ),
        },
    decreases evs@.len() - i, 3int,
{
    if i >= evs.len() || !matches!(&evs[i].kind, EventKind::DocStart) {
        return Err(LoadError::UnexpectedEvent);
    }
    let (v, j) = match load_node(evs, i + 1) {
        Err(e) => {
            return Err(e);
        },
        Ok(x) => x,
    };
    if j < evs.len() && matches!(&evs[j].kind, EventKind::DocEnd) {
        Ok((v, j + 1))
    } else {
        Err(LoadError::UnexpectedEvent)
    }
}

/// Loads the documents of the stream, mirroring `sp_l_docs`.
fn load_docs(evs: &Vec<RawEvent>, i: usize, acc: Vec<Yaml>) -> (r: Result<Vec<Yaml>, LoadError>)
    requires
        i <= evs@.len(),
    ensures
        match r {
            Ok(vs) => sp_l_docs(events_view(evs@), i as int, yaml_seq_view(acc@)) == Ok::<
                _,
                LoadErrorV,
            >(yaml_seq_view(vs@)),
            Err(e) => sp_l_docs(events_view(evs@), i as int, yaml_seq_view(acc@)) == Err::<
                Seq<YamlV>,
                _,
            >(load_error_view(e)),
        },
    decreases evs@.len() - i, 4int,
{
    if i >= evs.len() {
        return Err(LoadError::UnexpectedEvent);
    }
    if matches!(&evs[i].kind, EventKind::StreamEnd) {
        return Ok(acc);
    }
    if !matches!(&evs[i].kind, EventKind::DocStart) {
        return Err(LoadError::UnexpectedEvent);
    }
    let (v, j) = match load_doc(evs, i) {
        Err(e) => {
            return Err(e);
        },
        Ok(x) => x,
    };
    let ghost prev = yaml_seq_view(acc@);
    let ghost prevseq = acc@;
    let mut acc = acc;
    acc.push(v);
    proof {
        assert(acc@.drop_last() =~= prevseq);
        assert(yaml_seq_view(acc@) =~= prev.push(yaml_view(acc@.last())));
    }
    load_docs(evs, j, acc)
}

/// Loads a finished event stream into its documents.
pub fn load_yaml_docs(evs: &Vec<RawEvent>) -> (r: Result<Vec<Yaml>, LoadError>)
    ensures
        match r {
            Ok(vs) => sp_l_file(events_view(evs@)) == Ok::<_, LoadErrorV>(yaml_seq_view(vs@)),
            Err(e) => sp_l_file(events_view(evs@)) == Err::<Seq<YamlV>, _>(load_error_view(e)),
        },
{
    if evs.len() == 0 || !matches!(&evs[0].kind, EventKind::StreamStart) {
        return Err(LoadError::UnexpectedEvent);
    }
    let start: Vec<Yaml> = Vec::new();
    proof {
        assert(yaml_seq_view(start@) =~= Seq::<YamlV>::empty());
    }
    load_docs(evs, 1, start)
}

/// The outcome of loading a YAML text: the scanned events through the
/// verified loader; a scan failure keeps the scanner's message.
pub open spec fn load_result(input: Seq<char>) -> Result<Seq<YamlV>, LoadErrorV> {
    match crate::template::scan_result(input) {
        Err(e) => Err(LoadErrorV::ScanFailed(e.message)),
        Ok(evs) => sp_l_file(evs),
    }
}

/// Parses a YAML text into its documents: the events are read from the
/// yaml parser and handed to the verified loader.
pub fn parse_yaml_str(input: &str) -> (r: Result<Vec<Yaml>, LoadError>)
    ensures
        match r {
            Ok(vs) => load_result(input@) == Ok::<Seq<YamlV>, LoadErrorV>(yaml_seq_view(vs@)),
            Err(e) => load_result(input@) == Err::<Seq<YamlV>, LoadErrorV>(load_error_view(e)),
        },
{
    let evs = match crate::template::scan_yaml_events(input) {
        Err(e) => {
            return Err(LoadError::ScanFailed(e.message));
        },
        Ok(evs) => evs,
    };
    load_yaml_docs(&evs)
}

} // verus!
