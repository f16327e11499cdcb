//! Reading the properties of a site file. The file is XML; an outside
//! parser cuts it into events, and what is done with the events is decided
//! here: `<name>` and `<value>` inside `<property>` give a key and a value.

use crate::hdfs::config::Config;
use crate::hdfs::err::Error;
use vstd::prelude::*;

verus! {

/// A `quick_xml::Reader` over a byte slice, which cuts a document into
/// events.
#[verifier::external_body]
pub struct XmlReader<'a> {
    inner: quick_xml::Reader<&'a [u8]>,
}

/// One event of a document, with the bytes that matter here.
pub enum Token {
    /// An opening tag; the bytes are its name.
    Start(Vec<u8>),
    /// A closing tag; the bytes are its name.
    End(Vec<u8>),
    /// Character data, still escaped.
    Text(Vec<u8>),
    /// Any other event: an empty tag, a comment, a declaration and so on.
    Other,
    /// The end of the document.
    Eof,
    /// The document is not well-formed here.
    Malformed,
}

/// A `Token` as plain values.
pub enum Event {
    Start(Seq<u8>),
    End(Seq<u8>),
    Text(Seq<u8>),
    Other,
    Eof,
    Malformed,
}

impl View for Token {
    type V = Event;

    open spec fn view(&self) -> Event {
        match self {
            Token::Start(n) => Event::Start(n@),
            Token::End(n) => Event::End(n@),
            Token::Text(t) => Event::Text(t@),
            Token::Other => Event::Other,
            Token::Eof => Event::Eof,
            Token::Malformed => Event::Malformed,
        }
    }
}

/// The document that a reader was made for.
pub uninterp spec fn reader_input(r: XmlReader) -> Seq<u8>;

/// Whether a reader trims the white space around character data, and skips
/// character data that is white space only.
pub uninterp spec fn reader_trims(r: XmlReader) -> bool;

/// How many events a reader has been asked for.
pub uninterp spec fn reader_count(r: XmlReader) -> nat;

/// The event that a reader over `input` reports at its call number `index`
/// (counting from 0), with or without trimming and otherwise as
/// `quick_xml::Reader::from_reader` sets it up. After the end of the
/// document or a failure it reports the end of the document.
pub uninterp spec fn xml_event(input: Seq<u8>, trim: bool, index: nat) -> Event;

/// The text that escaped character data stands for: valid UTF-8 with the
/// predefined entities and the character references replaced. `None` where
/// `raw` is no such data.
pub uninterp spec fn xml_text(raw: Seq<u8>) -> Option<Seq<char>>;

/// `quick_xml::Reader::from_reader` over a byte slice: a reader at the start
/// of `input` that does not trim.
#[verifier::external_body]
fn open_reader<'a>(input: &'a [u8]) -> (r: XmlReader<'a>)
    ensures
        reader_input(r) == input@,
        !reader_trims(r),
        reader_count(r) == 0,
{
    XmlReader { inner: quick_xml::Reader::from_reader(input) }
}

/// `quick_xml::Reader::trim_text`: sets whether the reader trims, and
/// leaves the rest of it as it is. Called before the first event only.
#[verifier::external_body]
fn set_trim_text(reader: &mut XmlReader, trim: bool)
    requires
        reader_count(*old(reader)) == 0,
    ensures
        reader_trims(*final(reader)) == trim,
        reader_input(*final(reader)) == reader_input(*old(reader)),
        reader_count(*final(reader)) == 0,
{
    reader.inner.trim_text(trim);
}

/// `quick_xml::Reader::read_event`, with a buffer of its own for each call:
/// the next event of the document. A failure of the parser is handed back
/// as `Token::Malformed`.
#[verifier::external_body]
fn read_event(reader: &mut XmlReader) -> (t: Token)
    ensures
        t@ == xml_event(
            reader_input(*old(reader)),
            reader_trims(*old(reader)),
            reader_count(*old(reader)),
        ),
        reader_input(*final(reader)) == reader_input(*old(reader)),
        reader_trims(*final(reader)) == reader_trims(*old(reader)),
        reader_count(*final(reader)) == reader_count(*old(reader)) + 1,
{
    let mut buf = Vec::new();
    match reader.inner.read_event(&mut buf) {
        Ok(quick_xml::events::Event::Start(e)) => Token::Start(e.name().to_vec()),
        Ok(quick_xml::events::Event::End(e)) => Token::End(e.name().to_vec()),
        Ok(quick_xml::events::Event::Text(e)) => Token::Text(e.escaped().to_vec()),
        Ok(quick_xml::events::Event::Eof) => Token::Eof,
        Ok(_) => Token::Other,
        Err(_) => Token::Malformed,
    }
}

/// `quick_xml::events::BytesText::unescape_and_decode` on the escaped data
/// `raw`: the text it stands for, or `None` where the parser fails on it.
#[verifier::external_body]
fn unescape_and_decode(raw: &[u8], reader: &XmlReader) -> (r: Option<String>)
    ensures
        r is Some <==> xml_text(raw@) is Some,
        r matches Some(s) ==> Some(s@) == xml_text(raw@),
{
    quick_xml::events::BytesText::from_escaped(raw).unescape_and_decode(&reader.inner).ok()
}

/// The bytes of the text `s`.
pub open spec fn bytes_of(s: &str) -> Seq<u8> {
    vstd::string::StringSliceAdditionalSpecFns::spec_bytes(s)
}

/// What the scan of a site file remembers between two events.
pub struct ScanState {
    /// Whether the next text is a key rather than a value.
    pub is_key: bool,
    pub key: Option<Seq<char>>,
    pub value: Option<Seq<char>>,
    /// Whether the next text is to be passed over.
    pub ignore: bool,
}

/// The state at the start of a file.
pub open spec fn start_state() -> ScanState {
    ScanState { is_key: false, key: None, value: None, ignore: false }
}

/// What one event does to the state of the scan and to the properties read
/// so far. `<name>` and `<value>` say what the next text is; `<final>` has
/// the next text passed over; a text that is not passed over becomes the key
/// or the value; `</property>` stores the pair, if both were seen, and
/// starts afresh. `None` where a text that is needed cannot be decoded.
pub open spec fn step(state: ScanState, map: Map<Seq<char>, Seq<char>>, event: Event) -> Option<
    (ScanState, Map<Seq<char>, Seq<char>>),
> {
    match event {
        Event::Start(name) => {
            if name == bytes_of("name") {
                Some((ScanState { is_key: true, ignore: false, ..state }, map))
            } else if name == bytes_of("value") {
                Some((ScanState { is_key: false, ignore: false, ..state }, map))
            } else if name == bytes_of("final") {
                Some((ScanState { ignore: true, ..state }, map))
            } else {
                Some((state, map))
            }
        },
        Event::Text(raw) => {
            if state.ignore {
                Some((state, map))
            } else {
                match xml_text(raw) {
                    None => None,
                    Some(text) => if state.is_key {
                        Some((ScanState { key: Some(text), ..state }, map))
                    } else {
                        Some((ScanState { value: Some(text), ..state }, map))
                    },
                }
            }
        },
        Event::End(name) => {
            if name == bytes_of("property") {
                let cleared = ScanState { key: None, value: None, ignore: false, ..state };
                match (state.key, state.value) {
                    (Some(k), Some(v)) => Some((cleared, map.insert(k, v))),
                    _ => Some((cleared, map)),
                }
            } else {
                Some((state, map))
            }
        },
        _ => Some((state, map)),
    }
}

/// The properties that the events of `input` from number `index` on leave,
/// starting from `state` and `map`. `None` where the document is not
/// well-formed or a text that is needed cannot be decoded. A document has
/// fewer events than bytes: one that seems to have more counts as not
/// well-formed.
pub open spec fn scan(
    input: Seq<u8>,
    index: nat,
    state: ScanState,
    map: Map<Seq<char>, Seq<char>>,
) -> Option<Map<Seq<char>, Seq<char>>>
    decreases input.len() - index,
{
    match xml_event(input, true, index) {
        Event::Eof => Some(map),
        Event::Malformed => None,
        event => if index >= input.len() {
            None
        } else {
            match step(state, map, event) {
                Some((next, more)) => scan(input, index + 1, next, more),
                None => None,
            }
        },
    }
}

/// The properties of the site file `input`, added to `map`.
pub open spec fn properties_of(input: Seq<u8>, map: Map<Seq<char>, Seq<char>>) -> Option<
    Map<Seq<char>, Seq<char>>,
> {
    scan(input, 0, start_state(), map)
}

/// Whether the bytes `a` and `b` are the same.
fn same_bytes(a: &[u8], b: &[u8]) -> (r: bool)
    ensures
        r == (a@ == b@),
{
    if a.len() != b.len() {
        return false;
    }
    let mut i: usize = 0;
    while i < a.len()
        invariant
            i <= a.len(),
            a.len() == b.len(),
            forall|j: int| 0 <= j < i ==> a@[j] == b@[j],
        decreases a.len() - i,
    {
        if a[i] != b[i] {
            return false;
        }
        i += 1;
    }
    assert(a@ =~= b@);
    true
}

/// The text of an optional string.
pub open spec fn text_of(s: Option<String>) -> Option<Seq<char>> {
    match s {
        Some(s) => Some(s@),
        None => None,
    }
}

/// Reads the properties of the site file `input` into `config`. Fails with
/// `Error::InvalidXmlFile` exactly when the file is not well-formed or a key
/// or value in it cannot be decoded; what `config` then holds is left open.
pub fn read_properties(input: &[u8], config: &mut Config) -> (r: Result<(), Error>)
    requires
        old(config).wf(),
    ensures
        final(config).wf(),
        properties_of(input@, old(config).config_map()) matches Some(m) ==> r is Ok
            && final(config).config_map() == m,
        properties_of(input@, old(config).config_map()) is None ==> (r matches Err(e)
            && e is InvalidXmlFile),
{
    let mut reader = open_reader(input);
    set_trim_text(&mut reader, true);
    let mut is_key = false;
    let mut key: Option<String> = None;
    let mut value: Option<String> = None;
    let mut ignore = false;
    let mut index: usize = 0;
    let ghost goal = properties_of(input@, old(config).config_map());
    loop
        invariant
            config.wf(),
            index <= input.len(),
            reader_input(reader) == input@,
            reader_trims(reader),
            reader_count(reader) == index,
            goal == properties_of(input@, old(config).config_map()),
            goal == scan(
                input@,
                index as nat,
                ScanState { is_key, key: text_of(key), value: text_of(value), ignore },
                config.config_map(),
            ),
        decreases input.len() - index,
    {
        let token = read_event(&mut reader);
        let ghost state = ScanState { is_key, key: text_of(key), value: text_of(value), ignore };
        match token {
            Token::Eof => {
                return Ok(());
            },
            Token::Malformed => {
                return Err(Error::InvalidXmlFile("not well-formed".to_owned()));
            },
            _ => {},
        }
        if index >= input.len() {
            return Err(Error::InvalidXmlFile("more events than bytes".to_owned()));
        }
        match token {
            Token::Start(name) => {
                if same_bytes(name.as_slice(), "name".as_bytes()) {
                    is_key = true;
                    ignore = false;
                } else if same_bytes(name.as_slice(), "value".as_bytes()) {
                    is_key = false;
                    ignore = false;
                } else if same_bytes(name.as_slice(), "final".as_bytes()) {
                    ignore = true;
                }
            },
            Token::Text(raw) => {
                if !ignore {
                    match unescape_and_decode(raw.as_slice(), &reader) {
                        None => {
                            return Err(Error::InvalidXmlFile("text cannot be decoded".to_owned()));
                        },
                        Some(text) => {
                            if is_key {
                                key = Some(text);
                            } else {
                                value = Some(text);
                            }
                        },
                    }
                }
            },
            Token::End(name) => {
                if same_bytes(name.as_slice(), "property".as_bytes()) {
                    match (key, value) {
                        (Some(k), Some(v)) => {
                            config.insert(k, v);
                        },
                        _ => {},
                    }
                    key = None;
                    value = None;
                    ignore = false;
                }
            },
            _ => {},
        }
        index = index + 1;
    }
}

} // verus!
