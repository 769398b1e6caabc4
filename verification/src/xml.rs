//! The XML event stream of a document, read with quick-xml, and the bytes
//! that writing an event back produces.
//!
//! What quick-xml reports for a document is named, not restated: the
//! `index`-th event of a document read with a given whitespace-trimming
//! setting is `xml_read_result(input, trim, index)`, the `k`-th attribute of
//! the start tag read as that event is `xml_attribute_at(..)`, and so on.
//! The namespace-aware reader reads the same events and can fail where the
//! namespace declarations of a tag cannot be taken into scope
//! (`xml_namespace_failure`). Everything the library does with those events
//! is verified against the names.
use vstd::prelude::*;
use quick_xml::events::attributes::{AttrError, Attribute, Attributes};
use quick_xml::events::{BytesStart, Event};
use quick_xml::name::{QName, ResolveResult};
use quick_xml::{NsReader, Reader};
use vstd::string::StringSliceAdditionalSpecFns;

verus! {

#[verifier::external_type_specification]
#[verifier::external_body]
#[verifier::reject_recursive_types(R)]
pub struct ExNsReader<R>(NsReader<R>);

#[verifier::external_type_specification]
#[verifier::external_body]
#[verifier::reject_recursive_types(R)]
pub struct ExReader<R>(Reader<R>);

#[verifier::external_type_specification]
#[verifier::external_body]
pub struct ExBytesStart<'a>(BytesStart<'a>);

#[verifier::external_type_specification]
#[verifier::external_body]
pub struct ExAttributes<'a>(Attributes<'a>);

#[verifier::external_type_specification]
#[verifier::external_body]
pub struct ExAttribute<'a>(Attribute<'a>);

#[verifier::external_type_specification]
#[verifier::external_body]
pub struct ExAttrError(AttrError);

#[verifier::external_type_specification]
#[verifier::external_body]
pub struct ExEvent<'a>(Event<'a>);

/// The kinds of XML events.
#[derive(Clone, Copy, Debug, PartialEq, Eq, Structural)]
pub enum XmlEventKind {
    Start,
    End,
    Empty,
    Text,
    CData,
    Comment,
    Decl,
    PI,
    DocType,
    GeneralRef,
    Eof,
}

/// What an event holds: its kind, the bytes between its markup delimiters,
/// its qualified name (tags only), and the byte span it was read from.
pub struct XmlEventView {
    pub kind: XmlEventKind,
    pub content: Seq<u8>,
    pub name: Seq<u8>,
    pub start: nat,
    pub end: nat,
}

/// A reading or decoding failure reported by quick-xml.
#[derive(Clone, Debug)]
pub struct XmlError {
    pub message: String,
}

/// One attribute of a start tag: its key and its raw (still escaped) value.
pub struct XmlAttribute {
    pub key: Vec<u8>,
    pub value: Vec<u8>,
}

/// The namespace that the prefix of an attribute key or element name resolves to.
#[derive(Clone, Debug)]
pub enum AttributeNamespace {
    Unbound,
    Bound(Vec<u8>),
    Unknown(Vec<u8>),
}

/// The view of an attribute namespace resolution.
pub enum AttributeNamespaceView {
    Unbound,
    Bound(Seq<u8>),
    Unknown(Seq<u8>),
}

impl AttributeNamespace {
    pub open spec fn view(&self) -> AttributeNamespaceView {
        match self {
            AttributeNamespace::Unbound => AttributeNamespaceView::Unbound,
            AttributeNamespace::Bound(n) => AttributeNamespaceView::Bound(n@),
            AttributeNamespace::Unknown(p) => AttributeNamespaceView::Unknown(p@),
        }
    }
}

/// The `index`-th event (counting from 0) that quick-xml's reader reports
/// for `input`, with text trimming set to `trim`, as an event or as the
/// failure's message.
pub uninterp spec fn xml_read_result(input: Seq<u8>, trim: bool, index: nat) -> Result<
    XmlEventView,
    Seq<char>,
>;

/// The failure, if any, of quick-xml's namespace-aware reader when it takes
/// the namespace declarations of the start or empty tag read as event
/// `index` of `input` into scope (such as a binding of a reserved prefix).
pub uninterp spec fn xml_namespace_failure(input: Seq<u8>, trim: bool, index: nat) -> Option<Seq<char>>;

/// The `index`-th event that quick-xml's namespace-aware reader reports:
/// the plain reader's event, or the failure of taking a start or empty
/// tag's namespace declarations into scope.
pub open spec fn ns_read_result(input: Seq<u8>, trim: bool, index: nat) -> Result<XmlEventView, Seq<char>> {
    match xml_read_result(input, trim, index) {
        Ok(v) => if (v.kind == XmlEventKind::Start || v.kind == XmlEventKind::Empty) && xml_namespace_failure(
            input,
            trim,
            index,
        ) is Some {
            Err(xml_namespace_failure(input, trim, index)->0)
        } else {
            Ok(v)
        },
        Err(m) => Err(m),
    }
}

/// The `k`-th item of quick-xml's attribute iterator over the start tag that
/// was read as event `index` of `input`: none past the last attribute, else a
/// key and raw value, or the failure's message.
pub uninterp spec fn xml_attribute_at(input: Seq<u8>, trim: bool, index: nat, k: nat) -> Option<
    Result<(Seq<u8>, Seq<u8>), Seq<char>>,
>;

/// How quick-xml's reader resolves an attribute key's namespace once it has
/// reported `count` events of `input`.
pub uninterp spec fn xml_attribute_namespace(
    input: Seq<u8>,
    trim: bool,
    count: nat,
    key: Seq<u8>,
) -> AttributeNamespaceView;

/// How quick-xml's reader resolves an element name's namespace once it has
/// reported `count` events of `input`.
pub uninterp spec fn xml_element_namespace(
    input: Seq<u8>,
    trim: bool,
    count: nat,
    name: Seq<u8>,
) -> AttributeNamespaceView;

/// A raw attribute value decoded as UTF-8 with its entity and character
/// references replaced, as quick-xml does it, or the failure's message.
pub uninterp spec fn xml_unescaped_value(raw: Seq<u8>) -> Result<Seq<char>, Seq<char>>;

/// The start tag behind an event, kept for reading its attributes, with the
/// document, trimming setting and index it was read as.
pub struct TagHandle<'a> {
    tag: Option<BytesStart<'a>>,
    origin: Ghost<(Seq<u8>, bool, nat)>,
}

impl<'a> TagHandle<'a> {
    /// The document, trimming setting and index the tag was read as.
    pub closed spec fn origin(&self) -> (Seq<u8>, bool, nat) {
        self.origin@
    }
}

/// An event as quick-xml reports it, with the document, trimming setting
/// and index it was read as.
pub struct RawEvent<'a> {
    event: Event<'a>,
    origin: Ghost<(Seq<u8>, bool, nat)>,
}

impl<'a> RawEvent<'a> {
    /// The document, trimming setting and index the event was read as.
    pub closed spec fn origin(&self) -> (Seq<u8>, bool, nat) {
        self.origin@
    }

    /// The kind of the event: tells the variants of quick-xml's `Event` apart.
    #[verifier::external_body]
    fn kind(&self) -> (k: XmlEventKind)
        ensures
            xml_read_result(self.origin().0, self.origin().1, self.origin().2) matches Ok(v) ==> k == v.kind,
    {
        match &self.event {
            Event::Start(_) => XmlEventKind::Start,
            Event::End(_) => XmlEventKind::End,
            Event::Empty(_) => XmlEventKind::Empty,
            Event::Text(_) => XmlEventKind::Text,
            Event::CData(_) => XmlEventKind::CData,
            Event::Comment(_) => XmlEventKind::Comment,
            Event::Decl(_) => XmlEventKind::Decl,
            Event::PI(_) => XmlEventKind::PI,
            Event::DocType(_) => XmlEventKind::DocType,
            Event::GeneralRef(_) => XmlEventKind::GeneralRef,
            Event::Eof => XmlEventKind::Eof,
        }
    }

    /// The bytes between the event's markup delimiters: the bytes that each
    /// of quick-xml's event types dereferences to (none at the end).
    #[verifier::external_body]
    fn content(&self) -> (c: Vec<u8>)
        ensures
            xml_read_result(self.origin().0, self.origin().1, self.origin().2) matches Ok(v) ==> c@ == v.content,
    {
        match &self.event {
            Event::Start(e) | Event::Empty(e) => e.to_vec(),
            Event::End(e) => e.to_vec(),
            Event::Text(e) | Event::Comment(e) | Event::DocType(e) => e.to_vec(),
            Event::CData(e) => e.to_vec(),
            Event::Decl(e) => e.to_vec(),
            Event::PI(e) => e.to_vec(),
            Event::GeneralRef(e) => e.to_vec(),
            Event::Eof => Vec::new(),
        }
    }

    /// The qualified name of a tag event: calls `BytesStart::name` for a
    /// start or empty tag; an end tag's bytes; none for other events.
    #[verifier::external_body]
    fn name(&self) -> (n: Vec<u8>)
        ensures
            xml_read_result(self.origin().0, self.origin().1, self.origin().2) matches Ok(v) ==> n@ == v.name,
    {
        match &self.event {
            Event::Start(t) | Event::Empty(t) => t.name().as_ref().to_vec(),
            Event::End(t) => t.to_vec(),
            _ => Vec::new(),
        }
    }

    /// The start tag of a start or empty event, kept with its origin.
    #[verifier::external_body]
    fn into_handle(self) -> (h: TagHandle<'a>)
        ensures
            h.origin() == self.origin(),
    {
        let tag = match self.event {
            Event::Start(t) | Event::Empty(t) => Some(t),
            _ => None,
        };
        TagHandle { tag, origin: self.origin }
    }
}

/// One event read from a document.
pub struct XmlEvent<'a> {
    pub kind: XmlEventKind,
    pub content: Vec<u8>,
    pub name: Vec<u8>,
    pub start: usize,
    pub end: usize,
    pub handle: TagHandle<'a>,
}

impl<'a> XmlEvent<'a> {
    pub open spec fn view(&self) -> XmlEventView {
        XmlEventView {
            kind: self.kind,
            content: self.content@,
            name: self.name@,
            start: self.start as nat,
            end: self.end as nat,
        }
    }
}

/// The view of a read result.
pub open spec fn read_view<'a>(r: Result<XmlEvent<'a>, XmlError>) -> Result<XmlEventView, Seq<char>> {
    match r {
        Ok(e) => Ok(e.view()),
        Err(e) => Err(e.message@),
    }
}

/// A quick-xml reader over a byte slice.
pub struct XmlReader<'a> {
    inner: Reader<&'a [u8]>,
    pos: usize,
    input: Ghost<Seq<u8>>,
    trim: Ghost<bool>,
    count: Ghost<nat>,
}

impl<'a> XmlReader<'a> {
    /// The document being read.
    pub closed spec fn input(&self) -> Seq<u8> {
        self.input@
    }

    /// Whether text is trimmed.
    pub closed spec fn trim(&self) -> bool {
        self.trim@
    }

    /// How many events have been read.
    pub closed spec fn count(&self) -> nat {
        self.count@
    }

    /// The byte position reached.
    pub closed spec fn pos(&self) -> nat {
        self.pos as nat
    }

    /// Creates a reader over `input`: calls `Reader::from_reader` and sets
    /// the reader's `trim_text` configuration.
    #[verifier::external_body]
    pub fn new(input: &'a [u8], trim: bool) -> (r: Self)
        ensures
            r.input() == input@,
            r.trim() == trim,
            r.count() == 0,
            r.pos() == 0,
    {
        let mut inner = Reader::from_reader(input);
        inner.config_mut().trim_text(trim);
        XmlReader { inner, pos: 0, input: Ghost(input@), trim: Ghost(trim), count: Ghost(0) }
    }

    /// Reads the next event as quick-xml reports it: calls
    /// `Reader::read_event` and records the reader's `buffer_position`
    /// after it. The outcome is the named result for this document and
    /// index: a failure with its message, or an event whose span starts where
    /// the previous event ended and ends at the new position, within the
    /// document, and (unless it is the end of the document) spans at least
    /// one byte, since quick-xml's reader only moves forward.
    #[verifier::external_body]
    fn read_raw(&mut self) -> (r: Result<RawEvent<'a>, XmlError>)
        ensures
            final(self).input() == old(self).input(),
            final(self).trim() == old(self).trim(),
            final(self).count() == old(self).count() + 1,
            match xml_read_result(old(self).input(), old(self).trim(), old(self).count()) {
                Ok(v) => r matches Ok(raw) && raw.origin() == (old(self).input(), old(self).trim(), old(self).count())
                    && v.start == old(self).pos() && v.end == final(self).pos() && v.end <= old(self).input().len()
                    && (v.kind != XmlEventKind::Eof ==> v.start < v.end),
                Err(m) => r matches Err(e) && e.message@ == m,
            },
    {
        let origin = Ghost((self.input@, self.trim@, self.count@));
        self.count = Ghost(self.count@ + 1);
        let read = self.inner.read_event();
        self.pos = self.inner.buffer_position() as usize;
        match read {
            Ok(event) => Ok(RawEvent { event, origin }),
            Err(e) => Err(XmlError { message: format!("{e}") }),
        }
    }

    /// Reads the next event.
    pub fn read_event(&mut self) -> (r: Result<XmlEvent<'a>, XmlError>)
        ensures
            final(self).input() == old(self).input(),
            final(self).trim() == old(self).trim(),
            final(self).count() == old(self).count() + 1,
            read_view(r) == xml_read_result(old(self).input(), old(self).trim(), old(self).count()),
            r matches Ok(e) ==> {
                &&& e.handle.origin() == (old(self).input(), old(self).trim(), old(self).count())
                &&& e.start == old(self).pos()
                &&& final(self).pos() == e.end
                &&& e.end <= old(self).input().len()
                &&& e.kind != XmlEventKind::Eof ==> e.start < e.end
            },
    {
        let start = self.pos;
        let raw = match self.read_raw() {
            Ok(raw) => raw,
            Err(e) => {
                return Err(e);
            },
        };
        let kind = raw.kind();
        let content = raw.content();
        let name = raw.name();
        let end = self.pos;
        let handle = raw.into_handle();
        let event = XmlEvent { kind, content, name, start, end, handle };
        assert(Ok::<XmlEventView, Seq<char>>(event.view()) == xml_read_result(old(self).input(), old(self).trim(), old(self).count()));
        Ok(event)
    }
}

/// A namespace-aware quick-xml reader over a byte slice.
pub struct NsXmlReader<'a> {
    inner: NsReader<&'a [u8]>,
    pos: usize,
    input: Ghost<Seq<u8>>,
    trim: Ghost<bool>,
    count: Ghost<nat>,
}

impl<'a> NsXmlReader<'a> {
    /// The document being read.
    pub closed spec fn input(&self) -> Seq<u8> {
        self.input@
    }

    /// Whether text is trimmed.
    pub closed spec fn trim(&self) -> bool {
        self.trim@
    }

    /// How many events have been read.
    pub closed spec fn count(&self) -> nat {
        self.count@
    }

    /// The byte position reached.
    pub closed spec fn pos(&self) -> nat {
        self.pos as nat
    }

    /// Creates a reader over `input`: calls `NsReader::from_reader` and sets
    /// the reader's `trim_text` configuration.
    #[verifier::external_body]
    pub fn new(input: &'a [u8], trim: bool) -> (r: Self)
        ensures
            r.input() == input@,
            r.trim() == trim,
            r.count() == 0,
            r.pos() == 0,
    {
        let mut inner = NsReader::from_reader(input);
        inner.config_mut().trim_text(trim);
        NsXmlReader { inner, pos: 0, input: Ghost(input@), trim: Ghost(trim), count: Ghost(0) }
    }

    /// Reads the next event as quick-xml's namespace-aware reader reports it:
    /// calls `NsReader::read_event` and records the reader's
    /// `buffer_position` after it. That reader reads the event the plain
    /// reader reads and fails where taking the namespace declarations of a
    /// start or empty tag into scope fails. The outcome is: a failure with its
    /// message, or an event whose span starts where
    /// the previous event ended and ends at the new position, within the
    /// document, and (unless it is the end of the document) spans at least
    /// one byte, since quick-xml's reader only moves forward.
    #[verifier::external_body]
    fn read_raw(&mut self) -> (r: Result<RawEvent<'a>, XmlError>)
        ensures
            final(self).input() == old(self).input(),
            final(self).trim() == old(self).trim(),
            final(self).count() == old(self).count() + 1,
            match xml_read_result(old(self).input(), old(self).trim(), old(self).count()) {
                Ok(v) => if (v.kind == XmlEventKind::Start || v.kind == XmlEventKind::Empty) && xml_namespace_failure(
                    old(self).input(),
                    old(self).trim(),
                    old(self).count(),
                ) is Some {
                    r matches Err(e) && Some(e.message@) == xml_namespace_failure(
                        old(self).input(),
                        old(self).trim(),
                        old(self).count(),
                    )
                } else {
                    r matches Ok(raw) && raw.origin() == (old(self).input(), old(self).trim(), old(self).count())
                        && v.start == old(self).pos() && v.end == final(self).pos() && v.end <= old(self).input().len()
                        && (v.kind != XmlEventKind::Eof ==> v.start < v.end)
                },
                Err(m) => r matches Err(e) && e.message@ == m,
            },
    {
        let origin = Ghost((self.input@, self.trim@, self.count@));
        self.count = Ghost(self.count@ + 1);
        let read = self.inner.read_event();
        self.pos = self.inner.buffer_position() as usize;
        match read {
            Ok(event) => Ok(RawEvent { event, origin }),
            Err(e) => Err(XmlError { message: format!("{e}") }),
        }
    }

    /// Reads the next event.
    pub fn read_event(&mut self) -> (r: Result<XmlEvent<'a>, XmlError>)
        ensures
            final(self).input() == old(self).input(),
            final(self).trim() == old(self).trim(),
            final(self).count() == old(self).count() + 1,
            read_view(r) == ns_read_result(old(self).input(), old(self).trim(), old(self).count()),
            r is Ok ==> read_view(r) == xml_read_result(old(self).input(), old(self).trim(), old(self).count()),
            r matches Ok(e) ==> {
                &&& e.handle.origin() == (old(self).input(), old(self).trim(), old(self).count())
                &&& e.start == old(self).pos()
                &&& final(self).pos() == e.end
                &&& e.end <= old(self).input().len()
                &&& e.kind != XmlEventKind::Eof ==> e.start < e.end
            },
    {
        let start = self.pos;
        let raw = match self.read_raw() {
            Ok(raw) => raw,
            Err(e) => {
                return Err(e);
            },
        };
        let kind = raw.kind();
        let content = raw.content();
        let name = raw.name();
        let end = self.pos;
        let handle = raw.into_handle();
        let event = XmlEvent { kind, content, name, start, end, handle };
        assert(Ok::<XmlEventView, Seq<char>>(event.view()) == ns_read_result(old(self).input(), old(self).trim(), old(self).count()));
        Ok(event)
    }

    /// Resolves an attribute key's namespace in the reader's current scope:
    /// calls `NsReader::resolve_attribute`.
    #[verifier::external_body]
    pub fn resolve_attribute(&self, key: &[u8]) -> (r: AttributeNamespace)
        ensures
            r@ == xml_attribute_namespace(self.input(), self.trim(), self.count(), key@),
    {
        match self.inner.resolve_attribute(QName(key)).0 {
            ResolveResult::Unbound => AttributeNamespace::Unbound,
            ResolveResult::Bound(ns) => AttributeNamespace::Bound(ns.as_ref().to_vec()),
            ResolveResult::Unknown(prefix) => AttributeNamespace::Unknown(prefix),
        }
    }

    /// Resolves an element name's namespace in the reader's current scope,
    /// as quick-xml resolves the element of the event just read: calls
    /// `NsReader::resolve_element`.
    #[verifier::external_body]
    pub fn resolve_element(&self, name: &[u8]) -> (r: AttributeNamespace)
        ensures
            r@ == xml_element_namespace(self.input(), self.trim(), self.count(), name@),
    {
        match self.inner.resolve_element(QName(name)).0 {
            ResolveResult::Unbound => AttributeNamespace::Unbound,
            ResolveResult::Bound(ns) => AttributeNamespace::Bound(ns.as_ref().to_vec()),
            ResolveResult::Unknown(prefix) => AttributeNamespace::Unknown(prefix),
        }
    }
}

/// The view of an attribute iterator item.
pub open spec fn attribute_view(r: Option<Result<XmlAttribute, XmlError>>) -> Option<
    Result<(Seq<u8>, Seq<u8>), Seq<char>>,
> {
    match r {
        None => None,
        Some(Ok(a)) => Some(Ok((a.key@, a.value@))),
        Some(Err(e)) => Some(Err(e.message@)),
    }
}

/// The length of the tag content read as the given event.
pub open spec fn tag_content_len(origin: (Seq<u8>, bool, nat)) -> nat {
    match xml_read_result(origin.0, origin.1, origin.2) {
        Ok(e) => e.content.len(),
        Err(_) => 0,
    }
}

/// An iterator over the attributes of a start tag.
pub struct AttributeCursor<'e> {
    inner: Attributes<'e>,
    origin: Ghost<(Seq<u8>, bool, nat)>,
    count: Ghost<nat>,
}

impl<'e> AttributeCursor<'e> {
    /// The event whose attributes are iterated.
    pub closed spec fn origin(&self) -> (Seq<u8>, bool, nat) {
        self.origin@
    }

    /// How many items have been taken.
    pub closed spec fn count(&self) -> nat {
        self.count@
    }

    /// Starts iterating the attributes of the start tag behind an event:
    /// calls `BytesStart::attributes`.
    #[verifier::external_body]
    pub fn of<'a>(handle: &'e TagHandle<'a>) -> (r: Self)
        ensures
            r.origin() == handle.origin(),
            r.count() == 0,
    {
        let inner = match &handle.tag {
            Some(tag) => tag.attributes(),
            None => Attributes::new("", 0),
        };
        AttributeCursor { inner, origin: Ghost(handle.origin@), count: Ghost(0) }
    }

    /// The next attribute: calls `Attributes::next`. Each attribute quick-xml
    /// reports starts at a further non-blank byte of the tag, so a tag yields
    /// fewer items than it has bytes.
    #[verifier::external_body]
    pub fn next(&mut self) -> (r: Option<Result<XmlAttribute, XmlError>>)
        ensures
            final(self).origin() == old(self).origin(),
            final(self).count() == old(self).count() + 1,
            r is Some ==> old(self).count() < tag_content_len(old(self).origin()),
            attribute_view(r) == xml_attribute_at(
                old(self).origin().0,
                old(self).origin().1,
                old(self).origin().2,
                old(self).count(),
            ),
    {
        self.count = Ghost((self.count@ + 1) as nat);
        match self.inner.next() {
            None => None,
            Some(Ok(a)) => Some(Ok(XmlAttribute { key: a.key.as_ref().to_vec(), value: a.value.to_vec() })),
            Some(Err(e)) => Some(Err(XmlError { message: format!("{e}") })),
        }
    }
}

/// Decodes and unescapes a raw attribute value: calls `Attribute::unescape_value`.
#[verifier::external_body]
pub fn unescape_value(raw: &[u8]) -> (r: Result<String, XmlError>)
    ensures
        match r {
            Ok(s) => xml_unescaped_value(raw@) == Ok::<Seq<char>, Seq<char>>(s@),
            Err(e) => xml_unescaped_value(raw@) == Err::<Seq<char>, Seq<char>>(e.message@),
        },
{
    let attribute = Attribute {
        key: QName(b""),
        value: std::borrow::Cow::Borrowed(raw),
    };
    match attribute.unescape_value() {
        Ok(value) => Ok(value.into_owned()),
        Err(e) => Err(XmlError { message: format!("{e}") }),
    }
}

/// The bytes that quick-xml's `Writer::write_event` (without indentation)
/// produces for an event: its content between the event kind's delimiters.
pub open spec fn written(e: XmlEventView) -> Seq<u8> {
    match e.kind {
        XmlEventKind::Start => seq![60u8] + e.content + seq![62u8],
        XmlEventKind::End => seq![60u8, 47u8] + e.content + seq![62u8],
        XmlEventKind::Empty => seq![60u8] + e.content + seq![47u8, 62u8],
        XmlEventKind::Text => e.content,
        XmlEventKind::CData => seq![60u8, 33u8, 91u8, 67u8, 68u8, 65u8, 84u8, 65u8, 91u8]
            + e.content + seq![93u8, 93u8, 62u8],
        XmlEventKind::Comment => seq![60u8, 33u8, 45u8, 45u8] + e.content + seq![45u8, 45u8, 62u8],
        XmlEventKind::Decl => seq![60u8, 63u8] + e.content + seq![63u8, 62u8],
        XmlEventKind::PI => seq![60u8, 63u8] + e.content + seq![63u8, 62u8],
        XmlEventKind::DocType => seq![60u8, 33u8, 68u8, 79u8, 67u8, 84u8, 89u8, 80u8, 69u8, 32u8]
            + e.content + seq![62u8],
        XmlEventKind::GeneralRef => seq![38u8] + e.content + seq![59u8],
        XmlEventKind::Eof => Seq::empty(),
    }
}

/// Appends bytes to a buffer.
pub fn append_bytes(out: &mut Vec<u8>, bytes: &[u8])
    ensures
        final(out)@ == old(out)@ + bytes@,
{
    let ghost start = out@;
    let mut i: usize = 0;
    while i < bytes.len()
        invariant
            i <= bytes@.len(),
            out@ == start + bytes@.subrange(0, i as int),
        decreases bytes@.len() - i,
    {
        out.push(bytes[i]);
        i += 1;
        assert(start + bytes@.subrange(0, i as int) =~= (start + bytes@.subrange(0, (i - 1) as int)).push(bytes@[i - 1]));
    }
    assert(bytes@.subrange(0, bytes@.len() as int) =~= bytes@);
}

fn append_seq3(out: &mut Vec<u8>, a: u8, b: u8, c: u8)
    ensures
        final(out)@ == old(out)@ + seq![a, b, c],
{
    out.push(a);
    out.push(b);
    out.push(c);
    assert(final(out)@ =~= old(out)@ + seq![a, b, c]);
}

/// Appends the bytes that writing an event produces.
pub fn write_event(out: &mut Vec<u8>, e: &XmlEvent)
    ensures
        final(out)@ == old(out)@ + written(e.view()),
{
    let ghost start = out@;
    match e.kind {
        XmlEventKind::Start => {
            out.push(60u8);
            append_bytes(out, &e.content);
            out.push(62u8);
        },
        XmlEventKind::End => {
            out.push(60u8);
            out.push(47u8);
            append_bytes(out, &e.content);
            out.push(62u8);
        },
        XmlEventKind::Empty => {
            out.push(60u8);
            append_bytes(out, &e.content);
            out.push(47u8);
            out.push(62u8);
        },
        XmlEventKind::Text => {
            append_bytes(out, &e.content);
        },
        XmlEventKind::CData => {
            append_seq3(out, 60u8, 33u8, 91u8);
            append_seq3(out, 67u8, 68u8, 65u8);
            append_seq3(out, 84u8, 65u8, 91u8);
            append_bytes(out, &e.content);
            append_seq3(out, 93u8, 93u8, 62u8);
        },
        XmlEventKind::Comment => {
            out.push(60u8);
            append_seq3(out, 33u8, 45u8, 45u8);
            append_bytes(out, &e.content);
            append_seq3(out, 45u8, 45u8, 62u8);
        },
        XmlEventKind::Decl | XmlEventKind::PI => {
            out.push(60u8);
            out.push(63u8);
            append_bytes(out, &e.content);
            out.push(63u8);
            out.push(62u8);
        },
        XmlEventKind::DocType => {
            out.push(60u8);
            append_seq3(out, 33u8, 68u8, 79u8);
            append_seq3(out, 67u8, 84u8, 89u8);
            append_seq3(out, 80u8, 69u8, 32u8);
            append_bytes(out, &e.content);
            out.push(62u8);
        },
        XmlEventKind::GeneralRef => {
            out.push(38u8);
            append_bytes(out, &e.content);
            out.push(59u8);
        },
        XmlEventKind::Eof => {},
    }
    assert(out@ =~= start + written(e.view()));
}

/// The bytes of a string literal.
pub open spec fn lit(s: &str) -> Seq<u8> {
    s.spec_bytes()
}

/// Whether `b` equals the bytes of `s`.
pub fn bytes_eq_lit(b: &[u8], s: &str) -> (r: bool)
    ensures
        r == (b@ == lit(s)),
{
    let l = s.as_bytes();
    if b.len() != l.len() {
        return false;
    }
    let mut i: usize = 0;
    while i < b.len()
        invariant
            b@.len() == l@.len(),
            l@ == lit(s),
            i <= b@.len(),
            forall|j: int| 0 <= j < i ==> b@[j] == l@[j],
        decreases b@.len() - i,
    {
        if b[i] != l[i] {
            return false;
        }
        i += 1;
    }
    assert(b@ =~= l@);
    true
}

/// Whether two byte slices are equal.
pub fn bytes_eq(a: &[u8], b: &[u8]) -> (r: bool)
    ensures
        r == (a@ == b@),
{
    if a.len() != b.len() {
        return false;
    }
    let mut i: usize = 0;
    while i < a.len()
        invariant
            a@.len() == b@.len(),
            i <= a@.len(),
            forall|j: int| 0 <= j < i ==> a@[j] == b@[j],
        decreases a@.len() - i,
    {
        if a[i] != b[i] {
            return false;
        }
        i += 1;
    }
    assert(a@ =~= b@);
    true
}

/// The number of bytes after the last `:` of a qualified name.
pub open spec fn local_start(name: Seq<u8>) -> int
    decreases name.len(),
{
    if name.len() == 0 {
        0
    } else if name.last() == 58u8 {
        name.len() as int
    } else {
        local_start(name.drop_last())
    }
}

/// The local part of a qualified name: the bytes after its last `:`.
pub open spec fn local_name(name: Seq<u8>) -> Seq<u8> {
    name.skip(local_start(name))
}

proof fn lemma_local_start(name: Seq<u8>)
    ensures
        0 <= local_start(name) <= name.len(),
        forall|j: int| local_start(name) <= j < name.len() ==> name[j] != 58u8,
        local_start(name) > 0 ==> name[local_start(name) - 1] == 58u8,
    decreases name.len(),
{
    if name.len() > 0 && name.last() != 58u8 {
        lemma_local_start(name.drop_last());
        assert forall|j: int| local_start(name) <= j < name.len() implies name[j] != 58u8 by {
            if j < name.len() - 1 {
                assert(name[j] == name.drop_last()[j]);
            }
        }
    }
}

/// The local part of a qualified name.
pub fn xml_local_name(name: &[u8]) -> (r: Vec<u8>)
    ensures
        r@ == local_name(name@),
{
    proof {
        lemma_local_start(name@);
    }
    let mut i: usize = name.len();
    while i > 0 && name[i - 1] != 58u8
        invariant
            i <= name@.len(),
            local_start(name@) <= i,
            forall|j: int| i <= j < name@.len() ==> name@[j] != 58u8,
            0 <= local_start(name@) <= name@.len(),
            forall|j: int| local_start(name@) <= j < name@.len() ==> name@[j] != 58u8,
            local_start(name@) > 0 ==> name@[local_start(name@) - 1] == 58u8,
        decreases i,
    {
        i -= 1;
    }
    let mut r: Vec<u8> = Vec::new();
    let mut k: usize = i;
    while k < name.len()
        invariant
            i <= k <= name@.len(),
            r@ == name@.subrange(i as int, k as int),
        decreases name@.len() - k,
    {
        r.push(name[k]);
        k += 1;
    }
    assert(i == local_start(name@));
    assert(r@ =~= local_name(name@));
    r
}

/// Whether the local part of an event's name equals `s`.
pub fn local_name_is(name: &[u8], s: &str) -> (r: bool)
    ensures
        r == (local_name(name@) == lit(s)),
{
    let local = xml_local_name(name);
    bytes_eq_lit(&local, s)
}

/// Looks up, from attribute `k` on, the first attribute whose key is `key`
/// and decodes its value; an iterator or decoding failure ends the lookup.
pub open spec fn attr_lookup(
    origin: (Seq<u8>, bool, nat),
    key: Seq<u8>,
    k: nat,
    fuel: nat,
) -> Result<Option<Seq<char>>, Seq<char>>
    decreases fuel,
{
    if fuel == 0 {
        Ok(None)
    } else {
        match xml_attribute_at(origin.0, origin.1, origin.2, k) {
            None => Ok(None),
            Some(Err(m)) => Err(m),
            Some(Ok((kk, raw))) => if kk == key {
                match xml_unescaped_value(raw) {
                    Ok(v) => Ok(Some(v)),
                    Err(m) => Err(m),
                }
            } else {
                attr_lookup(origin, key, k + 1, (fuel - 1) as nat)
            },
        }
    }
}

/// The decoded value of the first attribute with key `key` of the tag read
/// as event `origin`, `None` when it has none.
pub open spec fn attribute_value(origin: (Seq<u8>, bool, nat), key: Seq<u8>) -> Result<
    Option<Seq<char>>,
    Seq<char>,
> {
    attr_lookup(origin, key, 0, tag_content_len(origin) + 1)
}

/// The view of an attribute lookup.
pub open spec fn lookup_view(r: Result<Option<String>, XmlError>) -> Result<Option<Seq<char>>, Seq<char>> {
    match r {
        Ok(Some(v)) => Ok(Some(v@)),
        Ok(None) => Ok(None),
        Err(e) => Err(e.message@),
    }
}

/// The decoded value of the first attribute named `key` of a start tag.
pub fn find_attribute(handle: &TagHandle, key: &str) -> (r: Result<Option<String>, XmlError>)
    ensures
        lookup_view(r) == attribute_value(handle.origin(), lit(key)),
{
    let ghost origin = handle.origin();
    let ghost fuel = tag_content_len(origin) + 1;
    let mut cursor = AttributeCursor::of(handle);
    loop
        invariant
            cursor.origin() == origin,
            origin == handle.origin(),
            cursor.count() < fuel,
            fuel == tag_content_len(origin) + 1,
            attribute_value(origin, lit(key)) == attr_lookup(
                origin,
                lit(key),
                cursor.count(),
                (fuel - cursor.count()) as nat,
            ),
        decreases fuel - cursor.count(),
    {
        let ghost k = cursor.count();
        match cursor.next() {
            None => {
                assert(xml_attribute_at(origin.0, origin.1, origin.2, k) is None);
                assert((fuel - k) as nat > 0);
                assert(attr_lookup(origin, lit(key), k, (fuel - k) as nat) == Ok::<Option<Seq<char>>, Seq<char>>(None));
                return Ok(None);
            },
            Some(Err(e)) => {
                return Err(e);
            },
            Some(Ok(a)) => {
                if bytes_eq_lit(&a.key, key) {
                    return match unescape_value(&a.value) {
                        Ok(v) => Ok(Some(v)),
                        Err(e) => Err(e),
                    };
                }
                assert((fuel - k - 1) as nat == (((fuel - k) as nat) - 1) as nat);
            },
        }
    }
}

} // verus!
