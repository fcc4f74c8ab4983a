//! What a client says during the handshake, and how it is read from the XML
//! document that carries it.

use quick_xml::events::{BytesCData, BytesEnd, BytesStart, Event};
use quick_xml::reader::Reader;
use vstd::prelude::*;
use crate::text::{copy_string, same_text};

verus! {

#[derive(Debug, Clone, PartialEq, Eq)]
pub enum Packet {
    /// The client names the protocol version that it speaks.
    VersionCheck { expected: String },
    /// The client asks for the key to hash its password with.
    RandomKey,
    /// The client submits its credentials.
    Login { username: String, password: String },
}

/// A handshake message as plain values.
pub enum PacketView {
    VersionCheck { expected: Seq<char> },
    RandomKey,
    Login { username: Seq<char>, password: Seq<char> },
}

impl View for Packet {
    type V = PacketView;

    open spec fn view(&self) -> PacketView {
        match *self {
            Packet::VersionCheck { expected } => PacketView::VersionCheck { expected: expected@ },
            Packet::RandomKey => PacketView::RandomKey,
            Packet::Login { username, password } => PacketView::Login {
                username: username@,
                password: password@,
            },
        }
    }
}

/// Why a document is no handshake message.
#[derive(Debug, Clone, PartialEq, Eq)]
pub enum XmlError {
    /// The document is no well-formed XML.
    Syntax,
    /// A tag that matters has an attribute that is not well formed.
    Attribute,
    /// The action that the document names is none of the handshake.
    UnknownAction(String),
}

/// An `XmlError` as plain values.
pub enum XmlErrorView {
    Syntax,
    Attribute,
    UnknownAction(Seq<char>),
}

impl View for XmlError {
    type V = XmlErrorView;

    open spec fn view(&self) -> XmlErrorView {
        match *self {
            XmlError::Syntax => XmlErrorView::Syntax,
            XmlError::Attribute => XmlErrorView::Attribute,
            XmlError::UnknownAction(a) => XmlErrorView::UnknownAction(a@),
        }
    }
}

/// One attribute of a tag: its key and its value, or nothing where it is not
/// well formed.
pub type Attribute = Option<(String, String)>;

/// One piece of a document.
#[derive(Debug, Clone, PartialEq, Eq)]
pub enum Token {
    /// `<name ...>`
    Start { name: String, attributes: Vec<Attribute> },
    /// `<name ... />`
    Empty { name: String, attributes: Vec<Attribute> },
    /// `</name>`
    End { name: String },
    /// `<![CDATA[...]]>`
    CData(String),
    /// Anything else: text, comments, declarations.
    Other,
}

/// An attribute as plain values.
pub open spec fn attribute_view(a: Attribute) -> Option<(Seq<char>, Seq<char>)> {
    match a {
        Some((k, v)) => Some((k@, v@)),
        None => None,
    }
}

/// The attributes of a tag as plain values.
pub open spec fn attribute_views(v: Seq<Attribute>) -> Seq<Option<(Seq<char>, Seq<char>)>> {
    Seq::new(v.len(), |i: int| attribute_view(v[i]))
}

/// A `Token` as plain values.
pub enum TokenView {
    Start { name: Seq<char>, attributes: Seq<Option<(Seq<char>, Seq<char>)>> },
    Empty { name: Seq<char>, attributes: Seq<Option<(Seq<char>, Seq<char>)>> },
    End { name: Seq<char> },
    CData(Seq<char>),
    Other,
}

impl View for Token {
    type V = TokenView;

    open spec fn view(&self) -> TokenView {
        match *self {
            Token::Start { name, attributes } => TokenView::Start {
                name: name@,
                attributes: attribute_views(attributes@),
            },
            Token::Empty { name, attributes } => TokenView::Empty {
                name: name@,
                attributes: attribute_views(attributes@),
            },
            Token::End { name } => TokenView::End { name: name@ },
            Token::CData(text) => TokenView::CData(text@),
            Token::Other => TokenView::Other,
        }
    }
}

/// What has been gathered from a document so far.
pub struct LoginFields {
    pub action: String,
    pub version: String,
    pub username: String,
    pub password: String,
    /// Whether the place is inside `<nick>`.
    pub in_nick: bool,
    /// Whether the place is inside `<pword>`.
    pub in_pword: bool,
}

/// `LoginFields` as plain values.
pub struct LoginFieldsView {
    pub action: Seq<char>,
    pub version: Seq<char>,
    pub username: Seq<char>,
    pub password: Seq<char>,
    pub in_nick: bool,
    pub in_pword: bool,
}

impl View for LoginFields {
    type V = LoginFieldsView;

    open spec fn view(&self) -> LoginFieldsView {
        LoginFieldsView {
            action: self.action@,
            version: self.version@,
            username: self.username@,
            password: self.password@,
            in_nick: self.in_nick,
            in_pword: self.in_pword,
        }
    }
}

/// What the attributes say of `key`: the value of the last attribute with
/// that key, or `fallback` where there is none. `None` where one of the
/// attributes is not well formed.
pub open spec fn attribute_value(
    attributes: Seq<Option<(Seq<char>, Seq<char>)>>,
    key: Seq<char>,
    fallback: Seq<char>,
) -> Option<Seq<char>>
    decreases attributes.len(),
{
    if attributes.len() == 0 {
        Some(fallback)
    } else {
        match (attribute_value(attributes.drop_last(), key, fallback), attributes.last()) {
            (Some(before), Some((k, v))) => if k == key {
                Some(v)
            } else {
                Some(before)
            },
            _ => None,
        }
    }
}

impl LoginFieldsView {
    /// Nothing gathered yet.
    pub open spec fn fresh() -> LoginFieldsView {
        LoginFieldsView {
            action: seq![],
            version: seq![],
            username: seq![],
            password: seq![],
            in_nick: false,
            in_pword: false,
        }
    }

    /// What is gathered after one more token; or the error, where a tag that
    /// matters has a bad attribute.
    ///
    /// The action is an attribute of the opening `<body>`, the version an
    /// attribute of the empty `<ver/>`. The user's name is the character data
    /// inside `<nick>`, the password that inside `<pword>`.
    pub open spec fn absorb(self, token: TokenView) -> Result<LoginFieldsView, XmlErrorView> {
        match token {
            TokenView::Start { name, attributes } => {
                if name == "body"@ {
                    match attribute_value(attributes, "action"@, self.action) {
                        Some(action) => Ok(LoginFieldsView { action, ..self }),
                        None => Err(XmlErrorView::Attribute),
                    }
                } else if name == "nick"@ {
                    Ok(LoginFieldsView { in_nick: true, ..self })
                } else if name == "pword"@ {
                    Ok(LoginFieldsView { in_pword: true, ..self })
                } else {
                    Ok(self)
                }
            },
            TokenView::Empty { name, attributes } => {
                if name == "ver"@ {
                    match attribute_value(attributes, "v"@, self.version) {
                        Some(version) => Ok(LoginFieldsView { version, ..self }),
                        None => Err(XmlErrorView::Attribute),
                    }
                } else {
                    Ok(self)
                }
            },
            TokenView::End { name } => {
                if name == "nick"@ {
                    Ok(LoginFieldsView { in_nick: false, ..self })
                } else if name == "pword"@ {
                    Ok(LoginFieldsView { in_pword: false, ..self })
                } else {
                    Ok(self)
                }
            },
            TokenView::CData(text) => {
                if self.in_nick {
                    Ok(LoginFieldsView { username: text, ..self })
                } else if self.in_pword {
                    Ok(LoginFieldsView { password: text, ..self })
                } else {
                    Ok(self)
                }
            },
            TokenView::Other => Ok(self),
        }
    }

    /// What is gathered after all the tokens, or the first error.
    pub open spec fn absorb_all(self, tokens: Seq<TokenView>) -> Result<
        LoginFieldsView,
        XmlErrorView,
    >
        decreases tokens.len(),
    {
        if tokens.len() == 0 {
            Ok(self)
        } else {
            match self.absorb_all(tokens.drop_last()) {
                Ok(fields) => fields.absorb(tokens.last()),
                Err(e) => Err(e),
            }
        }
    }

    /// The message that a finished document stands for: the action decides.
    pub open spec fn conclude(self) -> Result<PacketView, XmlErrorView> {
        if self.action == "verChk"@ {
            Ok(PacketView::VersionCheck { expected: self.version })
        } else if self.action == "rndK"@ {
            Ok(PacketView::RandomKey)
        } else if self.action == "login"@ {
            Ok(PacketView::Login { username: self.username, password: self.password })
        } else {
            Err(XmlErrorView::UnknownAction(self.action))
        }
    }
}

/// What the attributes say of `key`.
fn find_attribute(attributes: &Vec<Attribute>, key: &str, fallback: String) -> (out: Option<String>)
    ensures
        match out {
            Some(v) => attribute_value(attribute_views(attributes@), key@, fallback@) == Some(v@),
            None => attribute_value(attribute_views(attributes@), key@, fallback@) is None,
        },
{
    let ghost all = attribute_views(attributes@);
    let ghost first = fallback@;
    let mut value = fallback;
    let mut i: usize = 0;
    assert(all.take(0) =~= Seq::<Option<(Seq<char>, Seq<char>)>>::empty());
    while i < attributes.len()
        invariant
            0 <= i <= attributes.len(),
            all == attribute_views(attributes@),
            first == fallback@,
            attribute_value(all.take(i as int), key@, first) == Some(value@),
        decreases attributes.len() - i,
    {
        let ghost upto = all.take(i + 1);
        assert(upto.drop_last() =~= all.take(i as int));
        assert(upto.last() == attribute_view(attributes@[i as int]));
        match &attributes[i] {
            Some((k, v)) => {
                if same_text(k.as_str(), key) {
                    value = copy_string(v);
                }
            },
            None => {
                proof {
                    assert(all[i as int] == attribute_view(attributes@[i as int]));
                    lemma_attribute_value_fails(all, i as int, key@, first);
                }
                return None;
            },
        }
        i += 1;
    }
    assert(all.take(attributes.len() as int) =~= all);
    Some(value)
}

/// One attribute that is not well formed spoils the lot.
proof fn lemma_attribute_value_fails(
    attributes: Seq<Option<(Seq<char>, Seq<char>)>>,
    at: int,
    key: Seq<char>,
    fallback: Seq<char>,
)
    requires
        0 <= at < attributes.len(),
        attributes[at] is None,
    ensures
        attribute_value(attributes, key, fallback) is None,
    decreases attributes.len(),
{
    if at < attributes.len() - 1 {
        lemma_attribute_value_fails(attributes.drop_last(), at, key, fallback);
    }
}

impl LoginFields {
    /// Nothing gathered yet.
    pub fn new() -> (out: LoginFields)
        ensures
            out@ == LoginFieldsView::fresh(),
    {
        LoginFields {
            action: String::new(),
            version: String::new(),
            username: String::new(),
            password: String::new(),
            in_nick: false,
            in_pword: false,
        }
    }

    /// Takes in one more token of the document.
    pub fn absorb(self, token: Token) -> (out: Result<LoginFields, XmlError>)
        ensures
            match out {
                Ok(fields) => self@.absorb(token@) == Ok::<LoginFieldsView, XmlErrorView>(fields@),
                Err(e) => self@.absorb(token@) == Err::<LoginFieldsView, XmlErrorView>(e@),
            },
    {
        let mut fields = self;
        match token {
            Token::Start { name, attributes } => {
                if same_text(name.as_str(), "body") {
                    let before = copy_string(&fields.action);
                    match find_attribute(&attributes, "action", before) {
                        Some(action) => {
                            fields.action = action;
                        },
                        None => {
                            return Err(XmlError::Attribute);
                        },
                    }
                } else if same_text(name.as_str(), "nick") {
                    fields.in_nick = true;
                } else if same_text(name.as_str(), "pword") {
                    fields.in_pword = true;
                }
            },
            Token::Empty { name, attributes } => {
                if same_text(name.as_str(), "ver") {
                    let before = copy_string(&fields.version);
                    match find_attribute(&attributes, "v", before) {
                        Some(version) => {
                            fields.version = version;
                        },
                        None => {
                            return Err(XmlError::Attribute);
                        },
                    }
                }
            },
            Token::End { name } => {
                if same_text(name.as_str(), "nick") {
                    fields.in_nick = false;
                } else if same_text(name.as_str(), "pword") {
                    fields.in_pword = false;
                }
            },
            Token::CData(text) => {
                if fields.in_nick {
                    fields.username = text;
                } else if fields.in_pword {
                    fields.password = text;
                }
            },
            Token::Other => {},
        }
        Ok(fields)
    }

    /// The message that a finished document stands for.
    pub fn conclude(self) -> (out: Result<Packet, XmlError>)
        ensures
            match out {
                Ok(p) => self@.conclude() == Ok::<PacketView, XmlErrorView>(p@),
                Err(e) => self@.conclude() == Err::<PacketView, XmlErrorView>(e@),
            },
    {
        if same_text(self.action.as_str(), "verChk") {
            Ok(Packet::VersionCheck { expected: self.version })
        } else if same_text(self.action.as_str(), "rndK") {
            Ok(Packet::RandomKey)
        } else if same_text(self.action.as_str(), "login") {
            Ok(Packet::Login { username: self.username, password: self.password })
        } else {
            Err(XmlError::UnknownAction(self.action))
        }
    }
}

/// The message that a document of these tokens stands for.
pub open spec fn message_of(tokens: Seq<TokenView>) -> Result<PacketView, XmlErrorView> {
    match LoginFieldsView::fresh().absorb_all(tokens) {
        Ok(fields) => fields.conclude(),
        Err(e) => Err(e),
    }
}

/// `quick_xml::reader::Reader`, the parser with its place in the document.
/// Trusted as a value that is carried and handed on; nothing inside it is
/// looked at.
#[verifier::external_type_specification]
#[verifier::external_body]
#[verifier::reject_recursive_types(R)]
pub struct ExReader<R>(Reader<R>);

/// `quick_xml::events::BytesStart`, an opening or empty tag as the parser
/// hands it out. Trusted as a value that is carried and handed on.
#[verifier::external_type_specification]
#[verifier::external_body]
pub struct ExBytesStart<'i>(BytesStart<'i>);

/// `quick_xml::events::BytesEnd`, a closing tag as the parser hands it out.
/// Trusted as a value that is carried and handed on.
#[verifier::external_type_specification]
#[verifier::external_body]
pub struct ExBytesEnd<'i>(BytesEnd<'i>);

/// `quick_xml::events::BytesCData`, a character data section as the parser
/// hands it out. Trusted as a value that is carried and handed on.
#[verifier::external_type_specification]
#[verifier::external_body]
pub struct ExBytesCData<'i>(BytesCData<'i>);

/// One piece of a document as the parser hands it out.
enum RawToken<'i> {
    Start(BytesStart<'i>),
    Empty(BytesStart<'i>),
    End(BytesEnd<'i>),
    CData(BytesCData<'i>),
    Eof,
    Other,
}

/// A parser at the start of the document.
///
/// Trusted: stands for `quick_xml::reader::Reader::from_str`. Nothing is
/// claimed of the parser.
#[verifier::external_body]
fn open_document<'i>(raw: &'i str) -> (out: Reader<&'i [u8]>) {
    Reader::from_str(raw)
}

/// The next piece of the document, or the error that the parser found.
///
/// Trusted: stands for `Reader::read_event` on a document in memory. Nothing
/// is claimed of what comes out.
#[verifier::external_body]
fn next_token<'i>(reader: &mut Reader<&'i [u8]>) -> (out: Result<RawToken<'i>, XmlError>) {
    match reader.read_event() {
        Ok(Event::Start(tag)) => Ok(RawToken::Start(tag)),
        Ok(Event::Empty(tag)) => Ok(RawToken::Empty(tag)),
        Ok(Event::End(tag)) => Ok(RawToken::End(tag)),
        Ok(Event::CData(data)) => Ok(RawToken::CData(data)),
        Ok(Event::Eof) => Ok(RawToken::Eof),
        Ok(_) => Ok(RawToken::Other),
        Err(_) => Err(XmlError::Syntax),
    }
}

/// The name of an opening or empty tag.
///
/// Trusted: stands for `BytesStart::name`. Nothing is claimed of the name.
#[verifier::external_body]
fn start_name(tag: &BytesStart) -> (out: String) {
    tag.name().0.to_owned()
}

/// The attributes of an opening or empty tag, in order; nothing in the place
/// of one that is not well formed.
///
/// Trusted: stands for `BytesStart::attributes`. Nothing is claimed of the
/// attributes.
#[verifier::external_body]
fn start_attributes(tag: &BytesStart) -> (out: Vec<Attribute>) {
    tag.attributes().map(|a| a.ok().map(|a| (a.key.0.to_owned(), a.value.into_owned()))).collect()
}

/// The name of a closing tag.
///
/// Trusted: stands for `BytesEnd::name`. Nothing is claimed of the name.
#[verifier::external_body]
fn end_name(tag: &BytesEnd) -> (out: String) {
    tag.name().0.to_owned()
}

/// The text of a character data section.
///
/// Trusted: stands for `BytesCData::into_inner`. Nothing is claimed of the
/// text.
#[verifier::external_body]
fn cdata_text(data: BytesCData) -> (out: String) {
    data.into_inner().into_owned()
}

/// The piece as plain values, of the same kind as the piece; nothing at the
/// end of the document. The names, attributes and texts are the parser's.
fn plain(token: RawToken) -> (out: Option<Token>)
    ensures
        match token {
            RawToken::Start(_) => out matches Some(Token::Start { .. }),
            RawToken::Empty(_) => out matches Some(Token::Empty { .. }),
            RawToken::End(_) => out matches Some(Token::End { .. }),
            RawToken::CData(_) => out matches Some(Token::CData(_)),
            RawToken::Eof => out is None,
            RawToken::Other => out == Some(Token::Other),
        },
{
    match token {
        RawToken::Start(tag) => Some(
            Token::Start { name: start_name(&tag), attributes: start_attributes(&tag) },
        ),
        RawToken::Empty(tag) => Some(
            Token::Empty { name: start_name(&tag), attributes: start_attributes(&tag) },
        ),
        RawToken::End(tag) => Some(Token::End { name: end_name(&tag) }),
        RawToken::CData(data) => Some(Token::CData(cdata_text(data))),
        RawToken::Eof => None,
        RawToken::Other => Some(Token::Other),
    }
}

/// Whether the result is that of a document of these tokens.
pub open spec fn is_message_of(res: Result<Packet, XmlError>, tokens: Seq<TokenView>) -> bool {
    match res {
        Ok(p) => message_of(tokens) == Ok::<PacketView, XmlErrorView>(p@),
        Err(e) => message_of(tokens) == Err::<PacketView, XmlErrorView>(e@),
    }
}

/// Reads one XML document as a handshake message.
///
/// The parser cuts the document into tokens; what they mean is decided here.
/// The result is the message of the tokens that the parser gave, or the
/// parser's own error.
pub fn deserialize(raw: &str) -> (res: Result<Packet, XmlError>)
    ensures
        res == Err::<Packet, XmlError>(XmlError::Syntax) || exists|tokens: Seq<TokenView>|
            #[trigger] is_message_of(res, tokens),
{
    let mut reader = open_document(raw);
    let mut fields = LoginFields::new();
    let ghost mut seen: Seq<TokenView> = Seq::empty();
    // Every token but the end takes up a byte at least.
    let mut budget: usize = raw.len();
    loop
        invariant
            LoginFieldsView::fresh().absorb_all(seen) == Ok::<LoginFieldsView, XmlErrorView>(fields@),
        decreases budget,
    {
        let raw_token = match next_token(&mut reader) {
            Ok(t) => t,
            Err(e) => {
                return Err(XmlError::Syntax);
            },
        };
        let token = match plain(raw_token) {
            Some(t) => t,
            None => {
                let res = fields.conclude();
                assert(is_message_of(res, seen));
                return res;
            },
        };
        if budget == 0 {
            return Err(XmlError::Syntax);
        }
        budget = budget - 1;
        let ghost before = seen;
        proof {
            seen = seen.push(token@);
            assert(seen.drop_last() =~= before);
        }
        fields = match fields.absorb(token) {
            Ok(f) => f,
            Err(e) => {
                let res = Err(e);
                assert(is_message_of(res, seen));
                return res;
            },
        };
    }
}

} // verus!
