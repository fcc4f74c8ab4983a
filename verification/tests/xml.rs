use xt_gateway::pkt::xml::client;
use xt_gateway::pkt::xml::client::{LoginFields, Token, XmlError};
use xt_gateway::pkt::xml::server;

#[test]
fn basic_serialization() {
    assert_eq!(
        server::serialize(server::Packet::ApiOK),
        r#"<msg t="sys"><body action="apiOK" r="0" /></msg>"#
    );
    assert_eq!(
        server::serialize(server::Packet::RandomKey("foo".to_owned())),
        r#"<msg t="sys"><body action="rndK" r="-1"><k>foo</k></body></msg>"#
    );
}

#[test]
fn basic_deserialization() {
    {
        let raw = r"<msg t='sys'><body action='verChk' r='0'><ver v='153' /></body></msg>";
        let pkt: client::Packet = client::deserialize(raw).expect("failed to deserialize");
        assert!(matches!(
            pkt,
            client::Packet::VersionCheck { expected } if expected == "153"
        ))
    }
    {
        let raw = r"<msg t='sys'><body action='rndK' r='-1'></body></msg>";
        let pkt: client::Packet = client::deserialize(raw).expect("failed to deserialize");
        assert!(matches!(pkt, client::Packet::RandomKey))
    }

    {
        let raw = r"<msg t='sys'><body action='login' r='0'><login z='w1'><nick><![CDATA[kirill]]></nick><pword><![CDATA[foo]]></pword></login></body></msg>";
        let pkt: client::Packet = client::deserialize(raw).expect("failed to deserialize");
        assert!(matches!(pkt, client::Packet::Login { username, password }
            if username == "kirill" && password == "foo"
        ))
    }
}

#[test]
fn document_with_unknown_action() {
    assert_eq!(
        client::deserialize("<msg t='sys'><body action='dance' r='0'></body></msg>"),
        Err(XmlError::UnknownAction("dance".to_owned()))
    );
    assert_eq!(
        client::deserialize("<msg t='sys'></msg>"),
        Err(XmlError::UnknownAction("".to_owned()))
    );
    assert_eq!(client::deserialize(""), Err(XmlError::UnknownAction("".to_owned())));
    // The action of a body without content is not looked at.
    assert_eq!(
        client::deserialize("<msg t='sys'><body action='rndK' r='-1' /></msg>"),
        Err(XmlError::UnknownAction("".to_owned()))
    );
}

#[test]
fn document_that_is_not_well_formed() {
    assert_eq!(
        client::deserialize("<msg t='sys'><body action='rndK' r='-1'></msg>"),
        Err(XmlError::Syntax)
    );
    assert_eq!(client::deserialize("<msg t='sys'><body action='rndK'"), Err(XmlError::Syntax));
}

#[test]
fn document_with_a_bad_attribute() {
    assert_eq!(
        client::deserialize("<msg t='sys'><body action='rndK' r></body></msg>"),
        Err(XmlError::Attribute)
    );
    // A bad attribute on a tag that does not matter is not looked at.
    assert_eq!(
        client::deserialize("<msg t><body action='rndK' r='-1'></body></msg>"),
        Ok(client::Packet::RandomKey)
    );
}

#[test]
fn version_outside_an_empty_tag_is_not_taken() {
    assert_eq!(
        client::deserialize("<msg t='sys'><body action='verChk' r='0'><ver v='153'></ver></body></msg>"),
        Ok(client::Packet::VersionCheck { expected: "".to_owned() })
    );
}

#[test]
fn login_takes_character_data_only() {
    let raw = "<msg t='sys'><body action='login' r='0'><login z='w1'><nick>plain</nick><pword><![CDATA[a]]><![CDATA[b]]></pword><![CDATA[outside]]></login></body></msg>";
    assert_eq!(
        client::deserialize(raw),
        Ok(client::Packet::Login { username: "".to_owned(), password: "b".to_owned() })
    );
}

fn start(name: &str, attributes: &[(&str, &str)]) -> Token {
    Token::Start {
        name: name.to_owned(),
        attributes: attributes.iter().map(|(k, v)| Some((k.to_string(), v.to_string()))).collect(),
    }
}

#[test]
fn fields_gathered_token_by_token() {
    let fields = LoginFields::new();
    let fields = fields.absorb(start("body", &[("action", "login"), ("r", "0")])).unwrap();
    assert_eq!(fields.action, "login");
    let fields = fields.absorb(Token::CData("early".to_owned())).unwrap();
    assert_eq!(fields.username, "");
    let fields = fields.absorb(start("nick", &[])).unwrap();
    assert!(fields.in_nick);
    let fields = fields.absorb(Token::CData("kirill".to_owned())).unwrap();
    let fields = fields.absorb(Token::End { name: "nick".to_owned() }).unwrap();
    assert!(!fields.in_nick);
    let fields = fields.absorb(start("pword", &[])).unwrap();
    let fields = fields.absorb(Token::Other).unwrap();
    let fields = fields.absorb(Token::CData("secret".to_owned())).unwrap();
    let fields = fields.absorb(Token::End { name: "pword".to_owned() }).unwrap();
    assert_eq!(
        fields.conclude(),
        Ok(client::Packet::Login { username: "kirill".to_owned(), password: "secret".to_owned() })
    );
}

#[test]
fn last_attribute_of_a_key_counts_and_a_bad_one_fails() {
    let fields = LoginFields::new();
    let fields = fields
        .absorb(start("body", &[("action", "rndK"), ("x", "y"), ("action", "verChk")]))
        .unwrap();
    assert_eq!(fields.action, "verChk");
    let fields = fields
        .absorb(Token::Empty {
            name: "ver".to_owned(),
            attributes: vec![Some(("v".to_owned(), "153".to_owned()))],
        })
        .unwrap();
    assert_eq!(fields.version, "153");
    let bad = Token::Start {
        name: "body".to_owned(),
        attributes: vec![Some(("action".to_owned(), "login".to_owned())), None],
    };
    assert_eq!(fields.absorb(bad).err(), Some(XmlError::Attribute));
}
