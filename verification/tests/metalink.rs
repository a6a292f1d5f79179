use ariax_engine::metalink::{parse_metalink, MetalinkProgress, Parser, XmlFindings};
use ariax_engine::metalink_follow::{FollowRequest, MetalinkFollowQueue};
use ariax_engine::metalink_selection::parse_selection;
use ariax_engine::metalink_spec::{MetalinkAnswer, MetalinkQuestion};
use ariax_engine::metalink_types::{
    Digest, DigestAlgorithm, DigestWords, MetalinkDocument, MetalinkError, MetalinkLimits, MetalinkOptions,
    SafeRelativePath,
};
use ariax_engine::protocols::{ProtocolRow, ProtocolTable, TransferProtocol};
use ariax_engine::urls::UrlParts;
use ariax_engine::xml::{XmlAttribute, XmlEvent};

const V3: &str = "http://www.metalinker.org/";
const V4: &str = "urn:ietf:params:xml:ns:metalink";
const SHA512: &str = "ddaf35a193617abacc417349ae20413112e6fa4e89a97ea20a9eeee64b55d39a2192992a274fc1a836ba3c23a3feebbd454d4423643ce80e2a9ac94fa54ca49f";
const MD5: &str = "900150983cd24fb0d6963f7d28e17f72";

fn row(code: &str, id: u8, http: bool, default_port: u16) -> ProtocolRow {
    ProtocolRow { code: code.to_owned(), protocol: TransferProtocol { id, http, enabled: true, default_port } }
}

fn limits() -> MetalinkLimits {
    MetalinkLimits {
        max_document_bytes: 64 * 1024 * 1024,
        max_piece_length: 1 << 30,
        max_chunks: 1 << 20,
        protocols: ProtocolTable {
            rows: vec![row("http", 0, true, 80), row("https", 1, true, 443), row("ftp", 2, false, 21)],
        },
    }
}

fn options() -> MetalinkOptions {
    MetalinkOptions::new(1024 * 1024)
}

fn safe_path(name: &str) -> Option<SafeRelativePath> {
    let safe = !name.is_empty()
        && !name.contains('\\')
        && name.split('/').all(|part| !part.is_empty() && part != "." && part != ".." && part != "CON");
    if safe {
        Some(SafeRelativePath { canonical: name.to_owned(), encoded_len: name.len() })
    } else {
        None
    }
}

fn word(text: &str, at: usize) -> Option<u128> {
    if text.len() < at + 32 {
        return if text.len() <= at { Some(0) } else { u128::from_str_radix(&text[at..], 16).ok() };
    }
    u128::from_str_radix(&text[at..at + 32], 16).ok()
}

fn digest(algorithm: DigestAlgorithm, text: &str) -> Option<Digest> {
    let length = match algorithm {
        DigestAlgorithm::Md5 => 32,
        DigestAlgorithm::Sha1 => 40,
        DigestAlgorithm::Sha256 => 64,
        DigestAlgorithm::Sha512 => 128,
    };
    if text.len() != length {
        return None;
    }
    let words = DigestWords {
        first: word(text, 0)?,
        second: word(text, 32)?,
        third: word(text, 64)?,
        fourth: word(text, 96)?,
    };
    Some(Digest { algorithm, words })
}

fn answer(question: MetalinkQuestion) -> MetalinkAnswer {
    match question {
        MetalinkQuestion::Path(name) => MetalinkAnswer::Path(safe_path(&name)),
        MetalinkQuestion::Digest { algorithm, text } => MetalinkAnswer::Digest(digest(algorithm, &text)),
        MetalinkQuestion::UriPath(_) => MetalinkAnswer::Accepted(true),
        MetalinkQuestion::Manifest(_) => MetalinkAnswer::Accepted(true),
    }
}

fn parse(bytes: &[u8], options: &MetalinkOptions) -> Result<MetalinkDocument, MetalinkError> {
    let limits = limits();
    let mut progress = parse_metalink(bytes, options, &limits)?;
    loop {
        progress = match progress {
            MetalinkProgress::Done(document) => return Ok(document),
            MetalinkProgress::Asks(parser, question) => parser.answer(answer(question))?,
        };
    }
}

fn v4(file: &str) -> String {
    format!("<metalink xmlns='{V4}'>{file}</metalink>")
}

#[test]
fn v3_v4_select_strongest_and_resolve_relative_mirrors() {
    for (document, version) in [
        (
            v4(&format!(
                "<file name='dir/a'><size>3</size><hash type='md5'>{MD5}</hash><pieces type='sha-512' length='3'><hash>{SHA512}</hash></pieces><url priority='2'>a</url><url priority='1'>b</url></file>"
            )),
            4,
        ),
        (
            format!(
                "<m:metalink xmlns:m='{V3}' version='3.0'><m:files><m:file name='dir/a'><m:size>3</m:size><m:verification><m:hash type='md5'>{MD5}</m:hash><m:pieces type='sha512' length='3'><m:hash piece='0'>{SHA512}</m:hash></m:pieces></m:verification><m:resources><m:url preference='1'>a</m:url><m:url preference='100'>b</m:url></m:resources></m:file></m:files></m:metalink>"
            ),
            3,
        ),
    ] {
        let mut options = options();
        options.base_uri = Some("https://example.test/files/index.meta4".to_owned());
        let parsed = parse(document.as_bytes(), &options).unwrap();
        assert_eq!(parsed.version, version);
        assert_eq!(parsed.files[0].sources[0].uri, "https://example.test/files/b");
        assert_eq!(parsed.files[0].verification.chunks[0].algorithm, DigestAlgorithm::Sha512);
        assert_eq!(parsed.files[0].verification.whole[0].algorithm, DigestAlgorithm::Md5);
    }
}

#[test]
fn xml_paths_algorithms_sources_and_selection_fail_closed() {
    let good = "<file name='a'><size>3</size><url>https://example.test/a</url></file>";
    for document in [
        format!("<!DOCTYPE metalink [<!ENTITY x SYSTEM 'file:///secret'>]>{}", v4(good)),
        format!("<?xml version='1.0' encoding='utf-16'?>{}", v4(good)),
        v4(&good.replace("name='a'", "name='../a'")),
        v4(&good.replace("name='a'", "name='CON'")),
        v4(&good.replace("name='a'", "name='a\\b'")),
        v4(&format!("{good}{good}")),
        v4(&good.replace("<size>3</size>", "<size>3</size><hash type='sha-256'>bad</hash>")),
        v4(&good.replace("<size>3</size>", "<size>3</size><hash type='unknown'>abc</hash>")),
        v4(&good.replace("https://example.test/a", "file:///private")),
        v4(good).replace("</file>", "</wrong>"),
    ] {
        assert!(parse(document.as_bytes(), &options()).is_err(), "accepted invalid metadata");
    }
    let mut second = options();
    second.select_file = Some("2".to_owned());
    assert!(parse(v4(good).as_bytes(), &second).is_err());
    let parsed = parse(
        v4(&format!("{good}{}", good.replace("name='a'", "name='b'"))).as_bytes(),
        &second,
    )
    .unwrap();
    assert_eq!(parsed.files[0].index, 2);
}

#[test]
fn resource_bounds_apply_to_ignored_extensions_and_emitted_results() {
    let attrs = (0..129).map(|i| format!(" a{i}='x'")).collect::<String>();
    let nested = format!("{}{}", "<x>".repeat(65), "</x>".repeat(65));
    for file in [format!("<extension{attrs}/>"), nested] {
        assert_eq!(parse(v4(&file).as_bytes(), &options()).err(), Some(MetalinkError::Limit));
    }
    let file = "<file name='a'><size>0</size><url>https://example.test/a</url></file>";
    let mut small = options();
    small.metadata_bytes = 1;
    assert_eq!(parse(v4(file).as_bytes(), &small).err(), Some(MetalinkError::Limit));
    let document = v4(file);
    for cut in 0..document.len() {
        assert!(parse(&document.as_bytes()[..cut], &options()).is_err());
    }
    assert!(parse(document.as_bytes(), &options()).is_ok());
}

#[test]
fn errors_name_what_is_wrong() {
    let good = "<file name='a'><size>3</size><url>https://example.test/a</url></file>";
    for (document, error) in [
        (v4(&good.replace("name='a'", "name='../a'")), MetalinkError::UnsafePath),
        (v4(&format!("{good}{}", good.replace("name='a'", "name='A'"))), MetalinkError::PathCollision),
        (v4(&good.replace("<size>3</size>", "<size>x</size>")), MetalinkError::InvalidSize),
        (
            v4(&good.replace("<size>3</size>", "<size>3</size><hash type='sha-256'>bad</hash>")),
            MetalinkError::InvalidChecksum,
        ),
        ("<metalink xmlns='urn:other'></metalink>".to_owned(), MetalinkError::Schema),
        (
            format!("<!DOCTYPE metalink [<!ENTITY x SYSTEM 'file:///secret'>]>{}", v4(good)),
            MetalinkError::Entity,
        ),
    ] {
        assert_eq!(parse(document.as_bytes(), &options()).err(), Some(error), "{document}");
    }
    assert_eq!(parse(&[0x3c, 0xff, 0x3e], &options()).err(), Some(MetalinkError::Encoding));
    assert_eq!(MetalinkError::Limit.message(), "Metalink Limit");
}

#[test]
fn escapes_in_names_and_addresses_are_resolved() {
    let file = "<file name='a&amp;b'><size>3</size><url>https://example.test/a?x=1&amp;y=2</url></file>";
    let parsed = parse(v4(file).as_bytes(), &options()).unwrap();
    assert_eq!(parsed.files[0].name.canonical, "a&b");
    assert_eq!(parsed.files[0].sources[0].uri, "https://example.test/a?x=1&y=2");
}

#[test]
fn selections_are_sorted_and_disjoint() {
    let ranges = parse_selection(Some("4-6,1")).unwrap();
    assert_eq!(ranges.len(), 2);
    assert_eq!(parse_selection(Some("1-3,3")), Err(MetalinkError::Selection));
    assert_eq!(parse_selection(Some("0")), Err(MetalinkError::Selection));
    assert_eq!(parse_selection(Some("3-1")), Err(MetalinkError::Selection));
    assert!(parse_selection(None).unwrap().is_empty());
}

#[test]
fn bounded_handoff_refunds_rejected_and_closed_requests() {
    let mut queue = MetalinkFollowQueue::default();
    let request = |ticket: u64| FollowRequest { ticket, metadata: 1 };
    let mut used = 0;
    for ticket in 0..64 {
        queue.push(request(ticket)).unwrap();
        used += 1;
    }
    assert_eq!(used, 64);
    let refused = queue.push(request(64)).unwrap_err();
    assert_eq!(refused, request(64));
    let accepted = queue.pop().unwrap();
    assert_eq!(accepted.ticket, 0);
    let told = queue.close();
    for returned in &told {
        used -= returned.metadata as i32;
    }
    assert_eq!(used, 1);
    assert!(queue.pop().is_none());
    assert!(queue.push(request(65)).is_err());
    assert_eq!(told[0].ticket, 1);
    used -= accepted.metadata as i32;
    assert_eq!(used, 0);
}

#[test]
fn names_that_differ_in_case_alone_collide() {
    let file = |name: &str| format!("<file name='{name}'><size>3</size><url>http://a.test/x</url></file>");
    let same = v4(&format!("{}{}", file("dir/\u{c4}B"), file("DIR/\u{e4}b")));
    assert!(matches!(parse(same.as_bytes(), &options()), Err(MetalinkError::PathCollision)));
    let other = v4(&format!("{}{}", file("dir/\u{c4}B"), file("dir/ab")));
    assert_eq!(parse(other.as_bytes(), &options()).expect("document").files.len(), 2);
}

#[test]
fn declarations_name_a_version_and_an_encoding() {
    let good = v4("<file name='a'><size>3</size><url>http://a.test/x</url></file>");
    let declared = |declaration: &str| parse(format!("{declaration}{good}").as_bytes(), &options()).map(|_| ());
    assert_eq!(declared("<?xml version=\"1.0\"?>"), Ok(()));
    assert_eq!(declared("<?xml version='1.0' encoding='utf-8' standalone='yes'?>"), Ok(()));
    assert_eq!(declared("<?xml version='1.1'?>"), Err(MetalinkError::Encoding));
    assert_eq!(declared("<?xml version='1.0' encoding='latin1'?>"), Err(MetalinkError::Encoding));
    assert_eq!(declared("<?xml encoding='utf-8'?>"), Err(MetalinkError::Xml));
    assert_eq!(declared("<?xml?>"), Err(MetalinkError::Xml));
    assert_eq!(declared("<?xml version='1.0'?><?xml version='1.0'?>"), Err(MetalinkError::Xml));
}

fn nothing() -> XmlFindings {
    XmlFindings { attributes: Vec::new(), url: None, value: None, version: None, encoding: None }
}

fn start(name: &str, attributes: &[(&str, &str)]) -> (XmlEvent, XmlFindings) {
    let attributes = attributes.iter().map(|(key, value)| {
        Some(XmlAttribute { key: (*key).to_owned(), raw_bytes: value.len(), value: Some((*value).to_owned()) })
    });
    (
        XmlEvent::Start { name: name.to_owned(), attributes: String::new() },
        XmlFindings { attributes: attributes.collect(), ..nothing() },
    )
}

fn read(
    parser: Parser,
    (event, found): (XmlEvent, XmlFindings),
    answer: MetalinkAnswer,
) -> Result<Parser, MetalinkError> {
    parser.read(event, found, answer, &options(), &limits(), &Vec::new())
}

fn in_file() -> Parser {
    let parser = read(Parser::new(), start("metalink", &[("xmlns", V4)]), MetalinkAnswer::Nothing).ok().expect("root");
    read(parser, start("file", &[("name", "a")]), MetalinkAnswer::Path(safe_path("a"))).ok().expect("file")
}

#[test]
fn events_are_read_with_what_was_found_for_them() {
    let text = |text: &str| (XmlEvent::Text(text.to_owned()), nothing());
    let end = |url: Option<UrlParts>| (XmlEvent::End, XmlFindings { url, ..nothing() });
    let url = |scheme: &str| UrlParts {
        text: format!("{scheme}://a.invalid/"),
        scheme: scheme.to_owned(),
        username: String::new(),
        password: None,
        host: Some("a.invalid".to_owned()),
        port: None,
        path: "/".to_owned(),
        fragment: None,
    };
    let plain = |parser: Parser, step: (XmlEvent, XmlFindings)| {
        read(parser, step, MetalinkAnswer::Nothing).ok().expect("step")
    };
    let sized = || {
        let parser = plain(in_file(), start("size", &[]));
        plain(plain(parser, text("3")), end(None))
    };
    let named = || plain(plain(sized(), start("url", &[("priority", "7")])), text("here"));

    let accepted = read(named(), end(Some(url("https"))), MetalinkAnswer::Accepted(true)).ok().expect("source");
    let closed = read(accepted, end(None), MetalinkAnswer::Accepted(true)).ok().expect("file");
    let document = plain(closed, end(None)).conclude(&Vec::new()).expect("document");
    assert_eq!(document.version, 4);
    assert_eq!(document.files[0].name, safe_path("a").expect("path"));
    assert_eq!(document.files[0].sources[0].uri, "https://a.invalid/");
    assert_eq!(document.files[0].sources[0].priority, 0);

    for (found, accepted) in [(None, true), (Some(url("https")), false)] {
        let refused = read(named(), end(found), MetalinkAnswer::Accepted(accepted));
        assert_eq!(refused.err(), Some(MetalinkError::InvalidSource));
    }
    let secret = UrlParts { password: Some("p".to_owned()), ..url("https") };
    assert_eq!(read(named(), end(Some(secret)), MetalinkAnswer::Accepted(true)).err(), Some(MetalinkError::InvalidSource));

    let reference = |value: Option<&str>| {
        (XmlEvent::Reference("lt".to_owned()), XmlFindings { value: value.map(str::to_owned), ..nothing() })
    };
    assert_eq!(read(in_file(), reference(None), MetalinkAnswer::Nothing).err(), Some(MetalinkError::Entity));
    assert_eq!(read(in_file(), reference(Some("<")), MetalinkAnswer::Nothing).err(), Some(MetalinkError::Schema));
    assert!(read(in_file(), reference(Some(" ")), MetalinkAnswer::Nothing).is_ok());

    let declaration = |version: Option<&str>, encoding: Option<Option<&str>>| {
        let found = XmlFindings {
            version: version.map(str::to_owned),
            encoding: encoding.map(|name| name.map(str::to_owned)),
            ..nothing()
        };
        read(Parser::new(), (XmlEvent::Declaration(String::new()), found), MetalinkAnswer::Nothing).err()
    };
    assert_eq!(declaration(None, None), Some(MetalinkError::Xml));
    assert_eq!(declaration(Some("1.1"), None), Some(MetalinkError::Encoding));
    assert_eq!(declaration(Some("1.0"), Some(None)), Some(MetalinkError::Encoding));
    assert_eq!(declaration(Some("1.0"), Some(Some("latin1"))), Some(MetalinkError::Encoding));
    assert_eq!(declaration(Some("1.0"), Some(Some("utf-8"))), None);
    assert_eq!(declaration(Some("1.0"), None), None);
}

#[test]
fn start_tags_keep_the_bounds() {
    let names: Vec<String> = (0..129).map(|i| format!("a{i}")).collect();
    let pairs: Vec<(&str, &str)> = names.iter().map(|name| (name.as_str(), "x")).collect();
    assert_eq!(read(in_file(), start("x:y", &[]), MetalinkAnswer::Nothing).err(), Some(MetalinkError::Schema));
    let foreign = |count: usize| {
        let mut attributes = vec![("xmlns", "urn:other")];
        attributes.extend_from_slice(&pairs[..count]);
        read(in_file(), start("y", &attributes), MetalinkAnswer::Nothing).err()
    };
    assert_eq!(foreign(127), None);
    assert_eq!(foreign(128), Some(MetalinkError::Limit));
    let mut parser = in_file();
    for _ in 2..64 {
        parser = read(parser, start("y", &[("xmlns", "urn:other")]), MetalinkAnswer::Nothing).ok().expect("deeper");
    }
    let deepest = read(parser, start("y", &[("xmlns", "urn:other")]), MetalinkAnswer::Nothing);
    assert_eq!(deepest.err(), Some(MetalinkError::Limit));
}
