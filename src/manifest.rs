//! Reading the package identity out of a manifest document.
use vstd::prelude::*;
use std::io::Cursor;
use xml::reader::{EventReader, XmlEvent};
use crate::text::{push_char, str_equal};

verus! {

/// A pull parser over a document held in memory. Verus does not accept a
/// declaration of the parser type (its `Read` bound), so it is held opaquely.
#[verifier::external_body]
pub struct MarkupReader {
    parser: EventReader<Cursor<Vec<u8>>>,
}

/// An attribute of a start tag, by local name.
#[derive(Debug)]
pub struct Attribute {
    pub name: String,
    pub value: String,
}

/// What the markup parser reports, reduced to what the identity scan reads.
#[derive(Debug)]
pub enum MarkupEvent {
    /// A start tag with its local name and attributes.
    Start { local_name: String, attributes: Vec<Attribute> },
    /// The end of a well-formed document.
    End,
    /// The document is not well-formed.
    Malformed,
    /// Any other event.
    Other,
}

/// Why no identity could be read.
#[derive(Clone, Copy, Debug, PartialEq, Eq, Structural)]
pub enum ManifestError {
    /// The manifest file is missing.
    NotFound,
    /// The manifest is not well-formed markup.
    Parse,
    /// No `Identity` element, or one without `Name` or `Version`.
    MissingIdentity,
}

/// The identity a manifest declares.
#[derive(Debug)]
pub struct PackageIdentity {
    pub name: String,
    pub version: String,
}

pub open spec fn is_terminal(e: MarkupEvent) -> bool {
    e is End || e is Malformed
}

/// A stream of events as the parser yields it: finite, ending with its first
/// terminal event.
pub open spec fn stream_ok(s: Seq<MarkupEvent>) -> bool {
    &&& s.len() > 0
    &&& is_terminal(s.last())
    &&& forall|i: int| 0 <= i < s.len() - 1 ==> !is_terminal(#[trigger] s[i])
}

/// The events the markup parser yields for a document, up to and including the
/// first terminal one.
pub uninterp spec fn markup_of(doc: Seq<u8>) -> Seq<MarkupEvent>;

/// The events a reader has still to yield, up to and including the first
/// terminal one.
pub uninterp spec fn markup_ahead(r: MarkupReader) -> Seq<MarkupEvent>;

/// Relies on `EventReader::new`: a pull parser over the whole document, which
/// yields events until end of document or the first error.
#[verifier::external_body]
fn markup_reader(doc: Vec<u8>) -> (r: MarkupReader)
    ensures
        markup_ahead(r) == markup_of(doc@),
        stream_ok(markup_ahead(r)),
{
    MarkupReader { parser: EventReader::new(Cursor::new(doc)) }
}

/// Relies on `EventReader::next`: the next event; after an error or the end of
/// the document, the same terminal event again.
#[verifier::external_body]
fn next_markup(r: &mut MarkupReader) -> (e: MarkupEvent)
    requires
        stream_ok(markup_ahead(*old(r))),
    ensures
        e == markup_ahead(*old(r))[0],
        markup_ahead(*final(r)) == if is_terminal(e) {
            markup_ahead(*old(r))
        } else {
            markup_ahead(*old(r)).drop_first()
        },
{
    match r.parser.next() {
        Ok(XmlEvent::StartElement { name, attributes, .. }) => MarkupEvent::Start {
            local_name: name.local_name,
            attributes: attributes.into_iter().map(
                |a| Attribute { name: a.name.local_name, value: a.value },
            ).collect(),
        },
        Ok(XmlEvent::EndDocument) => MarkupEvent::End,
        Ok(_) => MarkupEvent::Other,
        Err(_) => MarkupEvent::Malformed,
    }
}

/// The value of the first attribute named `key`.
pub open spec fn attribute_value(attrs: Seq<Attribute>, key: Seq<char>) -> Option<Seq<char>>
    decreases attrs.len(),
{
    if attrs.len() == 0 {
        None
    } else if attrs[0].name@ == key {
        Some(attrs[0].value@)
    } else {
        attribute_value(attrs.drop_first(), key)
    }
}

/// The identity carried by the attributes of an `Identity` element.
pub open spec fn identity_from_attributes(attrs: Seq<Attribute>) -> Result<(Seq<char>, Seq<char>), ManifestError> {
    match (attribute_value(attrs, "Name"@), attribute_value(attrs, "Version"@)) {
        (Some(n), Some(v)) => Ok((n, v)),
        _ => Err(ManifestError::MissingIdentity),
    }
}

pub open spec fn is_identity_tag(e: MarkupEvent) -> bool {
    e matches MarkupEvent::Start { local_name, .. } && local_name@ == "Identity"@
}

/// The reading of the first `Identity` element among `evs`, if there is one.
pub open spec fn first_identity(evs: Seq<MarkupEvent>) -> Option<Result<(Seq<char>, Seq<char>), ManifestError>>
    decreases evs.len(),
{
    if evs.len() == 0 {
        None
    } else {
        match first_identity(evs.drop_last()) {
            Some(r) => Some(r),
            None => match evs.last() {
                MarkupEvent::Start { local_name, attributes } => if local_name@ == "Identity"@ {
                    Some(identity_from_attributes(attributes@))
                } else {
                    None
                },
                _ => None,
            },
        }
    }
}

pub open spec fn has_malformed(evs: Seq<MarkupEvent>) -> bool {
    exists|i: int| 0 <= i < evs.len() && (#[trigger] evs[i]) is Malformed
}

/// The identity read from an event stream: a parse error anywhere fails the
/// read; otherwise the first `Identity` element decides, and only it.
pub open spec fn identity_in(evs: Seq<MarkupEvent>) -> Result<(Seq<char>, Seq<char>), ManifestError> {
    if has_malformed(evs) {
        Err(ManifestError::Parse)
    } else {
        match first_identity(evs) {
            Some(r) => r,
            None => Err(ManifestError::MissingIdentity),
        }
    }
}

/// How a result of the library stands for a spec-level identity result.
pub open spec fn identity_result_matches(
    r: Result<PackageIdentity, ManifestError>,
    s: Result<(Seq<char>, Seq<char>), ManifestError>,
) -> bool {
    match r {
        Ok(id) => s == Ok::<(Seq<char>, Seq<char>), ManifestError>((id.name@, id.version@)),
        Err(e) => s == Err::<(Seq<char>, Seq<char>), ManifestError>(e),
    }
}

fn find_attribute(attrs: &Vec<Attribute>, key: &str) -> (r: Option<String>)
    ensures
        r matches Some(v) ==> attribute_value(attrs@, key@) == Some(v@),
        r is None ==> attribute_value(attrs@, key@) is None,
{
    let mut i: usize = 0;
    assert(attrs@.subrange(0, attrs@.len() as int) == attrs@);
    while i < attrs.len()
        invariant
            i <= attrs@.len(),
            attribute_value(attrs@, key@) == attribute_value(attrs@.subrange(i as int, attrs@.len() as int), key@),
        decreases attrs.len() - i,
    {
        let ghost rest = attrs@.subrange(i as int, attrs@.len() as int);
        assert(rest.drop_first() == attrs@.subrange(i + 1, attrs@.len() as int));
        if str_equal(attrs[i].name.as_str(), key) {
            return Some(attrs[i].value.clone());
        }
        i = i + 1;
    }
    None
}

/// Reads the identity from the attributes of an `Identity` element.
pub fn identity_of_attributes(attrs: &Vec<Attribute>) -> (r: Result<PackageIdentity, ManifestError>)
    ensures
        identity_result_matches(r, identity_from_attributes(attrs@)),
{
    let name = find_attribute(attrs, "Name");
    let version = find_attribute(attrs, "Version");
    match (name, version) {
        (Some(name), Some(version)) => Ok(PackageIdentity { name, version }),
        _ => Err(ManifestError::MissingIdentity),
    }
}

proof fn lemma_first_identity_extend(evs: Seq<MarkupEvent>, e: MarkupEvent)
    ensures
        first_identity(evs.push(e)) == match first_identity(evs) {
            Some(r) => Some(r),
            None => match e {
                MarkupEvent::Start { local_name, attributes } => if local_name@ == "Identity"@ {
                    Some(identity_from_attributes(attributes@))
                } else {
                    None
                },
                _ => None,
            },
        },
{
    assert(evs.push(e).drop_last() == evs);
}

/// Reads the package identity from a manifest document: `Parse` when the
/// markup is malformed, otherwise the `Name` and `Version` of the first
/// `Identity` element, or `MissingIdentity`.
pub fn read_identity(document: Vec<u8>) -> (r: Result<PackageIdentity, ManifestError>)
    ensures
        identity_result_matches(r, identity_in(markup_of(document@))),
{
    let ghost all = markup_of(document@);
    let mut reader = markup_reader(document);
    let mut found: Option<Result<PackageIdentity, ManifestError>> = None;
    let ghost mut seen: Seq<MarkupEvent> = Seq::empty();
    loop
        invariant
            all == markup_of(document@),
            all == seen + markup_ahead(reader),
            stream_ok(markup_ahead(reader)),
            !has_malformed(seen),
            found is None <==> first_identity(seen) is None,
            found matches Some(f) ==> first_identity(seen) matches Some(s) && identity_result_matches(f, s),
        decreases markup_ahead(reader).len(),
    {
        let ghost ahead = markup_ahead(reader);
        let event = next_markup(&mut reader);
        proof {
            lemma_first_identity_extend(seen, event);
            assert(all == seen.push(event) + ahead.drop_first());
        }
        match event {
            MarkupEvent::Malformed => {
                proof {
                    assert(all[seen.len() as int] is Malformed);
                }
                return Err(ManifestError::Parse);
            },
            MarkupEvent::End => {
                proof {
                    assert(ahead.len() == 1);
                    assert(all == seen.push(event));
                    assert(!has_malformed(all)) by {
                        assert forall|i: int| 0 <= i < all.len() implies !((#[trigger] all[i]) is Malformed) by {
                            if i < seen.len() {
                                assert(all[i] == seen[i]);
                            }
                        }
                    }
                }
                return match found {
                    Some(f) => f,
                    None => Err(ManifestError::MissingIdentity),
                };
            },
            MarkupEvent::Start { local_name, attributes } => {
                if found.is_none() && str_equal(local_name.as_str(), "Identity") {
                    found = Some(identity_of_attributes(&attributes));
                }
                proof {
                    let next_seen = seen.push(MarkupEvent::Start { local_name, attributes });
                    assert forall|i: int| 0 <= i < next_seen.len() implies !((#[trigger] next_seen[i]) is Malformed) by {
                        if i < seen.len() {
                            assert(next_seen[i] == seen[i]);
                        }
                    }
                    seen = next_seen;
                }
            },
            MarkupEvent::Other => {
                proof {
                    let next_seen = seen.push(MarkupEvent::Other);
                    assert forall|i: int| 0 <= i < next_seen.len() implies !((#[trigger] next_seen[i]) is Malformed) by {
                        if i < seen.len() {
                            assert(next_seen[i] == seen[i]);
                        }
                    }
                    seen = next_seen;
                }
            },
        }
    }
}

/// The manifest path inside a package directory, with back slashes turned into
/// forward slashes.
pub open spec fn manifest_path_spec(package_dir: Seq<char>) -> Seq<char> {
    package_dir.map_values(|c: char| if c == '\\' { '/' } else { c }) + "/AppxManifest.xml"@
}

/// The path of the manifest file expected directly under `package_dir`.
pub fn manifest_path_for(package_dir: &str) -> (r: String)
    ensures
        r@ == manifest_path_spec(package_dir@),
{
    let n = package_dir.unicode_len();
    let mut path = String::new();
    let mut i: usize = 0;
    while i < n
        invariant
            n == package_dir@.len(),
            i <= n,
            path@ == package_dir@.subrange(0, i as int).map_values(
                |c: char| if c == '\\' { '/' } else { c },
            ),
        decreases n - i,
    {
        let c = package_dir.get_char(i);
        let d = if c == '\\' { '/' } else { c };
        push_char(&mut path, d);
        proof {
            assert(package_dir@.subrange(0, i + 1) == package_dir@.subrange(0, i as int).push(c));
            assert(path@ =~= package_dir@.subrange(0, i + 1).map_values(
                |c: char| if c == '\\' { '/' } else { c },
            ));
        }
        i = i + 1;
    }
    assert(package_dir@.subrange(0, n as int) == package_dir@);
    path.append("/AppxManifest.xml");
    path
}

} // verus!
