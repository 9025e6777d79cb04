//! The front-matter block of a note: a YAML table between two `---` lines at
//! the top of the file, and the body that follows it.
//!
//! The block is found and read by `gray_matter`. What it read is held here as
//! plain values, one [`HeaderValue`] for each key that a note's metadata is
//! made from.

use vstd::prelude::*;

verus! {

/// What `gray_matter` read from a front-matter block. Nothing of its inside is
/// known here but through [`pod_entries`].
#[verifier::external_type_specification]
#[verifier::external_body]
pub struct ExPod(gray_matter::Pod);

/// The value that a front-matter block gives to one key.
#[derive(Debug, PartialEq, Eq)]
pub enum HeaderValue {
    /// No value, as in `key:` or `key: ~`.
    Null,
    /// A string.
    Text(String),
    /// A whole number.
    Integer(i64),
    /// A number with a fractional part.
    Real,
    /// `true` or `false`.
    Boolean(bool),
    /// A sequence of values.
    List,
    /// A table of keys and values.
    Table,
}

/// A [`HeaderValue`] with its text as a sequence of characters.
pub enum HeaderValueView {
    Null,
    Text(Seq<char>),
    Integer(i64),
    Real,
    Boolean(bool),
    List,
    Table,
}

impl View for HeaderValue {
    type V = HeaderValueView;

    open spec fn view(&self) -> HeaderValueView {
        match self {
            HeaderValue::Null => HeaderValueView::Null,
            HeaderValue::Text(text) => HeaderValueView::Text(text@),
            HeaderValue::Integer(number) => HeaderValueView::Integer(*number),
            HeaderValue::Real => HeaderValueView::Real,
            HeaderValue::Boolean(flag) => HeaderValueView::Boolean(*flag),
            HeaderValue::List => HeaderValueView::List,
            HeaderValue::Table => HeaderValueView::Table,
        }
    }
}

/// The view of a value that may be missing.
pub open spec fn entry_view(value: Option<HeaderValue>) -> Option<HeaderValueView> {
    match value {
        Some(value) => Some(value@),
        None => None,
    }
}

/// The keys of a front-matter table with their values.
pub type Entries = Map<Seq<char>, HeaderValueView>;

/// What the table `entries` gives to `key`, if anything.
pub open spec fn entry(entries: Entries, key: Seq<char>) -> Option<HeaderValueView> {
    if entries.dom().contains(key) {
        Some(entries[key])
    } else {
        None
    }
}

/// A text taken apart: the entries of its front-matter block, where it has
/// one, and its body.
pub struct FrontMatter {
    pub header: Option<Entries>,
    pub body: Seq<char>,
}

/// The keys that `pod` holds, with their values. A `pod` that is no table
/// holds none.
pub uninterp spec fn pod_entries(pod: gray_matter::Pod) -> Entries;

/// What `gray_matter` makes of a text, read as YAML between `---` lines.
pub uninterp spec fn front_matter(text: Seq<char>) -> FrontMatter;

/// `gray_matter::Matter::<YAML>::parse`, with the delimiter `---` that
/// `Matter::new` sets. The parser gives back what it read from the front-matter
/// block, or nothing where it found no block or an empty one, and the rest of
/// the text. A block that is not YAML is no failure: it is read as
/// `Pod::Null`, which holds no key. Both results depend on the text alone;
/// [`front_matter`] is the name for them.
#[verifier::external_body]
fn parse_front_matter(text: &str) -> (parsed: (Option<gray_matter::Pod>, String))
    ensures
        front_matter(text@).body == parsed.1@,
        front_matter(text@).header == match parsed.0 {
            Some(pod) => Some(pod_entries(pod)),
            None => None,
        },
{
    let parsed = gray_matter::Matter::<gray_matter::engine::YAML>::new().parse(text);
    (parsed.data, parsed.content)
}

/// Looks `key` up in the table that a `gray_matter::Pod::Hash` holds, with
/// `HashMap::get`, and tells the variants of the value apart. A pod of another
/// variant has no key.
#[verifier::external_body]
fn header_entry(pod: &gray_matter::Pod, key: &str) -> (value: Option<HeaderValue>)
    ensures
        entry_view(value) == entry(pod_entries(*pod), key@),
{
    let found = match pod {
        gray_matter::Pod::Hash(table) => table.get(key)?,
        _ => return None,
    };
    Some(match found {
        gray_matter::Pod::Null => HeaderValue::Null,
        gray_matter::Pod::String(text) => HeaderValue::Text(text.clone()),
        gray_matter::Pod::Integer(number) => HeaderValue::Integer(*number),
        gray_matter::Pod::Float(_) => HeaderValue::Real,
        gray_matter::Pod::Boolean(flag) => HeaderValue::Boolean(*flag),
        gray_matter::Pod::Array(_) => HeaderValue::List,
        gray_matter::Pod::Hash(_) => HeaderValue::Table,
    })
}

/// The five entries of a front-matter block that a note's metadata is made
/// from, each as the block gives it, or `None` where the block has no such
/// key.
#[derive(Debug, PartialEq, Eq)]
pub struct Header {
    /// `source`
    pub source: Option<HeaderValue>,
    /// `scope`
    pub scope: Option<HeaderValue>,
    /// `type`
    pub kind: Option<HeaderValue>,
    /// `created`
    pub created: Option<HeaderValue>,
    /// `modified`
    pub modified: Option<HeaderValue>,
}

/// A [`Header`] with its texts as sequences of characters.
pub struct HeaderView {
    pub source: Option<HeaderValueView>,
    pub scope: Option<HeaderValueView>,
    pub kind: Option<HeaderValueView>,
    pub created: Option<HeaderValueView>,
    pub modified: Option<HeaderValueView>,
}

impl View for Header {
    type V = HeaderView;

    open spec fn view(&self) -> HeaderView {
        HeaderView {
            source: entry_view(self.source),
            scope: entry_view(self.scope),
            kind: entry_view(self.kind),
            created: entry_view(self.created),
            modified: entry_view(self.modified),
        }
    }
}

/// The view of a header that may be missing.
pub open spec fn header_view(header: Option<Header>) -> Option<HeaderView> {
    match header {
        Some(header) => Some(header@),
        None => None,
    }
}

/// The header that a table of entries gives.
pub open spec fn header_of(entries: Entries) -> HeaderView {
    HeaderView {
        source: entry(entries, "source"@),
        scope: entry(entries, "scope"@),
        kind: entry(entries, "type"@),
        created: entry(entries, "created"@),
        modified: entry(entries, "modified"@),
    }
}

/// The header that a text taken apart has, if it has one.
pub open spec fn header_in(parsed: FrontMatter) -> Option<HeaderView> {
    match parsed.header {
        Some(entries) => Some(header_of(entries)),
        None => None,
    }
}

/// Takes a note's text apart: into the header that its front-matter block
/// gives, where it opens with one, and the body after it.
pub fn split_note(text: &str) -> (parts: (Option<Header>, String))
    ensures
        header_view(parts.0) == header_in(front_matter(text@)),
        parts.1@ == front_matter(text@).body,
{
    let (data, body) = parse_front_matter(text);
    match data {
        Some(pod) => {
            let header = Header {
                source: header_entry(&pod, "source"),
                scope: header_entry(&pod, "scope"),
                kind: header_entry(&pod, "type"),
                created: header_entry(&pod, "created"),
                modified: header_entry(&pod, "modified"),
            };
            (Some(header), body)
        },
        None => (None, body),
    }
}

} // verus!
