use vstd::prelude::*;
use vstd::string::*;
use vstd::utf8::*;

use crate::num::{is_float_text, parse_i64, spec_is_float_text, spec_parse_i64};

verus! {

/// Why a message body could not be read.
#[derive(Clone, Copy, Debug, PartialEq, Eq, Structural)]
pub enum ParseError {
    /// The body is not well-formed XML.
    MalformedXml,
    /// The body names no variant.
    NoVariant,
    /// The body names a variant that does not exist.
    InvalidVariant,
    /// A required element is missing or empty.
    MissingValue,
    /// An element's text is not a valid value.
    InvalidValue,
}

/// A top-level element of a message body: its tag name and its text.
#[derive(Clone, Debug, PartialEq, Eq)]
pub struct XmlField {
    pub name: String,
    pub text: Option<String>,
}

/// An element's tag name and text, as values.
pub type FieldView = (Seq<char>, Option<Seq<char>>);

/// The value of an optional string.
pub open spec fn opt_view(o: Option<String>) -> Option<Seq<char>> {
    match o {
        Some(s) => Some(s@),
        None => None,
    }
}

impl View for XmlField {
    type V = FieldView;

    open spec fn view(&self) -> FieldView {
        (self.name@, opt_view(self.text))
    }
}

/// The values of a sequence of elements.
pub open spec fn fields_view(v: Seq<XmlField>) -> Seq<FieldView> {
    v.map_values(|f: XmlField| f@)
}

/// What `String::from_utf8_lossy` makes of the bytes `b`.
pub uninterp spec fn utf8_lossy(b: Seq<u8>) -> Seq<char>;

/// The tag name and text of each child of the root element, in order, that
/// treexml's `Document::parse` reads from the document `doc`; `None` where it
/// reports an error or finds no root element.
pub uninterp spec fn treexml_root_children(doc: Seq<char>) -> Option<Seq<FieldView>>;

/// The document in which a message body is read: the body wrapped in a root element.
pub open spec fn xml_document(body: Seq<char>) -> Seq<char> {
    "<root>"@ + body + "</root>"@
}

/// A message body is read as the children of a `root` element: the body is
/// put between `<root>` and `</root>`, with nothing else added.
pub proof fn law_document_wraps_body(body: Seq<char>)
    ensures
        xml_document(body) == seq!['<', 'r', 'o', 'o', 't', '>'] + body + seq!['<', '/', 'r', 'o', 'o', 't', '>'],
{
    reveal_strlit("<root>");
    reveal_strlit("</root>");
    assert("<root>"@ =~= seq!['<', 'r', 'o', 'o', 't', '>']);
    assert("</root>"@ =~= seq!['<', '/', 'r', 'o', 'o', 't', '>']);
}

/// The elements that are read from the message body `b`.
pub open spec fn parsed_fields(b: Seq<u8>) -> Option<Seq<FieldView>> {
    treexml_root_children(xml_document(utf8_lossy(b)))
}

/// Calls `String::from_utf8_lossy`: bytes that are valid UTF-8 are decoded as
/// they are; the contract names the result of other bytes and says no more of it.
#[verifier::external_body]
fn from_utf8_lossy(b: &[u8]) -> (s: String)
    ensures
        s@ == utf8_lossy(b@),
        valid_utf8(b@) ==> s@ == decode_utf8(b@),
{
    String::from_utf8_lossy(b).into_owned()
}

/// Calls treexml's `Document::parse` on `doc` and keeps, of the root element,
/// the tag name and text of each child. The contract names the result; it
/// says nothing of which documents treexml accepts.
#[verifier::external_body]
fn root_children(doc: &str) -> (r: Option<Vec<XmlField>>)
    ensures
        r matches Some(v) ==> treexml_root_children(doc@) == Some(fields_view(v@)),
        r is None ==> treexml_root_children(doc@) is None,
{
    match treexml::Document::parse(doc.as_bytes()) {
        Ok(d) => match d.root {
            Some(root) => Some(
                root.children.into_iter().map(|c| XmlField { name: c.name, text: c.text }).collect(),
            ),
            None => None,
        },
        Err(_) => None,
    }
}

/// Reads the top-level elements of a message body.
pub fn parse_xml_data(s: &[u8]) -> (r: Result<Vec<XmlField>, ParseError>)
    ensures
        match parsed_fields(s@) {
            Some(f) => r matches Ok(v) && fields_view(v@) == f,
            None => r == Err::<Vec<XmlField>, ParseError>(ParseError::MalformedXml),
        },
{
    let body = from_utf8_lossy(s);
    let mut doc = String::from_str("<root>");
    doc.append(body.as_str());
    doc.append("</root>");
    match root_children(doc.as_str()) {
        Some(v) => Ok(v),
        None => Err(ParseError::MalformedXml),
    }
}

/// The first element named `name`.
pub open spec fn spec_find(fields: Seq<FieldView>, name: Seq<char>) -> Option<FieldView>
    decreases fields.len(),
{
    if fields.len() == 0 {
        None
    } else if fields[0].0 == name {
        Some(fields[0])
    } else {
        spec_find(fields.drop_first(), name)
    }
}

/// The text of the first element named `name`, if it has one.
pub open spec fn spec_find_text(fields: Seq<FieldView>, name: Seq<char>) -> Option<Seq<char>> {
    match spec_find(fields, name) {
        Some(f) => f.1,
        None => None,
    }
}

/// A flag: set when an element named `name` is present, unless its text is `0`.
pub open spec fn spec_find_bool(fields: Seq<FieldView>, name: Seq<char>) -> bool {
    match spec_find(fields, name) {
        Some(f) => f.1 != Some(seq!['0']),
        None => false,
    }
}

/// A required text value.
pub open spec fn spec_find_value1(fields: Seq<FieldView>, name: Seq<char>) -> Result<
    Seq<char>,
    ParseError,
> {
    match spec_find_text(fields, name) {
        Some(t) => Ok(t),
        None => Err(ParseError::MissingValue),
    }
}

/// An optional integer value.
pub open spec fn spec_find_i64(fields: Seq<FieldView>, name: Seq<char>) -> Result<
    Option<i64>,
    ParseError,
> {
    match spec_find_text(fields, name) {
        Some(t) => match spec_parse_i64(t) {
            Some(n) => Ok(Some(n)),
            None => Err(ParseError::InvalidValue),
        },
        None => Ok(None),
    }
}

/// Looking an element up in two runs of elements finds it in the first run
/// if it is there, else in the second.
pub broadcast proof fn lemma_find_concat(a: Seq<FieldView>, b: Seq<FieldView>, name: Seq<char>)
    ensures
        #[trigger] spec_find(a + b, name) == match spec_find(a, name) {
            Some(f) => Some(f),
            None => spec_find(b, name),
        },
    decreases a.len(),
{
    if a.len() == 0 {
        assert(a + b =~= b);
    } else {
        lemma_find_concat(a.drop_first(), b, name);
        assert((a + b).drop_first() =~= a.drop_first() + b);
    }
}

/// Looking an element up in a run of one element.
pub broadcast proof fn lemma_find_single(f: FieldView, name: Seq<char>)
    ensures
        #[trigger] spec_find(seq![f], name) == if f.0 == name {
            Some(f)
        } else {
            None
        },
{
    assert(seq![f].drop_first() =~= Seq::<FieldView>::empty());
    assert(spec_find(Seq::<FieldView>::empty(), name) is None);
}

/// Nothing is found in no elements.
pub broadcast proof fn lemma_find_empty(name: Seq<char>)
    ensures
        #[trigger] spec_find(Seq::empty(), name) is None,
{
}

pub broadcast group group_find_lemmas {
    lemma_find_concat,
    lemma_find_single,
    lemma_find_empty,
}

/// Looking an element up finds the first element of that name, and nothing
/// only where no element has that name.
pub proof fn law_find_first(fields: Seq<FieldView>, name: Seq<char>)
    ensures
        spec_find(fields, name) is None <==> forall|j: int| 0 <= j < fields.len() ==> fields[j].0 != name,
        spec_find(fields, name) matches Some(x) ==> exists|i: int|
            0 <= i < fields.len() && fields[i] == x && x.0 == name && forall|j: int|
                0 <= j < i ==> fields[j].0 != name,
    decreases fields.len(),
{
    if fields.len() > 0 {
        let t = fields.drop_first();
        law_find_first(t, name);
        if fields[0].0 == name {
            assert(fields[0] == spec_find(fields, name).unwrap());
        } else {
            assert(spec_find(fields, name) == spec_find(t, name));
            assert forall|j: int| 0 <= j < t.len() implies #[trigger] t[j] == fields[j + 1] by {}
            if spec_find(t, name) is None {
                assert forall|j: int| 0 <= j < fields.len() implies fields[j].0 != name by {
                    if j > 0 {
                        assert(t[j - 1] == fields[j]);
                    }
                }
            } else {
                let x = spec_find(t, name).unwrap();
                let i = choose|i: int|
                    0 <= i < t.len() && t[i] == x && x.0 == name && forall|j: int|
                        0 <= j < i ==> t[j].0 != name;
                assert(fields[i + 1] == x);
                assert forall|j: int| 0 <= j < i + 1 implies fields[j].0 != name by {
                    if j > 0 {
                        assert(t[j - 1] == fields[j]);
                    }
                }
                assert(fields[i + 1].0 == name);
            }
        }
    }
}

/// The text of one element on a line of its own: `<name>text</name>` for an
/// element with text, and `<name` followed by `empty_close` for an empty one.
pub open spec fn render_field(f: FieldView, empty_close: Seq<char>) -> Seq<char> {
    match f.1 {
        Some(t) => seq!['<'] + f.0 + seq!['>'] + t + seq!['<', '/'] + f.0 + seq!['>', '\n'],
        None => seq!['<'] + f.0 + empty_close,
    }
}

/// The text of a run of elements, one after the other, in order.
pub open spec fn render_fields(fs: Seq<FieldView>, empty_close: Seq<char>) -> Seq<char>
    decreases fs.len(),
{
    if fs.len() == 0 {
        Seq::empty()
    } else {
        render_field(fs[0], empty_close) + render_fields(fs.drop_first(), empty_close)
    }
}

/// The text of two runs of elements is the text of the first, then that of the second.
pub broadcast proof fn lemma_render_concat(a: Seq<FieldView>, b: Seq<FieldView>, c: Seq<char>)
    ensures
        #[trigger] render_fields(a + b, c) == render_fields(a, c) + render_fields(b, c),
    decreases a.len(),
{
    if a.len() == 0 {
        assert(a + b =~= b);
        assert(render_fields(a, c) + render_fields(b, c) =~= render_fields(b, c));
    } else {
        lemma_render_concat(a.drop_first(), b, c);
        assert((a + b).drop_first() =~= a.drop_first() + b);
        assert((a + b)[0] == a[0]);
        assert(render_field(a[0], c) + (render_fields(a.drop_first(), c) + render_fields(b, c))
            =~= render_field(a[0], c) + render_fields(a.drop_first(), c) + render_fields(b, c));
    }
}

/// The text of a single element.
pub broadcast proof fn lemma_render_single(f: FieldView, c: Seq<char>)
    ensures
        #[trigger] render_fields(seq![f], c) == render_field(f, c),
{
    assert(seq![f].drop_first() =~= Seq::<FieldView>::empty());
    assert(render_fields(Seq::<FieldView>::empty(), c) == Seq::<char>::empty());
    assert(seq![f][0] == f);
    assert(render_field(f, c) + Seq::<char>::empty() =~= render_field(f, c));
}

/// No elements, no text.
pub broadcast proof fn lemma_render_empty(c: Seq<char>)
    ensures
        #[trigger] render_fields(Seq::<FieldView>::empty(), c) == Seq::<char>::empty(),
{
}

pub broadcast group group_render_lemmas {
    lemma_render_concat,
    lemma_render_single,
    lemma_render_empty,
}

/// An optional number, kept as the text that `str::parse::<f64>` accepts.
pub open spec fn spec_find_float0(fields: Seq<FieldView>, name: Seq<char>) -> Result<
    Option<Seq<char>>,
    ParseError,
> {
    match spec_find_text(fields, name) {
        Some(t) => if spec_is_float_text(t) {
            Ok(Some(t))
        } else {
            Err(ParseError::InvalidValue)
        },
        None => Ok(None),
    }
}

/// A required number, kept as the text that `str::parse::<f64>` accepts.
pub open spec fn spec_find_float1(fields: Seq<FieldView>, name: Seq<char>) -> Result<
    Seq<char>,
    ParseError,
> {
    match spec_find_text(fields, name) {
        Some(t) => if spec_is_float_text(t) {
            Ok(t)
        } else {
            Err(ParseError::InvalidValue)
        },
        None => Err(ParseError::MissingValue),
    }
}

proof fn lemma_find_step(fields: Seq<FieldView>, name: Seq<char>, i: int)
    requires
        0 <= i < fields.len(),
        forall|j: int| 0 <= j < i ==> fields[j].0 != name,
    ensures
        spec_find(fields, name) == spec_find(fields.subrange(i, fields.len() as int), name),
    decreases i,
{
    if i == 0 {
        assert(fields.subrange(0, fields.len() as int) =~= fields);
    } else {
        lemma_find_step(fields.drop_first(), name, i - 1);
        assert(fields.drop_first().subrange(i - 1, fields.len() - 1) =~= fields.subrange(
            i,
            fields.len() as int,
        ));
    }
}

proof fn lemma_find_none(fields: Seq<FieldView>, name: Seq<char>)
    requires
        forall|j: int| 0 <= j < fields.len() ==> fields[j].0 != name,
    ensures
        spec_find(fields, name) is None,
    decreases fields.len(),
{
    if fields.len() > 0 {
        assert(fields[0].0 != name);
        let t = fields.drop_first();
        assert forall|j: int| 0 <= j < t.len() implies t[j].0 != name by {
            assert(t[j] == fields[j + 1]);
        }
        lemma_find_none(t, name);
    }
}

/// The first element named `name`.
pub fn find_field<'a>(fields: &'a Vec<XmlField>, name: &str) -> (r: Option<&'a XmlField>)
    ensures
        match spec_find(fields_view(fields@), name@) {
            Some(f) => r matches Some(x) && x@ == f,
            None => r is None,
        },
{
    let key = String::from_str(name);
    let ghost fv = fields_view(fields@);
    let mut i: usize = 0;
    while i < fields.len()
        invariant
            i <= fields@.len(),
            fv == fields_view(fields@),
            key@ == name@,
            forall|j: int| 0 <= j < i ==> fv[j].0 != name@,
        decreases fields.len() - i,
    {
        if fields[i].name == key {
            proof {
                lemma_find_step(fv, name@, i as int);
            }
            return Some(&fields[i]);
        }
        i = i + 1;
    }
    proof {
        lemma_find_none(fv, name@);
    }
    None
}

/// The text of the first element named `name`, if it has one.
pub fn find_value0(fields: &Vec<XmlField>, name: &str) -> (r: Option<String>)
    ensures
        opt_view(r) == spec_find_text(fields_view(fields@), name@),
{
    match find_field(fields, name) {
        Some(f) => match &f.text {
            Some(t) => Some(t.clone()),
            None => None,
        },
        None => None,
    }
}

/// The text of the first element named `name`, which must be present.
pub fn find_value1(fields: &Vec<XmlField>, name: &str) -> (r: Result<String, ParseError>)
    ensures
        match spec_find_value1(fields_view(fields@), name@) {
            Ok(t) => r matches Ok(s) && s@ == t,
            Err(e) => r == Err::<String, ParseError>(e),
        },
{
    match find_value0(fields, name) {
        Some(t) => Ok(t),
        None => Err(ParseError::MissingValue),
    }
}

/// The integer in the first element named `name`, if it has text.
pub fn find_i64(fields: &Vec<XmlField>, name: &str) -> (r: Result<Option<i64>, ParseError>)
    ensures
        r == spec_find_i64(fields_view(fields@), name@),
{
    match find_value0(fields, name) {
        Some(t) => match parse_i64(t.as_str()) {
            Some(n) => Ok(Some(n)),
            None => Err(ParseError::InvalidValue),
        },
        None => Ok(None),
    }
}

/// Whether the flag named `name` is set.
pub fn find_bool(fields: &Vec<XmlField>, name: &str) -> (r: bool)
    ensures
        r == spec_find_bool(fields_view(fields@), name@),
{
    match find_field(fields, name) {
        Some(f) => match &f.text {
            Some(t) => {
                let zero = String::from_str("0");
                proof {
                    reveal_strlit("0");
                    assert("0"@ =~= seq!['0']);
                }
                !(*t == zero)
            },
            None => true,
        },
        None => false,
    }
}

/// The number in the first element named `name`, if it has text; the text
/// must be one that `str::parse::<f64>` accepts.
pub fn find_float0(fields: &Vec<XmlField>, name: &str) -> (r: Result<Option<String>, ParseError>)
    ensures
        match spec_find_float0(fields_view(fields@), name@) {
            Ok(t) => r matches Ok(v) && opt_view(v) == t,
            Err(e) => r == Err::<Option<String>, ParseError>(e),
        },
{
    match find_value0(fields, name) {
        Some(t) => if is_float_text(t.as_str()) {
            Ok(Some(t))
        } else {
            Err(ParseError::InvalidValue)
        },
        None => Ok(None),
    }
}

/// The number in the first element named `name`, which must be present; the
/// text must be one that `str::parse::<f64>` accepts.
pub fn find_float1(fields: &Vec<XmlField>, name: &str) -> (r: Result<String, ParseError>)
    ensures
        match spec_find_float1(fields_view(fields@), name@) {
            Ok(t) => r matches Ok(s) && s@ == t,
            Err(e) => r == Err::<String, ParseError>(e),
        },
{
    match find_value0(fields, name) {
        Some(t) => if is_float_text(t.as_str()) {
            Ok(t)
        } else {
            Err(ParseError::InvalidValue)
        },
        None => Err(ParseError::MissingValue),
    }
}

} // verus!
