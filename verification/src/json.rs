//! JSON documents as the library reads and writes them.
//!
//! Parsing and rendering are done by `rustc_serialize`; the library keeps the
//! parsed document in a type of its own so that the rules that read it can be
//! stated and proved. A text goes to the parser only after the scan of
//! `limits` has found it fine.

use crate::limits::{scan_text, verdict, Verdict, MAX_DEPTH};
use crate::text::texts;
use rustc_serialize::json;
use rustc_serialize::json::Json;
use vstd::prelude::*;
use vstd::string::*;
use vstd::utf8::encode_utf8;

verus! {

/// Where the digits that start at `i` end.
pub open spec fn digits_end(bytes: Seq<u8>, i: int) -> int
    decreases bytes.len() - i,
{
    if 0 <= i < bytes.len() && 48 <= bytes[i] <= 57 {
        digits_end(bytes, i + 1)
    } else {
        i
    }
}

/// Whether a text is a decimal number: an optional `-`, digits, and
/// optionally a point with digits after it.
pub open spec fn decimal_text(bytes: Seq<u8>) -> bool {
    let start: int = if bytes.len() > 0 && bytes[0] == 45 {
        1
    } else {
        0
    };
    let end = digits_end(bytes, start);
    end > start && (end == bytes.len() || (bytes[end] == 46 && end + 1 < bytes.len() && digits_end(
        bytes,
        end + 1,
    ) == bytes.len()))
}

/// Whether a text is the text of a floating number: a decimal number, or one
/// of `inf`, `-inf` and `NaN`.
pub open spec fn number_text(bytes: Seq<u8>) -> bool {
    ||| decimal_text(bytes)
    ||| bytes == seq![105u8, 110u8, 102u8]
    ||| bytes == seq![45u8, 105u8, 110u8, 102u8]
    ||| bytes == seq![78u8, 97u8, 78u8]
}

/// The text of a floating number. A value of this type always holds the text
/// of a number.
#[derive(Debug)]
pub struct FloatText {
    text: String,
}

impl View for FloatText {
    type V = Seq<char>;

    closed spec fn view(&self) -> Seq<char> {
        self.text@
    }
}

fn digits_from(bytes: &[u8], start: usize) -> (end: usize)
    requires
        start <= bytes@.len(),
    ensures
        end == digits_end(bytes@, start as int),
        start <= end <= bytes@.len(),
{
    let mut k: usize = start;
    while k < bytes.len() && 48 <= bytes[k] && bytes[k] <= 57
        invariant
            start <= k <= bytes@.len(),
            digits_end(bytes@, start as int) == digits_end(bytes@, k as int),
        decreases bytes@.len() - k,
    {
        k = k + 1;
    }
    k
}

fn is_decimal_text(bytes: &[u8]) -> (r: bool)
    ensures
        r == decimal_text(bytes@),
{
    let start: usize = if bytes.len() > 0 && bytes[0] == 45 {
        1
    } else {
        0
    };
    let end = digits_from(bytes, start);
    if end == start {
        false
    } else if end == bytes.len() {
        true
    } else if bytes[end] == 46 && bytes.len() - end > 1 {
        digits_from(bytes, end + 1) == bytes.len()
    } else {
        false
    }
}

impl FloatText {
    #[verifier::type_invariant]
    spec fn holds_a_number(self) -> bool {
        number_text(encode_utf8(self.text@))
    }

    /// The number that `text` is the text of, if it is one.
    pub fn new(text: &str) -> (r: Option<FloatText>)
        ensures
            r is Some <==> number_text(text.spec_bytes()),
            r matches Some(number) ==> number@ == text@,
    {
        let bytes = text.as_bytes();
        let n = bytes.len();
        let named = (n == 3 && bytes[0] == 105 && bytes[1] == 110 && bytes[2] == 102) || (n == 4
            && bytes[0] == 45 && bytes[1] == 105 && bytes[2] == 110 && bytes[3] == 102) || (n == 3
            && bytes[0] == 78 && bytes[1] == 97 && bytes[2] == 78);
        proof {
            assert(named ==> (bytes@ =~= seq![105u8, 110u8, 102u8] || bytes@ =~= seq![
                45u8,
                105u8,
                110u8,
                102u8,
            ] || bytes@ =~= seq![78u8, 97u8, 78u8]));
        }
        if named || is_decimal_text(bytes) {
            Some(FloatText { text: String::from_str(text) })
        } else {
            None
        }
    }

    /// The text of the number.
    pub fn as_str(&self) -> (text: &str)
        ensures
            text@ == self@,
    {
        self.text.as_str()
    }
}

/// A JSON document.
///
/// `Float` holds a number with a fraction or an exponent as text. The members
/// of an `Object` are kept in a list; where a key occurs twice the later
/// member is the one that counts.
#[derive(Debug)]
pub enum JsonValue {
    Null,
    Boolean(bool),
    Signed(i64),
    Unsigned(u64),
    Float(FloatText),
    String(String),
    Array(Vec<JsonValue>),
    Object(Vec<(String, JsonValue)>),
}

/// The mathematical model of a [`JsonValue`].
pub enum JsonDoc {
    Null,
    Boolean(bool),
    Signed(int),
    Unsigned(int),
    Float(Seq<char>),
    String(Seq<char>),
    Array(Seq<JsonDoc>),
    Object(Seq<(Seq<char>, JsonDoc)>),
}

impl View for JsonValue {
    type V = JsonDoc;

    open spec fn view(&self) -> JsonDoc
        decreases self,
    {
        match self {
            JsonValue::Null => JsonDoc::Null,
            JsonValue::Boolean(b) => JsonDoc::Boolean(*b),
            JsonValue::Signed(n) => JsonDoc::Signed(*n as int),
            JsonValue::Unsigned(n) => JsonDoc::Unsigned(*n as int),
            JsonValue::Float(number) => JsonDoc::Float(number@),
            JsonValue::String(s) => JsonDoc::String(s@),
            JsonValue::Array(items) => JsonDoc::Array(docs(items@)),
            JsonValue::Object(members) => JsonDoc::Object(member_docs(members@)),
        }
    }
}

/// The models of a list of documents, in order.
pub open spec fn docs(items: Seq<JsonValue>) -> Seq<JsonDoc>
    decreases items,
{
    if items.len() == 0 {
        Seq::empty()
    } else {
        docs(items.drop_last()).push(items.last()@)
    }
}

/// The models of a list of object members, in order.
pub open spec fn member_docs(members: Seq<(String, JsonValue)>) -> Seq<(Seq<char>, JsonDoc)>
    decreases members,
{
    if members.len() == 0 {
        Seq::empty()
    } else {
        member_docs(members.drop_last()).push((members.last().0@, members.last().1@))
    }
}

/// `docs` keeps the length and models each item in its place.
pub proof fn lemma_docs(items: Seq<JsonValue>)
    ensures
        docs(items).len() == items.len(),
        forall|i: int| 0 <= i < items.len() ==> #[trigger] docs(items)[i] == items[i]@,
    decreases items.len(),
{
    if items.len() > 0 {
        lemma_docs(items.drop_last());
        assert(docs(items) == docs(items.drop_last()).push(items.last()@));
    } else {
        assert(docs(items) == Seq::<JsonDoc>::empty());
    }
}

/// `member_docs` keeps the length and models each member in its place.
pub proof fn lemma_member_docs(members: Seq<(String, JsonValue)>)
    ensures
        member_docs(members).len() == members.len(),
        forall|i: int|
            0 <= i < members.len() ==> #[trigger] member_docs(members)[i] == (
                members[i].0@,
                members[i].1@,
            ),
    decreases members.len(),
{
    if members.len() > 0 {
        lemma_member_docs(members.drop_last());
        assert(member_docs(members) == member_docs(members.drop_last()).push(
            (members.last().0@, members.last().1@),
        ));
    } else {
        assert(member_docs(members) == Seq::<(Seq<char>, JsonDoc)>::empty());
    }
}

/// The value that the last member named `key` among `members` holds.
pub open spec fn lookup(members: Seq<(Seq<char>, JsonDoc)>, key: Seq<char>) -> Option<JsonDoc>
    decreases members.len(),
{
    if members.len() == 0 {
        None
    } else if members.last().0 == key {
        Some(members.last().1)
    } else {
        lookup(members.drop_last(), key)
    }
}

/// Of the members with one key the last one counts: `lookup` gives the value
/// of the member after which none has the same key.
pub proof fn lemma_lookup_last(members: Seq<(Seq<char>, JsonDoc)>, key: Seq<char>, i: int)
    requires
        0 <= i < members.len(),
        members[i].0 == key,
        forall|j: int| i < j < members.len() ==> (#[trigger] members[j]).0 != key,
    ensures
        lookup(members, key) == Some(members[i].1),
    decreases members.len(),
{
    if i < members.len() - 1 {
        assert(members.last() == members[members.len() - 1]);
        assert(members.drop_last()[i] == members[i]);
        assert forall|j: int| i < j < members.drop_last().len() implies (
        #[trigger] members.drop_last()[j]).0 != key by {
            assert(members.drop_last()[j] == members[j]);
        }
        lemma_lookup_last(members.drop_last(), key, i);
    }
}

impl JsonDoc {
    /// The member `key` of an object; `None` for a document that is no object
    /// or has no such member.
    pub open spec fn find(self, key: Seq<char>) -> Option<JsonDoc> {
        match self {
            JsonDoc::Object(members) => lookup(members, key),
            _ => None,
        }
    }

    /// The items of an array.
    pub open spec fn as_array(self) -> Option<Seq<JsonDoc>> {
        match self {
            JsonDoc::Array(items) => Some(items),
            _ => None,
        }
    }

    /// The text of a string.
    pub open spec fn as_string(self) -> Option<Seq<char>> {
        match self {
            JsonDoc::String(text) => Some(text),
            _ => None,
        }
    }

    /// The value of a boolean.
    pub open spec fn as_boolean(self) -> Option<bool> {
        match self {
            JsonDoc::Boolean(b) => Some(b),
            _ => None,
        }
    }

    /// Whether the arrays and objects of the document are nested no deeper
    /// than `levels`: a value that is neither is nested in no level, an array
    /// or an object in one more than what it holds.
    pub open spec fn nests_within(self, levels: nat) -> bool
        decreases levels,
    {
        match self {
            JsonDoc::Array(items) => levels > 0 && forall|i: int|
                0 <= i < items.len() ==> (#[trigger] items[i]).nests_within((levels - 1) as nat),
            JsonDoc::Object(members) => levels > 0 && forall|i: int|
                0 <= i < members.len() ==> (#[trigger] members[i]).1.nests_within(
                    (levels - 1) as nat,
                ),
            _ => true,
        }
    }
}

/// What an array or an object holds is nested in one level less.
pub proof fn lemma_nests_inside(doc: JsonDoc, levels: nat, i: int)
    requires
        doc.nests_within(levels),
    ensures
        doc is Array && 0 <= i < doc->Array_0.len() ==> levels > 0 && doc->Array_0[i].nests_within(
            (levels - 1) as nat,
        ),
        doc is Object && 0 <= i < doc->Object_0.len() ==> levels > 0
            && doc->Object_0[i].1.nests_within((levels - 1) as nat),
{
}

/// A document that is nested within some levels is nested within any more.
pub proof fn lemma_nests_more(doc: JsonDoc, levels: nat, more: nat)
    requires
        doc.nests_within(levels),
        levels <= more,
    ensures
        doc.nests_within(more),
    decreases levels,
{
    match doc {
        JsonDoc::Array(items) => {
            assert forall|i: int| 0 <= i < items.len() implies (#[trigger] items[i]).nests_within(
                (more - 1) as nat,
            ) by {
                lemma_nests_more(items[i], (levels - 1) as nat, (more - 1) as nat);
            }
        },
        JsonDoc::Object(members) => {
            assert forall|i: int| 0 <= i < members.len() implies (
            #[trigger] members[i]).1.nests_within((more - 1) as nat) by {
                lemma_nests_more(members[i].1, (levels - 1) as nat, (more - 1) as nat);
            }
        },
        _ => {},
    }
}

/// The text that a document is written as: what the encoder gives for a
/// document that is nested no deeper than `MAX_DEPTH`, and nothing for a
/// deeper one, which the encoder is not handed.
pub open spec fn written(doc: JsonDoc) -> Option<Seq<char>> {
    if doc.nests_within(MAX_DEPTH as nat) {
        Some(rendered_json(doc))
    } else {
        None
    }
}

/// Makes `rustc_serialize::json::Json` known as a type whose values are
/// carried but never looked into.
#[verifier::external_type_specification]
#[verifier::external_body]
pub struct ExJson(Json);

/// The document that `rustc_serialize::json::Json::from_str` reads from a
/// text, and `None` where it reports an error.
pub uninterp spec fn parsed_json(text: Seq<char>) -> Option<JsonDoc>;

/// The text that `rustc_serialize::json::encode` writes for a document.
pub uninterp spec fn rendered_json(doc: JsonDoc) -> Seq<char>;

/// Turns a `rustc_serialize::json::Json` into the library's document, variant
/// by variant. The members of an object come in the order of their keys; a
/// floating number comes as the text that std prints for it, which is a
/// decimal number without an exponent, or one of `inf`, `-inf` and `NaN`.
#[verifier::external_body]
fn from_outside(json: Json) -> JsonValue {
    match json {
        Json::Null => JsonValue::Null,
        Json::Boolean(b) => JsonValue::Boolean(b),
        Json::I64(n) => JsonValue::Signed(n),
        Json::U64(n) => JsonValue::Unsigned(n),
        Json::F64(x) => JsonValue::Float(FloatText { text: x.to_string() }),
        Json::String(s) => JsonValue::String(s),
        Json::Array(v) => JsonValue::Array(v.into_iter().map(from_outside).collect()),
        Json::Object(m) => JsonValue::Object(m.into_iter().map(|(k, v)| (k, from_outside(v))).collect()),
    }
}

/// Turns the library's document into a `rustc_serialize::json::Json`, variant
/// by variant. Of two members with one key the later one stays; the text of a
/// `Float` is read back by std, which reads every text that a `FloatText` can
/// hold.
#[verifier::external_body]
fn to_outside(doc: &JsonValue) -> Json {
    match doc {
        JsonValue::Null => Json::Null,
        JsonValue::Boolean(b) => Json::Boolean(*b),
        JsonValue::Signed(n) => Json::I64(*n),
        JsonValue::Unsigned(n) => Json::U64(*n),
        JsonValue::Float(number) => Json::F64(number.text.parse().unwrap_or_default()),
        JsonValue::String(s) => Json::String(s.clone()),
        JsonValue::Array(v) => Json::Array(v.iter().map(to_outside).collect()),
        JsonValue::Object(m) => Json::Object(m.iter().map(|(k, v)| (k.clone(), to_outside(v))).collect()),
    }
}

/// Why a text gives no document.
#[derive(Clone, Copy, PartialEq, Eq, Debug, Structural)]
pub enum JsonError {
    /// The text is no JSON.
    Syntax,
    /// The text passes a limit of the parser, so the parser was not asked.
    /// Whether the text is JSON is not known.
    Limits,
}

/// What a text is read as: the document that the parser gives for a text that
/// it can be handed, `Syntax` where the parser reports an error or the scan
/// has found the text to be no JSON, and `Limits` for a text that passes a
/// limit of the parser.
pub open spec fn read_json(text: Seq<char>) -> Result<JsonDoc, JsonError> {
    match verdict(encode_utf8(text)) {
        Verdict::BeyondLimits => Err(JsonError::Limits),
        Verdict::NotJson => Err(JsonError::Syntax),
        Verdict::Fine => match parsed_json(text) {
            Some(doc) => Ok(doc),
            None => Err(JsonError::Syntax),
        },
    }
}

/// Calls `rustc_serialize::json::Json::from_str` on a text that the scan has
/// found fine: within the limits of the parser, and without a comma directly
/// before a `}`. The contract claims that the outcome depends on the text
/// alone: the parsed document where the text is well-formed JSON, and `None`
/// where the parser reports an error.
#[verifier::external_body]
fn json_from_str(text: &str) -> (r: Option<JsonValue>)
    requires
        verdict(text.spec_bytes()) == Verdict::Fine,
    ensures
        match r {
            Some(doc) => parsed_json(text@) == Some(doc@),
            None => parsed_json(text@) is None,
        },
{
    match Json::from_str(text) {
        Ok(json) => Some(from_outside(json)),
        Err(_) => None,
    }
}

/// Calls `rustc_serialize::json::encode` on a document that is nested no
/// deeper than `MAX_DEPTH`; the encoder calls itself once for each level. The
/// contract claims that the text depends on the document alone.
#[verifier::external_body]
fn json_encode(doc: &JsonValue) -> (text: String)
    requires
        doc@.nests_within(MAX_DEPTH as nat),
    ensures
        text@ == rendered_json(doc@),
{
    match json::encode(&to_outside(doc)) {
        Ok(text) => text,
        Err(_) => String::new(),
    }
}

impl JsonValue {
    /// Looks a member of an object up by its key.
    pub fn find(&self, key: &str) -> (r: Option<&JsonValue>)
        ensures
            match r {
                Some(value) => self@.find(key@) == Some(value@),
                None => self@.find(key@) is None,
            },
    {
        match self {
            JsonValue::Object(members) => {
                let wanted = key.to_owned();
                let ghost all = self@->Object_0;
                proof {
                    lemma_member_docs(members@);
                    assert(self@ == JsonDoc::Object(all));
                    assert(all.take(all.len() as int) == all);
                }
                let mut i: usize = members.len();
                while i > 0
                    invariant
                        i <= members@.len(),
                        wanted@ == key@,
                        all.len() == members@.len(),
                        forall|j: int|
                            0 <= j < members@.len() ==> all[j] == (
                                members@[j].0@,
                                members@[j].1@,
                            ),
                        lookup(all, key@) == lookup(all.take(i as int), key@),
                        self@ == JsonDoc::Object(all),
                    decreases i,
                {
                    i = i - 1;
                    proof {
                        let prefix = all.take(i as int + 1);
                        assert(prefix.last() == all[i as int]);
                        assert(prefix.drop_last() == all.take(i as int));
                    }
                    if members[i].0 == wanted {
                        proof {
                            assert(all[i as int] == (members@[i as int].0@, members@[i as int].1@));
                            assert(lookup(all.take(i as int + 1), key@) == Some(all[i as int].1));
                        }
                        return Some(&members[i].1);
                    }
                }
                proof {
                    assert(all.take(0).len() == 0);
                }
                None
            },
            _ => None,
        }
    }

    /// The items of an array.
    pub fn as_array(&self) -> (r: Option<&Vec<JsonValue>>)
        ensures
            match r {
                Some(items) => self@.as_array() is Some && self@.as_array()->0.len() == items@.len()
                    && forall|i: int|
                    0 <= i < items@.len() ==> self@.as_array()->0[i] == items@[i]@,
                None => self@.as_array() is None,
            },
    {
        match self {
            JsonValue::Array(items) => {
                proof {
                    lemma_docs(items@);
                }
                Some(items)
            },
            _ => None,
        }
    }

    /// The text of a string.
    pub fn as_string(&self) -> (r: Option<&String>)
        ensures
            match r {
                Some(text) => self@.as_string() == Some(text@),
                None => self@.as_string() is None,
            },
    {
        match self {
            JsonValue::String(text) => Some(text),
            _ => None,
        }
    }

    /// The value of a boolean.
    pub fn as_boolean(&self) -> (r: Option<bool>)
        ensures
            r == self@.as_boolean(),
    {
        match self {
            JsonValue::Boolean(b) => Some(*b),
            _ => None,
        }
    }
}

/// The documents of a list of texts: a string for each, in order.
pub open spec fn string_docs(list: Seq<Seq<char>>) -> Seq<JsonDoc> {
    Seq::new(list.len(), |i: int| JsonDoc::String(list[i]))
}

/// An array of strings is nested in one level.
pub proof fn lemma_strings_nest(list: Seq<Seq<char>>)
    ensures
        JsonDoc::Array(string_docs(list)).nests_within(1),
{
    reveal_with_fuel(JsonDoc::nests_within, 2);
}

/// The document of an optional text: a string, or null for none.
pub open spec fn optional_doc(text: Option<Seq<char>>) -> JsonDoc {
    match text {
        Some(t) => JsonDoc::String(t),
        None => JsonDoc::Null,
    }
}

impl JsonValue {
    /// Reads a document from a text, and says why where it gives none.
    pub fn parse(text: &str) -> (r: Result<JsonValue, JsonError>)
        ensures
            match r {
                Ok(doc) => read_json(text@) == Ok::<JsonDoc, JsonError>(doc@),
                Err(e) => read_json(text@) == Err::<JsonDoc, JsonError>(e),
            },
    {
        match scan_text(text) {
            Verdict::BeyondLimits => Err(JsonError::Limits),
            Verdict::NotJson => Err(JsonError::Syntax),
            Verdict::Fine => match json_from_str(text) {
                Some(doc) => Ok(doc),
                None => Err(JsonError::Syntax),
            },
        }
    }

    /// Says whether the arrays and objects of the document are nested no
    /// deeper than `levels`.
    pub fn nests_within(&self, levels: usize) -> (r: bool)
        ensures
            r == self@.nests_within(levels as nat),
        decreases levels,
    {
        match self {
            JsonValue::Array(items) => {
                if levels == 0 {
                    return false;
                }
                proof {
                    lemma_docs(items@);
                }
                let mut i: usize = 0;
                while i < items.len()
                    invariant
                        i <= items@.len(),
                        levels > 0,
                        self@ == JsonDoc::Array(docs(items@)),
                        docs(items@).len() == items@.len(),
                        forall|j: int| 0 <= j < items@.len() ==> docs(items@)[j] == items@[j]@,
                        forall|j: int|
                            0 <= j < i ==> (#[trigger] docs(items@)[j]).nests_within(
                                (levels - 1) as nat,
                            ),
                    decreases items@.len() - i,
                {
                    if !items[i].nests_within(levels - 1) {
                        proof {
                            let inner = docs(items@);
                            assert(inner[i as int] == items@[i as int]@);
                            if self@.nests_within(levels as nat) {
                                lemma_nests_inside(self@, levels as nat, i as int);
                            }
                        }
                        return false;
                    }
                    i = i + 1;
                }
                true
            },
            JsonValue::Object(members) => {
                if levels == 0 {
                    return false;
                }
                proof {
                    lemma_member_docs(members@);
                }
                let mut i: usize = 0;
                while i < members.len()
                    invariant
                        i <= members@.len(),
                        levels > 0,
                        self@ == JsonDoc::Object(member_docs(members@)),
                        member_docs(members@).len() == members@.len(),
                        forall|j: int|
                            0 <= j < members@.len() ==> member_docs(members@)[j].1
                                == members@[j].1@,
                        forall|j: int|
                            0 <= j < i ==> (#[trigger] member_docs(members@)[j]).1.nests_within(
                                (levels - 1) as nat,
                            ),
                    decreases members@.len() - i,
                {
                    if !members[i].1.nests_within(levels - 1) {
                        proof {
                            let inner = member_docs(members@);
                            assert(inner[i as int].1 == members@[i as int].1@);
                            if self@.nests_within(levels as nat) {
                                lemma_nests_inside(self@, levels as nat, i as int);
                            }
                        }
                        return false;
                    }
                    i = i + 1;
                }
                true
            },
            _ => true,
        }
    }

    /// Writes a document that is known to be nested no deeper than
    /// `MAX_DEPTH`.
    pub fn render_shallow(&self) -> (text: String)
        requires
            self@.nests_within(MAX_DEPTH as nat),
        ensures
            text@ == rendered_json(self@),
    {
        json_encode(self)
    }

    /// Writes the document as text, in the compact form. The members of an
    /// object are written in the order of their keys. A document that is
    /// nested deeper than `MAX_DEPTH` is not written.
    pub fn render(&self) -> (text: Option<String>)
        ensures
            match text {
                Some(t) => written(self@) == Some(t@),
                None => written(self@) is None,
            },
    {
        if self.nests_within(MAX_DEPTH) {
            Some(self.render_shallow())
        } else {
            None
        }
    }

    /// The string that holds `text`.
    pub fn string(text: &str) -> (r: JsonValue)
        ensures
            r@ == JsonDoc::String(text@),
    {
        JsonValue::String(String::from_str(text))
    }

    /// The array of the documents `items`.
    pub fn array(items: Vec<JsonValue>) -> (r: JsonValue)
        ensures
            r@ == JsonDoc::Array(docs(items@)),
    {
        JsonValue::Array(items)
    }

    /// The object with the members `members`.
    pub fn object(members: Vec<(String, JsonValue)>) -> (r: JsonValue)
        ensures
            r@ == JsonDoc::Object(member_docs(members@)),
    {
        JsonValue::Object(members)
    }

    /// The array of the texts of a list, a string for each.
    pub fn strings(list: &Vec<String>) -> (r: JsonValue)
        ensures
            r@ == JsonDoc::Array(string_docs(texts(list@))),
    {
        let mut items: Vec<JsonValue> = Vec::new();
        let mut i: usize = 0;
        while i < list.len()
            invariant
                i <= list@.len(),
                items@.len() == i,
                forall|j: int| 0 <= j < i ==> (#[trigger] items@[j])@ == JsonDoc::String(list@[j]@),
            decreases list@.len() - i,
        {
            items.push(JsonValue::string(list[i].as_str()));
            i = i + 1;
        }
        proof {
            lemma_docs(items@);
            assert(docs(items@) =~= string_docs(texts(list@)));
        }
        JsonValue::array(items)
    }

    /// The string of an optional text, and null for none.
    pub fn optional(text: &Option<String>) -> (r: JsonValue)
        ensures
            r@ == optional_doc(
                match *text {
                    Some(t) => Some(t@),
                    None => None,
                },
            ),
    {
        match text {
            Some(t) => JsonValue::string(t.as_str()),
            None => JsonValue::Null,
        }
    }
}

/// A type whose values can be read from a JSON document.
pub trait RepresentsJSON: Sized {
    /// Whether `doc` has the shape of a value of this type.
    spec fn decodable(doc: JsonDoc) -> bool;

    /// Whether `value` is what `doc` stands for.
    spec fn represents(doc: JsonDoc, value: Self) -> bool;

    /// Reads a value from a document; `None` where the document does not have
    /// the shape of one.
    fn decode(doc: &JsonValue) -> (r: Option<Self>)
        ensures
            r is Some <==> Self::decodable(doc@),
            r matches Some(value) ==> Self::represents(doc@, value),
    ;
}

/// A type whose values can be written as a JSON document.
pub trait ToJson {
    /// The document that stands for the value.
    spec fn json(&self) -> JsonDoc;

    /// Builds the document that stands for the value.
    fn to_json(&self) -> (doc: JsonValue)
        ensures
            doc@ == self.json(),
    ;
}

} // verus!
