//! JSON documents as plain values, read and written through serde_json.

use vstd::prelude::*;
use crate::text::same_text;

verus! {

#[verifier::external_type_specification]
#[verifier::external_body]
pub struct ExSerdeValue(serde_json::Value);

/// The mathematical form of a JSON document.
pub ghost enum JsonView {
    Null,
    Bool(bool),
    Number(Seq<char>),
    Str(Seq<char>),
    Array(Seq<JsonView>),
    /// Member names and values, in the order they are held (a parsed
    /// document holds them sorted by name, each name once).
    Object(Seq<Seq<char>>, Seq<JsonView>),
}

/// A JSON document as plain values.
#[derive(Debug)]
pub enum JsonValue {
    Null,
    Bool(bool),
    /// A number, in the text that serde_json writes for it.
    Number(String),
    Str(String),
    Array(Vec<JsonValue>),
    /// Members in the order they are held (a parsed document holds them
    /// sorted by name, each name once).
    Object(Vec<(String, JsonValue)>),
}

impl View for JsonValue {
    type V = JsonView;

    open spec fn view(&self) -> JsonView
        decreases self,
    {
        match self {
            JsonValue::Null => JsonView::Null,
            JsonValue::Bool(b) => JsonView::Bool(*b),
            JsonValue::Number(n) => JsonView::Number(n@),
            JsonValue::Str(s) => JsonView::Str(s@),
            JsonValue::Array(a) => JsonView::Array(
                Seq::new(
                    a@.len(),
                    |i: int|
                        if 0 <= i < a@.len() {
                            a@[i].view()
                        } else {
                            JsonView::Null
                        },
                ),
            ),
            JsonValue::Object(m) => JsonView::Object(
                Seq::new(m@.len(), |i: int| m@[i].0@),
                Seq::new(
                    m@.len(),
                    |i: int|
                        if 0 <= i < m@.len() {
                            m@[i].1.view()
                        } else {
                            JsonView::Null
                        },
                ),
            ),
        }
    }
}

/// The first member named `key`, from position `i` on.
pub open spec fn member_from(ks: Seq<Seq<char>>, vs: Seq<JsonView>, key: Seq<char>, i: int) -> Option<
    JsonView,
>
    decreases ks.len() - i,
{
    if i < 0 || i >= ks.len() || i >= vs.len() {
        None
    } else if ks[i] == key {
        Some(vs[i])
    } else {
        member_from(ks, vs, key, i + 1)
    }
}

impl JsonView {
    /// The member named `key` of an object; nothing for any other value.
    pub open spec fn field(self, key: Seq<char>) -> Option<JsonView> {
        match self {
            JsonView::Object(ks, vs) => member_from(ks, vs, key, 0),
            _ => None,
        }
    }
}

/// The view of an optional reference.
pub open spec fn opt_view(v: Option<&JsonValue>) -> Option<JsonView> {
    match v {
        Some(x) => Some(x@),
        None => None,
    }
}

/// Reading an optional text member: absent or null is no text, a string is
/// that text, anything else does not fit (outer `None`).
pub open spec fn opt_text(v: Option<JsonView>) -> Option<Option<Seq<char>>> {
    match v {
        None => Some(None),
        Some(JsonView::Null) => Some(None),
        Some(JsonView::Str(s)) => Some(Some(s)),
        _ => None,
    }
}

/// The view of a read optional text.
pub open spec fn opt_text_view(r: Option<Option<String>>) -> Option<Option<Seq<char>>> {
    match r {
        None => None,
        Some(None) => Some(None),
        Some(Some(s)) => Some(Some(s@)),
    }
}

/// Whether a text is valid JSON, as `serde_json::from_str` decides it.
pub uninterp spec fn json_parses(s: Seq<char>) -> bool;

/// The document that `serde_json::from_str` reads from a valid JSON text.
pub uninterp spec fn json_of(s: Seq<char>) -> JsonView;

/// The compact JSON text that `serde_json::to_string` writes for a document.
pub uninterp spec fn json_text(v: JsonView) -> Seq<char>;

/// Relies on `serde_json::from_str::<serde_json::Value>`: it succeeds exactly
/// on valid JSON text, and the document depends on the text alone; the error
/// is serde_json's message.
#[verifier::external_body]
pub(crate) fn parse_json(s: &str) -> (r: Result<JsonValue, String>)
    ensures
        r is Ok <==> json_parses(s@),
        r matches Ok(v) ==> v@ == json_of(s@),
{
    serde_json::from_str::<serde_json::Value>(s).map(|v| from_serde(&v)).map_err(|e| e.to_string())
}

/// Relies on the variants of `serde_json::Value`: the same document as plain values.
#[verifier::external_body]
fn from_serde(v: &serde_json::Value) -> JsonValue {
    match v {
        serde_json::Value::Null => JsonValue::Null,
        serde_json::Value::Bool(b) => JsonValue::Bool(*b),
        serde_json::Value::Number(n) => JsonValue::Number(n.to_string()),
        serde_json::Value::String(s) => JsonValue::Str(s.clone()),
        serde_json::Value::Array(a) => JsonValue::Array(a.iter().map(from_serde).collect()),
        serde_json::Value::Object(m) => JsonValue::Object(
            m.iter().map(|(k, x)| (k.clone(), from_serde(x))).collect(),
        ),
    }
}

/// Relies on the variants of `serde_json::Value`: the same document as serde_json holds it.
#[verifier::external_body]
fn to_serde(v: &JsonValue) -> serde_json::Value {
    match v {
        JsonValue::Null => serde_json::Value::Null,
        JsonValue::Bool(b) => serde_json::Value::Bool(*b),
        JsonValue::Number(n) => n.parse().map(serde_json::Value::Number).unwrap_or(serde_json::Value::Null),
        JsonValue::Str(s) => serde_json::Value::String(s.clone()),
        JsonValue::Array(a) => serde_json::Value::Array(a.iter().map(to_serde).collect()),
        JsonValue::Object(m) => serde_json::Value::Object(
            m.iter().map(|(k, x)| (k.clone(), to_serde(x))).collect(),
        ),
    }
}

/// Relies on `serde_json::to_string`: the compact JSON text of a document,
/// which depends on the document alone.
#[verifier::external_body]
pub(crate) fn render_json(v: &JsonValue) -> (r: String)
    ensures
        r@ == json_text(v@),
{
    serde_json::to_string(&to_serde(v)).unwrap_or_default()
}

impl JsonValue {
    /// A string value.
    pub fn text(s: &str) -> (r: JsonValue)
        ensures
            r@ == JsonView::Str(s@),
    {
        JsonValue::Str(String::from_str(s))
    }

    /// The member named `key`, when this is an object that has one.
    pub fn get(&self, key: &str) -> (r: Option<&JsonValue>)
        ensures
            opt_view(r) == self@.field(key@),
    {
        match self {
            JsonValue::Object(m) => {
                let ghost ks = self@->Object_0;
                let ghost vs = self@->Object_1;
                assert(ks.len() == m@.len() && vs.len() == m@.len());
                let mut i: usize = 0;
                while i < m.len()
                    invariant
                        i <= m@.len(),
                        ks.len() == m@.len(),
                        vs.len() == m@.len(),
                        self@ == JsonView::Object(ks, vs),
                        forall|k: int| 0 <= k < m@.len() ==> #[trigger] ks[k] == m@[k].0@,
                        forall|k: int| 0 <= k < m@.len() ==> #[trigger] vs[k] == m@[k].1@,
                        member_from(ks, vs, key@, 0) == member_from(ks, vs, key@, i as int),
                    decreases m@.len() - i,
                {
                    if same_text(m[i].0.as_str(), key) {
                        assert(ks[i as int] == m@[i as int].0@);
                        assert(vs[i as int] == m@[i as int].1@);
                        return Some(&m[i].1);
                    }
                    assert(ks[i as int] == m@[i as int].0@);
                    i = i + 1;
                }
                None
            },
            _ => None,
        }
    }
}

/// Reads an optional text member as serde reads an `Option<String>` field.
pub fn read_opt_text(v: Option<&JsonValue>) -> (r: Option<Option<String>>)
    ensures
        opt_text_view(r) == opt_text(opt_view(v)),
{
    match v {
        None => Some(None),
        Some(JsonValue::Null) => Some(None),
        Some(JsonValue::Str(s)) => Some(Some(s.clone())),
        _ => None,
    }
}

/// Whether a character is an ASCII decimal digit.
pub open spec fn is_digit(c: char) -> bool {
    48 <= (c as u32) <= 57
}

/// The value of a string of decimal digits.
pub open spec fn digits_value(s: Seq<char>) -> int
    decreases s.len(),
{
    if s.len() == 0 {
        0
    } else {
        digits_value(s.drop_last()) * 10 + ((s.last() as u32) - 48)
    }
}

/// The index a number text denotes: nonempty decimal digits whose value fits `usize`.
pub open spec fn index_number(s: Seq<char>) -> Option<int> {
    if s.len() > 0 && (forall|i: int| 0 <= i < s.len() ==> is_digit(#[trigger] s[i]))
        && digits_value(s) <= usize::MAX {
        Some(digits_value(s))
    } else {
        None
    }
}

proof fn lemma_digits_value_grows(s: Seq<char>, n: int)
    requires
        0 <= n <= s.len(),
        forall|i: int| 0 <= i < s.len() ==> is_digit(#[trigger] s[i]),
    ensures
        digits_value(s.subrange(0, n)) <= digits_value(s),
        0 <= digits_value(s),
    decreases s.len(),
{
    if s.len() > 0 {
        let t = s.drop_last();
        assert forall|i: int| 0 <= i < t.len() implies is_digit(#[trigger] t[i]) by {
            assert(t[i] == s[i]);
        }
        if n < s.len() {
            lemma_digits_value_grows(t, n);
            assert(t.subrange(0, n) =~= s.subrange(0, n));
        } else {
            lemma_digits_value_grows(t, 0);
            assert(s.subrange(0, n) =~= s);
        }
        assert(is_digit(s[s.len() - 1]));
    }
}

/// An index read from a number is never negative.
pub proof fn lemma_index_number_nonneg(s: Seq<char>)
    ensures
        index_number(s) matches Some(n) ==> n >= 0,
{
    if index_number(s) is Some {
        lemma_digits_value_grows(s, 0);
    }
}

/// Reads a JSON number as an index, as serde reads a `usize`.
pub fn read_index(v: &JsonValue) -> (r: Option<usize>)
    ensures
        match v@ {
            JsonView::Number(s) => match r {
                Some(n) => index_number(s) == Some(n as int),
                None => index_number(s) is None,
            },
            _ => r is None,
        },
{
    match v {
        JsonValue::Number(t) => {
            let cs = crate::text::chars_of(t.as_str());
            assert(v@ == JsonView::Number(t@));
            if cs.len() == 0 {
                return None;
            }
            let mut acc: usize = 0;
            let mut i: usize = 0;
            while i < cs.len()
                invariant
                    i <= cs@.len(),
                    cs@ == t@,
                    v@ == JsonView::Number(t@),
                    acc as int == digits_value(cs@.subrange(0, i as int)),
                    forall|k: int| 0 <= k < i ==> is_digit(#[trigger] cs@[k]),
                decreases cs@.len() - i,
            {
                let c = cs[i];
                let cu = c as u32;
                if !(cu >= 48 && cu <= 57) {
                    assert(!is_digit(t@[i as int]));
                    return None;
                }
                let d: usize = (cu - 48) as usize;
                assert(cs@.subrange(0, i + 1).drop_last() =~= cs@.subrange(0, i as int));
                assert(digits_value(cs@.subrange(0, i + 1)) == acc * 10 + d);
                if acc > (usize::MAX - d) / 10 {
                    proof {
                        assert(acc * 10 + d > usize::MAX) by (nonlinear_arith)
                            requires
                                acc > (usize::MAX - d) / 10,
                                d <= 9,
                        ;
                        if forall|k: int| 0 <= k < cs@.len() ==> is_digit(#[trigger] cs@[k]) {
                            lemma_digits_value_grows(cs@, i + 1);
                        }
                    }
                    return None;
                }
                assert(acc * 10 + d <= usize::MAX) by (nonlinear_arith)
                    requires
                        acc <= (usize::MAX - d) / 10,
                        d <= 9,
                ;
                acc = acc * 10 + d;
                i = i + 1;
            }
            assert(cs@.subrange(0, cs@.len() as int) =~= cs@);
            Some(acc)
        },
        _ => None,
    }
}

/// The names of the members of an object.
pub open spec fn member_names(ms: Seq<(String, JsonValue)>) -> Seq<Seq<char>> {
    Seq::new(ms.len(), |i: int| ms[i].0@)
}

/// The views of the values of the members of an object.
pub open spec fn member_values(ms: Seq<(String, JsonValue)>) -> Seq<JsonView> {
    Seq::new(ms.len(), |i: int| ms[i].1@)
}

/// The views of the elements of an array.
pub open spec fn elements(ts: Seq<JsonValue>) -> Seq<JsonView> {
    Seq::new(ts.len(), |k: int| ts[k]@)
}

proof fn lemma_object_view(ms: Vec<(String, JsonValue)>)
    ensures
        JsonValue::Object(ms)@ == JsonView::Object(member_names(ms@), member_values(ms@)),
{
    assert(JsonValue::Object(ms)@->Object_0 =~= member_names(ms@));
    assert(JsonValue::Object(ms)@->Object_1 =~= member_values(ms@));
}

pub proof fn lemma_array_view(a: Vec<JsonValue>)
    ensures
        JsonValue::Array(a)@ == JsonView::Array(elements(a@)),
{
    assert(JsonValue::Array(a)@->Array_0 =~= elements(a@));
}

/// Builds JSON objects member by member.
pub struct ObjectBuilder {
    members: Vec<(String, JsonValue)>,
}

impl ObjectBuilder {
    /// The names of the members so far.
    pub closed spec fn names(&self) -> Seq<Seq<char>> {
        member_names(self.members@)
    }

    /// The values of the members so far.
    pub closed spec fn values(&self) -> Seq<JsonView> {
        member_values(self.members@)
    }

    pub fn new() -> (r: ObjectBuilder)
        ensures
            r.names() == Seq::<Seq<char>>::empty(),
            r.values() == Seq::<JsonView>::empty(),
    {
        let r = ObjectBuilder { members: Vec::new() };
        assert(r.names() =~= Seq::<Seq<char>>::empty());
        assert(r.values() =~= Seq::<JsonView>::empty());
        r
    }

    /// Adds a member at the end.
    pub fn add(&mut self, key: &str, v: JsonValue)
        ensures
            final(self).names() == old(self).names().push(key@),
            final(self).values() == old(self).values().push(v@),
    {
        self.members.push((String::from_str(key), v));
        assert(self.names() =~= old(self).names().push(key@));
        assert(self.values() =~= old(self).values().push(v@));
    }

    /// Adds a text member at the end.
    pub fn add_text(&mut self, key: &str, t: &str)
        ensures
            final(self).names() == old(self).names().push(key@),
            final(self).values() == old(self).values().push(JsonView::Str(t@)),
    {
        self.add(key, JsonValue::text(t));
    }

    /// The object built.
    pub fn build(self) -> (r: JsonValue)
        ensures
            r@ == JsonView::Object(self.names(), self.values()),
    {
        proof {
            lemma_object_view(self.members);
        }
        JsonValue::Object(self.members)
    }
}

/// Builds JSON arrays element by element.
pub struct ArrayBuilder {
    items: Vec<JsonValue>,
}

impl View for ArrayBuilder {
    type V = Seq<JsonView>;

    closed spec fn view(&self) -> Seq<JsonView> {
        elements(self.items@)
    }
}

impl ArrayBuilder {
    pub fn new() -> (r: ArrayBuilder)
        ensures
            r@ == Seq::<JsonView>::empty(),
    {
        let r = ArrayBuilder { items: Vec::new() };
        assert(r@ =~= Seq::<JsonView>::empty());
        r
    }

    /// Adds an element at the end.
    pub fn add(&mut self, v: JsonValue)
        ensures
            final(self)@ == old(self)@.push(v@),
    {
        self.items.push(v);
        assert(self@ =~= old(self)@.push(v@));
    }

    /// The array built.
    pub fn build(self) -> (r: JsonValue)
        ensures
            r@ == JsonView::Array(self@),
    {
        proof {
            lemma_array_view(self.items);
        }
        JsonValue::Array(self.items)
    }
}

/// A text, or null.
pub open spec fn text_or_null(o: Option<Seq<char>>) -> JsonView {
    match o {
        Some(t) => JsonView::Str(t),
        None => JsonView::Null,
    }
}

impl JsonValue {
    /// A text value, or null.
    pub fn text_or_null(o: &Option<String>) -> (r: JsonValue)
        ensures
            r@ == text_or_null(crate::message::opt_str(*o)),
    {
        match o {
            Some(t) => JsonValue::text(t.as_str()),
            None => JsonValue::Null,
        }
    }
}

} // verus!
