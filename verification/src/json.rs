//! JSON documents held as plain values.
use crate::text::same_text;
use vstd::prelude::*;

verus! {

broadcast use vstd::string::group_string_axioms;

/// A JSON number. Numbers with a fraction or an exponent are held by the bits
/// of their IEEE 754 double.
#[derive(Debug, Clone, Copy)]
pub enum Number {
    /// An integer that is not negative.
    Unsigned(u64),
    /// A negative integer.
    Negative(i64),
    /// Any other number, as the bits of a double.
    Double(u64),
}

/// The bits of the double that is zero with a negative sign.
pub const NEGATIVE_ZERO: u64 = 0x8000_0000_0000_0000;

impl Number {
    /// The number by its value: the two doubles that are zero are one number.
    pub open spec fn value(self) -> Number {
        if self == Number::Double(NEGATIVE_ZERO) {
            Number::Double(0)
        } else {
            self
        }
    }
}

impl PartialEq for Number {
    /// Whether the two are the same number. An integer is never the same as a
    /// double.
    fn eq(&self, other: &Number) -> (same: bool) {
        match (*self, *other) {
            (Number::Unsigned(a), Number::Unsigned(b)) => a == b,
            (Number::Negative(a), Number::Negative(b)) => a == b,
            (Number::Double(a), Number::Double(b)) => a == b || (a == 0 && b == NEGATIVE_ZERO)
                || (a == NEGATIVE_ZERO && b == 0),
            _ => false,
        }
    }
}

impl vstd::std_specs::cmp::PartialEqSpecImpl for Number {
    open spec fn obeys_eq_spec() -> bool {
        true
    }

    open spec fn eq_spec(&self, other: &Number) -> bool {
        self.value() == other.value()
    }
}

impl Eq for Number {

}

/// A JSON document. Two documents are `==` where they say the same, with numbers
/// taken by their values.
#[derive(Debug)]
pub enum Json {
    Null,
    Bool(bool),
    Number(Number),
    Text(String),
    Array(Vec<Json>),
    Object(JsonObject),
}

/// The members of a JSON object, in the order in which they were added. Where a
/// name was added more than once, the last addition counts. Two objects are `==`
/// where they have the same members with the same values, in whatever order.
#[derive(Debug)]
pub struct JsonObject {
    pub members: Vec<(String, Json)>,
}

/// What a JSON document says: an object is a map from member names to values,
/// whatever the order in which its members were written.
pub enum JsonView {
    Null,
    Bool(bool),
    Number(Number),
    Text(Seq<char>),
    Array(Seq<JsonView>),
    Object(Map<Seq<char>, JsonView>),
}

impl JsonView {
    /// The member `name`, where this is an object that has one.
    pub open spec fn get(self, name: Seq<char>) -> Option<JsonView> {
        match self {
            JsonView::Object(members) => if members.contains_key(name) {
                Some(members[name])
            } else {
                None
            },
            _ => None,
        }
    }

    pub open spec fn as_str(self) -> Option<Seq<char>> {
        match self {
            JsonView::Text(text) => Some(text),
            _ => None,
        }
    }

    pub open spec fn as_bool(self) -> Option<bool> {
        match self {
            JsonView::Bool(b) => Some(b),
            _ => None,
        }
    }

    pub open spec fn as_array(self) -> Option<Seq<JsonView>> {
        match self {
            JsonView::Array(elements) => Some(elements),
            _ => None,
        }
    }

    /// The text of the member `name`, where there is such a member and it is a text.
    pub open spec fn get_str(self, name: Seq<char>) -> Option<Seq<char>> {
        match self.get(name) {
            Some(member) => member.as_str(),
            None => None,
        }
    }
}

impl JsonView {
    /// What the document says, with numbers taken by their values.
    pub open spec fn value(self) -> JsonView
        decreases self,
    {
        match self {
            JsonView::Number(number) => JsonView::Number(number.value()),
            JsonView::Array(elements) => JsonView::Array(
                Seq::new(
                    elements.len(),
                    |i: int|
                        if 0 <= i < elements.len() {
                            elements[i].value()
                        } else {
                            JsonView::Null
                        },
                ),
            ),
            JsonView::Object(members) => JsonView::Object(
                Map::new(
                    |name: Seq<char>| members.contains_key(name),
                    |name: Seq<char>|
                        if members.contains_key(name) {
                            members[name].value()
                        } else {
                            JsonView::Null
                        },
                ),
            ),
            other => other,
        }
    }
}

/// Two arrays are the same by value where their elements are, one for one.
proof fn lemma_array_value(a: Seq<JsonView>, b: Seq<JsonView>)
    ensures
        JsonView::Array(a).value() == JsonView::Array(b).value() <==> a.len() == b.len()
            && forall|i: int| 0 <= i < a.len() ==> (#[trigger] a[i]).value() == b[i].value(),
{
    let va = JsonView::Array(a).value()->Array_0;
    let vb = JsonView::Array(b).value()->Array_0;
    assert(va.len() == a.len() && vb.len() == b.len());
    assert(forall|i: int| 0 <= i < a.len() ==> #[trigger] va[i] == a[i].value());
    assert(forall|i: int| 0 <= i < b.len() ==> #[trigger] vb[i] == b[i].value());
    if va == vb {
        assert forall|i: int| 0 <= i < a.len() implies (#[trigger] a[i]).value()
            == b[i].value() by {
            assert(va[i] == vb[i]);
        }
    }
    if a.len() == b.len() && forall|i: int|
        0 <= i < a.len() ==> (#[trigger] a[i]).value() == b[i].value() {
        assert forall|i: int| 0 <= i < va.len() implies #[trigger] va[i] == vb[i] by {
            assert(a[i].value() == b[i].value());
        }
        assert(va =~= vb);
    }
}

/// Two objects are the same by value where they have the same names and the values of
/// each are.
proof fn lemma_object_value(a: Map<Seq<char>, JsonView>, b: Map<Seq<char>, JsonView>)
    ensures
        JsonView::Object(a).value() == JsonView::Object(b).value() <==> {
            &&& forall|name: Seq<char>| #[trigger] a.contains_key(name) == b.contains_key(name)
            &&& forall|name: Seq<char>| #[trigger]
                a.contains_key(name) ==> a[name].value() == b[name].value()
        },
{
    let va = JsonView::Object(a).value()->Object_0;
    let vb = JsonView::Object(b).value()->Object_0;
    assert(forall|name: Seq<char>| #[trigger] va.contains_key(name) == a.contains_key(name));
    assert(forall|name: Seq<char>| #[trigger] vb.contains_key(name) == b.contains_key(name));
    assert(forall|name: Seq<char>|
        a.contains_key(name) ==> #[trigger] va[name] == a[name].value());
    assert(forall|name: Seq<char>|
        b.contains_key(name) ==> #[trigger] vb[name] == b[name].value());
    if va == vb {
        assert forall|name: Seq<char>| #[trigger] a.contains_key(name) == b.contains_key(name) by {
            assert(va.contains_key(name) == vb.contains_key(name));
        }
        assert forall|name: Seq<char>| #[trigger] a.contains_key(name) implies a[name].value()
            == b[name].value() by {
            assert(va.contains_key(name) == vb.contains_key(name));
            assert(va[name] == vb[name]);
        }
    }
    if (forall|name: Seq<char>| #[trigger] a.contains_key(name) == b.contains_key(name)) && (
    forall|name: Seq<char>| #[trigger]
        a.contains_key(name) ==> a[name].value() == b[name].value()) {
        assert(va =~= vb);
    }
}

/// The member `name` of an optional document.
pub open spec fn member(doc: Option<JsonView>, name: Seq<char>) -> Option<JsonView> {
    match doc {
        Some(doc) => doc.get(name),
        None => None,
    }
}

/// What an optional document says.
pub open spec fn json_view(doc: Option<Json>) -> Option<JsonView> {
    match doc {
        Some(doc) => Some(doc@),
        None => None,
    }
}

/// What an optional borrowed document says.
pub open spec fn json_ref_view(doc: Option<&Json>) -> Option<JsonView> {
    match doc {
        Some(doc) => Some(doc@),
        None => None,
    }
}

/// The members of an object as a map from name to value.
pub open spec fn members_view(members: Seq<(String, Json)>) -> Map<Seq<char>, JsonView>
    decreases members,
{
    if members.len() == 0 {
        Map::empty()
    } else {
        members_view(members.drop_last()).insert(members.last().0@, members.last().1.says())
    }
}

/// The elements of an array.
pub open spec fn elements_view(elements: Seq<Json>) -> Seq<JsonView>
    decreases elements,
{
    if elements.len() == 0 {
        Seq::empty()
    } else {
        elements_view(elements.drop_last()).push(elements.last().says())
    }
}

/// The elements of an array stand one for one.
pub proof fn lemma_elements_view(elements: Seq<Json>)
    ensures
        elements_view(elements).len() == elements.len(),
        forall|i: int|
            0 <= i < elements.len() ==> #[trigger] elements_view(elements)[i] == elements[i]@,
    decreases elements.len(),
{
    if elements.len() > 0 {
        lemma_elements_view(elements.drop_last());
    }
}

/// A member that is not among the last ones is found among the ones before.
proof fn lemma_members_suffix(members: Seq<(String, Json)>, from: int, name: Seq<char>)
    requires
        0 <= from <= members.len(),
        forall|i: int| from <= i < members.len() ==> (#[trigger] members[i]).0@ != name,
    ensures
        members_view(members).contains_key(name) == members_view(
            members.take(from),
        ).contains_key(name),
        members_view(members).contains_key(name) ==> members_view(members)[name] == members_view(
            members.take(from),
        )[name],
    decreases members.len() - from,
{
    if from == members.len() {
        assert(members.take(from) =~= members);
    } else {
        lemma_members_suffix(members, from + 1, name);
        assert(members.take(from + 1).drop_last() =~= members.take(from));
        assert(members.take(from + 1).last() == members[from]);
    }
}

impl View for Json {
    type V = JsonView;

    open spec fn view(&self) -> JsonView {
        self.says()
    }
}

impl Json {
    /// What the document says.
    pub open spec fn says(&self) -> JsonView
        decreases self,
    {
        match self {
            Json::Null => JsonView::Null,
            Json::Bool(b) => JsonView::Bool(*b),
            Json::Number(n) => JsonView::Number(*n),
            Json::Text(s) => JsonView::Text(s@),
            Json::Array(elements) => JsonView::Array(elements_view(elements@)),
            Json::Object(object) => JsonView::Object(members_view(object.members@)),
        }
    }

    /// A text document.
    pub fn text(text: &str) -> (doc: Json)
        ensures
            doc@ == JsonView::Text(text@),
    {
        Json::Text(text.to_owned())
    }

    /// The member `name`, where this is an object that has one.
    pub fn get(&self, name: &str) -> (found: Option<&Json>)
        ensures
            json_ref_view(found) == self@.get(name@),
    {
        match self {
            Json::Object(object) => object.get(name),
            _ => None,
        }
    }

    /// The text, where this is a text.
    pub fn as_str(&self) -> (text: Option<&str>)
        ensures
            (match text {
                Some(text) => self@.as_str() == Some(text@),
                None => self@.as_str() is None,
            }),
    {
        match self {
            Json::Text(text) => Some(text.as_str()),
            _ => None,
        }
    }

    /// The truth value, where this is one.
    pub fn as_bool(&self) -> (b: Option<bool>)
        ensures
            b == self@.as_bool(),
    {
        match self {
            Json::Bool(b) => Some(*b),
            _ => None,
        }
    }

    /// The elements, where this is an array.
    pub fn as_array(&self) -> (elements: Option<&Vec<Json>>)
        ensures
            (match elements {
                Some(elements) => self@.as_array() == Some(elements_view(elements@)),
                None => self@.as_array() is None,
            }),
    {
        match self {
            Json::Array(elements) => Some(elements),
            _ => None,
        }
    }

    /// The text of the member `name`, where there is such a member and it is a text.
    pub fn get_str(&self, name: &str) -> (text: Option<&str>)
        ensures
            (match text {
                Some(text) => self@.get_str(name@) == Some(text@),
                None => self@.get_str(name@) is None,
            }),
    {
        match self.get(name) {
            Some(member) => member.as_str(),
            None => None,
        }
    }
}

/// The member `name` of an optional document.
pub fn get_member<'a>(doc: Option<&'a Json>, name: &str) -> (found: Option<&'a Json>)
    ensures
        json_ref_view(found) == member(json_ref_view(doc), name@),
{
    match doc {
        Some(doc) => doc.get(name),
        None => None,
    }
}

impl View for JsonObject {
    type V = Map<Seq<char>, JsonView>;

    open spec fn view(&self) -> Map<Seq<char>, JsonView> {
        members_view(self.members@)
    }
}

impl JsonObject {
    /// An object without members.
    pub fn new() -> (object: JsonObject)
        ensures
            object@ == Map::<Seq<char>, JsonView>::empty(),
    {
        JsonObject { members: Vec::new() }
    }

    /// The object with the member `name` set to `value`.
    pub fn with(self, name: &str, value: Json) -> (object: JsonObject)
        ensures
            object@ == self@.insert(name@, value@),
    {
        let mut members = self.members;
        members.push((name.to_owned(), value));
        proof {
            assert(members@.drop_last() =~= self.members@);
        }
        JsonObject { members }
    }

    /// The place of the member `name`: of the last addition, where there are several.
    fn position(&self, name: &str) -> (found: Option<usize>)
        ensures
            (match found {
                Some(i) => {
                    &&& i < self.members@.len()
                    &&& self@.contains_key(name@)
                    &&& self@[name@] == self.members@[i as int].1@
                },
                None => !self@.contains_key(name@),
            }),
    {
        let mut i: usize = self.members.len();
        while i > 0
            invariant
                0 <= i <= self.members.len(),
                forall|j: int|
                    i <= j < self.members.len() ==> (#[trigger] self.members@[j]).0@ != name@,
            decreases i,
        {
            i = i - 1;
            if same_text(self.members[i].0.as_str(), name) {
                proof {
                    lemma_members_suffix(self.members@, i + 1, name@);
                    assert(self.members@.take(i + 1).last() == self.members@[i as int]);
                }
                return Some(i);
            }
        }
        proof {
            lemma_members_suffix(self.members@, 0, name@);
            assert(self.members@.take(0) =~= Seq::empty());
        }
        None
    }

    /// The value of the member `name`, where there is one.
    pub fn get(&self, name: &str) -> (found: Option<&Json>)
        ensures
            json_ref_view(found) == JsonView::Object(self@).get(name@),
    {
        match self.position(name) {
            Some(i) => Some(&self.members[i].1),
            None => None,
        }
    }
}

/// An object has the members that were added to it.
proof fn lemma_members_view(members: Seq<(String, Json)>)
    ensures
        forall|i: int|
            0 <= i < members.len() ==> members_view(members).contains_key(
                (#[trigger] members[i]).0@,
            ),
        forall|name: Seq<char>| #[trigger]
            members_view(members).contains_key(name) ==> exists|i: int|
                0 <= i < members.len() && (#[trigger] members[i]).0@ == name,
    decreases members.len(),
{
    if members.len() > 0 {
        let rest = members.drop_last();
        lemma_members_view(rest);
        assert forall|i: int| 0 <= i < members.len() implies members_view(members).contains_key(
            (#[trigger] members[i]).0@,
        ) by {
            if i < rest.len() {
                assert(rest[i] == members[i]);
            }
        }
        assert forall|name: Seq<char>| #[trigger]
            members_view(members).contains_key(name) implies exists|i: int|
            0 <= i < members.len() && (#[trigger] members[i]).0@ == name by {
            if name == members.last().0@ {
                assert(members[members.len() - 1].0@ == name);
            } else {
                assert(members_view(rest).contains_key(name));
                let i = choose|i: int| 0 <= i < rest.len() && (#[trigger] rest[i]).0@ == name;
                assert(members[i].0@ == name);
            }
        }
    }
}

impl Json {
    /// Whether two documents say the same, with numbers taken by their values.
    pub fn says_same(&self, other: &Json) -> (same: bool)
        ensures
            same == (self@.value() == other@.value()),
        decreases self,
    {
        match (self, other) {
            (Json::Null, Json::Null) => true,
            (Json::Bool(a), Json::Bool(b)) => *a == *b,
            (Json::Number(a), Json::Number(b)) => *a == *b,
            (Json::Text(a), Json::Text(b)) => same_text(a.as_str(), b.as_str()),
            (Json::Array(a), Json::Array(b)) => {
                proof {
                    lemma_elements_view(a@);
                    lemma_elements_view(b@);
                    lemma_array_value(elements_view(a@), elements_view(b@));
                }
                if a.len() != b.len() {
                    return false;
                }
                let mut i: usize = 0;
                while i < a.len()
                    invariant
                        *self == Json::Array(*a),
                        *other == Json::Array(*b),
                        0 <= i <= a.len(),
                        a.len() == b.len(),
                        elements_view(a@).len() == a@.len(),
                        forall|j: int|
                            0 <= j < a@.len() ==> #[trigger] elements_view(a@)[j] == a@[j]@,
                        forall|j: int|
                            0 <= j < b@.len() ==> #[trigger] elements_view(b@)[j] == b@[j]@,
                        forall|j: int|
                            0 <= j < i ==> (#[trigger] elements_view(a@)[j]).value()
                                == elements_view(b@)[j].value(),
                        self@.value() == other@.value() ==> forall|j: int|
                            0 <= j < a@.len() ==> (#[trigger] elements_view(a@)[j]).value()
                                == elements_view(b@)[j].value(),
                    decreases a.len() - i,
                {
                    proof {
                        assert(decreases_to!(*self => self->Array_0));
                        assert(decreases_to!(*a => a@[i as int]));
                        assert(elements_view(a@)[i as int] == a@[i as int]@);
                        assert(elements_view(b@)[i as int] == b@[i as int]@);
                    }
                    if !a[i].says_same(&b[i]) {
                        return false;
                    }
                    i = i + 1;
                }
                true
            },
            (Json::Object(a), Json::Object(b)) => a.says_same(b),
            _ => false,
        }
    }
}

impl JsonObject {
    /// Whether two objects have the same members with the same values.
    pub fn says_same(&self, other: &JsonObject) -> (same: bool)
        ensures
            same == (JsonView::Object(self@).value() == JsonView::Object(other@).value()),
        decreases self,
    {
        proof {
            lemma_members_view(self.members@);
            lemma_members_view(other.members@);
            lemma_object_value(self@, other@);
        }
        let ghost all_same = JsonView::Object(self@).value() == JsonView::Object(other@).value();
        let mut i: usize = 0;
        while i < self.members.len()
            invariant
                0 <= i <= self.members.len(),
                all_same == (JsonView::Object(self@).value() == JsonView::Object(other@).value()),
                all_same ==> forall|name: Seq<char>| #[trigger]
                    self@.contains_key(name) == other@.contains_key(name),
                all_same ==> forall|name: Seq<char>| #[trigger]
                    self@.contains_key(name) ==> self@[name].value() == other@[name].value(),
                forall|j: int|
                    0 <= j < self.members@.len() ==> self@.contains_key(
                        (#[trigger] self.members@[j]).0@,
                    ),
                forall|j: int|
                    0 <= j < i ==> other@.contains_key((#[trigger] self.members@[j]).0@)
                        && self@[self.members@[j].0@].value()
                        == other@[self.members@[j].0@].value(),
            decreases self.members.len() - i,
        {
            let name = self.members[i].0.as_str();
            assert(self@.contains_key(self.members@[i as int].0@));
            if let Some(k) = self.position(name) {
                match other.get(name) {
                    Some(value) => {
                        if !self.members[k].1.says_same(value) {
                            return false;
                        }
                    },
                    None => {
                        return false;
                    },
                }
            }
            i = i + 1;
        }
        let mut j: usize = 0;
        while j < other.members.len()
            invariant
                0 <= j <= other.members.len(),
                all_same == (JsonView::Object(self@).value() == JsonView::Object(other@).value()),
                all_same ==> forall|name: Seq<char>| #[trigger]
                    self@.contains_key(name) == other@.contains_key(name),
                forall|k: int|
                    0 <= k < other.members@.len() ==> other@.contains_key(
                        (#[trigger] other.members@[k]).0@,
                    ),
                forall|k: int|
                    0 <= k < j ==> self@.contains_key((#[trigger] other.members@[k]).0@),
            decreases other.members.len() - j,
        {
            assert(other@.contains_key(other.members@[j as int].0@));
            if self.position(other.members[j].0.as_str()).is_none() {
                return false;
            }
            j = j + 1;
        }
        proof {
            assert forall|name: Seq<char>| #[trigger]
                self@.contains_key(name) == other@.contains_key(name) by {
                if self@.contains_key(name) {
                    let k = choose|k: int|
                        0 <= k < self.members@.len() && (#[trigger] self.members@[k]).0@ == name;
                    assert(other@.contains_key(self.members@[k].0@));
                }
                if other@.contains_key(name) {
                    let k = choose|k: int|
                        0 <= k < other.members@.len() && (#[trigger] other.members@[k]).0@ == name;
                    assert(self@.contains_key(other.members@[k].0@));
                }
            }
            assert forall|name: Seq<char>| #[trigger]
                self@.contains_key(name) implies self@[name].value() == other@[name].value() by {
                let k = choose|k: int|
                    0 <= k < self.members@.len() && (#[trigger] self.members@[k]).0@ == name;
                assert(self@[self.members@[k].0@].value() == other@[self.members@[k].0@].value());
            }
        }
        true
    }
}

impl PartialEq for Json {
    /// Whether two documents say the same.
    fn eq(&self, other: &Json) -> (same: bool) {
        self.says_same(other)
    }
}

impl vstd::std_specs::cmp::PartialEqSpecImpl for Json {
    open spec fn obeys_eq_spec() -> bool {
        true
    }

    open spec fn eq_spec(&self, other: &Json) -> bool {
        self@.value() == other@.value()
    }
}

impl Eq for Json {

}

impl PartialEq for JsonObject {
    /// Whether two objects have the same members with the same values.
    fn eq(&self, other: &JsonObject) -> (same: bool) {
        self.says_same(other)
    }
}

impl vstd::std_specs::cmp::PartialEqSpecImpl for JsonObject {
    open spec fn obeys_eq_spec() -> bool {
        true
    }

    open spec fn eq_spec(&self, other: &JsonObject) -> bool {
        JsonView::Object(self@).value() == JsonView::Object(other@).value()
    }
}

impl Eq for JsonObject {

}

impl Clone for Json {
    /// A document that says the same.
    fn clone(&self) -> (copy: Json)
        ensures
            copy@ == self@,
        decreases self,
    {
        match self {
            Json::Null => Json::Null,
            Json::Bool(b) => Json::Bool(*b),
            Json::Number(n) => Json::Number(*n),
            Json::Text(text) => Json::Text(text.clone()),
            Json::Array(elements) => {
                let mut copies: Vec<Json> = Vec::new();
                let mut i: usize = 0;
                while i < elements.len()
                    invariant
                        *self == Json::Array(*elements),
                        0 <= i <= elements.len(),
                        copies@.len() == i,
                        elements_view(copies@) == elements_view(elements@.take(i as int)),
                    decreases elements.len() - i,
                {
                    let ghost before = copies@;
                    proof {
                        assert(decreases_to!(*self => self->Array_0));
                        assert(decreases_to!(*elements => elements@[i as int]));
                    }
                    let copy = elements[i].clone();
                    copies.push(copy);
                    proof {
                        assert(copies@.drop_last() =~= before);
                        assert(elements@.take(i + 1).drop_last() =~= elements@.take(i as int));
                    }
                    i = i + 1;
                }
                proof {
                    assert(elements@.take(i as int) =~= elements@);
                }
                Json::Array(copies)
            },
            Json::Object(object) => Json::Object(object.clone()),
        }
    }
}

impl Clone for JsonObject {
    /// An object that says the same.
    fn clone(&self) -> (copy: JsonObject)
        ensures
            copy@ == self@,
        decreases self,
    {
        let mut copies: Vec<(String, Json)> = Vec::new();
        let mut i: usize = 0;
        while i < self.members.len()
            invariant
                0 <= i <= self.members.len(),
                members_view(copies@) == members_view(self.members@.take(i as int)),
            decreases self.members.len() - i,
        {
            let ghost before = copies@;
            let name = self.members[i].0.clone();
            let value = self.members[i].1.clone();
            copies.push((name, value));
            proof {
                assert(copies@.drop_last() =~= before);
                assert(self.members@.take(i + 1).drop_last() =~= self.members@.take(i as int));
            }
            i = i + 1;
        }
        proof {
            assert(self.members@.take(i as int) =~= self.members@);
        }
        JsonObject { members: copies }
    }
}

/// Whether a document is an object with the member `name`, and `value` is its value.
pub open spec fn has_member(doc: JsonView, name: Seq<char>, value: JsonView) -> bool {
    doc matches JsonView::Object(members) && members.contains_key(name) && members[name] == value
}

/// Whether a document is an object with the member `name`, and its value is the text
/// `text`.
pub open spec fn has_text(doc: JsonView, name: Seq<char>, text: Seq<char>) -> bool {
    has_member(doc, name, JsonView::Text(text))
}

/// Whether a document is an object with exactly these members.
pub open spec fn has_exactly(doc: JsonView, names: Set<Seq<char>>) -> bool {
    doc matches JsonView::Object(members) && members.dom() == names
}

/// A member is found exactly where the document is an object that has it, and a text,
/// a truth value and an array exactly where the document is one.
pub proof fn documents_are_read_as_they_are(
    doc: JsonView,
    name: Seq<char>,
    found: JsonView,
    text: Seq<char>,
    flag: bool,
    elements: Seq<JsonView>,
)
    ensures
        doc.get(name) == Some(found) <==> has_member(doc, name, found),
        doc.as_str() == Some(text) <==> doc == JsonView::Text(text),
        doc.as_bool() == Some(flag) <==> doc == JsonView::Bool(flag),
        doc.as_array() == Some(elements) <==> doc == JsonView::Array(elements),
        doc.get_str(name) == Some(text) <==> has_text(doc, name, text),
        member(Some(doc), name) == Some(found) <==> has_member(doc, name, found),
        member(None, name) is None,
{
}

/// A document says what it holds. Of the members of an object under one name the last
/// counts.
pub proof fn documents_say_what_they_hold(doc: Json)
    ensures
        (match doc {
            Json::Null => doc@ == JsonView::Null,
            Json::Bool(b) => doc@ == JsonView::Bool(b),
            Json::Number(n) => doc@ == JsonView::Number(n),
            Json::Text(text) => doc@ == JsonView::Text(text@),
            Json::Array(elements) => {
                &&& doc@ matches JsonView::Array(said)
                &&& said.len() == elements@.len()
                &&& forall|i: int|
                    0 <= i < elements@.len() ==> #[trigger] said[i] == elements@[i]@
            },
            Json::Object(object) => doc@ == JsonView::Object(object@),
        }),
        json_view(Some(doc)) == Some(doc@),
        json_ref_view(Some(&doc)) == Some(doc@),
        json_view(None) is None,
        json_ref_view(None) is None,
{
    if let Json::Array(elements) = doc {
        lemma_elements_view(elements@);
    }
}

/// An object has the members that were added to it and no others, and each has the
/// value that was added last.
pub proof fn the_last_addition_counts(object: JsonObject, i: int)
    requires
        0 <= i < object.members@.len(),
        forall|j: int|
            i < j < object.members@.len() ==> (#[trigger] object.members@[j]).0@
                != object.members@[i].0@,
    ensures
        object@.contains_key(object.members@[i].0@),
        object@[object.members@[i].0@] == object.members@[i].1@,
        forall|name: Seq<char>| #[trigger]
            object@.contains_key(name) <==> exists|k: int|
                0 <= k < object.members@.len() && (#[trigger] object.members@[k]).0@ == name,
{
    let members = object.members@;
    lemma_members_view(members);
    lemma_members_suffix(members, i + 1, members[i].0@);
    assert(members.take(i + 1).last() == members[i]);
    assert forall|name: Seq<char>| (exists|k: int|
        0 <= k < members.len() && (#[trigger] members[k]).0@ == name) implies object@.contains_key(
        name,
    ) by {
        let k = choose|k: int| 0 <= k < members.len() && (#[trigger] members[k]).0@ == name;
        assert(members_view(members).contains_key(members[k].0@));
    }
}

/// An object has exactly the members that were added to it.
pub proof fn objects_have_the_members_that_were_added(object: JsonObject, name: Seq<char>)
    ensures
        object@.contains_key(name) <==> exists|k: int|
            0 <= k < object.members@.len() && (#[trigger] object.members@[k]).0@ == name,
{
    lemma_members_view(object.members@);
}

/// Two documents are the same by value where they hold the same, whatever the sign of
/// a zero among the doubles.
pub proof fn documents_are_compared_by_what_they_hold(a: JsonView, b: JsonView)
    ensures
        a.value() == b.value() <==> (match (a, b) {
            (JsonView::Null, JsonView::Null) => true,
            (JsonView::Bool(x), JsonView::Bool(y)) => x == y,
            (JsonView::Number(x), JsonView::Number(y)) => x == y || (x == Number::Double(0) && y
                == Number::Double(0x8000_0000_0000_0000)) || (x == Number::Double(
                0x8000_0000_0000_0000,
            ) && y == Number::Double(0)),
            (JsonView::Text(x), JsonView::Text(y)) => x == y,
            (JsonView::Array(x), JsonView::Array(y)) => x.len() == y.len() && forall|i: int|
                0 <= i < x.len() ==> (#[trigger] x[i]).value() == y[i].value(),
            (JsonView::Object(x), JsonView::Object(y)) => {
                &&& forall|name: Seq<char>| #[trigger] x.contains_key(name) == y.contains_key(name)
                &&& forall|name: Seq<char>| #[trigger]
                    x.contains_key(name) ==> x[name].value() == y[name].value()
            },
            _ => false,
        }),
        a == b ==> a.value() == b.value(),
{
    match (a, b) {
        (JsonView::Array(x), JsonView::Array(y)) => lemma_array_value(x, y),
        (JsonView::Object(x), JsonView::Object(y)) => lemma_object_value(x, y),
        _ => {},
    }
}

} // verus!
