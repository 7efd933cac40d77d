//! JSON values: tool schemas, tool arguments and tool results.
use vstd::prelude::*;

use crate::text::{
    concatenated, decimal, decimal_text, is_before, joined, numbers_are_read_back, parsed_number,
    text_before, text_before_total, text_before_transitive, text_eq, views,
};

verus! {

/// A JSON number: a natural number, a negative integer, or the text of a finite binary fraction.
///
/// The text of a fraction is the shortest one that reads back as the same fraction, so two texts
/// stand for equal fractions only where they are the same or both stand for zero.
#[derive(Debug)]
pub enum JsonNumber {
    PosInt(u64),
    NegInt(i64),
    Float(String),
}

pub enum JsonNumberView {
    Int(int),
    Float(Seq<char>),
}

/// A JSON value.
#[derive(Debug)]
pub enum JsonValue {
    Null,
    Bool(bool),
    Number(JsonNumber),
    Text(String),
    Array(Vec<JsonValue>),
    Object(Vec<JsonMember>),
}

/// One member of a JSON object. `object_of` puts the members of an object in the order of their
/// keys.
#[derive(Debug)]
pub struct JsonMember {
    pub key: String,
    pub value: JsonValue,
}

#[verifier::ext_equal]
pub enum JsonView {
    Null,
    Bool(bool),
    Number(JsonNumberView),
    Text(Seq<char>),
    Array(Seq<JsonView>),
    Object(Seq<JsonMemberView>),
}

#[verifier::ext_equal]
pub struct JsonMemberView {
    pub key: Seq<char>,
    pub value: JsonView,
}

impl View for JsonNumber {
    type V = JsonNumberView;

    open spec fn view(&self) -> JsonNumberView {
        match self {
            JsonNumber::PosInt(n) => JsonNumberView::Int(*n as int),
            JsonNumber::NegInt(n) => JsonNumberView::Int(*n as int),
            JsonNumber::Float(text) => JsonNumberView::Float(text@),
        }
    }
}

/// The view of a JSON value.
pub open spec fn json_view(value: JsonValue) -> JsonView
    decreases value,
{
    match value {
        JsonValue::Null => JsonView::Null,
        JsonValue::Bool(b) => JsonView::Bool(b),
        JsonValue::Number(n) => JsonView::Number(n@),
        JsonValue::Text(s) => JsonView::Text(s@),
        JsonValue::Array(items) => JsonView::Array(item_views(items@)),
        JsonValue::Object(members) => JsonView::Object(member_views(members@)),
    }
}

/// The views of the items of an array.
pub open spec fn item_views(items: Seq<JsonValue>) -> Seq<JsonView>
    decreases items,
{
    if items.len() == 0 {
        Seq::empty()
    } else {
        item_views(items.drop_last()).push(json_view(items.last()))
    }
}

/// The views of the members of an object.
pub open spec fn member_views(members: Seq<JsonMember>) -> Seq<JsonMemberView>
    decreases members,
{
    if members.len() == 0 {
        Seq::empty()
    } else {
        member_views(members.drop_last()).push(
            JsonMemberView { key: members.last().key@, value: json_view(members.last().value) },
        )
    }
}

impl View for JsonValue {
    type V = JsonView;

    open spec fn view(&self) -> JsonView {
        json_view(*self)
    }
}

impl View for JsonMember {
    type V = JsonMemberView;

    open spec fn view(&self) -> JsonMemberView {
        JsonMemberView { key: self.key@, value: self.value@ }
    }
}

pub broadcast proof fn item_views_index(items: Seq<JsonValue>)
    ensures
        #![trigger item_views(items)]
        item_views(items).len() == items.len(),
        forall|i: int| 0 <= i < items.len() ==> #[trigger] item_views(items)[i] == items[i]@,
    decreases items.len(),
{
    if items.len() > 0 {
        item_views_index(items.drop_last());
    }
}

pub broadcast proof fn member_views_index(members: Seq<JsonMember>)
    ensures
        #![trigger member_views(members)]
        member_views(members).len() == members.len(),
        forall|i: int|
            0 <= i < members.len() ==> #[trigger] member_views(members)[i] == members[i]@,
    decreases members.len(),
{
    if members.len() > 0 {
        member_views_index(members.drop_last());
    }
}

impl Clone for JsonNumber {
    fn clone(&self) -> (copy: Self)
        ensures
            copy@ == self@,
    {
        match self {
            JsonNumber::PosInt(n) => JsonNumber::PosInt(*n),
            JsonNumber::NegInt(n) => JsonNumber::NegInt(*n),
            JsonNumber::Float(text) => JsonNumber::Float(text.clone()),
        }
    }
}

impl Clone for JsonValue {
    fn clone(&self) -> (copy: Self)
        ensures
            copy@ == self@,
        decreases self,
    {
        broadcast use item_views_index, member_views_index;

        match self {
            JsonValue::Null => JsonValue::Null,
            JsonValue::Bool(b) => JsonValue::Bool(*b),
            JsonValue::Number(n) => JsonValue::Number(n.clone()),
            JsonValue::Text(s) => JsonValue::Text(s.clone()),
            JsonValue::Array(items) => {
                let mut copies: Vec<JsonValue> = Vec::new();
                let mut i: usize = 0;
                while i < items.len()
                    invariant
                        i <= items@.len(),
                        copies@.len() == i,
                        *self == JsonValue::Array(*items),
                        forall|j: int| 0 <= j < i ==> #[trigger] copies@[j]@ == items@[j]@,
                    decreases items@.len() - i,
                {
                    assert(decreases_to!(*self => self->Array_0));
                    assert(decreases_to!(*items => items@[i as int]));
                    copies.push(items[i].clone());
                    i = i + 1;
                }
                assert(item_views(copies@) =~= item_views(items@));
                JsonValue::Array(copies)
            },
            JsonValue::Object(members) => {
                let mut copies: Vec<JsonMember> = Vec::new();
                let mut i: usize = 0;
                while i < members.len()
                    invariant
                        i <= members@.len(),
                        copies@.len() == i,
                        *self == JsonValue::Object(*members),
                        forall|j: int| 0 <= j < i ==> #[trigger] copies@[j]@ == members@[j]@,
                    decreases members@.len() - i,
                {
                    assert(decreases_to!(*self => self->Object_0));
                    assert(decreases_to!(*members => members@[i as int]));
                    copies.push(
                        JsonMember {
                            key: members[i].key.clone(),
                            value: members[i].value.clone(),
                        },
                    );
                    i = i + 1;
                }
                assert(member_views(copies@) =~= member_views(members@));
                JsonValue::Object(copies)
            },
        }
    }
}

impl Clone for JsonMember {
    fn clone(&self) -> (copy: Self)
        ensures
            copy@ == self@,
    {
        JsonMember { key: self.key.clone(), value: self.value.clone() }
    }
}

/// The value under `key` in an object's members: that of the first member with the key.
pub open spec fn found(members: Seq<JsonMemberView>, key: Seq<char>) -> Option<JsonView>
    decreases members.len(),
{
    if members.len() == 0 {
        None
    } else if members[0].key == key {
        Some(members[0].value)
    } else {
        found(members.drop_first(), key)
    }
}

impl JsonView {
    /// The value under `key`; only an object has one.
    pub open spec fn member(self, key: Seq<char>) -> Option<JsonView> {
        match self {
            JsonView::Object(members) => found(members, key),
            _ => None,
        }
    }

    /// The text under `key`.
    pub open spec fn text_member(self, key: Seq<char>) -> Option<Seq<char>> {
        match self.member(key) {
            Some(JsonView::Text(text)) => Some(text),
            _ => None,
        }
    }

    /// The items of the array under `key`.
    pub open spec fn array_member(self, key: Seq<char>) -> Option<Seq<JsonView>> {
        match self.member(key) {
            Some(JsonView::Array(items)) => Some(items),
            _ => None,
        }
    }

    /// The members of the object under `key`; none where there is no such object.
    pub open spec fn object_member(self, key: Seq<char>) -> Seq<JsonMemberView> {
        match self.member(key) {
            Some(JsonView::Object(members)) => members,
            _ => Seq::empty(),
        }
    }
}

/// Whether two numbers are equal: as integers, or as fractions. An integer equals no fraction.
pub open spec fn same_number(a: JsonNumberView, b: JsonNumberView) -> bool {
    match (a, b) {
        (JsonNumberView::Int(m), JsonNumberView::Int(n)) => m == n,
        (JsonNumberView::Float(s), JsonNumberView::Float(t)) => s == t || (zero_fraction(s)
            && zero_fraction(t)),
        _ => false,
    }
}

/// Whether a fraction's text stands for zero.
pub open spec fn zero_fraction(text: Seq<char>) -> bool {
    text == "0.0"@ || text == "-0.0"@
}

/// Whether a number is zero.
pub open spec fn is_zero(n: JsonNumberView) -> bool {
    match n {
        JsonNumberView::Int(i) => i == 0,
        JsonNumberView::Float(text) => zero_fraction(text),
    }
}

/// Whether two values are equal: of the same form, with equal parts. The order of an object's
/// members does not matter.
pub open spec fn same_json(a: JsonView, b: JsonView) -> bool
    decreases a,
{
    match (a, b) {
        (JsonView::Null, JsonView::Null) => true,
        (JsonView::Bool(x), JsonView::Bool(y)) => x == y,
        (JsonView::Number(x), JsonView::Number(y)) => same_number(x, y),
        (JsonView::Text(x), JsonView::Text(y)) => x == y,
        (JsonView::Array(x), JsonView::Array(y)) => same_items(x, y),
        (JsonView::Object(x), JsonView::Object(y)) => values_agree(x, y) && keys_within(y, x),
        _ => false,
    }
}

/// Whether two arrays have as many items and equal ones at each place.
pub open spec fn same_items(x: Seq<JsonView>, y: Seq<JsonView>) -> bool
    decreases x,
{
    if x.len() == 0 || y.len() == 0 {
        x.len() == y.len()
    } else {
        same_items(x.drop_last(), y.drop_last()) && same_json(x.last(), y.last())
    }
}

/// Whether each key of `x` has an equal value in `y`. Of members with the same key the first one
/// counts.
pub open spec fn values_agree(x: Seq<JsonMemberView>, y: Seq<JsonMemberView>) -> bool
    decreases x,
{
    if x.len() == 0 {
        true
    } else {
        &&& values_agree(x.drop_last(), y)
        &&& found(x.drop_last(), x.last().key) is Some || match found(y, x.last().key) {
            Some(value) => same_json(x.last().value, value),
            None => false,
        }
    }
}

/// Whether each key of `x` is one of `y`.
pub open spec fn keys_within(x: Seq<JsonMemberView>, y: Seq<JsonMemberView>) -> bool {
    forall|i: int| 0 <= i < x.len() ==> found(y, (#[trigger] x[i]).key) is Some
}

proof fn same_items_prefix(x: Seq<JsonView>, y: Seq<JsonView>, n: int)
    requires
        same_items(x, y),
        0 <= n <= x.len(),
    ensures
        x.len() == y.len(),
        same_items(x.take(n), y.take(n)),
    decreases x.len(),
{
    if x.len() == 0 || y.len() == 0 {
    } else if n == x.len() {
        same_items_prefix(x.drop_last(), y.drop_last(), n - 1);
        assert(x.take(n) =~= x);
        assert(y.take(n) =~= y);
    } else {
        same_items_prefix(x.drop_last(), y.drop_last(), n);
        assert(x.drop_last().take(n) =~= x.take(n));
        assert(y.drop_last().take(n) =~= y.take(n));
    }
}

proof fn values_agree_prefix(x: Seq<JsonMemberView>, y: Seq<JsonMemberView>, n: int)
    requires
        values_agree(x, y),
        0 <= n <= x.len(),
    ensures
        values_agree(x.take(n), y),
    decreases x.len(),
{
    if n == x.len() {
        assert(x.take(n) =~= x);
    } else {
        values_agree_prefix(x.drop_last(), y, n);
        assert(x.drop_last().take(n) =~= x.take(n));
    }
}

/// A key's first member is among the first ones, or among those after them.
proof fn found_in_parts(members: Seq<JsonMemberView>, n: int, key: Seq<char>)
    requires
        0 <= n <= members.len(),
    ensures
        found(members, key) == match found(members.take(n), key) {
            Some(value) => Some(value),
            None => found(members.skip(n), key),
        },
    decreases n,
{
    if n == 0 {
        assert(members.skip(0) =~= members);
    } else {
        assert(members.take(n)[0] == members[0]);
        assert(members.take(n).drop_first() =~= members.drop_first().take(n - 1));
        assert(members.skip(n) =~= members.drop_first().skip(n - 1));
        found_in_parts(members.drop_first(), n - 1, key);
    }
}

proof fn found_has_place(members: Seq<JsonMemberView>, key: Seq<char>) -> (place: int)
    requires
        found(members, key) is Some,
    ensures
        0 <= place < members.len(),
        members[place].key == key,
        found(members, key) == Some(members[place].value),
        found(members.take(place), key) is None,
    decreases members.len(),
{
    if members[0].key == key {
        0
    } else {
        let place = found_has_place(members.drop_first(), key) + 1;
        assert(members.take(place)[0] == members[0]);
        assert(members.take(place).drop_first() =~= members.drop_first().take(place - 1));
        place
    }
}

impl JsonNumber {
    pub fn same(&self, other: &JsonNumber) -> (equal: bool)
        ensures
            equal == same_number(self@, other@),
    {
        match (self, other) {
            (JsonNumber::PosInt(m), JsonNumber::PosInt(n)) => *m == *n,
            (JsonNumber::NegInt(m), JsonNumber::NegInt(n)) => *m == *n,
            (JsonNumber::PosInt(m), JsonNumber::NegInt(n)) => *n >= 0 && *m == *n as u64,
            (JsonNumber::NegInt(m), JsonNumber::PosInt(n)) => *m >= 0 && *m as u64 == *n,
            (JsonNumber::Float(s), JsonNumber::Float(t)) => {
                text_eq(s.as_str(), t.as_str()) || (is_zero_fraction(s) && is_zero_fraction(t))
            },
            _ => false,
        }
    }

    pub fn is_zero(&self) -> (zero: bool)
        ensures
            zero == is_zero(self@),
    {
        match self {
            JsonNumber::PosInt(n) => *n == 0,
            JsonNumber::NegInt(n) => *n == 0,
            JsonNumber::Float(text) => is_zero_fraction(text),
        }
    }
}

impl PartialEq for JsonNumber {
    fn eq(&self, other: &Self) -> (equal: bool) {
        self.same(other)
    }
}

impl vstd::std_specs::cmp::PartialEqSpecImpl for JsonNumber {
    open spec fn obeys_eq_spec() -> bool {
        true
    }

    open spec fn eq_spec(&self, other: &Self) -> bool {
        same_number(self@, other@)
    }
}

impl Eq for JsonNumber {

}

fn is_zero_fraction(text: &String) -> (zero: bool)
    ensures
        zero == zero_fraction(text@),
{
    text_eq(text.as_str(), "0.0") || text_eq(text.as_str(), "-0.0")
}

impl JsonValue {
    /// The value under `key`; `None` where the value is no object or has no such key.
    pub fn get(&self, key: &str) -> (value: Option<&JsonValue>)
        ensures
            value is Some <==> self@.member(key@) is Some,
            value matches Some(value) ==> self@.member(key@) == Some(value@),
            value matches Some(value) ==> decreases_to!(*self => *value),
    {
        match self {
            JsonValue::Object(members) => find_member(members, key),
            _ => None,
        }
    }

    pub fn as_str(&self) -> (text: Option<&str>)
        ensures
            text is Some <==> self@ is Text,
            text matches Some(text) ==> self@ == JsonView::Text(text@),
    {
        match self {
            JsonValue::Text(text) => Some(text.as_str()),
            _ => None,
        }
    }

    pub fn as_array(&self) -> (items: Option<&Vec<JsonValue>>)
        ensures
            items is Some <==> self@ is Array,
            items matches Some(items) ==> *self == JsonValue::Array(*items),
    {
        match self {
            JsonValue::Array(items) => Some(items),
            _ => None,
        }
    }

    pub fn as_object(&self) -> (members: Option<&Vec<JsonMember>>)
        ensures
            members is Some <==> self@ is Object,
            members matches Some(members) ==> *self == JsonValue::Object(*members),
    {
        match self {
            JsonValue::Object(members) => Some(members),
            _ => None,
        }
    }

    /// Whether two values are equal.
    pub fn same(&self, other: &JsonValue) -> (equal: bool)
        ensures
            equal == same_json(self@, other@),
        decreases self,
    {
        broadcast use item_views_index, member_views_index;

        match (self, other) {
            (JsonValue::Null, JsonValue::Null) => true,
            (JsonValue::Bool(x), JsonValue::Bool(y)) => *x == *y,
            (JsonValue::Number(x), JsonValue::Number(y)) => x.same(y),
            (JsonValue::Text(x), JsonValue::Text(y)) => text_eq(x.as_str(), y.as_str()),
            (JsonValue::Array(x), JsonValue::Array(y)) => {
                let ghost xs = item_views(x@);
                let ghost ys = item_views(y@);
                if x.len() != y.len() {
                    proof {
                        if same_items(xs, ys) {
                            same_items_prefix(xs, ys, 0);
                        }
                    }
                    return false;
                }
                let mut i: usize = 0;
                while i < x.len()
                    invariant
                        i <= x@.len(),
                        x@.len() == y@.len(),
                        *self == JsonValue::Array(*x),
                        xs == item_views(x@),
                        ys == item_views(y@),
                        self@ == JsonView::Array(xs),
                        other@ == JsonView::Array(ys),
                        same_items(xs.take(i as int), ys.take(i as int)),
                    decreases x@.len() - i,
                {
                    proof {
                        item_views_index(x@);
                        item_views_index(y@);
                        assert(xs.take(i + 1).drop_last() =~= xs.take(i as int));
                        assert(ys.take(i + 1).drop_last() =~= ys.take(i as int));
                        if same_items(xs, ys) {
                            same_items_prefix(xs, ys, i + 1);
                        }
                    }
                    if !x[i].same(&y[i]) {
                        return false;
                    }
                    i = i + 1;
                }
                assert(xs.take(i as int) =~= xs);
                assert(ys.take(i as int) =~= ys);
                true
            },
            (JsonValue::Object(x), JsonValue::Object(y)) => {
                let ghost xs = member_views(x@);
                let ghost ys = member_views(y@);
                let mut i: usize = 0;
                while i < x.len()
                    invariant
                        i <= x@.len(),
                        *self == JsonValue::Object(*x),
                        xs == member_views(x@),
                        ys == member_views(y@),
                        self@ == JsonView::Object(xs),
                        other@ == JsonView::Object(ys),
                        values_agree(xs.take(i as int), ys),
                    decreases x@.len() - i,
                {
                    proof {
                        member_views_index(x@);
                        assert(xs.take(i + 1).drop_last() =~= xs.take(i as int));
                        assert(xs.take(i + 1).last() == x@[i as int]@);
                        if values_agree(xs, ys) {
                            values_agree_prefix(xs, ys, i + 1);
                        }
                    }
                    if !has_key_before(x, i, x[i].key.as_str()) {
                        assert(decreases_to!(*self => self->Object_0));
                        assert(decreases_to!(*x => x@[i as int]));
                        match find_member(y, x[i].key.as_str()) {
                            Some(value) => {
                                if !x[i].value.same(value) {
                                    return false;
                                }
                            },
                            None => {
                                return false;
                            },
                        }
                    }
                    i = i + 1;
                }
                assert(xs.take(i as int) =~= xs);
                let mut j: usize = 0;
                while j < y.len()
                    invariant
                        j <= y@.len(),
                        xs == member_views(x@),
                        ys == member_views(y@),
                        self@ == JsonView::Object(xs),
                        other@ == JsonView::Object(ys),
                        values_agree(xs, ys),
                        forall|k: int| 0 <= k < j ==> found(xs, (#[trigger] ys[k]).key) is Some,
                    decreases y@.len() - j,
                {
                    proof {
                        member_views_index(y@);
                        assert(ys[j as int] == y@[j as int]@);
                    }
                    if find_member(x, y[j].key.as_str()).is_none() {
                        return false;
                    }
                    j = j + 1;
                }
                true
            },
            _ => false,
        }
    }

    /// The value's compact text: no white space outside texts, members in their order.
    pub fn to_text(&self) -> (text: String)
        ensures
            text@ == compact_text(self@),
        decreases self,
    {
        broadcast use item_views_index, member_views_index;

        match self {
            JsonValue::Null => "null".to_owned(),
            JsonValue::Bool(b) => if *b {
                "true".to_owned()
            } else {
                "false".to_owned()
            },
            JsonValue::Number(n) => number_to_text(n),
            JsonValue::Text(s) => quote(s.as_str()),
            JsonValue::Array(items) => {
                let ghost views = item_views(items@);
                let mut text = "[".to_owned();
                let mut i: usize = 0;
                assert(text@ =~= "["@ + items_text(views.take(0)));
                while i < items.len()
                    invariant
                        i <= items@.len(),
                        *self == JsonValue::Array(*items),
                        views == item_views(items@),
                        text@ == "["@ + items_text(views.take(i as int)),
                    decreases items@.len() - i,
                {
                    let ghost now = views.take(i + 1);
                    proof {
                        item_views_index(items@);
                    }
                    assert(now.drop_last() =~= views.take(i as int));
                    assert(now.last() == items@[i as int]@);
                    if i > 0 {
                        text.append(",");
                    }
                    assert(decreases_to!(*self => self->Array_0));
                    assert(decreases_to!(*items => items@[i as int]));
                    text.append(items[i].to_text().as_str());
                    i = i + 1;
                    assert(text@ =~= "["@ + items_text(views.take(i as int)));
                }
                assert(views.take(i as int) =~= views);
                text.append("]");
                text
            },
            JsonValue::Object(members) => {
                let ghost views = member_views(members@);
                let mut text = "{".to_owned();
                let mut i: usize = 0;
                assert(text@ =~= "{"@ + members_text(views.take(0)));
                while i < members.len()
                    invariant
                        i <= members@.len(),
                        *self == JsonValue::Object(*members),
                        views == member_views(members@),
                        text@ == "{"@ + members_text(views.take(i as int)),
                    decreases members@.len() - i,
                {
                    let ghost now = views.take(i + 1);
                    proof {
                        member_views_index(members@);
                    }
                    assert(now.drop_last() =~= views.take(i as int));
                    assert(now.last() == members@[i as int]@);
                    if i > 0 {
                        text.append(",");
                    }
                    text.append(quote(members[i].key.as_str()).as_str());
                    text.append(":");
                    assert(decreases_to!(*self => self->Object_0));
                    assert(decreases_to!(*members => members@[i as int]));
                    text.append(members[i].value.to_text().as_str());
                    i = i + 1;
                    assert(text@ =~= "{"@ + members_text(views.take(i as int)));
                }
                assert(views.take(i as int) =~= views);
                text.append("}");
                text
            },
        }
    }
}

impl PartialEq for JsonValue {
    fn eq(&self, other: &Self) -> (equal: bool) {
        self.same(other)
    }
}

impl vstd::std_specs::cmp::PartialEqSpecImpl for JsonValue {
    open spec fn obeys_eq_spec() -> bool {
        true
    }

    open spec fn eq_spec(&self, other: &Self) -> bool {
        same_json(self@, other@)
    }
}

impl Eq for JsonValue {

}

/// The member under `key`: the first one.
pub fn find_member<'a>(members: &'a Vec<JsonMember>, key: &str) -> (value: Option<&'a JsonValue>)
    ensures
        value is Some <==> found(member_views(members@), key@) is Some,
        value matches Some(value) ==> found(member_views(members@), key@) == Some(value@),
        value matches Some(value) ==> exists|i: int|
            0 <= i < members@.len() && (#[trigger] members@[i]).value == *value,
{
    broadcast use member_views_index;

    let ghost views = member_views(members@);
    let mut i: usize = 0;
    assert(views.skip(0) =~= views);
    while i < members.len()
        invariant
            i <= members@.len(),
            views == member_views(members@),
            found(views, key@) == found(views.skip(i as int), key@),
        decreases members@.len() - i,
    {
        proof {
            member_views_index(members@);
        }
        assert(views.skip(i as int)[0] == members@[i as int]@);
        if text_eq(members[i].key.as_str(), key) {
            return Some(&members[i].value);
        }
        assert(views.skip(i as int).drop_first() =~= views.skip(i + 1));
        i = i + 1;
    }
    None
}

/// Whether one of the first `n` members has the key.
fn has_key_before(members: &Vec<JsonMember>, n: usize, key: &str) -> (has: bool)
    requires
        n <= members@.len(),
    ensures
        has == (found(member_views(members@).take(n as int), key@) is Some),
{
    broadcast use member_views_index;

    let ghost views = member_views(members@);
    let mut i: usize = 0;
    while i < n
        invariant
            i <= n <= members@.len(),
            views == member_views(members@),
            found(views.take(i as int), key@) is None,
        decreases n - i,
    {
        let ghost first = views.take(n as int);
        proof {
            member_views_index(members@);
            found_in_parts(first, i as int, key@);
            found_in_parts(views.take(i + 1), i as int, key@);
            assert(first.take(i as int) =~= views.take(i as int));
            assert(views.take(i + 1).take(i as int) =~= views.take(i as int));
            assert(first.skip(i as int)[0] == members@[i as int]@);
            assert(views.take(i + 1).skip(i as int) =~= seq![members@[i as int]@]);
            assert(views.take(i + 1).skip(i as int).drop_first() =~= Seq::empty());
            reveal_with_fuel(found, 2);
        }
        if text_eq(members[i].key.as_str(), key) {
            return true;
        }
        i = i + 1;
    }
    false
}

/// The hexadecimal digit of a number under sixteen.
pub open spec fn hex_digit(n: int) -> char {
    "0123456789abcdef"@[n]
}

/// A character as it stands in the JSON form of a text: quotes, backslashes and control characters
/// are escaped, those with a short escape by it, and the others by their number in two hexadecimal
/// digits.
pub open spec fn escaped(c: char) -> Seq<char> {
    if c == '"' || c == '\\' {
        seq!['\\', c]
    } else if c == '\u{8}' {
        "\\b"@
    } else if c == '\t' {
        "\\t"@
    } else if c == '\n' {
        "\\n"@
    } else if c == '\u{c}' {
        "\\f"@
    } else if c == '\r' {
        "\\r"@
    } else if 32 > c as int {
        "\\u00"@ + seq![hex_digit((c as int) / 16), hex_digit((c as int) % 16)]
    } else {
        seq![c]
    }
}

/// The JSON form of a text: in double quotes, with what JSON forbids in them escaped.
pub open spec fn quoted(text: Seq<char>) -> Seq<char> {
    "\""@ + concatenated(text.map_values(|c: char| escaped(c))) + "\""@
}

/// `serde_json::Value::to_string` on a string value: its JSON form, in double quotes, with quotes,
/// backslashes and control characters escaped.
#[verifier::external_body]
pub(crate) fn quote(text: &str) -> (form: String)
    ensures
        form@ == quoted(text@),
{
    serde_json::Value::String(text.to_owned()).to_string()
}

/// The text of a number.
pub open spec fn number_text(n: JsonNumberView) -> Seq<char> {
    match n {
        JsonNumberView::Int(i) => if i < 0 {
            "-"@ + decimal((-i) as nat)
        } else {
            decimal(i as nat)
        },
        JsonNumberView::Float(text) => text,
    }
}

fn number_to_text(n: &JsonNumber) -> (text: String)
    ensures
        text@ == number_text(n@),
{
    match n {
        JsonNumber::PosInt(n) => decimal_text(*n as u128),
        JsonNumber::NegInt(n) => {
            if *n < 0 {
                let size: i128 = -(*n as i128);
                let mut text = "-".to_owned();
                text.append(decimal_text(size as u128).as_str());
                text
            } else {
                decimal_text(*n as u128)
            }
        },
        JsonNumber::Float(text) => text.clone(),
    }
}

/// The compact text of a value.
pub open spec fn compact_text(value: JsonView) -> Seq<char>
    decreases value,
{
    match value {
        JsonView::Null => "null"@,
        JsonView::Bool(b) => if b {
            "true"@
        } else {
            "false"@
        },
        JsonView::Number(n) => number_text(n),
        JsonView::Text(s) => quoted(s),
        JsonView::Array(items) => "["@ + items_text(items) + "]"@,
        JsonView::Object(members) => "{"@ + members_text(members) + "}"@,
    }
}

/// The compact texts of an array's items, with commas between them.
pub open spec fn items_text(items: Seq<JsonView>) -> Seq<char>
    decreases items,
{
    if items.len() == 0 {
        Seq::empty()
    } else if items.len() == 1 {
        compact_text(items[0])
    } else {
        items_text(items.drop_last()) + ","@ + compact_text(items.last())
    }
}

/// The compact texts of an object's members, with commas between them.
pub open spec fn members_text(members: Seq<JsonMemberView>) -> Seq<char>
    decreases members,
{
    if members.len() == 0 {
        Seq::empty()
    } else if members.len() == 1 {
        quoted(members[0].key) + ":"@ + compact_text(members[0].value)
    } else {
        members_text(members.drop_last()) + ","@ + quoted(members.last().key) + ":"@ + compact_text(
            members.last().value,
        )
    }
}

/// A value equals itself.
pub proof fn same_json_reflexive(a: JsonView)
    ensures
        same_json(a, a),
    decreases a, 0int,
{
    match a {
        JsonView::Array(x) => same_items_reflexive(x),
        JsonView::Object(x) => {
            values_agree_reflexive(x, x.len() as int);
            assert(x.take(x.len() as int) =~= x);
            assert forall|i: int| 0 <= i < x.len() implies found(x, (#[trigger] x[i]).key) is Some by {
                has_key_of(x, i);
            }
        },
        _ => {},
    }
}

proof fn same_items_reflexive(x: Seq<JsonView>)
    ensures
        same_items(x, x),
    decreases x, 0int,
{
    if x.len() > 0 {
        same_items_reflexive(x.drop_last());
        same_json_reflexive(x.last());
    }
}

proof fn values_agree_reflexive(x: Seq<JsonMemberView>, n: int)
    requires
        0 <= n <= x.len(),
    ensures
        values_agree(x.take(n), x),
    decreases x, n,
{
    if n > 0 {
        values_agree_reflexive(x, n - 1);
        let key = x[n - 1].key;
        assert(x.take(n).drop_last() =~= x.take(n - 1));
        assert(x.take(n).last() == x[n - 1]);
        found_in_parts(x, n - 1, key);
        assert(x.skip(n - 1)[0] == x[n - 1]);
        assert(decreases_to!(x => x[n - 1]));
        same_json_reflexive(x[n - 1].value);
    }
}

/// Two objects are equal where they have the same keys, and equal values under each, whatever the
/// order of their members.
pub proof fn objects_are_compared_by_key(x: Seq<JsonMemberView>, y: Seq<JsonMemberView>)
    ensures
        same_json(JsonView::Object(x), JsonView::Object(y)) <==> forall|key: Seq<char>|
            match (#[trigger] found(x, key), found(y, key)) {
                (Some(a), Some(b)) => same_json(a, b),
                (None, None) => true,
                _ => false,
            },
{
    if same_json(JsonView::Object(x), JsonView::Object(y)) {
        assert forall|key: Seq<char>|
            match (#[trigger] found(x, key), found(y, key)) {
                (Some(a), Some(b)) => same_json(a, b),
                (None, None) => true,
                _ => false,
            } by {
            if found(x, key) is Some {
                let place = found_has_place(x, key);
                values_agree_prefix(x, y, place + 1);
                assert(x.take(place + 1).drop_last() =~= x.take(place));
                assert(x.take(place + 1).last() == x[place]);
            } else if found(y, key) is Some {
                let place = found_has_place(y, key);
                assert(found(x, y[place].key) is Some);
            }
        }
    }
    if forall|key: Seq<char>|
        match (#[trigger] found(x, key), found(y, key)) {
            (Some(a), Some(b)) => same_json(a, b),
            (None, None) => true,
            _ => false,
        } {
        assert forall|i: int| 0 <= i < y.len() implies found(x, (#[trigger] y[i]).key) is Some by {
            has_key_of(y, i);
        }
        values_agree_where_found(x, y, x.len() as int);
        assert(x.take(x.len() as int) =~= x);
    }
}

proof fn has_key_of(members: Seq<JsonMemberView>, i: int)
    requires
        0 <= i < members.len(),
    ensures
        found(members, members[i].key) is Some,
{
    found_in_parts(members, i, members[i].key);
    assert(members.skip(i)[0] == members[i]);
}

proof fn values_agree_where_found(x: Seq<JsonMemberView>, y: Seq<JsonMemberView>, n: int)
    requires
        0 <= n <= x.len(),
        forall|key: Seq<char>|
            match (#[trigger] found(x, key), found(y, key)) {
                (Some(a), Some(b)) => same_json(a, b),
                (None, None) => true,
                _ => false,
            },
    ensures
        values_agree(x.take(n), y),
    decreases n,
{
    if n > 0 {
        values_agree_where_found(x, y, n - 1);
        let key = x[n - 1].key;
        assert(x.take(n).drop_last() =~= x.take(n - 1));
        assert(x.take(n).last() == x[n - 1]);
        found_in_parts(x, n - 1, key);
        assert(x.skip(n - 1)[0] == x[n - 1]);
        assert(found(x, key) is Some);
    }
}

/// A text as a value.
pub fn text_value(text: &str) -> (value: JsonValue)
    ensures
        value@ == JsonView::Text(text@),
{
    JsonValue::Text(text.to_owned())
}

/// The member `key` with a value.
pub fn member(key: &str, value: JsonValue) -> (member: JsonMember)
    ensures
        member@ == (JsonMemberView { key: key@, value: value@ }),
{
    JsonMember { key: key.to_owned(), value }
}

/// The array of `items`.
pub fn array_of(items: Vec<JsonValue>) -> (value: JsonValue)
    ensures
        value@ == JsonView::Array(views(items@)),
{
    proof {
        item_views_index(items@);
        assert(item_views(items@) =~= views(items@));
    }
    JsonValue::Array(items)
}

/// The object of `members`, in the order in which they are given.
pub(crate) fn object_in_order(members: Vec<JsonMember>) -> (value: JsonValue)
    ensures
        value@ == JsonView::Object(views(members@)),
{
    proof {
        member_views_index(members@);
        assert(member_views(members@) =~= views(members@));
    }
    JsonValue::Object(members)
}

/// Members with one more, in the order of their keys; it replaces one with the same key.
pub open spec fn inserted(members: Seq<JsonMemberView>, new: JsonMemberView) -> Seq<JsonMemberView>
    decreases members.len(),
{
    if members.len() == 0 {
        seq![new]
    } else if members[0].key == new.key {
        members.update(0, new)
    } else if text_before(new.key, members[0].key) {
        seq![new] + members
    } else {
        seq![members[0]] + inserted(members.drop_first(), new)
    }
}

/// The members that are given, in the order of their keys; of two with the same key the last one
/// stays.
pub open spec fn by_key(members: Seq<JsonMemberView>) -> Seq<JsonMemberView>
    decreases members.len(),
{
    if members.len() == 0 {
        Seq::empty()
    } else {
        inserted(by_key(members.drop_last()), members.last())
    }
}

/// Puts a member among members that are in the order of their keys.
fn insert_member(members: &mut Vec<JsonMember>, new: JsonMember)
    ensures
        views(final(members)@) == inserted(views(old(members)@), new@),
{
    let ghost all = views(members@);
    let mut i: usize = 0;
    assert(all.skip(0) =~= all);
    assert(all.take(0) + inserted(all.skip(0), new@) =~= inserted(all, new@));
    while i < members.len()
        invariant
            i <= members@.len(),
            members@ == old(members)@,
            all == views(members@),
            inserted(all, new@) == all.take(i as int) + inserted(all.skip(i as int), new@),
        decreases members@.len() - i,
    {
        let ghost rest = all.skip(i as int);
        assert(rest[0] == members@[i as int]@);
        if text_eq(members[i].key.as_str(), new.key.as_str()) {
            assert(inserted(all, new@) =~= all.update(i as int, new@));
            members.set(i, new);
            assert(views(members@) =~= all.update(i as int, new@));
            return ;
        }
        if is_before(new.key.as_str(), members[i].key.as_str()) {
            assert(inserted(all, new@) =~= all.insert(i as int, new@));
            members.insert(i, new);
            assert(views(members@) =~= all.insert(i as int, new@));
            return ;
        }
        proof {
            assert(rest.drop_first() =~= all.skip(i + 1));
            assert(all.take(i + 1) =~= all.take(i as int) + seq![rest[0]]);
            assert(inserted(all, new@) =~= all.take(i + 1) + inserted(all.skip(i + 1), new@));
        }
        i = i + 1;
    }
    assert(all.take(i as int) =~= all);
    assert(inserted(all, new@) =~= all.push(new@));
    members.push(new);
    assert(views(members@) =~= all.push(new@));
}

/// The object of `members`, in the order of their keys; of two with the same key the last one stays.
pub fn object_of(members: Vec<JsonMember>) -> (value: JsonValue)
    ensures
        value@ == JsonView::Object(by_key(views(members@))),
{
    let ghost all = views(members@);
    let mut given = members;
    let mut ordered: Vec<JsonMember> = Vec::new();
    let ghost mut taken: int = 0;
    proof {
        assert(all.skip(0) =~= all);
        assert(views(ordered@) =~= by_key(all.take(0)));
    }
    while given.len() > 0
        invariant
            0 <= taken <= all.len(),
            views(given@) == all.skip(taken),
            views(ordered@) == by_key(all.take(taken)),
        decreases given@.len(),
    {
        let ghost before = given@;
        let member = given.remove(0);
        proof {
            assert(views(before).len() == all.len() - taken);
            assert(views(before)[0] == member@);
            assert(all.skip(taken)[0] == all[taken]);
            assert(views(given@) =~= views(before).drop_first());
            assert(all.skip(taken).drop_first() =~= all.skip(taken + 1));
            assert(all.take(taken + 1).drop_last() =~= all.take(taken));
            taken = taken + 1;
        }
        insert_member(&mut ordered, member);
    }
    assert(all.take(taken) =~= all);
    object_in_order(ordered)
}

/// Whether members stand in the order of their keys, no key twice.
pub open spec fn in_key_order(members: Seq<JsonMemberView>) -> bool {
    forall|i: int, j: int|
        0 <= i < j < members.len() ==> text_before(
            (#[trigger] members[i]).key,
            (#[trigger] members[j]).key,
        )
}

proof fn inserted_keeps_order(members: Seq<JsonMemberView>, new: JsonMemberView)
    requires
        in_key_order(members),
    ensures
        in_key_order(inserted(members, new)),
        forall|bound: Seq<char>|
            (#[trigger] text_before(bound, new.key)) && (forall|i: int|
                0 <= i < members.len() ==> text_before(bound, (#[trigger] members[i]).key))
                ==> forall|i: int|
                0 <= i < inserted(members, new).len() ==> text_before(
                    bound,
                    (#[trigger] inserted(members, new)[i]).key,
                ),
    decreases members.len(),
{
    let after = inserted(members, new);
    if members.len() == 0 {
    } else if members[0].key == new.key {
        assert forall|i: int, j: int| 0 <= i < j < after.len() implies text_before(
            (#[trigger] after[i]).key,
            (#[trigger] after[j]).key,
        ) by {
            assert(after[i].key == members[i].key && after[j].key == members[j].key);
        }
        assert forall|bound: Seq<char>|
            (#[trigger] text_before(bound, new.key)) && (forall|i: int|
                0 <= i < members.len() ==> text_before(
                    bound,
                    (#[trigger] members[i]).key,
                )) implies forall|i: int|
            0 <= i < after.len() ==> text_before(bound, (#[trigger] after[i]).key) by {
            assert forall|i: int| 0 <= i < after.len() implies text_before(
                bound,
                (#[trigger] after[i]).key,
            ) by {
                assert(after[i].key == members[i].key);
            }
        }
    } else if text_before(new.key, members[0].key) {
        assert forall|i: int, j: int| 0 <= i < j < after.len() implies text_before(
            (#[trigger] after[i]).key,
            (#[trigger] after[j]).key,
        ) by {
            assert(after[j] == members[j - 1]);
            if i == 0 {
                if j > 1 {
                    assert(text_before(members[0].key, members[j - 1].key));
                    text_before_transitive(new.key, members[0].key, members[j - 1].key);
                }
            } else {
                assert(after[i] == members[i - 1]);
            }
        }
        assert forall|bound: Seq<char>|
            (#[trigger] text_before(bound, new.key)) && (forall|i: int|
                0 <= i < members.len() ==> text_before(
                    bound,
                    (#[trigger] members[i]).key,
                )) implies forall|i: int|
            0 <= i < after.len() ==> text_before(bound, (#[trigger] after[i]).key) by {
            assert forall|i: int| 0 <= i < after.len() implies text_before(
                bound,
                (#[trigger] after[i]).key,
            ) by {
                if i > 0 {
                    assert(after[i] == members[i - 1]);
                }
            }
        }
    } else {
        let rest = members.drop_first();
        let tail = inserted(rest, new);
        assert(in_key_order(rest));
        inserted_keeps_order(rest, new);
        text_before_total(members[0].key, new.key);
        assert(text_before(members[0].key, new.key));
        assert forall|i: int| 0 <= i < rest.len() implies text_before(
            members[0].key,
            (#[trigger] rest[i]).key,
        ) by {
            assert(rest[i] == members[i + 1]);
        }
        assert forall|i: int, j: int| 0 <= i < j < after.len() implies text_before(
            (#[trigger] after[i]).key,
            (#[trigger] after[j]).key,
        ) by {
            assert(after[j] == tail[j - 1]);
            if i > 0 {
                assert(after[i] == tail[i - 1]);
            }
        }
        assert forall|bound: Seq<char>|
            (#[trigger] text_before(bound, new.key)) && (forall|i: int|
                0 <= i < members.len() ==> text_before(
                    bound,
                    (#[trigger] members[i]).key,
                )) implies forall|i: int|
            0 <= i < after.len() ==> text_before(bound, (#[trigger] after[i]).key) by {
            assert forall|i: int| 0 <= i < rest.len() implies text_before(
                bound,
                (#[trigger] rest[i]).key,
            ) by {
                assert(rest[i] == members[i + 1]);
            }
            assert forall|i: int| 0 <= i < after.len() implies text_before(
                bound,
                (#[trigger] after[i]).key,
            ) by {
                if i > 0 {
                    assert(after[i] == tail[i - 1]);
                } else {
                    assert(text_before(bound, members[0].key));
                }
            }
        }
    }
}

/// An object that is made of members has them in the order of their keys, no key twice.
pub proof fn objects_are_in_key_order(members: Seq<JsonMemberView>)
    ensures
        in_key_order(by_key(members)),
    decreases members.len(),
{
    if members.len() > 0 {
        objects_are_in_key_order(members.drop_last());
        inserted_keeps_order(by_key(members.drop_last()), members.last());
    }
}

proof fn inserted_is_found(members: Seq<JsonMemberView>, new: JsonMemberView, key: Seq<char>)
    requires
        in_key_order(members),
    ensures
        found(inserted(members, new), key) == if key == new.key {
            Some(new.value)
        } else {
            found(members, key)
        },
    decreases members.len(),
{
    let after = inserted(members, new);
    if members.len() == 0 {
        assert(after.drop_first() =~= members);
    } else if members[0].key == new.key {
        assert(after.drop_first() =~= members.drop_first());
    } else if text_before(new.key, members[0].key) {
        assert(after.drop_first() =~= members);
    } else {
        assert(in_key_order(members.drop_first()));
        inserted_is_found(members.drop_first(), new, key);
        assert(after.drop_first() =~= inserted(members.drop_first(), new));
    }
}

/// The last value that was given under a key.
pub open spec fn last_given(members: Seq<JsonMemberView>, key: Seq<char>) -> Option<JsonView>
    decreases members.len(),
{
    if members.len() == 0 {
        None
    } else if members.last().key == key {
        Some(members.last().value)
    } else {
        last_given(members.drop_last(), key)
    }
}

/// Under each key an object that is made of members has the last value that was given under it.
pub proof fn objects_hold_what_was_given(members: Seq<JsonMemberView>, key: Seq<char>)
    ensures
        found(by_key(members), key) == last_given(members, key),
    decreases members.len(),
{
    if members.len() > 0 {
        objects_hold_what_was_given(members.drop_last(), key);
        objects_are_in_key_order(members.drop_last());
        inserted_is_found(by_key(members.drop_last()), members.last(), key);
    }
}

/// The value under a key is that of the first member with the key, and there is none exactly where
/// no member has it.
pub proof fn the_first_of_a_key_is_found(members: Seq<JsonMemberView>, key: Seq<char>)
    ensures
        match found(members, key) {
            Some(value) => exists|i: int|
                0 <= i < members.len() && (#[trigger] members[i]).key == key && members[i].value
                    == value && forall|j: int| 0 <= j < i ==> (#[trigger] members[j]).key != key,
            None => forall|i: int| 0 <= i < members.len() ==> (#[trigger] members[i]).key != key,
        },
    decreases members.len(),
{
    if members.len() > 0 && members[0].key != key {
        let rest = members.drop_first();
        the_first_of_a_key_is_found(rest, key);
        match found(members, key) {
            Some(value) => {
                let i = choose|i: int|
                    0 <= i < rest.len() && (#[trigger] rest[i]).key == key && rest[i].value == value
                        && forall|j: int| 0 <= j < i ==> (#[trigger] rest[j]).key != key;
                assert(members[i + 1] == rest[i]);
                assert forall|j: int| 0 <= j < i + 1 implies (#[trigger] members[j]).key
                    != key by {
                    if j > 0 {
                        assert(rest[j - 1].key != key);
                    }
                }
            },
            None => {
                assert forall|i: int| 0 <= i < members.len() implies (#[trigger] members[i]).key
                    != key by {
                    if i > 0 {
                        assert(rest[i - 1].key != key);
                    }
                }
            },
        }
    } else if members.len() > 0 {
        assert(members[0].key == key);
    }
}

/// Values that are no objects are equal where they are of the same form and hold the same: arrays
/// have as many items, and equal ones at each place, and an integer equals no fraction.
pub proof fn values_are_compared_by_form(a: JsonView, b: JsonView)
    ensures
        same_json(a, b) ==> (a is Null <==> b is Null) && (a is Bool <==> b is Bool) && (a is Number
            <==> b is Number) && (a is Text <==> b is Text) && (a is Array <==> b is Array) && (
        a is Object <==> b is Object),
        a is Null && b is Null ==> same_json(a, b),
        a is Bool && b is Bool ==> (same_json(a, b) <==> a == b),
        a is Text && b is Text ==> (same_json(a, b) <==> a == b),
        a matches JsonView::Number(JsonNumberView::Int(m)) ==> (same_json(a, b) <==> b
            == JsonView::Number(JsonNumberView::Int(m))),
        a is Array && b is Array ==> (same_json(a, b) <==> a->Array_0.len() == b->Array_0.len()
            && forall|i: int|
            0 <= i < a->Array_0.len() ==> same_json(#[trigger] a->Array_0[i], b->Array_0[i])),
{
    if a is Array && b is Array {
        items_are_compared_in_place(a->Array_0, b->Array_0);
    }
}

proof fn items_are_compared_in_place(x: Seq<JsonView>, y: Seq<JsonView>)
    ensures
        same_items(x, y) <==> x.len() == y.len() && forall|i: int|
            0 <= i < x.len() ==> same_json(#[trigger] x[i], y[i]),
    decreases x.len(),
{
    if x.len() > 0 && y.len() > 0 {
        let (a, b) = (x.drop_last(), y.drop_last());
        items_are_compared_in_place(a, b);
        if same_items(x, y) {
            assert forall|i: int| 0 <= i < x.len() implies same_json(#[trigger] x[i], y[i]) by {
                if i < a.len() {
                    assert(same_json(a[i], b[i]));
                }
            }
        }
        if x.len() == y.len() && forall|i: int|
            0 <= i < x.len() ==> same_json(#[trigger] x[i], y[i]) {
            assert forall|i: int| 0 <= i < a.len() implies same_json(#[trigger] a[i], b[i]) by {
                assert(same_json(x[i], y[i]));
            }
            assert(same_json(x[x.len() - 1], y[x.len() - 1]));
        }
    }
}

/// The text of a member: its key in quotes, a colon, and the text of its value.
pub open spec fn member_text(member: JsonMemberView) -> Seq<char> {
    quoted(member.key) + ":"@ + compact_text(member.value)
}

/// The text of an array is that of its items, in order, with a comma between any two; the text of an
/// object is that of its members, in order, with a comma between any two.
pub proof fn texts_hold_all_parts(items: Seq<JsonView>, members: Seq<JsonMemberView>)
    ensures
        compact_text(JsonView::Array(items)) == "["@ + joined(
            items.map_values(|item: JsonView| compact_text(item)),
            ","@,
        ) + "]"@,
        compact_text(JsonView::Object(members)) == "{"@ + joined(
            members.map_values(|member: JsonMemberView| member_text(member)),
            ","@,
        ) + "}"@,
{
    items_text_is_joined(items);
    members_text_is_joined(members);
}

proof fn items_text_is_joined(items: Seq<JsonView>)
    ensures
        items_text(items) == joined(
            items.map_values(|item: JsonView| compact_text(item)),
            ","@,
        ),
    decreases items.len(),
{
    let text = |item: JsonView| compact_text(item);
    let texts = items.map_values(text);
    if items.len() > 1 {
        items_text_is_joined(items.drop_last());
        assert(texts.drop_last() =~= items.drop_last().map_values(text));
    }
}

proof fn members_text_is_joined(members: Seq<JsonMemberView>)
    ensures
        members_text(members) == joined(
            members.map_values(|member: JsonMemberView| member_text(member)),
            ","@,
        ),
    decreases members.len(),
{
    let text = |member: JsonMemberView| member_text(member);
    let texts = members.map_values(text);
    if members.len() > 1 {
        members_text_is_joined(members.drop_last());
        assert(texts.drop_last() =~= members.drop_last().map_values(text));
        assert(members_text(members) =~= joined(texts, ","@));
    }
}

/// A whole number is written in decimal, with a minus sign in front where it is negative, and a
/// fraction as it is; what holds nothing or a truth value is written by its word.
pub proof fn numbers_are_written_in_decimal(i: int, text: Seq<char>)
    ensures
        ({
            let written = compact_text(JsonView::Number(JsonNumberView::Int(i)));
            &&& i >= 0 ==> parsed_number(written) == Some(i as nat)
            &&& i >= 0 ==> written[0] != '+'
            &&& 0 > i ==> written.len() > 0 && written[0] == '-' && parsed_number(
                written.drop_first(),
            ) == Some((-i) as nat)
            &&& compact_text(JsonView::Number(JsonNumberView::Float(text))) == text
            &&& compact_text(JsonView::Null) == "null"@
            &&& compact_text(JsonView::Bool(true)) == "true"@
            &&& compact_text(JsonView::Bool(false)) == "false"@
        }),
{
    if i >= 0 {
        numbers_are_read_back(i as nat);
        assert('0' <= decimal(i as nat)[0] <= '9');
    } else {
        numbers_are_read_back((-i) as nat);
        reveal_strlit("-");
        assert(("-"@ + decimal((-i) as nat)).drop_first() =~= decimal((-i) as nat));
    }
}

/// The first member of a key is found.
pub(crate) proof fn found_first(members: Seq<JsonMemberView>, key: Seq<char>, i: int)
    requires
        0 <= i < members.len(),
        members[i].key == key,
        forall|j: int| 0 <= j < i ==> (#[trigger] members[j]).key != key,
    ensures
        found(members, key) == Some(members[i].value),
{
    the_first_of_a_key_is_found(members, key);
    if let Some(value) = found(members, key) {
        let k = choose|k: int|
            0 <= k < members.len() && (#[trigger] members[k]).key == key && members[k].value == value
                && forall|j: int| 0 <= j < k ==> (#[trigger] members[j]).key != key;
        if k < i {
            assert(members[k].key != key);
        } else if i < k {
            assert(members[i].key != key);
        }
    } else {
        assert(members[i].key != key);
    }
}

} // verus!
