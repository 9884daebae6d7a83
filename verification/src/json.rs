//! JSON values, read and written by `serde_json`.
use crate::text::{decimal, signed_decimal};
use vstd::prelude::*;
use vstd::string::*;

verus! {

// ---- The model ----------------------------------------------------------------------------

/// What a JSON value is.
pub enum JsonTree {
    Null,
    Bool(bool),
    Number(serde_json::Number),
    Str(Seq<char>),
    Array(Seq<JsonTree>),
    Object(Map<Seq<char>, JsonTree>),
}

impl JsonTree {
    /// The member of an object under `key`.
    pub open spec fn member(self, key: Seq<char>) -> Option<JsonTree> {
        match self {
            JsonTree::Object(members) => if members.contains_key(key) {
                Some(members[key])
            } else {
                None
            },
            _ => None,
        }
    }

    /// The text of a string.
    pub open spec fn text(self) -> Option<Seq<char>> {
        match self {
            JsonTree::Str(s) => Some(s),
            _ => None,
        }
    }

    /// The text of the string that an object has under `key`.
    pub open spec fn member_text(self, key: Seq<char>) -> Option<Seq<char>> {
        match self.member(key) {
            Some(t) => t.text(),
            None => None,
        }
    }
}

/// A JSON value. Where an object lists a key twice, the later member counts.
#[derive(Debug)]
pub enum Json {
    Null,
    Bool(bool),
    Number(serde_json::Number),
    Str(String),
    Array(Vec<Json>),
    Object(Vec<(String, Json)>),
}

/// The elements of an array.
pub open spec fn items_of(items: Seq<Json>) -> Seq<JsonTree>
    decreases items,
{
    Seq::new(
        items.len(),
        |i: int|
            if 0 <= i < items.len() {
                items[i].tree()
            } else {
                JsonTree::Null
            },
    )
}

/// The members of an object.
pub open spec fn members_of(members: Seq<(String, Json)>) -> Map<Seq<char>, JsonTree>
    decreases members,
{
    if members.len() == 0 {
        Map::empty()
    } else {
        members_of(members.drop_last()).insert(members.last().0@, members.last().1.tree())
    }
}

impl Json {
    /// The value that this stands for.
    pub open spec fn tree(self) -> JsonTree
        decreases self,
    {
        match self {
            Json::Null => JsonTree::Null,
            Json::Bool(b) => JsonTree::Bool(b),
            Json::Number(n) => JsonTree::Number(n),
            Json::Str(s) => JsonTree::Str(s@),
            Json::Array(items) => JsonTree::Array(items_of(items@)),
            Json::Object(members) => JsonTree::Object(members_of(members@)),
        }
    }
}

impl View for Json {
    type V = JsonTree;

    open spec fn view(&self) -> JsonTree {
        self.tree()
    }
}

// ---- What comes from serde_json -----------------------------------------------------------

/// A number of `serde_json`, whole or not, carried as it is.
#[verifier::external_type_specification]
#[verifier::external_body]
pub struct ExNumber(serde_json::Number);

/// A value of `serde_json`; `json_tree` names what it holds.
#[verifier::external_type_specification]
#[verifier::external_body]
pub struct ExValue(serde_json::Value);

/// The object map of `serde_json`; `map_members` names what it holds.
#[verifier::external_type_specification]
#[verifier::external_body]
#[verifier::reject_recursive_types(K)]
#[verifier::reject_recursive_types(V)]
pub struct ExObjectMap<K, V>(serde_json::Map<K, V>);

/// The reason why `serde_json` did not read a text.
#[verifier::external_type_specification]
#[verifier::external_body]
pub struct ExJsonError(serde_json::Error);

/// What a `serde_json::Value` holds.
pub uninterp spec fn json_tree(v: serde_json::Value) -> JsonTree;

/// What a `serde_json::Map` holds.
pub uninterp spec fn map_members(m: serde_json::Map<String, serde_json::Value>) -> Map<
    Seq<char>,
    JsonTree,
>;

/// What `serde_json::from_str` makes of a text, `None` where it reports an error.
pub uninterp spec fn json_parse(text: Seq<char>) -> Option<JsonTree>;

/// The compact text that `serde_json` writes for a value.
pub uninterp spec fn json_text(tree: JsonTree) -> Seq<char>;

/// The number that `serde_json` makes of a `u32`.
pub uninterp spec fn json_number(n: u32) -> serde_json::Number;

/// A `serde_json::Value` with its outermost layer taken off.
pub enum Node {
    Null,
    Bool(bool),
    Number(serde_json::Number),
    Str(String),
    Array(Vec<serde_json::Value>),
    Object(serde_json::Map<String, serde_json::Value>),
}

/// The value that a taken-off layer and what lies below it stand for.
pub open spec fn node_tree(n: Node) -> JsonTree {
    match n {
        Node::Null => JsonTree::Null,
        Node::Bool(b) => JsonTree::Bool(b),
        Node::Number(x) => JsonTree::Number(x),
        Node::Str(s) => JsonTree::Str(s@),
        Node::Array(items) => JsonTree::Array(
            Seq::new(items@.len(), |i: int| json_tree(items@[i])),
        ),
        Node::Object(m) => JsonTree::Object(map_members(m)),
    }
}

/// The members that a list of keys and values stands for.
pub open spec fn value_members(entries: Seq<(String, serde_json::Value)>) -> Map<
    Seq<char>,
    JsonTree,
>
    decreases entries.len(),
{
    if entries.len() == 0 {
        Map::empty()
    } else {
        value_members(entries.drop_last()).insert(entries.last().0@, json_tree(entries.last().1))
    }
}

/// A key that means nothing else to `serde_json`, which keeps some that begin with `$` for itself.
pub open spec fn is_key(key: Seq<char>) -> bool {
    key.len() == 0 || key[0] != '$'
}

/// A number that `serde_json` writes as an integer of 64 bits, with a sign or without.
pub open spec fn is_integer(n: serde_json::Number) -> bool {
    exists|k: int|
        i64::MIN <= k <= u64::MAX && json_text(JsonTree::Number(n)) == #[trigger] signed_decimal(k)
}

/// A value that `serde_json` reads back as it wrote it: its numbers are integers or were made of a
/// `u32`, its keys are its own, and its arrays and objects are nested no deeper than `depth`.
pub open spec fn reads_back(tree: JsonTree, depth: nat) -> bool
    decreases depth,
{
    match tree {
        JsonTree::Number(n) => is_integer(n) || exists|k: u32| n == #[trigger] json_number(k),
        JsonTree::Array(items) => depth > 0 && forall|i: int|
            0 <= i < items.len() ==> reads_back(#[trigger] items[i], (depth - 1) as nat),
        JsonTree::Object(members) => depth > 0 && members.dom().finite() && forall|k: Seq<char>|
            members.contains_key(k) ==> is_key(k) && reads_back(
                #[trigger] members[k],
                (depth - 1) as nat,
            ),
        _ => true,
    }
}

/// Plain JSON notation: strings that need no escape, natural numbers, and objects whose members
/// stand in a given order, with no space between the signs.
pub enum Notation {
    Word(Seq<char>),
    Natural(u32),
    Members(Seq<(Seq<char>, Notation)>),
}

/// A character that stands for itself in a JSON string.
pub open spec fn is_plain(c: char) -> bool {
    c >= ' ' && c != '"' && c != '\\'
}

/// A text that stands for itself in a JSON string.
pub open spec fn is_word(s: Seq<char>) -> bool {
    forall|i: int| 0 <= i < s.len() ==> is_plain(#[trigger] s[i])
}

/// The JSON string of a text that stands for itself.
pub open spec fn quoted(s: Seq<char>) -> Seq<char> {
    seq!['"'] + s + seq!['"']
}

/// The text of the members of an object, from the first up to the last.
pub open spec fn members_text(members: Seq<(Seq<char>, Notation)>) -> Seq<char>
    decreases members,
{
    if members.len() == 0 {
        Seq::empty()
    } else {
        let (key, value) = members.last();
        let own = quoted(key) + seq![':'] + value.text();
        if members.len() == 1 {
            own
        } else {
            members_text(members.drop_last()) + seq![','] + own
        }
    }
}

/// What the members of an object stand for.
pub open spec fn notation_members(members: Seq<(Seq<char>, Notation)>) -> Map<
    Seq<char>,
    JsonTree,
>
    decreases members,
{
    if members.len() == 0 {
        Map::empty()
    } else {
        notation_members(members.drop_last()).insert(members.last().0, members.last().1.tree())
    }
}

impl Notation {
    /// The text in this notation.
    pub open spec fn text(self) -> Seq<char>
        decreases self,
    {
        match self {
            Notation::Word(s) => quoted(s),
            Notation::Natural(n) => decimal(n as nat),
            Notation::Members(members) => seq!['{'] + members_text(members) + seq!['}'],
        }
    }

    /// The value that the text stands for.
    pub open spec fn tree(self) -> JsonTree
        decreases self,
    {
        match self {
            Notation::Word(s) => JsonTree::Str(s),
            Notation::Natural(n) => JsonTree::Number(json_number(n)),
            Notation::Members(members) => JsonTree::Object(notation_members(members)),
        }
    }

    /// The strings need no escape, the keys are the object's own, and the objects are nested no
    /// deeper than `depth`.
    pub open spec fn is_legal(self, depth: nat) -> bool
        decreases depth,
    {
        match self {
            Notation::Word(s) => is_word(s),
            Notation::Natural(_) => true,
            Notation::Members(members) => depth > 0 && forall|i: int|
                0 <= i < members.len() ==> is_word((#[trigger] members[i]).0) && is_key(
                    members[i].0,
                ) && members[i].1.is_legal((depth - 1) as nat),
        }
    }
}

/// What was read, `None` where nothing was.
pub open spec fn tree_of_result(r: Result<serde_json::Value, serde_json::Error>) -> Option<
    JsonTree,
> {
    match r {
        Ok(v) => Some(json_tree(v)),
        Err(_) => None,
    }
}

/// `read` is what `text` was written for: where it is the compact text of a value that reads
/// back, that value, and where it is in plain notation, the value it notes.
pub open spec fn reads_as_written(text: Seq<char>, read: Option<JsonTree>) -> bool {
    &&& forall|t: JsonTree| #[trigger]
        json_text(t) == text && reads_back(t, 127) ==> read == Some(t)
    &&& forall|n: Notation| #[trigger]
        n.text() == text && n.is_legal(127) ==> read == Some(n.tree())
}

/// `serde_json::from_str` reads the whole text as one value, or reports an error; which of the
/// two, and the value, depend on the text alone. It reads back what `serde_json` wrote, where the
/// value holds no other numbers than integers of 64 bits, and it reads plain notation; both within
/// the depth that it admits and without the keys that `serde_json` keeps for itself. Nothing is
/// said of how it reads a number with a fraction or an exponent.
#[verifier::external_body]
fn value_of_text(text: &str) -> (r: Result<serde_json::Value, serde_json::Error>)
    ensures
        tree_of_result(r) == json_parse(text@),
        reads_as_written(text@, tree_of_result(r)),
{
    serde_json::from_str::<serde_json::Value>(text)
}

/// `to_string` of a `serde_json::Value` gives its compact text, which depends on what the value
/// holds alone.
#[verifier::external_body]
fn text_of_value(v: &serde_json::Value) -> (r: String)
    ensures
        r@ == json_text(json_tree(*v)),
{
    v.to_string()
}

/// Tells the variants of `serde_json::Value` apart and hands their content out unchanged.
#[verifier::external_body]
fn open_value(v: serde_json::Value) -> (r: Node)
    ensures
        node_tree(r) == json_tree(v),
{
    match v {
        serde_json::Value::Null => Node::Null,
        serde_json::Value::Bool(b) => Node::Bool(b),
        serde_json::Value::Number(n) => Node::Number(n),
        serde_json::Value::String(s) => Node::Str(s),
        serde_json::Value::Array(items) => Node::Array(items),
        serde_json::Value::Object(m) => Node::Object(m),
    }
}

/// Makes the `serde_json::Value` of each variant, with its content unchanged.
#[verifier::external_body]
fn close_value(n: Node) -> (r: serde_json::Value)
    ensures
        json_tree(r) == node_tree(n),
{
    match n {
        Node::Null => serde_json::Value::Null,
        Node::Bool(b) => serde_json::Value::Bool(b),
        Node::Number(n) => serde_json::Value::Number(n),
        Node::Str(s) => serde_json::Value::String(s),
        Node::Array(items) => serde_json::Value::Array(items),
        Node::Object(m) => serde_json::Value::Object(m),
    }
}

/// `serde_json::Map::new` makes a map without members.
#[verifier::external_body]
fn map_new() -> (r: serde_json::Map<String, serde_json::Value>)
    ensures
        map_members(r) =~= Map::empty(),
{
    serde_json::Map::new()
}

/// `serde_json::Map::insert` puts the value under the key, in place of one that was there.
#[verifier::external_body]
fn map_insert(
    m: &mut serde_json::Map<String, serde_json::Value>,
    key: String,
    v: serde_json::Value,
)
    ensures
        map_members(*final(m)) == map_members(*old(m)).insert(key@, json_tree(v)),
{
    m.insert(key, v);
}

/// `into_iter` of a `serde_json::Map` hands out each member once, under its key.
#[verifier::external_body]
fn map_entries(m: serde_json::Map<String, serde_json::Value>) -> (r: Vec<
    (String, serde_json::Value),
>)
    ensures
        map_members(m) == value_members(r@),
        forall|i: int, j: int| 0 <= i < j < r@.len() ==> r@[i].0@ != r@[j].0@,
{
    m.into_iter().collect()
}

/// `serde_json::Number::from` makes a number of a `u32`; which one depends on the `u32` alone.
#[verifier::external_body]
fn number_of(n: u32) -> (r: serde_json::Number)
    ensures
        r == json_number(n),
{
    serde_json::Number::from(n)
}

/// The clone of a `serde_json::Number` is the same number.
pub assume_specification[ <serde_json::Number as Clone>::clone ](
    n: &serde_json::Number,
) -> (r: serde_json::Number)
    ensures
        r == *n,
;

// ---- Between the two ----------------------------------------------------------------------

proof fn lemma_value_member(entries: Seq<(String, serde_json::Value)>, i: int)
    requires
        0 <= i < entries.len(),
        forall|a: int, b: int| 0 <= a < b < entries.len() ==> entries[a].0@ != entries[b].0@,
    ensures
        value_members(entries).dom().finite(),
        value_members(entries).contains_key(entries[i].0@),
        value_members(entries)[entries[i].0@] == json_tree(entries[i].1),
    decreases entries.len(),
{
    let front = entries.drop_last();
    if i < front.len() {
        lemma_value_member(front, i);
        assert(front[i] == entries[i]);
    } else if front.len() > 0 {
        lemma_value_member(front, 0);
    }
}

/// Takes a value of `serde_json` over, layer by layer.
pub fn from_value(v: serde_json::Value) -> (r: Json)
    ensures
        r@ == json_tree(v),
    decreases json_tree(v),
{
    let ghost whole = json_tree(v);
    match open_value(v) {
        Node::Null => Json::Null,
        Node::Bool(b) => Json::Bool(b),
        Node::Number(n) => Json::Number(n),
        Node::Str(s) => Json::Str(s),
        Node::Array(items) => {
            let ghost given = items@;
            let mut out: Vec<Json> = Vec::new();
            for x in it: items
                invariant
                    it.seq() == given,
                    whole == json_tree(v),
                    whole == JsonTree::Array(
                        Seq::new(given.len(), |i: int| json_tree(given[i])),
                    ),
                    out@.len() == it.index(),
                    forall|i: int|
                        0 <= i < out@.len() ==> (#[trigger] out@[i]).tree() == json_tree(given[i]),
            {
                proof {
                    let trees = whole->Array_0;
                    assert(trees[it.index() as int] == json_tree(x));
                    assert(decreases_to!(whole => whole->Array_0));
                    assert(decreases_to!(trees => trees[it.index() as int]));
                }
                out.push(from_value(x));
            }
            assert(items_of(out@) =~= whole->Array_0);
            Json::Array(out)
        },
        Node::Object(m) => {
            let entries = map_entries(m);
            let ghost given = entries@;
            let mut out: Vec<(String, Json)> = Vec::new();
            for e in it: entries
                invariant
                    it.seq() == given,
                    whole == json_tree(v),
                    whole == JsonTree::Object(value_members(given)),
                    forall|i: int, j: int|
                        0 <= i < j < given.len() ==> given[i].0@ != given[j].0@,
                    out@.len() == it.index(),
                    members_of(out@) == value_members(given.take(out@.len() as int)),
            {
                let ghost k = it.index() as int;
                let ghost before = out@;
                let (key, x) = e;
                proof {
                    lemma_value_member(given, k);
                    let members = whole->Object_0;
                    assert(decreases_to!(whole => whole->Object_0));
                    assert(decreases_to!(members => members[key@]));
                }
                out.push((key, from_value(x)));
                assert(out@.drop_last() == before);
                assert(given.take(k + 1).drop_last() == given.take(k));
            }
            assert(given.take(given.len() as int) == given);
            Json::Object(out)
        },
    }
}

/// Hands a value over to `serde_json`, layer by layer.
pub fn to_value(j: &Json) -> (r: serde_json::Value)
    ensures
        json_tree(r) == j@,
    decreases j,
{
    match j {
        Json::Null => close_value(Node::Null),
        Json::Bool(b) => close_value(Node::Bool(*b)),
        Json::Number(n) => close_value(Node::Number(n.clone())),
        Json::Str(s) => close_value(Node::Str(s.clone())),
        Json::Array(items) => {
            let mut out: Vec<serde_json::Value> = Vec::new();
            let mut i: usize = 0;
            while i < items.len()
                invariant
                    i <= items@.len(),
                    *j == Json::Array(*items),
                    out@.len() == i,
                    forall|k: int|
                        0 <= k < i ==> json_tree(#[trigger] out@[k]) == items@[k].tree(),
                decreases items@.len() - i,
            {
                proof {
                    assert(decreases_to!(*j => j->Array_0));
                    assert(decreases_to!(items => items@));
                    assert(decreases_to!(items@ => items@[i as int]));
                }
                out.push(to_value(&items[i]));
                i += 1;
            }
            let node = Node::Array(out);
            assert(node_tree(node)->Array_0 =~= items_of(items@));
            close_value(node)
        },
        Json::Object(members) => {
            let mut out = map_new();
            let mut i: usize = 0;
            while i < members.len()
                invariant
                    i <= members@.len(),
                    *j == Json::Object(*members),
                    map_members(out) == members_of(members@.take(i as int)),
                decreases members@.len() - i,
            {
                proof {
                    assert(decreases_to!(*j => j->Object_0));
                    assert(decreases_to!(members => members@));
                    assert(decreases_to!(members@ => members@[i as int]));
                    assert(decreases_to!(members@[i as int] => members@[i as int].1));
                }
                let v = to_value(&members[i].1);
                map_insert(&mut out, members[i].0.clone(), v);
                assert(members@.take(i + 1).drop_last() == members@.take(i as int));
                i += 1;
            }
            assert(members@.take(members@.len() as int) == members@);
            close_value(Node::Object(out))
        },
    }
}

/// Reads a text as one JSON value; `None` where it is not one.
pub fn parse(text: &str) -> (r: Option<Json>)
    ensures
        reads_as_written(text@, json_parse(text@)),
        r is Some <==> json_parse(text@) is Some,
        r matches Some(j) ==> json_parse(text@) == Some(j@),
{
    match value_of_text(text) {
        Ok(v) => Some(from_value(v)),
        Err(_) => None,
    }
}

/// The number `n` as a JSON value.
pub fn number(n: u32) -> (r: Json)
    ensures
        r@ == JsonTree::Number(json_number(n)),
{
    Json::Number(number_of(n))
}

/// The string `s` as a JSON value.
pub fn string(s: &str) -> (r: Json)
    ensures
        r@ == JsonTree::Str(s@),
{
    Json::Str(s.to_owned())
}

/// Adds a member to a list of members.
pub fn add_member(members: &mut Vec<(String, Json)>, key: &str, value: Json)
    ensures
        members_of(final(members)@) == members_of(old(members)@).insert(key@, value@),
{
    let ghost before = members@;
    members.push((key.to_owned(), value));
    assert(members@.drop_last() == before);
}

impl Json {
    /// The compact text of this value.
    pub fn render(&self) -> (r: String)
        ensures
            r@ == json_text(self@),
    {
        text_of_value(&to_value(self))
    }

    /// The member of an object under `key`; `None` where there is none, or no object.
    pub fn get(&self, key: &str) -> (r: Option<&Json>)
        ensures
            r is Some <==> self@.member(key@) is Some,
            r matches Some(j) ==> self@.member(key@) == Some(j@),
    {
        match self {
            Json::Object(members) => {
                let want: String = key.to_owned();
                let mut i: usize = members.len();
                assert(members@.take(i as int) == members@);
                while i > 0
                    invariant
                        i <= members@.len(),
                        want@ == key@,
                        *self == Json::Object(*members),
                        self@.member(key@) == JsonTree::Object(
                            members_of(members@.take(i as int)),
                        ).member(key@),
                    decreases i,
                {
                    i -= 1;
                    assert(members@.take(i + 1).drop_last() == members@.take(i as int));
                    if members[i].0 == want {
                        return Some(&members[i].1);
                    }
                }
                assert(members@.take(0) == Seq::<(String, Json)>::empty());
                None
            },
            _ => None,
        }
    }

    /// The text of a string; `None` for any other value.
    pub fn as_str(&self) -> (r: Option<&str>)
        ensures
            r is Some <==> self@.text() is Some,
            r matches Some(s) ==> self@.text() == Some(s@),
    {
        match self {
            Json::Str(s) => Some(s.as_str()),
            _ => None,
        }
    }

    /// The elements of an array; `None` for any other value.
    pub fn as_array(&self) -> (r: Option<&Vec<Json>>)
        ensures
            r is Some <==> self@ is Array,
            r matches Some(items) ==> self@ == JsonTree::Array(items_of(items@)),
    {
        match self {
            Json::Array(items) => Some(items),
            _ => None,
        }
    }

    /// The text of the string that an object has under `key`.
    pub fn get_str(&self, key: &str) -> (r: Option<&str>)
        ensures
            r is Some <==> self@.member_text(key@) is Some,
            r matches Some(s) ==> self@.member_text(key@) == Some(s@),
    {
        match self.get(key) {
            Some(j) => j.as_str(),
            None => None,
        }
    }
}

impl Clone for Json {
    fn clone(&self) -> (r: Json)
        ensures
            r@ == self@,
        decreases self,
    {
        match self {
            Json::Null => Json::Null,
            Json::Bool(b) => Json::Bool(*b),
            Json::Number(n) => Json::Number(n.clone()),
            Json::Str(s) => Json::Str(s.clone()),
            Json::Array(items) => {
                let mut out: Vec<Json> = Vec::new();
                let mut i: usize = 0;
                while i < items.len()
                    invariant
                        i <= items@.len(),
                        *self == Json::Array(*items),
                        out@.len() == i,
                        forall|k: int|
                            0 <= k < i ==> (#[trigger] out@[k]).tree() == items@[k].tree(),
                    decreases items@.len() - i,
                {
                    proof {
                        assert(decreases_to!(*self => self->Array_0));
                        assert(decreases_to!(items => items@));
                        assert(decreases_to!(items@ => items@[i as int]));
                    }
                    out.push(items[i].clone());
                    i += 1;
                }
                assert(items_of(out@) =~= items_of(items@));
                Json::Array(out)
            },
            Json::Object(members) => {
                let mut out: Vec<(String, Json)> = Vec::new();
                let mut i: usize = 0;
                while i < members.len()
                    invariant
                        i <= members@.len(),
                        *self == Json::Object(*members),
                        members_of(out@) == members_of(members@.take(i as int)),
                    decreases members@.len() - i,
                {
                    proof {
                        assert(decreases_to!(*self => self->Object_0));
                        assert(decreases_to!(members => members@));
                        assert(decreases_to!(members@ => members@[i as int]));
                        assert(decreases_to!(members@[i as int] => members@[i as int].1));
                    }
                    let ghost before = out@;
                    out.push((members[i].0.clone(), members[i].1.clone()));
                    assert(out@.drop_last() == before);
                    assert(members@.take(i + 1).drop_last() == members@.take(i as int));
                    i += 1;
                }
                assert(members@.take(members@.len() as int) == members@);
                Json::Object(out)
            },
        }
    }
}

// ---- Laws ---------------------------------------------------------------------------------

/// What an object has under a key is what its members say, and nothing else has members; a text is
/// what a string holds.
pub proof fn law_member(tree: JsonTree, key: Seq<char>, value: JsonTree, text: Seq<char>)
    ensures
        tree.member(key) == Some(value) <==> (tree matches JsonTree::Object(m) && m.contains_key(key)
            && m[key] == value),
        tree.member(key) is None <==> !(tree matches JsonTree::Object(m) && m.contains_key(key)),
        tree.text() == Some(text) <==> tree == JsonTree::Str(text),
        tree.text() is None <==> !(tree is Str),
        tree.member_text(key) == Some(text) <==> (tree matches JsonTree::Object(m)
            && m.contains_key(key) && m[key] == JsonTree::Str(text)),
        tree.member_text(key) is None <==> !(tree matches JsonTree::Object(m) && m.contains_key(key)
            && m[key] is Str),
{
}

/// A value stands for itself, layer by layer.
pub proof fn law_value(b: bool, n: serde_json::Number, s: String, items: Vec<Json>, i: int)
    ensures
        Json::Null@ == JsonTree::Null,
        Json::Bool(b)@ == JsonTree::Bool(b),
        Json::Number(n)@ == JsonTree::Number(n),
        Json::Str(s)@ == JsonTree::Str(s@),
        Json::Array(items)@ == JsonTree::Array(items_of(items@)),
        items_of(items@).len() == items@.len(),
        0 <= i < items@.len() ==> items_of(items@)[i] == items@[i]@,
{
}

/// An object has under a key what the last of its members with that key says.
pub proof fn law_last_member_counts(members: Vec<(String, Json)>, i: int, key: Seq<char>)
    ensures
        Json::Object(members)@ is Object,
        (0 <= i < members@.len() && members@[i].0@ == key && forall|j: int|
            i < j < members@.len() ==> (#[trigger] members@[j]).0@ != key) ==> Json::Object(
            members,
        )@->Object_0.contains_key(key) && Json::Object(members)@->Object_0[key] == members@[i].1@,
        (forall|j: int| 0 <= j < members@.len() ==> (#[trigger] members@[j]).0@ != key)
            ==> !Json::Object(members)@->Object_0.contains_key(key),
{
    lemma_last_member(members@, i, key);
}

proof fn lemma_last_member(members: Seq<(String, Json)>, i: int, key: Seq<char>)
    ensures
        (0 <= i < members.len() && members[i].0@ == key && forall|j: int|
            i < j < members.len() ==> (#[trigger] members[j]).0@ != key) ==> members_of(
            members,
        ).contains_key(key) && members_of(members)[key] == members[i].1.tree(),
        (forall|j: int| 0 <= j < members.len() ==> (#[trigger] members[j]).0@ != key)
            ==> !members_of(members).contains_key(key),
    decreases members.len(),
{
    if members.len() > 0 {
        let front = members.drop_last();
        let n = members.len() - 1;
        lemma_last_member(front, i, key);
        if 0 <= i < n && members[i].0@ == key && (forall|j: int|
            i < j < members.len() ==> (#[trigger] members[j]).0@ != key) {
            assert(members[n].0@ != key);
            assert forall|j: int| i < j < front.len() implies (#[trigger] front[j]).0@ != key by {
                assert(front[j] == members[j]);
            }
            assert(front[i] == members[i]);
        }
        if forall|j: int| 0 <= j < members.len() ==> (#[trigger] members[j]).0@ != key {
            assert(members[n].0@ != key);
            assert forall|j: int| 0 <= j < front.len() implies (#[trigger] front[j]).0@ != key by {
                assert(front[j] == members[j]);
            }
        }
    }
}

} // verus!
