//! JSON documents: the data they hold, and the calls into `serde_json` that
//! read and write their text.
use crate::text::{all_digits, decimal_int, digits_value};
use vstd::prelude::*;

verus! {

/// The data of a JSON document.
///
/// A number is the text that it prints as. An object maps each member's name
/// to the member.
#[verifier::ext_equal]
pub enum Tree {
    Null,
    Bool(bool),
    Number(Seq<char>),
    Text(Seq<char>),
    Array(Seq<Tree>),
    Object(Map<Seq<char>, Tree>),
}

impl Tree {
    /// The member of an object under a name.
    pub open spec fn member(self, name: Seq<char>) -> Option<Tree> {
        match self {
            Tree::Object(members) if members.dom().contains(name) => Some(members[name]),
            _ => None,
        }
    }

    /// Whether this is an object with a value under a name.
    pub open spec fn has(self, name: Seq<char>, value: Tree) -> bool {
        &&& self is Object
        &&& self->Object_0.dom().contains(name)
        &&& self->Object_0[name] == value
    }

    /// The items of an array.
    pub open spec fn items(self) -> Option<Seq<Tree>> {
        match self {
            Tree::Array(items) => Some(items),
            _ => None,
        }
    }

    /// One item of an array, counted from zero.
    pub open spec fn item(self, at: int) -> Option<Tree> {
        match self {
            Tree::Array(items) if 0 <= at < items.len() => Some(items[at]),
            _ => None,
        }
    }

    /// The characters of a text.
    pub open spec fn text(self) -> Option<Seq<char>> {
        match self {
            Tree::Text(s) => Some(s),
            _ => None,
        }
    }

    /// A text, or the text that a number prints as.
    pub open spec fn scalar(self) -> Option<Seq<char>> {
        match self {
            Tree::Text(s) => Some(s),
            Tree::Number(s) => Some(s),
            _ => None,
        }
    }

    /// The value of a number that is a whole one within `u64`.
    pub open spec fn whole(self) -> Option<nat> {
        match self {
            Tree::Number(s) => whole_of(s),
            _ => None,
        }
    }

    /// Whether arrays and objects nest at most `levels` deep.
    pub open spec fn within(self, levels: nat) -> bool
        decreases self,
    {
        match self {
            Tree::Array(items) => levels > 0 && forall|i: int|
                #![trigger items[i]]
                0 <= i < items.len() ==> items[i].within((levels - 1) as nat),
            Tree::Object(members) => levels > 0 && forall|k: Seq<char>|
                #![trigger members[k]]
                members.dom().contains(k) ==> members[k].within((levels - 1) as nat),
            _ => true,
        }
    }

    /// Whether two documents are the same but for the values of their numbers.
    pub open spec fn alike(self, other: Tree) -> bool
        decreases self,
    {
        match (self, other) {
            (Tree::Number(_), Tree::Number(_)) => true,
            (Tree::Array(a), Tree::Array(b)) => a.len() == b.len() && forall|i: int|
                #![trigger a[i]]
                0 <= i < a.len() ==> a[i].alike(b[i]),
            (Tree::Object(a), Tree::Object(b)) => a.dom() == b.dom() && forall|k: Seq<char>|
                #![trigger a[k]]
                a.dom().contains(k) ==> a[k].alike(b[k]),
            _ => self == other,
        }
    }

    /// Whether every number in the document is a whole one.
    pub open spec fn integral(self) -> bool
        decreases self,
    {
        match self {
            Tree::Number(s) => all_digits(s) || (s.len() > 0 && s[0] == '-' && all_digits(
                s.skip(1),
            )),
            Tree::Array(items) => forall|i: int|
                #![trigger items[i]]
                0 <= i < items.len() ==> items[i].integral(),
            Tree::Object(members) => forall|k: Seq<char>|
                #![trigger members[k]]
                members.dom().contains(k) ==> members[k].integral(),
            _ => true,
        }
    }
}

/// The value that the text of a number has, when it is a whole one within
/// `u64`.
pub open spec fn whole_of(s: Seq<char>) -> Option<nat> {
    if all_digits(s) && digits_value(s) <= u64::MAX {
        Some(digits_value(s))
    } else {
        None
    }
}

/// The members that a list of names and values makes: a later one takes the
/// place of an earlier one with the same name.
pub open spec fn object_of(pairs: Seq<(Seq<char>, Tree)>) -> Map<Seq<char>, Tree>
    decreases pairs.len(),
{
    if pairs.len() == 0 {
        Map::empty()
    } else {
        object_of(pairs.drop_last()).insert(pairs.last().0, pairs.last().1)
    }
}

/// Whether a document was read, and is like another one.
pub open spec fn reads_like(read: Option<Tree>, tree: Tree) -> bool {
    match read {
        Some(back) => tree.alike(back),
        None => false,
    }
}

/// How deep `serde_json` reads: its recursion limit is one more.
pub open spec fn reading_depth() -> nat {
    127
}

/// A JSON value that `serde_json` holds.
#[verifier::external_type_specification]
#[verifier::external_body]
pub struct ExValue(serde_json::Value);

/// A JSON number that `serde_json` holds.
#[verifier::external_type_specification]
#[verifier::external_body]
pub struct ExNumber(serde_json::Number);

/// What a `serde_json::Value` holds.
pub uninterp spec fn value_tree(value: serde_json::Value) -> Tree;

/// What `serde_json::Number::to_string` gives.
pub uninterp spec fn number_text(number: serde_json::Number) -> Seq<char>;

/// What `serde_json::from_str` reads from a text; nothing where it fails.
pub uninterp spec fn parsed_text(text: Seq<char>) -> Option<Tree>;

/// What `serde_json::from_slice` reads from bytes; nothing where it fails.
pub uninterp spec fn parsed_bytes(bytes: Seq<u8>) -> Option<Tree>;

/// The compact text that `serde_json` prints for a document.
pub uninterp spec fn rendered(tree: Tree) -> Seq<char>;

/// The text with line breaks and indents that `serde_json` prints for a
/// document; nothing where it fails.
pub uninterp spec fn pretty(tree: Tree) -> Option<Seq<char>>;

/// One level of a `serde_json::Value`.
pub enum Node {
    Null,
    Bool(bool),
    Number(serde_json::Number),
    Text(String),
    Array(Vec<serde_json::Value>),
    Object(Vec<(String, serde_json::Value)>),
}

impl Node {
    /// The document that a level and the values below it make.
    pub open spec fn tree(self) -> Tree {
        match self {
            Node::Null => Tree::Null,
            Node::Bool(b) => Tree::Bool(b),
            Node::Number(n) => Tree::Number(number_text(n)),
            Node::Text(s) => Tree::Text(s@),
            Node::Array(items) => Tree::Array(
                Seq::new(items@.len(), |i: int| value_tree(items@[i])),
            ),
            Node::Object(members) => Tree::Object(
                object_of(
                    Seq::new(
                        members@.len(),
                        |i: int| (members@[i].0@, value_tree(members@[i].1)),
                    ),
                ),
            ),
        }
    }

    /// Whether no two members of an object have the same name.
    pub open spec fn distinct(self) -> bool {
        match self {
            Node::Object(members) => forall|i: int, j: int|
                #![trigger members@[i], members@[j]]
                0 <= i < j < members@.len() ==> members@[i].0@ != members@[j].0@,
            _ => true,
        }
    }
}

/// `serde_json::from_str::<Value>`. Its result is named, not described, but
/// for one fact: what it reads nests no deeper than its recursion limit
/// allows.
#[verifier::external_body]
fn parse_value(text: &str) -> (r: Option<serde_json::Value>)
    ensures
        parsed_text(text@) == match r {
            Some(value) => Some(value_tree(value)),
            None => None,
        },
        r matches Some(value) ==> value_tree(value).within(reading_depth()),
{
    serde_json::from_str::<serde_json::Value>(text).ok()
}

/// `serde_json::from_slice::<Value>`. Its result is named, not described.
#[verifier::external_body]
fn parse_value_bytes(bytes: &[u8]) -> (r: Option<serde_json::Value>)
    ensures
        parsed_bytes(bytes@) == match r {
            Some(value) => Some(value_tree(value)),
            None => None,
        },
{
    serde_json::from_slice::<serde_json::Value>(bytes).ok()
}

/// Takes one level of a `serde_json::Value` apart: its variants, with their
/// fields. The members of an object have distinct names.
#[verifier::external_body]
fn open_value(value: serde_json::Value) -> (node: Node)
    ensures
        node.tree() == value_tree(value),
        node.distinct(),
{
    match value {
        serde_json::Value::Null => Node::Null,
        serde_json::Value::Bool(b) => Node::Bool(b),
        serde_json::Value::Number(n) => Node::Number(n),
        serde_json::Value::String(s) => Node::Text(s),
        serde_json::Value::Array(items) => Node::Array(items),
        serde_json::Value::Object(members) => Node::Object(members.into_iter().collect()),
    }
}

/// Puts one level of a `serde_json::Value` together, from its variants and
/// their fields. The members of an object must have distinct names.
#[verifier::external_body]
fn close_value(node: Node) -> (value: serde_json::Value)
    requires
        node.distinct(),
    ensures
        value_tree(value) == node.tree(),
{
    match node {
        Node::Null => serde_json::Value::Null,
        Node::Bool(b) => serde_json::Value::Bool(b),
        Node::Number(n) => serde_json::Value::Number(n),
        Node::Text(s) => serde_json::Value::String(s),
        Node::Array(items) => serde_json::Value::Array(items),
        Node::Object(members) => serde_json::Value::Object(members.into_iter().collect()),
    }
}

/// `Value::to_string`, the compact text of a value. It is named, not
/// described, but for what is read back from it. A document that is not too
/// deep to be read reads back the same, but for the values of numbers with a
/// fraction or an exponent: such a number is read back as a number, though
/// perhaps as a neighbour of itself, and never as too large a one. A document
/// of whole numbers reads back as itself.
#[verifier::external_body]
fn render_value(value: &serde_json::Value) -> (r: String)
    ensures
        r@ == rendered(value_tree(*value)),
        value_tree(*value).within(reading_depth()) ==> reads_like(
            parsed_text(r@),
            value_tree(*value),
        ),
        value_tree(*value).integral() && value_tree(*value).within(reading_depth())
            ==> parsed_text(r@) == Some(value_tree(*value)),
{
    value.to_string()
}

/// `serde_json::to_string_pretty`. Its result is named, not described.
#[verifier::external_body]
fn render_value_pretty(value: &serde_json::Value) -> (r: Option<String>)
    ensures
        crate::text::opt_view(r) == pretty(value_tree(*value)),
{
    serde_json::to_string_pretty(value).ok()
}

/// `Number::to_string`. Its result is named.
#[verifier::external_body]
fn number_to_text(number: &serde_json::Number) -> (r: String)
    ensures
        r@ == number_text(*number),
{
    number.to_string()
}

/// `Number::as_u64`: the value of a number that prints as digits alone.
#[verifier::external_body]
fn number_as_u64(number: &serde_json::Number) -> (r: Option<u64>)
    ensures
        whole_of(number_text(*number)) == match r {
            Some(n) => Some(n as nat),
            None => None,
        },
{
    number.as_u64()
}

/// `Number::from` an `i64`: a number that prints as that integer.
#[verifier::external_body]
fn number_from_i64(n: i64) -> (r: serde_json::Number)
    ensures
        number_text(r) == decimal_int(n as int),
{
    serde_json::Number::from(n)
}

/// `Number::from` a `u64`: a number that prints as that integer.
#[verifier::external_body]
fn number_from_u64(n: u64) -> (r: serde_json::Number)
    ensures
        number_text(r) == decimal_int(n as int),
{
    serde_json::Number::from(n)
}

/// `Number::clone`: a number that prints the same.
pub assume_specification[ <serde_json::Number as Clone>::clone ](
    number: &serde_json::Number,
) -> (r: serde_json::Number)
    ensures
        number_text(r) == number_text(*number),
;

/// A JSON document.
#[derive(Debug, PartialEq, Eq)]
pub enum Json {
    Null,
    Bool(bool),
    Number(serde_json::Number),
    Text(String),
    Array(Vec<Json>),
    Object(Vec<(String, Json)>),
}

impl View for Json {
    type V = Tree;

    open spec fn view(&self) -> Tree
        decreases self,
    {
        match self {
            Json::Null => Tree::Null,
            Json::Bool(b) => Tree::Bool(*b),
            Json::Number(n) => Tree::Number(number_text(*n)),
            Json::Text(s) => Tree::Text(s@),
            Json::Array(items) => Tree::Array(trees(*items)),
            Json::Object(members) => Tree::Object(object_of(pairs_of(*members))),
        }
    }
}

/// The data of a list of documents.
pub open spec fn trees(items: Vec<Json>) -> Seq<Tree>
    decreases items,
{
    Seq::new(
        items@.len(),
        |i: int|
            if 0 <= i < items@.len() {
                items@[i].view()
            } else {
                Tree::Null
            },
    )
}

/// The names and data of a list of members.
pub open spec fn pairs_of(members: Vec<(String, Json)>) -> Seq<(Seq<char>, Tree)>
    decreases members,
{
    Seq::new(
        members@.len(),
        |i: int|
            if 0 <= i < members@.len() {
                (members@[i].0@, members@[i].1.view())
            } else {
                (Seq::empty(), Tree::Null)
            },
    )
}

/// Whether a name is among the names of a list.
pub open spec fn named_in(pairs: Seq<(Seq<char>, Tree)>, name: Seq<char>) -> bool {
    exists|i: int| 0 <= i < pairs.len() && #[trigger] pairs[i].0 == name
}

/// The names of an object are those of the list that it was made from.
pub proof fn object_of_names(pairs: Seq<(Seq<char>, Tree)>, name: Seq<char>)
    ensures
        object_of(pairs).dom().contains(name) <==> named_in(pairs, name),
        object_of(pairs).dom().finite(),
    decreases pairs.len(),
{
    if pairs.len() > 0 {
        let rest = pairs.drop_last();
        object_of_names(rest, name);
        if named_in(rest, name) {
            let i = choose|i: int| 0 <= i < rest.len() && #[trigger] rest[i].0 == name;
            assert(pairs[i].0 == name);
        }
        if named_in(pairs, name) && pairs.last().0 != name {
            let i = choose|i: int| 0 <= i < pairs.len() && #[trigger] pairs[i].0 == name;
            assert(rest[i].0 == name);
        }
        assert(pairs[pairs.len() - 1] == pairs.last());
    }
}

/// Of several members with one name, the last one is the object's.
pub proof fn object_of_last(pairs: Seq<(Seq<char>, Tree)>, i: int)
    requires
        0 <= i < pairs.len(),
        forall|j: int| i < j < pairs.len() ==> #[trigger] pairs[j].0 != pairs[i].0,
    ensures
        object_of(pairs).dom().contains(pairs[i].0),
        object_of(pairs)[pairs[i].0] == pairs[i].1,
    decreases pairs.len(),
{
    if i < pairs.len() - 1 {
        let rest = pairs.drop_last();
        assert forall|j: int| i < j < rest.len() implies #[trigger] rest[j].0 != rest[i].0 by {
            assert(pairs[j].0 != pairs[i].0);
        }
        object_of_last(rest, i);
        assert(pairs[pairs.len() - 1].0 != pairs[i].0);
    }
}

/// A list of one member makes an object with that member alone.
pub proof fn object_of_one(name: Seq<char>, value: Tree)
    ensures
        object_of(seq![(name, value)]) == map![name => value],
{
    let pairs = seq![(name, value)];
    assert(pairs.drop_last() =~= Seq::<(Seq<char>, Tree)>::empty());
    assert(object_of(pairs.drop_last()) =~= Map::<Seq<char>, Tree>::empty());
    assert(object_of(pairs) =~= map![name => value]);
}

/// One member more in the list is one insertion more in the object.
pub proof fn object_of_more(pairs: Seq<(Seq<char>, Tree)>, pair: (Seq<char>, Tree))
    ensures
        object_of(pairs.push(pair)) == object_of(pairs).insert(pair.0, pair.1),
{
    assert(pairs.push(pair).drop_last() =~= pairs);
}

/// A member of an object is no deeper than the object allows, and holds whole
/// numbers only where the object does.
pub proof fn member_is_readable(members: Map<Seq<char>, Tree>, levels: nat, k: Seq<char>)
    requires
        Tree::Object(members).within(levels),
        Tree::Object(members).integral(),
        members.dom().contains(k),
    ensures
        members[k].within((levels - 1) as nat),
        members[k].integral(),
{
    let object = Tree::Object(members);
    assert(object->Object_0[k] == members[k]);
}

/// An object whose members are not too deep and hold whole numbers only is
/// like that itself.
pub proof fn object_is_readable(pairs: Seq<(Seq<char>, Tree)>, levels: nat)
    requires
        levels > 0,
        forall|i: int|
            0 <= i < pairs.len() ==> (#[trigger] pairs[i]).1.within((levels - 1) as nat)
                && pairs[i].1.integral(),
    ensures
        Tree::Object(object_of(pairs)).within(levels),
        Tree::Object(object_of(pairs)).integral(),
    decreases pairs.len(),
{
    let members = object_of(pairs);
    if pairs.len() > 0 {
        let rest = pairs.drop_last();
        assert forall|i: int| 0 <= i < rest.len() implies (#[trigger] rest[i]).1.within(
            (levels - 1) as nat,
        ) && rest[i].1.integral() by {
            assert(rest[i] == pairs[i]);
        }
        object_is_readable(rest, levels);
        let before = object_of(rest);
        let last = pairs[pairs.len() - 1];
        assert(members == before.insert(last.0, last.1));
        assert(Tree::Object(before).within(levels));
        assert(Tree::Object(before).integral());
        assert forall|k: Seq<char>| #![trigger members[k]] members.dom().contains(k) implies
            members[k].within((levels - 1) as nat) && members[k].integral() by {
            if k == last.0 {
                assert(members[k] == last.1);
                assert(last.1.within((levels - 1) as nat));
                assert(last.1.integral());
            } else {
                assert(before.dom().contains(k));
                assert(members[k] == before[k]);
                member_is_readable(before, levels, k);
            }
        }
    }
}

/// A number that an integer is written as is a whole one.
pub proof fn integers_are_integral(n: int)
    ensures
        Tree::Number(decimal_int(n)).integral(),
{
    if n < 0 {
        crate::text::decimal_reads_back((-n) as nat);
        assert(decimal_int(n).skip(1) =~= crate::text::decimal((-n) as nat));
    } else {
        crate::text::decimal_reads_back(n as nat);
    }
}

/// Turns a `serde_json::Value` into a document.
fn import(value: serde_json::Value) -> (json: Json)
    ensures
        json@ == value_tree(value),
    decreases value_tree(value),
{
    let ghost whole = value_tree(value);
    match open_value(value) {
        Node::Null => Json::Null,
        Node::Bool(b) => Json::Bool(b),
        Node::Number(n) => Json::Number(n),
        Node::Text(s) => Json::Text(s),
        Node::Array(values) => {
            let ghost all = values@;
            let mut items: Vec<Json> = Vec::new();
            for v in it: values
                invariant
                    it.seq() == all,
                    whole == value_tree(value),
                    whole == Node::Array(values).tree(),
                    values@ == all,
                    items@.len() == it.index(),
                    forall|i: int| 0 <= i < items@.len() ==> (#[trigger] items@[i])@ == value_tree(
                        all[i],
                    ),
            {
                assert(whole->Array_0[it.index() as int] == value_tree(v));
                assert(decreases_to!(whole => whole->Array_0));
                assert(decreases_to!(whole->Array_0 => whole->Array_0[it.index() as int]));
                items.push(import(v));
            }
            assert(trees(items) == whole->Array_0);
            Json::Array(items)
        },
        Node::Object(values) => {
            let ghost all = values@;
            let mut members: Vec<(String, Json)> = Vec::new();
            for m in it: values
                invariant
                    it.seq() == all,
                    whole == value_tree(value),
                    whole == Node::Object(values).tree(),
                    Node::Object(values).distinct(),
                    values@ == all,
                    members@.len() == it.index(),
                    forall|i: int|
                        0 <= i < members@.len() ==> (#[trigger] members@[i]).0@ == all[i].0@
                            && members@[i].1@ == value_tree(all[i].1),
            {
                proof {
                    let at = it.index() as int;
                    let pairs = Seq::new(all.len(), |i: int| (all[i].0@, value_tree(all[i].1)));
                    assert forall|j: int| at < j < pairs.len() implies #[trigger] pairs[j].0
                        != pairs[at].0 by {
                        assert(all[at].0@ != all[j].0@);
                    }
                    object_of_last(pairs, at);
                    object_of_names(pairs, pairs[at].0);
                    assert(decreases_to!(whole => whole->Object_0));
                    assert(decreases_to!(whole->Object_0 => whole->Object_0[pairs[at].0]));
                }
                members.push((m.0, import(m.1)));
            }
            assert(pairs_of(members) == Seq::new(
                all.len(),
                |i: int| (all[i].0@, value_tree(all[i].1)),
            ));
            Json::Object(members)
        },
    }
}

/// Turns a document into a `serde_json::Value`.
fn export(json: &Json) -> (value: serde_json::Value)
    ensures
        value_tree(value) == json@,
    decreases json,
{
    match json {
        Json::Null => close_value(Node::Null),
        Json::Bool(b) => close_value(Node::Bool(*b)),
        Json::Number(n) => close_value(Node::Number(n.clone())),
        Json::Text(s) => close_value(Node::Text(s.clone())),
        Json::Array(items) => {
            let mut values: Vec<serde_json::Value> = Vec::new();
            let mut i: usize = 0;
            while i < items.len()
                invariant
                    i <= items@.len(),
                    values@.len() == i,
                    *json == Json::Array(*items),
                    forall|j: int| 0 <= j < i ==> value_tree(#[trigger] values@[j]) == items@[j]@,
                decreases items@.len() - i,
            {
                assert(decreases_to!(json => json->Array_0));
                assert(decreases_to!(items => items@[i as int]));
                values.push(export(&items[i]));
                i += 1;
            }
            assert(Node::Array(values).tree()->Array_0 == trees(*items));
            close_value(Node::Array(values))
        },
        Json::Object(members) => {
            let mut values: Vec<(String, serde_json::Value)> = Vec::new();
            let ghost pairs = pairs_of(*members);
            let ghost mut places = Seq::<int>::empty();
            let mut i: usize = 0;
            while i < members.len()
                invariant
                    i <= members@.len(),
                    *json == Json::Object(*members),
                    pairs == pairs_of(*members),
                    values@.len() == places.len(),
                    picks(pairs, places, i as int),
                    forall|k: int|
                        0 <= k < places.len() ==> (#[trigger] values@[k]).0@ == pairs[places[k]].0
                            && value_tree(values@[k].1) == pairs[places[k]].1,
                decreases members@.len() - i,
            {
                assert(decreases_to!(json => json->Object_0));
                assert(decreases_to!(members => members@[i as int]));
                assert(decreases_to!(members@[i as int] => members@[i as int].1));
                let ghost before = places;
                if !is_replaced(members, i) {
                    values.push((members[i].0.clone(), export(&members[i].1)));
                    proof {
                        places = places.push(i as int);
                    }
                }
                assert forall|j: int| 0 <= j < i + 1 && #[trigger] stays(
                    pairs,
                    j,
                ) implies exists|k: int| 0 <= k < places.len() && #[trigger] places[k] == j by {
                    if j < i {
                        let k = choose|k: int| 0 <= k < before.len() && #[trigger] before[k] == j;
                        assert(places[k] == j);
                    } else {
                        assert(places[places.len() - 1] == j);
                    }
                }
                i += 1;
            }
            proof {
                let chosen = Seq::new(
                    values@.len(),
                    |k: int| (values@[k].0@, value_tree(values@[k].1)),
                );
                picked_make_the_object(pairs, places, chosen);
                assert forall|k: int, l: int|
                    #![trigger values@[k], values@[l]]
                    0 <= k < l < values@.len() implies values@[k].0@ != values@[l].0@ by {
                    assert(chosen[k].0 != chosen[l].0);
                }
            }
            close_value(Node::Object(values))
        },
    }
}

/// Whether no later member takes the place of the one at `i`.
spec fn stays(pairs: Seq<(Seq<char>, Tree)>, i: int) -> bool {
    forall|j: int| i < j < pairs.len() ==> #[trigger] pairs[j].0 != pairs[i].0
}

/// Whether `places` lists, in order, the members below `end` that stay.
spec fn picks(pairs: Seq<(Seq<char>, Tree)>, places: Seq<int>, end: int) -> bool {
    &&& forall|k: int|
        0 <= k < places.len() ==> 0 <= #[trigger] places[k] < end && stays(pairs, places[k])
    &&& forall|k: int, l: int|
        #![trigger places[k], places[l]]
        0 <= k < l < places.len() ==> places[k] < places[l]
    &&& forall|i: int|
        0 <= i < end && #[trigger] stays(pairs, i) ==> exists|k: int|
            0 <= k < places.len() && #[trigger] places[k] == i
}

/// Of the members with one name, one stays.
proof fn one_stays(pairs: Seq<(Seq<char>, Tree)>, i: int) -> (p: int)
    requires
        0 <= i < pairs.len(),
    ensures
        0 <= p < pairs.len(),
        pairs[p].0 == pairs[i].0,
        stays(pairs, p),
    decreases pairs.len() - i,
{
    if stays(pairs, i) {
        i
    } else {
        let j = choose|j: int| i < j < pairs.len() && #[trigger] pairs[j].0 == pairs[i].0;
        one_stays(pairs, j)
    }
}

/// The members that stay make the same object as all of them, and have
/// distinct names.
proof fn picked_make_the_object(
    pairs: Seq<(Seq<char>, Tree)>,
    places: Seq<int>,
    chosen: Seq<(Seq<char>, Tree)>,
)
    requires
        picks(pairs, places, pairs.len() as int),
        chosen.len() == places.len(),
        forall|k: int| 0 <= k < chosen.len() ==> #[trigger] chosen[k] == pairs[places[k]],
    ensures
        object_of(chosen) == object_of(pairs),
        forall|k: int, l: int|
            #![trigger chosen[k], chosen[l]]
            0 <= k < l < chosen.len() ==> chosen[k].0 != chosen[l].0,
{
    assert forall|k: int, l: int|
        #![trigger chosen[k], chosen[l]]
        0 <= k < l < chosen.len() implies chosen[k].0 != chosen[l].0 by {
        assert(places[k] < places[l]);
        assert(stays(pairs, places[k]));
        assert(pairs[places[l]].0 != pairs[places[k]].0);
    }
    assert forall|name: Seq<char>| #[trigger]
        object_of(chosen).dom().contains(name) == object_of(pairs).dom().contains(name) && (
        object_of(pairs).dom().contains(name) ==> object_of(chosen)[name] == object_of(
            pairs,
        )[name]) by {
        object_of_names(chosen, name);
        object_of_names(pairs, name);
        if named_in(chosen, name) {
            let k = choose|k: int| 0 <= k < chosen.len() && #[trigger] chosen[k].0 == name;
            assert(pairs[places[k]].0 == name);
        }
        if named_in(pairs, name) {
            let i = choose|i: int| 0 <= i < pairs.len() && #[trigger] pairs[i].0 == name;
            let p = one_stays(pairs, i);
            let k = choose|k: int| 0 <= k < places.len() && #[trigger] places[k] == p;
            assert(chosen[k] == pairs[p]);
            object_of_last(pairs, p);
            object_of_last(chosen, k);
        }
    }
    assert(object_of(chosen) =~= object_of(pairs));
}

/// Whether a later member takes the place of the one at `i`.
fn is_replaced(members: &Vec<(String, Json)>, i: usize) -> (r: bool)
    requires
        i < members@.len(),
    ensures
        r == !stays(pairs_of(*members), i as int),
{
    let ghost pairs = pairs_of(*members);
    let count: usize = members.len();
    let mut j: usize = i + 1;
    while j < count
        invariant
            i < j <= members@.len(),
            count == members@.len(),
            pairs == pairs_of(*members),
            forall|k: int| i < k < j ==> #[trigger] pairs[k].0 != pairs[i as int].0,
        decreases members@.len() - j,
    {
        if crate::text::same(members[j].0.as_str(), members[i].0.as_str()) {
            assert(pairs[j as int].0 == pairs[i as int].0);
            return true;
        }
        j += 1;
    }
    false
}

/// Reads a document from its text.
pub fn parse(text: &str) -> (r: Option<Json>)
    ensures
        parsed_text(text@) == match r {
            Some(json) => Some(json@),
            None => None,
        },
        r matches Some(json) ==> json@.within(reading_depth()),
{
    match parse_value(text) {
        Some(value) => Some(import(value)),
        None => None,
    }
}

/// Reads a document from bytes.
pub fn parse_bytes(bytes: &[u8]) -> (r: Option<Json>)
    ensures
        parsed_bytes(bytes@) == match r {
            Some(json) => Some(json@),
            None => None,
        },
{
    match parse_value_bytes(bytes) {
        Some(value) => Some(import(value)),
        None => None,
    }
}

impl Json {
    /// The document's compact text.
    pub fn render(&self) -> (r: String)
        ensures
            r@ == rendered(self@),
            self@.within(reading_depth()) ==> reads_like(parsed_text(r@), self@),
            self@.integral() && self@.within(reading_depth()) ==> parsed_text(r@) == Some(self@),
    {
        let value = export(self);
        render_value(&value)
    }

    /// The document's text with line breaks and indents, if it can be
    /// written.
    pub fn render_pretty(&self) -> (r: Option<String>)
        ensures
            crate::text::opt_view(r) == pretty(self@),
    {
        let value = export(self);
        render_value_pretty(&value)
    }

    /// A number from an integer.
    pub fn integer(n: i64) -> (r: Json)
        ensures
            r@ == Tree::Number(decimal_int(n as int)),
    {
        Json::Number(number_from_i64(n))
    }

    /// A number from an integer that is not negative.
    pub fn unsigned(n: u64) -> (r: Json)
        ensures
            r@ == Tree::Number(decimal_int(n as int)),
    {
        Json::Number(number_from_u64(n))
    }

    /// A text.
    pub fn string(s: &str) -> (r: Json)
        ensures
            r@ == Tree::Text(s@),
    {
        Json::Text(s.to_owned())
    }

    /// The member of an object under a name.
    pub fn get(&self, name: &str) -> (r: Option<&Json>)
        ensures
            self@.member(name@) == match r {
                Some(json) => Some(json@),
                None => None,
            },
    {
        match self {
            Json::Object(members) => {
                let ghost pairs = pairs_of(*members);
                proof {
                    object_of_names(pairs, name@);
                }
                let mut i: usize = members.len();
                while i > 0
                    invariant
                        i <= members@.len(),
                        pairs == pairs_of(*members),
                        self@ == Tree::Object(object_of(pairs)),
                        forall|j: int| i <= j < members@.len() ==> (#[trigger] pairs[j]).0 != name@,
                    decreases i,
                {
                    if crate::text::same(members[i - 1].0.as_str(), name) {
                        proof {
                            object_of_last(pairs, i - 1);
                        }
                        return Some(&members[i - 1].1);
                    }
                    i -= 1;
                }
                None
            },
            _ => None,
        }
    }

    /// The items of an array.
    pub fn as_array(&self) -> (r: Option<&Vec<Json>>)
        ensures
            self@.items() == match r {
                Some(items) => Some(trees(*items)),
                None => None,
            },
    {
        match self {
            Json::Array(items) => {
                Some(items)
            },
            _ => None,
        }
    }

    /// One item of an array, counted from zero.
    pub fn at(&self, index: usize) -> (r: Option<&Json>)
        ensures
            self@.item(index as int) == match r {
                Some(json) => Some(json@),
                None => None,
            },
    {
        match self.as_array() {
            Some(items) => {
                if index < items.len() {
                    Some(&items[index])
                } else {
                    None
                }
            },
            None => None,
        }
    }

    /// The characters of a text.
    pub fn as_str(&self) -> (r: Option<&str>)
        ensures
            self@.text() == crate::text::opt_str(r),
    {
        match self {
            Json::Text(s) => Some(s.as_str()),
            _ => None,
        }
    }

    /// A text, or the text that a number prints as.
    pub fn scalar(&self) -> (r: Option<String>)
        ensures
            self@.scalar() == crate::text::opt_view(r),
    {
        match self {
            Json::Text(s) => Some(s.clone()),
            Json::Number(n) => Some(number_to_text(n)),
            _ => None,
        }
    }

    /// The value of a number that is a whole one within `u64`.
    pub fn as_u64(&self) -> (r: Option<u64>)
        ensures
            self@.whole() == match r {
                Some(n) => Some(n as nat),
                None => None,
            },
    {
        match self {
            Json::Number(n) => number_as_u64(n),
            _ => None,
        }
    }
}

/// Appends a member to a list of members.
pub fn put(members: &mut Vec<(String, Json)>, name: &str, value: Json)
    ensures
        pairs_of(*final(members)) == pairs_of(*old(members)).push((name@, value@)),
{
    members.push((name.to_owned(), value));
    assert(pairs_of(*members) =~= pairs_of(*old(members)).push((name@, value@)));
}

/// A document is taken apart into what it holds: a member is there exactly
/// where an object has it, an item exactly where an array is long enough, a
/// text and a number only from themselves.
pub proof fn documents_hold_their_parts(
    json: Json,
    name: &str,
    index: usize,
    member: Option<&Json>,
    items: Option<&Vec<Json>>,
    item: Option<&Json>,
    text: Option<&str>,
    scalar: Option<String>,
    number: Option<u64>,
)
    requires
        call_ensures(Json::get, (&json, name), member),
        call_ensures(Json::as_array, (&json,), items),
        call_ensures(Json::at, (&json, index), item),
        call_ensures(Json::as_str, (&json,), text),
        call_ensures(Json::scalar, (&json,), scalar),
        call_ensures(Json::as_u64, (&json,), number),
    ensures
        member is Some <==> json@ is Object && json@->Object_0.dom().contains(name@),
        member matches Some(it) ==> json@.has(name@, it@),
        items is Some <==> json@ is Array,
        items matches Some(list) ==> list@.len() == json@->Array_0.len() && forall|i: int|
            0 <= i < list@.len() ==> (#[trigger] list@[i])@ == json@->Array_0[i],
        item is Some <==> json@ is Array && index < json@->Array_0.len(),
        item matches Some(it) ==> it@ == json@->Array_0[index as int],
        text is Some <==> json@ is Text,
        text matches Some(s) ==> s@ == json@->Text_0,
        scalar is Some <==> json@ is Text || json@ is Number,
        scalar matches Some(s) ==> json@ == Tree::Text(s@) || json@ == Tree::Number(s@),
        number matches Some(n) ==> json@ is Number && all_digits(json@->Number_0) && digits_value(
            json@->Number_0,
        ) == n,
        number is None && json@ is Number ==> !all_digits(json@->Number_0) || digits_value(
            json@->Number_0,
        ) > 18446744073709551615,
{
    if let Some(list) = items {
        assert forall|i: int| 0 <= i < list@.len() implies (#[trigger] list@[i])@
            == json@->Array_0[i] by {
            assert(trees(*list)[i] == list@[i]@);
        }
    }
}

/// A member is what an object has under the name, and nothing else has any.
pub proof fn members_are_had(tree: Tree, name: Seq<char>, value: Tree)
    ensures
        tree.member(name) == Some(value) <==> tree.has(name, value),
        tree.member(name) is None <==> !(tree is Object && tree->Object_0.dom().contains(name)),
        tree.items() is Some <==> tree is Array,
        tree is Array ==> tree.items() == Some(tree->Array_0),
        tree.text() is Some <==> tree is Text,
        tree is Text ==> tree.text() == Some(tree->Text_0),
{
}

/// Documents that are built hold what they were built from, and a number is
/// written in decimal.
pub proof fn built_documents_hold_their_value(
    n: i64,
    m: u64,
    s: &str,
    signed: Json,
    unsigned: Json,
    text: Json,
)
    requires
        call_ensures(Json::integer, (n,), signed),
        call_ensures(Json::unsigned, (m,), unsigned),
        call_ensures(Json::string, (s,), text),
    ensures
        n >= 0 ==> signed@ == Tree::Number(crate::text::decimal(n as nat)),
        n < 0 ==> signed@ == Tree::Number(seq!['-'] + crate::text::decimal((-n) as nat)),
        unsigned@ == Tree::Number(crate::text::decimal(m as nat)),
        text@ == Tree::Text(s@),
{
}

/// What is read is what `serde_json` reads, and what is written is what it
/// writes of the same document.
pub proof fn texts_are_read_and_written(
    text: &str,
    bytes: &[u8],
    json: Json,
    read: Option<Json>,
    read_bytes: Option<Json>,
    written: String,
    indented: Option<String>,
)
    requires
        call_ensures(parse, (text,), read),
        call_ensures(parse_bytes, (bytes,), read_bytes),
        call_ensures(Json::render, (&json,), written),
        call_ensures(Json::render_pretty, (&json,), indented),
    ensures
        read is Some <==> parsed_text(text@) is Some,
        read matches Some(it) ==> parsed_text(text@) == Some(it@),
        read_bytes is Some <==> parsed_bytes(bytes@) is Some,
        read_bytes matches Some(it) ==> parsed_bytes(bytes@) == Some(it@),
        written@ == rendered(json@),
        indented is Some <==> pretty(json@) is Some,
        indented matches Some(it) ==> pretty(json@) == Some(it@),
{
}

} // verus!
