//! JSON values: what they say, how they are read from text and written as text.
//!
//! Reading a text, and writing a string with its escapes, are done by `serde_json`.
use crate::text;
use vstd::prelude::*;

verus! {

/// A JSON value. A number is kept as the text that writes it. No field of an
/// object that `serde_json` read stands twice; where one does, the first counts.
#[derive(Debug)]
pub enum Json {
    Null,
    Bool(bool),
    Number(String),
    Str(String),
    Array(Vec<Json>),
    Object(Vec<Field>),
}

/// A field of a JSON object.
#[derive(Debug)]
pub struct Field {
    pub name: String,
    pub value: Json,
}

/// What a JSON value says.
#[verifier::ext_equal]
pub enum Tree {
    Null,
    Bool(bool),
    Number(Seq<char>),
    Str(Seq<char>),
    Array(Seq<Tree>),
    Object(Seq<FieldTree>),
}

/// What a field of a JSON object says.
#[verifier::ext_equal]
pub struct FieldTree {
    pub name: Seq<char>,
    pub value: Tree,
}

impl View for Json {
    type V = Tree;

    open spec fn view(&self) -> Tree
        decreases self,
    {
        match self {
            Json::Null => Tree::Null,
            Json::Bool(b) => Tree::Bool(*b),
            Json::Number(n) => Tree::Number(n@),
            Json::Str(s) => Tree::Str(s@),
            Json::Array(items) => Tree::Array(
                Seq::new(
                    items@.len(),
                    |i: int|
                        if 0 <= i < items@.len() {
                            items@[i].view()
                        } else {
                            Tree::Null
                        },
                ),
            ),
            Json::Object(fields) => Tree::Object(
                Seq::new(
                    fields@.len(),
                    |i: int|
                        if 0 <= i < fields@.len() {
                            FieldTree { name: fields@[i].name@, value: fields@[i].value.view() }
                        } else {
                            FieldTree { name: Seq::empty(), value: Tree::Null }
                        },
                ),
            ),
        }
    }
}

/// What the values of a list say.
pub open spec fn trees(items: Seq<Json>) -> Seq<Tree> {
    items.map_values(|j: Json| j@)
}

/// What the fields of an object say.
pub open spec fn field_trees(fields: Seq<Field>) -> Seq<FieldTree> {
    fields.map_values(|f: Field| FieldTree { name: f.name@, value: f.value@ })
}

/// What a value says, where there is one.
pub open spec fn opt_tree(value: Option<Json>) -> Option<Tree> {
    match value {
        Some(j) => Some(j@),
        None => None,
    }
}

/// What an array says.
pub broadcast proof fn lemma_array_view(items: Vec<Json>)
    ensures
        #[trigger] Json::Array(items)@ == Tree::Array(trees(items@)),
{
    assert(Json::Array(items)@->Array_0 =~= trees(items@));
}

/// What an object says.
pub broadcast proof fn lemma_object_view(fields: Vec<Field>)
    ensures
        #[trigger] Json::Object(fields)@ == Tree::Object(field_trees(fields@)),
{
    assert(Json::Object(fields)@->Object_0 =~= field_trees(fields@));
}

/// `serde_json::Value`.
#[verifier::external_type_specification]
#[verifier::external_body]
pub struct ExValue(serde_json::Value);

/// What a `serde_json::Value` holds: its tree of arrays and objects, the fields
/// of an object in the order in which `serde_json::Map` hands them out, a number
/// as the text that `serde_json::Number` displays.
pub uninterp spec fn value_tree(value: serde_json::Value) -> Tree;

/// What `serde_json::from_str` reads in a text as a `serde_json::Value`; none
/// where it reports an error.
pub uninterp spec fn parsed(text: Seq<char>) -> Option<Tree>;

/// The outermost level of a `serde_json::Value`.
pub enum Node {
    Null,
    Bool(bool),
    Number(String),
    Str(String),
    Array(Vec<serde_json::Value>),
    Object(Vec<(String, serde_json::Value)>),
}

impl Node {
    /// What the value holds of which this is the outermost level.
    pub open spec fn tree(&self) -> Tree {
        match self {
            Node::Null => Tree::Null,
            Node::Bool(b) => Tree::Bool(*b),
            Node::Number(n) => Tree::Number(n@),
            Node::Str(s) => Tree::Str(s@),
            Node::Array(items) => Tree::Array(
                items@.map_values(|v: serde_json::Value| value_tree(v)),
            ),
            Node::Object(fields) => Tree::Object(
                fields@.map_values(|f: (String, serde_json::Value)| FieldTree { name: f.0@, value: value_tree(f.1) }),
            ),
        }
    }
}

/// `serde_json::from_str::<serde_json::Value>`. Whether the text is read, and
/// as what, depends on the text alone.
#[verifier::external_body]
fn parse_value(text: &str) -> (r: Option<serde_json::Value>)
    ensures
        match r {
            Some(v) => parsed(text@) == Some(value_tree(v)),
            None => parsed(text@) is None,
        },
{
    serde_json::from_str::<serde_json::Value>(text).ok()
}

/// Tells the variants of `serde_json::Value` apart and hands out what each
/// holds: the items of an array and the fields of an object, in their order, and
/// the text that `serde_json::Number` displays.
#[verifier::external_body]
fn open_value(value: serde_json::Value) -> (r: Node)
    ensures
        r.tree() == value_tree(value),
{
    match value {
        serde_json::Value::Null => Node::Null,
        serde_json::Value::Bool(b) => Node::Bool(b),
        serde_json::Value::Number(n) => Node::Number(n.to_string()),
        serde_json::Value::String(s) => Node::Str(s),
        serde_json::Value::Array(items) => Node::Array(items),
        serde_json::Value::Object(fields) => Node::Object(fields.into_iter().collect()),
    }
}

/// An item of an array is smaller than the array.
proof fn lemma_item_is_smaller(tree: Tree, i: int)
    requires
        tree is Array,
        0 <= i < tree->Array_0.len(),
    ensures
        decreases_to!(tree => tree->Array_0[i]),
{
    assert(decreases_to!(tree => tree->Array_0));
    assert(decreases_to!(tree->Array_0 => tree->Array_0[i]));
}

/// A field of an object is smaller than the object.
proof fn lemma_field_is_smaller(tree: Tree, i: int)
    requires
        tree is Object,
        0 <= i < tree->Object_0.len(),
    ensures
        decreases_to!(tree => tree->Object_0[i].value),
{
    assert(decreases_to!(tree => tree->Object_0));
    assert(decreases_to!(tree->Object_0 => tree->Object_0[i]));
    assert(decreases_to!(tree->Object_0[i] => tree->Object_0[i].value));
}

/// The value that a `serde_json::Value` holds.
pub fn from_value(value: serde_json::Value) -> (r: Json)
    ensures
        r@ == value_tree(value),
    decreases value_tree(value),
{
    broadcast use {lemma_array_view, lemma_object_view};

    let ghost tree = value_tree(value);
    match open_value(value) {
        Node::Null => Json::Null,
        Node::Bool(b) => Json::Bool(b),
        Node::Number(n) => Json::Number(n),
        Node::Str(s) => Json::Str(s),
        Node::Array(items) => {
            let mut out: Vec<Json> = Vec::new();
            for v in it: items
                invariant
                    tree == value_tree(value),
                    tree is Array,
                    tree->Array_0 == it.seq().map_values(|v: serde_json::Value| value_tree(v)),
                    trees(out@) == tree->Array_0.take(it.index()),
            {
                let ghost earlier = out@;
                assert(value_tree(v) == tree->Array_0[it.index()]);
                proof {
                    lemma_item_is_smaller(tree, it.index() as int);
                }
                let item = from_value(v);
                out.push(item);
                assert(trees(out@) == trees(earlier).push(item@));
            }
            assert(trees(out@) =~= tree->Array_0);
            Json::Array(out)
        },
        Node::Object(fields) => {
            let mut out: Vec<Field> = Vec::new();
            for f in it: fields
                invariant
                    tree == value_tree(value),
                    tree is Object,
                    tree->Object_0 == it.seq().map_values(
                        |f: (String, serde_json::Value)| FieldTree { name: f.0@, value: value_tree(f.1) },
                    ),
                    field_trees(out@) == tree->Object_0.take(it.index()),
            {
                let ghost earlier = out@;
                let (name, v) = f;
                assert(tree->Object_0[it.index()] == (FieldTree { name: name@, value: value_tree(v) }));
                proof {
                    lemma_field_is_smaller(tree, it.index() as int);
                }
                let item = from_value(v);
                out.push(Field { name, value: item });
                assert(field_trees(out@) == field_trees(earlier).push(
                    FieldTree { name: name@, value: item@ },
                ));
            }
            assert(field_trees(out@) =~= tree->Object_0);
            Json::Object(out)
        },
    }
}

/// The value that a text writes, if it writes one.
pub fn parse(text: &str) -> (r: Option<Json>)
    ensures
        opt_tree(r) == parsed(text@),
{
    match parse_value(text) {
        Some(v) => Some(from_value(v)),
        None => None,
    }
}

/// The small hexadecimal digit of `d`.
pub open spec fn hex_digit(d: int) -> char {
    if d < 10 {
        (0x30 + d) as char
    } else {
        (0x57 + d) as char
    }
}

/// A character as it stands in a JSON string: the quotation mark, the reverse
/// solidus and the control characters below the space are escaped.
pub open spec fn escape(c: char) -> Seq<char> {
    let u = c as u32;
    if u == 0x22 {
        seq!['\\', '"']
    } else if u == 0x5c {
        seq!['\\', '\\']
    } else if u == 0x8 {
        seq!['\\', 'b']
    } else if u == 0x9 {
        seq!['\\', 't']
    } else if u == 0xa {
        seq!['\\', 'n']
    } else if u == 0xc {
        seq!['\\', 'f']
    } else if u == 0xd {
        seq!['\\', 'r']
    } else if u < 0x20 {
        seq!['\\', 'u', '0', '0', hex_digit((u / 16) as int), hex_digit((u % 16) as int)]
    } else {
        seq![c]
    }
}

/// The characters of `s` as they stand in a JSON string.
pub open spec fn escaped(s: Seq<char>) -> Seq<char>
    decreases s.len(),
{
    if s.len() == 0 {
        Seq::empty()
    } else {
        escaped(s.drop_last()) + escape(s.last())
    }
}

/// `s` as a JSON string.
pub open spec fn quoted(s: Seq<char>) -> Seq<char> {
    seq!['"'] + escaped(s) + seq!['"']
}

/// `serde_json::to_string` of a string: the string between quotation marks,
/// with the escapes of the table in `serde_json`'s serializer.
#[verifier::external_body]
fn quote(s: &str) -> (r: String)
    ensures
        r@ == quoted(s@),
{
    serde_json::to_string(s).unwrap()
}

/// What is written for a JSON value, with no white space between its parts.
pub open spec fn written(tree: Tree) -> Seq<char>
    decreases tree, 0nat,
{
    match tree {
        Tree::Null => "null"@,
        Tree::Bool(true) => "true"@,
        Tree::Bool(false) => "false"@,
        Tree::Number(n) => n,
        Tree::Str(s) => quoted(s),
        Tree::Array(items) => seq!['['] + written_items(items, items.len()) + seq![']'],
        Tree::Object(fields) => seq!['{'] + written_fields(fields, fields.len()) + seq!['}'],
    }
}

/// What is written for the first `n` of `items`.
pub open spec fn written_items(items: Seq<Tree>, n: nat) -> Seq<char>
    decreases items, n,
{
    if n == 0 || n > items.len() {
        Seq::empty()
    } else if n == 1 {
        written(items[0])
    } else {
        written_items(items, (n - 1) as nat) + seq![','] + written(items[n - 1])
    }
}

/// What is written for the first `n` of `fields`.
pub open spec fn written_fields(fields: Seq<FieldTree>, n: nat) -> Seq<char>
    decreases fields, n,
{
    if n == 0 || n > fields.len() {
        Seq::empty()
    } else if n == 1 {
        quoted(fields[0].name) + seq![':'] + written(fields[0].value)
    } else {
        written_fields(fields, (n - 1) as nat) + seq![','] + (quoted(fields[n - 1].name) + seq![':']
            + written(fields[n - 1].value))
    }
}

impl Json {
    /// The text that writes this value.
    pub fn to_text(&self) -> (r: String)
        ensures
            r@ == written(self@),
        decreases self,
    {
        match self {
            Json::Null => "null".to_owned(),
            Json::Bool(true) => "true".to_owned(),
            Json::Bool(false) => "false".to_owned(),
            Json::Number(n) => n.clone(),
            Json::Str(s) => quote(s.as_str()),
            Json::Array(items) => {
                let ghost all = self@->Array_0;
                let mut inner = String::new();
                let mut i: usize = 0;
                while i < items.len()
                    invariant
                        self@ is Array,
                        *self == Json::Array(*items),
                        all == self@->Array_0,
                        i <= items@.len(),
                        all.len() == items@.len(),
                        inner@ == written_items(all, i as nat),
                    decreases items@.len() - i,
                {
                    assert(all[i as int] == items@[i as int]@);
                    proof {
                        lemma_array_item_is_smaller(*self, *items, i as int);
                    }
                    let item = items[i].to_text();
                    if i > 0 {
                        inner.push(',');
                    }
                    let ghost before = inner@;
                    inner.append(item.as_str());
                    assert(inner@ == written_items(all, (i + 1) as nat));
                    i = i + 1;
                }
                let mut out = String::new();
                out.push('[');
                out.append(inner.as_str());
                out.push(']');
                assert(out@ == seq!['['] + written_items(all, all.len()) + seq![']']);
                out
            },
            Json::Object(fields) => {
                let ghost all = self@->Object_0;
                let mut inner = String::new();
                let mut i: usize = 0;
                while i < fields.len()
                    invariant
                        self@ is Object,
                        *self == Json::Object(*fields),
                        all == self@->Object_0,
                        i <= fields@.len(),
                        all.len() == fields@.len(),
                        inner@ == written_fields(all, i as nat),
                    decreases fields@.len() - i,
                {
                    assert(all[i as int].name == fields@[i as int].name@);
                    assert(all[i as int].value == fields@[i as int].value@);
                    proof {
                        lemma_object_field_is_smaller(*self, *fields, i as int);
                    }
                    let mut field = quote(fields[i].name.as_str());
                    field.push(':');
                    let value = fields[i].value.to_text();
                    field.append(value.as_str());
                    assert(field@ == quoted(all[i as int].name) + seq![':'] + written(
                        all[i as int].value,
                    ));
                    if i > 0 {
                        inner.push(',');
                    }
                    inner.append(field.as_str());
                    assert(inner@ == written_fields(all, (i + 1) as nat));
                    i = i + 1;
                }
                let mut out = String::new();
                out.push('{');
                out.append(inner.as_str());
                out.push('}');
                assert(out@ == seq!['{'] + written_fields(all, all.len()) + seq!['}']);
                out
            },
        }
    }

    /// A value that says the same.
    pub fn copy(&self) -> (r: Json)
        ensures
            r@ == self@,
        decreases self,
    {
        broadcast use {lemma_array_view, lemma_object_view};

        match self {
            Json::Null => Json::Null,
            Json::Bool(b) => Json::Bool(*b),
            Json::Number(n) => Json::Number(n.clone()),
            Json::Str(s) => Json::Str(s.clone()),
            Json::Array(items) => {
                let mut out: Vec<Json> = Vec::new();
                let mut i: usize = 0;
                while i < items.len()
                    invariant
                        *self == Json::Array(*items),
                        i <= items@.len(),
                        trees(out@) == trees(items@).take(i as int),
                    decreases items@.len() - i,
                {
                    proof {
                        lemma_array_item_is_smaller(*self, *items, i as int);
                    }
                    let ghost earlier = out@;
                    let item = items[i].copy();
                    out.push(item);
                    assert(trees(out@) == trees(earlier).push(item@));
                    i = i + 1;
                }
                assert(trees(items@).take(i as int) == trees(items@));
                Json::Array(out)
            },
            Json::Object(fields) => {
                let mut out: Vec<Field> = Vec::new();
                let mut i: usize = 0;
                while i < fields.len()
                    invariant
                        *self == Json::Object(*fields),
                        i <= fields@.len(),
                        field_trees(out@) == field_trees(fields@).take(i as int),
                    decreases fields@.len() - i,
                {
                    proof {
                        lemma_object_field_is_smaller(*self, *fields, i as int);
                    }
                    let ghost earlier = out@;
                    let name = fields[i].name.clone();
                    let value = fields[i].value.copy();
                    out.push(Field { name, value });
                    assert(field_trees(out@) == field_trees(earlier).push(
                        FieldTree { name: name@, value: value@ },
                    ));
                    i = i + 1;
                }
                assert(field_trees(fields@).take(i as int) == field_trees(fields@));
                Json::Object(out)
            },
        }
    }
}

/// An item of an array is smaller than the array.
proof fn lemma_array_item_is_smaller(value: Json, items: Vec<Json>, i: int)
    requires
        value == Json::Array(items),
        0 <= i < items@.len(),
    ensures
        decreases_to!(value => items@[i]),
{
    assert(decreases_to!(value => value->Array_0));
    assert(decreases_to!(value->Array_0 => value->Array_0@));
    assert(decreases_to!(value->Array_0@ => value->Array_0@[i]));
}

/// A field of an object is smaller than the object.
proof fn lemma_object_field_is_smaller(value: Json, fields: Vec<Field>, i: int)
    requires
        value == Json::Object(fields),
        0 <= i < fields@.len(),
    ensures
        decreases_to!(value => fields@[i].value),
{
    assert(decreases_to!(value => value->Object_0));
    assert(decreases_to!(value->Object_0 => value->Object_0@));
    assert(decreases_to!(value->Object_0@ => value->Object_0@[i]));
    assert(decreases_to!(value->Object_0@[i] => value->Object_0@[i].value));
}

/// The value of the first field of that name.
pub open spec fn lookup(fields: Seq<FieldTree>, name: Seq<char>) -> Option<Tree>
    decreases fields.len(),
{
    if fields.len() == 0 {
        None
    } else if fields[0].name == name {
        Some(fields[0].value)
    } else {
        lookup(fields.drop_first(), name)
    }
}

impl Tree {
    /// The field of that name, where this is an object that has one.
    pub open spec fn get(self, name: Seq<char>) -> Option<Tree> {
        match self {
            Tree::Object(fields) => lookup(fields, name),
            _ => None,
        }
    }

    /// The item at that place, where this is an array that has one.
    pub open spec fn item(self, i: int) -> Option<Tree> {
        match self {
            Tree::Array(items) => if 0 <= i < items.len() {
                Some(items[i])
            } else {
                None
            },
            _ => None,
        }
    }

    /// What this says, where it is a string.
    pub open spec fn as_str(self) -> Option<Seq<char>> {
        match self {
            Tree::Str(s) => Some(s),
            _ => None,
        }
    }

    /// What this says, where it is a truth value.
    pub open spec fn as_bool(self) -> Option<bool> {
        match self {
            Tree::Bool(b) => Some(b),
            _ => None,
        }
    }

    /// What the field of that name says, where it is a string.
    pub open spec fn get_str(self, name: Seq<char>) -> Option<Seq<char>> {
        match self.get(name) {
            Some(t) => t.as_str(),
            None => None,
        }
    }
}

impl Json {
    /// The field of that name, where this is an object that has one.
    pub fn get(&self, name: &str) -> (r: Option<&Json>)
        ensures
            match r {
                Some(j) => self@.get(name@) == Some(j@),
                None => self@.get(name@) is None,
            },
    {
        match self {
            Json::Object(fields) => {
                proof {
                    lemma_object_view(*fields);
                }
                let ghost all = field_trees(fields@);
                let mut i: usize = 0;
                assert(all.skip(0) == all);
                while i < fields.len()
                    invariant
                        self@ == Tree::Object(all),
                        all == field_trees(fields@),
                        i <= fields@.len(),
                        lookup(all, name@) == lookup(all.skip(i as int), name@),
                    decreases fields@.len() - i,
                {
                    assert(all.skip(i as int)[0] == all[i as int]);
                    assert(all.skip(i as int).drop_first() == all.skip(i + 1));
                    if text::same(fields[i].name.as_str(), name) {
                        return Some(&fields[i].value);
                    }
                    i = i + 1;
                }
                None
            },
            _ => None,
        }
    }

    /// The item at that place, where this is an array that has one.
    pub fn item(&self, i: usize) -> (r: Option<&Json>)
        ensures
            match r {
                Some(j) => self@.item(i as int) == Some(j@),
                None => self@.item(i as int) is None,
            },
    {
        match self {
            Json::Array(items) => if i < items.len() {
                Some(&items[i])
            } else {
                None
            },
            _ => None,
        }
    }

    /// What this says, where it is a string.
    pub fn as_str(&self) -> (r: Option<&str>)
        ensures
            match r {
                Some(s) => self@.as_str() == Some(s@),
                None => self@.as_str() is None,
            },
    {
        match self {
            Json::Str(s) => Some(s.as_str()),
            _ => None,
        }
    }

    /// What this says, where it is a truth value.
    pub fn as_bool(&self) -> (r: Option<bool>)
        ensures
            r == self@.as_bool(),
    {
        match self {
            Json::Bool(b) => Some(*b),
            _ => None,
        }
    }

    /// What the field of that name says, where it is a string.
    pub fn get_str(&self, name: &str) -> (r: Option<&str>)
        ensures
            match r {
                Some(s) => self@.get_str(name@) == Some(s@),
                None => self@.get_str(name@) is None,
            },
    {
        match self.get(name) {
            Some(j) => j.as_str(),
            None => None,
        }
    }
}

/// A string.
pub open spec fn str_tree(s: Seq<char>) -> Tree {
    Tree::Str(s)
}

/// A number.
pub open spec fn int_tree(n: int) -> Tree {
    Tree::Number(int_text(n))
}

/// `n` written in decimal, after a minus sign where it is negative.
pub open spec fn int_text(n: int) -> Seq<char> {
    if n < 0 {
        seq!['-'] + text::decimal((-n) as nat)
    } else {
        text::decimal(n as nat)
    }
}

/// A field.
pub open spec fn field_tree(name: Seq<char>, value: Tree) -> FieldTree {
    FieldTree { name, value }
}

/// A string.
pub fn string(s: &str) -> (r: Json)
    ensures
        r@ == str_tree(s@),
{
    Json::Str(s.to_owned())
}

/// A number.
pub fn number(n: u64) -> (r: Json)
    ensures
        r@ == int_tree(n as int),
{
    Json::Number(text::decimal_text(n))
}

/// A number.
pub fn integer(n: i64) -> (r: Json)
    ensures
        r@ == int_tree(n as int),
{
    if n >= 0 {
        return number(n as u64);
    }
    let m: u64 = if n == i64::MIN {
        0x8000_0000_0000_0000
    } else {
        (-n) as u64
    };
    let mut out = String::new();
    out.push('-');
    out.append(text::decimal_text(m).as_str());
    assert(out@ == seq!['-'] + text::decimal((-n) as nat));
    Json::Number(out)
}

/// A field.
pub fn field(name: &str, value: Json) -> (r: Field)
    ensures
        r.name@ == name@,
        r.value == value,
{
    Field { name: name.to_owned(), value }
}

/// An object.
pub fn object(fields: Vec<Field>) -> (r: Json)
    ensures
        r@ == Tree::Object(field_trees(fields@)),
{
    proof {
        lemma_object_view(fields);
    }
    Json::Object(fields)
}

/// An array.
pub fn array(items: Vec<Json>) -> (r: Json)
    ensures
        r@ == Tree::Array(trees(items@)),
{
    proof {
        lemma_array_view(items);
    }
    Json::Array(items)
}

/// A field, where there is a value for it.
pub open spec fn opt_field(name: Seq<char>, value: Option<Tree>) -> Seq<FieldTree> {
    match value {
        Some(v) => seq![field_tree(name, v)],
        None => Seq::empty(),
    }
}

/// The same value, where there is one.
pub fn copy_opt(value: &Option<Json>) -> (r: Option<Json>)
    ensures
        opt_tree(r) == opt_tree(*value),
{
    match value {
        Some(v) => Some(v.copy()),
        None => None,
    }
}

/// The same values.
pub fn copy_items(items: &Vec<Json>) -> (r: Vec<Json>)
    ensures
        trees(r@) == trees(items@),
{
    let mut out: Vec<Json> = Vec::new();
    let mut i: usize = 0;
    while i < items.len()
        invariant
            i <= items@.len(),
            trees(out@) == trees(items@).take(i as int),
        decreases items@.len() - i,
    {
        let ghost earlier = out@;
        let next = items[i].copy();
        out.push(next);
        assert(trees(out@) == trees(earlier).push(next@));
        i = i + 1;
    }
    assert(trees(items@).take(i as int) == trees(items@));
    out
}

/// Whether a text stands on one line.
pub open spec fn on_one_line(s: Seq<char>) -> bool {
    forall|i: int| 0 <= i < s.len() ==> #[trigger] s[i] != '\n'
}

proof fn lemma_quoted_stands_on_one_line(s: Seq<char>)
    ensures
        on_one_line(escaped(s)),
        on_one_line(quoted(s)),
    decreases s.len(),
{
    if s.len() > 0 {
        lemma_quoted_stands_on_one_line(s.drop_last());
        assert(on_one_line(escape(s.last())));
    }
}

proof fn lemma_decimal_stands_on_one_line(n: nat)
    ensures
        on_one_line(text::decimal(n)),
    decreases n,
{
    if n >= 10 {
        lemma_decimal_stands_on_one_line(n / 10);
    }
}

/// A string, a number, a truth value or null is written on one line.
pub proof fn lemma_leaf_stands_on_one_line(tree: Tree)
    requires
        tree is Null || tree is Bool || tree is Str || exists|n: int| tree == #[trigger] int_tree(n),
    ensures
        on_one_line(written(tree)),
{
    reveal_strlit("null");
    reveal_strlit("true");
    reveal_strlit("false");
    match tree {
        Tree::Str(s) => lemma_quoted_stands_on_one_line(s),
        Tree::Number(_) => {
            let n = choose|n: int| tree == #[trigger] int_tree(n);
            lemma_decimal_stands_on_one_line(
                if n < 0 {
                    (-n) as nat
                } else {
                    n as nat
                },
            );
        },
        _ => {},
    }
}

proof fn lemma_fields_stand_on_one_line(fields: Seq<FieldTree>, n: nat)
    requires
        forall|i: int|
            0 <= i < fields.len() ==> on_one_line(written((#[trigger] fields[i]).value)),
    ensures
        on_one_line(written_fields(fields, n)),
    decreases n,
{
    if 0 < n <= fields.len() {
        lemma_quoted_stands_on_one_line(fields[n - 1].name);
        lemma_fields_stand_on_one_line(fields, (n - 1) as nat);
        assert(on_one_line(written(fields[n - 1].value)));
    }
}

/// An object is written on one line where the values of its fields are.
pub proof fn lemma_object_stands_on_one_line(fields: Seq<FieldTree>)
    requires
        forall|i: int|
            0 <= i < fields.len() ==> on_one_line(written((#[trigger] fields[i]).value)),
    ensures
        on_one_line(written(Tree::Object(fields))),
{
    lemma_fields_stand_on_one_line(fields, fields.len());
}

/// A field of an object is found by its name, where no field before it has the name.
pub proof fn law_fields_are_found_by_name(fields: Seq<FieldTree>, i: int)
    requires
        0 <= i < fields.len(),
        forall|j: int| 0 <= j < i ==> (#[trigger] fields[j]).name != fields[i].name,
    ensures
        Tree::Object(fields).get(fields[i].name) == Some(fields[i].value),
    decreases i,
{
    if i > 0 {
        let rest = fields.drop_first();
        assert(fields[0].name != fields[i].name);
        assert(rest[i - 1] == fields[i]);
        assert forall|j: int| 0 <= j < i - 1 implies (#[trigger] rest[j]).name != rest[i
            - 1].name by {
            assert(fields[j + 1].name != fields[i].name);
        }
        law_fields_are_found_by_name(rest, i - 1);
    }
}

/// A name that no field of an object has finds nothing.
pub proof fn law_missing_fields_are_not_found(fields: Seq<FieldTree>, name: Seq<char>)
    requires
        forall|j: int| 0 <= j < fields.len() ==> (#[trigger] fields[j]).name != name,
    ensures
        Tree::Object(fields).get(name) is None,
        Tree::Object(fields).get_str(name) is None,
    decreases fields.len(),
{
    if fields.len() > 0 {
        assert(fields[0].name != name);
        let rest = fields.drop_first();
        assert forall|j: int| 0 <= j < rest.len() implies (#[trigger] rest[j]).name != name by {
            assert(fields[j + 1].name != name);
        }
        law_missing_fields_are_not_found(rest, name);
    }
}

/// What is no object has no fields, and what is no array no items.
pub proof fn law_only_objects_and_arrays_hold_others(
    items: Seq<Tree>,
    fields: Seq<FieldTree>,
    s: Seq<char>,
    i: int,
)
    ensures
        0 <= i < items.len() ==> Tree::Array(items).item(i) == Some(items[i]),
        !(0 <= i < items.len()) ==> Tree::Array(items).item(i) is None,
        Tree::Object(fields).item(i) is None,
        Tree::Array(items).get(s) is None,
        Tree::Str(s).get(s) is None,
        Tree::Str(s).item(i) is None,
        Tree::Str(s).as_str() == Some(s),
        Tree::Array(items).as_str() is None,
        Tree::Object(fields).as_str() is None,
        Tree::Null.as_str() is None,
        Tree::Number(s).as_str() is None,
        Tree::Bool(true).as_bool() == Some(true),
        Tree::Bool(false).as_bool() == Some(false),
        Tree::Str(s).as_bool() is None,
{
}

proof fn lemma_written_items_of_more(items: Seq<Tree>, more: Seq<Tree>, n: nat)
    requires
        n <= items.len() <= more.len(),
        forall|i: int| 0 <= i < items.len() ==> #[trigger] items[i] == more[i],
    ensures
        written_items(items, n) == written_items(more, n),
    decreases n,
{
    if n > 0 {
        lemma_written_items_of_more(items, more, (n - 1) as nat);
        assert(items[n - 1] == more[n - 1]);
        assert(items[0] == more[0]);
    }
}

proof fn lemma_written_fields_of_more(fields: Seq<FieldTree>, more: Seq<FieldTree>, n: nat)
    requires
        n <= fields.len() <= more.len(),
        forall|i: int| 0 <= i < fields.len() ==> #[trigger] fields[i] == more[i],
    ensures
        written_fields(fields, n) == written_fields(more, n),
    decreases n,
{
    if n > 0 {
        lemma_written_fields_of_more(fields, more, (n - 1) as nat);
        assert(fields[n - 1] == more[n - 1]);
        assert(fields[0] == more[0]);
    }
}

/// An array is written item by item: one more item comes behind a comma, before the bracket
/// that closes the array.
pub proof fn law_arrays_are_written_item_by_item(items: Seq<Tree>, item: Tree)
    ensures
        written(Tree::Array(Seq::empty())) == seq!['[', ']'],
        written(Tree::Array(seq![item])) == seq!['['] + written(item) + seq![']'],
        items.len() > 0 ==> written(Tree::Array(items.push(item))) == written(
            Tree::Array(items),
        ).drop_last() + seq![','] + written(item) + seq![']'],
{
    assert(written(Tree::Array(Seq::empty())) =~= seq!['[', ']']);
    if items.len() > 0 {
        lemma_written_items_of_more(items, items.push(item), items.len());
        assert(written(Tree::Array(items.push(item))) =~= written(Tree::Array(items)).drop_last()
            + seq![','] + written(item) + seq![']']);
    }
}

/// An object is written field by field: one more field comes behind a comma, its name as a
/// string, a colon and its value, before the brace that closes the object.
pub proof fn law_objects_are_written_field_by_field(
    fields: Seq<FieldTree>,
    name: Seq<char>,
    value: Tree,
)
    ensures
        written(Tree::Object(Seq::empty())) == seq!['{', '}'],
        written(Tree::Object(seq![FieldTree { name, value }])) == seq!['{'] + written(
            Tree::Str(name),
        ) + seq![':'] + written(value) + seq!['}'],
        fields.len() > 0 ==> written(Tree::Object(fields.push(FieldTree { name, value })))
            == written(Tree::Object(fields)).drop_last() + seq![','] + written(Tree::Str(name))
            + seq![':'] + written(value) + seq!['}'],
{
    let field = FieldTree { name, value };
    assert(written(Tree::Object(Seq::empty())) =~= seq!['{', '}']);
    assert(written(Tree::Object(seq![field])) =~= seq!['{'] + written(Tree::Str(name)) + seq![':']
        + written(value) + seq!['}']);
    if fields.len() > 0 {
        lemma_written_fields_of_more(fields, fields.push(field), fields.len());
        assert(written(Tree::Object(fields.push(field))) =~= written(
            Tree::Object(fields),
        ).drop_last() + seq![','] + written(Tree::Str(name)) + seq![':'] + written(value)
            + seq!['}']);
    }
}

/// What is neither an array nor an object is written by its own name, a number by its digits.
pub proof fn law_plain_values_are_written_as_they_are(n: nat)
    ensures
        written(Tree::Null) == seq!['n', 'u', 'l', 'l'],
        written(Tree::Bool(true)) == seq!['t', 'r', 'u', 'e'],
        written(Tree::Bool(false)) == seq!['f', 'a', 'l', 's', 'e'],
        written(int_tree(n as int)) == text::decimal(n),
        n > 0 ==> written(int_tree(-(n as int))) == seq!['-'] + text::decimal(n),
{
    reveal_strlit("null");
    reveal_strlit("true");
    reveal_strlit("false");
    assert(written(Tree::Null) =~= seq!['n', 'u', 'l', 'l']);
    assert(written(Tree::Bool(true)) =~= seq!['t', 'r', 'u', 'e']);
    assert(written(Tree::Bool(false)) =~= seq!['f', 'a', 'l', 's', 'e']);
}

proof fn lemma_escaped_of_both(a: Seq<char>, b: Seq<char>)
    ensures
        escaped(a + b) == escaped(a) + escaped(b),
    decreases b.len(),
{
    if b.len() == 0 {
        assert(a + b =~= a);
        assert(escaped(a) + escaped(b) =~= escaped(a));
    } else {
        lemma_escaped_of_both(a, b.drop_last());
        assert((a + b).drop_last() =~= a + b.drop_last());
        assert(escaped(a + b) =~= escaped(a) + escaped(b));
    }
}

/// A string is written between quotation marks, its beginning before its end.
pub proof fn law_strings_are_written_piece_by_piece(a: Seq<char>, b: Seq<char>)
    ensures
        written(Tree::Str(Seq::empty())) == seq!['"', '"'],
        written(Tree::Str(a + b)) == written(Tree::Str(a)).drop_last() + written(
            Tree::Str(b),
        ).drop_first(),
{
    assert(written(Tree::Str(Seq::empty())) =~= seq!['"', '"']);
    lemma_escaped_of_both(a, b);
    assert(written(Tree::Str(a + b)) =~= written(Tree::Str(a)).drop_last() + written(
        Tree::Str(b),
    ).drop_first());
}

/// A character that is neither a control character, a quotation mark nor a reverse solidus
/// stands for itself in a string, and the marks and line breaks are written behind a reverse
/// solidus.
pub proof fn law_characters_stand_for_themselves_in_strings(c: char)
    ensures
        c as u32 >= 0x20 && c != '"' && c != '\\' ==> written(Tree::Str(seq![c])) == seq![
            '"',
            c,
            '"',
        ],
        written(Tree::Str(seq!['"'])) == seq!['"', '\\', '"', '"'],
        written(Tree::Str(seq!['\\'])) == seq!['"', '\\', '\\', '"'],
        written(Tree::Str(seq!['\n'])) == seq!['"', '\\', 'n', '"'],
        written(Tree::Str(seq!['\r'])) == seq!['"', '\\', 'r', '"'],
        written(Tree::Str(seq!['\t'])) == seq!['"', '\\', 't', '"'],
{
    lemma_written_of_one(c);
    lemma_written_of_one('"');
    lemma_written_of_one('\\');
    lemma_written_of_one('\n');
    lemma_written_of_one('\r');
    lemma_written_of_one('\t');
}

proof fn lemma_written_of_one(c: char)
    ensures
        written(Tree::Str(seq![c])) == seq!['"'] + escape(c) + seq!['"'],
        forall|d: char| seq!['"'] + seq![d] + seq!['"'] == #[trigger] seq!['"', d, '"'],
        forall|d: char, e: char|
            seq!['"'] + seq![d, e] + seq!['"'] == #[trigger] seq!['"', d, e, '"'],
{
    assert(seq![c].drop_last() =~= Seq::<char>::empty());
    assert(escaped(seq![c]) =~= escape(c)) by {
        assert(escaped(Seq::<char>::empty()) == Seq::<char>::empty());
    }
    assert forall|d: char| seq!['"'] + seq![d] + seq!['"'] == #[trigger] seq!['"', d, '"'] by {
        assert(seq!['"'] + seq![d] + seq!['"'] =~= seq!['"', d, '"']);
    }
    assert forall|d: char, e: char| seq!['"'] + seq![d, e] + seq!['"'] == #[trigger] seq![
        '"',
        d,
        e,
        '"',
    ] by {
        assert(seq!['"'] + seq![d, e] + seq!['"'] =~= seq!['"', d, e, '"']);
    }
}

} // verus!
