//! The delta format: `{"ops": [{"insert": "...", "attributes": {"bold": true}}]}`.
//!
//! A delta is an object whose member `ops` is an array of operations. An
//! operation is an object with a member `insert` that is a string, and
//! optionally a member `attributes`: an object whose members `bold` and
//! `italic`, where present, are booleans. A missing or `null` `attributes`,
//! `bold` or `italic` counts as `false`. Members of other names are ignored.

use crate::json::{member, text_tree, Json, JsonView};
use crate::numerals::{numeral, push_numeral};
use vstd::prelude::*;

verus! {

/// One insert operation: a text and its two style flags.
#[derive(Debug, Clone, PartialEq, Eq)]
pub struct DeltaOp {
    pub insert: String,
    pub bold: bool,
    pub italic: bool,
}

/// The mathematical value of a [`DeltaOp`].
pub struct DeltaOpView {
    pub insert: Seq<char>,
    pub bold: bool,
    pub italic: bool,
}

impl View for DeltaOp {
    type V = DeltaOpView;

    open spec fn view(&self) -> DeltaOpView {
        DeltaOpView { insert: self.insert@, bold: self.bold, italic: self.italic }
    }
}

/// The values of a vector of operations, in order.
pub open spec fn ops_view(ops: Seq<DeltaOp>) -> Seq<DeltaOpView> {
    Seq::new(ops.len(), |i: int| ops[i]@)
}

/// One of the two style flags.
#[derive(Debug, Clone, Copy, PartialEq, Eq)]
pub enum Flag {
    Bold,
    Italic,
}

/// What is wrong with one operation.
#[derive(Debug, Clone, Copy, PartialEq, Eq)]
pub enum OpFault {
    /// The operation is no object.
    NotAnObject,
    /// The operation has no member `insert`.
    MissingInsert,
    /// `insert` is no string.
    InsertNotText,
    /// `attributes` is neither an object nor `null`.
    AttributesNotAnObject,
    /// The flag is neither a boolean nor `null`.
    FlagNotBool(Flag),
}

/// Why a text is no delta.
pub enum Fault {
    /// The text is not JSON.
    Syntax,
    /// The JSON value is no object.
    NotAnObject,
    /// The object has no member `ops`.
    MissingOps,
    /// `ops` is no array.
    OpsNotAnArray,
    /// The operation at `index` is the first unusable one.
    Op { index: nat, fault: OpFault },
}

/// The error of a text that is no delta. Its value is the [`Fault`]; the
/// message of `Syntax` is the JSON reader's and is not part of the value.
#[derive(Debug, Clone, PartialEq, Eq)]
pub enum ParseError {
    Syntax { message: String },
    NotAnObject,
    MissingOps,
    OpsNotAnArray,
    Op { index: usize, fault: OpFault },
}

impl View for ParseError {
    type V = Fault;

    open spec fn view(&self) -> Fault {
        match self {
            ParseError::Syntax { .. } => Fault::Syntax,
            ParseError::NotAnObject => Fault::NotAnObject,
            ParseError::MissingOps => Fault::MissingOps,
            ParseError::OpsNotAnArray => Fault::OpsNotAnArray,
            ParseError::Op { index, fault } => Fault::Op { index: *index as nat, fault: *fault },
        }
    }
}

/// What is wrong with an operation, in words.
pub open spec fn op_fault_text(fault: OpFault) -> Seq<char> {
    match fault {
        OpFault::NotAnObject => "not an object"@,
        OpFault::MissingInsert => "missing field `insert`"@,
        OpFault::InsertNotText => "`insert` is not a string"@,
        OpFault::AttributesNotAnObject => "`attributes` is not an object"@,
        OpFault::FlagNotBool(Flag::Bold) => "`bold` is not a boolean"@,
        OpFault::FlagNotBool(Flag::Italic) => "`italic` is not a boolean"@,
    }
}

/// The diagnostic message of an error: the JSON reader's words for a text
/// that is not JSON, else a sentence that names what is wrong and, for an
/// operation, its place counted from zero.
pub open spec fn message_of(error: ParseError) -> Seq<char> {
    match error {
        ParseError::Syntax { message } => message@,
        ParseError::NotAnObject => "the delta is not an object"@,
        ParseError::MissingOps => "missing field `ops`"@,
        ParseError::OpsNotAnArray => "`ops` is not an array"@,
        ParseError::Op { index, fault } => "operation "@ + numeral(index as nat, 10) + ": "@
            + op_fault_text(fault),
    }
}

impl OpFault {
    /// What is wrong, in words.
    pub fn text(&self) -> (text: &'static str)
        ensures
            text@ == op_fault_text(*self),
    {
        match self {
            OpFault::NotAnObject => "not an object",
            OpFault::MissingInsert => "missing field `insert`",
            OpFault::InsertNotText => "`insert` is not a string",
            OpFault::AttributesNotAnObject => "`attributes` is not an object",
            OpFault::FlagNotBool(Flag::Bold) => "`bold` is not a boolean",
            OpFault::FlagNotBool(Flag::Italic) => "`italic` is not a boolean",
        }
    }
}

impl ParseError {
    /// The diagnostic message.
    pub fn message(&self) -> (text: String)
        ensures
            text@ == message_of(*self),
    {
        match self {
            ParseError::Syntax { message } => message.clone(),
            ParseError::NotAnObject => "the delta is not an object".to_owned(),
            ParseError::MissingOps => "missing field `ops`".to_owned(),
            ParseError::OpsNotAnArray => "`ops` is not an array".to_owned(),
            ParseError::Op { index, fault } => {
                let mut text = "operation ".to_owned();
                push_numeral(&mut text, *index as u128, 10);
                text.append(": ");
                text.append(fault.text());
                text
            },
        }
    }
}

/// The flag named `name` among the members of an `attributes` object:
/// `false` where it is missing or `null`, `None` where it is no boolean.
pub open spec fn flag_of(attributes: Seq<(Seq<char>, JsonView)>, name: Seq<char>) -> Option<bool> {
    match member(attributes, name) {
        None => Some(false),
        Some(JsonView::Null) => Some(false),
        Some(JsonView::Bool(b)) => Some(b),
        Some(_) => None,
    }
}

/// The two flags of an operation with the member `attributes`, if any.
pub open spec fn flags_of(attributes: Option<JsonView>) -> Result<(bool, bool), OpFault> {
    match attributes {
        None => Ok((false, false)),
        Some(JsonView::Null) => Ok((false, false)),
        Some(JsonView::Object(members)) => match flag_of(members, "bold"@) {
            None => Err(OpFault::FlagNotBool(Flag::Bold)),
            Some(bold) => match flag_of(members, "italic"@) {
                None => Err(OpFault::FlagNotBool(Flag::Italic)),
                Some(italic) => Ok((bold, italic)),
            },
        },
        Some(_) => Err(OpFault::AttributesNotAnObject),
    }
}

/// The operation that a JSON value stands for, or what is wrong with it.
pub open spec fn op_of(json: JsonView) -> Result<DeltaOpView, OpFault> {
    match json {
        JsonView::Object(members) => match member(members, "insert"@) {
            None => Err(OpFault::MissingInsert),
            Some(JsonView::Text(insert)) => match flags_of(member(members, "attributes"@)) {
                Ok((bold, italic)) => Ok(DeltaOpView { insert, bold, italic }),
                Err(fault) => Err(fault),
            },
            Some(_) => Err(OpFault::InsertNotText),
        },
        _ => Err(OpFault::NotAnObject),
    }
}

/// `index` is the place of the first of `items` that is no operation.
pub open spec fn first_fault_at(items: Seq<JsonView>, index: int) -> bool {
    &&& 0 <= index < items.len()
    &&& op_of(items[index]) is Err
    &&& forall|j: int| 0 <= j < index ==> (#[trigger] op_of(items[j])) is Ok
}

/// The operations that the items of an `ops` array stand for, one for one
/// and in order; where some item is no operation, the first such item's
/// place and fault.
pub open spec fn ops_of(items: Seq<JsonView>) -> Result<Seq<DeltaOpView>, Fault> {
    if forall|i: int| 0 <= i < items.len() ==> (#[trigger] op_of(items[i])) is Ok {
        Ok(Seq::new(items.len(), |i: int| op_of(items[i])->Ok_0))
    } else {
        let index = choose|index: int| first_fault_at(items, index);
        Err(Fault::Op { index: index as nat, fault: op_of(items[index])->Err_0 })
    }
}

/// `ops_of` gives an operation for each item where every item is one, and
/// else the place and the fault of the first item that is none.
pub proof fn lemma_ops_of(items: Seq<JsonView>)
    ensures
        match ops_of(items) {
            Ok(ops) => ops.len() == items.len() && forall|i: int|
                0 <= i < items.len() ==> (#[trigger] op_of(items[i])) == Ok::<
                    DeltaOpView,
                    OpFault,
                >(ops[i]),
            Err(Fault::Op { index, fault }) => first_fault_at(items, index as int) && op_of(
                items[index as int],
            ) == Err::<DeltaOpView, OpFault>(fault),
            Err(_) => false,
        },
{
    if forall|i: int| 0 <= i < items.len() ==> (#[trigger] op_of(items[i])) is Ok {
    } else {
        let bad = choose|i: int| 0 <= i < items.len() && !((#[trigger] op_of(items[i])) is Ok);
        lemma_first_fault_exists(items, bad);
    }
}

/// Where some item up to `bad` is no operation, there is a first such item.
proof fn lemma_first_fault_exists(items: Seq<JsonView>, bad: int)
    requires
        0 <= bad < items.len(),
        op_of(items[bad]) is Err,
    ensures
        exists|index: int| first_fault_at(items, index),
    decreases bad,
{
    if forall|j: int| 0 <= j < bad ==> (#[trigger] op_of(items[j])) is Ok {
        assert(first_fault_at(items, bad));
    } else {
        let earlier = choose|j: int| 0 <= j < bad && !((#[trigger] op_of(items[j])) is Ok);
        lemma_first_fault_exists(items, earlier);
    }
}

/// The delta that a JSON value stands for, or why it is none.
pub open spec fn delta_of(tree: JsonView) -> Result<Seq<DeltaOpView>, Fault> {
    match tree {
        JsonView::Object(members) => match member(members, "ops"@) {
            None => Err(Fault::MissingOps),
            Some(JsonView::Array(items)) => ops_of(items),
            Some(_) => Err(Fault::OpsNotAnArray),
        },
        _ => Err(Fault::NotAnObject),
    }
}

/// The delta that a text stands for, or why it is none.
pub open spec fn parse_of(text: Seq<char>) -> Result<Seq<DeltaOpView>, Fault> {
    match text_tree(text) {
        Some(tree) => delta_of(tree),
        None => Err(Fault::Syntax),
    }
}

/// `res` is the executable form of `model`.
pub open spec fn decoded_as(
    res: Result<Vec<DeltaOp>, ParseError>,
    model: Result<Seq<DeltaOpView>, Fault>,
) -> bool {
    match model {
        Ok(ops) => res matches Ok(found) && ops_view(found@) == ops,
        Err(fault) => res matches Err(error) && error@ == fault,
    }
}

/// Reads one flag of an `attributes` object.
fn decode_flag(attributes: &Json, name: &str) -> (res: Option<bool>)
    requires
        attributes@ is Object,
    ensures
        res == flag_of(attributes@->Object_0, name@),
{
    match attributes.get(name) {
        None => Some(false),
        Some(Json::Null) => Some(false),
        Some(Json::Bool(b)) => Some(*b),
        Some(_) => None,
    }
}

/// Reads the two flags of an operation from its member `attributes`.
fn decode_flags(attributes: Option<&Json>) -> (res: Result<(bool, bool), OpFault>)
    ensures
        res == flags_of(
            match attributes {
                Some(json) => Some(json@),
                None => None,
            },
        ),
{
    match attributes {
        None => Ok((false, false)),
        Some(Json::Null) => Ok((false, false)),
        Some(Json::Object(members)) => {
            let json = attributes.unwrap();
            match decode_flag(json, "bold") {
                None => Err(OpFault::FlagNotBool(Flag::Bold)),
                Some(bold) => match decode_flag(json, "italic") {
                    None => Err(OpFault::FlagNotBool(Flag::Italic)),
                    Some(italic) => Ok((bold, italic)),
                },
            }
        },
        Some(_) => Err(OpFault::AttributesNotAnObject),
    }
}

/// Reads one operation.
pub fn decode_op(json: &Json) -> (res: Result<DeltaOp, OpFault>)
    ensures
        match op_of(json@) {
            Ok(op) => res matches Ok(found) && found@ == op,
            Err(fault) => res == Err::<DeltaOp, OpFault>(fault),
        },
{
    match json {
        Json::Object(_) => match json.get("insert") {
            None => Err(OpFault::MissingInsert),
            Some(Json::Text(insert)) => match decode_flags(json.get("attributes")) {
                Ok((bold, italic)) => Ok(DeltaOp { insert: insert.clone(), bold, italic }),
                Err(fault) => Err(fault),
            },
            Some(_) => Err(OpFault::InsertNotText),
        },
        _ => Err(OpFault::NotAnObject),
    }
}

/// Reads the items of an `ops` array, stopping at the first that is no
/// operation.
pub fn decode_ops(items: &Vec<Json>) -> (res: Result<Vec<DeltaOp>, ParseError>)
    ensures
        decoded_as(res, ops_of(Seq::new(items@.len(), |i: int| items@[i]@))),
{
    let ghost trees = Seq::new(items@.len(), |i: int| items@[i]@);
    let mut ops: Vec<DeltaOp> = Vec::new();
    let mut i: usize = 0;
    while i < items.len()
        invariant
            i <= items.len(),
            trees == Seq::new(items@.len(), |i: int| items@[i]@),
            ops@.len() == i,
            forall|j: int| 0 <= j < i ==> (#[trigger] op_of(trees[j])) == Ok::<DeltaOpView, OpFault>(ops@[j]@),
        decreases items.len() - i,
    {
        match decode_op(&items[i]) {
            Ok(op) => {
                ops.push(op);
            },
            Err(fault) => {
                proof {
                    assert(op_of(trees[i as int]) is Err);
                    assert(first_fault_at(trees, i as int));
                    let index = choose|index: int| first_fault_at(trees, index);
                    assert(first_fault_at(trees, index));
                    if index < i {
                        assert(op_of(trees[index]) is Ok);
                    }
                    if i < index {
                        assert(op_of(trees[i as int]) is Ok);
                    }
                }
                return Err(ParseError::Op { index: i, fault });
            },
        }
        i += 1;
    }
    proof {
        assert(ops_view(ops@) =~= Seq::new(trees.len(), |i: int| op_of(trees[i])->Ok_0));
    }
    Ok(ops)
}

/// Reads a delta from a JSON value.
pub fn decode_delta(json: &Json) -> (res: Result<Vec<DeltaOp>, ParseError>)
    ensures
        decoded_as(res, delta_of(json@)),
{
    match json {
        Json::Object(_) => match json.get("ops") {
            None => Err(ParseError::MissingOps),
            Some(Json::Array(items)) => {
                assert(Json::Array(*items)@->Array_0 =~= Seq::new(
                    items@.len(),
                    |i: int| items@[i]@,
                ));
                decode_ops(items)
            },
            Some(_) => Err(ParseError::OpsNotAnArray),
        },
        _ => Err(ParseError::NotAnObject),
    }
}

/// Reads a delta from its text: the operations in the order of the text,
/// or the reason why the text is no delta.
pub fn parse(text: &str) -> (res: Result<Vec<DeltaOp>, ParseError>)
    ensures
        decoded_as(res, parse_of(text@)),
{
    match Json::parse(text) {
        Ok(json) => decode_delta(&json),
        Err(message) => Err(ParseError::Syntax { message }),
    }
}

} // verus!
