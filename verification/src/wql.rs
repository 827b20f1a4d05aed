//! WQL, the wallet query language, and its translation to SQL.
//!
//! A WQL query is a JSON object. Each member is a condition and the members
//! are joined by AND: `"tag": "value"` is equality; `"tag": {"$neq": ..}`,
//! `$gt`, `$gte`, `$lt`, `$lte`, `$like` take a string; `"tag": {"$in": [..]}`
//! takes an array of strings; `"$or": [obj, ..]` and (where the dialect has
//! it) `"$and": [obj, ..]` combine objects; `"$not": obj` negates one. Tag
//! names that start with `~` are plain tags; the order comparisons and
//! `$like` are refused on the other (encrypted) tags when SQL is made.
use vstd::prelude::*;

use crate::aurora_storage::SearchOptions;
use crate::errors::error_code::ErrorCode;
use crate::json::{JsonValue, JsonView, fields_view, items_view, lemma_json_view, text_is};

verus! {

/// A parsed WQL query.
#[derive(Debug)]
pub enum Operator {
    And(Vec<Operator>),
    Or(Vec<Operator>),
    Not(Box<Operator>),
    Eq(String, String),
    Neq(String, String),
    Gt(String, String),
    Gte(String, String),
    Lt(String, String),
    Lte(String, String),
    Like(String, String),
    In(String, Vec<String>),
}

/// The mathematical model of a WQL query.
pub enum OpView {
    And(Seq<OpView>),
    Or(Seq<OpView>),
    Not(Box<OpView>),
    Eq(Seq<char>, Seq<char>),
    Neq(Seq<char>, Seq<char>),
    Gt(Seq<char>, Seq<char>),
    Gte(Seq<char>, Seq<char>),
    Lt(Seq<char>, Seq<char>),
    Lte(Seq<char>, Seq<char>),
    Like(Seq<char>, Seq<char>),
    In(Seq<char>, Seq<Seq<char>>),
}

impl Operator {
    /// The model of this query.
    pub open spec fn view_op(&self) -> OpView
        decreases self,
    {
        match self {
            Operator::And(v) => OpView::And(
                Seq::new(
                    v@.len(),
                    |i: int|
                        if 0 <= i < v@.len() {
                            v@[i].view_op()
                        } else {
                            OpView::And(Seq::empty())
                        },
                ),
            ),
            Operator::Or(v) => OpView::Or(
                Seq::new(
                    v@.len(),
                    |i: int|
                        if 0 <= i < v@.len() {
                            v@[i].view_op()
                        } else {
                            OpView::And(Seq::empty())
                        },
                ),
            ),
            Operator::Not(b) => OpView::Not(Box::new((**b).view_op())),
            Operator::Eq(k, v) => OpView::Eq(k@, v@),
            Operator::Neq(k, v) => OpView::Neq(k@, v@),
            Operator::Gt(k, v) => OpView::Gt(k@, v@),
            Operator::Gte(k, v) => OpView::Gte(k@, v@),
            Operator::Lt(k, v) => OpView::Lt(k@, v@),
            Operator::Lte(k, v) => OpView::Lte(k@, v@),
            Operator::Like(k, v) => OpView::Like(k@, v@),
            Operator::In(k, vs) => OpView::In(k@, strings_view(vs@)),
        }
    }
}

impl View for Operator {
    type V = OpView;

    open spec fn view(&self) -> OpView {
        self.view_op()
    }
}

/// The model of a sequence of strings.
pub open spec fn strings_view(v: Seq<String>) -> Seq<Seq<char>> {
    Seq::new(v.len(), |i: int| v[i]@)
}

/// The model of a sequence of queries.
pub open spec fn ops_view(v: Seq<Operator>) -> Seq<OpView> {
    Seq::new(v.len(), |i: int| v[i]@)
}

/// The model of an AND or OR is made of the models of its parts.
pub proof fn lemma_op_view(op: Operator)
    ensures
        op matches Operator::And(v) ==> op@ == OpView::And(ops_view(v@)),
        op matches Operator::Or(v) ==> op@ == OpView::Or(ops_view(v@)),
{
    match op {
        Operator::And(v) => {
            assert(ops_view(v@) =~= match op@ {
                OpView::And(s) => s,
                _ => Seq::empty(),
            });
        },
        Operator::Or(v) => {
            assert(ops_view(v@) =~= match op@ {
                OpView::Or(s) => s,
                _ => Seq::empty(),
            });
        },
        _ => {},
    }
}

/// What a parse or translation result says, as an `Option` of its model.
pub open spec fn op_result(r: Result<Operator, ErrorCode>) -> Option<OpView> {
    match r {
        Ok(op) => Some(op@),
        Err(_) => None,
    }
}

/// A result that matches `expected`: the query it models, or the error
/// `InvalidStructure` where there is none.
pub open spec fn parsed_as(r: Result<Operator, ErrorCode>, expected: Option<OpView>) -> bool {
    &&& op_result(r) == expected
    &&& r is Err ==> r == Err::<Operator, ErrorCode>(ErrorCode::InvalidStructure)
}

/// The simplification applied to the query that an object parses to: an
/// AND or OR of one query is that query, a double NOT cancels, and an IN
/// with one value is an equality.
pub open spec fn spec_optimise(op: OpView) -> OpView {
    match op {
        OpView::Not(b) => match *b {
            OpView::Not(inner) => *inner,
            _ => OpView::Not(b),
        },
        OpView::And(s) => if s.len() == 1 {
            s[0]
        } else {
            OpView::And(s)
        },
        OpView::Or(s) => if s.len() == 1 {
            s[0]
        } else {
            OpView::Or(s)
        },
        OpView::In(k, t) => if t.len() == 1 {
            OpView::Eq(k, t[0])
        } else {
            OpView::In(k, t)
        },
        _ => op,
    }
}

impl Operator {
    /// Simplifies the top of this query (see `spec_optimise`).
    pub fn optimise(self) -> (r: Operator)
        ensures
            r@ == spec_optimise(self@),
    {
        match self {
            Operator::Not(boxed_operator) => {
                let inner = *boxed_operator;
                assert(self@ == OpView::Not(Box::new(inner@)));
                match inner {
                    Operator::Not(nested_operator) => {
                        assert(inner@ == OpView::Not(Box::new((*nested_operator)@)));
                        *nested_operator
                    },
                    other => Operator::Not(Box::new(other)),
                }
            },
            Operator::And(mut suboperators) => {
                if suboperators.len() == 1 {
                    suboperators.remove(0)
                } else {
                    Operator::And(suboperators)
                }
            },
            Operator::Or(mut suboperators) => {
                if suboperators.len() == 1 {
                    suboperators.remove(0)
                } else {
                    Operator::Or(suboperators)
                }
            },
            Operator::In(key, mut targets) => {
                if targets.len() == 1 {
                    Operator::Eq(key, targets.remove(0))
                } else {
                    Operator::In(key, targets)
                }
            },
            other => other,
        }
    }
}

// ---------------------------------------------------------------------------
// Parsing: the model
// ---------------------------------------------------------------------------

/// The string inside a JSON string (empty for other values).
pub open spec fn json_str(j: JsonView) -> Seq<char> {
    match j {
        JsonView::String(s) => s,
        _ => Seq::empty(),
    }
}

/// The strings of an array whose items are all strings; `None` otherwise.
pub open spec fn spec_parse_strings(items: Seq<JsonView>) -> Option<Seq<Seq<char>>> {
    if forall|i: int| 0 <= i < items.len() ==> (#[trigger] items[i]) is String {
        Some(Seq::new(items.len(), |i: int| json_str(items[i])))
    } else {
        None
    }
}

/// A member `key: {op_name: value}`: the comparison it states, or `None`
/// for an unknown operator or a value of the wrong kind.
pub open spec fn spec_parse_single_operator(
    op_name: Seq<char>,
    key: Seq<char>,
    value: JsonView,
) -> Option<OpView> {
    match value {
        JsonView::String(s) => if op_name == "$neq"@ {
            Some(OpView::Neq(key, s))
        } else if op_name == "$gt"@ {
            Some(OpView::Gt(key, s))
        } else if op_name == "$gte"@ {
            Some(OpView::Gte(key, s))
        } else if op_name == "$lt"@ {
            Some(OpView::Lt(key, s))
        } else if op_name == "$lte"@ {
            Some(OpView::Lte(key, s))
        } else if op_name == "$like"@ {
            Some(OpView::Like(key, s))
        } else {
            None
        },
        JsonView::Array(items) => if op_name == "$in"@ {
            match spec_parse_strings(items) {
                Some(ss) => Some(OpView::In(key, ss)),
                None => None,
            }
        } else {
            None
        },
        _ => None,
    }
}

/// An object: the AND of its members' conditions, simplified by
/// `spec_optimise`. `with_and` says whether the dialect knows `$and`.
pub open spec fn spec_parse_object(fields: Seq<(Seq<char>, JsonView)>, with_and: bool) -> Option<
    OpView,
>
    decreases fields, 1nat,
{
    match spec_parse_fields(fields, with_and) {
        Some(ops) => Some(spec_optimise(OpView::And(ops))),
        None => None,
    }
}

/// The conditions of the members of an object, in order; `None` if one fails.
pub open spec fn spec_parse_fields(fields: Seq<(Seq<char>, JsonView)>, with_and: bool) -> Option<
    Seq<OpView>,
>
    decreases fields, 0nat,
{
    if fields.len() == 0 {
        Some(Seq::empty())
    } else {
        match spec_parse_fields(fields.drop_last(), with_and) {
            Some(ops) => match spec_parse_operator(fields.last().0, fields.last().1, with_and) {
                Some(op) => Some(ops.push(op)),
                None => None,
            },
            None => None,
        }
    }
}

/// The queries of an array of objects (the operand of `$and` and `$or`);
/// `None` if an item is not an object or does not parse.
pub open spec fn spec_parse_objects(items: Seq<JsonView>, with_and: bool) -> Option<Seq<OpView>>
    decreases items, 0nat,
{
    if items.len() == 0 {
        Some(Seq::empty())
    } else {
        match spec_parse_objects(items.drop_last(), with_and) {
            Some(ops) => match items.last() {
                JsonView::Object(m) => match spec_parse_object(m, with_and) {
                    Some(op) => Some(ops.push(op)),
                    None => None,
                },
                _ => None,
            },
            None => None,
        }
    }
}

/// One member `key: value` of an object.
pub open spec fn spec_parse_operator(key: Seq<char>, value: JsonView, with_and: bool) -> Option<
    OpView,
>
    decreases value, 0nat,
{
    match value {
        JsonView::Array(items) => if with_and && key == "$and"@ {
            match spec_parse_objects(items, with_and) {
                Some(ops) => Some(OpView::And(ops)),
                None => None,
            }
        } else if key == "$or"@ {
            match spec_parse_objects(items, with_and) {
                Some(ops) => Some(OpView::Or(ops)),
                None => None,
            }
        } else {
            None
        },
        JsonView::Object(m) => if key == "$not"@ {
            match spec_parse_object(m, with_and) {
                Some(op) => Some(OpView::Not(Box::new(op))),
                None => None,
            }
        } else if m.len() == 1 {
            spec_parse_single_operator(m[0].0, key, m[0].1)
        } else {
            None
        },
        JsonView::String(s) => Some(OpView::Eq(key, s)),
        _ => None,
    }
}

/// A whole query document: it must be an object.
pub open spec fn spec_parse_query(doc: JsonView, with_and: bool) -> Option<OpView> {
    match doc {
        JsonView::Object(m) => spec_parse_object(m, with_and),
        _ => None,
    }
}

/// Once a prefix of the members fails, the whole object fails.
proof fn lemma_fields_prefix_fails(fields: Seq<(Seq<char>, JsonView)>, i: int, with_and: bool)
    requires
        0 <= i <= fields.len(),
        spec_parse_fields(fields.take(i), with_and) is None,
    ensures
        spec_parse_fields(fields, with_and) is None,
    decreases fields.len() - i,
{
    if i < fields.len() {
        assert(fields.take(i + 1).drop_last() =~= fields.take(i));
        lemma_fields_prefix_fails(fields, i + 1, with_and);
    } else {
        assert(fields.take(i) =~= fields);
    }
}

/// Once a prefix of the items fails, the whole array fails.
proof fn lemma_objects_prefix_fails(items: Seq<JsonView>, i: int, with_and: bool)
    requires
        0 <= i <= items.len(),
        spec_parse_objects(items.take(i), with_and) is None,
    ensures
        spec_parse_objects(items, with_and) is None,
    decreases items.len() - i,
{
    if i < items.len() {
        assert(items.take(i + 1).drop_last() =~= items.take(i));
        lemma_objects_prefix_fails(items, i + 1, with_and);
    } else {
        assert(items.take(i) =~= items);
    }
}

// ---------------------------------------------------------------------------
// Parsing: the code
// ---------------------------------------------------------------------------

/// Parses a query document: an object, whose members are joined by AND.
/// `with_and` says whether the dialect knows `$and`.
pub fn parse_query(doc: &JsonValue, with_and: bool) -> (r: Result<Operator, ErrorCode>)
    ensures
        parsed_as(r, spec_parse_query(doc@, with_and)),
{
    proof {
        lemma_json_view(*doc);
    }
    match doc {
        JsonValue::Object(map) => parse(map, with_and),
        _ => Err(ErrorCode::InvalidStructure),
    }
}

/// Parses the members of an object and joins them by AND, simplified.
pub fn parse(map: &Vec<(String, JsonValue)>, with_and: bool) -> (r: Result<Operator, ErrorCode>)
    ensures
        parsed_as(r, spec_parse_object(fields_view(map@), with_and)),
    decreases map, 1nat,
{
    let ghost fv = fields_view(map@);
    let mut operators: Vec<Operator> = Vec::new();
    let mut i: usize = 0;
    while i < map.len()
        invariant
            0 <= i <= map.len(),
            fv == fields_view(map@),
            spec_parse_fields(fv.take(i as int), with_and) == Some(ops_view(operators@)),
        decreases map.len() - i,
    {
        assert(fv.take(i + 1).drop_last() =~= fv.take(i as int));
        assert(decreases_to!(map => map@[i as int].1));
        let sub = parse_operator(&map[i].0, &map[i].1, with_and);
        match sub {
            Ok(op) => {
                let ghost before = operators@;
                operators.push(op);
                assert(ops_view(operators@) =~= ops_view(before).push(op@));
            },
            Err(e) => {
                proof {
                    lemma_fields_prefix_fails(fv, i + 1, with_and);
                }
                return Err(e);
            },
        }
        i = i + 1;
    }
    assert(fv.take(i as int) =~= fv);
    let top_operator = Operator::And(operators);
    proof {
        lemma_op_view(top_operator);
    }
    Ok(top_operator.optimise())
}

/// Parses an array of objects, the operand of `$and` or `$or`.
fn parse_objects(values: &Vec<JsonValue>, with_and: bool) -> (r: Result<Vec<Operator>, ErrorCode>)
    ensures
        match spec_parse_objects(items_view(values@), with_and) {
            Some(ops) => r matches Ok(v) && ops_view(v@) == ops,
            None => r == Err::<Vec<Operator>, ErrorCode>(ErrorCode::InvalidStructure),
        },
    decreases values, 1nat,
{
    let ghost iv = items_view(values@);
    let mut operators: Vec<Operator> = Vec::new();
    let mut i: usize = 0;
    while i < values.len()
        invariant
            0 <= i <= values.len(),
            iv == items_view(values@),
            spec_parse_objects(iv.take(i as int), with_and) == Some(ops_view(operators@)),
        decreases values.len() - i,
    {
        assert(iv.take(i + 1).drop_last() =~= iv.take(i as int));
        proof {
            lemma_json_view(values@[i as int]);
        }
        match &values[i] {
            JsonValue::Object(map) => {
                assert(decreases_to!(values => map));
                let sub = parse(map, with_and);
                match sub {
                    Ok(op) => {
                        let ghost before = operators@;
                        operators.push(op);
                        assert(ops_view(operators@) =~= ops_view(before).push(op@));
                    },
                    Err(e) => {
                        proof {
                            lemma_objects_prefix_fails(iv, i + 1, with_and);
                        }
                        return Err(e);
                    },
                }
            },
            _ => {
                proof {
                    lemma_objects_prefix_fails(iv, i + 1, with_and);
                }
                return Err(ErrorCode::InvalidStructure);
            },
        }
        i = i + 1;
    }
    assert(iv.take(i as int) =~= iv);
    Ok(operators)
}

/// Parses one member `key: value` of an object.
pub fn parse_operator(key: &String, value: &JsonValue, with_and: bool) -> (r: Result<
    Operator,
    ErrorCode,
>)
    ensures
        parsed_as(r, spec_parse_operator(key@, value@, with_and)),
    decreases value, 0nat,
{
    proof {
        lemma_json_view(*value);
    }
    match value {
        JsonValue::Array(values) => {
            if with_and && text_is(key, "$and") {
                let ops = parse_objects(values, with_and)?;
                let r = Operator::And(ops);
                proof {
                    lemma_op_view(r);
                }
                Ok(r)
            } else if text_is(key, "$or") {
                let ops = parse_objects(values, with_and)?;
                let r = Operator::Or(ops);
                proof {
                    lemma_op_view(r);
                }
                Ok(r)
            } else {
                Err(ErrorCode::InvalidStructure)
            }
        },
        JsonValue::Object(map) => {
            if text_is(key, "$not") {
                let operator = parse(map, with_and)?;
                Ok(Operator::Not(Box::new(operator)))
            } else if map.len() == 1 {
                parse_single_operator(&map[0].0, key, &map[0].1)
            } else {
                Err(ErrorCode::InvalidStructure)
            }
        },
        JsonValue::String(s) => Ok(Operator::Eq(key.clone(), s.clone())),
        _ => Err(ErrorCode::InvalidStructure),
    }
}

/// Parses the strings of an array (the operand of `$in`).
pub fn parse_strings(values: &Vec<JsonValue>) -> (r: Result<Vec<String>, ErrorCode>)
    ensures
        match spec_parse_strings(items_view(values@)) {
            Some(ss) => r matches Ok(v) && strings_view(v@) == ss,
            None => r == Err::<Vec<String>, ErrorCode>(ErrorCode::InvalidStructure),
        },
{
    let ghost iv = items_view(values@);
    let mut target_values: Vec<String> = Vec::new();
    let mut i: usize = 0;
    while i < values.len()
        invariant
            0 <= i <= values.len(),
            iv == items_view(values@),
            target_values@.len() == i,
            forall|j: int| 0 <= j < i ==> (#[trigger] iv[j]) is String,
            forall|j: int| 0 <= j < i ==> target_values@[j]@ == json_str(#[trigger] iv[j]),
        decreases values.len() - i,
    {
        match &values[i] {
            JsonValue::String(s) => {
                target_values.push(s.clone());
            },
            _ => {
                assert(!(iv[i as int] is String));
                return Err(ErrorCode::InvalidStructure);
            },
        }
        i = i + 1;
    }
    assert(strings_view(target_values@) =~= Seq::new(iv.len(), |j: int| json_str(iv[j])));
    Ok(target_values)
}

/// Parses a member `key: {operator_name: value}`.
pub fn parse_single_operator(operator_name: &String, key: &String, value: &JsonValue) -> (r: Result<
    Operator,
    ErrorCode,
>)
    ensures
        parsed_as(r, spec_parse_single_operator(operator_name@, key@, value@)),
{
    proof {
        lemma_json_view(*value);
    }
    match value {
        JsonValue::String(s) => {
            if text_is(operator_name, "$neq") {
                Ok(Operator::Neq(key.clone(), s.clone()))
            } else if text_is(operator_name, "$gt") {
                Ok(Operator::Gt(key.clone(), s.clone()))
            } else if text_is(operator_name, "$gte") {
                Ok(Operator::Gte(key.clone(), s.clone()))
            } else if text_is(operator_name, "$lt") {
                Ok(Operator::Lt(key.clone(), s.clone()))
            } else if text_is(operator_name, "$lte") {
                Ok(Operator::Lte(key.clone(), s.clone()))
            } else if text_is(operator_name, "$like") {
                Ok(Operator::Like(key.clone(), s.clone()))
            } else {
                Err(ErrorCode::InvalidStructure)
            }
        },
        JsonValue::Array(values) => {
            if text_is(operator_name, "$in") {
                let target_values = parse_strings(values)?;
                Ok(Operator::In(key.clone(), target_values))
            } else {
                Err(ErrorCode::InvalidStructure)
            }
        },
        _ => Err(ErrorCode::InvalidStructure),
    }
}


// ---------------------------------------------------------------------------
// Translation to SQL: the model
// ---------------------------------------------------------------------------

/// An argument of a prepared SQL statement, bound to one `?` in order.
#[derive(Debug)]
pub enum SqlArg {
    Text(String),
    UInt(u64),
}

/// The model of an argument of a prepared SQL statement.
pub enum SqlArgView {
    Text(Seq<char>),
    UInt(u64),
}

impl View for SqlArg {
    type V = SqlArgView;

    open spec fn view(&self) -> SqlArgView {
        match self {
            SqlArg::Text(s) => SqlArgView::Text(s@),
            SqlArg::UInt(u) => SqlArgView::UInt(*u),
        }
    }
}

/// The model of a list of arguments.
pub open spec fn args_view(a: Seq<SqlArg>) -> Seq<SqlArgView> {
    Seq::new(a.len(), |i: int| a[i]@)
}

/// Text arguments, one for each string.
pub open spec fn text_args(t: Seq<Seq<char>>) -> Seq<SqlArgView> {
    Seq::new(t.len(), |i: int| SqlArgView::Text(t[i]))
}

/// The JSON path of a tag inside the `tags` column: `'$."name"'`.
pub open spec fn spec_tag_path(name: Seq<char>) -> Seq<char> {
    "'$.\""@ + name + "\"'"@
}

/// A plain (unencrypted) tag: its name starts with `~`.
pub open spec fn spec_is_plain_tag(name: Seq<char>) -> bool {
    name.len() > 0 && name[0] == '~'
}

/// The placeholders of an IN list of `n` values after the first `i` of them:
/// each value adds `?`, followed by `,` or, for the last, `)`.
pub open spec fn spec_in_marks(i: nat, n: nat) -> Seq<char>
    decreases i,
{
    if i == 0 {
        Seq::empty()
    } else {
        spec_in_marks((i - 1) as nat, n) + "?"@ + (if i - 1 < n - 1 {
            ","@
        } else {
            ")"@
        })
    }
}

/// The SQL condition of a query and the arguments it binds, or `None` where
/// an order comparison or `$like` is used on an encrypted tag.
pub open spec fn spec_op_sql(op: OpView) -> Option<(Seq<char>, Seq<SqlArgView>)>
    decreases op, 0nat,
{
    match op {
        OpView::Eq(n, v) => Some(
            (
                "(JSON_UNQUOTE(JSON_EXTRACT(tags, "@ + spec_tag_path(n) + ")) = ?)"@,
                seq![SqlArgView::Text(v)],
            ),
        ),
        OpView::Neq(n, v) => Some(
            (
                "(JSON_UNQUOTE(JSON_EXTRACT(tags, "@ + spec_tag_path(n) + ")) != ?)"@,
                seq![SqlArgView::Text(v)],
            ),
        ),
        OpView::Gt(n, v) => if spec_is_plain_tag(n) {
            Some(
                (
                    "(JSON_UNQUOTE(JSON_EXTRACT(tags, "@ + spec_tag_path(n) + ")) > ?)"@,
                    seq![SqlArgView::Text(v)],
                ),
            )
        } else {
            None
        },
        OpView::Gte(n, v) => if spec_is_plain_tag(n) {
            Some(
                (
                    "(JSON_UNQUOTE(JSON_EXTRACT(tags, "@ + spec_tag_path(n) + ")) >= ?)"@,
                    seq![SqlArgView::Text(v)],
                ),
            )
        } else {
            None
        },
        OpView::Lt(n, v) => if spec_is_plain_tag(n) {
            Some(
                (
                    "JSON_UNQUOTE(JSON_EXTRACT(tags, "@ + spec_tag_path(n) + ")) < ?)"@,
                    seq![SqlArgView::Text(v)],
                ),
            )
        } else {
            None
        },
        OpView::Lte(n, v) => if spec_is_plain_tag(n) {
            Some(
                (
                    "(JSON_UNQUOTE(JSON_EXTRACT(tags, "@ + spec_tag_path(n) + ")) <= ?)"@,
                    seq![SqlArgView::Text(v)],
                ),
            )
        } else {
            None
        },
        OpView::Like(n, v) => if spec_is_plain_tag(n) {
            Some(
                (
                    "(JSON_UNQUOTE(JSON_EXTRACT(tags, "@ + spec_tag_path(n) + ")) LIKE ?)"@,
                    seq![SqlArgView::Text(v)],
                ),
            )
        } else {
            None
        },
        OpView::In(n, vs) => Some(
            (
                "JSON_UNQUOTE(JSON_EXTRACT(tags, "@ + spec_tag_path(n) + ")) IN ("@ + spec_in_marks(
                    vs.len(),
                    vs.len(),
                ),
                text_args(vs),
            ),
        ),
        OpView::And(ops) => if ops.len() == 0 {
            Some((Seq::empty(), Seq::empty()))
        } else {
            match spec_join_body(ops, " AND "@) {
                Some((s, a)) => Some(("("@ + s + ")"@, a)),
                None => None,
            }
        },
        OpView::Or(ops) => if ops.len() == 0 {
            Some((Seq::empty(), Seq::empty()))
        } else {
            match spec_join_body(ops, " OR "@) {
                Some((s, a)) => Some(("("@ + s + ")"@, a)),
                None => None,
            }
        },
        OpView::Not(b) => match spec_op_sql(*b) {
            Some((s, a)) => Some(("NOT ("@ + s + ")"@, a)),
            None => None,
        },
    }
}

/// The conditions of `ops` joined by `sep`, with their arguments in order.
pub open spec fn spec_join_body(ops: Seq<OpView>, sep: Seq<char>) -> Option<
    (Seq<char>, Seq<SqlArgView>),
>
    decreases ops, 0nat,
{
    if ops.len() == 0 {
        Some((Seq::empty(), Seq::empty()))
    } else {
        match spec_join_body(ops.drop_last(), sep) {
            Some((s, a)) => match spec_op_sql(ops.last()) {
                Some((t, b)) => Some(
                    (
                        if ops.len() == 1 {
                            t
                        } else {
                            s + sep + t
                        },
                        a + b,
                    ),
                ),
                None => None,
            },
            None => None,
        }
    }
}

/// The conditions of `ops` joined by `sep` and put in parentheses; nothing
/// at all for no conditions.
pub open spec fn spec_join(ops: Seq<OpView>, sep: Seq<char>) -> Option<(Seq<char>, Seq<SqlArgView>)> {
    if ops.len() == 0 {
        Some((Seq::empty(), Seq::empty()))
    } else {
        match spec_join_body(ops, sep) {
            Some((s, a)) => Some(("("@ + s + ")"@, a)),
            None => None,
        }
    }
}

/// `r` and the arguments it leaves are those that `expected` gives: the
/// text, and the arguments appended to `before`; or the error
/// `InvalidStructure`. Either way `before` stays a prefix.
pub open spec fn sql_as(
    r: Result<String, ErrorCode>,
    before: Seq<SqlArg>,
    after: Seq<SqlArg>,
    expected: Option<(Seq<char>, Seq<SqlArgView>)>,
) -> bool {
    &&& before.is_prefix_of(after)
    &&& match expected {
        Some((s, a)) => r matches Ok(t) && t@ == s && args_view(after) == args_view(before) + a,
        None => r == Err::<String, ErrorCode>(ErrorCode::InvalidStructure),
    }
}

/// Once a prefix of the conditions fails, the whole join fails.
proof fn lemma_join_prefix_fails(ops: Seq<OpView>, sep: Seq<char>, i: int)
    requires
        0 <= i <= ops.len(),
        spec_join_body(ops.take(i), sep) is None,
    ensures
        spec_join_body(ops, sep) is None,
    decreases ops.len() - i,
{
    if i < ops.len() {
        assert(ops.take(i + 1).drop_last() =~= ops.take(i));
        lemma_join_prefix_fails(ops, sep, i + 1);
    } else {
        assert(ops.take(i) =~= ops);
    }
}

proof fn lemma_args_view_push(a: Seq<SqlArg>, x: SqlArg)
    ensures
        args_view(a.push(x)) == args_view(a).push(x@),
{
    assert(args_view(a.push(x)) =~= args_view(a).push(x@));
}

// ---------------------------------------------------------------------------
// Translation to SQL: the code
// ---------------------------------------------------------------------------

/// The JSON path of a tag: `'$."name"'`.
fn tag_path(tag_name: &String) -> (r: String)
    ensures
        r@ == spec_tag_path(tag_name@),
{
    let mut p = String::from_str("'$.\"");
    p.append(tag_name.as_str());
    p.append("\"'");
    p
}

/// Whether a tag is plain: its name starts with `~`.
fn is_plain_tag(tag_name: &String) -> (r: bool)
    ensures
        r == spec_is_plain_tag(tag_name@),
{
    let name = tag_name.as_str();
    name.unicode_len() > 0 && name.get_char(0) == '~'
}

/// `open` + the tag's path + `close`, binding the tag's value.
fn compare_to_sql(
    open: &str,
    tag_name: &String,
    close: &str,
    tag_value: &String,
    arguments: &mut Vec<SqlArg>,
) -> (r: String)
    ensures
        r@ == open@ + spec_tag_path(tag_name@) + close@,
        final(arguments)@ == old(arguments)@.push(SqlArg::Text(*tag_value)),
        args_view(final(arguments)@) == args_view(old(arguments)@) + seq![SqlArgView::Text(tag_value@)],
        old(arguments)@.is_prefix_of(final(arguments)@),
{
    let tag_path = tag_path(tag_name);
    arguments.push(SqlArg::Text(tag_value.clone()));
    proof {
        lemma_args_view_push(old(arguments)@, SqlArg::Text(*tag_value));
        assert(args_view(old(arguments)@).push(SqlArgView::Text(tag_value@)) =~= args_view(
            old(arguments)@,
        ) + seq![SqlArgView::Text(tag_value@)]);
        assert(old(arguments)@ =~= arguments@.subrange(0, old(arguments)@.len() as int));
    }
    let mut s = String::from_str(open);
    s.append(tag_path.as_str());
    s.append(close);
    s
}

/// Equality of a tag with a value.
pub fn eq_to_sql(tag_name: &String, tag_value: &String, arguments: &mut Vec<SqlArg>) -> (r: String)
    ensures
        sql_as(
            Ok(r),
            old(arguments)@,
            final(arguments)@,
            spec_op_sql(OpView::Eq(tag_name@, tag_value@)),
        ),
{
    compare_to_sql("(JSON_UNQUOTE(JSON_EXTRACT(tags, ", tag_name, ")) = ?)", tag_value, arguments)
}

/// Inequality of a tag with a value.
pub fn neq_to_sql(tag_name: &String, tag_value: &String, arguments: &mut Vec<SqlArg>) -> (r: String)
    ensures
        sql_as(
            Ok(r),
            old(arguments)@,
            final(arguments)@,
            spec_op_sql(OpView::Neq(tag_name@, tag_value@)),
        ),
{
    compare_to_sql("(JSON_UNQUOTE(JSON_EXTRACT(tags, ", tag_name, ")) != ?)", tag_value, arguments)
}

/// A tag greater than a value; refused on an encrypted tag.
pub fn gt_to_sql(tag_name: &String, tag_value: &String, arguments: &mut Vec<SqlArg>) -> (r: Result<
    String,
    ErrorCode,
>)
    ensures
        sql_as(r, old(arguments)@, final(arguments)@, spec_op_sql(OpView::Gt(tag_name@, tag_value@))),
{
    if is_plain_tag(tag_name) {
        Ok(
            compare_to_sql(
                "(JSON_UNQUOTE(JSON_EXTRACT(tags, ",
                tag_name,
                ")) > ?)",
                tag_value,
                arguments,
            ),
        )
    } else {
        Err(ErrorCode::InvalidStructure)
    }
}

/// A tag greater than or equal to a value; refused on an encrypted tag.
pub fn gte_to_sql(tag_name: &String, tag_value: &String, arguments: &mut Vec<SqlArg>) -> (r: Result<
    String,
    ErrorCode,
>)
    ensures
        sql_as(r, old(arguments)@, final(arguments)@, spec_op_sql(OpView::Gte(tag_name@, tag_value@))),
{
    if is_plain_tag(tag_name) {
        Ok(
            compare_to_sql(
                "(JSON_UNQUOTE(JSON_EXTRACT(tags, ",
                tag_name,
                ")) >= ?)",
                tag_value,
                arguments,
            ),
        )
    } else {
        Err(ErrorCode::InvalidStructure)
    }
}

/// A tag less than a value; refused on an encrypted tag. (The condition
/// opens with no parenthesis of its own.)
pub fn lt_to_sql(tag_name: &String, tag_value: &String, arguments: &mut Vec<SqlArg>) -> (r: Result<
    String,
    ErrorCode,
>)
    ensures
        sql_as(r, old(arguments)@, final(arguments)@, spec_op_sql(OpView::Lt(tag_name@, tag_value@))),
{
    if is_plain_tag(tag_name) {
        Ok(
            compare_to_sql(
                "JSON_UNQUOTE(JSON_EXTRACT(tags, ",
                tag_name,
                ")) < ?)",
                tag_value,
                arguments,
            ),
        )
    } else {
        Err(ErrorCode::InvalidStructure)
    }
}

/// A tag less than or equal to a value; refused on an encrypted tag.
pub fn lte_to_sql(tag_name: &String, tag_value: &String, arguments: &mut Vec<SqlArg>) -> (r: Result<
    String,
    ErrorCode,
>)
    ensures
        sql_as(r, old(arguments)@, final(arguments)@, spec_op_sql(OpView::Lte(tag_name@, tag_value@))),
{
    if is_plain_tag(tag_name) {
        Ok(
            compare_to_sql(
                "(JSON_UNQUOTE(JSON_EXTRACT(tags, ",
                tag_name,
                ")) <= ?)",
                tag_value,
                arguments,
            ),
        )
    } else {
        Err(ErrorCode::InvalidStructure)
    }
}

/// A tag matching a LIKE pattern; refused on an encrypted tag.
pub fn like_to_sql(tag_name: &String, tag_value: &String, arguments: &mut Vec<SqlArg>) -> (r: Result<
    String,
    ErrorCode,
>)
    ensures
        sql_as(r, old(arguments)@, final(arguments)@, spec_op_sql(OpView::Like(tag_name@, tag_value@))),
{
    if is_plain_tag(tag_name) {
        Ok(
            compare_to_sql(
                "(JSON_UNQUOTE(JSON_EXTRACT(tags, ",
                tag_name,
                ")) LIKE ?)",
                tag_value,
                arguments,
            ),
        )
    } else {
        Err(ErrorCode::InvalidStructure)
    }
}

/// A tag equal to one of a list of values.
pub fn in_to_sql(tag_name: &String, tag_values: &Vec<String>, arguments: &mut Vec<SqlArg>) -> (r:
    String)
    ensures
        sql_as(
            Ok(r),
            old(arguments)@,
            final(arguments)@,
            spec_op_sql(OpView::In(tag_name@, strings_view(tag_values@))),
        ),
{
    let tag_path = tag_path(tag_name);
    let mut in_string = String::from_str("JSON_UNQUOTE(JSON_EXTRACT(tags, ");
    in_string.append(tag_path.as_str());
    in_string.append(")) IN (");
    let ghost head = in_string@;
    let ghost vs = strings_view(tag_values@);
    let n = tag_values.len();
    let mut i: usize = 0;
    while i < n
        invariant
            0 <= i <= n,
            n == tag_values@.len(),
            vs == strings_view(tag_values@),
            in_string@ == head + spec_in_marks(i as nat, n as nat),
            args_view(arguments@) == args_view(old(arguments)@) + text_args(vs.take(i as int)),
            old(arguments)@.is_prefix_of(arguments@),
        decreases n - i,
    {
        in_string.append("?");
        if i < n - 1 {
            in_string.append(",");
        } else {
            in_string.append(")");
        }
        let ghost before = arguments@;
        arguments.push(SqlArg::Text(tag_values[i].clone()));
        proof {
            lemma_args_view_push(before, SqlArg::Text(tag_values@[i as int]));
            assert(text_args(vs.take(i + 1)) =~= text_args(vs.take(i as int)).push(
                SqlArgView::Text(vs[i as int]),
            ));
            assert(old(arguments)@ =~= arguments@.subrange(0, old(arguments)@.len() as int));
        }
        i = i + 1;
    }
    assert(vs.take(n as int) =~= vs);
    in_string
}

/// The conditions of `suboperators` joined by AND.
pub fn and_to_sql(suboperators: &Vec<Operator>, arguments: &mut Vec<SqlArg>) -> (r: Result<
    String,
    ErrorCode,
>)
    ensures
        sql_as(r, old(arguments)@, final(arguments)@, spec_join(ops_view(suboperators@), " AND "@)),
    decreases suboperators, 2nat,
{
    join_operators(suboperators, " AND ", arguments)
}

/// The conditions of `suboperators` joined by OR.
pub fn or_to_sql(suboperators: &Vec<Operator>, arguments: &mut Vec<SqlArg>) -> (r: Result<
    String,
    ErrorCode,
>)
    ensures
        sql_as(r, old(arguments)@, final(arguments)@, spec_join(ops_view(suboperators@), " OR "@)),
    decreases suboperators, 2nat,
{
    join_operators(suboperators, " OR ", arguments)
}

/// The negation of a condition.
pub fn not_to_sql(suboperator: &Operator, arguments: &mut Vec<SqlArg>) -> (r: Result<
    String,
    ErrorCode,
>)
    ensures
        sql_as(
            r,
            old(arguments)@,
            final(arguments)@,
            spec_op_sql(OpView::Not(Box::new(suboperator@))),
        ),
    decreases suboperator, 1nat,
{
    let suboperator_string = operator_to_sql(suboperator, arguments)?;
    let mut s = String::from_str("NOT (");
    s.append(suboperator_string.as_str());
    s.append(")");
    Ok(s)
}

/// The conditions of `operators` joined by `join_str`, in parentheses;
/// the empty text for no conditions.
pub fn join_operators(operators: &Vec<Operator>, join_str: &str, arguments: &mut Vec<SqlArg>) -> (r:
    Result<String, ErrorCode>)
    ensures
        sql_as(r, old(arguments)@, final(arguments)@, spec_join(ops_view(operators@), join_str@)),
    decreases operators, 1nat,
{
    let ghost ov = ops_view(operators@);
    let mut s = String::new();
    if operators.len() > 0 {
        let mut body = String::new();
        let mut i: usize = 0;
        while i < operators.len()
            invariant
                0 <= i <= operators.len(),
                ov == ops_view(operators@),
                spec_join_body(ov.take(i as int), join_str@) matches Some((bs, ba)) && bs == body@
                    && args_view(arguments@) == args_view(old(arguments)@) + ba,
                old(arguments)@.is_prefix_of(arguments@),
            decreases operators.len() - i,
        {
            assert(ov.take(i + 1).drop_last() =~= ov.take(i as int));
            assert(decreases_to!(operators => operators@[i as int]));
            let ghost before = arguments@;
            let ghost prev = spec_join_body(ov.take(i as int), join_str@).unwrap();
            let sub = operator_to_sql(&operators[i], arguments);
            match sub {
                Ok(t) => {
                    if i > 0 {
                        body.append(join_str);
                    }
                    body.append(t.as_str());
                    proof {
                        let b = spec_op_sql(ov[i as int]).unwrap().1;
                        assert(args_view(arguments@) =~= args_view(old(arguments)@) + (prev.1 + b));
                        assert(old(arguments)@ =~= arguments@.subrange(
                            0,
                            old(arguments)@.len() as int,
                        )) by {
                            assert(before =~= arguments@.subrange(0, before.len() as int));
                        }
                    }
                },
                Err(e) => {
                    proof {
                        lemma_join_prefix_fails(ov, join_str@, i + 1);
                        assert(old(arguments)@ =~= arguments@.subrange(
                            0,
                            old(arguments)@.len() as int,
                        )) by {
                            assert(before =~= arguments@.subrange(0, before.len() as int));
                        }
                    }
                    return Err(e);
                },
            }
            i = i + 1;
        }
        assert(ov.take(i as int) =~= ov);
        s.append("(");
        s.append(body.as_str());
        s.append(")");
    }
    Ok(s)
}

/// The SQL condition of a query; the values it compares are appended to
/// `arguments`, one for each `?`.
pub fn operator_to_sql(op: &Operator, arguments: &mut Vec<SqlArg>) -> (r: Result<String, ErrorCode>)
    ensures
        sql_as(r, old(arguments)@, final(arguments)@, spec_op_sql(op@)),
    decreases op, 0nat,
{
    proof {
        lemma_op_view(*op);
    }
    match op {
        Operator::Eq(tag_name, target_value) => Ok(eq_to_sql(tag_name, target_value, arguments)),
        Operator::Neq(tag_name, target_value) => Ok(neq_to_sql(tag_name, target_value, arguments)),
        Operator::Gt(tag_name, target_value) => gt_to_sql(tag_name, target_value, arguments),
        Operator::Gte(tag_name, target_value) => gte_to_sql(tag_name, target_value, arguments),
        Operator::Lt(tag_name, target_value) => lt_to_sql(tag_name, target_value, arguments),
        Operator::Lte(tag_name, target_value) => lte_to_sql(tag_name, target_value, arguments),
        Operator::Like(tag_name, target_value) => like_to_sql(tag_name, target_value, arguments),
        Operator::In(tag_name, target_values) => Ok(in_to_sql(tag_name, target_values, arguments)),
        Operator::And(suboperators) => and_to_sql(suboperators, arguments),
        Operator::Or(suboperators) => or_to_sql(suboperators, arguments),
        Operator::Not(suboperator) => not_to_sql(suboperator, arguments),
    }
}

// ---------------------------------------------------------------------------
// Whole statements
// ---------------------------------------------------------------------------

/// What stands between `WHERE` and the type condition: the query's
/// condition followed by ` AND`, or nothing for an empty condition.
pub open spec fn spec_where_prefix(cond: Seq<char>) -> Seq<char> {
    if cond.len() > 0 {
        cond + " AND"@
    } else {
        Seq::empty()
    }
}

/// The SELECT statement of a search: the columns the options ask for
/// (`NULL` in place of the others), then the condition.
pub open spec fn spec_fetch_query(options: SearchOptions, cond: Seq<char>) -> Seq<char> {
    "SELECT "@ + (if options.retrieve_type {
        "type"@
    } else {
        "NULL"@
    }) + ", name, "@ + (if options.retrieve_value {
        "value"@
    } else {
        "NULL"@
    }) + ", "@ + (if options.retrieve_tags {
        "tags"@
    } else {
        "NULL"@
    }) + " FROM items WHERE "@ + spec_where_prefix(cond) + " type = ? AND wallet_id = ?"@
}

/// The counting statement of a search.
pub open spec fn spec_count_query(cond: Seq<char>) -> Seq<char> {
    "SELECT count(*) FROM items i WHERE "@ + spec_where_prefix(cond)
        + " i.type = ? AND i.wallet_id = ?"@
}

/// A whole statement with its arguments: the query's condition placed by
/// `statement`, the condition's arguments, then the type and the wallet id.
pub open spec fn statement_as(
    r: Result<(String, Vec<SqlArg>), ErrorCode>,
    wql: OpView,
    type_: Seq<char>,
    wallet_id: u64,
    statement: spec_fn(Seq<char>) -> Seq<char>,
) -> bool {
    match spec_op_sql(wql) {
        Some((cond, args)) => r matches Ok((q, a)) && q@ == statement(cond) && args_view(a@) == args
            + seq![SqlArgView::Text(type_), SqlArgView::UInt(wallet_id)],
        None => r == Err::<(String, Vec<SqlArg>), ErrorCode>(ErrorCode::InvalidStructure),
    }
}

/// Appends the type and the wallet id, the last two arguments of every
/// search statement.
fn push_type_and_wallet(arguments: &mut Vec<SqlArg>, type_: &str, wallet_id: u64)
    ensures
        args_view(final(arguments)@) == args_view(old(arguments)@) + seq![
            SqlArgView::Text(type_@),
            SqlArgView::UInt(wallet_id),
        ],
{
    arguments.push(SqlArg::Text(String::from_str(type_)));
    arguments.push(SqlArg::UInt(wallet_id));
    assert(args_view(arguments@) =~= args_view(old(arguments)@) + seq![
        SqlArgView::Text(type_@),
        SqlArgView::UInt(wallet_id),
    ]);
}

/// The condition followed by ` AND`, or nothing.
fn where_prefix(query_condition: String) -> (r: String)
    ensures
        r@ == spec_where_prefix(query_condition@),
{
    if query_condition.as_str().unicode_len() > 0 {
        let mut c = query_condition;
        c.append(" AND");
        c
    } else {
        String::new()
    }
}

/// The SELECT statement that searches the records of type `type_` in the
/// wallet `wallet_id` for those that `wql` selects, with its arguments.
pub fn wql_to_sql(wallet_id: u64, type_: &str, wql: &Operator, options: &SearchOptions) -> (r: Result<
    (String, Vec<SqlArg>),
    ErrorCode,
>)
    ensures
        statement_as(r, wql@, type_@, wallet_id, |c: Seq<char>| spec_fetch_query(*options, c)),
{
    let mut arguments: Vec<SqlArg> = Vec::new();
    let query_condition = operator_to_sql(wql, &mut arguments)?;
    let mut query_string = String::from_str("SELECT ");
    query_string.append(if options.retrieve_type { "type" } else { "NULL" });
    query_string.append(", name, ");
    query_string.append(if options.retrieve_value { "value" } else { "NULL" });
    query_string.append(", ");
    query_string.append(if options.retrieve_tags { "tags" } else { "NULL" });
    query_string.append(" FROM items WHERE ");
    query_string.append(where_prefix(query_condition).as_str());
    query_string.append(" type = ? AND wallet_id = ?");
    push_type_and_wallet(&mut arguments, type_, wallet_id);
    assert(args_view(Seq::empty()) =~= Seq::<SqlArgView>::empty());
    Ok((query_string, arguments))
}

/// The statement that counts the records of type `type_` in the wallet
/// `wallet_id` that `wql` selects, with its arguments.
pub fn wql_to_sql_count(wallet_id: u64, type_: &str, wql: &Operator) -> (r: Result<
    (String, Vec<SqlArg>),
    ErrorCode,
>)
    ensures
        statement_as(r, wql@, type_@, wallet_id, |c: Seq<char>| spec_count_query(c)),
{
    let mut arguments: Vec<SqlArg> = Vec::new();
    let query_condition = operator_to_sql(wql, &mut arguments)?;
    let mut query_string = String::from_str("SELECT count(*) FROM items i WHERE ");
    query_string.append(where_prefix(query_condition).as_str());
    query_string.append(" i.type = ? AND i.wallet_id = ?");
    push_type_and_wallet(&mut arguments, type_, wallet_id);
    assert(args_view(Seq::empty()) =~= Seq::<SqlArgView>::empty());
    Ok((query_string, arguments))
}

// ---------------------------------------------------------------------------
// Laws
// ---------------------------------------------------------------------------

/// An object with a single member parses to that member's condition.
pub proof fn law_single_member_object(key: Seq<char>, value: JsonView, with_and: bool)
    ensures
        spec_parse_object(seq![(key, value)], with_and) == spec_parse_operator(key, value, with_and),
{
    let fields = seq![(key, value)];
    assert(fields.drop_last() =~= Seq::<(Seq<char>, JsonView)>::empty());
    assert(spec_parse_fields(Seq::<(Seq<char>, JsonView)>::empty(), with_and) == Some(
        Seq::<OpView>::empty(),
    ));
    match spec_parse_operator(key, value, with_and) {
        Some(op) => {
            assert(Seq::<OpView>::empty().push(op) =~= seq![op]);
        },
        None => {},
    }
}

/// The MySQL dialect extends the Aurora one: every document that the
/// Aurora dialect (without `$and`) parses, the MySQL dialect parses to the
/// same query.
pub proof fn law_mysql_dialect_extends_aurora(doc: JsonView)
    ensures
        spec_parse_query(doc, false) is Some ==> spec_parse_query(doc, true) == spec_parse_query(
            doc,
            false,
        ),
{
    if let JsonView::Object(m) = doc {
        lemma_dialects_object(m);
    }
}

proof fn lemma_dialects_object(fields: Seq<(Seq<char>, JsonView)>)
    ensures
        spec_parse_object(fields, false) is Some ==> spec_parse_object(fields, true)
            == spec_parse_object(fields, false),
    decreases fields, 1nat,
{
    lemma_dialects_fields(fields);
}

proof fn lemma_dialects_fields(fields: Seq<(Seq<char>, JsonView)>)
    ensures
        spec_parse_fields(fields, false) is Some ==> spec_parse_fields(fields, true)
            == spec_parse_fields(fields, false),
    decreases fields, 0nat,
{
    if fields.len() > 0 {
        lemma_dialects_fields(fields.drop_last());
        lemma_dialects_operator(fields.last().0, fields.last().1);
    }
}

proof fn lemma_dialects_objects(items: Seq<JsonView>)
    ensures
        spec_parse_objects(items, false) is Some ==> spec_parse_objects(items, true)
            == spec_parse_objects(items, false),
    decreases items, 0nat,
{
    if items.len() > 0 {
        lemma_dialects_objects(items.drop_last());
        if let JsonView::Object(m) = items.last() {
            lemma_dialects_object(m);
        }
    }
}

proof fn lemma_dialects_operator(key: Seq<char>, value: JsonView)
    ensures
        spec_parse_operator(key, value, false) is Some ==> spec_parse_operator(key, value, true)
            == spec_parse_operator(key, value, false),
    decreases value, 0nat,
{
    match value {
        JsonView::Array(items) => {
            reveal_strlit("$and");
            reveal_strlit("$or");
            assert("$and"@.len() != "$or"@.len());
            lemma_dialects_objects(items);
        },
        JsonView::Object(m) => {
            lemma_dialects_object(m);
        },
        _ => {},
    }
}

/// Whether a query uses an order comparison or `$like` on an encrypted
/// tag (one whose name does not start with `~`).
pub open spec fn spec_refused(op: OpView) -> bool
    decreases op, 0nat,
{
    match op {
        OpView::Gt(n, _) => !spec_is_plain_tag(n),
        OpView::Gte(n, _) => !spec_is_plain_tag(n),
        OpView::Lt(n, _) => !spec_is_plain_tag(n),
        OpView::Lte(n, _) => !spec_is_plain_tag(n),
        OpView::Like(n, _) => !spec_is_plain_tag(n),
        OpView::And(ops) => spec_any_refused(ops),
        OpView::Or(ops) => spec_any_refused(ops),
        OpView::Not(b) => spec_refused(*b),
        _ => false,
    }
}

/// Whether one of `ops` is refused.
pub open spec fn spec_any_refused(ops: Seq<OpView>) -> bool
    decreases ops, 0nat,
{
    if ops.len() == 0 {
        false
    } else {
        spec_any_refused(ops.drop_last()) || spec_refused(ops.last())
    }
}

/// A query translates to SQL exactly when it uses no order comparison and
/// no `$like` on an encrypted tag.
pub proof fn law_translation_refuses_only_encrypted_comparisons(op: OpView)
    ensures
        spec_op_sql(op) is None <==> spec_refused(op),
    decreases op, 0nat,
{
    match op {
        OpView::And(ops) => {
            lemma_join_refused(ops, " AND "@);
        },
        OpView::Or(ops) => {
            lemma_join_refused(ops, " OR "@);
        },
        OpView::Not(b) => {
            law_translation_refuses_only_encrypted_comparisons(*b);
        },
        _ => {},
    }
}

proof fn lemma_join_refused(ops: Seq<OpView>, sep: Seq<char>)
    ensures
        spec_join_body(ops, sep) is None <==> spec_any_refused(ops),
    decreases ops, 0nat,
{
    if ops.len() > 0 {
        lemma_join_refused(ops.drop_last(), sep);
        law_translation_refuses_only_encrypted_comparisons(ops.last());
    }
}

/// The truth of a query over a record's tags, as SQL evaluates its
/// condition: `None` is SQL's unknown (a tag that is missing). AND and OR
/// are SQL's three-valued ones, NOT keeps unknown unknown. An empty AND or
/// OR translates to no condition at all, so it selects every record. The
/// order comparisons and LIKE are given by `compare`.
pub open spec fn spec_holds(
    op: OpView,
    tags: Map<Seq<char>, Seq<char>>,
    compare: spec_fn(OpView, Seq<char>) -> bool,
) -> Option<bool>
    decreases op, 0nat,
{
    match op {
        OpView::Eq(n, v) => if tags.contains_key(n) {
            Some(tags[n] == v)
        } else {
            None
        },
        OpView::Neq(n, v) => if tags.contains_key(n) {
            Some(tags[n] != v)
        } else {
            None
        },
        OpView::In(n, vs) => if tags.contains_key(n) {
            Some(vs.contains(tags[n]))
        } else {
            None
        },
        OpView::Gt(n, _) | OpView::Gte(n, _) | OpView::Lt(n, _) | OpView::Lte(n, _) | OpView::Like(
            n,
            _,
        ) => if tags.contains_key(n) {
            Some(compare(op, tags[n]))
        } else {
            None
        },
        OpView::And(ops) => spec_holds_all(ops, tags, compare),
        OpView::Or(ops) => if ops.len() == 0 {
            Some(true)
        } else {
            spec_holds_any(ops, tags, compare)
        },
        OpView::Not(b) => match spec_holds(*b, tags, compare) {
            Some(t) => Some(!t),
            None => None,
        },
    }
}

/// Three-valued AND of the truths of `ops`.
pub open spec fn spec_holds_all(
    ops: Seq<OpView>,
    tags: Map<Seq<char>, Seq<char>>,
    compare: spec_fn(OpView, Seq<char>) -> bool,
) -> Option<bool>
    decreases ops, 0nat,
{
    if ops.len() == 0 {
        Some(true)
    } else {
        match (spec_holds_all(ops.drop_last(), tags, compare), spec_holds(ops.last(), tags, compare)) {
            (Some(false), _) | (_, Some(false)) => Some(false),
            (Some(true), Some(true)) => Some(true),
            _ => None,
        }
    }
}

/// Three-valued OR of the truths of `ops` (false for none; the empty OR
/// of a query is read by `spec_holds`).
pub open spec fn spec_holds_any(
    ops: Seq<OpView>,
    tags: Map<Seq<char>, Seq<char>>,
    compare: spec_fn(OpView, Seq<char>) -> bool,
) -> Option<bool>
    decreases ops, 0nat,
{
    if ops.len() == 0 {
        Some(false)
    } else {
        match (spec_holds_any(ops.drop_last(), tags, compare), spec_holds(ops.last(), tags, compare)) {
            (Some(true), _) | (_, Some(true)) => Some(true),
            (Some(false), Some(false)) => Some(false),
            _ => None,
        }
    }
}

/// Simplifying a query does not change which records it selects.
pub proof fn law_optimise_keeps_meaning(
    op: OpView,
    tags: Map<Seq<char>, Seq<char>>,
    compare: spec_fn(OpView, Seq<char>) -> bool,
)
    ensures
        spec_holds(spec_optimise(op), tags, compare) == spec_holds(op, tags, compare),
{
    match op {
        OpView::And(s) => {
            if s.len() == 1 {
                assert(s.drop_last() =~= Seq::<OpView>::empty());
                assert(spec_holds_all(s.drop_last(), tags, compare) == Some(true));
                assert(spec_optimise(op) == s[0]);
                assert(spec_holds(op, tags, compare) == spec_holds_all(s, tags, compare));
                assert(spec_holds_all(s, tags, compare) == spec_holds(s[0], tags, compare));
            } else {
                assert(spec_optimise(op) == op);
            }
        },
        OpView::Or(s) => {
            if s.len() == 1 {
                assert(s.drop_last() =~= Seq::<OpView>::empty());
                assert(spec_holds_any(s.drop_last(), tags, compare) == Some(false));
                assert(spec_optimise(op) == s[0]);
                assert(spec_holds(op, tags, compare) == spec_holds_any(s, tags, compare));
                assert(spec_holds_any(s, tags, compare) == spec_holds(s[0], tags, compare));
            } else {
                assert(spec_optimise(op) == op);
            }
        },
        OpView::Not(b) => {
            if let OpView::Not(inner) = *b {
                assert(spec_holds(*b, tags, compare) == match spec_holds(*inner, tags, compare) {
                    Some(t) => Some(!t),
                    None => None,
                });
            }
        },
        OpView::In(k, t) => {
            if t.len() == 1 && tags.contains_key(k) {
                assert(t.contains(tags[k]) == (tags[k] == t[0])) by {
                    if t.contains(tags[k]) {
                        let i = choose|i: int| 0 <= i < t.len() && t[i] == tags[k];
                        assert(i == 0);
                    } else {
                        assert(t[0] == t[0]);
                    }
                }
            }
        },
        _ => {},
    }
}

/// The values a query compares with, in the order they are written: one
/// for each comparison, all of an `$in` list, and those of the parts of an
/// AND, OR or NOT in order. Tag names are not values.
pub open spec fn spec_values(op: OpView) -> Seq<Seq<char>>
    decreases op, 0nat,
{
    match op {
        OpView::Eq(_, v) => seq![v],
        OpView::Neq(_, v) => seq![v],
        OpView::Gt(_, v) => seq![v],
        OpView::Gte(_, v) => seq![v],
        OpView::Lt(_, v) => seq![v],
        OpView::Lte(_, v) => seq![v],
        OpView::Like(_, v) => seq![v],
        OpView::In(_, vs) => vs,
        OpView::And(ops) => spec_values_all(ops),
        OpView::Or(ops) => spec_values_all(ops),
        OpView::Not(b) => spec_values(*b),
    }
}

/// The values of a list of queries, one query after the other.
pub open spec fn spec_values_all(ops: Seq<OpView>) -> Seq<Seq<char>>
    decreases ops, 0nat,
{
    if ops.len() == 0 {
        Seq::empty()
    } else {
        spec_values_all(ops.drop_last()) + spec_values(ops.last())
    }
}

proof fn lemma_text_args_add(a: Seq<Seq<char>>, b: Seq<Seq<char>>)
    ensures
        text_args(a + b) == text_args(a) + text_args(b),
{
    assert(text_args(a + b) =~= text_args(a) + text_args(b));
}

/// The arguments a condition binds are the values the query compares with,
/// as texts, in order: each `?` of a comparison is bound to the compared
/// value, never to the tag name. So `{"name": {"$neq": "John"}}` binds
/// `"John"`, and a query with values `v1 .. vk` binds `v1 .. vk`.
pub proof fn law_arguments_are_the_values(op: OpView)
    ensures
        spec_op_sql(op) matches Some((_, a)) ==> a == text_args(spec_values(op)),
    decreases op, 0nat,
{
    match op {
        OpView::Eq(_, v) | OpView::Neq(_, v) | OpView::Gt(_, v) | OpView::Gte(_, v) | OpView::Lt(_, v)
        | OpView::Lte(_, v) | OpView::Like(_, v) => {
            assert(text_args(seq![v]) =~= seq![SqlArgView::Text(v)]);
        },
        OpView::And(ops) => {
            lemma_join_arguments(ops, " AND "@);
        },
        OpView::Or(ops) => {
            lemma_join_arguments(ops, " OR "@);
        },
        OpView::Not(b) => {
            law_arguments_are_the_values(*b);
        },
        OpView::In(_, _) => {},
    }
}

proof fn lemma_join_arguments(ops: Seq<OpView>, sep: Seq<char>)
    ensures
        spec_join_body(ops, sep) matches Some((_, a)) ==> a == text_args(spec_values_all(ops)),
    decreases ops, 0nat,
{
    if ops.len() == 0 {
        assert(text_args(Seq::empty()) =~= Seq::<SqlArgView>::empty());
    } else {
        lemma_join_arguments(ops.drop_last(), sep);
        law_arguments_are_the_values(ops.last());
        lemma_text_args_add(spec_values_all(ops.drop_last()), spec_values(ops.last()));
    }
}

/// The arguments of a whole search or count statement: the query's values
/// in order, then the record type and the wallet id.
pub proof fn law_statement_arguments(
    r: Result<(String, Vec<SqlArg>), ErrorCode>,
    wql: OpView,
    type_: Seq<char>,
    wallet_id: u64,
    statement: spec_fn(Seq<char>) -> Seq<char>,
)
    requires
        statement_as(r, wql, type_, wallet_id, statement),
    ensures
        r matches Ok((_, a)) ==> args_view(a@) == text_args(spec_values(wql)) + seq![
            SqlArgView::Text(type_),
            SqlArgView::UInt(wallet_id),
        ],
{
    law_arguments_are_the_values(wql);
}

/// Each comparison binds exactly its value: for every tag name `n` and
/// value `v`, the translation of `n != v` (and of `=`, `>`, `>=`, `<`,
/// `<=`, LIKE where it translates) binds `[v]`.
pub proof fn law_comparison_binds_its_value(n: Seq<char>, v: Seq<char>)
    ensures
        spec_op_sql(OpView::Eq(n, v)) matches Some((_, a)) && a == seq![SqlArgView::Text(v)],
        spec_op_sql(OpView::Neq(n, v)) matches Some((_, a)) && a == seq![SqlArgView::Text(v)],
        spec_op_sql(OpView::Gt(n, v)) matches Some((_, a)) ==> a == seq![SqlArgView::Text(v)],
        spec_op_sql(OpView::Gte(n, v)) matches Some((_, a)) ==> a == seq![SqlArgView::Text(v)],
        spec_op_sql(OpView::Lt(n, v)) matches Some((_, a)) ==> a == seq![SqlArgView::Text(v)],
        spec_op_sql(OpView::Lte(n, v)) matches Some((_, a)) ==> a == seq![SqlArgView::Text(v)],
        spec_op_sql(OpView::Like(n, v)) matches Some((_, a)) ==> a == seq![SqlArgView::Text(v)],
{
    law_arguments_are_the_values(OpView::Eq(n, v));
    law_arguments_are_the_values(OpView::Neq(n, v));
    law_arguments_are_the_values(OpView::Gt(n, v));
    law_arguments_are_the_values(OpView::Gte(n, v));
    law_arguments_are_the_values(OpView::Lt(n, v));
    law_arguments_are_the_values(OpView::Lte(n, v));
    law_arguments_are_the_values(OpView::Like(n, v));
    assert(text_args(seq![v]) =~= seq![SqlArgView::Text(v)]);
}

/// Two queries of the same shape: the same tree, the same tag names and
/// `$in` lists of the same lengths; the values compared may differ.
pub open spec fn spec_same_shape(a: OpView, b: OpView) -> bool
    decreases a, 0nat,
{
    match (a, b) {
        (OpView::Eq(n, _), OpView::Eq(m, _)) => n == m,
        (OpView::Neq(n, _), OpView::Neq(m, _)) => n == m,
        (OpView::Gt(n, _), OpView::Gt(m, _)) => n == m,
        (OpView::Gte(n, _), OpView::Gte(m, _)) => n == m,
        (OpView::Lt(n, _), OpView::Lt(m, _)) => n == m,
        (OpView::Lte(n, _), OpView::Lte(m, _)) => n == m,
        (OpView::Like(n, _), OpView::Like(m, _)) => n == m,
        (OpView::In(n, vs), OpView::In(m, ws)) => n == m && vs.len() == ws.len(),
        (OpView::Not(x), OpView::Not(y)) => spec_same_shape(*x, *y),
        (OpView::And(s), OpView::And(t)) => spec_same_shapes(s, t),
        (OpView::Or(s), OpView::Or(t)) => spec_same_shapes(s, t),
        _ => false,
    }
}

/// Two lists of queries of the same shape, item by item.
pub open spec fn spec_same_shapes(s: Seq<OpView>, t: Seq<OpView>) -> bool
    decreases s, 0nat,
{
    if s.len() == 0 {
        t.len() == 0
    } else {
        t.len() == s.len() && spec_same_shapes(s.drop_last(), t.drop_last()) && spec_same_shape(
            s.last(),
            t.last(),
        )
    }
}

/// Queries of the same shape translate to the same condition, with as many
/// arguments, or both fail.
proof fn lemma_shape_sql(a: OpView, b: OpView)
    requires
        spec_same_shape(a, b),
    ensures
        spec_op_sql(a) is Some <==> spec_op_sql(b) is Some,
        spec_op_sql(a) matches Some((x, p)) ==> spec_op_sql(b) matches Some((y, q)) && x == y
            && p.len() == q.len(),
    decreases a, 0nat,
{
    match (a, b) {
        (OpView::Not(x), OpView::Not(y)) => {
            lemma_shape_sql(*x, *y);
        },
        (OpView::And(s), OpView::And(t)) => {
            lemma_shape_join(s, t, " AND "@);
        },
        (OpView::Or(s), OpView::Or(t)) => {
            lemma_shape_join(s, t, " OR "@);
        },
        _ => {},
    }
}

proof fn lemma_shape_join(s: Seq<OpView>, t: Seq<OpView>, sep: Seq<char>)
    requires
        spec_same_shapes(s, t),
    ensures
        s.len() == t.len(),
        spec_join_body(s, sep) is Some <==> spec_join_body(t, sep) is Some,
        spec_join_body(s, sep) matches Some((x, p)) ==> spec_join_body(t, sep) matches Some((y, q))
            && x == y && p.len() == q.len(),
    decreases s, 0nat,
{
    if s.len() > 0 {
        lemma_shape_join(s.drop_last(), t.drop_last(), sep);
        lemma_shape_sql(s.last(), t.last());
    }
}

/// The search statement selects, in this order, the `type` column exactly
/// when the options ask for the type, the `name` column always, the
/// `value` column exactly when they ask for the value, and the `tags`
/// column exactly when they ask for the tags (`NULL` in place of a column
/// not asked for); it ends by binding the type and the wallet.
pub proof fn law_search_statement_reads_what_is_asked(options: SearchOptions, cond: Seq<char>)
    ensures
        ("SELECT type, name, "@).is_prefix_of(spec_fetch_query(options, cond)) <==> options.retrieve_type,
        ("SELECT NULL, name, "@).is_prefix_of(spec_fetch_query(options, cond))
            <==> !options.retrieve_type,
        ("value, "@).is_prefix_of(spec_fetch_query(options, cond).skip(19)) <==> options.retrieve_value,
        ("NULL, "@).is_prefix_of(spec_fetch_query(options, cond).skip(19)) <==> !options.retrieve_value,
        (("value, tags FROM items WHERE "@).is_prefix_of(spec_fetch_query(options, cond).skip(19)) || (
        "NULL, tags FROM items WHERE "@).is_prefix_of(spec_fetch_query(options, cond).skip(19)))
            <==> options.retrieve_tags,
        (" type = ? AND wallet_id = ?"@).is_suffix_of(spec_fetch_query(options, cond)),
{
    let q = spec_fetch_query(options, cond);
    reveal_strlit("SELECT ");
    reveal_strlit("type");
    reveal_strlit("NULL");
    reveal_strlit(", name, ");
    reveal_strlit("value");
    reveal_strlit(", ");
    reveal_strlit("tags");
    reveal_strlit(" FROM items WHERE ");
    reveal_strlit(" type = ? AND wallet_id = ?");
    reveal_strlit("SELECT type, name, ");
    reveal_strlit("SELECT NULL, name, ");
    reveal_strlit("value, ");
    reveal_strlit("NULL, ");
    reveal_strlit("value, tags FROM items WHERE ");
    reveal_strlit("NULL, tags FROM items WHERE ");
    let c1 = if options.retrieve_type {
        "type"@
    } else {
        "NULL"@
    };
    let c2 = if options.retrieve_value {
        "value"@
    } else {
        "NULL"@
    };
    let c3 = if options.retrieve_tags {
        "tags"@
    } else {
        "NULL"@
    };
    let head = "SELECT "@ + c1 + ", name, "@;
    let rest = c2 + ", "@ + c3 + " FROM items WHERE "@ + spec_where_prefix(cond)
        + " type = ? AND wallet_id = ?"@;
    assert(q =~= head + rest);
    assert(head.len() == 19);
    assert(q.skip(19) =~= rest);
    if options.retrieve_type {
        assert(q.subrange(0, 19) =~= "SELECT type, name, "@);
        assert(q[7] != "SELECT NULL, name, "@[7]);
    } else {
        assert(q.subrange(0, 19) =~= "SELECT NULL, name, "@);
        assert(q[7] != "SELECT type, name, "@[7]);
    }
    let r = q.skip(19);
    if options.retrieve_value {
        assert(r.subrange(0, 7) =~= "value, "@);
        assert(r[0] != "NULL, "@[0]);
        assert(r[0] != "NULL, tags FROM items WHERE "@[0]);
        if options.retrieve_tags {
            assert(r.subrange(0, 29) =~= "value, tags FROM items WHERE "@);
        } else {
            assert(r[7] != "value, tags FROM items WHERE "@[7]);
        }
    } else {
        assert(r.subrange(0, 6) =~= "NULL, "@);
        assert(r[0] != "value, "@[0]);
        assert(r[0] != "value, tags FROM items WHERE "@[0]);
        if options.retrieve_tags {
            assert(r.subrange(0, 28) =~= "NULL, tags FROM items WHERE "@);
        } else {
            assert(r[6] != "NULL, tags FROM items WHERE "@[6]);
        }
    }
    let tail = " type = ? AND wallet_id = ?"@;
    assert(q.subrange(q.len() - tail.len(), q.len() as int) =~= tail);
}

/// Values never reach the SQL text: queries of the same shape, whatever
/// the values they compare, give the same condition and the same search
/// and count statements, for every record type and wallet (the statements
/// do not depend on those either). Values, the type and the wallet id are
/// only bound to `?` placeholders, and both queries bind as many.
pub proof fn law_values_reach_sql_only_as_arguments(a: OpView, b: OpView, options: SearchOptions)
    requires
        spec_same_shape(a, b),
    ensures
        spec_op_sql(a) is Some <==> spec_op_sql(b) is Some,
        spec_op_sql(a) matches Some((c1, args1)) ==> spec_op_sql(b) matches Some((c2, args2)) && {
            &&& c1 == c2
            &&& args1.len() == args2.len()
            &&& spec_fetch_query(options, c1) == spec_fetch_query(options, c2)
            &&& spec_count_query(c1) == spec_count_query(c2)
        },
{
    lemma_shape_sql(a, b);
}

/// The number of `?` placeholders in a text.
pub open spec fn spec_count_marks(s: Seq<char>) -> nat
    decreases s.len(),
{
    if s.len() == 0 {
        0
    } else {
        spec_count_marks(s.drop_last()) + if s.last() == '?' {
            1nat
        } else {
            0nat
        }
    }
}

/// A text with no `?`.
pub open spec fn spec_unmarked(s: Seq<char>) -> bool {
    forall|i: int| 0 <= i < s.len() ==> s[i] != '?'
}

proof fn lemma_count_add(a: Seq<char>, b: Seq<char>)
    ensures
        spec_count_marks(a + b) == spec_count_marks(a) + spec_count_marks(b),
    decreases b.len(),
{
    if b.len() == 0 {
        assert(a + b =~= a);
    } else {
        lemma_count_add(a, b.drop_last());
        assert((a + b).drop_last() =~= a + b.drop_last());
    }
}

proof fn lemma_no_marks(s: Seq<char>)
    requires
        spec_unmarked(s),
    ensures
        spec_count_marks(s) == 0,
    decreases s.len(),
{
    if s.len() > 0 {
        lemma_no_marks(s.drop_last());
    }
}

proof fn lemma_one_mark(s: Seq<char>, k: int)
    requires
        0 <= k < s.len(),
        s[k] == '?',
        forall|i: int| 0 <= i < s.len() && i != k ==> s[i] != '?',
    ensures
        spec_count_marks(s) == 1,
{
    let a = s.take(k);
    let b = s.skip(k + 1);
    assert(s =~= a + seq!['?'] + b);
    lemma_no_marks(a);
    lemma_no_marks(b);
    lemma_count_add(a, seq!['?']);
    lemma_count_add(a + seq!['?'], b);
    assert(seq!['?'].drop_last() =~= Seq::<char>::empty());
    assert(spec_count_marks(seq!['?']) == 1) by {
        assert(spec_count_marks(seq!['?'].drop_last()) == 0);
    }
}

proof fn lemma_two_marks(s: Seq<char>, k1: int, k2: int)
    requires
        0 <= k1 < k2 < s.len(),
        s[k1] == '?',
        s[k2] == '?',
        forall|i: int| 0 <= i < s.len() && i != k1 && i != k2 ==> s[i] != '?',
    ensures
        spec_count_marks(s) == 2,
{
    let a = s.take(k1 + 1);
    let b = s.skip(k1 + 1);
    assert(s =~= a + b);
    lemma_one_mark(a, k1);
    lemma_one_mark(b, k2 - k1 - 1);
    lemma_count_add(a, b);
}

/// The placeholders of the fixed parts of the statements.
proof fn lemma_literal_marks()
    ensures
        spec_unmarked(" AND "@),
        spec_unmarked(" OR "@),
        spec_count_marks("'$.\""@) == 0,
        spec_count_marks("\"'"@) == 0,
        spec_count_marks("(JSON_UNQUOTE(JSON_EXTRACT(tags, "@) == 0,
        spec_count_marks("JSON_UNQUOTE(JSON_EXTRACT(tags, "@) == 0,
        spec_count_marks(")) IN ("@) == 0,
        spec_count_marks(","@) == 0,
        spec_count_marks(")"@) == 0,
        spec_count_marks(" AND "@) == 0,
        spec_count_marks(" OR "@) == 0,
        spec_count_marks("("@) == 0,
        spec_count_marks("NOT ("@) == 0,
        spec_count_marks("SELECT "@) == 0,
        spec_count_marks("type"@) == 0,
        spec_count_marks("NULL"@) == 0,
        spec_count_marks(", name, "@) == 0,
        spec_count_marks("value"@) == 0,
        spec_count_marks(", "@) == 0,
        spec_count_marks("tags"@) == 0,
        spec_count_marks(" FROM items WHERE "@) == 0,
        spec_count_marks(" AND"@) == 0,
        spec_count_marks("SELECT count(*) FROM items i WHERE "@) == 0,
        spec_count_marks(")) = ?)"@) == 1,
        spec_count_marks(")) != ?)"@) == 1,
        spec_count_marks(")) > ?)"@) == 1,
        spec_count_marks(")) >= ?)"@) == 1,
        spec_count_marks(")) < ?)"@) == 1,
        spec_count_marks(")) <= ?)"@) == 1,
        spec_count_marks(")) LIKE ?)"@) == 1,
        spec_count_marks("?"@) == 1,
        spec_count_marks(" type = ? AND wallet_id = ?"@) == 2,
        spec_count_marks(" i.type = ? AND i.wallet_id = ?"@) == 2,
{
    reveal_strlit("'$.\"");
    lemma_no_marks("'$.\""@);
    reveal_strlit("\"'");
    lemma_no_marks("\"'"@);
    reveal_strlit("(JSON_UNQUOTE(JSON_EXTRACT(tags, ");
    lemma_no_marks("(JSON_UNQUOTE(JSON_EXTRACT(tags, "@);
    reveal_strlit("JSON_UNQUOTE(JSON_EXTRACT(tags, ");
    lemma_no_marks("JSON_UNQUOTE(JSON_EXTRACT(tags, "@);
    reveal_strlit(")) IN (");
    lemma_no_marks(")) IN ("@);
    reveal_strlit(",");
    lemma_no_marks(","@);
    reveal_strlit(")");
    lemma_no_marks(")"@);
    reveal_strlit(" AND ");
    lemma_no_marks(" AND "@);
    reveal_strlit(" OR ");
    lemma_no_marks(" OR "@);
    reveal_strlit("(");
    lemma_no_marks("("@);
    reveal_strlit("NOT (");
    lemma_no_marks("NOT ("@);
    reveal_strlit("SELECT ");
    lemma_no_marks("SELECT "@);
    reveal_strlit("type");
    lemma_no_marks("type"@);
    reveal_strlit("NULL");
    lemma_no_marks("NULL"@);
    reveal_strlit(", name, ");
    lemma_no_marks(", name, "@);
    reveal_strlit("value");
    lemma_no_marks("value"@);
    reveal_strlit(", ");
    lemma_no_marks(", "@);
    reveal_strlit("tags");
    lemma_no_marks("tags"@);
    reveal_strlit(" FROM items WHERE ");
    lemma_no_marks(" FROM items WHERE "@);
    reveal_strlit(" AND");
    lemma_no_marks(" AND"@);
    reveal_strlit("SELECT count(*) FROM items i WHERE ");
    lemma_no_marks("SELECT count(*) FROM items i WHERE "@);
    reveal_strlit(")) = ?)");
    lemma_one_mark(")) = ?)"@, 5);
    reveal_strlit(")) != ?)");
    lemma_one_mark(")) != ?)"@, 6);
    reveal_strlit(")) > ?)");
    lemma_one_mark(")) > ?)"@, 5);
    reveal_strlit(")) >= ?)");
    lemma_one_mark(")) >= ?)"@, 6);
    reveal_strlit(")) < ?)");
    lemma_one_mark(")) < ?)"@, 5);
    reveal_strlit(")) <= ?)");
    lemma_one_mark(")) <= ?)"@, 6);
    reveal_strlit(")) LIKE ?)");
    lemma_one_mark(")) LIKE ?)"@, 8);
    reveal_strlit("?");
    lemma_one_mark("?"@, 0);
    reveal_strlit(" type = ? AND wallet_id = ?");
    lemma_two_marks(" type = ? AND wallet_id = ?"@, 8, 26);
    reveal_strlit(" i.type = ? AND i.wallet_id = ?");
    lemma_two_marks(" i.type = ? AND i.wallet_id = ?"@, 10, 30);
}

proof fn lemma_in_marks(i: nat, n: nat)
    ensures
        spec_count_marks(spec_in_marks(i, n)) == i,
    decreases i,
{
    if i > 0 {
        lemma_literal_marks();
        lemma_in_marks((i - 1) as nat, n);
        let tail = if i - 1 < n - 1 {
            ","@
        } else {
            ")"@
        };
        lemma_count_add(spec_in_marks((i - 1) as nat, n), "?"@);
        lemma_count_add(spec_in_marks((i - 1) as nat, n) + "?"@, tail);
    }
}

/// No tag name in the query holds a `?`.
pub open spec fn spec_names_unmarked(op: OpView) -> bool
    decreases op, 0nat,
{
    match op {
        OpView::Eq(n, _) => spec_unmarked(n),
        OpView::Neq(n, _) => spec_unmarked(n),
        OpView::Gt(n, _) => spec_unmarked(n),
        OpView::Gte(n, _) => spec_unmarked(n),
        OpView::Lt(n, _) => spec_unmarked(n),
        OpView::Lte(n, _) => spec_unmarked(n),
        OpView::Like(n, _) => spec_unmarked(n),
        OpView::In(n, _) => spec_unmarked(n),
        OpView::And(ops) => spec_all_names_unmarked(ops),
        OpView::Or(ops) => spec_all_names_unmarked(ops),
        OpView::Not(b) => spec_names_unmarked(*b),
    }
}

/// No tag name in `ops` holds a `?`.
pub open spec fn spec_all_names_unmarked(ops: Seq<OpView>) -> bool
    decreases ops, 0nat,
{
    if ops.len() == 0 {
        true
    } else {
        spec_all_names_unmarked(ops.drop_last()) && spec_names_unmarked(ops.last())
    }
}

/// A comparison's text: `open` + the tag's path + `close`.
proof fn lemma_compare_marks(open: Seq<char>, n: Seq<char>, close: Seq<char>)
    requires
        spec_unmarked(n),
    ensures
        spec_count_marks(open + spec_tag_path(n) + close) == spec_count_marks(open) + spec_count_marks(
            close,
        ),
{
    lemma_literal_marks();
    lemma_no_marks(n);
    lemma_count_add("'$.\""@, n);
    lemma_count_add("'$.\""@ + n, "\"'"@);
    lemma_count_add(open, spec_tag_path(n));
    lemma_count_add(open + spec_tag_path(n), close);
}

/// The condition a query translates to has as many `?` placeholders as it
/// binds arguments, where no tag name holds a `?` (tag names are written
/// into the text; values are bound).
pub proof fn law_condition_placeholders_match_arguments(op: OpView)
    requires
        spec_names_unmarked(op),
    ensures
        spec_op_sql(op) matches Some((s, a)) ==> spec_count_marks(s) == a.len(),
    decreases op, 0nat,
{
    lemma_literal_marks();
    match op {
        OpView::Eq(n, _) => lemma_compare_marks("(JSON_UNQUOTE(JSON_EXTRACT(tags, "@, n, ")) = ?)"@),
        OpView::Neq(n, _) => lemma_compare_marks(
            "(JSON_UNQUOTE(JSON_EXTRACT(tags, "@,
            n,
            ")) != ?)"@,
        ),
        OpView::Gt(n, _) => lemma_compare_marks("(JSON_UNQUOTE(JSON_EXTRACT(tags, "@, n, ")) > ?)"@),
        OpView::Gte(n, _) => lemma_compare_marks(
            "(JSON_UNQUOTE(JSON_EXTRACT(tags, "@,
            n,
            ")) >= ?)"@,
        ),
        OpView::Lt(n, _) => lemma_compare_marks("JSON_UNQUOTE(JSON_EXTRACT(tags, "@, n, ")) < ?)"@),
        OpView::Lte(n, _) => lemma_compare_marks(
            "(JSON_UNQUOTE(JSON_EXTRACT(tags, "@,
            n,
            ")) <= ?)"@,
        ),
        OpView::Like(n, _) => lemma_compare_marks(
            "(JSON_UNQUOTE(JSON_EXTRACT(tags, "@,
            n,
            ")) LIKE ?)"@,
        ),
        OpView::In(n, vs) => {
            lemma_compare_marks("JSON_UNQUOTE(JSON_EXTRACT(tags, "@, n, ")) IN ("@);
            lemma_in_marks(vs.len(), vs.len());
            lemma_count_add(
                "JSON_UNQUOTE(JSON_EXTRACT(tags, "@ + spec_tag_path(n) + ")) IN ("@,
                spec_in_marks(vs.len(), vs.len()),
            );
        },
        OpView::And(ops) => {
            lemma_join_marks(ops, " AND "@);
            if let Some((b, _)) = spec_join_body(ops, " AND "@) {
                lemma_count_add("("@, b);
                lemma_count_add("("@ + b, ")"@);
            }
        },
        OpView::Or(ops) => {
            lemma_join_marks(ops, " OR "@);
            if let Some((b, _)) = spec_join_body(ops, " OR "@) {
                lemma_count_add("("@, b);
                lemma_count_add("("@ + b, ")"@);
            }
        },
        OpView::Not(b) => {
            law_condition_placeholders_match_arguments(*b);
            if let Some((t, _)) = spec_op_sql(*b) {
                lemma_count_add("NOT ("@, t);
                lemma_count_add("NOT ("@ + t, ")"@);
            }
        },
    }
}

proof fn lemma_join_marks(ops: Seq<OpView>, sep: Seq<char>)
    requires
        spec_all_names_unmarked(ops),
        spec_unmarked(sep),
    ensures
        spec_join_body(ops, sep) matches Some((s, a)) ==> spec_count_marks(s) == a.len(),
    decreases ops, 0nat,
{
    if ops.len() > 0 {
        lemma_join_marks(ops.drop_last(), sep);
        law_condition_placeholders_match_arguments(ops.last());
        if let (Some((s, a)), Some((t, b))) = (
            spec_join_body(ops.drop_last(), sep),
            spec_op_sql(ops.last()),
        ) {
            lemma_no_marks(sep);
            lemma_count_add(s, sep);
            lemma_count_add(s + sep, t);
        }
    }
}

/// A search's statements have as many `?` placeholders as arguments, where
/// no tag name holds a `?`: the condition's, then the type and the wallet.
pub proof fn law_statement_placeholders_match_arguments(op: OpView, options: SearchOptions)
    requires
        spec_names_unmarked(op),
    ensures
        spec_op_sql(op) matches Some((cond, args)) ==> {
            &&& spec_count_marks(spec_fetch_query(options, cond)) == args.len() + 2
            &&& spec_count_marks(spec_count_query(cond)) == args.len() + 2
        },
{
    law_condition_placeholders_match_arguments(op);
    lemma_literal_marks();
    if let Some((cond, args)) = spec_op_sql(op) {
        let w = spec_where_prefix(cond);
        if cond.len() > 0 {
            lemma_count_add(cond, " AND"@);
        }
        assert(spec_count_marks(w) == args.len()) by {
            if cond.len() == 0 {
                assert(spec_count_marks(Seq::<char>::empty()) == 0);
                lemma_no_marks(cond);
            }
        }
        let t = if options.retrieve_type {
            "type"@
        } else {
            "NULL"@
        };
        let v = if options.retrieve_value {
            "value"@
        } else {
            "NULL"@
        };
        let g = if options.retrieve_tags {
            "tags"@
        } else {
            "NULL"@
        };
        lemma_count_add("SELECT "@, t);
        lemma_count_add("SELECT "@ + t, ", name, "@);
        lemma_count_add("SELECT "@ + t + ", name, "@, v);
        lemma_count_add("SELECT "@ + t + ", name, "@ + v, ", "@);
        lemma_count_add("SELECT "@ + t + ", name, "@ + v + ", "@, g);
        lemma_count_add("SELECT "@ + t + ", name, "@ + v + ", "@ + g, " FROM items WHERE "@);
        lemma_count_add("SELECT "@ + t + ", name, "@ + v + ", "@ + g + " FROM items WHERE "@, w);
        lemma_count_add(
            "SELECT "@ + t + ", name, "@ + v + ", "@ + g + " FROM items WHERE "@ + w,
            " type = ? AND wallet_id = ?"@,
        );
        lemma_count_add("SELECT count(*) FROM items i WHERE "@, w);
        lemma_count_add(
            "SELECT count(*) FROM items i WHERE "@ + w,
            " i.type = ? AND i.wallet_id = ?"@,
        );
    }
}

} // verus!
