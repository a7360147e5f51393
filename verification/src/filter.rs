//! Queries with a list of conditions and a limit, and the numbering of their
//! parameters.
use vstd::prelude::*;
use crate::fts::{limit_param, limit_value};
use crate::task::{Statement, StatementModel, Value, ValueModel};
use crate::text::{decimal, join, push_decimal, push_joined};

verus! {

/// A condition of a query: a text that ends where the number of its parameter
/// belongs, and the value of that parameter.
pub struct Condition {
    pub clause: String,
    pub value: String,
}

/// The model of a [`Condition`].
#[verifier::ext_equal]
pub struct ConditionModel {
    pub clause: Seq<char>,
    pub value: Seq<char>,
}

impl DeepView for Condition {
    type V = ConditionModel;

    open spec fn deep_view(&self) -> ConditionModel {
        ConditionModel { clause: self.clause@, value: self.value@ }
    }
}

/// The condition `clause` where it has a value; no condition otherwise.
pub open spec fn when_given(clause: Seq<char>, value: Option<Seq<char>>) -> Seq<ConditionModel> {
    match value {
        Some(value) => seq![ConditionModel { clause, value }],
        None => seq![],
    }
}

/// Adds the condition `clause` where it has a value.
pub fn push_when_given(conditions: &mut Vec<Condition>, clause: &str, value: Option<&str>)
    ensures
        final(conditions).deep_view() == old(conditions).deep_view() + when_given(
            clause@,
            value.deep_view(),
        ),
{
    let ghost start = conditions.deep_view();
    if let Some(value) = value {
        conditions.push(Condition { clause: clause.to_string(), value: value.to_string() });
    }
    assert(conditions.deep_view() =~= start + when_given(clause@, value.deep_view()));
}

/// The texts of the conditions, each with the number of its parameter: the first
/// has parameter 1, the next 2, and so on.
pub open spec fn numbered(conditions: Seq<ConditionModel>) -> Seq<Seq<char>> {
    Seq::new(conditions.len(), |i: int| conditions[i].clause + decimal((i + 1) as nat))
}

/// The restriction to what meets all the conditions.
pub open spec fn where_all(conditions: Seq<ConditionModel>) -> Seq<char> {
    if conditions.len() == 0 {
        Seq::<char>::empty()
    } else {
        " WHERE "@ + join(numbered(conditions), " AND "@)
    }
}

/// The query that starts with `select`, is restricted to what meets all of
/// `conditions`, and ends with `order` and the limit.
pub open spec fn limited_query(
    select: Seq<char>,
    conditions: Seq<ConditionModel>,
    order: Seq<char>,
    limit: usize,
) -> StatementModel {
    StatementModel {
        sql: select + where_all(conditions) + order + " LIMIT ?"@ + decimal(
            conditions.len() + 1,
        ),
        params: conditions.map_values(|c: ConditionModel| ValueModel::Text(c.value)).push(
            ValueModel::Integer(limit_value(limit)),
        ),
    }
}

/// Writes the query that starts with `select`, is restricted to what meets all of
/// `conditions`, and ends with `order` and the limit.
pub fn build_limited_query(
    select: &str,
    conditions: Vec<Condition>,
    order: &str,
    limit: usize,
) -> (statement: Statement)
    ensures
        statement.deep_view() == limited_query(
            select@,
            conditions.deep_view(),
            order@,
            limit,
        ),
{
    let ghost model = conditions.deep_view();
    let ghost values = model.map_values(|c: ConditionModel| ValueModel::Text(c.value));
    let mut texts: Vec<String> = Vec::new();
    let mut params: Vec<Value> = Vec::new();
    let mut i: usize = 0;
    assert(texts.deep_view() =~= numbered(model).take(0));
    assert(params.deep_view() =~= values.take(0));
    while i < conditions.len()
        invariant
            i <= conditions@.len(),
            model == conditions.deep_view(),
            values == model.map_values(|c: ConditionModel| ValueModel::Text(c.value)),
            texts.deep_view() == numbered(model).take(i as int),
            params.deep_view() == values.take(i as int),
        decreases conditions@.len() - i,
    {
        let ghost texts_before = texts.deep_view();
        let ghost params_before = params.deep_view();
        let mut text = conditions[i].clause.clone();
        push_decimal(&mut text, i as u128 + 1);
        assert(text@ == numbered(model)[i as int]);
        texts.push(text);
        params.push(Value::Text(conditions[i].value.clone()));
        assert(texts.deep_view() =~= texts_before.push(numbered(model)[i as int]));
        assert(params.deep_view() =~= params_before.push(values[i as int]));
        i += 1;
        assert(texts.deep_view() =~= numbered(model).take(i as int));
        assert(params.deep_view() =~= values.take(i as int));
    }
    assert(numbered(model).take(model.len() as int) =~= numbered(model));
    assert(values.take(model.len() as int) =~= values);
    let mut sql = select.to_string();
    if conditions.len() > 0 {
        sql.append(" WHERE ");
        push_joined(&mut sql, &texts, " AND ");
    }
    assert(sql@ =~= select@ + where_all(model));
    sql.append(order);
    sql.append(" LIMIT ?");
    push_decimal(&mut sql, conditions.len() as u128 + 1);
    params.push(Value::Integer(limit_param(limit)));
    assert(params.deep_view() =~= values.push(ValueModel::Integer(limit_value(limit))));
    Statement { sql, params }
}

/// Every parameter of a query is bound by its own value: condition `i` asks for
/// parameter `i + 1`, which is its value, and the limit asks for the last
/// parameter, which is the limit.
pub proof fn law_parameters_meet_their_places(
    select: Seq<char>,
    conditions: Seq<ConditionModel>,
    order: Seq<char>,
    limit: usize,
)
    ensures
        ({
            let query = limited_query(select, conditions, order, limit);
            &&& query.params.len() == conditions.len() + 1
            &&& forall|i: int|
                0 <= i < conditions.len() ==> #[trigger] numbered(conditions)[i]
                    == conditions[i].clause + decimal((i + 1) as nat) && query.params[i]
                    == ValueModel::Text(conditions[i].value)
            &&& query.sql == select + where_all(conditions) + order + " LIMIT ?"@ + decimal(
                query.params.len(),
            )
            &&& query.params.last() == ValueModel::Integer(limit_value(limit))
        }),
{
}

} // verus!
