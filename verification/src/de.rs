//! Field-level conversions of JSON values: chart levels and the level order.

use vstd::prelude::*;

verus! {

/// Default level value per the BMS difficulty table spec: "0".
pub fn default_level() -> (r: String)
    ensures
        r@ == "0"@,
{
    String::from_str("0")
}

/// A JSON value as the level conversions read it.
#[derive(Debug)]
pub enum JsonScalar {
    /// `null`.
    Null,
    /// A number, by its JSON text (e.g. `12`, `1.5`).
    Number(String),
    /// A string.
    Text(String),
    /// Any other value (boolean, array, object), by its JSON text.
    Other(String),
}

/// The JSON text of a value that is neither a string nor a number.
pub open spec fn other_text(v: JsonScalar) -> Seq<char> {
    match v {
        JsonScalar::Null => "null"@,
        JsonScalar::Other(t) => t@,
        JsonScalar::Number(t) => t@,
        JsonScalar::Text(t) => t@,
    }
}

/// The level a chart's `level` value stands for: a string as is, a number by
/// its text, `null` as "0"; any other value is refused with a message.
pub open spec fn level_of(v: JsonScalar) -> Result<Seq<char>, Seq<char>> {
    match v {
        JsonScalar::Null => Ok("0"@),
        JsonScalar::Number(n) => Ok(n@),
        JsonScalar::Text(s) => Ok(s@),
        JsonScalar::Other(t) => Err("expected string or number, got "@ + t@),
    }
}

pub open spec fn result_view(r: Result<String, String>) -> Result<Seq<char>, Seq<char>> {
    match r {
        Ok(s) => Ok(s@),
        Err(e) => Err(e@),
    }
}

/// Converts a chart's `level` value to a string (see [`level_of`]).
pub fn level_from_json(v: &JsonScalar) -> (r: Result<String, String>)
    ensures
        result_view(r) == level_of(*v),
{
    match v {
        JsonScalar::Null => Ok(default_level()),
        JsonScalar::Number(n) => Ok(n.clone()),
        JsonScalar::Text(s) => Ok(s.clone()),
        JsonScalar::Other(t) => {
            let mut msg = String::from_str("expected string or number, got ");
            msg.append(t.as_str());
            Err(msg)
        },
    }
}

/// A chart's level is the text of its JSON value: a number gives its own JSON
/// text and a string itself, so a number and a string of the same text give
/// the same level; only `null` gives the default "0", and only a value that is
/// neither a string, a number nor `null` is refused.
pub proof fn lemma_level_is_value_text(v: JsonScalar, w: JsonScalar)
    ensures
        v matches JsonScalar::Number(n) ==> level_of(v) == Ok::<Seq<char>, Seq<char>>(n@),
        v matches JsonScalar::Text(t) ==> level_of(v) == Ok::<Seq<char>, Seq<char>>(t@),
        v is Null ==> level_of(v) == Ok::<Seq<char>, Seq<char>>("0"@),
        (level_of(v) is Err) == (v is Other),
        (v matches JsonScalar::Number(n) && w matches JsonScalar::Text(t) && n@ == t@) ==> level_of(
            v,
        ) == level_of(w),
{
}

/// The entry of `level_order` that a value stands for: a string as is, a
/// number by its text; anything else is refused with a message.
pub open spec fn level_order_entry(v: JsonScalar) -> Result<Seq<char>, Seq<char>> {
    match v {
        JsonScalar::Number(n) => Ok(n@),
        JsonScalar::Text(s) => Ok(s@),
        _ => Err("expected string or number for level_order entry, got "@ + other_text(v)),
    }
}

/// Converts one `level_order` entry (see [`level_order_entry`]).
fn level_order_entry_from_json(v: &JsonScalar) -> (r: Result<String, String>)
    ensures
        result_view(r) == level_order_entry(*v),
{
    match v {
        JsonScalar::Number(n) => Ok(n.clone()),
        JsonScalar::Text(s) => Ok(s.clone()),
        JsonScalar::Null => {
            let mut msg = String::from_str("expected string or number for level_order entry, got ");
            msg.append("null");
            Err(msg)
        },
        JsonScalar::Other(t) => {
            let mut msg = String::from_str("expected string or number for level_order entry, got ");
            msg.append(t.as_str());
            Err(msg)
        },
    }
}

/// A `level_order` entry is the text of its JSON value: a number gives its
/// own JSON text and a string itself; `null` and any other value are refused.
pub proof fn lemma_level_order_entry_is_value_text(v: JsonScalar)
    ensures
        v matches JsonScalar::Number(n) ==> level_order_entry(v) == Ok::<Seq<char>, Seq<char>>(
            n@,
        ),
        v matches JsonScalar::Text(t) ==> level_order_entry(v) == Ok::<Seq<char>, Seq<char>>(t@),
        (level_order_entry(v) is Err) == (v is Null || v is Other),
{
}

/// `r` is the conversion of the `level_order` entries `vs`: every entry
/// converted in order, or the message of the first entry that is refused.
pub open spec fn level_order_outcome(vs: Seq<JsonScalar>, r: Result<Vec<String>, String>) -> bool {
    match r {
        Ok(out) => out@.len() == vs.len() && forall|i: int|
            0 <= i < vs.len() ==> level_order_entry(#[trigger] vs[i]) == Ok::<Seq<char>, Seq<char>>(
                out@[i]@,
            ),
        Err(e) => exists|i: int|
            0 <= i < vs.len() && level_order_entry(#[trigger] vs[i]) == Err::<Seq<char>, Seq<char>>(
                e@,
            ) && forall|k: int| 0 <= k < i ==> level_order_entry(#[trigger] vs[k]) is Ok,
    }
}

fn convert_level_order(vs: &Vec<JsonScalar>) -> (r: Result<Vec<String>, String>)
    ensures
        level_order_outcome(vs@, r),
{
    let mut out: Vec<String> = Vec::new();
    let mut i: usize = 0;
    while i < vs.len()
        invariant
            i <= vs.len(),
            out@.len() == i,
            forall|k: int|
                0 <= k < i ==> level_order_entry(#[trigger] vs@[k]) == Ok::<Seq<char>, Seq<char>>(
                    out@[k]@,
                ),
        decreases vs.len() - i,
    {
        match level_order_entry_from_json(&vs[i]) {
            Ok(s) => out.push(s),
            Err(e) => {
                let r: Result<Vec<String>, String> = Err(e);
                assert(level_order_entry(vs@[i as int]) == Err::<Seq<char>, Seq<char>>(r->Err_0@));
                return r;
            },
        }
        i = i + 1;
    }
    Ok(out)
}

/// Converts the `level_order` array: absent means empty; every entry must be
/// a string or a number, and the first entry that is not stops the conversion
/// with its message.
pub fn level_order_from_json(values: Option<Vec<JsonScalar>>) -> (r: Result<Vec<String>, String>)
    ensures
        values is None ==> (r matches Ok(v) && v@.len() == 0),
        values is Some ==> level_order_outcome(values->0@, r),
{
    match values {
        None => Ok(Vec::new()),
        Some(vs) => convert_level_order(&vs),
    }
}

} // verus!
