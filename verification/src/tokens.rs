//! The answers of contract calls, as JSON.

use vstd::prelude::*;
use crate::json::{JsonNumber, JsonValue, JsonView, array_view, members_view};
use crate::text::str_eq;

verus! {

/// The answer of a contract call, by what the gateway reads of it.
#[derive(Clone, Debug, PartialEq, Eq)]
pub enum Token {
    /// A string.
    String(String),
    /// An unsigned number, written as a decimal numeral.
    Uint(String),
    /// A signed number, written as a decimal numeral.
    Int(String),
    /// A truth value.
    Bool(bool),
    /// An address, written as hex text.
    Address(String),
    /// Bytes.
    Bytes(Vec<u8>),
    /// An answer of any other kind, written out as text.
    Other(String),
}

/// The JSON numbers that hold `bytes`, one for each byte and in order.
pub open spec fn bytes_json(bytes: Seq<u8>) -> Seq<JsonView> {
    Seq::new(bytes.len(), |i: int| JsonView::unsigned(bytes[i] as u64))
}

/// The JSON document that stands for `token`: numbers, addresses and answers
/// of other kinds as strings of their text, a string as itself, a truth value
/// as itself, and bytes as an array of numbers.
pub open spec fn token_json(token: Token) -> JsonView {
    match token {
        Token::String(text) => JsonView::Text(text@),
        Token::Uint(text) => JsonView::Text(text@),
        Token::Int(text) => JsonView::Text(text@),
        Token::Bool(value) => JsonView::Bool(value),
        Token::Address(text) => JsonView::Text(text@),
        Token::Bytes(bytes) => JsonView::Array(bytes_json(bytes@)),
        Token::Other(text) => JsonView::Text(text@),
    }
}

/// The conversions of the gateway.
pub struct EthersUtils;

impl EthersUtils {
    /// The JSON document that stands for the answer of a contract call.
    pub fn token_to_json(token: Token) -> (json: JsonValue)
        ensures
            json@ == token_json(token),
    {
        match token {
            Token::String(text) => JsonValue::Text(text),
            Token::Uint(text) => JsonValue::Text(text),
            Token::Int(text) => JsonValue::Text(text),
            Token::Bool(value) => JsonValue::Bool(value),
            Token::Address(text) => JsonValue::Text(text),
            Token::Bytes(bytes) => {
                let mut items: Vec<JsonValue> = Vec::new();
                let mut i: usize = 0;
                while i < bytes.len()
                    invariant
                        i <= bytes.len(),
                        items@.len() == i,
                        array_view(items@) == bytes_json(bytes@.take(i as int)),
                    decreases bytes.len() - i,
                {
                    let ghost before = items@;
                    items.push(JsonValue::unsigned(bytes[i] as u64));
                    proof {
                        let wanted = bytes_json(bytes@.take(i + 1));
                        assert forall|j: int| 0 <= j < wanted.len() implies array_view(items@)[j]
                            == wanted[j] by {
                            if j < i {
                                assert(array_view(before)[j] == bytes_json(
                                    bytes@.take(i as int),
                                )[j]);
                            }
                        }
                        assert(array_view(items@) =~= wanted);
                    }
                    i += 1;
                }
                assert(bytes@.take(bytes.len() as int) =~= bytes@);
                JsonValue::array(items)
            },
            Token::Other(text) => JsonValue::Text(text),
        }
    }
}

/// No name occurs twice in `answers`.
pub open spec fn names_are_distinct(answers: Seq<(Seq<char>, JsonView)>) -> bool {
    forall|i: int, j: int|
        0 <= i < j < answers.len() ==> (#[trigger] answers[i]).0 != (#[trigger] answers[j]).0
}

/// `after` is `before` with `json` recorded under `name`: in the place of the
/// answer that stood under that name, or after all others where none did.
pub open spec fn is_recorded(
    before: Seq<(Seq<char>, JsonView)>,
    after: Seq<(Seq<char>, JsonView)>,
    name: Seq<char>,
    json: JsonView,
) -> bool {
    ||| exists|at: int|
        {
            &&& 0 <= at < before.len()
            &&& (#[trigger] before[at]).0 == name
            &&& forall|j: int| 0 <= j < at ==> (#[trigger] before[j]).0 != name
            &&& after == before.update(at, (name, json))
        }
    ||| {
        &&& forall|j: int| 0 <= j < before.len() ==> (#[trigger] before[j]).0 != name
        &&& after == before.push((name, json))
    }
}

/// Recording an answer keeps the names distinct.
pub proof fn lemma_recording_keeps_names_distinct(
    before: Seq<(Seq<char>, JsonView)>,
    after: Seq<(Seq<char>, JsonView)>,
    name: Seq<char>,
    json: JsonView,
)
    requires
        names_are_distinct(before),
        is_recorded(before, after, name, json),
    ensures
        names_are_distinct(after),
{
    if forall|j: int| 0 <= j < before.len() ==> (#[trigger] before[j]).0 != name {
        if after == before.push((name, json)) {
            assert forall|i: int, j: int| 0 <= i < j < after.len() implies (#[trigger] after[i]).0 != (
            #[trigger] after[j]).0 by {
                if j < before.len() {
                    assert(after[i] == before[i] && after[j] == before[j]);
                } else {
                    assert(after[i] == before[i]);
                }
            }
        }
    } else {
        let at = choose|at: int|
            {
                &&& 0 <= at < before.len()
                &&& (#[trigger] before[at]).0 == name
                &&& forall|j: int| 0 <= j < at ==> (#[trigger] before[j]).0 != name
                &&& after == before.update(at, (name, json))
            };
        assert forall|i: int, j: int| 0 <= i < j < after.len() implies (#[trigger] after[i]).0 != (
        #[trigger] after[j]).0 by {
            assert(after[i].0 == before[i].0);
            assert(after[j].0 == before[j].0);
        }
    }
}

/// Takes the answer of the call of `function_name` into `answers`. A call
/// that was answered is recorded under the function's name, with the answer
/// as JSON: in the place of an earlier answer under that name, or after all
/// others. A call that was not answered changes nothing. So no name comes to
/// stand twice.
pub fn record_answer(
    answers: &mut Vec<(String, JsonValue)>,
    function_name: String,
    answer: Option<Token>,
)
    ensures
        match answer {
            Some(token) => is_recorded(
                members_view(old(answers)@),
                members_view(final(answers)@),
                function_name@,
                token_json(token),
            ),
            None => final(answers)@ == old(answers)@,
        },
        names_are_distinct(members_view(old(answers)@)) ==> names_are_distinct(
            members_view(final(answers)@),
        ),
{
    match answer {
        Some(token) => {
            let ghost before = members_view(answers@);
            let json = EthersUtils::token_to_json(token);
            let mut at: usize = 0;
            while at < answers.len()
                invariant
                    at <= answers.len(),
                    answers@ == old(answers)@,
                    before == members_view(answers@),
                    before == members_view(old(answers)@),
                    answer == Some(token),
                    json@ == token_json(token),
                    forall|j: int| 0 <= j < at ==> (#[trigger] before[j]).0 != function_name@,
                decreases answers.len() - at,
            {
                if str_eq(answers[at].0.as_str(), function_name.as_str()) {
                    assert(before[at as int].0 == function_name@);
                    answers.set(at, (function_name, json));
                    proof {
                        let after = members_view(answers@);
                        assert(after =~= before.update(
                            at as int,
                            (function_name@, token_json(token)),
                        ));
                        assert(before[at as int].0 == function_name@ && after == before.update(
                            at as int,
                            (function_name@, token_json(token)),
                        ));
                        assert(is_recorded(before, after, function_name@, token_json(token)));
                        lemma_recording_keeps_names_distinct_if(
                            before,
                            members_view(answers@),
                            function_name@,
                            token_json(token),
                        );
                    }
                    return ;
                }
                assert(before[at as int].0 != function_name@);
                at += 1;
            }
            answers.push((function_name, json));
            proof {
                assert(members_view(answers@) =~= before.push((function_name@, token_json(token))));
                lemma_recording_keeps_names_distinct_if(
                    before,
                    members_view(answers@),
                    function_name@,
                    token_json(token),
                );
            }
        },
        None => {},
    }
}

proof fn lemma_recording_keeps_names_distinct_if(
    before: Seq<(Seq<char>, JsonView)>,
    after: Seq<(Seq<char>, JsonView)>,
    name: Seq<char>,
    json: JsonView,
)
    requires
        is_recorded(before, after, name, json),
    ensures
        names_are_distinct(before) ==> names_are_distinct(after),
{
    if names_are_distinct(before) {
        lemma_recording_keeps_names_distinct(before, after, name, json);
    }
}

} // verus!
