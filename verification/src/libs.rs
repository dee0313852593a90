//! What a host can seed the evaluator with: the standard bindings.

pub mod standard;

use vstd::prelude::*;
use vstd::string::StringExecFns;
use crate::parser::{StrawberryParser, StrawberryValue};
use crate::value::Value;

verus! {

/// Binds the standard names: `strawberry` and `if` to the native functions
/// labelled `Strawberry` and `IfStatement`, `fields_forever` to a line of
/// the song and `beatle` to a member of the band, each picked at random.
pub fn load_standard(parser: &mut StrawberryParser)
    ensures
        final(parser).tokens == old(parser).tokens,
        final(parser).depth == old(parser).depth,
        exists|line: int, member: int|
            0 <= line < standard::lyrics().len() && 0 <= member < standard::beatles().len()
                && final(parser).variables@ == #[trigger] standard_bindings(
                old(parser).variables@,
                line,
                member,
            ),
{
    let ghost start = parser.variables@;
    parser.variables.insert(
        String::from_str("strawberry"),
        StrawberryValue::NativeFunction(String::from_str("Strawberry")),
    );
    let lyric = standard::fields_forever();
    let ghost line = choose|i: int| 0 <= i < standard::lyrics().len() && lyric@ == standard::lyrics()[i];
    parser.variables.insert(String::from_str("fields_forever"), StrawberryValue::String(lyric));
    let name = standard::beatle();
    let ghost member = choose|i: int|
        0 <= i < standard::beatles().len() && name@ == standard::beatles()[i];
    parser.variables.insert(String::from_str("beatle"), StrawberryValue::String(name));
    parser.variables.insert(
        String::from_str("if"),
        StrawberryValue::NativeFunction(String::from_str("IfStatement")),
    );
    assert(standard_bindings(start, line, member) == parser.variables@);
}

/// `bindings` with the standard names bound, `fields_forever` to the line
/// at `line` and `beatle` to the member at `member`.
pub open spec fn standard_bindings(
    bindings: Map<Seq<char>, Value>,
    line: int,
    member: int,
) -> Map<Seq<char>, Value> {
    bindings.insert("strawberry"@, Value::NativeFunction("Strawberry"@)).insert(
        "fields_forever"@,
        Value::String(standard::lyrics()[line]),
    ).insert("beatle"@, Value::String(standard::beatles()[member])).insert(
        "if"@,
        Value::NativeFunction("IfStatement"@),
    )
}

} // verus!
