//! The standard native functions and values, but for what only the host can
//! do: writing a line out, and writing a number in decimal.

use rand::Rng;
use vstd::prelude::*;
use vstd::string::StringExecFns;
use crate::error::{Failure, StrawberryError};
use crate::parser::{content_of, evaluation_allows, Host, StrawberryParser, StrawberryValue};
use crate::semantics::{chosen, chosen_pair};
use crate::token::duplicate_all;
use crate::value::{values_of, Bindings, Value};

verus! {

/// The lines that `fields_forever` picks from.
pub open spec fn lyrics() -> Seq<Seq<char>> {
    seq![
        "Let me take you down"@,
        "'Cause I'm going to strawberry fields"@,
        "Nothing is real"@,
        "And nothing to get hung about"@,
        "Strawberry fields forever"@,
        "Living is easy with eyes closed"@,
        "Misunderstanding all you see"@,
        "It's getting hard to be someone, but it all works out"@,
        "It doesn't matter much to me"@,
    ]
}

/// The names that `beatle` picks from.
pub open spec fn beatles() -> Seq<Seq<char>> {
    seq!["Paul McCartney"@, "John Lennon"@, "George Harrison"@, "Ringo Starr"@]
}

/// Calls `rand::thread_rng()` and `Rng::gen_range` on `0..len`, which
/// samples a value of that range and panics on an empty one. The contract
/// says that the value lies in the range, and nothing of which one it is.
/// The generator of the thread is seeded by the system, and the call panics
/// where the system cannot seed it: no argument decides that.
#[verifier::external_body]
fn random_index(len: usize) -> (index: usize)
    requires
        len > 0,
    ensures
        index < len,
{
    rand::thread_rng().gen_range(0..len)
}

/// The line at `index`.
pub fn lyric(index: usize) -> (line: String)
    requires
        index < lyrics().len(),
    ensures
        line@ == lyrics()[index as int],
{
    let line = if index == 0 {
        "Let me take you down"
    } else if index == 1 {
        "'Cause I'm going to strawberry fields"
    } else if index == 2 {
        "Nothing is real"
    } else if index == 3 {
        "And nothing to get hung about"
    } else if index == 4 {
        "Strawberry fields forever"
    } else if index == 5 {
        "Living is easy with eyes closed"
    } else if index == 6 {
        "Misunderstanding all you see"
    } else if index == 7 {
        "It's getting hard to be someone, but it all works out"
    } else {
        "It doesn't matter much to me"
    };
    String::from_str(line)
}

/// The member at `index`.
pub fn member(index: usize) -> (name: String)
    requires
        index < beatles().len(),
    ensures
        name@ == beatles()[index as int],
{
    let name = if index == 0 {
        "Paul McCartney"
    } else if index == 1 {
        "John Lennon"
    } else if index == 2 {
        "George Harrison"
    } else {
        "Ringo Starr"
    };
    String::from_str(name)
}

/// A line of the song, picked at random.
pub fn fields_forever() -> (line: String)
    ensures
        exists|i: int| 0 <= i < lyrics().len() && line@ == #[trigger] lyrics()[i],
{
    let index = random_index(9);
    lyric(index)
}

/// A member of the band, picked at random.
pub fn beatle() -> (name: String)
    ensures
        exists|i: int| 0 <= i < beatles().len() && name@ == #[trigger] beatles()[i],
{
    let index = random_index(4);
    member(index)
}

/// How a value other than a number is written out.
pub open spec fn description(value: Value) -> Seq<char> {
    match value {
        Value::String(text) => text,
        Value::Number(_) => Seq::empty(),
        Value::NativeFunction(label) => "(Native Function: "@ + label + ")"@,
        Value::Function(name, _, _) => "(Function: "@ + name + ")"@,
        Value::Boolean(value) => if value {
            "true"@
        } else {
            "false"@
        },
        Value::Block(_) => "(Code block)"@,
        Value::Empty => "(Empty)"@,
    }
}

/// Whether `line` may be what `strawberry` makes of `values`: each value
/// written out, a number as the host writes it, with one space between them.
pub open spec fn line_allows(values: Seq<Value>, line: Seq<char>) -> bool
    decreases values.len(),
{
    if values.len() == 0 {
        line == Seq::<char>::empty()
    } else {
        exists|before: Seq<char>, piece: Seq<char>| #[trigger]
            chosen_pair(before, piece) && line_step(values, before, piece, line)
    }
}

/// Whether `line` is what `values`, which are not empty, are written as
/// when all but the last are written as `before` and the last as `piece`.
pub open spec fn line_step(
    values: Seq<Value>,
    before: Seq<char>,
    piece: Seq<char>,
    line: Seq<char>,
) -> bool
    decreases values.len(), 0nat,
{
    &&& values.len() > 0
    &&& line_allows(values.drop_last(), before)
    &&& values.last() is Number || piece == description(values.last())
    &&& line == if values.len() == 1 {
        piece
    } else {
        before + " "@ + piece
    }
}

fn describe<H: Host>(value: &StrawberryValue, host: &mut H) -> (piece: String)
    ensures
        value@ is Number || piece@ == description(value@),
{
    match value {
        StrawberryValue::String(string) => string.clone(),
        StrawberryValue::Number(number) => host.text(*number),
        StrawberryValue::NativeFunction(name) => crate::text::enclose(
            "(Native Function: ",
            name,
            ")",
        ),
        StrawberryValue::Function(name, _, _) => crate::text::enclose("(Function: ", name, ")"),
        StrawberryValue::Boolean(boolean) => if *boolean {
            String::from_str("true")
        } else {
            String::from_str("false")
        },
        StrawberryValue::Block(_) => String::from_str("(Code block)"),
        StrawberryValue::Empty => String::from_str("(Empty)"),
    }
}

/// The line that the native function `Strawberry` writes out for `args`.
/// Writing it out is the host's part.
pub fn strawberry<H: Host>(args: &Vec<StrawberryValue>, host: &mut H) -> (line: String)
    ensures
        line_allows(values_of(*args), line@),
{
    let ghost values = values_of(*args);
    let mut line = String::new();
    let mut i: usize = 0;
    proof {
        assert(values.take(0) =~= Seq::<Value>::empty());
    }
    while i < args.len()
        invariant
            i <= args.len(),
            values == values_of(*args),
            line_allows(values.take(i as int), line@),
        decreases args.len() - i,
    {
        let ghost before = line@;
        let piece = describe(&args[i], host);
        if i > 0 {
            line.append(" ");
        }
        line.append(piece.as_str());
        proof {
            assert(values.take(i + 1).drop_last() =~= values.take(i as int));
            assert(values.take(i + 1).last() == args[i as int]@);
            if i == 0 {
                assert(line@ =~= piece@);
            }
            assert(line_step(values.take(i + 1), before, piece@, line@));
            assert(chosen_pair(before, piece@));
            assert(line_allows(values.take(i + 1), line@));
        }
        i += 1;
    }
    proof {
        assert(values.take(i as int) =~= values);
    }
    line
}

/// Whether running `value` as a block may give `result`: a block runs on a
/// copy of `bindings` and gives the value of its last node; anything else
/// gives `Empty`.
pub open spec fn block_yields(
    value: Value,
    bindings: Bindings,
    depth: nat,
    result: Result<Value, Failure>,
) -> bool {
    match value {
        Value::Block(code) => evaluation_allows(code, bindings, depth, result),
        _ => result == Ok::<Value, Failure>(Value::Empty),
    }
}

/// Runs the block in `args[0]` on a copy of the bindings of `context`.
pub fn execute_code_block<H: Host>(
    args: Vec<StrawberryValue>,
    context: &mut StrawberryParser,
    host: &mut H,
) -> (result: Result<StrawberryValue, StrawberryError>)
    requires
        args.len() > 0,
    ensures
        *final(context) == *old(context),
        block_yields(
            args[0]@,
            old(context).variables@,
            old(context).depth as nat,
            content_of(result),
        ),
{
    match &args[0] {
        StrawberryValue::Block(code) => {
            let mut inner = context.fork(duplicate_all(code));
            let result = inner.run_token_stream(host);
            assert(chosen(inner.variables@));
            result
        },
        _ => Ok(StrawberryValue::Empty),
    }
}

/// The value that `if` runs as a block, if any: the one after the condition
/// when the condition is true, the one after that when it is false.
pub open spec fn branch(values: Seq<Value>) -> Option<Value> {
    match values[0] {
        Value::Boolean(true) => if values.len() > 1 {
            Some(values[1])
        } else {
            None
        },
        Value::Boolean(false) => if values.len() > 2 {
            Some(values[2])
        } else {
            None
        },
        _ => None,
    }
}

/// The native function `IfStatement`: `args[0]` is the condition, and must
/// be a boolean; the block after it runs when the condition is true, the one
/// after that when it is false. Without a block to run the result is
/// `Empty`.
pub fn if_comparison<H: Host>(
    args: Vec<StrawberryValue>,
    context: &mut StrawberryParser,
    host: &mut H,
) -> (result: Result<StrawberryValue, StrawberryError>)
    requires
        args.len() > 0,
    ensures
        *final(context) == *old(context),
        match args[0]@ {
            Value::Boolean(_) => match branch(values_of(args)) {
                Some(block) => block_yields(
                    block,
                    old(context).variables@,
                    old(context).depth as nat,
                    content_of(result),
                ),
                None => content_of(result) == Ok::<Value, Failure>(Value::Empty),
            },
            _ => content_of(result) == Err::<Value, Failure>(
                Failure::Semantic("First argument of 'if' must be a boolean"@),
            ),
        },
{
    match &args[0] {
        StrawberryValue::Boolean(boolean) => {
            let chosen_index: usize = if *boolean {
                1
            } else {
                2
            };
            if chosen_index < args.len() {
                let mut block: Vec<StrawberryValue> = Vec::new();
                block.push(args[chosen_index].duplicate());
                execute_code_block(block, context, host)
            } else {
                Ok(StrawberryValue::Empty)
            }
        },
        _ => Err(StrawberryError::semantic_error("First argument of 'if' must be a boolean")),
    }
}

} // verus!
