//! The built-in functions, and the output that they write.
//!
//! The library writes nothing itself: output is a list of fragments that
//! the caller prints in order. A number is kept as a number, since its
//! decimal form is the printer's business.

use vstd::prelude::*;
use vstd::string::*;
use crate::error::{RuntimeError, RuntimeErrorView};
use crate::number::Number;
use crate::span::Span;
use crate::text::same_text;
use crate::value::{values_view, Function, Value, ValueView};

verus! {

/// A piece of output.
#[derive(Debug, PartialEq)]
pub enum Fragment {
    /// Text, to be written as it is.
    Text(String),
    /// A number, to be written in its shortest decimal form.
    Number(Number),
}

/// The mathematical model of a [`Fragment`].
pub enum FragmentView {
    Text(Seq<char>),
    Number(Number),
}

impl View for Fragment {
    type V = FragmentView;

    open spec fn view(&self) -> FragmentView {
        match *self {
            Fragment::Text(s) => FragmentView::Text(s@),
            Fragment::Number(n) => FragmentView::Number(n),
        }
    }
}

/// The models of a list of fragments, one by one.
pub open spec fn fragments_view(list: Seq<Fragment>) -> Seq<FragmentView> {
    Seq::new(list.len(), |i: int| list[i]@)
}

/// What printing shows of a value: a string as it is, a number as a
/// number, a boolean as `true` or `false`, null as `null`, and a function
/// as a tag.
pub open spec fn shown(value: ValueView) -> FragmentView {
    match value {
        ValueView::String(s) => FragmentView::Text(s),
        ValueView::Number(n) => FragmentView::Number(n),
        ValueView::Bool(b) => if b {
            FragmentView::Text("true"@)
        } else {
            FragmentView::Text("false"@)
        },
        ValueView::Null => FragmentView::Text("null"@),
        ValueView::Function(_) => FragmentView::Text("<function>"@),
    }
}

/// The values shown one after the other, with one space between two.
pub open spec fn joined(values: Seq<ValueView>) -> Seq<FragmentView>
    decreases values.len(),
{
    if values.len() == 0 {
        Seq::empty()
    } else if values.len() == 1 {
        seq![shown(values[0])]
    } else {
        joined(values.drop_last()) + seq![FragmentView::Text(" "@), shown(values.last())]
    }
}

/// One printed line: the values joined, then a line feed.
pub open spec fn printed(values: Seq<ValueView>) -> Seq<FragmentView> {
    joined(values) + seq![FragmentView::Text("\n"@)]
}

/// Whether `name` is the name of a built-in function.
pub open spec fn is_builtin(name: Seq<char>) -> bool {
    name == "print"@ || name == "println"@
}

/// What a call of the built-in `name` returns and the output after it;
/// `None` if there is no such built-in.
pub open spec fn builtin_call(name: Seq<char>, args: Seq<ValueView>, output: Seq<FragmentView>)
    -> Option<(Result<ValueView, RuntimeErrorView>, Seq<FragmentView>)> {
    if is_builtin(name) {
        Some((Ok(ValueView::Null), output + printed(args)))
    } else {
        None
    }
}

/// The model of a list with one more fragment is the model with one more.
pub proof fn lemma_fragments_push(list: Seq<Fragment>, last: Fragment)
    ensures
        fragments_view(list.push(last)) == fragments_view(list).push(last@),
{
    assert(fragments_view(list.push(last)) =~= fragments_view(list).push(last@));
}

/// The fragment that shows `value`.
pub fn show(value: &Value) -> (fragment: Fragment)
    ensures
        fragment@ == shown(value@),
{
    match value {
        Value::String(s) => Fragment::Text(s.clone()),
        Value::Number(n) => Fragment::Number(*n),
        Value::Bool(b) => if *b {
            Fragment::Text("true".to_owned())
        } else {
            Fragment::Text("false".to_owned())
        },
        Value::Null => Fragment::Text("null".to_owned()),
        Value::Function(_) => Fragment::Text("<function>".to_owned()),
    }
}

/// The built-in functions.
pub struct StdLib;

impl StdLib {
    /// The bindings of the global scope: each built-in name, bound to a
    /// function value without parameters and body that stands for it.
    pub fn create_global_environment() -> (globals: Vec<(String, Value)>)
        ensures
            globals.len() == 2,
            globals[0].0@ == "print"@,
            globals[1].0@ == "println"@,
            forall|i: int|
                0 <= i < 2 ==> (#[trigger] globals[i]).1@ == ValueView::Function(
                    crate::value::FunctionView {
                        name: globals[i].0@,
                        params: Seq::empty(),
                        body: Seq::empty(),
                        span: Span { start: 0, end: 0 },
                    },
                ),
    {
        let mut globals: Vec<(String, Value)> = Vec::new();
        let print = Function::new("print".to_owned(), Vec::new(), Vec::new(), Span::new(0, 0));
        let println = Function::new("println".to_owned(), Vec::new(), Vec::new(), Span::new(0, 0));
        proof {
            assert(crate::ast::parameters_view(print.params@) =~= Seq::empty());
            assert(crate::ast::stmts_view(print.body@) =~= Seq::empty());
            assert(crate::ast::parameters_view(println.params@) =~= Seq::empty());
            assert(crate::ast::stmts_view(println.body@) =~= Seq::empty());
        }
        globals.push(("print".to_owned(), Value::Function(print)));
        globals.push(("println".to_owned(), Value::Function(println)));
        globals
    }

    /// Calls the built-in `name`, if there is one: it appends one printed
    /// line to `output` and returns null.
    pub fn call_builtin_function(name: &str, args: &[Value], output: &mut Vec<Fragment>) -> (done:
        Option<Result<Value, RuntimeError>>)
        ensures
            match builtin_call(name@, values_view(args@), fragments_view(old(output)@)) {
                Some((result, after)) => done == Some(Ok::<Value, RuntimeError>(Value::Null))
                    && fragments_view(final(output)@) == after,
                None => done is None && final(output)@ == old(output)@,
            },
    {
        if !same_text(name, "print") && !same_text(name, "println") {
            return None;
        }
        let ghost before = fragments_view(output@);
        let ghost values = values_view(args@);
        let mut i: usize = 0;
        while i < args.len()
            invariant
                i <= args.len(),
                values == values_view(args@),
                fragments_view(output@) == before + joined(values.take(i as int)),
            decreases args.len() - i,
        {
            let ghost start = output@;
            if i > 0 {
                let space = Fragment::Text(" ".to_owned());
                proof {
                    lemma_fragments_push(output@, space);
                }
                output.push(space);
            }
            let ghost middle = output@;
            let piece = show(&args[i]);
            proof {
                lemma_fragments_push(output@, piece);
            }
            output.push(piece);
            proof {
                let now = values.take(i + 1);
                assert(now.drop_last() =~= values.take(i as int));
                assert(now.last() == args[i as int]@);
                assert(now.len() == i + 1);
                if i == 0 {
                    assert(joined(values.take(0)) =~= Seq::empty());
                    assert(joined(now) =~= seq![shown(now[0])]);
                } else {
                    assert(joined(now) =~= joined(values.take(i as int)) + seq![
                        FragmentView::Text(" "@),
                        shown(now.last()),
                    ]);
                }
                assert(fragments_view(output@) =~= before + joined(now));
            }
            i += 1;
        }
        let feed = Fragment::Text("\n".to_owned());
        proof {
            lemma_fragments_push(output@, feed);
        }
        output.push(feed);
        proof {
            assert(values.take(i as int) =~= values);
            assert(fragments_view(output@) =~= before + printed(values));
        }
        Some(Ok(Value::Null))
    }
}

} // verus!
