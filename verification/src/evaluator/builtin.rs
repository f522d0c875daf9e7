use vstd::prelude::*;
use crate::enums::{Declaration, FunctionTable, Native, DeclarationView, strings_view};
use crate::errors::EvalError;
use crate::semantics::{fill, first_placeholder, native_call, print_line, replace_first, TableView};
use crate::text::{chars_of, string_of};
use crate::value::{Value, ValueView, values_view};

verus! {

/// The function table after the host functions have been added to `ft`: the
/// names `print_int`, `print_str` and `print`, each bound to `Native::Print`.
pub open spec fn registered(ft: TableView) -> TableView {
    ft.insert(
        "print_int"@,
        DeclarationView::BuiltinFunction { id: "print_int"@, native: Native::Print },
    ).insert(
        "print_str"@,
        DeclarationView::BuiltinFunction { id: "print_str"@, native: Native::Print },
    ).insert("print"@, DeclarationView::BuiltinFunction { id: "print"@, native: Native::Print })
}

/// Adds the host functions to the function table, replacing whatever their
/// names were bound to.
pub fn register(ft: &mut FunctionTable)
    ensures
        final(ft)@ == registered(old(ft)@),
{
    ft.insert(
        "print_int".to_string(),
        Declaration::BuiltinFunction { id: "print_int".to_string(), native: Native::Print },
    );
    ft.insert(
        "print_str".to_string(),
        Declaration::BuiltinFunction { id: "print_str".to_string(), native: Native::Print },
    );
    ft.insert(
        "print".to_string(),
        Declaration::BuiltinFunction { id: "print".to_string(), native: Native::Print },
    );
}

/// The index of the first `{}` in `text`.
fn find_placeholder(text: &Vec<char>) -> (r: Option<usize>)
    ensures
        match r {
            Some(i) => first_placeholder(text@, 0) == Some(i as int) && i + 2 <= text.len(),
            None => first_placeholder(text@, 0) is None,
        },
{
    if text.len() < 2 {
        return None;
    }
    let last: usize = text.len() - 1;
    let mut i: usize = 0;
    while i < last
        invariant
            i <= last,
            last + 1 == text.len(),
            first_placeholder(text@, 0) == first_placeholder(text@, i as int),
        decreases last - i,
    {
        if text[i] == '{' && text[i + 1] == '}' {
            return Some(i);
        }
        i += 1;
    }
    None
}

/// `text` with its first `{}` replaced by `with`.
fn replace_placeholder(text: Vec<char>, with: &Vec<char>) -> (r: Vec<char>)
    ensures
        r@ == replace_first(text@, with@),
{
    match find_placeholder(&text) {
        None => text,
        Some(at) => {
            let mut r: Vec<char> = Vec::new();
            let mut i: usize = 0;
            while i < at
                invariant
                    i <= at <= text.len(),
                    r@ == text@.subrange(0, i as int),
                decreases at - i,
            {
                r.push(text[i]);
                i += 1;
            }
            let mut j: usize = 0;
            while j < with.len()
                invariant
                    j <= with.len(),
                    r@ == text@.subrange(0, at as int) + with@.subrange(0, j as int),
                decreases with.len() - j,
            {
                r.push(with[j]);
                j += 1;
            }
            assert(with@.subrange(0, with.len() as int) =~= with@);
            let mut k: usize = at + 2;
            while k < text.len()
                invariant
                    at + 2 <= k <= text.len(),
                    r@ == text@.subrange(0, at as int) + with@ + text@.subrange(
                        at + 2,
                        k as int,
                    ),
                decreases text.len() - k,
            {
                r.push(text[k]);
                k += 1;
            }
            r
        },
    }
}

/// The line that `print` writes for `params`, if it accepts them: the first
/// parameter, a text, in which each further parameter has replaced the then
/// first `{}`.
pub fn print(params: &Vec<Value>) -> (r: Option<String>)
    ensures
        match r {
            Some(line) => print_line(values_view(params@)) == Some(line@),
            None => print_line(values_view(params@)) is None,
        },
{
    if params.len() == 0 {
        return None;
    }
    match &params[0] {
        Value::String(s) => {
            let ghost args = values_view(params@);
            let mut text: Vec<char> = chars_of(s.as_str());
            let mut k: usize = 1;
            while k < params.len()
                invariant
                    1 <= k <= params.len(),
                    args == values_view(params@),
                    fill(text@, args, k as int) == fill(s@, args, 1),
                decreases params.len() - k,
            {
                let piece = params[k].to_string();
                let with = chars_of(piece.as_str());
                text = replace_placeholder(text, &with);
                k += 1;
            }
            let line = string_of(&text, 0, text.len());
            assert(text@.subrange(0, text.len() as int) =~= text@);
            Some(line)
        },
        _ => None,
    }
}

/// Calls a host function: gives its value, and appends to `out` what it writes.
pub fn call_native(native: Native, params: &Vec<Value>, out: &mut Vec<String>) -> (r: Result<
    Value,
    EvalError,
>)
    ensures
        match r {
            Ok(v) => native_call(native, values_view(params@), strings_view(old(out)@)).0 == Ok::<
                ValueView,
                crate::errors::EvalErrorView,
            >(v@),
            Err(e) => native_call(native, values_view(params@), strings_view(old(out)@)).0 == Err::<
                ValueView,
                crate::errors::EvalErrorView,
            >(e@),
        },
        strings_view(final(out)@) == native_call(
            native,
            values_view(params@),
            strings_view(old(out)@),
        ).1,
{
    match native {
        Native::Print => match print(params) {
            Some(line) => {
                out.push(line);
                assert(strings_view(out@) =~= strings_view(old(out)@).push(line@));
                Ok(Value::Unit)
            },
            None => Err(EvalError::InvalidArgument),
        },
    }
}

} // verus!
