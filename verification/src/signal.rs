use vstd::prelude::*;

verus! {

/// The arguments a change signal is emitted with: the widget's value, then
/// each extra argument in order.
pub fn emit_args<T>(value: T, extra: Vec<T>) -> (r: Vec<T>)
    ensures
        r@ == seq![value] + extra@,
{
    let mut args: Vec<T> = Vec::new();
    args.push(value);
    let mut rest = extra;
    args.append(&mut rest);
    args
}

} // verus!
