use vstd::prelude::*;

verus! {

/// The label under which the outcome of an action is counted.
pub open spec fn label_of<U, E>(result: Result<U, E>) -> Seq<char> {
    if result is Ok {
        "ok"@
    } else {
        "err"@
    }
}

/// The label under which the outcome of an action is counted: `ok` or `err`.
pub fn outcome_label<U, E>(result: &Result<U, E>) -> (label: &'static str)
    ensures
        label@ == label_of(*result),
{
    match result {
        Ok(_) => "ok",
        Err(_) => "err",
    }
}

/// Runs `f`, then hands the name of the action and the label of its outcome to
/// `observe`, and returns what `f` returned.
pub fn time_sync<F, O, U, E>(action: &str, f: F, observe: O) -> (r: Result<U, E>)
    where F: FnOnce() -> Result<U, E>, O: FnOnce(&str, &str)
    requires
        f.requires(()),
        observe.requires((action, "ok")),
        observe.requires((action, "err")),
    ensures
        f.ensures((), r),
        r is Ok ==> observe.ensures((action, "ok"), ()),
        r is Err ==> observe.ensures((action, "err"), ()),
{
    let r = f();
    match &r {
        Ok(_) => observe(action, "ok"),
        Err(_) => observe(action, "err"),
    }
    r
}

} // verus!
