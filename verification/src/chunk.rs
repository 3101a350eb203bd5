//! Grouping of suppressed values per accepted value: ordinary accumulation
//! over the output of an annotate debounce operator.

use vstd::prelude::*;

use crate::debounce::Debounced;

verus! {

/// Folds one annotate-debounce output into the running group. A suppressed
/// value joins the accumulator; an accepted value closes the group, handing
/// out the accepted value together with every value suppressed since the
/// previous accepted one, and starts a fresh, empty accumulator.
pub fn chunk_debounce_step<T>(item: Result<T, Debounced<T>>, acc: Vec<Debounced<T>>) -> (r: (
    Option<(T, Vec<Debounced<T>>)>,
    Vec<Debounced<T>>,
))
    ensures
        item matches Ok(m) ==> r.0 matches Some(g) && g.0 == m && g.1 == acc && r.1@ == Seq::<
            Debounced<T>,
        >::empty(),
        item matches Err(d) ==> r.0 is None && r.1@ == acc@.push(d),
{
    match item {
        Ok(m) => (Some((m, acc)), Vec::new()),
        Err(d) => {
            let mut acc = acc;
            acc.push(d);
            (None, acc)
        },
    }
}

} // verus!
