//! The counter module that runs inside the server: it reads how much to add from the
//! query as text.
use vstd::prelude::*;
use crate::counters::{count_request, custom_after, main_step, Counters};
use crate::text::{chars_of, parse_u32, parse_u32_spec};

verus! {

/// The query that names a counter: its name is `n`, `a`, `m` and `e` joined.
pub struct CustomCounterQuery {
    pub n: String,
    pub a: String,
    pub m: String,
    pub e: String,
}

impl CustomCounterQuery {
    /// The counter's name.
    pub open spec fn name_spec(&self) -> Seq<char> {
        self.n@ + self.a@ + self.m@ + self.e@
    }

    /// The counter's name: `n`, `a`, `m` and `e` joined.
    pub fn name(&self) -> (r: String)
        ensures
            r@ == self.name_spec(),
    {
        let first = crate::text::join_strs(self.n.as_str(), self.a.as_str());
        let second = crate::text::join_strs(first.as_str(), self.m.as_str());
        crate::text::join_strs(second.as_str(), self.e.as_str())
    }
}

/// The query that says how much a request adds, as text.
pub struct CustomAdd {
    pub counter: String,
}

/// The amount a request adds: its text read as a `u32`, or one when there is no
/// text or it does not read as a `u32`.
pub open spec fn amount_of(query_to_add: Option<CustomAdd>) -> u32 {
    match query_to_add {
        Some(val) => match parse_u32_spec(val.counter@) {
            Some(r) => r,
            None => 1,
        },
        None => 1,
    }
}

/// The name a request counts under, if it gives one.
pub open spec fn name_of(query: Option<CustomCounterQuery>) -> Option<Seq<char>> {
    match query {
        Some(q) => Some(q.name_spec()),
        None => None,
    }
}

/// Counts a request and hands the counters back.
pub fn custom_counter(
    counters: Counters,
    query: &Option<CustomCounterQuery>,
    query_to_add: &Option<CustomAdd>,
) -> (r: Counters)
    requires
        counters.wf(),
        counters.counter + main_step(query is Some, amount_of(*query_to_add)) <= u32::MAX,
    ensures
        r.wf(),
        r.custom_counters@ == custom_after(
            counters.custom_counters@,
            name_of(*query),
            amount_of(*query_to_add),
        ),
        r.counter == counters.counter + main_step(query is Some, amount_of(*query_to_add)),
        r.delete_counter == 0,
{
    let to_add = match query_to_add {
        Some(val) => {
            let text = chars_of(val.counter.as_str());
            match parse_u32(text.as_slice()) {
                Some(r) => r,
                None => 1,
            }
        },
        None => 1,
    };
    let name = match query {
        Some(q) => Some(q.name()),
        None => None,
    };
    let mut counters = counters;
    count_request(&mut counters, name, to_add);
    counters
}

} // verus!
