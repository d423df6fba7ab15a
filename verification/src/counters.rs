//! Request counters: a main counter, a counter of resets, and named counters, with
//! the rules by which requests change them.
use vstd::prelude::*;
use crate::text::{join_strs, push_decimal, decimal, string_from_chars};

verus! {

/// The map that a list of named values stands for; where a name occurs twice,
/// the later value counts.
pub open spec fn entries_map(s: Seq<(String, u32)>) -> Map<Seq<char>, u32>
    decreases s.len(),
{
    if s.len() == 0 {
        Map::empty()
    } else {
        entries_map(s.drop_last()).insert(s.last().0@, s.last().1)
    }
}

/// No name occurs twice in `s`.
pub open spec fn distinct_names(s: Seq<(String, u32)>) -> bool {
    forall|i: int, j: int| 0 <= i < j < s.len() ==> s[i].0@ != s[j].0@
}

proof fn lemma_entries_map_domain(s: Seq<(String, u32)>, k: Seq<char>)
    ensures
        entries_map(s).contains_key(k) <==> exists|i: int| 0 <= i < s.len() && s[i].0@ == k,
    decreases s.len(),
{
    if s.len() > 0 {
        lemma_entries_map_domain(s.drop_last(), k);
        if entries_map(s.drop_last()).contains_key(k) {
            let i = choose|i: int| 0 <= i < s.drop_last().len() && s.drop_last()[i].0@ == k;
            assert(s[i].0@ == k);
        }
        if exists|i: int| 0 <= i < s.len() && s[i].0@ == k {
            let i = choose|i: int| 0 <= i < s.len() && s[i].0@ == k;
            if i < s.len() - 1 {
                assert(s.drop_last()[i].0@ == k);
            }
        }
    }
}

proof fn lemma_entries_map_value(s: Seq<(String, u32)>, i: int)
    requires
        distinct_names(s),
        0 <= i < s.len(),
    ensures
        entries_map(s).contains_key(s[i].0@),
        entries_map(s)[s[i].0@] == s[i].1,
    decreases s.len(),
{
    if i < s.len() - 1 {
        assert(s.drop_last()[i] == s[i]);
        lemma_entries_map_value(s.drop_last(), i);
    }
}

proof fn lemma_entries_map_update(s: Seq<(String, u32)>, j: int, v: u32)
    requires
        distinct_names(s),
        0 <= j < s.len(),
    ensures
        entries_map(s.update(j, (s[j].0, v))) == entries_map(s).insert(s[j].0@, v),
    decreases s.len(),
{
    let t = s.update(j, (s[j].0, v));
    if j == s.len() - 1 {
        assert(t.drop_last() =~= s.drop_last());
        assert(entries_map(t) =~= entries_map(s).insert(s[j].0@, v));
    } else {
        assert(t.drop_last() =~= s.drop_last().update(j, (s[j].0, v)));
        assert(s.drop_last()[j] == s[j]);
        lemma_entries_map_update(s.drop_last(), j, v);
        assert(s.last().0@ != s[j].0@);
        assert(entries_map(t) =~= entries_map(s).insert(s[j].0@, v));
    }
}

/// `a + b` wrapped around modulo 2^32, as `AtomicU32::fetch_add` stores it.
pub open spec fn wrapped_sum(a: u32, b: u32) -> u32 {
    if a + b > u32::MAX {
        (a + b - 0x1_0000_0000) as u32
    } else {
        (a + b) as u32
    }
}

/// Named counters; each name occurs once.
pub struct CustomCounters {
    entries: Vec<(String, u32)>,
}

impl View for CustomCounters {
    type V = Map<Seq<char>, u32>;

    /// Each name's count.
    closed spec fn view(&self) -> Map<Seq<char>, u32> {
        entries_map(self.entries@)
    }
}

impl CustomCounters {
    /// No name occurs twice.
    pub closed spec fn wf(&self) -> bool {
        distinct_names(self.entries@)
    }

    /// The named counters as a list of names and counts, each name once.
    pub closed spec fn entries_spec(&self) -> Seq<(String, u32)> {
        self.entries@
    }

    /// No named counters.
    pub fn new() -> (c: Self)
        ensures
            c.wf(),
            c@ == Map::<Seq<char>, u32>::empty(),
    {
        CustomCounters { entries: Vec::new() }
    }

    /// Where `name` stands in the list.
    fn position(&self, name: &String) -> (r: Option<usize>)
        requires
            self.wf(),
        ensures
            r matches Some(j) ==> j < self.entries@.len() && self.entries@[j as int].0@ == name@,
            r is None ==> !self@.contains_key(name@),
    {
        let mut i: usize = 0;
        while i < self.entries.len()
            invariant
                i <= self.entries@.len(),
                forall|k: int| 0 <= k < i ==> self.entries@[k].0@ != name@,
            decreases self.entries@.len() - i,
        {
            if self.entries[i].0 == *name {
                return Some(i);
            }
            i = i + 1;
        }
        proof {
            lemma_entries_map_domain(self.entries@, name@);
        }
        None
    }

    /// The count for `name`, if there is one.
    pub fn get(&self, name: &String) -> (r: Option<u32>)
        requires
            self.wf(),
        ensures
            r == (if self@.contains_key(name@) { Some(self@[name@]) } else { None }),
    {
        match self.position(name) {
            Some(j) => {
                proof {
                    lemma_entries_map_value(self.entries@, j as int);
                }
                Some(self.entries[j].1)
            },
            None => None,
        }
    }

    /// The number of named counters.
    pub fn len(&self) -> (n: usize)
        requires
            self.wf(),
        ensures
            n == self@.len(),
    {
        proof {
            self.lemma_len();
        }
        self.entries.len()
    }

    proof fn lemma_len(&self)
        requires
            self.wf(),
        ensures
            self@.len() == self.entries@.len(),
    {
        lemma_distinct_len(self.entries@);
    }

    /// Adds `amount` to the counter `name`, wrapping around as `AtomicU32::fetch_add`
    /// does; a name not counted yet starts at `amount`.
    pub fn add_to(&mut self, name: String, amount: u32)
        requires
            old(self).wf(),
        ensures
            final(self).wf(),
            final(self)@ == old(self)@.insert(
                name@,
                if old(self)@.contains_key(name@) {
                    wrapped_sum(old(self)@[name@], amount)
                } else {
                    amount
                },
            ),
    {
        match self.position(&name) {
            Some(j) => {
                proof {
                    lemma_entries_map_value(self.entries@, j as int);
                }
                let current = self.entries[j].1;
                let updated = current.wrapping_add(amount);
                let ghost s = self.entries@;
                let key = self.entries[j].0.clone();
                self.entries.set(j, (key, updated));
                proof {
                    assert(self.entries@ =~= s.update(j as int, (s[j as int].0, updated)));
                    lemma_entries_map_update(s, j as int, updated);
                    assert(distinct_names(self.entries@)) by {
                        assert forall|a: int, b: int|
                            0 <= a < b < self.entries@.len() implies self.entries@[a].0@
                            != self.entries@[b].0@ by {
                            assert(self.entries@[a].0@ == s[a].0@);
                            assert(self.entries@[b].0@ == s[b].0@);
                        }
                    }
                }
            },
            None => {
                let ghost s = self.entries@;
                self.entries.push((name, amount));
                proof {
                    assert(self.entries@.drop_last() =~= s);
                    lemma_entries_map_domain(s, self.entries@.last().0@);
                }
            },
        }
    }

    /// Sets the counter `name` to `value`.
    pub fn insert(&mut self, name: String, value: u32)
        requires
            old(self).wf(),
        ensures
            final(self).wf(),
            final(self)@ == old(self)@.insert(name@, value),
    {
        match self.position(&name) {
            Some(j) => {
                let ghost s = self.entries@;
                let key = self.entries[j].0.clone();
                self.entries.set(j, (key, value));
                proof {
                    assert(self.entries@ =~= s.update(j as int, (s[j as int].0, value)));
                    lemma_entries_map_update(s, j as int, value);
                    assert(distinct_names(self.entries@)) by {
                        assert forall|a: int, b: int|
                            0 <= a < b < self.entries@.len() implies self.entries@[a].0@
                            != self.entries@[b].0@ by {
                            assert(self.entries@[a].0@ == s[a].0@);
                            assert(self.entries@[b].0@ == s[b].0@);
                        }
                    }
                }
            },
            None => {
                let ghost s = self.entries@;
                self.entries.push((name, value));
                proof {
                    assert(self.entries@.drop_last() =~= s);
                    lemma_entries_map_domain(s, self.entries@.last().0@);
                }
            },
        }
    }

    /// A copy of the names and counts.
    pub fn to_entries(&self) -> (r: Vec<(String, u32)>)
        requires
            self.wf(),
        ensures
            distinct_names(r@),
            entries_map(r@) == self@,
    {
        let mut r: Vec<(String, u32)> = Vec::new();
        let mut i: usize = 0;
        while i < self.entries.len()
            invariant
                i <= self.entries@.len(),
                r@.len() == i,
                forall|k: int| 0 <= k < i ==> #[trigger] r@[k].0@ == self.entries@[k].0@ && r@[k].1
                    == self.entries@[k].1,
            decreases self.entries@.len() - i,
        {
            let name = self.entries[i].0.clone();
            r.push((name, self.entries[i].1));
            i = i + 1;
        }
        proof {
            lemma_entries_map_same(r@, self.entries@);
        }
        r
    }
}

proof fn lemma_distinct_len(s: Seq<(String, u32)>)
    requires
        distinct_names(s),
    ensures
        entries_map(s).len() == s.len(),
        entries_map(s).dom().finite(),
    decreases s.len(),
{
    if s.len() > 0 {
        lemma_distinct_len(s.drop_last());
        lemma_entries_map_domain(s.drop_last(), s.last().0@);
        if entries_map(s.drop_last()).contains_key(s.last().0@) {
            let i = choose|i: int|
                0 <= i < s.drop_last().len() && s.drop_last()[i].0@ == s.last().0@;
            assert(s[i].0@ == s[s.len() - 1].0@);
        }
    }
}

proof fn lemma_entries_map_same(a: Seq<(String, u32)>, b: Seq<(String, u32)>)
    requires
        a.len() == b.len(),
        forall|k: int| 0 <= k < a.len() ==> #[trigger] a[k].0@ == b[k].0@ && a[k].1 == b[k].1,
    ensures
        entries_map(a) == entries_map(b),
    decreases a.len(),
{
    if a.len() > 0 {
        lemma_entries_map_same(a.drop_last(), b.drop_last());
        assert(a[a.len() - 1].0@ == b[b.len() - 1].0@);
    }
}

} // verus!

verus! {

/// The counters that the service keeps: every counted request adds to `counter`,
/// every reset adds to `delete_counter`, and named requests add to their own counter.
pub struct Counters {
    pub counter: u32,
    pub delete_counter: u32,
    pub custom_counters: CustomCounters,
}

impl Counters {
    /// The named counters hold each name once.
    pub open spec fn wf(&self) -> bool {
        self.custom_counters.wf()
    }

    /// All counters at zero, no named counter.
    pub fn new() -> (c: Self)
        ensures
            c.wf(),
            c.counter == 0,
            c.delete_counter == 0,
            c.custom_counters@ == Map::<Seq<char>, u32>::empty(),
    {
        Counters { counter: 0, delete_counter: 0, custom_counters: CustomCounters::new() }
    }
}

impl Default for Counters {
    fn default() -> (c: Self)
        ensures
            c.wf(),
            c.counter == 0,
            c.delete_counter == 0,
            c.custom_counters@ == Map::<Seq<char>, u32>::empty(),
    {
        Counters::new()
    }
}

/// Adds `to_add` to `incr` and clears `to_swap`; returns the new value of `incr`.
pub fn change_counters(incr: &mut u32, to_swap: &mut u32, to_add: u32) -> (r: u32)
    requires
        *old(incr) + to_add <= u32::MAX,
    ensures
        *final(to_swap) == 0,
        *final(incr) == *old(incr) + to_add,
        r == *final(incr),
{
    *to_swap = 0;
    let previous = *incr;
    *incr = previous + to_add;
    previous + to_add
}

/// The query that names a counter: its name is `n`, `a`, `m` and `e` joined.
pub struct CustomCounterQuery {
    pub n: String,
    pub a: String,
    pub m: String,
    pub e: String,
    pub counter: Option<u32>,
}

impl CustomCounterQuery {
    /// The counter's name.
    pub open spec fn name_spec(&self) -> Seq<char> {
        self.n@ + self.a@ + self.m@ + self.e@
    }

    /// The counter's name: `n`, `a`, `m` and `e` joined.
    pub fn name(&self) -> (r: String)
        ensures
            r@ == self.name_spec(),
    {
        let first = join_strs(self.n.as_str(), self.a.as_str());
        let second = join_strs(first.as_str(), self.m.as_str());
        join_strs(second.as_str(), self.e.as_str())
    }
}

/// The query that says how much a request adds.
pub struct CustomAdd {
    pub counter: u32,
}

/// The named counters after a request that counts `amount` under `name`, if any.
pub open spec fn custom_after(
    before: Map<Seq<char>, u32>,
    name: Option<Seq<char>>,
    amount: u32,
) -> Map<Seq<char>, u32> {
    match name {
        Some(k) => before.insert(
            k,
            if before.contains_key(k) {
                wrapped_sum(before[k], amount)
            } else {
                amount
            },
        ),
        None => before,
    }
}

/// What a request adds to the main counter: one when it named a counter (which
/// takes `amount`), otherwise `amount`.
pub open spec fn main_step(named: bool, amount: u32) -> u32 {
    if named {
        1
    } else {
        amount
    }
}

/// Counts a request: `amount` goes to the counter `name` when there is one, and
/// then one to the main counter; otherwise `amount` goes to the main counter.
/// The reset counter is cleared. Returns the new main counter.
pub fn count_request(counters: &mut Counters, name: Option<String>, amount: u32) -> (r: u32)
    requires
        old(counters).wf(),
        old(counters).counter + main_step(name is Some, amount) <= u32::MAX,
    ensures
        final(counters).wf(),
        final(counters).custom_counters@ == custom_after(
            old(counters).custom_counters@,
            match name {
                Some(k) => Some(k@),
                None => None,
            },
            amount,
        ),
        final(counters).counter == old(counters).counter + main_step(name is Some, amount),
        final(counters).delete_counter == 0,
        r == final(counters).counter,
{
    let mut to_add = amount;
    if let Some(n) = name {
        counters.custom_counters.add_to(n, to_add);
        to_add = 1;
    }
    change_counters(&mut counters.counter, &mut counters.delete_counter, to_add)
}

/// The amount a request adds: the one it gives, or one.
pub open spec fn requested_amount(counter: Option<CustomAdd>) -> u32 {
    match counter {
        Some(c) => c.counter,
        None => 1,
    }
}

/// The name a request counts under, if it gives one.
pub open spec fn requested_name(params: Option<CustomCounterQuery>) -> Option<Seq<char>> {
    match params {
        Some(q) => Some(q.name_spec()),
        None => None,
    }
}

/// Counts a `GET /counter` request.
pub fn counter_get(
    counters: &mut Counters,
    params: Option<CustomCounterQuery>,
    counter: Option<CustomAdd>,
)
    requires
        old(counters).wf(),
        old(counters).counter + main_step(params is Some, requested_amount(counter)) <= u32::MAX,
    ensures
        final(counters).wf(),
        final(counters).custom_counters@ == custom_after(
            old(counters).custom_counters@,
            requested_name(params),
            requested_amount(counter),
        ),
        final(counters).counter == old(counters).counter + main_step(
            params is Some,
            requested_amount(counter),
        ),
        final(counters).delete_counter == 0,
{
    let to_add = match counter {
        Some(val) => val.counter,
        None => 1,
    };
    let name = match params {
        Some(q) => Some(q.name()),
        None => None,
    };
    count_request(counters, name, to_add);
}

/// Counts a request inside the counter module and hands the counters back.
pub fn custom_counter(
    counters: Counters,
    query: Option<CustomCounterQuery>,
    query_to_add: Option<CustomAdd>,
) -> (r: Counters)
    requires
        counters.wf(),
        counters.counter + main_step(query is Some, requested_amount(query_to_add)) <= u32::MAX,
    ensures
        r.wf(),
        r.custom_counters@ == custom_after(
            counters.custom_counters@,
            requested_name(query),
            requested_amount(query_to_add),
        ),
        r.counter == counters.counter + main_step(query is Some, requested_amount(query_to_add)),
        r.delete_counter == 0,
{
    let mut counters = counters;
    counter_get(&mut counters, query, query_to_add);
    counters
}

/// The text answering a reset: `Counter reset, delete counter is ` and the count.
pub open spec fn reset_message(count: u32) -> Seq<char> {
    "Counter reset, delete counter is "@ + decimal(count as nat)
}

/// Resets the main counter and counts the reset; returns the answer's text.
pub fn counter_delete(counters: &mut Counters) -> (r: String)
    requires
        old(counters).delete_counter < u32::MAX,
    ensures
        final(counters).delete_counter == old(counters).delete_counter + 1,
        final(counters).counter == 0,
        final(counters).custom_counters == old(counters).custom_counters,
        r@ == reset_message(final(counters).delete_counter),
{
    let temp = change_counters(&mut counters.delete_counter, &mut counters.counter, 1);
    let prefix = "Counter reset, delete counter is ";
    let mut text = crate::text::chars_of(prefix);
    push_decimal(temp as u64, &mut text);
    string_from_chars(text.as_slice())
}

/// The counters as they are sent to a module: plain counts and named counts.
pub struct CountersDto {
    pub counter: u32,
    pub delete_counter: u32,
    pub custom_counters: Vec<(String, u32)>,
}

/// A copy of the counters to send to a module.
pub fn snapshot(counters: &Counters) -> (r: CountersDto)
    requires
        counters.wf(),
    ensures
        r.counter == counters.counter,
        r.delete_counter == counters.delete_counter,
        distinct_names(r.custom_counters@),
        entries_map(r.custom_counters@) == counters.custom_counters@,
{
    CountersDto {
        counter: counters.counter,
        delete_counter: counters.delete_counter,
        custom_counters: counters.custom_counters.to_entries(),
    }
}

/// Takes over what a module answered: its plain counts, and each named count it
/// lists, which replaces the count of that name.
pub fn apply_module_result(counters: &mut Counters, result: &CountersDto)
    requires
        old(counters).wf(),
    ensures
        final(counters).wf(),
        final(counters).counter == result.counter,
        final(counters).delete_counter == result.delete_counter,
        final(counters).custom_counters@ == old(counters).custom_counters@.union_prefer_right(
            entries_map(result.custom_counters@),
        ),
{
    counters.counter = result.counter;
    counters.delete_counter = result.delete_counter;
    let ghost start = counters.custom_counters@;
    let mut i: usize = 0;
    while i < result.custom_counters.len()
        invariant
            i <= result.custom_counters@.len(),
            counters.wf(),
            counters.counter == result.counter,
            counters.delete_counter == result.delete_counter,
            counters.custom_counters@ == start.union_prefer_right(
                entries_map(result.custom_counters@.take(i as int)),
            ),
        decreases result.custom_counters@.len() - i,
    {
        let name = result.custom_counters[i].0.clone();
        let value = result.custom_counters[i].1;
        counters.custom_counters.insert(name, value);
        proof {
            let s = result.custom_counters@;
            assert(s.take(i + 1).drop_last() =~= s.take(i as int));
            assert(counters.custom_counters@ =~= start.union_prefer_right(
                entries_map(s.take(i + 1)),
            ));
        }
        i = i + 1;
    }
    proof {
        assert(result.custom_counters@.take(i as int) =~= result.custom_counters@);
    }
}

/// The input handed to a module: the query string and a NUL when there is a query,
/// the counters' JSON, and a NUL and the calculation's JSON when there is one.
pub open spec fn module_input(query: Seq<char>, counters_json: Seq<char>, calc_json: Option<Seq<char>>) -> Seq<char> {
    (if query.len() > 0 { query.push('\0') } else { Seq::empty() }) + counters_json + match calc_json {
        Some(c) => seq!['\0'] + c,
        None => Seq::empty(),
    }
}

/// Puts together the input handed to a module.
pub fn compose_module_input(query: &str, counters_json: &str, calc_json: Option<&str>) -> (r: String)
    ensures
        r@ == module_input(
            query@,
            counters_json@,
            match calc_json {
                Some(c) => Some(c@),
                None => None,
            },
        ),
{
    let mut text: Vec<char> = Vec::new();
    let q = crate::text::chars_of(query);
    if q.len() > 0 {
        text = q;
        text.push('\0');
    }
    let body = crate::text::chars_of(counters_json);
    let ghost before = text@;
    let mut i: usize = 0;
    while i < body.len()
        invariant
            i <= body@.len(),
            text@ == before + body@.take(i as int),
        decreases body@.len() - i,
    {
        text.push(body[i]);
        i = i + 1;
        proof {
            assert(before + body@.take(i as int) =~= (before + body@.take(i - 1)).push(body@[i - 1]));
        }
    }
    proof {
        assert(body@.take(i as int) =~= body@);
    }
    if let Some(c) = calc_json {
        let calc = crate::text::chars_of(c);
        let ghost middle = text@;
        text.push('\0');
        let mut k: usize = 0;
        while k < calc.len()
            invariant
                k <= calc@.len(),
                text@ == middle + seq!['\0'] + calc@.take(k as int),
            decreases calc@.len() - k,
        {
            text.push(calc[k]);
            k = k + 1;
            proof {
                assert(middle + seq!['\0'] + calc@.take(k as int) =~= (middle + seq!['\0'] + calc@.take(k - 1)).push(calc@[k - 1]));
            }
        }
        proof {
            assert(calc@.take(k as int) =~= calc@);
            assert(text@ =~= module_input(query@, counters_json@, Some(c@)));
        }
    } else {
        proof {
            assert(text@ =~= module_input(query@, counters_json@, None));
        }
    }
    string_from_chars(text.as_slice())
}

/// Whether `pat` occurs in `s` as a run of consecutive characters.
pub open spec fn occurs_in(pat: Seq<char>, s: Seq<char>) -> bool {
    exists|i: int| 0 <= i && i + pat.len() <= s.len() && #[trigger] s.subrange(i, i + pat.len()) == pat
}

/// Whether `pat` occurs in `s` starting at position `i`.
fn matches_at(s: &[char], pat: &[char], i: usize) -> (r: bool)
    requires
        i + pat.len() <= s.len(),
    ensures
        r == (s@.subrange(i as int, i + pat@.len()) == pat@),
{
    let mut k: usize = 0;
    while k < pat.len()
        invariant
            k <= pat@.len(),
            i + pat.len() <= s.len(),
            forall|j: int| 0 <= j < k ==> s@[i + j] == pat@[j],
        decreases pat@.len() - k,
    {
        if s[i + k] != pat[k] {
            assert(s@.subrange(i as int, i + pat@.len())[k as int] != pat@[k as int]);
            return false;
        }
        k = k + 1;
    }
    assert(s@.subrange(i as int, i + pat@.len()) =~= pat@);
    true
}

/// Whether the file named `name` is a module to run: its name contains `.wasm`.
pub fn is_module_file(name: &str) -> (r: bool)
    ensures
        r == occurs_in(".wasm"@, name@),
{
    let s = crate::text::chars_of(name);
    let pat = crate::text::chars_of(".wasm");
    proof {
        reveal_strlit(".wasm");
    }
    if s.len() < pat.len() {
        return false;
    }
    let last = s.len() - pat.len();
    let mut i: usize = 0;
    while i <= last
        invariant
            s@ == name@,
            pat@ == ".wasm"@,
            pat@.len() == 5,
            last + pat.len() == s.len(),
            i <= last + 1,
            forall|j: int| 0 <= j < i ==> #[trigger] s@.subrange(j, j + pat@.len()) != pat@,
        decreases last + 1 - i,
    {
        if matches_at(s.as_slice(), pat.as_slice(), i) {
            return true;
        }
        i = i + 1;
    }
    proof {
        assert forall|j: int| 0 <= j && j + pat@.len() <= s@.len() implies #[trigger] s@.subrange(
            j,
            j + pat@.len(),
        ) != pat@ by {
            assert(j < i);
        }
    }
    false
}

/// What running one module came to.
pub enum ModuleOutput {
    /// The module trapped while it ran.
    Trapped,
    /// Its output is not UTF-8 text.
    NotText,
    /// Its output is text that does not read as counters.
    Unreadable,
    /// Its output reads as these counters.
    Counters(CountersDto),
}

/// What the server does after one module: go on with the next, or answer with an
/// error.
#[derive(PartialEq, Eq, Structural, Clone, Copy, Debug)]
pub enum ModuleStep {
    Continue,
    Fail,
}

/// Takes what one module came to: a module that trapped is skipped, output that is
/// no text fails the request, output that does not read as counters is ignored, and
/// counters that it answers with are taken over.
pub fn take_module_output(counters: &mut Counters, output: &ModuleOutput) -> (r: ModuleStep)
    requires
        old(counters).wf(),
    ensures
        final(counters).wf(),
        r == (if output is NotText { ModuleStep::Fail } else { ModuleStep::Continue }),
        match output {
            ModuleOutput::Counters(dto) => {
                &&& final(counters).counter == dto.counter
                &&& final(counters).delete_counter == dto.delete_counter
                &&& final(counters).custom_counters@ == old(
                    counters,
                ).custom_counters@.union_prefer_right(entries_map(dto.custom_counters@))
            },
            _ => *final(counters) == *old(counters),
        },
{
    match output {
        ModuleOutput::Trapped => ModuleStep::Continue,
        ModuleOutput::NotText => ModuleStep::Fail,
        ModuleOutput::Unreadable => ModuleStep::Continue,
        ModuleOutput::Counters(dto) => {
            apply_module_result(counters, dto);
            ModuleStep::Continue
        },
    }
}

} // verus!

verus! {

/// Two requests that count `a` and then `b` under the same name leave that name's
/// counter where one request counting `a + b` (wrapped) would.
pub proof fn law_named_counts_compose(before: Map<Seq<char>, u32>, name: Seq<char>, a: u32, b: u32)
    ensures
        custom_after(custom_after(before, Some(name), a), Some(name), b) == custom_after(
            before,
            Some(name),
            wrapped_sum(a, b),
        ),
{
    let once = custom_after(before, Some(name), a);
    assert(once.contains_key(name));
    assert(custom_after(once, Some(name), b) =~= custom_after(
        before,
        Some(name),
        wrapped_sum(a, b),
    ));
}

/// The input handed to a module is laid out piece by piece: a non-empty query comes
/// first, whole, followed by one NUL; then the counters' JSON, whole; then, when
/// there is a calculation, one NUL and the calculation's JSON, whole, which ends the
/// input. An empty query adds nothing, so the input then starts with the counters.
pub proof fn law_module_input_layout(query: Seq<char>, counters_json: Seq<char>, calc_json: Option<Seq<char>>)
    ensures
        ({
            let r = module_input(query, counters_json, calc_json);
            let head: int = if query.len() > 0 { (query.len() + 1) as int } else { 0int };
            &&& query.len() > 0 ==> r.take(query.len() as int) == query && r[query.len() as int] == '\0'
            &&& r.subrange(head, head + counters_json.len()) == counters_json
            &&& r.len() == head + counters_json.len() + match calc_json {
                Some(c) => c.len() + 1,
                None => 0,
            }
            &&& calc_json matches Some(c) ==> r[head + counters_json.len()] == '\0'
                && r.subrange(head + counters_json.len() + 1, r.len() as int) == c
        }),
{
    let r = module_input(query, counters_json, calc_json);
    let h = if query.len() > 0 { query.push('\0') } else { Seq::<char>::empty() };
    let tail = match calc_json {
        Some(c) => seq!['\0'] + c,
        None => Seq::<char>::empty(),
    };
    assert(r == h + counters_json + tail);
    if query.len() > 0 {
        assert(r.take(query.len() as int) =~= query);
    }
    let head = h.len() as int;
    assert(r.subrange(head, head + counters_json.len()) =~= counters_json);
    if let Some(c) = calc_json {
        assert(r.subrange(head + counters_json.len() + 1, r.len() as int) =~= c);
    }
}

/// Taking over the counters' own snapshot leaves the named counters as they were.
pub proof fn law_apply_own_snapshot(counters: Counters, snapshot: CountersDto)
    requires
        entries_map(snapshot.custom_counters@) == counters.custom_counters@,
    ensures
        counters.custom_counters@.union_prefer_right(entries_map(snapshot.custom_counters@))
            == counters.custom_counters@,
{
    assert(counters.custom_counters@.union_prefer_right(counters.custom_counters@)
        =~= counters.custom_counters@);
}

} // verus!
