//! Filter expressions, and the rows that pass them.

use vstd::prelude::*;

use crate::map::GpuMap;
use crate::model::copy_opt;
use crate::model::opt_view;
use crate::model::views;
use crate::model::AccountingRecord;
use crate::model::Job;
use crate::model::JobView;
use crate::model::Node;
use crate::model::NodeView;
use crate::model::RecordView;
use crate::text::all_ascii;
use crate::text::begins;
use crate::text::blank;
use crate::text::contains;
use crate::text::cut_once;
use crate::text::has_text;
use crate::text::is_text;
use crate::text::join;
use crate::text::join_texts;
use crate::text::lemma_joined;
use crate::text::lemma_words;
use crate::text::lowercase;
use crate::text::lowered;
use crate::text::same_any_case;
use crate::text::same_ignoring_case;
use crate::text::same_str;
use crate::text::split_once;
use crate::text::split_words;
use crate::text::starts_with;
use crate::text::strings;
use crate::text::strip;
use crate::text::texts;
use crate::text::to_chars;
use crate::text::to_text;
use crate::text::trim;
use crate::text::words;
use crate::text::CharClass;

verus! {

/// What a panel shows: free text to search for, and values that a row has to match.
#[derive(Debug, PartialEq, Eq)]
pub struct FilterExpression {
    pub query: String,
    pub owner: Option<String>,
    pub state: Option<String>,
    pub partition: Option<String>,
    pub gpu_type: Option<String>,
    pub node_state: Option<String>,
}

/// What a filter expression stands for.
#[verifier::ext_equal]
pub struct FilterView {
    pub query: Seq<char>,
    pub owner: Option<Seq<char>>,
    pub state: Option<Seq<char>>,
    pub partition: Option<Seq<char>>,
    pub gpu_type: Option<Seq<char>>,
    pub node_state: Option<Seq<char>>,
}

/// The keys of a filter expression.
#[derive(Debug, Clone, Copy, PartialEq, Eq, Structural)]
pub enum FilterKey {
    Owner,
    State,
    Partition,
    GpuType,
    NodeState,
}

impl View for FilterExpression {
    type V = FilterView;

    open spec fn view(&self) -> FilterView {
        FilterView {
            query: self.query@,
            owner: opt_view(self.owner),
            state: opt_view(self.state),
            partition: opt_view(self.partition),
            gpu_type: opt_view(self.gpu_type),
            node_state: opt_view(self.node_state),
        }
    }
}

/// The key that a name stands for.
pub open spec fn key_named(name: Seq<char>) -> Option<FilterKey> {
    if name == "owner"@ || name == "user"@ {
        Some(FilterKey::Owner)
    } else if name == "state"@ {
        Some(FilterKey::State)
    } else if name == "part"@ || name == "partition"@ {
        Some(FilterKey::Partition)
    } else if name == "gpu"@ || name == "gpu_type"@ || name == "gres"@ {
        Some(FilterKey::GpuType)
    } else if name == "node_state"@ || name == "nstate"@ {
        Some(FilterKey::NodeState)
    } else {
        None
    }
}

/// The key and the value of a token of the form `key=value`, the case of the key aside.
pub open spec fn keyed(token: Seq<char>) -> Option<(FilterKey, Seq<char>)> {
    match split_once(token, CharClass::Exactly('=')) {
        Some((name, value)) => match key_named(lowercase(trim(name))) {
            Some(key) => Some((key, trim(value))),
            None => None,
        },
        None => None,
    }
}

/// The value of the last token with the given key.
pub open spec fn last_value(tokens: Seq<Seq<char>>, key: FilterKey) -> Option<Seq<char>>
    decreases tokens.len(),
{
    if tokens.len() == 0 {
        None
    } else {
        match keyed(tokens.last()) {
            Some((k, value)) if k == key => Some(value),
            _ => last_value(tokens.drop_last(), key),
        }
    }
}

/// The tokens that have no key.
pub open spec fn free_tokens(tokens: Seq<Seq<char>>) -> Seq<Seq<char>> {
    tokens.filter(|t: Seq<char>| keyed(t) is None)
}

/// The filter that a list of tokens writes.
pub open spec fn filter_of(tokens: Seq<Seq<char>>) -> FilterView {
    FilterView {
        query: lowercase(join(free_tokens(tokens), " "@)),
        owner: last_value(tokens, FilterKey::Owner),
        state: last_value(tokens, FilterKey::State),
        partition: last_value(tokens, FilterKey::Partition),
        gpu_type: last_value(tokens, FilterKey::GpuType),
        node_state: last_value(tokens, FilterKey::NodeState),
    }
}

/// A filter that lets every row pass.
pub open spec fn no_filter() -> FilterView {
    FilterView {
        query: seq![],
        owner: None,
        state: None,
        partition: None,
        gpu_type: None,
        node_state: None,
    }
}

/// Whether a row of `user` passes an owner filter.
pub open spec fn owner_passes(owner: Seq<char>, user: Seq<char>, current_user: Seq<char>) -> bool {
    let wanted = lowercase(owner);
    if wanted == "me"@ {
        user == current_user
    } else if wanted == "others"@ || wanted == "other"@ {
        user != current_user
    } else if wanted == "all"@ {
        true
    } else {
        same_ignoring_case(user, wanted)
    }
}

/// Whether a job in state `state` passes a state filter.
pub open spec fn job_state_passes(wanted: Seq<char>, state: Seq<char>) -> bool {
    let w = lowercase(wanted);
    let s = lowercase(state);
    if w == "running"@ || w == "run"@ || w == "r"@ {
        starts_with(s, "r"@)
    } else if w == "pending"@ || w == "pend"@ || w == "pd"@ || w == "p"@ {
        starts_with(s, "p"@)
    } else {
        contains(s, w)
    }
}

/// Whether a text stands in another, both in lower case.
pub open spec fn found_in(needle: Seq<char>, text: Seq<char>) -> bool {
    contains(lowercase(text), lowercase(needle))
}

/// Whether one of the types of GPU passes a filter.
pub open spec fn gpu_passes(wanted: Seq<char>, gpus: Seq<(Seq<char>, u64)>) -> bool {
    exists|i: int| 0 <= i < gpus.len() && found_in(wanted, (#[trigger] gpus[i]).0)
}

/// Whether the search text of a row passes a query.
pub open spec fn query_passes(query: Seq<char>, text: Seq<char>) -> bool {
    query.len() == 0 || contains(text, query)
}

/// Whether a job passes a filter.
pub open spec fn job_passes(job: JobView, f: FilterView, current_user: Seq<char>) -> bool {
    &&& f.owner matches Some(owner) ==> owner_passes(owner, job.user, current_user)
    &&& f.state matches Some(state) ==> job_state_passes(state, job.state)
    &&& f.partition matches Some(partition) ==> same_ignoring_case(job.partition, partition)
    &&& f.gpu_type matches Some(gpu) ==> gpu_passes(gpu, job.gpus)
    &&& query_passes(f.query, job.search_text())
}

/// Whether a node passes a filter.
pub open spec fn node_passes(node: NodeView, f: FilterView) -> bool {
    &&& f.node_state matches Some(state) ==> found_in(state, node.state)
    &&& f.gpu_type matches Some(gpu) ==> gpu_passes(gpu, node.gpus)
    &&& query_passes(f.query, node.search_text())
}

/// Whether an accounting record passes a filter.
pub open spec fn record_passes(row: RecordView, f: FilterView, current_user: Seq<char>) -> bool {
    &&& f.owner matches Some(owner) ==> owner_passes(owner, row.user, current_user)
    &&& f.state matches Some(state) ==> found_in(state, row.state)
    &&& f.partition matches Some(partition) ==> same_ignoring_case(row.partition, partition)
    &&& query_passes(f.query, row.search_text())
}

/// The jobs that pass a filter, in their order.
pub open spec fn jobs_passing(jobs: Seq<JobView>, f: FilterView, current_user: Seq<char>) -> Seq<JobView> {
    jobs.filter(|j: JobView| job_passes(j, f, current_user))
}

/// The nodes that pass a filter, in their order.
pub open spec fn nodes_passing(nodes: Seq<NodeView>, f: FilterView) -> Seq<NodeView> {
    nodes.filter(|n: NodeView| node_passes(n, f))
}

/// The accounting records that pass a filter, in their order.
pub open spec fn records_passing(
    rows: Seq<RecordView>,
    f: FilterView,
    current_user: Seq<char>,
) -> Seq<RecordView> {
    rows.filter(|r: RecordView| record_passes(r, f, current_user))
}

impl Default for FilterExpression {
    fn default() -> (r: Self)
        ensures
            r@ == no_filter(),
    {
        let query = String::new();
        assert(query@ =~= seq![]);
        FilterExpression {
            query,
            owner: None,
            state: None,
            partition: None,
            gpu_type: None,
            node_state: None,
        }
    }
}

impl Clone for FilterExpression {
    fn clone(&self) -> (r: Self)
        ensures
            r@ == self@,
    {
        FilterExpression {
            query: self.query.clone(),
            owner: copy_opt(&self.owner),
            state: copy_opt(&self.state),
            partition: copy_opt(&self.partition),
            gpu_type: copy_opt(&self.gpu_type),
            node_state: copy_opt(&self.node_state),
        }
    }
}

/// The key that a name stands for.
fn find_key(name: &[char]) -> (r: Option<FilterKey>)
    ensures
        r == key_named(name@),
{
    if is_text(name, "owner") || is_text(name, "user") {
        Some(FilterKey::Owner)
    } else if is_text(name, "state") {
        Some(FilterKey::State)
    } else if is_text(name, "part") || is_text(name, "partition") {
        Some(FilterKey::Partition)
    } else if is_text(name, "gpu") || is_text(name, "gpu_type") || is_text(name, "gres") {
        Some(FilterKey::GpuType)
    } else if is_text(name, "node_state") || is_text(name, "nstate") {
        Some(FilterKey::NodeState)
    } else {
        None
    }
}

/// The key and the value of a token.
fn read_token(token: &[char]) -> (r: Option<(FilterKey, String)>)
    ensures
        match r {
            Some((key, value)) => keyed(token@) == Some((key, value@)),
            None => keyed(token@) is None,
        },
{
    match cut_once(token, CharClass::Exactly('=')) {
        Some((name, value)) => {
            let trimmed = to_text(strip(name));
            let name = lowered(trimmed.as_str());
            match find_key(name.as_slice()) {
                Some(key) => Some((key, to_text(strip(value)))),
                None => None,
            }
        },
        None => None,
    }
}

impl FilterExpression {
    /// The filter that a text writes: words of the form `key=value` set a key, the last one of a
    /// key counts, and the other words are the free text, in lower case.
    #[must_use]
    pub fn parse(input: &str) -> (r: Self)
        ensures
            r@ == filter_of(words(input@)),
            r@ == no_filter() <==> blank(input@),
    {
        let chars = to_chars(input);
        let tokens = split_words(chars.as_slice());
        let ghost shown = texts(tokens@);
        let ghost free = |t: Seq<char>| keyed(t) is None;
        let mut expression = FilterExpression::default();
        let mut free_text: Vec<String> = Vec::new();
        let mut i: usize = 0;
        assert(strings(free_text@) =~= shown.take(0).filter(free));
        while i < tokens.len()
            invariant
                i <= tokens@.len(),
                shown == texts(tokens@),
                free == (|t: Seq<char>| keyed(t) is None),
                strings(free_text@) == shown.take(i as int).filter(free),
                expression@.owner == last_value(shown.take(i as int), FilterKey::Owner),
                expression@.state == last_value(shown.take(i as int), FilterKey::State),
                expression@.partition == last_value(shown.take(i as int), FilterKey::Partition),
                expression@.gpu_type == last_value(shown.take(i as int), FilterKey::GpuType),
                expression@.node_state == last_value(shown.take(i as int), FilterKey::NodeState),
            decreases tokens@.len() - i,
        {
            let ghost before = strings(free_text@);
            proof {
                assert(shown.take(i + 1).drop_last() =~= shown.take(i as int));
                assert(shown.take(i + 1).last() == tokens@[i as int]@);
                reveal(Seq::filter);
            }
            match read_token(tokens[i].as_slice()) {
                Some((FilterKey::Owner, value)) => {
                    expression.owner = Some(value);
                },
                Some((FilterKey::State, value)) => {
                    expression.state = Some(value);
                },
                Some((FilterKey::Partition, value)) => {
                    expression.partition = Some(value);
                },
                Some((FilterKey::GpuType, value)) => {
                    expression.gpu_type = Some(value);
                },
                Some((FilterKey::NodeState, value)) => {
                    expression.node_state = Some(value);
                },
                None => {
                    free_text.push(to_text(tokens[i].as_slice()));
                    assert(strings(free_text@) =~= before.push(tokens@[i as int]@));
                },
            }
            i += 1;
        }
        assert(shown.take(i as int) =~= shown);
        let free_line = join_texts(&free_text, " ");
        expression.query = free_line.to_lowercase();
        proof {
            lemma_words(input@);
            if shown.len() == 0 {
                law_blank_is_no_filter(input@);
            } else {
                lemma_tokens_say(shown);
                assert(free_line@ == join(free_tokens(shown), " "@));
            }
        }
        expression
    }

    /// Whether the filter lets every row pass.
    #[must_use]
    pub fn is_empty(&self) -> (r: bool)
        ensures
            r == (self@ == no_filter()),
    {
        let r = self.query.as_str().is_empty() && self.owner.is_none() && self.state.is_none()
            && self.partition.is_none() && self.gpu_type.is_none() && self.node_state.is_none();
        assert(self@.query.len() == 0 ==> self@.query =~= seq![]);
        r
    }
}

/// Whether a row of `user` passes an owner filter.
fn check_owner(owner: &str, user: &str, current_user: &str) -> (r: bool)
    ensures
        r == owner_passes(owner@, user@, current_user@),
{
    let wanted = lowered(owner);
    let w = wanted.as_slice();
    if is_text(w, "me") {
        same_str(user, current_user)
    } else if is_text(w, "others") || is_text(w, "other") {
        !same_str(user, current_user)
    } else if is_text(w, "all") {
        true
    } else {
        let user = to_chars(user);
        same_any_case(user.as_slice(), w)
    }
}

/// Whether a job in state `state` passes a state filter.
fn check_job_state(wanted: &str, state: &str) -> (r: bool)
    ensures
        r == job_state_passes(wanted@, state@),
{
    let wanted = lowered(wanted);
    let state = lowered(state);
    let w = wanted.as_slice();
    let s = state.as_slice();
    if is_text(w, "running") || is_text(w, "run") || is_text(w, "r") {
        begins(s, "r")
    } else if is_text(w, "pending") || is_text(w, "pend") || is_text(w, "pd") || is_text(w, "p") {
        begins(s, "p")
    } else {
        has_text(s, w)
    }
}

/// Whether a text stands in another, both in lower case.
fn check_found(needle: &str, text: &str) -> (r: bool)
    ensures
        r == found_in(needle@, text@),
{
    let needle = lowered(needle);
    let text = lowered(text);
    has_text(text.as_slice(), needle.as_slice())
}

/// Whether one of the types of GPU passes a filter.
fn check_gpus(wanted: &str, gpus: &GpuMap) -> (r: bool)
    ensures
        r == gpu_passes(wanted@, gpus@),
{
    let mut i: usize = 0;
    while i < gpus.len()
        invariant
            i <= gpus@.len(),
            forall|k: int| 0 <= k < i ==> !found_in(wanted@, (#[trigger] gpus@[k]).0),
        decreases gpus@.len() - i,
    {
        if check_found(wanted, gpus.key_at(i).as_str()) {
            assert(found_in(wanted@, gpus@[i as int].0));
            return true;
        }
        i += 1;
    }
    false
}

/// Whether two texts differ in the case of ASCII letters only.
fn check_same(a: &str, b: &str) -> (r: bool)
    ensures
        r == same_ignoring_case(a@, b@),
{
    let a = to_chars(a);
    let b = to_chars(b);
    same_any_case(a.as_slice(), b.as_slice())
}

/// Whether the search text of a row passes a query.
fn check_query(query: &str, text: &str) -> (r: bool)
    ensures
        r == query_passes(query@, text@),
{
    let query = to_chars(query);
    let text = to_chars(text);
    query.len() == 0 || has_text(text.as_slice(), query.as_slice())
}

/// Whether a job passes a filter.
fn check_job(job: &Job, filter: &FilterExpression, current_user: &str) -> (r: bool)
    ensures
        r == job_passes(job@, filter@, current_user@),
{
    if let Some(owner) = &filter.owner {
        if !check_owner(owner.as_str(), job.user.as_str(), current_user) {
            return false;
        }
    }
    if let Some(state) = &filter.state {
        if !check_job_state(state.as_str(), job.state.as_str()) {
            return false;
        }
    }
    if let Some(partition) = &filter.partition {
        if !check_same(job.partition.as_str(), partition.as_str()) {
            return false;
        }
    }
    if let Some(gpu_type) = &filter.gpu_type {
        if !check_gpus(gpu_type.as_str(), &job.gpus) {
            return false;
        }
    }
    check_query(filter.query.as_str(), job.searchable_text().as_str())
}

/// Whether a node passes a filter.
fn check_node(node: &Node, filter: &FilterExpression) -> (r: bool)
    ensures
        r == node_passes(node@, filter@),
{
    if let Some(state) = &filter.node_state {
        if !check_found(state.as_str(), node.state.as_str()) {
            return false;
        }
    }
    if let Some(gpu_type) = &filter.gpu_type {
        if !check_gpus(gpu_type.as_str(), &node.gpus) {
            return false;
        }
    }
    check_query(filter.query.as_str(), node.searchable_text().as_str())
}

/// Whether an accounting record passes a filter.
fn check_record(row: &AccountingRecord, filter: &FilterExpression, current_user: &str) -> (r: bool)
    ensures
        r == record_passes(row@, filter@, current_user@),
{
    if let Some(owner) = &filter.owner {
        if !check_owner(owner.as_str(), row.user.as_str(), current_user) {
            return false;
        }
    }
    if let Some(state) = &filter.state {
        if !check_found(state.as_str(), row.state.as_str()) {
            return false;
        }
    }
    if let Some(partition) = &filter.partition {
        if !check_same(row.partition.as_str(), partition.as_str()) {
            return false;
        }
    }
    check_query(filter.query.as_str(), row.searchable_text().as_str())
}

/// The jobs that pass a filter, in their order.
#[must_use]
pub fn filter_jobs<'a>(
    jobs: &'a [Job],
    filter: &FilterExpression,
    current_user: &str,
) -> (r: Vec<&'a Job>)
    ensures
        views(r@) == jobs_passing(views(jobs@), filter@, current_user@),
{
    let mut out: Vec<&'a Job> = Vec::new();
    let ghost keep = |j: JobView| job_passes(j, filter@, current_user@);
    let ghost shown = views(jobs@);
    let mut i: usize = 0;
    assert(views(out@) =~= shown.take(0).filter(keep));
    while i < jobs.len()
        invariant
            i <= jobs@.len(),
            shown == views(jobs@),
            keep == (|j: JobView| job_passes(j, filter@, current_user@)),
            views(out@) == shown.take(i as int).filter(keep),
        decreases jobs@.len() - i,
    {
        let ghost before = views(out@);
        proof {
            assert(shown.take(i + 1).drop_last() =~= shown.take(i as int));
            reveal(Seq::filter);
        }
        if check_job(&jobs[i], filter, current_user) {
            out.push(&jobs[i]);
            assert(views(out@) =~= before.push(shown[i as int]));
        }
        i += 1;
    }
    assert(shown.take(i as int) =~= shown);
    out
}

/// The nodes that pass a filter, in their order.
#[must_use]
pub fn filter_nodes<'a>(nodes: &'a [Node], filter: &FilterExpression) -> (r: Vec<&'a Node>)
    ensures
        views(r@) == nodes_passing(views(nodes@), filter@),
{
    let mut out: Vec<&'a Node> = Vec::new();
    let ghost keep = |n: NodeView| node_passes(n, filter@);
    let ghost shown = views(nodes@);
    let mut i: usize = 0;
    assert(views(out@) =~= shown.take(0).filter(keep));
    while i < nodes.len()
        invariant
            i <= nodes@.len(),
            shown == views(nodes@),
            keep == (|n: NodeView| node_passes(n, filter@)),
            views(out@) == shown.take(i as int).filter(keep),
        decreases nodes@.len() - i,
    {
        let ghost before = views(out@);
        proof {
            assert(shown.take(i + 1).drop_last() =~= shown.take(i as int));
            reveal(Seq::filter);
        }
        if check_node(&nodes[i], filter) {
            out.push(&nodes[i]);
            assert(views(out@) =~= before.push(shown[i as int]));
        }
        i += 1;
    }
    assert(shown.take(i as int) =~= shown);
    out
}

/// The accounting records that pass a filter, in their order.
#[must_use]
pub fn filter_accounting<'a>(
    rows: &'a [AccountingRecord],
    filter: &FilterExpression,
    current_user: &str,
) -> (r: Vec<&'a AccountingRecord>)
    ensures
        views(r@) == records_passing(views(rows@), filter@, current_user@),
{
    let mut out: Vec<&'a AccountingRecord> = Vec::new();
    let ghost keep = |r: RecordView| record_passes(r, filter@, current_user@);
    let ghost shown = views(rows@);
    let mut i: usize = 0;
    assert(views(out@) =~= shown.take(0).filter(keep));
    while i < rows.len()
        invariant
            i <= rows@.len(),
            shown == views(rows@),
            keep == (|r: RecordView| record_passes(r, filter@, current_user@)),
            views(out@) == shown.take(i as int).filter(keep),
        decreases rows@.len() - i,
    {
        let ghost before = views(out@);
        proof {
            assert(shown.take(i + 1).drop_last() =~= shown.take(i as int));
            reveal(Seq::filter);
        }
        if check_record(&rows[i], filter, current_user) {
            out.push(&rows[i]);
            assert(views(out@) =~= before.push(shown[i as int]));
        }
        i += 1;
    }
    assert(shown.take(i as int) =~= shown);
    out
}

/// Without a filter every job, node and record passes.
pub proof fn law_no_filter_passes(
    job: JobView,
    node: NodeView,
    row: RecordView,
    current_user: Seq<char>,
)
    ensures
        job_passes(job, no_filter(), current_user),
        node_passes(node, no_filter()),
        record_passes(row, no_filter(), current_user),
{
}

/// Tokens that are not empty say something: a key has a value, or there is free text.
proof fn lemma_tokens_say(tokens: Seq<Seq<char>>)
    requires
        tokens.len() > 0,
        forall|i: int| 0 <= i < tokens.len() ==> (#[trigger] tokens[i]).len() > 0,
    ensures
        ({
            ||| join(free_tokens(tokens), " "@).len() > 0
            ||| last_value(tokens, FilterKey::Owner) is Some
            ||| last_value(tokens, FilterKey::State) is Some
            ||| last_value(tokens, FilterKey::Partition) is Some
            ||| last_value(tokens, FilterKey::GpuType) is Some
            ||| last_value(tokens, FilterKey::NodeState) is Some
        }),
{
    if keyed(tokens.last()) is None {
        let free = free_tokens(tokens);
        assert(free.len() > 0 && free.last() == tokens.last()) by {
            reveal(Seq::filter);
        }
        assert(tokens[tokens.len() - 1].len() > 0);
        lemma_joined(free);
    }
}

/// An empty or blank text writes no filter, and of ASCII texts no other does. Of the texts beyond
/// ASCII, [`FilterExpression::parse`] says the same.
pub proof fn law_blank_is_no_filter(input: Seq<char>)
    ensures
        blank(input) ==> filter_of(words(input)) == no_filter(),
        all_ascii(input) && !blank(input) ==> filter_of(words(input)) != no_filter(),
{
    let tokens = words(input);
    lemma_words(input);
    if blank(input) {
        assert(free_tokens(tokens) =~= seq![]) by {
            reveal(Seq::filter);
        }
        let nothing: Seq<char> = seq![];
        assert(join(free_tokens(tokens), " "@) =~= nothing);
        assert(lowercase(nothing) =~= nothing);
    } else if all_ascii(input) {
        let unkeyed = |t: Seq<char>| keyed(t) is None;
        let free = free_tokens(tokens);
        lemma_tokens_say(tokens);
        assert forall|i: int| 0 <= i < free.len() implies all_ascii(#[trigger] free[i]) by {
            assert(free == tokens.filter(unkeyed));
            assert(tokens.filter(unkeyed).contains(free[i]));
            tokens.lemma_filter_contains_rev(unkeyed, free[i]);
        }
        lemma_joined(free);
        assert(filter_of(tokens).query.len() == join(free, " "@).len());
        assert(no_filter().query.len() == 0);
    }
}

/// A filter on `me` and one on `others` part the jobs: each job passes one of them and not the other.
pub proof fn law_me_and_others_part_jobs(job: JobView, f: FilterView, current_user: Seq<char>)
    requires
        job_passes(job, (FilterView { owner: None, ..f }), current_user),
    ensures
        job_passes(job, (FilterView { owner: Some("me"@), ..f }), current_user) != job_passes(
            job,
            (FilterView { owner: Some("others"@), ..f }),
            current_user,
        ),
{
    reveal_strlit("me");
    reveal_strlit("others");
    reveal_strlit("other");
    assert(lowercase("me"@) =~= "me"@);
    assert(lowercase("others"@) =~= "others"@);
    assert("others"@.len() != "me"@.len());
}

/// A token with a key that is not set yet narrows what passes: what passes with it also passed
/// without it.
pub proof fn law_keyed_token_narrows(
    tokens: Seq<Seq<char>>,
    token: Seq<char>,
    job: JobView,
    node: NodeView,
    row: RecordView,
    current_user: Seq<char>,
)
    requires
        keyed(token) matches Some((key, _)) && last_value(tokens, key) is None,
    ensures
        job_passes(job, filter_of(tokens.push(token)), current_user) ==> job_passes(
            job,
            filter_of(tokens),
            current_user,
        ),
        node_passes(node, filter_of(tokens.push(token))) ==> node_passes(node, filter_of(tokens)),
        record_passes(row, filter_of(tokens.push(token)), current_user) ==> record_passes(
            row,
            filter_of(tokens),
            current_user,
        ),
{
    let more = tokens.push(token);
    assert(more.drop_last() =~= tokens);
    assert(more.last() == token);
    assert(free_tokens(more) == free_tokens(tokens)) by {
        reveal(Seq::filter);
    }
}

} // verus!
