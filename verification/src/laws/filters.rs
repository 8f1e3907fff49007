//! What a filter means: which words set which key, and which rows pass.

use vstd::prelude::*;

use crate::filter::filter_of;
use crate::filter::found_in;
use crate::filter::free_tokens;
use crate::filter::job_passes;
use crate::filter::jobs_passing;
use crate::filter::key_named;
use crate::filter::keyed;
use crate::filter::last_value;
use crate::filter::no_filter;
use crate::filter::node_passes;
use crate::filter::nodes_passing;
use crate::filter::record_passes;
use crate::filter::records_passing;
use crate::filter::FilterKey;
use crate::filter::FilterView;
use crate::laws::states::lemma_begins;
use crate::laws::states::paired;
use crate::laws::states::spelled;
use crate::laws::texts::law_cut_at_first;
use crate::laws::texts::law_trim;
use crate::laws::texts::law_words_come_back;
use crate::laws::texts::without;
use crate::model::opt_or_empty;
use crate::model::JobView;
use crate::model::NodeView;
use crate::model::RecordView;
use crate::text::all_ascii;
use crate::text::ascii_lower;
use crate::text::char_lower;
use crate::text::contains;
use crate::text::is_space;
use crate::text::join;
use crate::text::lowercase;
use crate::text::same_ignoring_case;
use crate::text::trim;
use crate::text::words;
use crate::text::CharClass;

verus! {

/// A filter of one key.
pub open spec fn one_key(key: FilterKey, value: Seq<char>) -> FilterView {
    match key {
        FilterKey::Owner => FilterView { owner: Some(value), ..no_filter() },
        FilterKey::State => FilterView { state: Some(value), ..no_filter() },
        FilterKey::Partition => FilterView { partition: Some(value), ..no_filter() },
        FilterKey::GpuType => FilterView { gpu_type: Some(value), ..no_filter() },
        FilterKey::NodeState => FilterView { node_state: Some(value), ..no_filter() },
    }
}

/// A filter of free text.
pub open spec fn free_text(query: Seq<char>) -> FilterView {
    FilterView { query, ..no_filter() }
}

/// The filter of one of the keys of another, where that has it.
pub open spec fn part(f: FilterView, key: FilterKey) -> FilterView {
    let value = match key {
        FilterKey::Owner => f.owner,
        FilterKey::State => f.state,
        FilterKey::Partition => f.partition,
        FilterKey::GpuType => f.gpu_type,
        FilterKey::NodeState => f.node_state,
    };
    match value {
        Some(v) => one_key(key, v),
        None => no_filter(),
    }
}

/// A row passes a filter where it passes each key of it and its free text: keys and free text narrow
/// what passes, and none of them widens it.
pub proof fn law_filter_is_all_its_parts(
    job: JobView,
    node: NodeView,
    row: RecordView,
    f: FilterView,
    user: Seq<char>,
)
    ensures
        job_passes(job, f, user) <==> {
            &&& job_passes(job, part(f, FilterKey::Owner), user)
            &&& job_passes(job, part(f, FilterKey::State), user)
            &&& job_passes(job, part(f, FilterKey::Partition), user)
            &&& job_passes(job, part(f, FilterKey::GpuType), user)
            &&& job_passes(job, free_text(f.query), user)
        },
        node_passes(node, f) <==> {
            &&& node_passes(node, part(f, FilterKey::NodeState))
            &&& node_passes(node, part(f, FilterKey::GpuType))
            &&& node_passes(node, free_text(f.query))
        },
        record_passes(row, f, user) <==> {
            &&& record_passes(row, part(f, FilterKey::Owner), user)
            &&& record_passes(row, part(f, FilterKey::State), user)
            &&& record_passes(row, part(f, FilterKey::Partition), user)
            &&& record_passes(row, free_text(f.query), user)
        },
{
}

/// The rows that pass are those of the list, in their order: a row that does not pass is left out,
/// and one that does is kept.
pub proof fn law_passing_rows(
    jobs: Seq<JobView>,
    job: JobView,
    nodes: Seq<NodeView>,
    node: NodeView,
    rows: Seq<RecordView>,
    row: RecordView,
    f: FilterView,
    user: Seq<char>,
)
    ensures
        jobs_passing(seq![], f, user).len() == 0,
        jobs_passing(jobs.push(job), f, user) == if job_passes(job, f, user) {
            jobs_passing(jobs, f, user).push(job)
        } else {
            jobs_passing(jobs, f, user)
        },
        nodes_passing(seq![], f).len() == 0,
        nodes_passing(nodes.push(node), f) == if node_passes(node, f) {
            nodes_passing(nodes, f).push(node)
        } else {
            nodes_passing(nodes, f)
        },
        records_passing(seq![], f, user).len() == 0,
        records_passing(rows.push(row), f, user) == if record_passes(row, f, user) {
            records_passing(rows, f, user).push(row)
        } else {
            records_passing(rows, f, user)
        },
{
    reveal(Seq::filter);
    assert(jobs.push(job).drop_last() =~= jobs);
    assert(nodes.push(node).drop_last() =~= nodes);
    assert(rows.push(row).drop_last() =~= rows);
}

/// Whether a row of an owner is asked for: the current user's, those of others, all of them, or those
/// of a user by name, the case of letters aside.
pub open spec fn owner_wanted(wanted: Seq<char>, owner: Seq<char>, user: Seq<char>) -> bool {
    if spelled(wanted, "me"@, "ME"@) {
        owner == user
    } else if spelled(wanted, "others"@, "OTHERS"@) || spelled(wanted, "other"@, "OTHER"@) {
        owner != user
    } else if spelled(wanted, "all"@, "ALL"@) {
        true
    } else {
        same_ignoring_case(owner, wanted)
    }
}

/// A filter on the owner passes the jobs and records of the current user for `me`, those of everyone
/// else for `others`, every one for `all`, and those of a user for the name of that user.
#[verifier::rlimit(40)]
pub proof fn law_owner_filter(job: JobView, row: RecordView, wanted: Seq<char>, user: Seq<char>)
    requires
        all_ascii(wanted),
    ensures
        job_passes(job, one_key(FilterKey::Owner, wanted), user) <==> owner_wanted(wanted, job.user, user),
        record_passes(row, one_key(FilterKey::Owner, wanted), user) <==> owner_wanted(
            wanted,
            row.user,
            user,
        ),
{
    reveal_strlit("me");
    reveal_strlit("ME");
    reveal_strlit("others");
    reveal_strlit("OTHERS");
    reveal_strlit("other");
    reveal_strlit("OTHER");
    reveal_strlit("all");
    reveal_strlit("ALL");
    lemma_begins(wanted, "me"@, "ME"@);
    lemma_begins(wanted, "others"@, "OTHERS"@);
    lemma_begins(wanted, "other"@, "OTHER"@);
    lemma_begins(wanted, "all"@, "ALL"@);
    let low = ascii_lower(wanted);
    assert(ascii_lower(low) =~= low) by {
        assert forall|i: int| 0 <= i < low.len() implies #[trigger] ascii_lower(low)[i] == low[i] by {
            lemma_lower_twice(wanted[i]);
        }
    }
    assert("me"@.len() == 2 && "others"@.len() == 6 && "other"@.len() == 5 && "all"@.len() == 3);
}

proof fn lemma_lower_twice(c: char)
    ensures
        char_lower(char_lower(c)) == char_lower(c),
{
    assert(c as u32 <= 127 ==> c == (c as u32 as u8) as char);
}

/// A filter on the partition passes the rows of that partition, the case of letters aside, and one on
/// the type of GPU those with a type that holds its text.
pub proof fn law_partition_and_gpu_filter(
    job: JobView,
    node: NodeView,
    row: RecordView,
    wanted: Seq<char>,
    user: Seq<char>,
)
    ensures
        job_passes(job, one_key(FilterKey::Partition, wanted), user) <==> same_ignoring_case(
            job.partition,
            wanted,
        ),
        record_passes(row, one_key(FilterKey::Partition, wanted), user) <==> same_ignoring_case(
            row.partition,
            wanted,
        ),
        job_passes(job, one_key(FilterKey::GpuType, wanted), user) <==> exists|i: int|
            0 <= i < job.gpus.len() && contains(lowercase(#[trigger] job.gpus[i].0), lowercase(wanted)),
        node_passes(node, one_key(FilterKey::GpuType, wanted)) <==> exists|i: int|
            0 <= i < node.gpus.len() && contains(lowercase(#[trigger] node.gpus[i].0), lowercase(wanted)),
{
    let f = one_key(FilterKey::GpuType, wanted);
    if job_passes(job, f, user) {
        let i = choose|i: int| 0 <= i < job.gpus.len() && found_in(wanted, (#[trigger] job.gpus[i]).0);
        assert(contains(lowercase(job.gpus[i].0), lowercase(wanted)));
    }
    if exists|i: int| 0 <= i < job.gpus.len() && contains(lowercase(#[trigger] job.gpus[i].0), lowercase(wanted)) {
        let i = choose|i: int|
            0 <= i < job.gpus.len() && contains(lowercase(#[trigger] job.gpus[i].0), lowercase(wanted));
        assert(found_in(wanted, job.gpus[i].0));
    }
    if node_passes(node, f) {
        let i = choose|i: int|
            0 <= i < node.gpus.len() && found_in(wanted, (#[trigger] node.gpus[i]).0);
        assert(contains(lowercase(node.gpus[i].0), lowercase(wanted)));
    }
    if exists|i: int| 0 <= i < node.gpus.len() && contains(lowercase(#[trigger] node.gpus[i].0), lowercase(wanted)) {
        let i = choose|i: int|
            0 <= i < node.gpus.len() && contains(lowercase(#[trigger] node.gpus[i].0), lowercase(wanted));
        assert(found_in(wanted, node.gpus[i].0));
    }
}

/// A filter on the state of nodes passes the nodes whose state holds its text, and one on the state of
/// records the records whose state does.
pub proof fn law_node_and_record_state_filter(
    node: NodeView,
    row: RecordView,
    wanted: Seq<char>,
    user: Seq<char>,
)
    ensures
        node_passes(node, one_key(FilterKey::NodeState, wanted)) <==> contains(
            lowercase(node.state),
            lowercase(wanted),
        ),
        record_passes(row, one_key(FilterKey::State, wanted), user) <==> contains(
            lowercase(row.state),
            lowercase(wanted),
        ),
{
}

/// Free text passes the rows that hold it: a job in the line of its identifier, user, state,
/// partition, name, nodes, node list, resources and reason, a node in that of its name, state,
/// resources and reason, and a record in that of its identifier, user, state, partition, name, time
/// and end.
#[verifier::rlimit(40)]
pub proof fn law_search(job: JobView, node: NodeView, row: RecordView, query: Seq<char>, user: Seq<char>)
    requires
        query.len() > 0,
    ensures
        job_passes(job, free_text(query), user) <==> contains(
            lowercase(
                job.id + " "@ + job.user + " "@ + job.state + " "@ + job.partition + " "@ + job.name + " "@
                    + job.nodes + " "@ + job.node_list + " "@ + job.gres_raw + " "@ + opt_or_empty(job.reason),
            ),
            query,
        ),
        node_passes(node, free_text(query)) <==> contains(
            lowercase(
                node.name + " "@ + node.state + " "@ + node.gres_raw + " "@ + opt_or_empty(node.reason),
            ),
            query,
        ),
        record_passes(row, free_text(query), user) <==> contains(
            lowercase(
                row.job_id + " "@ + row.user + " "@ + row.state + " "@ + row.partition + " "@ + row.name
                    + " "@ + row.elapsed + " "@ + row.end,
            ),
            query,
        ),
{
    reveal_with_fuel(join, 10);
    assert(job.search_text() == lowercase(
        job.id + " "@ + job.user + " "@ + job.state + " "@ + job.partition + " "@ + job.name + " "@
            + job.nodes + " "@ + job.node_list + " "@ + job.gres_raw + " "@ + opt_or_empty(job.reason),
    ));
}

/// The name of a key, in small and in large letters.
pub open spec fn names_key(name: Seq<char>, key: FilterKey) -> bool {
    match key {
        FilterKey::Owner => spelled(name, "owner"@, "OWNER"@) || spelled(name, "user"@, "USER"@),
        FilterKey::State => spelled(name, "state"@, "STATE"@),
        FilterKey::Partition => spelled(name, "part"@, "PART"@) || spelled(
            name,
            "partition"@,
            "PARTITION"@,
        ),
        FilterKey::GpuType => spelled(name, "gpu"@, "GPU"@) || spelled(name, "gres"@, "GRES"@) || name
            == "gpu_type"@,
        FilterKey::NodeState => spelled(name, "nstate"@, "NSTATE"@) || name == "node_state"@,
    }
}

proof fn lemma_names()
    ensures
        paired("owner"@, "OWNER"@),
        paired("user"@, "USER"@),
        paired("state"@, "STATE"@),
        paired("part"@, "PART"@),
        paired("partition"@, "PARTITION"@),
        paired("gpu"@, "GPU"@),
        paired("gres"@, "GRES"@),
        paired("nstate"@, "NSTATE"@),
        "owner"@ =~= seq!['o', 'w', 'n', 'e', 'r'],
        "user"@ =~= seq!['u', 's', 'e', 'r'],
        "state"@ =~= seq!['s', 't', 'a', 't', 'e'],
        "part"@ =~= seq!['p', 'a', 'r', 't'],
        "partition"@ =~= seq!['p', 'a', 'r', 't', 'i', 't', 'i', 'o', 'n'],
        "gpu"@ =~= seq!['g', 'p', 'u'],
        "gres"@ =~= seq!['g', 'r', 'e', 's'],
        "nstate"@ =~= seq!['n', 's', 't', 'a', 't', 'e'],
        "gpu_type"@ =~= seq!['g', 'p', 'u', '_', 't', 'y', 'p', 'e'],
        "node_state"@ =~= seq!['n', 'o', 'd', 'e', '_', 's', 't', 'a', 't', 'e'],
{
    reveal_strlit("owner");
    reveal_strlit("OWNER");
    reveal_strlit("user");
    reveal_strlit("USER");
    reveal_strlit("state");
    reveal_strlit("STATE");
    reveal_strlit("part");
    reveal_strlit("PART");
    reveal_strlit("partition");
    reveal_strlit("PARTITION");
    reveal_strlit("gpu");
    reveal_strlit("GPU");
    reveal_strlit("gres");
    reveal_strlit("GRES");
    reveal_strlit("nstate");
    reveal_strlit("NSTATE");
    reveal_strlit("gpu_type");
    reveal_strlit("node_state");
}

/// A word of the form `name=value` sets the key of that name to the value, and a word without an equals
/// sign is free text.
#[verifier::rlimit(40)]
pub proof fn law_word_sets_key(name: Seq<char>, value: Seq<char>, key: FilterKey)
    requires
        names_key(name, key),
        without(value, CharClass::Space),
    ensures
        keyed(name + "="@ + value) == Some((key, value)),
        without(value, CharClass::Exactly('=')) ==> keyed(value) is None,
{
    reveal_strlit("=");
    assert("="@ =~= seq!['=']);
    lemma_names();
    lemma_name(name, key);
    law_cut_at_first(name, '=', value, CharClass::Exactly('='));
    let none: Seq<char> = seq![];
    law_trim(none, name, none);
    if value.len() > 0 {
        assert(!is_space(value[0]) && !is_space(value[value.len() - 1]));
        law_trim(none, value, none);
    } else {
        assert(trim(value) =~= value);
    }
    if without(value, CharClass::Exactly('=')) {
        law_cut_at_first(value, '=', none, CharClass::Exactly('='));
    }
}

proof fn lemma_name(name: Seq<char>, key: FilterKey)
    requires
        names_key(name, key),
    ensures
        name.len() > 0,
        without(name, CharClass::Exactly('=')),
        !is_space(name[0]) && !is_space(name.last()),
        key_named(lowercase(name)) == Some(key),
{
    lemma_names();
    lemma_begins(name, "owner"@, "OWNER"@);
    lemma_begins(name, "user"@, "USER"@);
    lemma_begins(name, "state"@, "STATE"@);
    lemma_begins(name, "part"@, "PART"@);
    lemma_begins(name, "partition"@, "PARTITION"@);
    lemma_begins(name, "gpu"@, "GPU"@);
    lemma_begins(name, "gres"@, "GRES"@);
    lemma_begins(name, "nstate"@, "NSTATE"@);
    assert(lowercase("gpu_type"@) =~= "gpu_type"@);
    assert(lowercase("node_state"@) =~= "node_state"@);
    let low = lowercase(name);
    assert(all_ascii(name));
    assert(low == ascii_lower(name));
    assert forall|i: int| 0 <= i < name.len() implies {
        &&& (#[trigger] name[i]) != '='
        &&& !is_space(name[i])
    } by {
        assert(low[i] == char_lower(name[i]));
        assert(low[i] != '=' && !is_space(low[i]));
    }
    assert(low[0] == low[0]);
}

/// Words count in turn: the last word of a key sets it, and a word leaves the other keys as they are.
pub proof fn law_last_word_counts(tokens: Seq<Seq<char>>, token: Seq<char>, key: FilterKey)
    ensures
        last_value(seq![], key) is None,
        last_value(tokens.push(token), key) == match keyed(token) {
            Some((k, value)) => if k == key {
                Some(value)
            } else {
                last_value(tokens, key)
            },
            None => last_value(tokens, key),
        },
{
    assert(tokens.push(token).drop_last() =~= tokens);
}

/// A text of one word of the form `name=value` writes the filter of that key alone.
pub proof fn law_one_word_filter(name: Seq<char>, value: Seq<char>, key: FilterKey)
    requires
        names_key(name, key),
        without(value, CharClass::Space),
    ensures
        filter_of(words(name + "="@ + value)) == one_key(key, value),
{
    let token = name + "="@ + value;
    law_word_sets_key(name, value, key);
    lemma_token(name, value, key);
    lemma_one_token(token, key, value);
}

proof fn lemma_token(name: Seq<char>, value: Seq<char>, key: FilterKey)
    requires
        names_key(name, key),
        without(value, CharClass::Space),
    ensures
        words(name + "="@ + value) == seq![name + "="@ + value],
{
    let token = name + "="@ + value;
    reveal_strlit("=");
    lemma_no_space(name, key);
    assert(without(token, CharClass::Space)) by {
        assert forall|i: int| 0 <= i < token.len() implies !is_space(#[trigger] token[i]) by {
            if i < name.len() {
                assert(token[i] == name[i]);
            } else if i > name.len() {
                assert(token[i] == value[i - name.len() - 1]);
            }
        }
    }
    let single = seq![token];
    law_words_come_back(single);
    assert(join(single, " "@) == token);
}

proof fn lemma_one_token(token: Seq<char>, key: FilterKey, value: Seq<char>)
    requires
        keyed(token) == Some((key, value)),
    ensures
        filter_of(seq![token]) == one_key(key, value),
{
    let single = seq![token];
    let none: Seq<Seq<char>> = seq![];
    assert(none.push(token) =~= single);
    law_last_word_counts(none, token, FilterKey::Owner);
    law_last_word_counts(none, token, FilterKey::State);
    law_last_word_counts(none, token, FilterKey::Partition);
    law_last_word_counts(none, token, FilterKey::GpuType);
    law_last_word_counts(none, token, FilterKey::NodeState);
    let unkeyed = |t: Seq<char>| keyed(t) is None;
    assert(single.drop_last() =~= none);
    assert(single.last() == token);
    assert(single.filter(unkeyed) =~= none) by {
        reveal(Seq::filter);
        assert(none.filter(unkeyed) =~= none);
    }
    assert(free_tokens(single) == single.filter(unkeyed));
    let nothing: Seq<char> = seq![];
    assert(join(none, " "@) =~= nothing);
    assert(lowercase(nothing) =~= nothing);
    assert(filter_of(single) =~= one_key(key, value));
}

/// A text of words without keys writes the search for them, in lower case.
pub proof fn law_free_words_filter(list: Seq<Seq<char>>)
    requires
        forall|i: int|
            0 <= i < list.len() ==> (#[trigger] list[i]).len() > 0 && without(list[i], CharClass::Space)
                && keyed(list[i]) is None,
    ensures
        filter_of(words(join(list, " "@))) == free_text(lowercase(join(list, " "@))),
{
    law_words_come_back(list);
    lemma_all_free(list);
    assert(filter_of(list) =~= free_text(lowercase(join(list, " "@))));
}

proof fn lemma_no_space(name: Seq<char>, key: FilterKey)
    requires
        names_key(name, key),
    ensures
        without(name, CharClass::Space),
{
    lemma_names();
    reveal_strlit("OWNER");
    reveal_strlit("USER");
    reveal_strlit("STATE");
    reveal_strlit("PART");
    reveal_strlit("PARTITION");
    reveal_strlit("GPU");
    reveal_strlit("GRES");
    reveal_strlit("NSTATE");
    assert forall|i: int| 0 <= i < name.len() implies !is_space(#[trigger] name[i]) by {}
}

proof fn lemma_all_free(list: Seq<Seq<char>>)
    requires
        forall|i: int| 0 <= i < list.len() ==> keyed(#[trigger] list[i]) is None,
    ensures
        free_tokens(list) == list,
        forall|key: FilterKey| #[trigger] last_value(list, key) is None,
    decreases list.len(),
{
    reveal(Seq::filter);
    if list.len() > 0 {
        let fewer = list.drop_last();
        assert forall|i: int| 0 <= i < fewer.len() implies keyed(#[trigger] fewer[i]) is None by {
            assert(fewer[i] == list[i]);
        }
        lemma_all_free(fewer);
        assert(keyed(list[list.len() - 1]) is None);
        assert(fewer.push(list.last()) =~= list);
        assert forall|key: FilterKey| #[trigger] last_value(list, key) is None by {
            assert(last_value(fewer, key) is None);
            assert(keyed(list.last()) is None);
        }
    } else {
        assert(free_tokens(list) =~= list);
    }
}

} // verus!
