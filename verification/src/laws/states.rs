//! What the state of a job means: which jobs run, which wait, and in what order they stand.

use vstd::prelude::*;

use crate::filter::job_passes;
use crate::filter::no_filter;
use crate::filter::FilterView;
use crate::model::rank_of_state;
use crate::model::JobView;
use crate::summary::phase_of;
use crate::summary::waiting;
use crate::summary::Phase;
use crate::text::all_ascii;
use crate::text::ascii_lower;
use crate::text::ascii_upper;
use crate::text::char_lower;
use crate::text::char_upper;
use crate::text::contains;
use crate::text::lowercase;
use crate::text::starts_with;

verus! {

/// Whether a text begins with a letter, given in both cases.
pub open spec fn initial(s: Seq<char>, small: char, large: char) -> bool {
    s.len() > 0 && (s[0] == small || s[0] == large)
}

/// Whether a text begins with another, given in both cases.
pub open spec fn begins_so(s: Seq<char>, small: Seq<char>, large: Seq<char>) -> bool {
    small.len() <= s.len() && forall|i: int|
        0 <= i < small.len() ==> (#[trigger] s[i] == small[i] || s[i] == large[i])
}

/// Whether a text is another, given in both cases.
pub open spec fn spelled(s: Seq<char>, small: Seq<char>, large: Seq<char>) -> bool {
    s.len() == small.len() && begins_so(s, small, large)
}

/// Letters and their cases.
proof fn lemma_cases(c: char)
    ensures
        char_upper(c) == 'R' <==> c == 'r' || c == 'R',
        char_upper(c) == 'P' <==> c == 'p' || c == 'P',
        char_lower(c) == 'r' <==> c == 'r' || c == 'R',
        char_lower(c) == 'p' <==> c == 'p' || c == 'P',
{
}

/// A job runs where its state begins with `r`, and waits where it begins with `p`; the counts of
/// running and pending jobs and the GPUs that jobs wait for go by the same letters.
pub proof fn law_initial_tells_phase(state: Seq<char>)
    ensures
        phase_of(state) == Some(Phase::Running) <==> initial(state, 'r', 'R'),
        phase_of(state) == Some(Phase::Pending) <==> initial(state, 'p', 'P'),
        waiting(state) <==> initial(state, 'p', 'P'),
{
    reveal_strlit("R");
    reveal_strlit("P");
    let s = ascii_upper(state);
    if state.len() > 0 {
        lemma_cases(state[0]);
        assert(s.take(1) =~= seq![s[0]]);
        assert("R"@ =~= seq!['R']);
        assert("P"@ =~= seq!['P']);
        assert(s.take(1)[0] == s[0]);
        assert(seq!['R'][0] == 'R' && seq!['P'][0] == 'P');
    }
}

/// Whether these are the same letters of ASCII, small and large.
pub open spec fn paired(small: Seq<char>, large: Seq<char>) -> bool {
    small.len() == large.len() && forall|i: int|
        0 <= i < small.len() ==> 'a' <= #[trigger] small[i] <= 'z' && small[i] as u32 == large[i] as u32 + 32
}

proof fn lemma_pair(c: char, small: char, large: char)
    requires
        'a' <= small <= 'z',
        small as u32 == large as u32 + 32,
    ensures
        char_upper(c) == large <==> c == small || c == large,
        char_lower(c) == small <==> c == small || c == large,
        char_lower(c) == small ==> c as u32 <= 127,
{
    assert(small == (small as u32 as u8) as char);
    assert(large == (large as u32 as u8) as char);
}

/// Whatever case its letters have, a text begins so where it does in large letters.
pub proof fn lemma_begins(s: Seq<char>, small: Seq<char>, large: Seq<char>)
    requires
        paired(small, large),
    ensures
        starts_with(ascii_upper(s), large) <==> begins_so(s, small, large),
        starts_with(ascii_lower(s), small) <==> begins_so(s, small, large),
        ascii_lower(s) == small <==> spelled(s, small, large),
        spelled(s, small, large) ==> all_ascii(s) && lowercase(s) == small,
        all_ascii(s) && lowercase(s) == small ==> spelled(s, small, large),
{
    let up = ascii_upper(s);
    let down = ascii_lower(s);
    let n = small.len() as int;
    assert forall|i: int| 0 <= i < n && i < s.len() implies {
        &&& #[trigger] up[i] == large[i] <==> s[i] == small[i] || s[i] == large[i]
        &&& down[i] == small[i] <==> s[i] == small[i] || s[i] == large[i]
        &&& down[i] == small[i] ==> s[i] as u32 <= 127
    } by {
        assert('a' <= small[i] <= 'z');
        lemma_pair(s[i], small[i], large[i]);
    }
    if begins_so(s, small, large) {
        assert forall|i: int| 0 <= i < n implies up[i] == large[i] && down[i] == small[i] by {
            assert(s[i] == small[i] || s[i] == large[i]);
        }
        assert(up.take(n) =~= large);
        assert(down.take(n) =~= small);
    }
    if starts_with(up, large) {
        assert forall|i: int| 0 <= i < n implies (#[trigger] s[i] == small[i] || s[i] == large[i]) by {
            assert(up.take(large.len() as int)[i] == up[i]);
            assert(up[i] == large[i]);
        }
    }
    if starts_with(down, small) {
        assert forall|i: int| 0 <= i < n implies (#[trigger] s[i] == small[i] || s[i] == large[i]) by {
            assert(down.take(small.len() as int)[i] == small[i]);
            assert(up[i] == char_upper(s[i]));
        }
    }
    if spelled(s, small, large) {
        assert(down =~= small);
        assert forall|i: int| 0 <= i < s.len() implies (#[trigger] s[i]) as u32 <= 127 by {
            assert(up[i] == char_upper(s[i]));
            assert(s[i] == small[i] || s[i] == large[i]);
        }
    }
    if down == small {
        assert(down.take(n) =~= small);
        assert(starts_with(down, small));
    }
}

/// Jobs stand in the order running, completing, pending, configuring, others, whatever the case of
/// the letters in their states.
#[verifier::rlimit(40)]
pub proof fn law_state_order(state: Seq<char>)
    ensures
        rank_of_state(state) == 0 <==> initial(state, 'r', 'R'),
        rank_of_state(state) == 1 <==> begins_so(state, "cg"@, "CG"@) || begins_so(
            state,
            "complet"@,
            "COMPLET"@,
        ),
        rank_of_state(state) == 2 <==> initial(state, 'p', 'P'),
        rank_of_state(state) == 3 <==> begins_so(state, "config"@, "CONFIG"@),
        rank_of_state(state) <= 4,
{
    lemma_letters();
    lemma_begins(state, "r"@, "R"@);
    lemma_begins(state, "p"@, "P"@);
    lemma_begins(state, "cg"@, "CG"@);
    lemma_begins(state, "complet"@, "COMPLET"@);
    lemma_begins(state, "config"@, "CONFIG"@);
    lemma_initials(state);
    if begins_so(state, "cg"@, "CG"@) {
        assert(state[0] == "cg"@[0] || state[0] == "CG"@[0]);
        assert(state[1] == "cg"@[1] || state[1] == "CG"@[1]);
    }
    if begins_so(state, "complet"@, "COMPLET"@) {
        assert(state[0] == "complet"@[0] || state[0] == "COMPLET"@[0]);
        assert(state[2] == "complet"@[2] || state[2] == "COMPLET"@[2]);
    }
    if begins_so(state, "config"@, "CONFIG"@) {
        assert(state[0] == "config"@[0] || state[0] == "CONFIG"@[0]);
        assert(state[1] == "config"@[1] || state[1] == "CONFIG"@[1]);
        assert(state[2] == "config"@[2] || state[2] == "CONFIG"@[2]);
    }
}

proof fn lemma_letters()
    ensures
        paired("r"@, "R"@),
        paired("p"@, "P"@),
        paired("cg"@, "CG"@),
        paired("complet"@, "COMPLET"@),
        paired("config"@, "CONFIG"@),
        "r"@ =~= seq!['r'],
        "R"@ =~= seq!['R'],
        "p"@ =~= seq!['p'],
        "P"@ =~= seq!['P'],
        "cg"@ =~= seq!['c', 'g'],
        "CG"@ =~= seq!['C', 'G'],
        "complet"@ =~= seq!['c', 'o', 'm', 'p', 'l', 'e', 't'],
        "COMPLET"@ =~= seq!['C', 'O', 'M', 'P', 'L', 'E', 'T'],
        "config"@ =~= seq!['c', 'o', 'n', 'f', 'i', 'g'],
        "CONFIG"@ =~= seq!['C', 'O', 'N', 'F', 'I', 'G'],
{
    reveal_strlit("r");
    reveal_strlit("R");
    reveal_strlit("p");
    reveal_strlit("P");
    reveal_strlit("cg");
    reveal_strlit("CG");
    reveal_strlit("complet");
    reveal_strlit("COMPLET");
    reveal_strlit("config");
    reveal_strlit("CONFIG");
}

/// Whether a filter asks for the jobs that run.
pub open spec fn asks_for_running(wanted: Seq<char>) -> bool {
    ||| spelled(wanted, "running"@, "RUNNING"@)
    ||| spelled(wanted, "run"@, "RUN"@)
    ||| spelled(wanted, "r"@, "R"@)
}

/// Whether a filter asks for the jobs that wait.
pub open spec fn asks_for_pending(wanted: Seq<char>) -> bool {
    ||| spelled(wanted, "pending"@, "PENDING"@)
    ||| spelled(wanted, "pend"@, "PEND"@)
    ||| spelled(wanted, "pd"@, "PD"@)
    ||| spelled(wanted, "p"@, "P"@)
}

/// The filter of one state.
pub open spec fn state_filter(wanted: Seq<char>) -> FilterView {
    FilterView { state: Some(wanted), ..no_filter() }
}

/// A filter for running jobs passes exactly the jobs whose state begins with `r`, one for pending
/// jobs exactly those whose state begins with `p`, and any other exactly those whose state holds
/// its text.
#[verifier::rlimit(40)]
pub proof fn law_state_filter(job: JobView, wanted: Seq<char>, user: Seq<char>)
    requires
        all_ascii(job.state),
    ensures
        asks_for_running(wanted) ==> (job_passes(job, state_filter(wanted), user) <==> initial(
            job.state,
            'r',
            'R',
        )),
        asks_for_pending(wanted) ==> (job_passes(job, state_filter(wanted), user) <==> initial(
            job.state,
            'p',
            'P',
        )),
        all_ascii(wanted) && !asks_for_running(wanted) && !asks_for_pending(wanted) ==> (job_passes(
            job,
            state_filter(wanted),
            user,
        ) <==> contains(ascii_lower(job.state), ascii_lower(wanted))),
{
    reveal_strlit("running");
    reveal_strlit("RUNNING");
    reveal_strlit("run");
    reveal_strlit("RUN");
    reveal_strlit("pending");
    reveal_strlit("PENDING");
    reveal_strlit("pend");
    reveal_strlit("PEND");
    reveal_strlit("pd");
    reveal_strlit("PD");
    lemma_letters();
    lemma_begins(wanted, "running"@, "RUNNING"@);
    lemma_begins(wanted, "run"@, "RUN"@);
    lemma_begins(wanted, "r"@, "R"@);
    lemma_begins(wanted, "pending"@, "PENDING"@);
    lemma_begins(wanted, "pend"@, "PEND"@);
    lemma_begins(wanted, "pd"@, "PD"@);
    lemma_begins(wanted, "p"@, "P"@);
    lemma_begins(job.state, "r"@, "R"@);
    lemma_begins(job.state, "p"@, "P"@);
    law_state_order(job.state);
    lemma_initials(job.state);
    assert("running"@[0] != "pending"@[0]);
    assert("running"@.len() == 7 && "run"@.len() == 3 && "pend"@.len() == 4 && "pd"@.len() == 2);
}

proof fn lemma_initials(s: Seq<char>)
    ensures
        begins_so(s, "r"@, "R"@) <==> initial(s, 'r', 'R'),
        begins_so(s, "p"@, "P"@) <==> initial(s, 'p', 'P'),
{
    lemma_letters();
    if s.len() > 0 {
        assert(s[0] == "r"@[0] || s[0] == "R"@[0] <==> initial(s, 'r', 'R'));
        assert(s[0] == "p"@[0] || s[0] == "P"@[0] <==> initial(s, 'p', 'P'));
    }
}

/// A job that runs passes the filter `running` and not `pending`, one that waits the other way
/// round, and jobs of other states pass neither.
pub proof fn law_running_or_pending(job: JobView, user: Seq<char>)
    requires
        all_ascii(job.state),
    ensures
        job_passes(job, state_filter("running"@), user) <==> phase_of(job.state) == Some(Phase::Running),
        job_passes(job, state_filter("pending"@), user) <==> phase_of(job.state) == Some(Phase::Pending),
{
    reveal_strlit("running");
    reveal_strlit("RUNNING");
    reveal_strlit("pending");
    reveal_strlit("PENDING");
    assert(spelled("running"@, "running"@, "RUNNING"@));
    assert(spelled("pending"@, "pending"@, "PENDING"@));
    law_state_filter(job, "running"@, user);
    law_state_filter(job, "pending"@, user);
    law_initial_tells_phase(job.state);
}

} // verus!
