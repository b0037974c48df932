//! How long the stages of a request take, and the lines that are logged of it.
use vstd::prelude::*;
use vstd::string::*;
use crate::calendar::{timestamp, timestamp_text};
use crate::text::{cat2, cat4, decimal, decimal_text, is_ascii_text, law_decimal_is_ascii};

verus! {

/// The stages of one request. Times are milliseconds since the request began.
#[derive(Debug, PartialEq)]
pub struct StageLog {
    /// The name of the request.
    pub id: String,
    /// Each stage that has begun: its name and when.
    pub stages: Vec<(String, u64)>,
}

/// What a log holds.
pub struct LogView {
    pub id: Seq<char>,
    pub stages: Seq<(Seq<char>, u64)>,
}

/// What the stages of a log hold.
pub open spec fn stages_view(stages: Seq<(String, u64)>) -> Seq<(Seq<char>, u64)> {
    stages.map_values(|s: (String, u64)| (s.0@, s.1))
}

impl View for StageLog {
    type V = LogView;

    open spec fn view(&self) -> LogView {
        LogView { id: self.id@, stages: stages_view(self.stages@) }
    }
}

/// The time from one moment to another; none if they are the other way round.
pub open spec fn between(from: u64, to: u64) -> u64 {
    if from <= to {
        (to - from) as u64
    } else {
        0
    }
}

/// How long a stage took: until the next one began, or until the end.
pub open spec fn duration(stages: Seq<(Seq<char>, u64)>, i: int, end: u64) -> u64 {
    between(
        stages[i].1,
        if i + 1 < stages.len() {
            stages[i + 1].1
        } else {
            end
        },
    )
}

/// The members of the timings object for the first `n` stages, a comma after each.
pub open spec fn stage_members(stages: Seq<(Seq<char>, u64)>, n: nat, end: u64) -> Seq<char>
    decreases n,
{
    if n == 0 {
        Seq::empty()
    } else {
        stage_members(stages, (n - 1) as nat, end) + ("\""@ + stages[n - 1].0 + "\":"@
            + decimal_text(duration(stages, n - 1, end) as nat)) + ","@
    }
}

/// The timings as a JSON object: each stage and the total, in milliseconds.
pub open spec fn timings_text(stages: Seq<(Seq<char>, u64)>, end: u64) -> Seq<char> {
    "{"@ + stage_members(stages, stages.len(), end) + "\"total\":"@ + decimal_text(end as nat)
        + "}"@
}

/// A line of the log: when, which request, and what.
pub open spec fn log_line(id: Seq<char>, at: u64, text: Seq<char>) -> Seq<char> {
    timestamp_text(at) + " ["@ + id + "] "@ + text
}

impl StageLog {
    /// The log of a request, without stages.
    pub fn new(id: &str) -> (log: StageLog)
        ensures
            log@ == (LogView { id: id@, stages: Seq::empty() }),
    {
        let log = StageLog { id: id.to_owned(), stages: Vec::new() };
        assert(log@.stages =~= Seq::<(Seq<char>, u64)>::empty());
        log
    }

    /// Begins a stage.
    pub fn stage(&mut self, name: &str, now: u64)
        ensures
            final(self)@ == (LogView {
                id: old(self)@.id,
                stages: old(self)@.stages.push((name@, now)),
            }),
    {
        let ghost before = self@;
        self.stages.push((name.to_owned(), now));
        assert(self@.stages =~= before.stages.push((name@, now)));
    }

    /// The line to log for a text. `at` is milliseconds since 1970, in UTC.
    pub fn note(&self, at: u64, text: &str) -> (line: String)
        ensures
            line@ == log_line(self@.id, at, text@),
    {
        let when = timestamp(at);
        let head = cat4(when.as_str(), " [", self.id.as_str(), "] ");
        cat2(head.as_str(), text)
    }

    /// Whole seconds since the request began.
    pub fn elapsed_secs(now: u64) -> (secs: u64)
        ensures
            secs == now / 1000,
    {
        now / 1000
    }

    /// The timings, given that the request ends now.
    pub fn finish(&self, now: u64) -> (s: String)
        ensures
            s@ == timings_text(self@.stages, now),
    {
        let ghost all = self@.stages;
        let mut s = "{".to_owned();
        let mut i: usize = 0;
        assert("{"@ + Seq::<char>::empty() =~= "{"@);
        while i < self.stages.len()
            invariant
                all == stages_view(self.stages@),
                i <= self.stages@.len(),
                s@ == "{"@ + stage_members(all, i as nat, now),
            decreases self.stages@.len() - i,
        {
            let from: u64 = self.stages[i].1;
            let to: u64 = if i + 1 < self.stages.len() {
                self.stages[i + 1].1
            } else {
                now
            };
            let spent: u64 = if from <= to {
                to - from
            } else {
                0
            };
            assert(spent == duration(all, i as int, now));
            let number = decimal(spent);
            let member = cat4("\"", self.stages[i].0.as_str(), "\":", number.as_str());
            s.append(member.as_str());
            s.append(",");
            i = i + 1;
            assert(s@ =~= "{"@ + stage_members(all, i as nat, now));
        }
        let total = decimal(now);
        s.append("\"total\":");
        s.append(total.as_str());
        s.append("}");
        s
    }
}

// ---------------------------------------------------------------------------
// Laws

/// Whether stages begin in order and none after the end.
pub open spec fn in_order(stages: Seq<(Seq<char>, u64)>, end: u64) -> bool {
    &&& forall|i: int, j: int| 0 <= i <= j < stages.len() ==> stages[i].1 <= stages[j].1
    &&& forall|i: int| 0 <= i < stages.len() ==> (#[trigger] stages[i]).1 <= end
}

/// The time that the first `n` stages took together.
pub open spec fn total_of(stages: Seq<(Seq<char>, u64)>, n: nat, end: u64) -> nat
    decreases n,
{
    if n == 0 {
        0
    } else {
        total_of(stages, (n - 1) as nat, end) + duration(stages, n - 1, end) as nat
    }
}

proof fn lemma_stages_add_up(stages: Seq<(Seq<char>, u64)>, n: nat, end: u64)
    requires
        in_order(stages, end),
        0 < n <= stages.len(),
    ensures
        total_of(stages, n, end) == (if n < stages.len() {
            stages[n as int].1
        } else {
            end
        }) - stages[0].1,
    decreases n,
{
    reveal_with_fuel(total_of, 2);
    if n > 1 {
        lemma_stages_add_up(stages, (n - 1) as nat, end);
    }
    assert(stages[n - 1].1 <= end);
    if n < stages.len() {
        assert(stages[n - 1].1 <= stages[n as int].1);
    }
}

/// The stages leave no time out and count none twice: from the first on, their times
/// add up to the time until the end.
pub proof fn law_stages_add_up(stages: Seq<(Seq<char>, u64)>, end: u64)
    requires
        in_order(stages, end),
        stages.len() > 0,
    ensures
        total_of(stages, stages.len(), end) == end - stages[0].1,
{
    lemma_stages_add_up(stages, stages.len(), end);
}

proof fn lemma_members_are_ascii(stages: Seq<(Seq<char>, u64)>, n: nat, end: u64)
    requires
        n <= stages.len(),
        forall|i: int| 0 <= i < stages.len() ==> is_ascii_text((#[trigger] stages[i]).0),
    ensures
        is_ascii_text(stage_members(stages, n, end)),
    decreases n,
{
    reveal_strlit("\"");
    reveal_strlit("\":");
    reveal_strlit(",");
    if n > 0 {
        lemma_members_are_ascii(stages, (n - 1) as nat, end);
        law_decimal_is_ascii(duration(stages, n - 1, end) as nat);
        assert(is_ascii_text(stages[n - 1].0));
    }
}

/// The timings of stages with plain names can stand in a header.
pub proof fn law_timings_are_ascii(stages: Seq<(Seq<char>, u64)>, end: u64)
    requires
        forall|i: int| 0 <= i < stages.len() ==> is_ascii_text((#[trigger] stages[i]).0),
    ensures
        is_ascii_text(timings_text(stages, end)),
{
    reveal_strlit("{");
    reveal_strlit("\"total\":");
    reveal_strlit("}");
    lemma_members_are_ascii(stages, stages.len(), end);
    law_decimal_is_ascii(end as nat);
}

proof fn lemma_members_of_prefix(
    stages: Seq<(Seq<char>, u64)>,
    more: (Seq<char>, u64),
    n: nat,
    end: u64,
)
    requires
        n <= stages.len(),
    ensures
        stage_members(stages.push(more), n, end) == stage_members(stages, n, more.1),
    decreases n,
{
    if n > 0 {
        lemma_members_of_prefix(stages, more, (n - 1) as nat, end);
        let all = stages.push(more);
        assert(all[n - 1] == stages[n - 1]);
        if n < stages.len() {
            assert(all[n as int] == stages[n as int]);
        } else {
            assert(all[n as int] == more);
        }
    }
}

/// Without stages the timings are the total alone. One more stage takes its place before
/// the total, with the time from its start to the end; the stages before it then end
/// where it starts.
pub proof fn law_timings(stages: Seq<(Seq<char>, u64)>, name: Seq<char>, at: u64, end: u64)
    requires
        at <= end,
    ensures
        timings_text(Seq::empty(), end) == "{"@ + "\"total\":"@ + decimal_text(end as nat) + "}"@,
        stage_members(stages.push((name, at)), stages.len() + 1, end) == stage_members(
            stages,
            stages.len(),
            at,
        ) + ("\""@ + name + "\":"@ + decimal_text((end - at) as nat)) + ","@,
        timings_text(stages.push((name, at)), end) == "{"@ + stage_members(
            stages.push((name, at)),
            stages.len() + 1,
            end,
        ) + "\"total\":"@ + decimal_text(end as nat) + "}"@,
{
    lemma_members_of_prefix(stages, (name, at), stages.len(), end);
    let all = stages.push((name, at));
    assert(all[stages.len() as int] == (name, at));
    assert("{"@ + Seq::<char>::empty() =~= "{"@);
}

/// The timings of one stage.
pub proof fn law_timings_of_one(name: Seq<char>, at: u64, end: u64)
    requires
        at <= end,
    ensures
        timings_text(seq![(name, at)], end) == "{"@ + ("\""@ + name + "\":"@ + decimal_text(
            (end - at) as nat,
        ) + ","@) + "\"total\":"@ + decimal_text(end as nat) + "}"@,
{
    let none = Seq::<(Seq<char>, u64)>::empty();
    law_timings(none, name, at, end);
    assert(none.push((name, at)) =~= seq![(name, at)]);
    assert(stage_members(none, 0, at) =~= Seq::<char>::empty());
    assert(stage_members(seq![(name, at)], 1, end) =~= "\""@ + name + "\":"@ + decimal_text(
        (end - at) as nat,
    ) + ","@);
}

/// A line of the log says when, for which request, and what, in this order.
pub proof fn law_log_line(id: Seq<char>, at: u64, text: Seq<char>)
    ensures
        log_line(id, at, text) == timestamp_text(at) + " ["@ + id + "] "@ + text,
{
}

} // verus!
