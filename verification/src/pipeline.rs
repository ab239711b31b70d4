//! The decisions of a run: which items the keywords keep, which items a
//! digest covers, and the order of collection, summarizing and mailing.
use vstd::prelude::*;

use crate::config::Keywords;
use crate::models::Item;

verus! {

// ---------------------------------------------------------------------------
// Keyword filter
// ---------------------------------------------------------------------------

/// The item's title or content holds a keyword.
pub open spec fn keeps(keywords: Keywords, item: Item) -> bool {
    ||| match item.title {
        Some(t) => keywords.spec_matches(t@),
        None => false,
    }
    ||| match item.content {
        Some(c) => keywords.spec_matches(c@),
        None => false,
    }
}

/// The items the keywords keep, in order: all of them where there are no keywords.
pub open spec fn filtered(keywords: Keywords, items: Seq<Item>) -> Seq<Item> {
    if keywords.0@.len() == 0 {
        items
    } else {
        items.filter(|it: Item| keeps(keywords, it))
    }
}

/// Drops the items whose title and content hold none of the keywords;
/// keeps every item where there are no keywords.
pub fn filter_by_keywords(keywords: &Keywords, items: Vec<Item>) -> (r: Vec<Item>)
    ensures
        r@ == filtered(*keywords, items@),
{
    if keywords.is_empty() {
        return items;
    }
    let ghost pred = |it: Item| keeps(*keywords, it);
    let ghost all = items@;
    let mut out: Vec<Item> = Vec::new();
    for item in it: items
        invariant
            it.seq() == all,
            keywords.0@.len() > 0,
            pred == (|it: Item| keeps(*keywords, it)),
            out@ == all.take(it.index() as int).filter(pred),
    {
        let ghost k = it.index();
        assert(all.take(k + 1).drop_last() =~= all.take(k as int));
        assert(all.take(k + 1).last() == item);
        reveal_with_fuel(Seq::<Item>::filter, 1);
        let title_match = match &item.title {
            Some(t) => keywords.matches(t.as_str()),
            None => false,
        };
        let content_match = match &item.content {
            Some(c) => keywords.matches(c.as_str()),
            None => false,
        };
        if title_match || content_match {
            out.push(item);
        }
    }
    assert(all.take(all.len() as int) =~= all);
    out
}

/// Every item the filter keeps holds a keyword in its title or content,
/// unless there are no keywords.
pub proof fn lemma_filter_keeps_only_matching(keywords: Keywords, items: Seq<Item>, i: int)
    requires
        keywords.0@.len() > 0,
        0 <= i < filtered(keywords, items).len(),
    ensures
        keeps(keywords, filtered(keywords, items)[i]),
{
    items.lemma_filter_pred(|it: Item| keeps(keywords, it), i);
}

/// An item that holds a keyword in its title or content is kept.
pub proof fn lemma_filter_keeps_matching(keywords: Keywords, items: Seq<Item>, i: int)
    requires
        0 <= i < items.len(),
        keeps(keywords, items[i]) || keywords.0@.len() == 0,
    ensures
        filtered(keywords, items).contains(items[i]),
{
    if keywords.0@.len() > 0 {
        items.lemma_filter_contains(|it: Item| keeps(keywords, it), i);
    } else {
        assert(items[i] == filtered(keywords, items)[i]);
    }
}

proof fn lemma_filter_all_pass(s: Seq<Item>, pred: spec_fn(Item) -> bool)
    requires
        forall|i: int| 0 <= i < s.len() ==> pred(#[trigger] s[i]),
    ensures
        s.filter(pred) == s,
    decreases s.len(),
{
    reveal_with_fuel(Seq::<Item>::filter, 1);
    if s.len() > 0 {
        let d = s.drop_last();
        assert forall|i: int| 0 <= i < d.len() implies pred(#[trigger] d[i]) by {
            assert(d[i] == s[i]);
        }
        lemma_filter_all_pass(d, pred);
        assert(pred(s[s.len() - 1]));
        assert(d.push(s.last()) =~= s);
    }
}

/// Filtering twice keeps what filtering once keeps.
pub proof fn lemma_filter_idempotent(keywords: Keywords, items: Seq<Item>)
    ensures
        filtered(keywords, filtered(keywords, items)) == filtered(keywords, items),
{
    if keywords.0@.len() > 0 {
        let pred = |it: Item| keeps(keywords, it);
        let once = items.filter(pred);
        assert forall|i: int| 0 <= i < once.len() implies pred(#[trigger] once[i]) by {
            items.lemma_filter_pred(pred, i);
        }
        lemma_filter_all_pass(once, pred);
    }
}

// ---------------------------------------------------------------------------
// Digest contents
// ---------------------------------------------------------------------------

/// The stored ids of the items, in order; items without one are skipped.
pub open spec fn spec_item_ids(items: Seq<Item>) -> Seq<i64> {
    items.filter_map(|it: Item| it.id)
}

/// The ids the digest of these items links.
pub fn digest_item_ids(items: &[Item]) -> (r: Vec<i64>)
    ensures
        r@ == spec_item_ids(items@),
{
    let ghost f = |it: Item| it.id;
    let mut out: Vec<i64> = Vec::new();
    let n = items.len();
    for i in 0..n
        invariant
            n == items@.len(),
            f == (|it: Item| it.id),
            out@ == items@.take(i as int).filter_map(f),
    {
        proof {
            items@.lemma_filter_map_take_succ(f, i as int);
        }
        match items[i].id {
            Some(id) => {
                out.push(id);
            },
            None => {},
        }
    }
    assert(items@.take(n as int) =~= items@);
    out
}

// ---------------------------------------------------------------------------
// The run
// ---------------------------------------------------------------------------

/// How a run ended.
#[derive(Clone, Copy, Debug, PartialEq, Eq)]
pub enum RunOutcome {
    /// No item was left to digest: no digest was made.
    NoNewItems,
    /// The LLM gave no summary: the run fails and no digest is made.
    SummaryFailed,
    /// The digest was made and mailed, and is marked sent.
    Sent { digest_id: i64 },
    /// The digest was made but mailing failed: it stays unsent.
    NotSent { digest_id: i64 },
    /// An event came that the run did not wait for.
    Aborted,
}

impl RunOutcome {
    /// The run ended without an error.
    pub open spec fn is_ok(self) -> bool {
        self is NoNewItems || self is Sent || self is NotSent
    }
}

/// Where a run stands.
#[derive(Clone, Copy, Debug, PartialEq, Eq)]
pub enum RunPhase {
    /// Sources `0..next` have been dealt with; source `next` is being fetched.
    Collecting { next: usize },
    /// The kept items of source `next` are being stored.
    Storing { next: usize },
    /// The digests left unsent by earlier runs are being read.
    LoadingUnsent,
    /// Unsent digest `index` of `count` is being mailed again.
    Resending { index: usize, count: usize },
    /// Unsent digest `index` of `count` was mailed and is being marked sent.
    MarkingResent { index: usize, count: usize },
    /// The undigested items are being read.
    Selecting,
    /// The items are being summarized.
    Summarizing,
    /// The digest is being stored.
    Recording,
    /// The digest is being mailed.
    Sending { digest_id: i64 },
    /// The digest is being marked sent.
    Marking { digest_id: i64 },
    /// The run is over.
    Done { outcome: RunOutcome },
}

/// What the run was told happened.
#[derive(Debug)]
pub enum RunEvent {
    /// The current source gave these items.
    Fetched { items: Vec<Item> },
    /// The current source could not be fetched.
    FetchFailed,
    /// The kept items were stored.
    Stored,
    /// `count` digests left unsent by earlier runs were read.
    UnsentLoaded { count: usize },
    /// `count` undigested items were read.
    Selected { count: usize },
    /// The LLM summarized the items.
    Summarized,
    /// The LLM gave no summary.
    SummaryFailed,
    /// The digest was stored under `digest_id`.
    Recorded { digest_id: i64 },
    /// The mail was accepted.
    Sent,
    /// The mail was not accepted.
    SendFailed,
    /// The digest was marked sent.
    Marked,
}

/// What the run asks for next.
#[derive(Debug)]
pub enum RunAction {
    /// Fetch source `source`.
    Fetch { source: usize },
    /// Store these items.
    Store { items: Vec<Item> },
    /// Read the digests left unsent by earlier runs.
    LoadUnsent,
    /// Mail unsent digest `index` again.
    ResendEmail { index: usize },
    /// Mark unsent digest `index` sent.
    MarkResent { index: usize },
    /// Read the undigested items.
    SelectItems,
    /// Summarize the items.
    Summarize,
    /// Store the digest and link its items.
    RecordDigest,
    /// Mail the digest.
    SendEmail { digest_id: i64 },
    /// Mark the digest sent.
    MarkSent { digest_id: i64 },
    /// End the run.
    Finish { outcome: RunOutcome },
}

/// The items a store action holds; none for any other action.
pub open spec fn stored_items(a: RunAction) -> Seq<Item> {
    match a {
        RunAction::Store { items } => items@,
        _ => Seq::empty(),
    }
}

/// The items a fetch event holds; none for any other event.
pub open spec fn fetched_items(e: RunEvent) -> Seq<Item> {
    match e {
        RunEvent::Fetched { items } => items@,
        _ => Seq::empty(),
    }
}

/// A run over a number of sources.
#[derive(Clone, Copy, Debug, PartialEq, Eq)]
pub struct Run {
    pub sources: usize,
    pub phase: RunPhase,
}

impl Run {
    /// Collecting from source `next` on, or reading the unsent digests once
    /// every source is done.
    pub open spec fn collecting_from(sources: usize, next: int) -> RunPhase {
        if next < sources {
            RunPhase::Collecting { next: next as usize }
        } else {
            RunPhase::LoadingUnsent
        }
    }

    /// Mailing unsent digest `index` of `count`, or reading the undigested
    /// items once every unsent digest was tried.
    pub open spec fn resending_from(index: int, count: usize) -> RunPhase {
        if index < count {
            RunPhase::Resending { index: index as usize, count }
        } else {
            RunPhase::Selecting
        }
    }

    /// `a` is what the phase asks for: a store action while storing, and
    /// otherwise the one action of the phase.
    pub open spec fn asks(self, a: RunAction) -> bool {
        match self.phase {
            RunPhase::Collecting { next } => a == RunAction::Fetch { source: next },
            RunPhase::Storing { .. } => a is Store,
            RunPhase::LoadingUnsent => a == RunAction::LoadUnsent,
            RunPhase::Resending { index, .. } => a == RunAction::ResendEmail { index },
            RunPhase::MarkingResent { index, .. } => a == RunAction::MarkResent { index },
            RunPhase::Selecting => a == RunAction::SelectItems,
            RunPhase::Summarizing => a == RunAction::Summarize,
            RunPhase::Recording => a == RunAction::RecordDigest,
            RunPhase::Sending { digest_id } => a == RunAction::SendEmail { digest_id },
            RunPhase::Marking { digest_id } => a == RunAction::MarkSent { digest_id },
            RunPhase::Done { outcome } => a == RunAction::Finish { outcome },
        }
    }

    /// The phase after an event.
    pub open spec fn next_phase(self, event: RunEvent) -> RunPhase {
        match (self.phase, event) {
            (RunPhase::Collecting { next }, RunEvent::Fetched { .. }) => RunPhase::Storing { next },
            (RunPhase::Collecting { next }, RunEvent::FetchFailed) => Self::collecting_from(
                self.sources,
                next + 1,
            ),
            (RunPhase::Storing { next }, RunEvent::Stored) => Self::collecting_from(
                self.sources,
                next + 1,
            ),
            (RunPhase::LoadingUnsent, RunEvent::UnsentLoaded { count }) => Self::resending_from(
                0,
                count,
            ),
            (RunPhase::Resending { index, count }, RunEvent::Sent) => RunPhase::MarkingResent {
                index,
                count,
            },
            (RunPhase::Resending { index, count }, RunEvent::SendFailed) => Self::resending_from(
                index + 1,
                count,
            ),
            (RunPhase::MarkingResent { index, count }, RunEvent::Marked) => Self::resending_from(
                index + 1,
                count,
            ),
            (RunPhase::Selecting, RunEvent::Selected { count }) => if count == 0 {
                RunPhase::Done { outcome: RunOutcome::NoNewItems }
            } else {
                RunPhase::Summarizing
            },
            (RunPhase::Summarizing, RunEvent::Summarized) => RunPhase::Recording,
            (RunPhase::Summarizing, RunEvent::SummaryFailed) => RunPhase::Done {
                outcome: RunOutcome::SummaryFailed,
            },
            (RunPhase::Recording, RunEvent::Recorded { digest_id }) => RunPhase::Sending { digest_id },
            (RunPhase::Sending { digest_id }, RunEvent::Sent) => RunPhase::Marking { digest_id },
            (RunPhase::Sending { digest_id }, RunEvent::SendFailed) => RunPhase::Done {
                outcome: RunOutcome::NotSent { digest_id },
            },
            (RunPhase::Marking { digest_id }, RunEvent::Marked) => RunPhase::Done {
                outcome: RunOutcome::Sent { digest_id },
            },
            (RunPhase::Done { outcome }, _) => RunPhase::Done { outcome },
            _ => RunPhase::Done { outcome: RunOutcome::Aborted },
        }
    }

    /// The run after an event.
    pub open spec fn next_run(self, event: RunEvent) -> Run {
        Run { sources: self.sources, phase: self.next_phase(event) }
    }

    /// The action of any phase but storing.
    fn plain_action(&self) -> (r: RunAction)
        requires
            !(self.phase is Storing),
        ensures
            self.asks(r),
    {
        match self.phase {
            RunPhase::Collecting { next } => RunAction::Fetch { source: next },
            RunPhase::Storing { .. } => RunAction::Store { items: Vec::new() },
            RunPhase::LoadingUnsent => RunAction::LoadUnsent,
            RunPhase::Resending { index, .. } => RunAction::ResendEmail { index },
            RunPhase::MarkingResent { index, .. } => RunAction::MarkResent { index },
            RunPhase::Selecting => RunAction::SelectItems,
            RunPhase::Summarizing => RunAction::Summarize,
            RunPhase::Recording => RunAction::RecordDigest,
            RunPhase::Sending { digest_id } => RunAction::SendEmail { digest_id },
            RunPhase::Marking { digest_id } => RunAction::MarkSent { digest_id },
            RunPhase::Done { outcome } => RunAction::Finish { outcome },
        }
    }

    /// A run over `sources` sources: it fetches them in order, then mails
    /// again the digests left unsent, then reads the undigested items.
    pub fn start(sources: usize) -> (r: (Run, RunAction))
        ensures
            r.0.sources == sources,
            r.0.phase == Self::collecting_from(sources, 0),
            r.0.asks(r.1),
    {
        let phase = if 0 < sources {
            RunPhase::Collecting { next: 0 }
        } else {
            RunPhase::LoadingUnsent
        };
        let run = Run { sources, phase };
        let action = run.plain_action();
        (run, action)
    }

    /// The run after an event, and the action it asks for next. Items a
    /// source gave are stored only as far as the keywords keep them.
    pub fn step(&self, keywords: &Keywords, event: RunEvent) -> (r: (Run, RunAction))
        ensures
            r.0 == self.next_run(event),
            r.0.asks(r.1),
            r.0.phase is Storing ==> stored_items(r.1) == filtered(
                *keywords,
                fetched_items(event),
            ),
    {
        let ghost ev = event;
        let mut kept: Option<Vec<Item>> = None;
        let phase = match (self.phase, event) {
            (RunPhase::Collecting { next }, RunEvent::Fetched { items }) => {
                kept = Some(filter_by_keywords(keywords, items));
                RunPhase::Storing { next }
            },
            (RunPhase::Collecting { next }, RunEvent::FetchFailed) | (
                RunPhase::Storing { next },
                RunEvent::Stored,
            ) => {
                if next < self.sources && next + 1 < self.sources {
                    RunPhase::Collecting { next: next + 1 }
                } else {
                    RunPhase::LoadingUnsent
                }
            },
            (RunPhase::LoadingUnsent, RunEvent::UnsentLoaded { count }) => if 0 < count {
                RunPhase::Resending { index: 0, count }
            } else {
                RunPhase::Selecting
            },
            (RunPhase::Resending { index, count }, RunEvent::Sent) => RunPhase::MarkingResent {
                index,
                count,
            },
            (RunPhase::Resending { index, count }, RunEvent::SendFailed) | (
                RunPhase::MarkingResent { index, count },
                RunEvent::Marked,
            ) => {
                if index < count && index + 1 < count {
                    RunPhase::Resending { index: index + 1, count }
                } else {
                    RunPhase::Selecting
                }
            },
            (RunPhase::Selecting, RunEvent::Selected { count }) => if count == 0 {
                RunPhase::Done { outcome: RunOutcome::NoNewItems }
            } else {
                RunPhase::Summarizing
            },
            (RunPhase::Summarizing, RunEvent::Summarized) => RunPhase::Recording,
            (RunPhase::Summarizing, RunEvent::SummaryFailed) => RunPhase::Done {
                outcome: RunOutcome::SummaryFailed,
            },
            (RunPhase::Recording, RunEvent::Recorded { digest_id }) => RunPhase::Sending { digest_id },
            (RunPhase::Sending { digest_id }, RunEvent::Sent) => RunPhase::Marking { digest_id },
            (RunPhase::Sending { digest_id }, RunEvent::SendFailed) => RunPhase::Done {
                outcome: RunOutcome::NotSent { digest_id },
            },
            (RunPhase::Marking { digest_id }, RunEvent::Marked) => RunPhase::Done {
                outcome: RunOutcome::Sent { digest_id },
            },
            (RunPhase::Done { outcome }, _) => RunPhase::Done { outcome },
            _ => RunPhase::Done { outcome: RunOutcome::Aborted },
        };
        let run = Run { sources: self.sources, phase };
        match kept {
            Some(items) => (run, RunAction::Store { items }),
            None => {
                let action = run.plain_action();
                (run, action)
            },
        }
    }
}

// ---------------------------------------------------------------------------
// What every run keeps
// ---------------------------------------------------------------------------

/// A digest, new or left unsent, is marked sent only right after its mail
/// was accepted.
pub proof fn lemma_marked_only_after_sent(run: Run, event: RunEvent, a: RunAction)
    requires
        run.next_run(event).asks(a),
        a is MarkSent || a is MarkResent,
    ensures
        event is Sent,
        a is MarkSent ==> run.phase == (RunPhase::Sending { digest_id: a->MarkSent_digest_id }),
        a is MarkResent ==> run.phase is Resending && run.phase->Resending_index
            == a->MarkResent_index,
{
}

/// A mail that was accepted is marked sent next, for a new digest and for
/// one left unsent by an earlier run alike.
pub proof fn lemma_accepted_mail_is_marked(run: Run, a: RunAction)
    requires
        run.phase is Sending || run.phase is Resending,
        run.next_run(RunEvent::Sent).asks(a),
    ensures
        run.phase is Sending ==> a == (RunAction::MarkSent { digest_id: run.phase->Sending_digest_id }),
        run.phase is Resending ==> a == (RunAction::MarkResent { index: run.phase->Resending_index }),
{
}

/// A source that could not be fetched stores nothing: the run goes on with
/// the next source.
pub proof fn lemma_failed_source_skipped(run: Run, a: RunAction)
    requires
        run.phase is Collecting,
        run.next_run(RunEvent::FetchFailed).asks(a),
    ensures
        !(a is Store),
        run.next_run(RunEvent::FetchFailed).phase == Run::collecting_from(
            run.sources,
            run.phase->Collecting_next + 1,
        ),
{
}

/// With no undigested item the run ends without a digest.
pub proof fn lemma_no_items_no_digest(run: Run)
    requires
        run.phase is Selecting,
    ensures
        run.next_run(RunEvent::Selected { count: 0 }).phase == (RunPhase::Done {
            outcome: RunOutcome::NoNewItems,
        }),
{
}

/// A digest whose mail was not accepted is not marked sent: the run ends
/// and leaves it for the next run.
pub proof fn lemma_failed_mail_stays_unsent(run: Run, digest_id: i64)
    requires
        run.phase == (RunPhase::Sending { digest_id }),
    ensures
        run.next_run(RunEvent::SendFailed).phase == (RunPhase::Done {
            outcome: RunOutcome::NotSent { digest_id },
        }),
{
}

/// An unsent digest whose mail fails again is not marked sent: the run goes
/// on with the next one.
pub proof fn lemma_failed_resend_stays_unsent(run: Run, index: usize, count: usize)
    requires
        run.phase == (RunPhase::Resending { index, count }),
    ensures
        run.next_run(RunEvent::SendFailed).phase == Run::resending_from(index + 1, count),
{
}

/// The run after each of `events` in turn.
pub open spec fn runs(run: Run, events: Seq<RunEvent>) -> Run
    decreases events.len(),
{
    if events.len() == 0 {
        run
    } else {
        runs(run, events.drop_last()).next_run(events.last())
    }
}

/// The run after the first `j` events.
pub open spec fn run_at(run: Run, events: Seq<RunEvent>, j: int) -> Run {
    runs(run, events.take(j))
}

proof fn lemma_run_at_succ(run: Run, events: Seq<RunEvent>, j: int)
    requires
        0 <= j < events.len(),
    ensures
        run_at(run, events, j + 1) == run_at(run, events, j).next_run(events[j]),
{
    assert(events.take(j + 1).drop_last() =~= events.take(j));
    assert(events.take(j + 1).last() == events[j]);
}

/// A finished run stays finished, with the same outcome, whatever comes after.
pub proof fn lemma_done_stays(run: Run, events: Seq<RunEvent>, j: int, k: int, outcome: RunOutcome)
    requires
        0 <= j <= k <= events.len(),
        run_at(run, events, j).phase == (RunPhase::Done { outcome }),
    ensures
        run_at(run, events, k).phase == (RunPhase::Done { outcome }),
    decreases k - j,
{
    if j < k {
        lemma_done_stays(run, events, j, k - 1, outcome);
        lemma_run_at_succ(run, events, k - 1);
    }
}

proof fn lemma_resending_reaches(
    run: Run,
    events: Seq<RunEvent>,
    j: int,
    index: usize,
    count: usize,
    k: int,
)
    requires
        0 <= j <= events.len(),
        run_at(run, events, j).phase == (RunPhase::Resending { index, count }),
        run_at(run, events, events.len() as int).phase is Done,
        run_at(run, events, events.len() as int).phase->Done_outcome.is_ok(),
        index <= k < count,
    ensures
        exists|m: int|
            j <= m <= events.len() && #[trigger] run_at(run, events, m).phase == (
            RunPhase::Resending { index: k as usize, count }),
    decreases events.len() - j,
{
    let n = events.len() as int;
    if k == index {
        assert(run_at(run, events, j).phase == (RunPhase::Resending { index: k as usize, count }));
    } else {
        if j == n {
            assert(false);
        }
        lemma_run_at_succ(run, events, j);
        let p1 = run_at(run, events, j + 1).phase;
        if p1 is Done {
            lemma_done_stays(run, events, j + 1, n, p1->Done_outcome);
            assert(false);
        }
        if p1 is MarkingResent {
            if j + 1 == n {
                assert(false);
            }
            lemma_run_at_succ(run, events, j + 1);
            let p2 = run_at(run, events, j + 2).phase;
            if p2 is Done {
                lemma_done_stays(run, events, j + 2, n, p2->Done_outcome);
                assert(false);
            }
            assert(p2 == (RunPhase::Resending { index: (index + 1) as usize, count }));
            lemma_resending_reaches(run, events, j + 2, (index + 1) as usize, count, k);
        } else {
            assert(p1 == (RunPhase::Resending { index: (index + 1) as usize, count }));
            lemma_resending_reaches(run, events, j + 1, (index + 1) as usize, count, k);
        }
    }
}

/// Every digest left unsent when the run read them is mailed again before
/// the run ends without an error: for each of them the run asks to mail it.
pub proof fn lemma_unsent_all_resent(run: Run, events: Seq<RunEvent>, j: int, count: usize, k: int)
    requires
        0 <= j < events.len(),
        run_at(run, events, j).phase is LoadingUnsent,
        events[j] == (RunEvent::UnsentLoaded { count }),
        run_at(run, events, events.len() as int).phase is Done,
        run_at(run, events, events.len() as int).phase->Done_outcome.is_ok(),
        0 <= k < count,
    ensures
        exists|m: int|
            j < m <= events.len() && #[trigger] run_at(run, events, m).phase == (
            RunPhase::Resending { index: k as usize, count }),
        asked_to_resend(run, events, j, k),
{
    lemma_run_at_succ(run, events, j);
    assert(run_at(run, events, j + 1).phase == (RunPhase::Resending { index: 0, count }));
    lemma_resending_reaches(run, events, j + 1, 0, count, k);
    let m = choose|m: int|
        j + 1 <= m <= events.len() && #[trigger] run_at(run, events, m).phase == (
        RunPhase::Resending { index: k as usize, count });
    assert(run_at(run, events, m).asks(RunAction::ResendEmail { index: k as usize }));
}

/// After the first `after` events, the run asks at some point to mail unsent
/// digest `k` again.
pub open spec fn asked_to_resend(run: Run, events: Seq<RunEvent>, after: int, k: int) -> bool {
    exists|m: int|
        after < m <= events.len() && #[trigger] run_at(run, events, m).asks(
            RunAction::ResendEmail { index: k as usize },
        )
}

proof fn lemma_reaches_loading(run: Run, events: Seq<RunEvent>, j: int)
    requires
        0 <= j <= events.len(),
        run_at(run, events, j).phase is Collecting || run_at(run, events, j).phase is Storing
            || run_at(run, events, j).phase is LoadingUnsent,
        run_at(run, events, events.len() as int).phase is Done,
        run_at(run, events, events.len() as int).phase->Done_outcome.is_ok(),
    ensures
        exists|m: int|
            j <= m < events.len() && #[trigger] run_at(run, events, m).phase is LoadingUnsent
                && events[m] is UnsentLoaded,
    decreases events.len() - j,
{
    let n = events.len() as int;
    if j == n {
        assert(false);
    }
    lemma_run_at_succ(run, events, j);
    let p1 = run_at(run, events, j + 1).phase;
    if p1 is Done {
        lemma_done_stays(run, events, j + 1, n, p1->Done_outcome);
        assert(false);
    }
    if run_at(run, events, j).phase is LoadingUnsent {
        assert(events[j] is UnsentLoaded);
        assert(run_at(run, events, j).phase is LoadingUnsent && events[j] is UnsentLoaded);
    } else {
        lemma_reaches_loading(run, events, j + 1);
    }
}

/// A run that starts as `Run::start` starts it and ends without an error has
/// read the digests left unsent, and has asked to mail each of them again.
pub proof fn lemma_run_resends_unsent(run: Run, events: Seq<RunEvent>)
    requires
        run.phase == Run::collecting_from(run.sources, 0),
        runs(run, events).phase is Done,
        runs(run, events).phase->Done_outcome.is_ok(),
    ensures
        exists|j: int|
            0 <= j < events.len() && #[trigger] run_at(run, events, j).phase is LoadingUnsent
                && events[j] is UnsentLoaded && forall|k: int|
                0 <= k < events[j]->UnsentLoaded_count ==> #[trigger] asked_to_resend(
                    run,
                    events,
                    j,
                    k,
                ),
{
    let n = events.len() as int;
    assert(events.take(n) =~= events);
    assert(events.take(0) =~= Seq::<RunEvent>::empty());
    lemma_reaches_loading(run, events, 0);
    let j = choose|j: int|
        0 <= j < events.len() && #[trigger] run_at(run, events, j).phase is LoadingUnsent
            && events[j] is UnsentLoaded;
    let count = events[j]->UnsentLoaded_count;
    assert forall|k: int| 0 <= k < count implies #[trigger] asked_to_resend(run, events, j, k) by {
        lemma_unsent_all_resent(run, events, j, count, k);
    }
}

/// Source `k` was asked for before the first `j` events had all come.
pub open spec fn fetch_asked_before(run: Run, events: Seq<RunEvent>, j: int, k: int) -> bool {
    exists|m: int|
        0 <= m < j && #[trigger] run_at(run, events, m).asks(RunAction::Fetch { source: k as usize })
}

proof fn lemma_collection_prefix(run: Run, events: Seq<RunEvent>, j: int)
    requires
        run.phase == Run::collecting_from(run.sources, 0),
        0 <= j <= events.len(),
    ensures
        run_at(run, events, j).sources == run.sources,
        run_at(run, events, j).phase is Collecting ==> {
            let next = run_at(run, events, j).phase->Collecting_next;
            &&& next < run.sources
            &&& forall|k: int| 0 <= k < next ==> fetch_asked_before(run, events, j, k)
        },
        run_at(run, events, j).phase is Storing ==> {
            let next = run_at(run, events, j).phase->Storing_next;
            &&& next < run.sources
            &&& forall|k: int| 0 <= k <= next ==> fetch_asked_before(run, events, j, k)
        },
        run_at(run, events, j).phase is LoadingUnsent ==> forall|k: int|
            0 <= k < run.sources ==> fetch_asked_before(run, events, j, k),
    decreases j,
{
    if j == 0 {
        assert(events.take(0) =~= Seq::<RunEvent>::empty());
    } else {
        lemma_collection_prefix(run, events, j - 1);
        lemma_run_at_succ(run, events, j - 1);
        let prev = run_at(run, events, j - 1);
        assert forall|k: int| fetch_asked_before(run, events, j - 1, k) implies fetch_asked_before(
            run,
            events,
            j,
            k,
        ) by {
            let m = choose|m: int|
                0 <= m < j - 1 && #[trigger] run_at(run, events, m).asks(
                    RunAction::Fetch { source: k as usize },
                );
            assert(0 <= m < j && run_at(run, events, m).asks(RunAction::Fetch { source: k as usize }));
        }
        if prev.phase is Collecting {
            let c = prev.phase->Collecting_next;
            assert(prev.asks(RunAction::Fetch { source: (c as int) as usize }));
            assert(fetch_asked_before(run, events, j, c as int));
        }
        if prev.phase is Storing {
            let c = prev.phase->Storing_next;
            assert(fetch_asked_before(run, events, j - 1, c as int));
        }
    }
}

/// A run that begins as `Run::start` begins asks for every source, in
/// turn, before it reads the digests left unsent: whatever the sources
/// gave, none is skipped.
pub proof fn lemma_every_source_fetched(run: Run, events: Seq<RunEvent>, j: int, k: int)
    requires
        run.phase == Run::collecting_from(run.sources, 0),
        0 <= j <= events.len(),
        run_at(run, events, j).phase is LoadingUnsent,
        0 <= k < run.sources,
    ensures
        exists|m: int|
            0 <= m < j && #[trigger] run_at(run, events, m).asks(
                RunAction::Fetch { source: k as usize },
            ),
{
    lemma_collection_prefix(run, events, j);
    assert(fetch_asked_before(run, events, j, k));
}

/// A digest is recorded only once the LLM summarized the items, and every
/// undigested item read leads to a summary being asked for.
pub proof fn lemma_digest_follows_summary(run: Run, event: RunEvent, count: usize)
    ensures
        run.next_run(event).phase is Recording ==> run.phase is Summarizing && event is Summarized,
        run.phase is Selecting && count > 0 ==> run.next_run(RunEvent::Selected { count }).asks(
            RunAction::Summarize,
        ),
{
}

/// A recorded digest is mailed next, under the id it was recorded with.
pub proof fn lemma_recorded_digest_is_mailed(run: Run, digest_id: i64)
    requires
        run.phase is Recording,
    ensures
        run.next_run(RunEvent::Recorded { digest_id }).asks(RunAction::SendEmail { digest_id }),
{
}

/// Every item of the digest that has a stored id is linked, in order, and
/// nothing else is: where all items have ids, the links are those ids.
pub proof fn lemma_digest_links_stored_ids(items: Seq<Item>)
    ensures
        spec_item_ids(items).len() <= items.len(),
        (forall|i: int| 0 <= i < items.len() ==> (#[trigger] items[i]).id is Some) ==> {
            &&& spec_item_ids(items).len() == items.len()
            &&& forall|i: int| 0 <= i < items.len() ==> spec_item_ids(items)[i] == (#[trigger] items[i]).id->0
        },
    decreases items.len(),
{
    if items.len() > 0 {
        let d = items.drop_last();
        lemma_digest_links_stored_ids(d);
        assert forall|i: int| 0 <= i < d.len() implies d[i] == items[i] by {}
        if forall|i: int| 0 <= i < items.len() ==> (#[trigger] items[i]).id is Some {
            assert(items[items.len() - 1].id is Some);
            assert forall|i: int| 0 <= i < d.len() implies (#[trigger] d[i]).id is Some by {
                assert(d[i] == items[i]);
            }
        }
    }
}

/// With keywords, an item is kept when its title or its content matches
/// them, either one alone being enough, and every item kept matches in its
/// title or its content.
pub proof fn lemma_filter_title_or_content(keywords: Keywords, items: Seq<Item>, i: int, k: int)
    requires
        keywords.0@.len() > 0,
    ensures
        0 <= i < items.len() && (items[i].title matches Some(t) && keywords.spec_matches(t@))
            ==> filtered(keywords, items).contains(items[i]),
        0 <= i < items.len() && (items[i].content matches Some(c) && keywords.spec_matches(c@))
            ==> filtered(keywords, items).contains(items[i]),
        0 <= k < filtered(keywords, items).len() ==> {
            let it = filtered(keywords, items)[k];
            ||| (it.title matches Some(t) && keywords.spec_matches(t@))
            ||| (it.content matches Some(c) && keywords.spec_matches(c@))
        },
{
    let pred = |it: Item| keeps(keywords, it);
    if 0 <= i < items.len() && keeps(keywords, items[i]) {
        items.lemma_filter_contains(pred, i);
    }
    if 0 <= k < filtered(keywords, items).len() {
        items.lemma_filter_pred(pred, k);
    }
}

} // verus!
