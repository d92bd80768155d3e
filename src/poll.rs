//! One polling tick: turning each target's query outcome into a metrics
//! record, keeping the last-known-good cache, and writing the batch.

use vstd::prelude::*;
use crate::cache::AggregationCache;
use crate::source_query::{A2SInfoResult, A2SInfoView, QueryError, SourceQuery};
use crate::text::{cleaned, clean_string, decimal, push_decimal, push_str, text_of};

verus! {

/// The ping written for a target that did not answer: beyond any timeout.
pub const OFFLINE_PING: u128 = 5000;

/// What a tick reports for one target.
pub enum MetricRecord {
    /// The query succeeded with this result.
    Online(A2SInfoResult),
    /// The query failed; the target's last cached result supplies its names.
    Offline(A2SInfoResult),
    /// The query failed and the target never answered before: nothing is written.
    Unknown,
}

/// The mathematical value of a [`MetricRecord`].
pub enum RecordView {
    Online(A2SInfoView),
    Offline(A2SInfoView),
    Unknown,
}

impl View for MetricRecord {
    type V = RecordView;

    open spec fn view(&self) -> RecordView {
        match self {
            MetricRecord::Online(x) => RecordView::Online(x@),
            MetricRecord::Offline(x) => RecordView::Offline(x@),
            MetricRecord::Unknown => RecordView::Unknown,
        }
    }
}

/// The result of a query outcome, if it succeeded.
pub open spec fn outcome_view(o: Result<A2SInfoResult, QueryError>) -> Option<A2SInfoView> {
    match o {
        Ok(x) => Some(x@),
        Err(_) => None,
    }
}

/// The record for target `key` given the cache before the query and the
/// query's result, if any.
pub open spec fn record_spec(
    cache: Map<Seq<char>, A2SInfoView>,
    key: Seq<char>,
    outcome: Option<A2SInfoView>,
) -> RecordView {
    match outcome {
        Some(x) => RecordView::Online(x),
        None => if cache.contains_key(key) {
            RecordView::Offline(cache[key])
        } else {
            RecordView::Unknown
        },
    }
}

/// The cache after the query of target `key`.
pub open spec fn cache_after(
    cache: Map<Seq<char>, A2SInfoView>,
    key: Seq<char>,
    outcome: Option<A2SInfoView>,
) -> Map<Seq<char>, A2SInfoView> {
    match outcome {
        Some(x) => cache.insert(key, x),
        None => cache,
    }
}

/// One metrics line: the tags of the target and of `meta`, then the values.
pub open spec fn line_text(
    key: Seq<char>,
    community: Seq<char>,
    meta: A2SInfoView,
    online: bool,
    ping: nat,
    players: nat,
    bots: nat,
    max_players: nat,
) -> Seq<char> {
    "a2sinfo,host="@ + cleaned(key) + ",community="@ + cleaned(community) + ",game_folder="@
        + cleaned(meta.folder) + ",game_name="@ + cleaned(meta.game) + ",server_name="@ + cleaned(
        meta.server_name,
    ) + ",map="@ + cleaned(meta.map) + (if online {
        " online=true,ping="@
    } else {
        " online=false,ping="@
    }) + decimal(ping) + ",num_players="@ + decimal(players) + ",num_bots="@ + decimal(bots)
        + ",max_players="@ + decimal(max_players) + "\n"@
}

/// The text written for a record of the target `key` labelled `community`.
pub open spec fn record_line(key: Seq<char>, community: Seq<char>, r: RecordView) -> Seq<char> {
    match r {
        RecordView::Online(x) => line_text(
            key,
            community,
            x,
            true,
            x.ping as nat,
            x.num_players as nat,
            x.num_bots as nat,
            x.max_players as nat,
        ),
        RecordView::Offline(x) => line_text(key, community, x, false, OFFLINE_PING as nat, 0, 0, 0),
        RecordView::Unknown => Seq::empty(),
    }
}

/// The cache and the batch text after the first `n` targets of a tick.
pub open spec fn tick_spec(
    cache: Map<Seq<char>, A2SInfoView>,
    targets: Seq<SourceQuery>,
    outcomes: Seq<Option<A2SInfoView>>,
    n: nat,
) -> (Map<Seq<char>, A2SInfoView>, Seq<char>)
    decreases n,
{
    if n == 0 {
        (cache, Seq::empty())
    } else {
        let (c, text) = tick_spec(cache, targets, outcomes, (n - 1) as nat);
        let t = targets[n - 1];
        let o = outcomes[n - 1];
        (
            cache_after(c, t.full_host@, o),
            text + record_line(t.full_host@, t.community@, record_spec(c, t.full_host@, o)),
        )
    }
}

fn push_cleaned(out: &mut Vec<char>, s: &String)
    ensures
        final(out)@ == old(out)@ + cleaned(s@),
{
    let c = clean_string(s);
    push_str(out, c.as_str());
}

/// Appends one metrics line for `target` with the names of `meta`.
fn push_line(
    out: &mut Vec<char>,
    target: &SourceQuery,
    meta: &A2SInfoResult,
    online: bool,
    ping: u128,
    players: u8,
    bots: u8,
    max_players: u8,
)
    ensures
        final(out)@ == old(out)@ + line_text(
            target.full_host@,
            target.community@,
            meta@,
            online,
            ping as nat,
            players as nat,
            bots as nat,
            max_players as nat,
        ),
{
    let ghost start = out@;
    push_str(out, "a2sinfo,host=");
    push_cleaned(out, &target.full_host);
    push_str(out, ",community=");
    push_cleaned(out, &target.community);
    push_str(out, ",game_folder=");
    push_cleaned(out, &meta.folder);
    push_str(out, ",game_name=");
    push_cleaned(out, &meta.game);
    push_str(out, ",server_name=");
    push_cleaned(out, &meta.server_name);
    push_str(out, ",map=");
    push_cleaned(out, &meta.map);
    if online {
        push_str(out, " online=true,ping=");
    } else {
        push_str(out, " online=false,ping=");
    }
    push_decimal(out, ping);
    push_str(out, ",num_players=");
    push_decimal(out, players as u128);
    push_str(out, ",num_bots=");
    push_decimal(out, bots as u128);
    push_str(out, ",max_players=");
    push_decimal(out, max_players as u128);
    push_str(out, "\n");
    assert(out@ =~= start + line_text(
        target.full_host@,
        target.community@,
        meta@,
        online,
        ping as nat,
        players as nat,
        bots as nat,
        max_players as nat,
    ));
}

/// Appends the text of `record` for `target`: one line, or nothing for an
/// unknown target.
pub fn encode_record(out: &mut Vec<char>, target: &SourceQuery, record: &MetricRecord)
    ensures
        final(out)@ == old(out)@ + record_line(target.full_host@, target.community@, record@),
{
    match record {
        MetricRecord::Online(x) => {
            push_line(out, target, x, true, x.ping, x.num_players, x.num_bots, x.max_players);
        },
        MetricRecord::Offline(x) => {
            push_line(out, target, x, false, OFFLINE_PING, 0, 0, 0);
        },
        MetricRecord::Unknown => {
            assert(out@ =~= old(out)@ + Seq::<char>::empty());
        },
    }
}

/// Turns the outcome of querying `target` into its record for this tick,
/// caching a successful result.
pub fn record_outcome(
    cache: &mut AggregationCache,
    target: &SourceQuery,
    outcome: Result<A2SInfoResult, QueryError>,
) -> (r: MetricRecord)
    requires
        old(cache).wf(),
    ensures
        final(cache).wf(),
        final(cache)@ == cache_after(old(cache)@, target.full_host@, outcome_view(outcome)),
        r@ == record_spec(old(cache)@, target.full_host@, outcome_view(outcome)),
{
    match outcome {
        Ok(result) => {
            cache.insert(target.full_host.clone(), result.duplicate());
            MetricRecord::Online(result)
        },
        Err(_) => match cache.get(&target.full_host) {
            Some(cached) => MetricRecord::Offline(cached.duplicate()),
            None => MetricRecord::Unknown,
        },
    }
}

/// The polling state kept from one tick to the next: the targets and the
/// last-known-good cache.
pub struct PollScheduler {
    pub targets: Vec<SourceQuery>,
    pub cache: AggregationCache,
}

impl PollScheduler {
    /// A scheduler for `targets` with nothing cached yet.
    pub fn new(targets: Vec<SourceQuery>) -> (r: PollScheduler)
        ensures
            r.targets@ == targets@,
            r.cache.wf(),
            r.cache@ == Map::<Seq<char>, A2SInfoView>::empty(),
    {
        PollScheduler { targets, cache: AggregationCache::new() }
    }

    /// Runs one tick on the outcomes of querying each target in order, and
    /// returns the batch to hand to the metrics store.
    pub fn tick(&mut self, outcomes: Vec<Result<A2SInfoResult, QueryError>>) -> (batch: String)
        requires
            old(self).cache.wf(),
            outcomes@.len() == old(self).targets@.len(),
        ensures
            final(self).cache.wf(),
            final(self).targets@ == old(self).targets@,
            ({
                let (c, text) = tick_spec(
                    old(self).cache@,
                    old(self).targets@,
                    outcomes@.map_values(|o: Result<A2SInfoResult, QueryError>| outcome_view(o)),
                    outcomes@.len(),
                );
                final(self).cache@ == c && batch@ == text
            }),
    {
        let ghost views = outcomes@.map_values(
            |o: Result<A2SInfoResult, QueryError>| outcome_view(o),
        );
        let ghost cache0 = self.cache@;
        let ghost targets0 = self.targets@;
        let n = outcomes.len();
        let mut rest = outcomes;
        let mut out: Vec<char> = Vec::new();
        let mut i: usize = 0;
        while i < n
            invariant
                i <= n == self.targets@.len(),
                self.targets@ == targets0,
                views.len() == n,
                self.cache.wf(),
                rest@.len() == n - i,
                forall|j: int| 0 <= j < rest@.len() ==> outcome_view(#[trigger] rest@[j]) == views[j + i],
                ({
                    let (c, text) = tick_spec(cache0, targets0, views, i as nat);
                    self.cache@ == c && out@ == text
                }),
            decreases n - i,
        {
            let o = rest.remove(0);
            assert(outcome_view(o) == views[i as int]);
            let target = &self.targets[i];
            let record = record_outcome(&mut self.cache, target, o);
            encode_record(&mut out, target, &record);
            i = i + 1;
        }
        text_of(&out)
    }
}

/// A failed query of a target that succeeded before reports it offline with
/// the names of its last result, the offline ping and zero counts.
pub proof fn lemma_offline_after_success(
    cache: Map<Seq<char>, A2SInfoView>,
    key: Seq<char>,
    community: Seq<char>,
    last: A2SInfoView,
)
    ensures
        record_spec(cache_after(cache, key, Some(last)), key, None) == RecordView::Offline(last),
        record_line(key, community, record_spec(cache_after(cache, key, Some(last)), key, None))
            == line_text(key, community, last, false, OFFLINE_PING as nat, 0, 0, 0),
        cache_after(cache_after(cache, key, Some(last)), key, None) == cache_after(
            cache,
            key,
            Some(last),
        ),
{
}

/// A failed query of a target with no cached result writes nothing and
/// leaves the cache as it was.
pub proof fn lemma_unknown_writes_nothing(
    cache: Map<Seq<char>, A2SInfoView>,
    key: Seq<char>,
    community: Seq<char>,
)
    requires
        !cache.contains_key(key),
    ensures
        record_spec(cache, key, None) == RecordView::Unknown,
        record_line(key, community, record_spec(cache, key, None)) == Seq::<char>::empty(),
        cache_after(cache, key, None) == cache,
{
}

} // verus!
