//! Result assembly: the per-source outcomes of one orchestrator pass, their
//! partition into successes and failures, and the final terminal message of
//! a collection search.

use vstd::prelude::*;

use crate::aggregate::all_quantities_nonneg;
use crate::aggregate::embeds_of;
use crate::aggregate::generate_embed_data_from_search_results;
use crate::aggregate::lemma_consolidate_len;
use crate::aggregate::spec_consolidate;
use crate::aggregate::sum_all;
use crate::config::MTGCollectionConfig;
use crate::models::CardRec;
use crate::models::DisplayUnit;
use crate::models::OutputMessage;
use crate::models::SearchResultCard;
use crate::models::EMBED_MAX_COUNT;
use crate::render::card_units_of;
use crate::render::compact_body_of;
use crate::render::create_card_compact_str;
use crate::render::create_card_embeds;
use crate::text::dec_digits;
use crate::text::int_str_of;
use crate::text::i64_to_dec_string;
use crate::text::usize_to_dec_string;

verus! {

/// One per-source outcome: the fetched payload, or the error description
/// under which the source failed.
pub enum SourceOutcome<T> {
    Success(T),
    Failure(String),
}

/// The transient accumulation of one orchestrator pass: per-source outcomes,
/// index-aligned with the configured source sequence, appended one per
/// source as the pass proceeds.
pub struct PassResult<T> {
    pub outcomes: Vec<SourceOutcome<T>>,
}

impl<T> PassResult<T> {
    pub fn new() -> (r: PassResult<T>)
        ensures
            r.outcomes@.len() == 0,
    {
        PassResult { outcomes: Vec::new() }
    }

    /// Records the payload of the next source in order.
    pub fn record_success(&mut self, payload: T)
        ensures
            final(self).outcomes@ == old(self).outcomes@.push(SourceOutcome::Success(payload)),
    {
        self.outcomes.push(SourceOutcome::Success(payload));
    }

    /// Records the failure of the next source in order; the pass goes on.
    pub fn record_failure(&mut self, error: String)
        ensures
            final(self).outcomes@ == old(self).outcomes@.push(SourceOutcome::Failure(error)),
    {
        self.outcomes.push(SourceOutcome::Failure(error));
    }

    pub fn len(&self) -> (n: usize)
        ensures
            n == self.outcomes@.len(),
    {
        self.outcomes.len()
    }
}

/// How many outcomes carry a payload.
pub open spec fn count_successes<T>(s: Seq<SourceOutcome<T>>) -> int
    decreases s.len(),
{
    if s.len() == 0 {
        0
    } else {
        count_successes(s.drop_last()) + if s.last() is Success {
            1int
        } else {
            0int
        }
    }
}

/// How many outcomes carry an error.
pub open spec fn count_failures<T>(s: Seq<SourceOutcome<T>>) -> int
    decreases s.len(),
{
    if s.len() == 0 {
        0
    } else {
        count_failures(s.drop_last()) + if s.last() is Failure {
            1int
        } else {
            0int
        }
    }
}

/// Every source yields exactly one outcome: the successes and the failures
/// together account for the whole index-aligned outcome sequence.
pub proof fn lemma_outcome_partition<T>(s: Seq<SourceOutcome<T>>)
    ensures
        count_successes(s) + count_failures(s) == s.len(),
        count_successes(s) >= 0,
        count_failures(s) >= 0,
    decreases s.len(),
{
    if s.len() > 0 {
        lemma_outcome_partition(s.drop_last());
    }
}

/// The records of one outcome: its payload's records, or nothing.
pub open spec fn records_of(o: SourceOutcome<Vec<SearchResultCard>>) -> Seq<CardRec> {
    match o {
        SourceOutcome::Success(v) => v.deep_view(),
        SourceOutcome::Failure(_) => Seq::empty(),
    }
}

/// All successful sources' records, flattened in source order.
pub open spec fn flatten_successes(s: Seq<SourceOutcome<Vec<SearchResultCard>>>) -> Seq<CardRec>
    decreases s.len(),
{
    if s.len() == 0 {
        Seq::empty()
    } else {
        flatten_successes(s.drop_last()) + records_of(s.last())
    }
}

/// Partial-failure isolation: replacing any one source's outcome by a
/// failure yields exactly the records of the remaining sources — one
/// source's error never removes another source's records.
pub proof fn lemma_failure_isolated(
    s: Seq<SourceOutcome<Vec<SearchResultCard>>>,
    j: int,
    e: String,
)
    requires
        0 <= j < s.len(),
    ensures
        flatten_successes(s.update(j, SourceOutcome::Failure(e))) == flatten_successes(
            s.remove(j),
        ),
    decreases s.len(),
{
    let s2 = s.update(j, SourceOutcome::Failure(e));
    if j == s.len() - 1 {
        assert(s2.drop_last() =~= s.remove(j));
        assert(flatten_successes(s2) =~= flatten_successes(s2.drop_last()));
    } else {
        lemma_failure_isolated(s.drop_last(), j, e);
        assert(s2.drop_last() =~= s.drop_last().update(j, SourceOutcome::Failure(e)));
        assert(s2.last() == s.last());
        assert(s.remove(j).drop_last() =~= s.drop_last().remove(j));
        assert(s.remove(j).last() == s.last());
    }
}

/// An already-failed source contributes nothing: dropping it leaves the
/// flattened records unchanged.
pub proof fn lemma_failure_contributes_nothing(
    s: Seq<SourceOutcome<Vec<SearchResultCard>>>,
    j: int,
)
    requires
        0 <= j < s.len(),
        s[j] is Failure,
    ensures
        flatten_successes(s.remove(j)) == flatten_successes(s),
    decreases s.len(),
{
    if j == s.len() - 1 {
        assert(s.remove(j) =~= s.drop_last());
        assert(flatten_successes(s) =~= flatten_successes(s.drop_last()));
    } else {
        lemma_failure_contributes_nothing(s.drop_last(), j);
        assert(s.remove(j).drop_last() =~= s.drop_last().remove(j));
        assert(s.remove(j).last() == s.last());
    }
}

/// The annotated error line attributing a failed collection search to its
/// source's owner label.
pub open spec fn search_error_line_of(user: Seq<char>, err: Seq<char>) -> Seq<char> {
    "*Could not search collection for user `"@ + user + "`: "@ + err + "*\n"@
}

/// The error lines of the first `i` sources, in source order.
pub open spec fn search_error_lines_upto(
    sources: Seq<MTGCollectionConfig>,
    outcomes: Seq<SourceOutcome<Vec<SearchResultCard>>>,
    i: int,
) -> Seq<char>
    decreases i,
{
    if i <= 0 {
        Seq::empty()
    } else {
        search_error_lines_upto(sources, outcomes, i - 1) + (match outcomes[i - 1] {
            SourceOutcome::Failure(e) => search_error_line_of(sources[i - 1].discord_user@, e@),
            SourceOutcome::Success(_) => Seq::empty(),
        })
    }
}

/// All error lines of a pass, in source order.
pub open spec fn search_error_lines(
    sources: Seq<MTGCollectionConfig>,
    outcomes: Seq<SourceOutcome<Vec<SearchResultCard>>>,
) -> Seq<char> {
    search_error_lines_upto(sources, outcomes, outcomes.len() as int)
}

/// One annotated line per failed source, each naming the source's owner
/// label and the error, in source order; successes add nothing.
pub fn collect_search_errors(
    sources: &Vec<MTGCollectionConfig>,
    pass: &PassResult<Vec<SearchResultCard>>,
) -> (r: String)
    requires
        pass.outcomes@.len() == sources@.len(),
    ensures
        r@ == search_error_lines(sources@, pass.outcomes@),
{
    let mut s = String::new();
    let mut i: usize = 0;
    while i < pass.outcomes.len()
        invariant
            i <= pass.outcomes@.len(),
            pass.outcomes@.len() == sources@.len(),
            s@ == search_error_lines_upto(sources@, pass.outcomes@, i as int),
        decreases pass.outcomes@.len() - i,
    {
        match &pass.outcomes[i] {
            SourceOutcome::Success(_) => {
                proof {
                    assert(s@ =~= search_error_lines_upto(sources@, pass.outcomes@, i as int + 1));
                }
            },
            SourceOutcome::Failure(e) => {
                s.append("*Could not search collection for user `");
                s.append(sources[i].discord_user.as_str());
                s.append("`: ");
                s.append(e.as_str());
                s.append("*\n");
                proof {
                    assert(s@ =~= search_error_lines_upto(sources@, pass.outcomes@, i as int + 1));
                }
            },
        }
        i = i + 1;
    }
    s
}

/// Flattens the successful sources' records into one list, in source order;
/// failed sources contribute nothing.
pub fn flatten_success_records(pass: PassResult<Vec<SearchResultCard>>) -> (r: Vec<
    SearchResultCard,
>)
    ensures
        r.deep_view() == flatten_successes(pass.outcomes@),
{
    let ghost orig = pass.outcomes@;
    let mut outcomes = pass.outcomes;
    let mut r: Vec<SearchResultCard> = Vec::new();
    let mut i: usize = 0;
    let n = outcomes.len();
    while i < n
        invariant
            i <= n,
            n == orig.len(),
            outcomes@ =~= orig.skip(i as int),
            r.deep_view() == flatten_successes(orig.take(i as int)),
        decreases n - i,
    {
        let o = outcomes.remove(0);
        proof {
            assert(o == orig[i as int]);
            assert(outcomes@ =~= orig.skip(i as int + 1));
            assert(orig.take(i as int + 1).drop_last() =~= orig.take(i as int));
            assert(orig.take(i as int + 1).last() == orig[i as int]);
        }
        let ghost r0 = r.deep_view();
        let ghost rv0 = r@;
        match o {
            SourceOutcome::Success(mut v) => {
                let ghost vdv = v.deep_view();
                r.append(&mut v);
                proof {
                    assert forall|k: int| 0 <= k < r.deep_view().len() implies r.deep_view()[k]
                        == (r0 + vdv)[k] by {
                        if k < r0.len() {
                            assert(r@[k] == rv0[k]);
                        }
                    }
                    assert(r.deep_view() =~= r0 + vdv);
                }
            },
            SourceOutcome::Failure(_) => {
                proof {
                    assert(r.deep_view() =~= r0 + records_of(orig[i as int]));
                }
            },
        }
        i = i + 1;
    }
    proof {
        assert(orig.take(n as int) =~= orig);
    }
    r
}

/// The header over a pass that found matches.
pub open spec fn found_header_of(
    count: int,
    source_count: int,
    term: Seq<char>,
    errors: Seq<char>,
) -> Seq<char> {
    "Found `"@ + dec_digits(count) + "` matches in `"@ + dec_digits(source_count)
        + "` searched collection(s) for card name `"@ + term + "`:\n"@ + errors
}

/// The message of a pass that found nothing: any error lines, then the
/// no-matches line.
pub open spec fn none_header_of(source_count: int, term: Seq<char>, errors: Seq<char>) -> Seq<
    char,
> {
    errors + "No matches found in `"@ + dec_digits(source_count)
        + "` searched collection(s) for card name `"@ + term + "`"@
}

fn found_header(count: usize, source_count: usize, term: &String, errors: &String) -> (r: String)
    ensures
        r@ == found_header_of(count as int, source_count as int, term@, errors@),
{
    let mut s = String::from_str("Found `");
    let c = usize_to_dec_string(count);
    s.append(c.as_str());
    s.append("` matches in `");
    let sc = usize_to_dec_string(source_count);
    s.append(sc.as_str());
    s.append("` searched collection(s) for card name `");
    s.append(term.as_str());
    s.append("`:\n");
    s.append(errors.as_str());
    s
}

fn none_header(source_count: usize, term: &String, errors: &String) -> (r: String)
    ensures
        r@ == none_header_of(source_count as int, term@, errors@),
{
    let mut s = errors.clone();
    s.append("No matches found in `");
    let sc = usize_to_dec_string(source_count);
    s.append(sc.as_str());
    s.append("` searched collection(s) for card name `");
    s.append(term.as_str());
    s.append("`");
    s
}

/// Assembles the terminal message of one search pass: failed sources become
/// annotated error lines, successful sources' records are consolidated, and
/// the result is rendered as one rich unit per card while they fit into the
/// unit ceiling, else as a single bounded compact unit; the header counts
/// the matches and the searched collections either way.
pub fn assemble_search_output(
    search_term: &String,
    sources: &Vec<MTGCollectionConfig>,
    pass: PassResult<Vec<SearchResultCard>>,
) -> (r: OutputMessage)
    requires
        pass.outcomes@.len() == sources@.len(),
        all_quantities_nonneg(flatten_successes(pass.outcomes@)),
        sum_all(flatten_successes(pass.outcomes@)) <= i64::MAX,
        flatten_successes(pass.outcomes@).len() < 100_000_000_000_000,
    ensures
        ({
            let consolidated = embeds_of(spec_consolidate(flatten_successes(pass.outcomes@)));
            let errors = search_error_lines(sources@, pass.outcomes@);
            &&& r.content@ == if consolidated.len() > 0 {
                found_header_of(
                    consolidated.len() as int,
                    sources@.len() as int,
                    search_term@,
                    errors,
                )
            } else {
                none_header_of(sources@.len() as int, search_term@, errors)
            }
            &&& r.embeds@.len() <= EMBED_MAX_COUNT
            &&& r.embeds.deep_view() == if consolidated.len() <= EMBED_MAX_COUNT as int {
                card_units_of(consolidated)
            } else {
                seq![
                    crate::models::UnitRec {
                        title: "Search Results (compact)"@,
                        description: Some(compact_body_of(consolidated)),
                        url: None,
                        thumbnail: None,
                        fields: Seq::empty(),
                    },
                ]
            }
        }),
{
    let errors = collect_search_errors(sources, &pass);
    let ghost outcome_seq = pass.outcomes@;
    let raw = flatten_success_records(pass);
    proof {
        lemma_consolidate_len(flatten_successes(outcome_seq));
    }
    let consolidated = generate_embed_data_from_search_results(raw);
    let count = consolidated.len();
    let embeds: Vec<DisplayUnit> = if count <= EMBED_MAX_COUNT {
        create_card_embeds(&consolidated)
    } else {
        let compact = create_card_compact_str(&consolidated);
        let unit = DisplayUnit {
            title: String::from_str("Search Results (compact)"),
            description: Some(compact),
            url: None,
            thumbnail: None,
            fields: Vec::new(),
        };
        proof {
            assert(unit@.fields =~= Seq::<crate::models::FieldRec>::empty());
            assert(unit@ == (crate::models::UnitRec {
                title: "Search Results (compact)"@,
                description: Some(
                    compact_body_of(
                        embeds_of(spec_consolidate(flatten_successes(outcome_seq))),
                    ),
                ),
                url: None,
                thumbnail: None,
                fields: Seq::empty(),
            }));
        }
        let mut v: Vec<DisplayUnit> = Vec::new();
        v.push(unit);
        proof {
            assert(v.deep_view() =~= seq![unit@]);
        }
        v
    };
    proof {
        assert(embeds@.len() == embeds.deep_view().len());
    }
    let content = if count > 0 {
        found_header(count, sources.len(), search_term, &errors)
    } else {
        none_header(sources.len(), search_term, &errors)
    };
    OutputMessage { content, embeds }
}

/// One match from the authenticated collection: a card name and how many
/// copies it holds.
pub struct CollectionMatch {
    pub quantity: i64,
    pub name: String,
}

/// Mathematical image of a `CollectionMatch`.
pub struct MatchRec {
    pub quantity: int,
    pub name: Seq<char>,
}

impl View for CollectionMatch {
    type V = MatchRec;

    open spec fn view(&self) -> MatchRec {
        MatchRec { quantity: self.quantity as int, name: self.name@ }
    }
}

impl DeepView for CollectionMatch {
    type V = MatchRec;

    open spec fn deep_view(&self) -> MatchRec {
        self.view()
    }
}

/// The report lines over the first `i` matches: quantity, a tab, the name.
pub open spec fn match_lines_upto(matches: Seq<MatchRec>, i: int) -> Seq<char>
    decreases i,
{
    if i <= 0 {
        Seq::empty()
    } else {
        match_lines_upto(matches, i - 1) + int_str_of(matches[i - 1].quantity) + "\t"@
            + matches[i - 1].name + "\n"@
    }
}

/// The whole report of an authenticated-collection search: a header counting
/// the matches, then one line per match.
pub open spec fn collection_report_of(term: Seq<char>, matches: Seq<MatchRec>) -> Seq<char> {
    "Tucker's collection has `"@ + dec_digits(matches.len() as int)
        + "` matches for the search term `"@ + term + "`:\n"@ + match_lines_upto(
        matches,
        matches.len() as int,
    )
}

/// Renders the reply to an authenticated-collection search: the match count,
/// the term, and one quantity-tab-name line per match.
pub fn render_collection_matches(search_term: &String, matches: &Vec<CollectionMatch>) -> (r:
    String)
    ensures
        r@ == collection_report_of(search_term@, matches.deep_view()),
{
    let mut s = String::from_str("Tucker's collection has `");
    let c = usize_to_dec_string(matches.len());
    s.append(c.as_str());
    s.append("` matches for the search term `");
    s.append(search_term.as_str());
    s.append("`:\n");
    let ghost head = s@;
    let mut i: usize = 0;
    while i < matches.len()
        invariant
            i <= matches@.len(),
            s@ == head + match_lines_upto(matches.deep_view(), i as int),
        decreases matches@.len() - i,
    {
        proof {
            assert(matches.deep_view()[i as int] == matches@[i as int]@);
        }
        let q = i64_to_dec_string(matches[i].quantity);
        s.append(q.as_str());
        s.append("\t");
        s.append(matches[i].name.as_str());
        s.append("\n");
        proof {
            assert(s@ =~= head + match_lines_upto(matches.deep_view(), i as int + 1));
        }
        i = i + 1;
    }
    s
}

} // verus!
