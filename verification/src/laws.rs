//! What holds of matchers as a whole, across their functions.
use crate::cancellation::Cancelled;
use crate::error::MatcherError;
use crate::model::{MatcherView, Phase, Run};
use crate::parser::{StopReason, TokenId, TokenParser};
use toktrie::{SimpleVob, TokTrie};
use vstd::prelude::*;

verus! {

/// No operation leaves a terminal phase or gives up a handle. An operation succeeds only on a
/// matcher that drives a parser, and leaves it driving one.
pub proof fn operations_evolve<P: TokenParser, T>(
    pre: MatcherView<P>,
    run: Run<P, T>,
    post: MatcherView<P>,
    result: Result<T, MatcherError>,
)
    requires
        pre.operated(run, post, result),
    ensures
        pre.evolves(post),
        post.handle == pre.handle,
        result is Ok ==> pre.phase is Normal && post.phase is Normal,
        result is Err ==> !(post.phase is Normal),
{
}

/// Reset, rollback and every other operation fail as cancelled on a cancelled matcher and leave
/// it as it is.
pub proof fn cancelled_matcher_cannot_resume<P: TokenParser, T>(
    pre: MatcherView<P>,
    run: Run<P, T>,
    post: MatcherView<P>,
    result: Result<T, MatcherError>,
)
    requires
        pre.phase is Cancelled,
        pre.operated(run, post, result),
    ensures
        post == pre,
        result == crate::model::cancelled::<T>(),
{
}

/// An error that is stored in a matcher keeps its original cause: every operation fails with it,
/// and every query reports it, whether or not cancellation is requested.
pub proof fn error_keeps_its_cause<P: TokenParser, T>(
    pre: MatcherView<P>,
    message: Seq<char>,
    run: Run<P, T>,
    post: MatcherView<P>,
    result: Result<T, MatcherError>,
    requested: bool,
)
    requires
        pre.phase == Phase::<P>::Error(message),
        pre.operated(run, post, result),
    ensures
        post == pre,
        crate::model::fails_with(result, message),
        !post.cancelled_at(requested),
        post.error_at(requested),
        post.message_at(requested) == Some(message),
        forall|reason: StopReason| #[trigger]
            post.stop_reason_at(requested, reason) <==> reason == StopReason::InternalError,
{
}

/// What an operation fails with is what the matcher reports from then on, whether or not
/// cancellation is requested, and what every later operation fails with.
pub proof fn failure_is_remembered<P: TokenParser, T, U>(
    pre: MatcherView<P>,
    run: Run<P, T>,
    post: MatcherView<P>,
    error: MatcherError,
    later: Run<P, U>,
    end: MatcherView<P>,
    result: Result<U, MatcherError>,
    requested: bool,
)
    requires
        pre.operated(run, post, Err(error)),
        post.operated(later, end, result),
    ensures
        post.error_at(requested),
        post.message_at(requested) == Some(error.message()),
        post.phase is Cancelled <==> error is Cancelled,
        forall|reason: StopReason| #[trigger]
            post.stop_reason_at(requested, reason) ==> (reason == StopReason::Cancelled <==> error
                is Cancelled),
        end == post,
        result is Err,
        result->Err_0.message() == error.message(),
        result->Err_0 is Cancelled <==> error is Cancelled,
{
}

/// Over any number of calls a terminal phase stays as it is, and so does a handle.
pub proof fn terminal_phases_last<P>(history: Seq<MatcherView<P>>)
    requires
        history.len() > 0,
        forall|i: int|
            0 <= i < history.len() - 1 ==> (#[trigger] history[i]).evolves(history[i + 1]),
    ensures
        history.first().evolves(history.last()),
    decreases history.len(),
{
    if history.len() > 1 {
        let shorter = history.drop_last();
        assert forall|i: int| 0 <= i < shorter.len() - 1 implies (#[trigger] shorter[i]).evolves(
            shorter[i + 1],
        ) by {
            assert(history[i].evolves(history[i + 1]));
        }
        terminal_phases_last(shorter);
        assert(history[history.len() - 2].evolves(history[history.len() - 1]));
    }
}

/// Cancellation is opt-in: a new matcher has no handle, and a matcher without a handle never sees
/// a request.
pub proof fn cancellation_is_opt_in<P: TokenParser>(
    parser: Result<P, MatcherError>,
    matcher: MatcherView<P>,
    requested: bool,
)
    requires
        MatcherView::created(parser, matcher),
        matcher.observes(requested),
    ensures
        matcher.handle is None,
        !requested,
        !matcher.cancelled_at(requested),
{
}

/// Enabling cancellation keeps a terminal phase and a handle, gives a handle where there was none,
/// leaves what the matcher reports, and changes nothing the second time.
pub proof fn enabling_is_idempotent<P: TokenParser>(
    pre: MatcherView<P>,
    once: MatcherView<P>,
    twice: MatcherView<P>,
    requested: bool,
)
    requires
        pre.enabled(once),
        once.enabled(twice),
    ensures
        pre.evolves(once),
        once.handle is Some,
        once.phase is Normal <==> pre.phase is Normal,
        once.cancelled_at(requested) == pre.cancelled_at(requested),
        once.error_at(requested) == pre.error_at(requested),
        once.message_at(requested) == pre.message_at(requested),
        twice == once,
{
}

/// A request that either look of an operation sees cancels it, whatever the parser does: it returns
/// neither a partial result nor a complete one, and no later error takes the place of the
/// cancellation.
pub proof fn request_that_is_seen_cancels<P: TokenParser, T>(
    pre: MatcherView<P>,
    parser: P,
    run: Run<P, T>,
    first: bool,
    last: bool,
    post: MatcherView<P>,
    result: Result<T, MatcherError>,
    end: MatcherView<P>,
)
    requires
        pre.phase == Phase::Normal(parser),
        pre.completed_at(run, parser, first, last, post, result),
        first || last,
        post.evolves(end),
    ensures
        pre.observes(true),
        result == crate::model::cancelled::<T>(),
        post.phase is Cancelled,
        end.phase is Cancelled,
{
}

/// An operation whose two looks see no request publishes what the parser did: its success, its
/// cancellation, or its failure in its own words.
pub proof fn unseen_request_leaves_the_outcome<P: TokenParser, T>(
    pre: MatcherView<P>,
    parser: P,
    run: Run<P, T>,
    post: MatcherView<P>,
    result: Result<T, MatcherError>,
)
    requires
        pre.phase == Phase::Normal(parser),
        pre.completed_at(run, parser, false, false, post, result),
    ensures
        exists|after: P, outcome: Result<T, MatcherError>| #[trigger]
            run(parser, after, outcome) && MatcherView::told(after, outcome, post.phase, result),
{
    let (after, outcome, decided) = choose|
        after: P,
        outcome: Result<T, MatcherError>,
        decided: Result<T, MatcherError>,
    |
        {
            &&& #[trigger] pre.ran(run, false, parser, after, outcome)
            &&& #[trigger] pre.settled(after, outcome, false, decided, post, result)
        };
    assert(run(parser, after, outcome) && MatcherView::told(after, outcome, post.phase, result));
}

/// Every operation on a matcher that drives a parser makes two looks at the request. Without a
/// handle both see none.
pub proof fn operations_look_twice<P: TokenParser, T>(
    pre: MatcherView<P>,
    parser: P,
    run: Run<P, T>,
    post: MatcherView<P>,
    result: Result<T, MatcherError>,
)
    requires
        pre.phase == Phase::Normal(parser),
        pre.operated(run, post, result),
    ensures
        exists|first: bool, last: bool|
            {
                &&& #[trigger] pre.completed_at(run, parser, first, last, post, result)
                &&& pre.observes(first)
                &&& pre.observes(last)
                &&& pre.handle is None ==> !first && !last
            },
{
    let (first, last) = choose|first: bool, last: bool|
        pre.completed_at(run, parser, first, last, post, result);
    assert(pre.completed_at(run, parser, first, last, post, result));
}

/// An operation that succeeds on a matcher ran its parser, and its last look at the request saw
/// none.
pub proof fn success_saw_no_request<P: TokenParser, T>(
    pre: MatcherView<P>,
    run: Run<P, T>,
    post: MatcherView<P>,
    value: T,
)
    requires
        pre.operated(run, post, Ok(value)),
    ensures
        pre.observes(false),
        pre.phase matches Phase::Normal(parser) && post.phase matches Phase::Normal(after) && run(
            parser,
            after,
            Ok(value),
        ),
{
}

/// An operation whose two looks see no request succeeds wherever the parser does.
pub proof fn success_is_owed<P: TokenParser, T>(
    pre: MatcherView<P>,
    parser: P,
    run: Run<P, T>,
    post: MatcherView<P>,
    result: Result<T, MatcherError>,
)
    requires
        pre.phase == Phase::Normal(parser),
        forall|after: P, outcome: Result<T, MatcherError>| #[trigger]
            run(parser, after, outcome) ==> outcome is Ok,
        pre.completed_at(run, parser, false, false, post, result),
    ensures
        result is Ok,
        post.phase is Normal,
{
}

/// A matcher whose looks at its own handle see no request is cancelled only by a parser that
/// reports a cancellation. In particular, requests on other handles do not reach it.
pub proof fn no_request_no_cancellation<P: TokenParser, T>(
    pre: MatcherView<P>,
    parser: P,
    run: Run<P, T>,
    post: MatcherView<P>,
    result: Result<T, MatcherError>,
)
    requires
        pre.phase == Phase::Normal(parser),
        pre.completed_at(run, parser, false, false, post, result),
        post.phase is Cancelled,
    ensures
        exists|after: P, outcome: Result<T, MatcherError>| #[trigger]
            run(parser, after, outcome) && (outcome matches Err(MatcherError::Cancelled(_))),
{
}

/// While a request is seen on a matcher without a stored error, and for good once the matcher is
/// cancelled, every query reports the cancellation.
pub proof fn cancellation_is_reported<P: TokenParser>(matcher: MatcherView<P>, requested: bool)
    requires
        matcher.cancelled_at(requested) || matcher.phase is Cancelled,
    ensures
        matcher.error_at(requested),
        matcher.message_at(requested) == Some(Cancelled::message()),
        forall|reason: StopReason| #[trigger]
            matcher.stop_reason_at(requested, reason) <==> reason == StopReason::Cancelled,
        forall|stopped: bool| #[trigger] matcher.stopped_at(requested, stopped) <==> stopped,
{
    assert(matcher.stop_reason_at(requested, StopReason::Cancelled));
}

/// The queries agree with each other on what they saw: there is a message exactly after a failure,
/// a failure stops the matcher, and a stopped matcher is one with a stop reason, provided that its
/// parser gives one answer when it is asked twice.
pub proof fn queries_agree<P: TokenParser>(
    matcher: MatcherView<P>,
    requested: bool,
    reason: StopReason,
    stopped: bool,
)
    requires
        matcher.stop_reason_at(requested, reason),
        matcher.stopped_at(requested, stopped),
        matcher.has_one_answer(),
    ensures
        stopped <==> reason != StopReason::NotStopped,
        matcher.error_at(requested) <==> matcher.message_at(requested) is Some,
        matcher.cancelled_at(requested) ==> matcher.error_at(requested),
        matcher.error_at(requested) ==> stopped,
        matcher.error_at(requested) ==> reason == StopReason::Cancelled || reason
            == StopReason::InternalError,
{
}

/// A clone, deep or not, has a handle exactly if the original has one. It keeps a terminal phase,
/// and is cancelled by a request that its sample saw.
pub proof fn clone_keeps_what_it_sampled<P: TokenParser>(
    matcher: MatcherView<P>,
    deep: bool,
    requested: bool,
    copy: MatcherView<P>,
)
    requires
        matcher.copied_at(deep, requested, copy),
    ensures
        copy.handle is Some <==> matcher.handle is Some,
        copy.handle matches Some(own) ==> own.starts_with(requested),
        !(matcher.phase is Normal) ==> copy.phase == matcher.phase,
        matcher.phase is Normal ==> (copy.phase is Cancelled <==> requested),
{
}

/// A clone reports what the original reports, as long as the looks at both see what the clone
/// sampled. Their stop reasons are the same if the copied parser gives the answers of the original
/// one.
pub proof fn clone_reports_the_same<P: TokenParser>(
    matcher: MatcherView<P>,
    deep: bool,
    requested: bool,
    copy: MatcherView<P>,
)
    requires
        matcher.copied_at(deep, requested, copy),
        matcher.phase is Normal && copy.phase is Normal ==> forall|reason: StopReason| #[trigger]
            MatcherView::answers(copy.phase->Normal_0, reason) <==> MatcherView::answers(
                matcher.phase->Normal_0,
                reason,
            ),
    ensures
        copy.cancelled_at(requested) == matcher.cancelled_at(requested),
        copy.error_at(requested) == matcher.error_at(requested),
        copy.message_at(requested) == matcher.message_at(requested),
        forall|reason: StopReason| #[trigger]
            copy.stop_reason_at(requested, reason) <==> matcher.stop_reason_at(requested, reason),
{
}

/// A clone whose sample saw a request is cancelled, unless an error was stored, and no operation on
/// the clone resumes it.
pub proof fn clone_of_cancelled_stays_cancelled<P: TokenParser, T>(
    matcher: MatcherView<P>,
    deep: bool,
    copy: MatcherView<P>,
    run: Run<P, T>,
    post: MatcherView<P>,
    result: Result<T, MatcherError>,
)
    requires
        !(matcher.phase is Error),
        matcher.copied_at(deep, true, copy),
        copy.operated(run, post, result),
    ensures
        copy.phase is Cancelled,
        copy.handle matches Some(own) && own.starts_with(true),
        copy.cancelled_at(true),
        post == copy,
        result == crate::model::cancelled::<T>(),
{
}

/// A matcher that is terminal after a list operation returned the empty list, and one that was
/// terminal before stays as it is.
pub proof fn failed_list_is_empty<P: TokenParser, T>(
    pre: MatcherView<P>,
    run: Run<P, Vec<T>>,
    post: MatcherView<P>,
    list: Seq<T>,
)
    requires
        pre.listed(run, post, list),
    ensures
        pre.evolves(post),
        !(pre.phase is Normal) ==> post == pre,
        !(post.phase is Normal) ==> list.len() == 0,
{
}

/// Forced tokens are consumed all or not at all. Tokens that are returned are all that were listed,
/// and were fed; none are returned if the matcher is terminal now, or if none were listed.
pub proof fn forced_tokens_are_all_or_nothing<P: TokenParser>(
    pre: MatcherView<P>,
    post: MatcherView<P>,
    tokens: Seq<TokenId>,
)
    requires
        pre.forced(post, tokens),
    ensures
        pre.evolves(post),
        tokens.len() > 0 ==> exists|mid: MatcherView<P>|
            {
                &&& #[trigger] pre.listed(MatcherView::<P>::forcing_tokens(), mid, tokens)
                &&& mid.operated(MatcherView::<P>::feeding(tokens), post, Ok(()))
            },
        tokens.len() > 0 ==> post.phase is Normal,
        tokens.len() == 0 ==> !(post.phase is Normal) || pre.listed(
            MatcherView::<P>::forcing_tokens(),
            post,
            tokens,
        ),
{
    if tokens.len() > 0 {
        let (mid, found) = choose|mid: MatcherView<P>, found: Seq<TokenId>|
            {
                &&& #[trigger] pre.listed(MatcherView::<P>::forcing_tokens(), mid, found)
                &&& found == tokens
                &&& exists|result: Result<(), MatcherError>| #[trigger]
                    mid.operated(MatcherView::<P>::feeding(tokens), post, result) && result is Ok
            };
        let result = choose|result: Result<(), MatcherError>| #[trigger]
            mid.operated(MatcherView::<P>::feeding(tokens), post, result) && result is Ok;
        let unit = result->Ok_0;
        assert(unit == ());
    }
}

/// Feeding tokens succeeds only if every token was consumed in order, with nothing to take back,
/// and the parser that was reached then passed its check for a stop.
pub proof fn fed_tokens_are_all_consumed<P: TokenParser>(
    parser: P,
    tokens: Seq<TokenId>,
    after: P,
)
    requires
        MatcherView::fed(parser, tokens, after, Ok(())),
    ensures
        exists|at: P, stop: bool|
            {
                &&& #[trigger] MatcherView::consumed(parser, tokens, at)
                &&& #[trigger] call_ensures(P::check_stop, (at,), (after, Ok(stop)))
            },
    decreases tokens.len(),
{
    if tokens.len() == 0 {
        assert(MatcherView::consumed(parser, tokens, parser));
        let told = choose|told: Result<bool, MatcherError>|
            #[trigger] call_ensures(P::check_stop, (parser,), (after, told)) && told is Ok;
        assert(call_ensures(P::check_stop, (parser,), (after, Ok(told->Ok_0))));
    } else {
        let rest = tokens.drop_first();
        let (next, back) = choose|next: P, back: Result<usize, MatcherError>|
            {
                &&& #[trigger] call_ensures(P::consume_token, (parser, tokens[0]), (next, back))
                &&& back == Ok::<usize, MatcherError>(0)
                &&& MatcherView::fed(next, rest, after, Ok(()))
            };
        fed_tokens_are_all_consumed(next, rest, after);
        let (at, stop) = choose|at: P, stop: bool|
            {
                &&& #[trigger] MatcherView::consumed(next, rest, at)
                &&& #[trigger] call_ensures(P::check_stop, (at,), (after, Ok(stop)))
            };
        assert(call_ensures(P::consume_token, (parser, tokens[0]), (next, Ok(0))));
        assert(MatcherView::consumed(parser, tokens, at));
    }
}

/// Feeding tokens fails only at one place: the tokens before it were all consumed, and there the
/// parser refused the next token with that very failure, asked for tokens to be taken back, or
/// failed its check for a stop after the last token with that very failure.
pub proof fn feeding_fails_at_the_first_refusal<P: TokenParser>(
    parser: P,
    tokens: Seq<TokenId>,
    after: P,
    error: MatcherError,
)
    requires
        MatcherView::fed(parser, tokens, after, Err(error)),
    ensures
        exists|count: int, at: P|
            {
                &&& 0 <= count <= tokens.len()
                &&& #[trigger] MatcherView::consumed(parser, tokens.take(count), at)
                &&& MatcherView::fed(at, tokens.skip(count), after, Err(error))
                &&& count < tokens.len() ==> exists|back: Result<usize, MatcherError>|
                    {
                        &&& #[trigger] call_ensures(
                            P::consume_token,
                            (at, tokens[count]),
                            (after, back),
                        )
                        &&& match back {
                            Ok(back) => back != 0 && (error matches MatcherError::Failed(text) && text@
                                == "unexpected backtracking"@),
                            Err(refusal) => refusal == error,
                        }
                    }
                &&& count == tokens.len() ==> call_ensures(
                    P::check_stop,
                    (at,),
                    (after, Err(error)),
                )
            },
    decreases tokens.len(),
{
    assert(tokens.take(0).len() == 0);
    assert(tokens.skip(0) == tokens);
    assert(MatcherView::consumed(parser, tokens.take(0), parser));
    if tokens.len() > 0 {
        let rest = tokens.drop_first();
        let (next, back) = choose|next: P, back: Result<usize, MatcherError>|
            {
                &&& #[trigger] call_ensures(P::consume_token, (parser, tokens[0]), (next, back))
                &&& if back == Ok::<usize, MatcherError>(0) {
                    MatcherView::fed(next, rest, after, Err(error))
                } else {
                    after == next && match back {
                        Ok(back) => back != 0 && (error matches MatcherError::Failed(text) && text@
                            == "unexpected backtracking"@),
                        Err(refusal) => refusal == error,
                    }
                }
            };
        if back == Ok::<usize, MatcherError>(0) {
            feeding_fails_at_the_first_refusal(next, rest, after, error);
            let (count, at) = choose|count: int, at: P|
                {
                    &&& 0 <= count <= rest.len()
                    &&& #[trigger] MatcherView::consumed(next, rest.take(count), at)
                    &&& MatcherView::fed(at, rest.skip(count), after, Err(error))
                    &&& count < rest.len() ==> exists|back: Result<usize, MatcherError>|
                        {
                            &&& #[trigger] call_ensures(
                                P::consume_token,
                                (at, rest[count]),
                                (after, back),
                            )
                            &&& match back {
                                Ok(back) => back != 0 && (error matches MatcherError::Failed(text) && text@
                                    == "unexpected backtracking"@),
                                Err(refusal) => refusal == error,
                            }
                        }
                    &&& count == rest.len() ==> call_ensures(
                        P::check_stop,
                        (at,),
                        (after, Err(error)),
                    )
                };
            assert(tokens.take(count + 1).drop_first() == rest.take(count));
            assert(tokens.skip(count + 1) == rest.skip(count));
            assert(call_ensures(P::consume_token, (parser, tokens[0]), (next, Ok(0))));
            assert(MatcherView::consumed(parser, tokens.take(count + 1), at));
        }
    }
}

/// The tokens that are counted as consumed are a prefix of the tokens that were given, and the
/// parser took each of them. If tokens are left, it refused the first of them right after.
pub proof fn tried_tokens_are_a_prefix<P: TokenParser>(
    parser: P,
    tokens: Seq<TokenId>,
    count: nat,
    after: P,
    fed: usize,
)
    requires
        MatcherView::tried(parser, tokens, count, after, Ok(fed)),
    ensures
        count <= fed <= count + tokens.len(),
        fed == count + tokens.len() ==> MatcherView::reached(parser, tokens, after),
        fed < count + tokens.len() ==> exists|at: P|
            {
                &&& #[trigger] MatcherView::reached(parser, tokens.take(fed - count), at)
                &&& call_ensures(P::validate_token, (at, tokens[fed - count]), (after, Ok(false)))
            },
    decreases tokens.len(),
{
    if tokens.len() > 0 {
        let rest = tokens.drop_first();
        let (next, valid) = choose|next: P, valid: Result<bool, MatcherError>|
            {
                &&& #[trigger] call_ensures(P::validate_token, (parser, tokens[0]), (next, valid))
                &&& match valid {
                    Ok(true) => exists|last: P| #[trigger]
                        MatcherView::stepped(next, tokens[0], last, Ok(())) && MatcherView::tried(
                            last,
                            rest,
                            count + 1,
                            after,
                            Ok(fed),
                        ),
                    _ => valid == Ok::<bool, MatcherError>(false) && fed == count && after == next,
                }
            };
        if valid == Ok::<bool, MatcherError>(true) {
            let last = choose|last: P| #[trigger]
                MatcherView::stepped(next, tokens[0], last, Ok(())) && MatcherView::tried(
                    last,
                    rest,
                    count + 1,
                    after,
                    Ok(fed),
                );
            tried_tokens_are_a_prefix(last, rest, count + 1, after, fed);
            if fed < count + tokens.len() {
                let taken = tokens.take(fed - count);
                let at = choose|at: P|
                    {
                        &&& #[trigger] MatcherView::reached(last, rest.take(fed - count - 1), at)
                        &&& call_ensures(
                            P::validate_token,
                            (at, rest[fed - count - 1]),
                            (after, Ok(false)),
                        )
                    };
                assert(taken.drop_first() == rest.take(fed - count - 1));
                assert(MatcherView::reached(parser, taken, at));
            }
        } else {
            assert(MatcherView::reached(parser, tokens.take(0), parser));
        }
    }
}

/// A matcher whose parser has stopped is given the end-of-sequence mask, and its parser stays as
/// it is.
pub proof fn stopped_parser_allows_eos_only<P: TokenParser>(
    pre: MatcherView<P>,
    parser: P,
    post: MatcherView<P>,
    mask: SimpleVob,
)
    requires
        pre.phase == Phase::Normal(parser),
        !call_ensures(P::stop_reason, (&parser,), Ok(StopReason::NotStopped)),
        pre.operated(MatcherView::<P>::masking_or_eos(), post, Ok(mask)),
    ensures
        post == pre,
        exists|trie: &TokTrie| #[trigger]
            call_ensures(P::tok_trie, (&parser,), Ok(trie)) && crate::mask::is_eos_mask(mask, *trie),
{
    let run = MatcherView::<P>::masking_or_eos();
    let after = post.phase->Normal_0;
    success_saw_no_request(pre, run, post, mask);
    assert(run(parser, after, Ok(mask)));
    assert(MatcherView::eos(parser, Ok(mask)));
}

/// A matcher whose parser has not stopped is given the mask of the parser, as by a plain mask
/// computation.
pub proof fn running_parser_gives_its_own_mask<P: TokenParser>(
    pre: MatcherView<P>,
    parser: P,
    post: MatcherView<P>,
    result: Result<SimpleVob, MatcherError>,
)
    requires
        pre.phase == Phase::Normal(parser),
        forall|told: Result<StopReason, MatcherError>| #[trigger]
            call_ensures(P::stop_reason, (&parser,), told) ==> told == Ok::<
                StopReason,
                MatcherError,
            >(StopReason::NotStopped),
        pre.operated(MatcherView::<P>::masking_or_eos(), post, result),
    ensures
        pre.operated(MatcherView::<P>::masking(), post, result),
{
    let either = MatcherView::<P>::masking_or_eos();
    let plain = MatcherView::<P>::masking();
    assert(pre.completed(either, parser, post, result));
    let (first, last) = choose|first: bool, last: bool|
        pre.completed_at(either, parser, first, last, post, result);
    let (after, outcome, decided) = choose|
        after: P,
        outcome: Result<SimpleVob, MatcherError>,
        decided: Result<SimpleVob, MatcherError>,
    |
        {
            &&& #[trigger] pre.ran(either, first, parser, after, outcome)
            &&& #[trigger] pre.settled(after, outcome, last, decided, post, result)
        };
    assert(pre.ran(plain, first, parser, after, outcome));
    assert(pre.completed_at(plain, parser, first, last, post, result));
    assert(pre.completed(plain, parser, post, result));
}

} // verus!
