//! Trying tokens, as far as the parser takes them.
use crate::cancellation::Cancelled;
use crate::error::MatcherError;
use crate::matcher::Matcher;
use crate::model::{MatcherView, Phase};
use crate::parser::{TokenId, TokenParser};
use vstd::prelude::*;

verus! {

/// The calls behind one step: the parser after the token, how many tokens it asked to be taken
/// back, and what its check for a stop answered.
proof fn lemma_stepped<P: TokenParser>(
    parser: P,
    token: TokenId,
    after: P,
    step: Result<(), MatcherError>,
) -> (calls: (P, Result<usize, MatcherError>, Result<bool, MatcherError>))
    requires
        MatcherView::stepped(parser, token, after, step),
    ensures
        call_ensures(P::consume_token, (parser, token), (calls.0, calls.1)),
        calls.1 is Ok ==> call_ensures(P::check_stop, (calls.0,), (after, calls.2)),
        calls.1 matches Err(error) ==> after == calls.0 && step == Err::<(), MatcherError>(error),
        calls.1 is Ok && calls.2 is Err ==> step == Err::<(), MatcherError>(calls.2->Err_0),
        calls.1 is Ok && calls.2 is Ok && calls.1->Ok_0 == 0 ==> step is Ok,
        calls.1 is Ok && calls.2 is Ok && calls.1->Ok_0 != 0 ==> (step matches Err(
            MatcherError::Failed(text),
        ) && text@ == "unexpected backtracking"@),
{
    let (next, back) = choose|next: P, back: Result<usize, MatcherError>|
        {
            &&& #[trigger] call_ensures(P::consume_token, (parser, token), (next, back))
            &&& match back {
                Ok(back) => exists|stop: Result<bool, MatcherError>|
                    {
                        &&& #[trigger] call_ensures(P::check_stop, (next,), (after, stop))
                        &&& match stop {
                            Ok(_) => if back == 0 {
                                step == Ok::<(), MatcherError>(())
                            } else {
                                crate::model::fails_with(step, "unexpected backtracking"@)
                            },
                            Err(error) => step == Err::<(), MatcherError>(error),
                        }
                    },
                Err(error) => after == next && step == Err::<(), MatcherError>(error),
            }
        };
    let stop = choose|stop: Result<bool, MatcherError>|
        {
            &&& #[trigger] call_ensures(P::check_stop, (next,), (after, stop))
            &&& match stop {
                Ok(_) => if back == Ok::<usize, MatcherError>(0) {
                    step == Ok::<(), MatcherError>(())
                } else {
                    crate::model::fails_with(step, "unexpected backtracking"@)
                },
                Err(error) => step == Err::<(), MatcherError>(error),
            }
        };
    (next, back, stop)
}

/// The parsers that a run of trying went through: those between two tokens, those after a token was
/// found valid and those after it was consumed. The first of the three lists ends with the parser
/// that took no more tokens.
proof fn lemma_tried<P: TokenParser>(
    parser: P,
    tokens: Seq<TokenId>,
    count: nat,
    after: P,
    outcome: Result<usize, MatcherError>,
) -> (path: (Seq<P>, Seq<P>, Seq<P>))
    requires
        MatcherView::tried(parser, tokens, count, after, outcome),
    ensures
        ({
            let (states, seen, fed) = path;
            &&& 1 <= states.len() <= tokens.len() + 1
            &&& seen.len() == fed.len() == states.len() - 1
            &&& states[0] == parser
            &&& forall|i: int|
                #![trigger tokens[i]]
                0 <= i < states.len() - 1 ==> {
                    &&& call_ensures(P::validate_token, (states[i], tokens[i]), (seen[i], Ok(true)))
                    &&& call_ensures(P::consume_token, (seen[i], tokens[i]), (fed[i], Ok(0)))
                    &&& exists|stop: bool| #[trigger]
                        call_ensures(P::check_stop, (fed[i],), (states[i + 1], Ok(stop)))
                }
            &&& outcome matches Ok(taken) ==> {
                &&& taken == count + states.len() - 1
                &&& states.len() == tokens.len() + 1 ==> after == states.last()
                &&& states.len() <= tokens.len() ==> call_ensures(
                    P::validate_token,
                    (states.last(), tokens[states.len() - 1]),
                    (after, Ok(false)),
                )
            }
            &&& outcome matches Err(error) ==> states.len() <= tokens.len() && {
                ||| call_ensures(
                    P::validate_token,
                    (states.last(), tokens[states.len() - 1]),
                    (after, Err(error)),
                )
                ||| exists|valid: P|
                    {
                        &&& #[trigger] call_ensures(
                            P::validate_token,
                            (states.last(), tokens[states.len() - 1]),
                            (valid, Ok(true)),
                        )
                        &&& call_ensures(
                            P::consume_token,
                            (valid, tokens[states.len() - 1]),
                            (after, Err(error)),
                        )
                    }
                ||| exists|valid: P, next: P, back: usize|
                    {
                        &&& #[trigger] call_ensures(
                            P::validate_token,
                            (states.last(), tokens[states.len() - 1]),
                            (valid, Ok(true)),
                        )
                        &&& #[trigger] call_ensures(
                            P::consume_token,
                            (valid, tokens[states.len() - 1]),
                            (next, Ok(back)),
                        )
                        &&& call_ensures(P::check_stop, (next,), (after, Err(error)))
                    }
                ||| (error matches MatcherError::Failed(text) && text@
                    == "unexpected backtracking"@) && exists|
                    valid: P,
                    next: P,
                    back: usize,
                    stop: bool,
                |
                    {
                        &&& #[trigger] call_ensures(
                            P::validate_token,
                            (states.last(), tokens[states.len() - 1]),
                            (valid, Ok(true)),
                        )
                        &&& #[trigger] call_ensures(
                            P::consume_token,
                            (valid, tokens[states.len() - 1]),
                            (next, Ok(back)),
                        )
                        &&& back != 0
                        &&& #[trigger] call_ensures(P::check_stop, (next,), (after, Ok(stop)))
                    }
            }
        }),
    decreases tokens.len(),
{
    if tokens.len() == 0 {
        (seq![parser], seq![], seq![])
    } else {
        let rest = tokens.drop_first();
        let (next, valid) = choose|next: P, valid: Result<bool, MatcherError>|
            {
                &&& #[trigger] call_ensures(P::validate_token, (parser, tokens[0]), (next, valid))
                &&& match valid {
                    Ok(true) => exists|last: P, step: Result<(), MatcherError>|
                        {
                            &&& #[trigger] MatcherView::stepped(next, tokens[0], last, step)
                            &&& match step {
                                Ok(_) => MatcherView::tried(last, rest, count + 1, after, outcome),
                                Err(error) => after == last && outcome == Err::<
                                    usize,
                                    MatcherError,
                                >(error),
                            }
                        },
                    Ok(false) => after == next && (outcome matches Ok(taken) && taken == count),
                    Err(error) => after == next && outcome == Err::<usize, MatcherError>(error),
                }
            };
        match valid {
            Ok(true) => {
                let (last, step) = choose|last: P, step: Result<(), MatcherError>|
                    {
                        &&& #[trigger] MatcherView::stepped(next, tokens[0], last, step)
                        &&& match step {
                            Ok(_) => MatcherView::tried(last, rest, count + 1, after, outcome),
                            Err(error) => after == last && outcome == Err::<usize, MatcherError>(
                                error,
                            ),
                        }
                    };
                let (told, back, stop) = lemma_stepped(next, tokens[0], last, step);
                match step {
                    Ok(_) => {
                        let later = lemma_tried(last, rest, count + 1, after, outcome);
                        let states = seq![parser] + later.0;
                        let seen = seq![next] + later.1;
                        let fed = seq![told] + later.2;
                        assert(states.last() == later.0.last());
                        assert forall|i: int|
                            #![trigger tokens[i]]
                            0 <= i < states.len() - 1 implies {
                            &&& call_ensures(
                                P::validate_token,
                                (states[i], tokens[i]),
                                (seen[i], Ok(true)),
                            )
                            &&& call_ensures(
                                P::consume_token,
                                (seen[i], tokens[i]),
                                (fed[i], Ok(0)),
                            )
                            &&& exists|stop: bool| #[trigger]
                                call_ensures(P::check_stop, (fed[i],), (states[i + 1], Ok(stop)))
                        } by {
                            if i > 0 {
                                assert(rest[i - 1] == tokens[i]);
                                let stop = choose|stop: bool| #[trigger]
                                    call_ensures(
                                        P::check_stop,
                                        (later.2[i - 1],),
                                        (later.0[i - 1 + 1], Ok(stop)),
                                    );
                                assert(call_ensures(
                                    P::check_stop,
                                    (fed[i],),
                                    (states[i + 1], Ok(stop)),
                                ));
                            } else {
                                assert(call_ensures(
                                    P::check_stop,
                                    (fed[0],),
                                    (states[1], Ok(stop->Ok_0)),
                                ));
                            }
                        }
                        if states.len() <= tokens.len() {
                            assert(rest[later.0.len() - 1] == tokens[states.len() - 1]);
                        }
                        (states, seen, fed)
                    },
                    Err(error) => {
                        let states = seq![parser];
                        assert(call_ensures(
                            P::validate_token,
                            (states.last(), tokens[states.len() - 1]),
                            (next, Ok(true)),
                        ));
                        if back is Ok {
                            assert(call_ensures(
                                P::consume_token,
                                (next, tokens[states.len() - 1]),
                                (told, Ok(back->Ok_0)),
                            ));
                            if stop is Ok {
                                assert(call_ensures(
                                    P::check_stop,
                                    (told,),
                                    (after, Ok(stop->Ok_0)),
                                ));
                            }
                        }
                        (states, seq![], seq![])
                    },
                }
            },
            _ => {
                let states = seq![parser];
                assert(states.last() == parser);
                (states, seq![], seq![])
            },
        }
    }
}

/// Trying tokens is up to the parser. After a success the tokens counted were taken one by one:
/// each was found valid, then consumed with nothing to take back, then the parser passed its check
/// for a stop, whatever its stop reason. If tokens are left, the parser found the next one invalid.
/// After a failure the tokens before some place were taken so, and there the parser itself failed
/// with that failure or asked for tokens to be taken back.
pub proof fn trying_is_up_to_the_parser<P: TokenParser>(
    matcher: &mut Matcher<P>,
    tokens: &[TokenId],
    result: Result<usize, MatcherError>,
)
    requires
        call_ensures(Matcher::<P>::try_consume_tokens, (matcher, tokens), result),
    ensures
        final(matcher)@.handle == old(matcher)@.handle,
        old(matcher)@.phase matches Phase::Error(message) ==> final(matcher)@.phase == old(
            matcher,
        )@.phase && (result matches Err(MatcherError::Failed(text)) && text@ == message),
        old(matcher)@.phase is Cancelled ==> final(matcher)@.phase is Cancelled && (
        result matches Err(MatcherError::Cancelled(_))),
        result is Ok ==> {
            &&& old(matcher)@.phase is Normal
            &&& final(matcher)@.phase is Normal
            &&& old(matcher)@.handle matches Some(handle) ==> handle.reads(false)
            &&& exists|last: bool| #[trigger]
                call_ensures(
                    crate::matcher::settle::<usize>,
                    (&old(matcher)@.handle, result),
                    (last, result),
                )
            &&& result->Ok_0 <= tokens@.len()
            &&& exists|states: Seq<P>, seen: Seq<P>, fed: Seq<P>|
                #![trigger states.last(), seen.len(), fed.len()]
                {
                    &&& states.len() == result->Ok_0 + 1
                    &&& seen.len() == fed.len() == states.len() - 1
                    &&& states[0] == old(matcher)@.phase->Normal_0
                    &&& forall|i: int|
                        #![trigger tokens@[i]]
                        0 <= i < states.len() - 1 ==> {
                            &&& call_ensures(
                                P::validate_token,
                                (states[i], tokens@[i]),
                                (seen[i], Ok(true)),
                            )
                            &&& call_ensures(
                                P::consume_token,
                                (seen[i], tokens@[i]),
                                (fed[i], Ok(0)),
                            )
                            &&& exists|stop: bool| #[trigger]
                                call_ensures(P::check_stop, (fed[i],), (states[i + 1], Ok(stop)))
                        }
                    &&& if result->Ok_0 == tokens@.len() {
                        states.last() == final(matcher)@.phase->Normal_0
                    } else {
                        call_ensures(
                            P::validate_token,
                            (states.last(), tokens@[result->Ok_0 as int]),
                            (final(matcher)@.phase->Normal_0, Ok(false)),
                        )
                    }
                }
        },
        old(matcher)@.phase is Normal && (result matches Err(MatcherError::Cancelled(_))) ==> {
            &&& final(matcher)@.phase is Cancelled
            &&& (old(matcher)@.handle matches Some(handle) && handle.reads(true)) || exists|
                states: Seq<P>,
                seen: Seq<P>,
                fed: Seq<P>,
            |
                #![trigger states.last(), seen.len(), fed.len()]
                {
                    &&& 1 <= states.len() <= tokens@.len()
                    &&& seen.len() == fed.len() == states.len() - 1
                    &&& states[0] == old(matcher)@.phase->Normal_0
                    &&& forall|i: int|
                        #![trigger tokens@[i]]
                        0 <= i < states.len() - 1 ==> {
                            &&& call_ensures(
                                P::validate_token,
                                (states[i], tokens@[i]),
                                (seen[i], Ok(true)),
                            )
                            &&& call_ensures(
                                P::consume_token,
                                (seen[i], tokens@[i]),
                                (fed[i], Ok(0)),
                            )
                            &&& exists|stop: bool| #[trigger]
                                call_ensures(P::check_stop, (fed[i],), (states[i + 1], Ok(stop)))
                        }
                    &&& {
                        ||| exists|after: P| #[trigger]
                            call_ensures(
                                P::validate_token,
                                (states.last(), tokens@[states.len() - 1]),
                                (after, Err(MatcherError::Cancelled(Cancelled))),
                            )
                        ||| exists|valid: P, after: P|
                            {
                                &&& #[trigger] call_ensures(
                                    P::validate_token,
                                    (states.last(), tokens@[states.len() - 1]),
                                    (valid, Ok(true)),
                                )
                                &&& #[trigger] call_ensures(
                                    P::consume_token,
                                    (valid, tokens@[states.len() - 1]),
                                    (after, Err(MatcherError::Cancelled(Cancelled))),
                                )
                            }
                        ||| exists|valid: P, next: P, back: usize, after: P|
                            {
                                &&& #[trigger] call_ensures(
                                    P::validate_token,
                                    (states.last(), tokens@[states.len() - 1]),
                                    (valid, Ok(true)),
                                )
                                &&& #[trigger] call_ensures(
                                    P::consume_token,
                                    (valid, tokens@[states.len() - 1]),
                                    (next, Ok(back)),
                                )
                                &&& #[trigger] call_ensures(
                                    P::check_stop,
                                    (next,),
                                    (after, Err(MatcherError::Cancelled(Cancelled))),
                                )
                            }
                    }
                }
        },
        old(matcher)@.phase is Normal && (result matches Err(MatcherError::Failed(_))) ==> {
            &&& final(matcher)@.phase == Phase::<P>::Error(result->Err_0->Failed_0@)
            &&& old(matcher)@.handle matches Some(handle) ==> handle.reads(false)
            &&& exists|states: Seq<P>, seen: Seq<P>, fed: Seq<P>, after: P, cause: String|
                #![trigger
                    states.last(),
                    seen.len(),
                    fed.len(),
                    call_ensures(P::augment_err, (after, cause), result->Err_0->Failed_0)
                ]
                {
                    &&& call_ensures(P::augment_err, (after, cause), result->Err_0->Failed_0)
                    &&& exists|last: bool| #[trigger]
                        call_ensures(
                            crate::matcher::settle::<usize>,
                            (&old(matcher)@.handle, Err(MatcherError::Failed(cause))),
                            (last, Err(MatcherError::Failed(cause))),
                        )
                    &&& 1 <= states.len() <= tokens@.len()
                    &&& seen.len() == fed.len() == states.len() - 1
                    &&& states[0] == old(matcher)@.phase->Normal_0
                    &&& forall|i: int|
                        #![trigger tokens@[i]]
                        0 <= i < states.len() - 1 ==> {
                            &&& call_ensures(
                                P::validate_token,
                                (states[i], tokens@[i]),
                                (seen[i], Ok(true)),
                            )
                            &&& call_ensures(
                                P::consume_token,
                                (seen[i], tokens@[i]),
                                (fed[i], Ok(0)),
                            )
                            &&& exists|stop: bool| #[trigger]
                                call_ensures(P::check_stop, (fed[i],), (states[i + 1], Ok(stop)))
                        }
                    &&& {
                        ||| call_ensures(
                            P::validate_token,
                            (states.last(), tokens@[states.len() - 1]),
                            (after, Err(MatcherError::Failed(cause))),
                        )
                        ||| exists|valid: P|
                            {
                                &&& #[trigger] call_ensures(
                                    P::validate_token,
                                    (states.last(), tokens@[states.len() - 1]),
                                    (valid, Ok(true)),
                                )
                                &&& call_ensures(
                                    P::consume_token,
                                    (valid, tokens@[states.len() - 1]),
                                    (after, Err(MatcherError::Failed(cause))),
                                )
                            }
                        ||| exists|valid: P, next: P, back: usize|
                            {
                                &&& #[trigger] call_ensures(
                                    P::validate_token,
                                    (states.last(), tokens@[states.len() - 1]),
                                    (valid, Ok(true)),
                                )
                                &&& #[trigger] call_ensures(
                                    P::consume_token,
                                    (valid, tokens@[states.len() - 1]),
                                    (next, Ok(back)),
                                )
                                &&& call_ensures(
                                    P::check_stop,
                                    (next,),
                                    (after, Err(MatcherError::Failed(cause))),
                                )
                            }
                        ||| cause@ == "unexpected backtracking"@ && exists|
                            valid: P,
                            next: P,
                            back: usize,
                            stop: bool,
                        |
                            {
                                &&& #[trigger] call_ensures(
                                    P::validate_token,
                                    (states.last(), tokens@[states.len() - 1]),
                                    (valid, Ok(true)),
                                )
                                &&& #[trigger] call_ensures(
                                    P::consume_token,
                                    (valid, tokens@[states.len() - 1]),
                                    (next, Ok(back)),
                                )
                                &&& back != 0
                                &&& #[trigger] call_ensures(
                                    P::check_stop,
                                    (next,),
                                    (after, Ok(stop)),
                                )
                            }
                    }
                }
        },
{
    let run = MatcherView::<P>::trying(tokens@);
    let pre = old(matcher)@;
    let post = final(matcher)@;
    let parser = pre.phase->Normal_0;
    crate::calls::operations::lemma_operated(pre, run, post, result);
    if pre.phase is Normal {
        match result {
            Ok(_) => {
                let (states, seen, fed) = lemma_tried(
                    parser,
                    tokens@,
                    0,
                    post.phase->Normal_0,
                    result,
                );
            },
            Err(MatcherError::Cancelled(_)) => {
                if !(pre.handle matches Some(handle) && handle.reads(true)) {
                    let (after, told) = choose|after: P, told: Result<usize, MatcherError>|
                     #[trigger]
                        run(parser, after, told) && (told matches Err(MatcherError::Cancelled(_)));
                    let (states, seen, fed) = lemma_tried(parser, tokens@, 0, after, told);
                }
            },
            Err(MatcherError::Failed(text)) => {
                let (after, cause) = crate::calls::operations::lemma_failed(
                    pre,
                    run,
                    post,
                    text,
                );
                let (states, seen, fed) = lemma_tried(
                    parser,
                    tokens@,
                    0,
                    after,
                    Err(MatcherError::Failed(cause)),
                );
                assert(call_ensures(P::augment_err, (after, cause), text));
            },
        }
    }
}

/// What a parser keeps through every token that it takes, all parsers of a run have.
proof fn lemma_eager<P: TokenParser>(
    states: Seq<P>,
    seen: Seq<P>,
    fed: Seq<P>,
    tokens: Seq<TokenId>,
    eager: spec_fn(P, int) -> bool,
    count: int,
)
    requires
        0 <= count < states.len() <= tokens.len() + 1,
        eager(states[0], 0),
        forall|i: int|
            #![trigger tokens[i]]
            0 <= i < states.len() - 1 ==> {
                &&& call_ensures(P::validate_token, (states[i], tokens[i]), (seen[i], Ok(true)))
                &&& call_ensures(P::consume_token, (seen[i], tokens[i]), (fed[i], Ok(0)))
                &&& exists|stop: bool| #[trigger]
                    call_ensures(P::check_stop, (fed[i],), (states[i + 1], Ok(stop)))
            },
        forall|
            parser: P,
            i: int,
            valid: P,
            next: P,
            back: Result<usize, MatcherError>,
            last: P,
            stop: Result<bool, MatcherError>,
        |
            0 <= i < tokens.len() && eager(parser, i) && #[trigger] call_ensures(
                P::validate_token,
                (parser, tokens[i]),
                (valid, Ok(true)),
            ) && #[trigger] call_ensures(P::consume_token, (valid, tokens[i]), (next, back))
                && #[trigger] call_ensures(P::check_stop, (next,), (last, stop)) ==> eager(
                last,
                i + 1,
            ),
    ensures
        eager(states[count], count),
    decreases count,
{
    if count > 0 {
        let i = count - 1;
        lemma_eager(states, seen, fed, tokens, eager, i);
        assert(call_ensures(P::validate_token, (states[i], tokens[i]), (seen[i], Ok(true))));
        let stop = choose|stop: bool| #[trigger]
            call_ensures(P::check_stop, (fed[i],), (states[i + 1], Ok(stop)));
        assert(call_ensures(P::check_stop, (fed[i],), (states[i + 1], Ok(stop))));
    }
}

/// Trying tokens on a parser that takes them all takes them all. The parser is one that cannot but
/// find each token in turn valid, consume it with nothing to take back and then pass its check for
/// a stop, as `eager` tells of the parser at each place. Only a request that was seen keeps the
/// tokens from being taken.
pub proof fn eager_parser_takes_every_token<P: TokenParser>(
    matcher: &mut Matcher<P>,
    tokens: &[TokenId],
    result: Result<usize, MatcherError>,
    eager: spec_fn(P, int) -> bool,
)
    requires
        call_ensures(Matcher::<P>::try_consume_tokens, (matcher, tokens), result),
        old(matcher)@.phase is Normal,
        eager(old(matcher)@.phase->Normal_0, 0),
        forall|parser: P, i: int, valid: P, told: Result<bool, MatcherError>|
            0 <= i < tokens@.len() && eager(parser, i) && #[trigger] call_ensures(
                P::validate_token,
                (parser, tokens@[i]),
                (valid, told),
            ) ==> told == Ok::<bool, MatcherError>(true),
        forall|parser: P, i: int, valid: P, next: P, back: Result<usize, MatcherError>|
            0 <= i < tokens@.len() && eager(parser, i) && #[trigger] call_ensures(
                P::validate_token,
                (parser, tokens@[i]),
                (valid, Ok(true)),
            ) && #[trigger] call_ensures(P::consume_token, (valid, tokens@[i]), (next, back))
                ==> back == Ok::<usize, MatcherError>(0),
        forall|
            parser: P,
            i: int,
            valid: P,
            next: P,
            back: Result<usize, MatcherError>,
            last: P,
            stop: Result<bool, MatcherError>,
        |
            0 <= i < tokens@.len() && eager(parser, i) && #[trigger] call_ensures(
                P::validate_token,
                (parser, tokens@[i]),
                (valid, Ok(true)),
            ) && #[trigger] call_ensures(P::consume_token, (valid, tokens@[i]), (next, back))
                && #[trigger] call_ensures(P::check_stop, (next,), (last, stop)) ==> stop is Ok
                && eager(last, i + 1),
    ensures
        result == Ok::<usize, MatcherError>(tokens.len()) || {
            &&& result matches Err(MatcherError::Cancelled(_))
            &&& final(matcher)@.phase is Cancelled
            &&& old(matcher)@.handle matches Some(handle) && handle.reads(true)
        },
{
    let run = MatcherView::<P>::trying(tokens@);
    let pre = old(matcher)@;
    let parser = pre.phase->Normal_0;
    crate::calls::operations::lemma_operated(pre, run, final(matcher)@, result);
    assert forall|after: P, told: Result<usize, MatcherError>| #[trigger]
        run(parser, after, told) implies told == Ok::<usize, MatcherError>(tokens.len()) by {
        let (states, seen, fed) = lemma_tried(parser, tokens@, 0, after, told);
        lemma_eager(states, seen, fed, tokens@, eager, states.len() - 1);
    }
}

} // verus!
