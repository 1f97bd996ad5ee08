//! Feeding tokens, given or forced.
use crate::cancellation::Cancelled;
use crate::error::MatcherError;
use crate::matcher::Matcher;
use crate::model::{MatcherView, Phase};
use crate::parser::{TokenId, TokenParser};
use vstd::prelude::*;

verus! {

/// The parsers that a run of feeding went through, each of them after one more token. The last of
/// them failed on the next token, or was checked for a stop after the last token.
proof fn lemma_fed<P: TokenParser>(
    parser: P,
    tokens: Seq<TokenId>,
    after: P,
    outcome: Result<(), MatcherError>,
) -> (states: Seq<P>)
    requires
        MatcherView::fed(parser, tokens, after, outcome),
    ensures
        1 <= states.len() <= tokens.len() + 1,
        states[0] == parser,
        forall|i: int|
            #![trigger tokens[i]]
            0 <= i < states.len() - 1 ==> call_ensures(
                P::consume_token,
                (states[i], tokens[i]),
                (states[i + 1], Ok(0)),
            ),
        outcome is Ok ==> states.len() == tokens.len() + 1 && exists|stop: bool| #[trigger]
            call_ensures(P::check_stop, (states.last(),), (after, Ok(stop))),
        outcome matches Err(error) ==> {
            ||| {
                &&& states.len() == tokens.len() + 1
                &&& call_ensures(P::check_stop, (states.last(),), (after, Err(error)))
            }
            ||| {
                &&& states.len() <= tokens.len()
                &&& call_ensures(
                    P::consume_token,
                    (states.last(), tokens[states.len() - 1]),
                    (after, Err(error)),
                )
            }
            ||| {
                &&& states.len() <= tokens.len()
                &&& error matches MatcherError::Failed(text) && text@ == "unexpected backtracking"@
                &&& exists|back: usize| #[trigger]
                    call_ensures(
                        P::consume_token,
                        (states.last(), tokens[states.len() - 1]),
                        (after, Ok(back)),
                    ) && back != 0
            }
        },
    decreases tokens.len(),
{
    if tokens.len() == 0 {
        let stop = choose|stop: Result<bool, MatcherError>|
            {
                &&& #[trigger] call_ensures(P::check_stop, (parser,), (after, stop))
                &&& match stop {
                    Ok(_) => outcome is Ok,
                    Err(error) => outcome == Err::<(), MatcherError>(error),
                }
            };
        let states = seq![parser];
        assert(call_ensures(P::check_stop, (states.last(),), (after, stop)));
        assert(outcome is Ok ==> stop == Ok::<bool, MatcherError>(stop->Ok_0));
        states
    } else {
        let rest = tokens.drop_first();
        let (next, back) = choose|next: P, back: Result<usize, MatcherError>|
            {
                &&& #[trigger] call_ensures(P::consume_token, (parser, tokens[0]), (next, back))
                &&& match back {
                    Ok(0) => MatcherView::fed(next, rest, after, outcome),
                    Ok(_) => after == next && crate::model::fails_with(
                        outcome,
                        "unexpected backtracking"@,
                    ),
                    Err(error) => after == next && outcome == Err::<(), MatcherError>(error),
                }
            };
        match back {
            Ok(0) => {
                let later = lemma_fed(next, rest, after, outcome);
                let states = seq![parser] + later;
                assert(states.last() == later.last());
                assert forall|i: int|
                    #![trigger tokens[i]]
                    0 <= i < states.len() - 1 implies call_ensures(
                    P::consume_token,
                    (states[i], tokens[i]),
                    (states[i + 1], Ok(0)),
                ) by {
                    if i > 0 {
                        assert(rest[i - 1] == tokens[i]);
                    }
                }
                if states.len() <= tokens.len() {
                    assert(rest[later.len() - 1] == tokens[states.len() - 1]);
                }
                states
            },
            _ => seq![parser],
        }
    }
}

/// Feeding tokens succeeds and fails exactly as the parser does. After a success every token was
/// consumed in turn with nothing to take back, and the parser then passed its check for a stop,
/// whatever its stop reason. After a failure the tokens before some place were consumed so, and
/// there the parser refused the next token with that failure, asked for tokens to be taken back,
/// or failed its check for a stop with that failure.
pub proof fn feeding_is_up_to_the_parser<P: TokenParser>(
    matcher: &mut Matcher<P>,
    tokens: &[TokenId],
    result: Result<(), MatcherError>,
)
    requires
        call_ensures(Matcher::<P>::consume_tokens, (matcher, tokens), result),
    ensures
        final(matcher)@.handle == old(matcher)@.handle,
        old(matcher)@.phase matches Phase::Error(message) ==> final(matcher)@.phase == old(
            matcher,
        )@.phase && (result matches Err(MatcherError::Failed(text)) && text@ == message),
        old(matcher)@.phase is Cancelled ==> final(matcher)@.phase is Cancelled && (
        result matches Err(MatcherError::Cancelled(_))),
        result is Ok ==> {
            &&& old(matcher)@.phase is Normal
            &&& final(matcher)@.phase is Normal
            &&& old(matcher)@.handle matches Some(handle) ==> handle.reads(false)
            &&& exists|last: bool| #[trigger]
                call_ensures(
                    crate::matcher::settle::<()>,
                    (&old(matcher)@.handle, result),
                    (last, result),
                )
            &&& exists|states: Seq<P>, stop: bool|
                {
                    &&& states.len() == tokens@.len() + 1
                    &&& states[0] == old(matcher)@.phase->Normal_0
                    &&& forall|i: int|
                        #![trigger tokens@[i]]
                        0 <= i < states.len() - 1 ==> call_ensures(
                            P::consume_token,
                            (states[i], tokens@[i]),
                            (states[i + 1], Ok(0)),
                        )
                    &&& #[trigger] call_ensures(
                        P::check_stop,
                        (states.last(),),
                        (final(matcher)@.phase->Normal_0, Ok(stop)),
                    )
                }
        },
        old(matcher)@.phase is Normal && (result matches Err(MatcherError::Cancelled(_))) ==> {
            &&& final(matcher)@.phase is Cancelled
            &&& (old(matcher)@.handle matches Some(handle) && handle.reads(true)) || exists|
                states: Seq<P>,
            |
                {
                    &&& 1 <= states.len() <= tokens@.len() + 1
                    &&& states[0] == old(matcher)@.phase->Normal_0
                    &&& forall|i: int|
                        #![trigger tokens@[i]]
                        0 <= i < states.len() - 1 ==> call_ensures(
                            P::consume_token,
                            (states[i], tokens@[i]),
                            (states[i + 1], Ok(0)),
                        )
                    &&& {
                        ||| {
                            &&& states.len() == tokens@.len() + 1
                            &&& exists|after: P| #[trigger]
                                call_ensures(
                                    P::check_stop,
                                    (#[trigger] states.last(),),
                                    (after, Err(MatcherError::Cancelled(Cancelled))),
                                )
                        }
                        ||| {
                            &&& states.len() <= tokens@.len()
                            &&& exists|after: P| #[trigger]
                                call_ensures(
                                    P::consume_token,
                                    (states.last(), tokens@[states.len() - 1]),
                                    (after, Err(MatcherError::Cancelled(Cancelled))),
                                )
                        }
                    }
                }
        },
        old(matcher)@.phase is Normal && (result matches Err(MatcherError::Failed(_))) ==> {
            &&& final(matcher)@.phase == Phase::<P>::Error(result->Err_0->Failed_0@)
            &&& old(matcher)@.handle matches Some(handle) ==> handle.reads(false)
            &&& exists|states: Seq<P>, after: P, cause: String|
                #![trigger
                    states.last(),
                    call_ensures(P::augment_err, (after, cause), result->Err_0->Failed_0)
                ]
                {
                    &&& call_ensures(P::augment_err, (after, cause), result->Err_0->Failed_0)
                    &&& exists|last: bool| #[trigger]
                        call_ensures(
                            crate::matcher::settle::<()>,
                            (&old(matcher)@.handle, Err(MatcherError::Failed(cause))),
                            (last, Err(MatcherError::Failed(cause))),
                        )
                    &&& 1 <= states.len() <= tokens@.len() + 1
                    &&& states[0] == old(matcher)@.phase->Normal_0
                    &&& forall|i: int|
                        #![trigger tokens@[i]]
                        0 <= i < states.len() - 1 ==> call_ensures(
                            P::consume_token,
                            (states[i], tokens@[i]),
                            (states[i + 1], Ok(0)),
                        )
                    &&& {
                        ||| {
                            &&& states.len() == tokens@.len() + 1
                            &&& call_ensures(
                                P::check_stop,
                                (states.last(),),
                                (after, Err(MatcherError::Failed(cause))),
                            )
                        }
                        ||| {
                            &&& states.len() <= tokens@.len()
                            &&& call_ensures(
                                P::consume_token,
                                (states.last(), tokens@[states.len() - 1]),
                                (after, Err(MatcherError::Failed(cause))),
                            )
                        }
                        ||| {
                            &&& states.len() <= tokens@.len()
                            &&& cause@ == "unexpected backtracking"@
                            &&& exists|back: usize| #[trigger]
                                call_ensures(
                                    P::consume_token,
                                    (states.last(), tokens@[states.len() - 1]),
                                    (after, Ok(back)),
                                ) && back != 0
                        }
                    }
                }
        },
{
    let run = MatcherView::<P>::feeding(tokens@);
    let pre = old(matcher)@;
    let post = final(matcher)@;
    let parser = pre.phase->Normal_0;
    crate::calls::operations::lemma_operated(pre, run, post, result);
    if pre.phase is Normal {
        match result {
            Ok(_) => {
                let states = lemma_fed(parser, tokens@, post.phase->Normal_0, result);
            },
            Err(MatcherError::Cancelled(_)) => {
                if !(pre.handle matches Some(handle) && handle.reads(true)) {
                    let (after, told) = choose|after: P, told: Result<(), MatcherError>| #[trigger]
                        run(parser, after, told) && (told matches Err(MatcherError::Cancelled(_)));
                    let states = lemma_fed(parser, tokens@, after, told);
                }
            },
            Err(MatcherError::Failed(text)) => {
                let (after, cause) = crate::calls::operations::lemma_failed(
                    pre,
                    run,
                    post,
                    text,
                );
                let states = lemma_fed(
                    parser,
                    tokens@,
                    after,
                    Err(MatcherError::Failed(cause)),
                );
                assert(call_ensures(P::augment_err, (after, cause), text));
            },
        }
    }
}

/// Feeding one token succeeds and fails exactly as the parser does: it consumes that token with
/// nothing to take back, and then passes its check for a stop, whatever its stop reason.
pub proof fn feeding_one_token_is_up_to_the_parser<P: TokenParser>(
    matcher: &mut Matcher<P>,
    token: TokenId,
    result: Result<(), MatcherError>,
)
    requires
        call_ensures(Matcher::<P>::consume_token, (matcher, token), result),
    ensures
        final(matcher)@.handle == old(matcher)@.handle,
        old(matcher)@.phase matches Phase::Error(message) ==> final(matcher)@.phase == old(
            matcher,
        )@.phase && (result matches Err(MatcherError::Failed(text)) && text@ == message),
        old(matcher)@.phase is Cancelled ==> final(matcher)@.phase is Cancelled && (
        result matches Err(MatcherError::Cancelled(_))),
        result is Ok ==> {
            &&& old(matcher)@.phase is Normal
            &&& final(matcher)@.phase is Normal
            &&& old(matcher)@.handle matches Some(handle) ==> handle.reads(false)
            &&& exists|last: bool| #[trigger]
                call_ensures(
                    crate::matcher::settle::<()>,
                    (&old(matcher)@.handle, result),
                    (last, result),
                )
            &&& exists|fed: P, stop: bool|
                {
                    &&& #[trigger] call_ensures(
                        P::consume_token,
                        (old(matcher)@.phase->Normal_0, token),
                        (fed, Ok(0)),
                    )
                    &&& #[trigger] call_ensures(
                        P::check_stop,
                        (fed,),
                        (final(matcher)@.phase->Normal_0, Ok(stop)),
                    )
                }
        },
        old(matcher)@.phase is Normal && (result matches Err(MatcherError::Cancelled(_))) ==> {
            &&& final(matcher)@.phase is Cancelled
            &&& {
                ||| old(matcher)@.handle matches Some(handle) && handle.reads(true)
                ||| exists|after: P| #[trigger]
                    call_ensures(
                        P::consume_token,
                        (old(matcher)@.phase->Normal_0, token),
                        (after, Err(MatcherError::Cancelled(Cancelled))),
                    )
                ||| exists|fed: P, after: P|
                    {
                        &&& #[trigger] call_ensures(
                            P::consume_token,
                            (old(matcher)@.phase->Normal_0, token),
                            (fed, Ok(0)),
                        )
                        &&& #[trigger] call_ensures(
                            P::check_stop,
                            (fed,),
                            (after, Err(MatcherError::Cancelled(Cancelled))),
                        )
                    }
            }
        },
        old(matcher)@.phase is Normal && (result matches Err(MatcherError::Failed(_))) ==> {
            &&& final(matcher)@.phase == Phase::<P>::Error(result->Err_0->Failed_0@)
            &&& old(matcher)@.handle matches Some(handle) ==> handle.reads(false)
            &&& exists|after: P, cause: String|
                {
                    &&& #[trigger] call_ensures(
                        P::augment_err,
                        (after, cause),
                        result->Err_0->Failed_0,
                    )
                    &&& exists|last: bool| #[trigger]
                        call_ensures(
                            crate::matcher::settle::<()>,
                            (&old(matcher)@.handle, Err(MatcherError::Failed(cause))),
                            (last, Err(MatcherError::Failed(cause))),
                        )
                    &&& {
                        ||| call_ensures(
                            P::consume_token,
                            (old(matcher)@.phase->Normal_0, token),
                            (after, Err(MatcherError::Failed(cause))),
                        )
                        ||| {
                            &&& cause@ == "unexpected backtracking"@
                            &&& exists|back: usize| #[trigger]
                                call_ensures(
                                    P::consume_token,
                                    (old(matcher)@.phase->Normal_0, token),
                                    (after, Ok(back)),
                                ) && back != 0
                        }
                        ||| exists|fed: P|
                            {
                                &&& #[trigger] call_ensures(
                                    P::consume_token,
                                    (old(matcher)@.phase->Normal_0, token),
                                    (fed, Ok(0)),
                                )
                                &&& call_ensures(
                                    P::check_stop,
                                    (fed,),
                                    (after, Err(MatcherError::Failed(cause))),
                                )
                            }
                    }
                }
        },
{
    let tokens = seq![token];
    let run = MatcherView::<P>::feeding(tokens);
    let pre = old(matcher)@;
    let post = final(matcher)@;
    let parser = pre.phase->Normal_0;
    crate::calls::operations::lemma_operated(pre, run, post, result);
    assert(tokens[0] == token);
    if pre.phase is Normal {
        match result {
            Ok(_) => {
                let states = lemma_fed(parser, tokens, post.phase->Normal_0, result);
            },
            Err(MatcherError::Cancelled(_)) => {
                if !(pre.handle matches Some(handle) && handle.reads(true)) {
                    let (after, told) = choose|after: P, told: Result<(), MatcherError>| #[trigger]
                        run(parser, after, told) && (told matches Err(MatcherError::Cancelled(_)));
                    let states = lemma_fed(parser, tokens, after, told);
                }
            },
            Err(MatcherError::Failed(text)) => {
                let (after, cause) = crate::calls::operations::lemma_failed(
                    pre,
                    run,
                    post,
                    text,
                );
                let states = lemma_fed(
                    parser,
                    tokens,
                    after,
                    Err(MatcherError::Failed(cause)),
                );
                assert(call_ensures(P::augment_err, (after, cause), text));
            },
        }
    }
}

/// What a parser keeps through every token that it consumes, all parsers of a run have.
proof fn lemma_willing<P: TokenParser>(
    states: Seq<P>,
    tokens: Seq<TokenId>,
    willing: spec_fn(P, int) -> bool,
    count: int,
)
    requires
        0 <= count < states.len() <= tokens.len() + 1,
        willing(states[0], 0),
        forall|i: int|
            #![trigger tokens[i]]
            0 <= i < states.len() - 1 ==> call_ensures(
                P::consume_token,
                (states[i], tokens[i]),
                (states[i + 1], Ok(0)),
            ),
        forall|parser: P, i: int, next: P, back: Result<usize, MatcherError>|
            0 <= i < tokens.len() && willing(parser, i) && #[trigger] call_ensures(
                P::consume_token,
                (parser, tokens[i]),
                (next, back),
            ) ==> back == Ok::<usize, MatcherError>(0) && willing(next, i + 1),
    ensures
        willing(states[count], count),
    decreases count,
{
    if count > 0 {
        lemma_willing(states, tokens, willing, count - 1);
        assert(call_ensures(
            P::consume_token,
            (states[count - 1], tokens[count - 1]),
            (states[count - 1 + 1], Ok(0)),
        ));
    }
}

/// Feeding tokens to a parser that consumes them all succeeds. The parser is one that cannot but
/// consume each token in turn with nothing to take back and then pass its check for a stop, as
/// `willing` tells of the parser at each place. Only a request that was seen keeps the tokens from
/// being fed.
pub proof fn willing_parser_is_fed<P: TokenParser>(
    matcher: &mut Matcher<P>,
    tokens: &[TokenId],
    result: Result<(), MatcherError>,
    willing: spec_fn(P, int) -> bool,
)
    requires
        call_ensures(Matcher::<P>::consume_tokens, (matcher, tokens), result),
        old(matcher)@.phase is Normal,
        willing(old(matcher)@.phase->Normal_0, 0),
        forall|parser: P, i: int, next: P, back: Result<usize, MatcherError>|
            0 <= i < tokens@.len() && willing(parser, i) && #[trigger] call_ensures(
                P::consume_token,
                (parser, tokens@[i]),
                (next, back),
            ) ==> back == Ok::<usize, MatcherError>(0) && willing(next, i + 1),
        forall|parser: P, after: P, stop: Result<bool, MatcherError>|
            willing(parser, tokens@.len() as int) && #[trigger] call_ensures(
                P::check_stop,
                (parser,),
                (after, stop),
            ) ==> stop is Ok,
    ensures
        result is Ok || {
            &&& result matches Err(MatcherError::Cancelled(_))
            &&& final(matcher)@.phase is Cancelled
            &&& old(matcher)@.handle matches Some(handle) && handle.reads(true)
        },
{
    let run = MatcherView::<P>::feeding(tokens@);
    let pre = old(matcher)@;
    let parser = pre.phase->Normal_0;
    crate::calls::operations::lemma_operated(pre, run, final(matcher)@, result);
    assert forall|after: P, told: Result<(), MatcherError>| #[trigger]
        run(parser, after, told) implies told is Ok by {
        let states = lemma_fed(parser, tokens@, after, told);
        lemma_willing(states, tokens@, willing, states.len() - 1);
    }
}

/// Consuming the forced tokens is all or nothing. The tokens returned are those that the parser
/// forces, and it consumed every one of them in turn, with nothing to take back, and then passed
/// its check for a stop. None is returned where none is forced, in which case the parser is not
/// fed, and after a failure, which is the parser's own.
pub proof fn forced_tokens_are_fed_to_the_parser<P: TokenParser>(
    matcher: &mut Matcher<P>,
    tokens: Vec<TokenId>,
)
    requires
        call_ensures(Matcher::<P>::consume_ff_tokens, (matcher,), tokens),
    ensures
        final(matcher)@.handle == old(matcher)@.handle,
        !(old(matcher)@.phase is Normal) ==> final(matcher)@.phase == old(matcher)@.phase,
        !(final(matcher)@.phase is Normal) ==> tokens@.len() == 0,
        final(matcher)@.phase is Normal ==> {
            &&& old(matcher)@.phase is Normal
            &&& old(matcher)@.handle matches Some(handle) ==> handle.reads(false)
        },
        final(matcher)@.phase is Normal && tokens@.len() == 0 ==> exists|found: Vec<TokenId>|
            {
                &&& #[trigger] call_ensures(
                    P::compute_ff_tokens,
                    (old(matcher)@.phase->Normal_0,),
                    (final(matcher)@.phase->Normal_0, Ok(found)),
                )
                &&& found@.len() == 0
                &&& exists|last: bool| #[trigger]
                    call_ensures(
                        crate::matcher::settle::<Vec<TokenId>>,
                        (&old(matcher)@.handle, Ok(found)),
                        (last, Ok(found)),
                    )
            },
        tokens@.len() > 0 ==> exists|mid: P, found: Vec<TokenId>, states: Seq<P>, stop: bool|
            {
                &&& #[trigger] call_ensures(
                    P::compute_ff_tokens,
                    (old(matcher)@.phase->Normal_0,),
                    (mid, Ok(found)),
                )
                &&& found@ == tokens@
                &&& exists|last: bool| #[trigger]
                    call_ensures(
                        crate::matcher::settle::<Vec<TokenId>>,
                        (&old(matcher)@.handle, Ok(found)),
                        (last, Ok(found)),
                    )
                &&& exists|last: bool| #[trigger]
                    call_ensures(
                        crate::matcher::settle::<()>,
                        (&old(matcher)@.handle, Ok(())),
                        (last, Ok(())),
                    )
                &&& states.len() == tokens@.len() + 1
                &&& states[0] == mid
                &&& forall|i: int|
                    #![trigger tokens@[i]]
                    0 <= i < states.len() - 1 ==> call_ensures(
                        P::consume_token,
                        (states[i], tokens@[i]),
                        (states[i + 1], Ok(0)),
                    )
                &&& #[trigger] call_ensures(
                    P::check_stop,
                    (states.last(),),
                    (final(matcher)@.phase->Normal_0, Ok(stop)),
                )
            },
        old(matcher)@.phase is Normal && final(matcher)@.phase is Cancelled ==> {
            ||| old(matcher)@.handle matches Some(handle) && handle.reads(true)
            ||| exists|after: P| #[trigger]
                call_ensures(
                    P::compute_ff_tokens,
                    (old(matcher)@.phase->Normal_0,),
                    (after, Err(MatcherError::Cancelled(Cancelled))),
                )
            ||| exists|mid: P, found: Vec<TokenId>, states: Seq<P>|
                #![trigger
                    call_ensures(
                        P::compute_ff_tokens,
                        (old(matcher)@.phase->Normal_0,),
                        (mid, Ok(found)),
                    ),
                    states.last()
                ]
                {
                    &&& call_ensures(
                        P::compute_ff_tokens,
                        (old(matcher)@.phase->Normal_0,),
                        (mid, Ok(found)),
                    )
                    &&& 1 <= states.len() <= found@.len() + 1
                    &&& states[0] == mid
                    &&& forall|i: int|
                        #![trigger found@[i]]
                        0 <= i < states.len() - 1 ==> call_ensures(
                            P::consume_token,
                            (states[i], found@[i]),
                            (states[i + 1], Ok(0)),
                        )
                    &&& {
                        ||| {
                            &&& states.len() == found@.len() + 1
                            &&& exists|after: P| #[trigger]
                                call_ensures(
                                    P::check_stop,
                                    (states.last(),),
                                    (after, Err(MatcherError::Cancelled(Cancelled))),
                                )
                        }
                        ||| {
                            &&& states.len() <= found@.len()
                            &&& exists|after: P| #[trigger]
                                call_ensures(
                                    P::consume_token,
                                    (states.last(), found@[states.len() - 1]),
                                    (after, Err(MatcherError::Cancelled(Cancelled))),
                                )
                        }
                    }
                }
        },
        old(matcher)@.phase is Normal && final(matcher)@.phase is Error ==> {
            &&& old(matcher)@.handle matches Some(handle) ==> handle.reads(false)
            &&& {
                ||| exists|after: P, cause: String, text: String|
                    {
                        &&& #[trigger] call_ensures(
                            P::compute_ff_tokens,
                            (old(matcher)@.phase->Normal_0,),
                            (after, Err(MatcherError::Failed(cause))),
                        )
                        &&& #[trigger] call_ensures(P::augment_err, (after, cause), text)
                        &&& exists|last: bool| #[trigger]
                            call_ensures(
                                crate::matcher::settle::<Vec<TokenId>>,
                                (&old(matcher)@.handle, Err(MatcherError::Failed(cause))),
                                (last, Err(MatcherError::Failed(cause))),
                            )
                        &&& text@ == final(matcher)@.phase->Error_0
                    }
                ||| exists|
                    mid: P,
                    found: Vec<TokenId>,
                    states: Seq<P>,
                    after: P,
                    cause: String,
                    text: String,
                |
                    #![trigger
                        call_ensures(
                            P::compute_ff_tokens,
                            (old(matcher)@.phase->Normal_0,),
                            (mid, Ok(found)),
                        ),
                        states.last(),
                        call_ensures(P::augment_err, (after, cause), text)
                    ]
                    {
                        &&& call_ensures(
                            P::compute_ff_tokens,
                            (old(matcher)@.phase->Normal_0,),
                            (mid, Ok(found)),
                        )
                        &&& call_ensures(P::augment_err, (after, cause), text)
                        &&& exists|last: bool| #[trigger]
                            call_ensures(
                                crate::matcher::settle::<()>,
                                (&old(matcher)@.handle, Err(MatcherError::Failed(cause))),
                                (last, Err(MatcherError::Failed(cause))),
                            )
                        &&& text@ == final(matcher)@.phase->Error_0
                        &&& 1 <= states.len() <= found@.len() + 1
                        &&& states[0] == mid
                        &&& forall|i: int|
                            #![trigger found@[i]]
                            0 <= i < states.len() - 1 ==> call_ensures(
                                P::consume_token,
                                (states[i], found@[i]),
                                (states[i + 1], Ok(0)),
                            )
                        &&& {
                            ||| {
                                &&& states.len() == found@.len() + 1
                                &&& call_ensures(
                                    P::check_stop,
                                    (states.last(),),
                                    (after, Err(MatcherError::Failed(cause))),
                                )
                            }
                            ||| {
                                &&& states.len() <= found@.len()
                                &&& call_ensures(
                                    P::consume_token,
                                    (states.last(), found@[states.len() - 1]),
                                    (after, Err(MatcherError::Failed(cause))),
                                )
                            }
                            ||| {
                                &&& states.len() <= found@.len()
                                &&& cause@ == "unexpected backtracking"@
                                &&& exists|back: usize| #[trigger]
                                    call_ensures(
                                        P::consume_token,
                                        (states.last(), found@[states.len() - 1]),
                                        (after, Ok(back)),
                                    ) && back != 0
                            }
                        }
                    }
            }
        },
{
    let pre = old(matcher)@;
    let post = final(matcher)@;
    let parser = pre.phase->Normal_0;
    let forcing = MatcherView::<P>::forcing_tokens();
    let (middle, list) = choose|middle: MatcherView<P>, list: Seq<TokenId>|
        {
            &&& #[trigger] pre.listed(forcing, middle, list)
            &&& if list.len() == 0 {
                post == middle && tokens@ == list
            } else {
                exists|result: Result<(), MatcherError>|
                    {
                        &&& #[trigger] middle.operated(
                            MatcherView::<P>::feeding(list),
                            post,
                            result,
                        )
                        &&& tokens@ == if result is Ok {
                            list
                        } else {
                            Seq::<TokenId>::empty()
                        }
                    }
            }
        };
    let told = choose|told: Result<Vec<TokenId>, MatcherError>|
        {
            &&& #[trigger] pre.operated(forcing, middle, told)
            &&& list == match told {
                Ok(items) => items@,
                Err(_) => Seq::<TokenId>::empty(),
            }
        };
    crate::calls::operations::lemma_operated(pre, forcing, middle, told);
    if list.len() > 0 {
        let found = told->Ok_0;
        let mid = middle.phase->Normal_0;
        let feeding = MatcherView::<P>::feeding(list);
        let result = choose|result: Result<(), MatcherError>|
            {
                &&& #[trigger] middle.operated(feeding, post, result)
                &&& tokens@ == if result is Ok {
                    list
                } else {
                    Seq::<TokenId>::empty()
                }
            };
        crate::calls::operations::lemma_operated(middle, feeding, post, result);
        assert(call_ensures(P::compute_ff_tokens, (parser,), (mid, Ok(found))));
        match result {
            Ok(_) => {
                let states = lemma_fed(mid, list, post.phase->Normal_0, result);
                let unit = result->Ok_0;
                assert(unit == ());
            },
            Err(MatcherError::Cancelled(_)) => {
                if !(pre.handle matches Some(handle) && handle.reads(true)) {
                    let (after, told) = choose|after: P, told: Result<(), MatcherError>| #[trigger]
                        feeding(mid, after, told) && (told matches Err(MatcherError::Cancelled(_)));
                    let states = lemma_fed(mid, list, after, told);
                }
            },
            Err(MatcherError::Failed(text)) => {
                let (after, cause) = crate::calls::operations::lemma_failed(
                    middle,
                    feeding,
                    post,
                    text,
                );
                let states = lemma_fed(mid, list, after, Err(MatcherError::Failed(cause)));
                assert(call_ensures(P::augment_err, (after, cause), text));
            },
        }
    }
}

} // verus!
