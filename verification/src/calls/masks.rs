//! Masks, and the end-of-sequence mask of a stopped parser.
use crate::cancellation::Cancelled;
use crate::error::MatcherError;
use crate::matcher::Matcher;
use crate::model::{MatcherView, Phase};
use crate::parser::{StopReason, TokenParser};
use toktrie::{SimpleVob, TokTrie};
use vstd::prelude::*;

verus! {

/// The mask of a matcher is the mask of its parser, and computing it succeeds and fails as the
/// parser does.
pub proof fn mask_is_the_parsers<P: TokenParser>(
    matcher: &mut Matcher<P>,
    result: Result<SimpleVob, MatcherError>,
)
    requires
        call_ensures(Matcher::<P>::compute_mask, (matcher,), result),
    ensures
        final(matcher)@.handle == old(matcher)@.handle,
        old(matcher)@.phase matches Phase::Error(message) ==> final(matcher)@.phase == old(
            matcher,
        )@.phase && (result matches Err(MatcherError::Failed(text)) && text@ == message),
        old(matcher)@.phase is Cancelled ==> final(matcher)@.phase is Cancelled && (
        result matches Err(MatcherError::Cancelled(_))),
        result is Ok ==> {
            &&& old(matcher)@.phase is Normal
            &&& final(matcher)@.phase is Normal
            &&& old(matcher)@.handle matches Some(handle) ==> handle.reads(false)
            &&& exists|last: bool| #[trigger]
                call_ensures(
                    crate::matcher::settle::<SimpleVob>,
                    (&old(matcher)@.handle, result),
                    (last, result),
                )
            &&& call_ensures(
                P::compute_mask,
                (old(matcher)@.phase->Normal_0,),
                (final(matcher)@.phase->Normal_0, result),
            )
        },
        old(matcher)@.phase is Normal && (result matches Err(MatcherError::Cancelled(_))) ==> {
            &&& final(matcher)@.phase is Cancelled
            &&& (old(matcher)@.handle matches Some(handle) && handle.reads(true)) || exists|
                after: P,
                told: Result<SimpleVob, MatcherError>,
            | #[trigger]
                call_ensures(P::compute_mask, (old(matcher)@.phase->Normal_0,), (after, told))
                    && (told matches Err(MatcherError::Cancelled(_)))
        },
        old(matcher)@.phase is Normal && (result matches Err(MatcherError::Failed(_))) ==> {
            &&& final(matcher)@.phase == Phase::<P>::Error(result->Err_0->Failed_0@)
            &&& old(matcher)@.handle matches Some(handle) ==> handle.reads(false)
            &&& exists|after: P, cause: String|
                {
                    &&& #[trigger] call_ensures(
                        P::compute_mask,
                        (old(matcher)@.phase->Normal_0,),
                        (after, Err(MatcherError::Failed(cause))),
                    )
                    &&& call_ensures(P::augment_err, (after, cause), result->Err_0->Failed_0)
                    &&& exists|last: bool| #[trigger]
                        call_ensures(
                            crate::matcher::settle::<SimpleVob>,
                            (&old(matcher)@.handle, Err(MatcherError::Failed(cause))),
                            (last, Err(MatcherError::Failed(cause))),
                        )
                }
        },
{
    crate::calls::operations::lemma_operated(
        old(matcher)@,
        MatcherView::<P>::masking(),
        final(matcher)@,
        result,
    );
}

/// The calls behind a mask or the end-of-sequence mask.
proof fn lemma_masked_or_eos<P: TokenParser>(
    parser: P,
    after: P,
    outcome: Result<SimpleVob, MatcherError>,
)
    requires
        MatcherView::masked_or_eos(parser, after, outcome),
    ensures
        ({
            ||| {
                &&& call_ensures(P::stop_reason, (&parser,), Ok(StopReason::NotStopped))
                &&& call_ensures(P::compute_mask, (parser,), (after, outcome))
            }
            ||| {
                &&& after == parser
                &&& outcome matches Err(error) && call_ensures(
                    P::stop_reason,
                    (&parser,),
                    Err(error),
                )
            }
            ||| {
                &&& after == parser
                &&& exists|reason: StopReason| #[trigger]
                    call_ensures(P::stop_reason, (&parser,), Ok(reason)) && reason
                        != StopReason::NotStopped
                &&& match outcome {
                    Ok(mask) => exists|trie: &TokTrie|
                        {
                            &&& #[trigger] call_ensures(P::tok_trie, (&parser,), Ok(trie))
                            &&& crate::mask::mask_len(mask) == crate::mask::trie_vocab_size(*trie)
                            &&& forall|token: u32| #[trigger]
                                crate::mask::mask_tokens(mask).contains(token) <==> {
                                    &&& crate::mask::trie_eos_tokens(*trie).contains(token)
                                    &&& token < crate::mask::trie_vocab_size(*trie)
                                }
                        },
                    Err(error) => call_ensures(P::tok_trie, (&parser,), Err(error)),
                }
            }
        }),
{
    let told = choose|told: Result<StopReason, MatcherError>|
        {
            &&& #[trigger] call_ensures(P::stop_reason, (&parser,), told)
            &&& match told {
                Ok(StopReason::NotStopped) => call_ensures(
                    P::compute_mask,
                    (parser,),
                    (after, outcome),
                ),
                Ok(_) => after == parser && MatcherView::eos(parser, outcome),
                Err(error) => after == parser && outcome == Err::<SimpleVob, MatcherError>(error),
            }
        };
    if told is Ok && told != Ok::<StopReason, MatcherError>(StopReason::NotStopped) {
        assert(call_ensures(P::stop_reason, (&parser,), Ok(told->Ok_0)));
        assert(MatcherView::eos(parser, outcome));
        let trie = choose|trie: Result<&TokTrie, MatcherError>|
            {
                &&& #[trigger] call_ensures(P::tok_trie, (&parser,), trie)
                &&& match trie {
                    Ok(trie) => outcome matches Ok(mask) && crate::mask::is_eos_mask(mask, *trie),
                    Err(error) => outcome == Err::<SimpleVob, MatcherError>(error),
                }
            };
        if trie is Ok {
            assert(call_ensures(P::tok_trie, (&parser,), Ok(trie->Ok_0)));
        }
    }
}

/// A matcher whose parser has not stopped gives the mask of the parser, and one whose parser has a
/// stop reason, whatever it is, gives the mask that allows the end-of-sequence tokens of the trie
/// and nothing else, and leaves the parser as it is. It fails only with a failure of the parser: to
/// tell its stop reason, to compute its mask, or to give its trie.
pub proof fn mask_or_eos_goes_by_the_stop_reason<P: TokenParser>(
    matcher: &mut Matcher<P>,
    result: Result<SimpleVob, MatcherError>,
)
    requires
        call_ensures(Matcher::<P>::compute_mask_or_eos, (matcher,), result),
    ensures
        final(matcher)@.handle == old(matcher)@.handle,
        old(matcher)@.phase matches Phase::Error(message) ==> final(matcher)@.phase == old(
            matcher,
        )@.phase && (result matches Err(MatcherError::Failed(text)) && text@ == message),
        old(matcher)@.phase is Cancelled ==> final(matcher)@.phase is Cancelled && (
        result matches Err(MatcherError::Cancelled(_))),
        result matches Ok(mask) ==> {
            &&& old(matcher)@.phase is Normal
            &&& final(matcher)@.phase is Normal
            &&& old(matcher)@.handle matches Some(handle) ==> handle.reads(false)
            &&& exists|last: bool| #[trigger]
                call_ensures(
                    crate::matcher::settle::<SimpleVob>,
                    (&old(matcher)@.handle, result),
                    (last, result),
                )
            &&& {
                ||| {
                    &&& call_ensures(
                        P::stop_reason,
                        (&old(matcher)@.phase->Normal_0,),
                        Ok(StopReason::NotStopped),
                    )
                    &&& call_ensures(
                        P::compute_mask,
                        (old(matcher)@.phase->Normal_0,),
                        (final(matcher)@.phase->Normal_0, result),
                    )
                }
                ||| {
                    &&& final(matcher)@.phase == old(matcher)@.phase
                    &&& exists|reason: StopReason| #[trigger]
                        call_ensures(
                            P::stop_reason,
                            (&old(matcher)@.phase->Normal_0,),
                            Ok(reason),
                        ) && reason != StopReason::NotStopped
                    &&& exists|trie: &TokTrie|
                        {
                            &&& #[trigger] call_ensures(
                                P::tok_trie,
                                (&old(matcher)@.phase->Normal_0,),
                                Ok(trie),
                            )
                            &&& crate::mask::mask_len(mask) == crate::mask::trie_vocab_size(*trie)
                            &&& forall|token: u32| #[trigger]
                                crate::mask::mask_tokens(mask).contains(token) <==> {
                                    &&& crate::mask::trie_eos_tokens(*trie).contains(token)
                                    &&& token < crate::mask::trie_vocab_size(*trie)
                                }
                        }
                }
            }
        },
        old(matcher)@.phase is Normal && (result matches Err(MatcherError::Cancelled(_))) ==> {
            &&& final(matcher)@.phase is Cancelled
            &&& {
                ||| old(matcher)@.handle matches Some(handle) && handle.reads(true)
                ||| call_ensures(
                    P::stop_reason,
                    (&old(matcher)@.phase->Normal_0,),
                    Err(MatcherError::Cancelled(Cancelled)),
                )
                ||| {
                    &&& call_ensures(
                        P::stop_reason,
                        (&old(matcher)@.phase->Normal_0,),
                        Ok(StopReason::NotStopped),
                    )
                    &&& exists|after: P| #[trigger]
                        call_ensures(
                            P::compute_mask,
                            (old(matcher)@.phase->Normal_0,),
                            (after, Err(MatcherError::Cancelled(Cancelled))),
                        )
                }
                ||| {
                    &&& exists|reason: StopReason| #[trigger]
                        call_ensures(
                            P::stop_reason,
                            (&old(matcher)@.phase->Normal_0,),
                            Ok(reason),
                        ) && reason
                            != StopReason::NotStopped
                    &&& call_ensures(
                        P::tok_trie,
                        (&old(matcher)@.phase->Normal_0,),
                        Err(MatcherError::Cancelled(Cancelled)),
                    )
                }
            }
        },
        old(matcher)@.phase is Normal && (result matches Err(MatcherError::Failed(_))) ==> {
            &&& final(matcher)@.phase == Phase::<P>::Error(result->Err_0->Failed_0@)
            &&& old(matcher)@.handle matches Some(handle) ==> handle.reads(false)
            &&& exists|after: P, cause: String|
                {
                    &&& #[trigger] call_ensures(
                        P::augment_err,
                        (after, cause),
                        result->Err_0->Failed_0,
                    )
                    &&& exists|last: bool| #[trigger]
                        call_ensures(
                            crate::matcher::settle::<SimpleVob>,
                            (&old(matcher)@.handle, Err(MatcherError::Failed(cause))),
                            (last, Err(MatcherError::Failed(cause))),
                        )
                    &&& {
                        ||| {
                            &&& after == old(matcher)@.phase->Normal_0
                            &&& call_ensures(
                                P::stop_reason,
                                (&old(matcher)@.phase->Normal_0,),
                                Err(MatcherError::Failed(cause)),
                            )
                        }
                        ||| {
                            &&& call_ensures(
                                P::stop_reason,
                                (&old(matcher)@.phase->Normal_0,),
                                Ok(StopReason::NotStopped),
                            )
                            &&& call_ensures(
                                P::compute_mask,
                                (old(matcher)@.phase->Normal_0,),
                                (after, Err(MatcherError::Failed(cause))),
                            )
                        }
                        ||| {
                            &&& after == old(matcher)@.phase->Normal_0
                            &&& exists|reason: StopReason| #[trigger]
                                call_ensures(
                                    P::stop_reason,
                                    (&old(matcher)@.phase->Normal_0,),
                                    Ok(reason),
                                ) && reason
                                    != StopReason::NotStopped
                            &&& call_ensures(
                                P::tok_trie,
                                (&old(matcher)@.phase->Normal_0,),
                                Err(MatcherError::Failed(cause)),
                            )
                        }
                    }
                }
        },
{
    let run = MatcherView::<P>::masking_or_eos();
    let pre = old(matcher)@;
    let post = final(matcher)@;
    let parser = pre.phase->Normal_0;
    crate::calls::operations::lemma_operated(pre, run, post, result);
    if pre.phase is Normal {
        match result {
            Ok(mask) => {
                lemma_masked_or_eos(parser, post.phase->Normal_0, result);
            },
            Err(MatcherError::Cancelled(_)) => {
                if !(pre.handle matches Some(handle) && handle.reads(true)) {
                    let (after, told) = choose|after: P, told: Result<SimpleVob, MatcherError>|
                     #[trigger]
                        run(parser, after, told) && (told matches Err(MatcherError::Cancelled(_)));
                    lemma_masked_or_eos(parser, after, told);
                }
            },
            Err(MatcherError::Failed(text)) => {
                let (after, cause) = crate::calls::operations::lemma_failed(
                    pre,
                    run,
                    post,
                    text,
                );
                lemma_masked_or_eos(parser, after, Err(MatcherError::Failed(cause)));
                assert(call_ensures(P::augment_err, (after, cause), text));
            },
        }
    }
}

/// A stopped parser is owed the end-of-sequence mask, whatever its stop reason: if it can only tell
/// stop reasons and only give a trie, the mask is given and the matcher stays as it is. Only a
/// request that was seen keeps the mask from being given.
pub proof fn stopped_parser_is_owed_the_eos_mask<P: TokenParser>(
    matcher: &mut Matcher<P>,
    result: Result<SimpleVob, MatcherError>,
)
    requires
        call_ensures(Matcher::<P>::compute_mask_or_eos, (matcher,), result),
        old(matcher)@.phase is Normal,
        forall|told: Result<StopReason, MatcherError>| #[trigger]
            call_ensures(
                P::stop_reason,
                (&old(matcher)@.phase->Normal_0,),
                told,
            ) ==> (told matches Ok(
                reason,
            ) && reason != StopReason::NotStopped),
        forall|trie: Result<&TokTrie, MatcherError>| #[trigger]
            call_ensures(P::tok_trie, (&old(matcher)@.phase->Normal_0,), trie) ==> trie is Ok,
    ensures
        ({
            ||| {
                &&& final(matcher)@ == old(matcher)@
                &&& result matches Ok(mask) && exists|trie: &TokTrie|
                    {
                        &&& #[trigger] call_ensures(
                            P::tok_trie,
                            (&old(matcher)@.phase->Normal_0,),
                            Ok(trie),
                        )
                        &&& crate::mask::mask_len(mask) == crate::mask::trie_vocab_size(*trie)
                        &&& forall|token: u32| #[trigger]
                            crate::mask::mask_tokens(mask).contains(token) <==> {
                                &&& crate::mask::trie_eos_tokens(*trie).contains(token)
                                &&& token < crate::mask::trie_vocab_size(*trie)
                            }
                    }
            }
            ||| {
                &&& result matches Err(MatcherError::Cancelled(_))
                &&& final(matcher)@.phase is Cancelled
                &&& old(matcher)@.handle matches Some(handle) && handle.reads(true)
            }
        }),
{
    let run = MatcherView::<P>::masking_or_eos();
    let pre = old(matcher)@;
    let post = final(matcher)@;
    let parser = pre.phase->Normal_0;
    crate::calls::operations::lemma_operated(pre, run, post, result);
    assert forall|after: P, told: Result<SimpleVob, MatcherError>| #[trigger]
        run(parser, after, told) implies told is Ok && after == parser by {
        lemma_masked_or_eos(parser, after, told);
    }
    if result is Ok {
        lemma_masked_or_eos(parser, post.phase->Normal_0, result);
    }
}

} // verus!
