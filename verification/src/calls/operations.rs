//! The operations that make one call on the parser.
use crate::error::MatcherError;
use crate::matcher::Matcher;
use crate::model::{MatcherView, Phase, Run};
use crate::parser::{TokenId, TokenParser};
use vstd::prelude::*;

verus! {

/// A guarded operation without the relations of the model, but for its run.
pub(crate) proof fn lemma_operated<P: TokenParser, T>(
    pre: MatcherView<P>,
    run: Run<P, T>,
    post: MatcherView<P>,
    result: Result<T, MatcherError>,
)
    requires
        pre.operated(run, post, result),
    ensures
        post.handle == pre.handle,
        pre.phase matches Phase::Error(message) ==> post.phase == pre.phase && (result matches Err(
            MatcherError::Failed(text),
        ) && text@ == message),
        pre.phase is Cancelled ==> post.phase is Cancelled && (result matches Err(
            MatcherError::Cancelled(_),
        )),
        result is Ok ==> {
            &&& pre.phase is Normal
            &&& post.phase is Normal
            &&& pre.handle matches Some(handle) ==> handle.reads(false)
            &&& exists|last: bool| #[trigger]
                call_ensures(
                    crate::matcher::settle::<T>,
                    (&pre.handle, result),
                    (last, result),
                )
            &&& run(pre.phase->Normal_0, post.phase->Normal_0, result)
        },
        pre.phase is Normal && (result matches Err(MatcherError::Cancelled(_))) ==> {
            &&& post.phase is Cancelled
            &&& (pre.handle matches Some(handle) && handle.reads(true)) || exists|
                after: P,
                told: Result<T, MatcherError>,
            | #[trigger]
                run(pre.phase->Normal_0, after, told) && (told matches Err(
                    MatcherError::Cancelled(_),
                ))
        },
        pre.phase is Normal && (result matches Err(MatcherError::Failed(_))) ==> {
            &&& post.phase == Phase::<P>::Error(result->Err_0->Failed_0@)
            &&& pre.handle matches Some(handle) ==> handle.reads(false)
            &&& exists|after: P, cause: String|
                {
                    &&& #[trigger] run(
                        pre.phase->Normal_0,
                        after,
                        Err(MatcherError::Failed(cause)),
                    )
                    &&& call_ensures(P::augment_err, (after, cause), result->Err_0->Failed_0)
                    &&& exists|last: bool| #[trigger]
                        call_ensures(
                            crate::matcher::settle::<T>,
                            (&pre.handle, Err(MatcherError::Failed(cause))),
                            (last, Err(MatcherError::Failed(cause))),
                        )
                }
        },
{
}

/// The parser that failed and its own words, where a guarded operation failed.
pub(crate) proof fn lemma_failed<P: TokenParser, T>(
    pre: MatcherView<P>,
    run: Run<P, T>,
    post: MatcherView<P>,
    text: String,
) -> (failure: (P, String))
    requires
        pre.phase is Normal,
        pre.operated(run, post, Err(MatcherError::Failed(text))),
    ensures
        run(pre.phase->Normal_0, failure.0, Err(MatcherError::Failed(failure.1))),
        call_ensures(P::augment_err, failure, text),
        exists|last: bool| #[trigger]
            call_ensures(
                crate::matcher::settle::<T>,
                (&pre.handle, Err(MatcherError::Failed(failure.1))),
                (last, Err(MatcherError::Failed(failure.1))),
            ),
{
    lemma_operated(pre, run, post, Err(MatcherError::Failed(text)));
    choose|after: P, cause: String|
        {
            &&& #[trigger] run(pre.phase->Normal_0, after, Err(MatcherError::Failed(cause)))
            &&& call_ensures(P::augment_err, (after, cause), text)
            &&& exists|last: bool| #[trigger]
                call_ensures(
                    crate::matcher::settle::<T>,
                    (&pre.handle, Err(MatcherError::Failed(cause))),
                    (last, Err(MatcherError::Failed(cause))),
                )
        }
}

/// A rollback has the parser take back exactly the number of tokens given. A failure of the parser
/// is told in its own words, and only a request that was seen or a cancellation that the parser
/// reports cancels the operation.
pub proof fn rollback_takes_back_the_number_given<P: TokenParser>(
    matcher: &mut Matcher<P>,
    num_tokens: usize,
    result: Result<(), MatcherError>,
)
    requires
        call_ensures(Matcher::<P>::rollback, (matcher, num_tokens), result),
    ensures
        final(matcher)@.handle == old(matcher)@.handle,
        old(matcher)@.phase matches Phase::Error(message) ==> final(matcher)@.phase == old(
            matcher,
        )@.phase && (result matches Err(MatcherError::Failed(text)) && text@ == message),
        old(matcher)@.phase is Cancelled ==> final(matcher)@.phase is Cancelled && (
        result matches Err(MatcherError::Cancelled(_))),
        result is Ok ==> {
            &&& old(matcher)@.phase is Normal
            &&& final(matcher)@.phase is Normal
            &&& old(matcher)@.handle matches Some(handle) ==> handle.reads(false)
            &&& exists|last: bool| #[trigger]
                call_ensures(
                    crate::matcher::settle::<()>,
                    (&old(matcher)@.handle, result),
                    (last, result),
                )
            &&& call_ensures(
                P::rollback,
                (old(matcher)@.phase->Normal_0, num_tokens),
                (final(matcher)@.phase->Normal_0, result),
            )
        },
        old(matcher)@.phase is Normal && (result matches Err(MatcherError::Cancelled(_))) ==> {
            &&& final(matcher)@.phase is Cancelled
            &&& (old(matcher)@.handle matches Some(handle) && handle.reads(true)) || exists|
                after: P,
                told: Result<(), MatcherError>,
            | #[trigger]
                call_ensures(
                    P::rollback,
                    (old(matcher)@.phase->Normal_0, num_tokens),
                    (after, told),
                )
                    && (told matches Err(MatcherError::Cancelled(_)))
        },
        old(matcher)@.phase is Normal && (result matches Err(MatcherError::Failed(_))) ==> {
            &&& final(matcher)@.phase == Phase::<P>::Error(result->Err_0->Failed_0@)
            &&& old(matcher)@.handle matches Some(handle) ==> handle.reads(false)
            &&& exists|after: P, cause: String|
                {
                    &&& #[trigger] call_ensures(
                        P::rollback,
                        (old(matcher)@.phase->Normal_0, num_tokens),
                        (after, Err(MatcherError::Failed(cause))),
                    )
                    &&& call_ensures(P::augment_err, (after, cause), result->Err_0->Failed_0)
                    &&& exists|last: bool| #[trigger]
                        call_ensures(
                            crate::matcher::settle::<()>,
                            (&old(matcher)@.handle, Err(MatcherError::Failed(cause))),
                            (last, Err(MatcherError::Failed(cause))),
                        )
                }
        },
{
    lemma_operated(
        old(matcher)@,
        MatcherView::<P>::rolling_back(num_tokens),
        final(matcher)@,
        result,
    );
}

/// A reset resets the parser, and succeeds and fails as the parser does.
pub proof fn reset_resets_the_parser<P: TokenParser>(
    matcher: &mut Matcher<P>,
    result: Result<(), MatcherError>,
)
    requires
        call_ensures(Matcher::<P>::reset, (matcher,), result),
    ensures
        final(matcher)@.handle == old(matcher)@.handle,
        old(matcher)@.phase matches Phase::Error(message) ==> final(matcher)@.phase == old(
            matcher,
        )@.phase && (result matches Err(MatcherError::Failed(text)) && text@ == message),
        old(matcher)@.phase is Cancelled ==> final(matcher)@.phase is Cancelled && (
        result matches Err(MatcherError::Cancelled(_))),
        result is Ok ==> {
            &&& old(matcher)@.phase is Normal
            &&& final(matcher)@.phase is Normal
            &&& old(matcher)@.handle matches Some(handle) ==> handle.reads(false)
            &&& exists|last: bool| #[trigger]
                call_ensures(
                    crate::matcher::settle::<()>,
                    (&old(matcher)@.handle, result),
                    (last, result),
                )
            &&& call_ensures(
                P::reset,
                (old(matcher)@.phase->Normal_0,),
                (final(matcher)@.phase->Normal_0, result),
            )
        },
        old(matcher)@.phase is Normal && (result matches Err(MatcherError::Cancelled(_))) ==> {
            &&& final(matcher)@.phase is Cancelled
            &&& (old(matcher)@.handle matches Some(handle) && handle.reads(true)) || exists|
                after: P,
                told: Result<(), MatcherError>,
            | #[trigger]
                call_ensures(P::reset, (old(matcher)@.phase->Normal_0,), (after, told))
                    && (told matches Err(MatcherError::Cancelled(_)))
        },
        old(matcher)@.phase is Normal && (result matches Err(MatcherError::Failed(_))) ==> {
            &&& final(matcher)@.phase == Phase::<P>::Error(result->Err_0->Failed_0@)
            &&& old(matcher)@.handle matches Some(handle) ==> handle.reads(false)
            &&& exists|after: P, cause: String|
                {
                    &&& #[trigger] call_ensures(
                        P::reset,
                        (old(matcher)@.phase->Normal_0,),
                        (after, Err(MatcherError::Failed(cause))),
                    )
                    &&& call_ensures(P::augment_err, (after, cause), result->Err_0->Failed_0)
                    &&& exists|last: bool| #[trigger]
                        call_ensures(
                            crate::matcher::settle::<()>,
                            (&old(matcher)@.handle, Err(MatcherError::Failed(cause))),
                            (last, Err(MatcherError::Failed(cause))),
                        )
                }
        },
{
    lemma_operated(old(matcher)@, MatcherView::<P>::resetting(), final(matcher)@, result);
}

/// Triggering a lexer error triggers it in the parser, and succeeds and fails as the parser does.
pub proof fn lexer_error_is_triggered<P: TokenParser>(
    matcher: &mut Matcher<P>,
    result: Result<(), MatcherError>,
)
    requires
        call_ensures(Matcher::<P>::test_trigger_lexer_error, (matcher,), result),
    ensures
        final(matcher)@.handle == old(matcher)@.handle,
        old(matcher)@.phase matches Phase::Error(message) ==> final(matcher)@.phase == old(
            matcher,
        )@.phase && (result matches Err(MatcherError::Failed(text)) && text@ == message),
        old(matcher)@.phase is Cancelled ==> final(matcher)@.phase is Cancelled && (
        result matches Err(MatcherError::Cancelled(_))),
        result is Ok ==> {
            &&& old(matcher)@.phase is Normal
            &&& final(matcher)@.phase is Normal
            &&& old(matcher)@.handle matches Some(handle) ==> handle.reads(false)
            &&& exists|last: bool| #[trigger]
                call_ensures(
                    crate::matcher::settle::<()>,
                    (&old(matcher)@.handle, result),
                    (last, result),
                )
            &&& call_ensures(
                P::test_trigger_lexer_error,
                (old(matcher)@.phase->Normal_0,),
                (final(matcher)@.phase->Normal_0, result),
            )
        },
        old(matcher)@.phase is Normal && (result matches Err(MatcherError::Cancelled(_))) ==> {
            &&& final(matcher)@.phase is Cancelled
            &&& (old(matcher)@.handle matches Some(handle) && handle.reads(true)) || exists|
                after: P,
                told: Result<(), MatcherError>,
            | #[trigger]
                call_ensures(
                    P::test_trigger_lexer_error,
                    (old(matcher)@.phase->Normal_0,),
                    (after, told),
                )
                    && (told matches Err(MatcherError::Cancelled(_)))
        },
        old(matcher)@.phase is Normal && (result matches Err(MatcherError::Failed(_))) ==> {
            &&& final(matcher)@.phase == Phase::<P>::Error(result->Err_0->Failed_0@)
            &&& old(matcher)@.handle matches Some(handle) ==> handle.reads(false)
            &&& exists|after: P, cause: String|
                {
                    &&& #[trigger] call_ensures(
                        P::test_trigger_lexer_error,
                        (old(matcher)@.phase->Normal_0,),
                        (after, Err(MatcherError::Failed(cause))),
                    )
                    &&& call_ensures(P::augment_err, (after, cause), result->Err_0->Failed_0)
                    &&& exists|last: bool| #[trigger]
                        call_ensures(
                            crate::matcher::settle::<()>,
                            (&old(matcher)@.handle, Err(MatcherError::Failed(cause))),
                            (last, Err(MatcherError::Failed(cause))),
                        )
                }
        },
{
    lemma_operated(
        old(matcher)@,
        MatcherView::<P>::triggering_lexer_error(),
        final(matcher)@,
        result,
    );
}

/// A matcher accepts exactly if its parser does, and telling succeeds and fails as the parser does.
pub proof fn acceptance_is_the_parsers<P: TokenParser>(
    matcher: &mut Matcher<P>,
    result: Result<bool, MatcherError>,
)
    requires
        call_ensures(Matcher::<P>::is_accepting, (matcher,), result),
    ensures
        final(matcher)@.handle == old(matcher)@.handle,
        old(matcher)@.phase matches Phase::Error(message) ==> final(matcher)@.phase == old(
            matcher,
        )@.phase && (result matches Err(MatcherError::Failed(text)) && text@ == message),
        old(matcher)@.phase is Cancelled ==> final(matcher)@.phase is Cancelled && (
        result matches Err(MatcherError::Cancelled(_))),
        result is Ok ==> {
            &&& old(matcher)@.phase is Normal
            &&& final(matcher)@.phase is Normal
            &&& old(matcher)@.handle matches Some(handle) ==> handle.reads(false)
            &&& exists|last: bool| #[trigger]
                call_ensures(
                    crate::matcher::settle::<bool>,
                    (&old(matcher)@.handle, result),
                    (last, result),
                )
            &&& call_ensures(
                P::is_accepting,
                (old(matcher)@.phase->Normal_0,),
                (final(matcher)@.phase->Normal_0, result),
            )
        },
        old(matcher)@.phase is Normal && (result matches Err(MatcherError::Cancelled(_))) ==> {
            &&& final(matcher)@.phase is Cancelled
            &&& (old(matcher)@.handle matches Some(handle) && handle.reads(true)) || exists|
                after: P,
                told: Result<bool, MatcherError>,
            | #[trigger]
                call_ensures(P::is_accepting, (old(matcher)@.phase->Normal_0,), (after, told))
                    && (told matches Err(MatcherError::Cancelled(_)))
        },
        old(matcher)@.phase is Normal && (result matches Err(MatcherError::Failed(_))) ==> {
            &&& final(matcher)@.phase == Phase::<P>::Error(result->Err_0->Failed_0@)
            &&& old(matcher)@.handle matches Some(handle) ==> handle.reads(false)
            &&& exists|after: P, cause: String|
                {
                    &&& #[trigger] call_ensures(
                        P::is_accepting,
                        (old(matcher)@.phase->Normal_0,),
                        (after, Err(MatcherError::Failed(cause))),
                    )
                    &&& call_ensures(P::augment_err, (after, cause), result->Err_0->Failed_0)
                    &&& exists|last: bool| #[trigger]
                        call_ensures(
                            crate::matcher::settle::<bool>,
                            (&old(matcher)@.handle, Err(MatcherError::Failed(cause))),
                            (last, Err(MatcherError::Failed(cause))),
                        )
                }
        },
{
    lemma_operated(old(matcher)@, MatcherView::<P>::accepting(), final(matcher)@, result);
}

/// A validation returns exactly the count that the parser gave for exactly the tokens given, and
/// succeeds and fails as the parser does.
pub proof fn validated_count_is_the_parsers<P: TokenParser>(
    matcher: &mut Matcher<P>,
    tokens: &[TokenId],
    result: Result<usize, MatcherError>,
)
    requires
        call_ensures(Matcher::<P>::validate_tokens, (matcher, tokens), result),
    ensures
        final(matcher)@.handle == old(matcher)@.handle,
        old(matcher)@.phase matches Phase::Error(message) ==> final(matcher)@.phase == old(
            matcher,
        )@.phase && (result matches Err(MatcherError::Failed(text)) && text@ == message),
        old(matcher)@.phase is Cancelled ==> final(matcher)@.phase is Cancelled && (
        result matches Err(MatcherError::Cancelled(_))),
        result is Ok ==> {
            &&& old(matcher)@.phase is Normal
            &&& final(matcher)@.phase is Normal
            &&& old(matcher)@.handle matches Some(handle) ==> handle.reads(false)
            &&& exists|last: bool| #[trigger]
                call_ensures(
                    crate::matcher::settle::<usize>,
                    (&old(matcher)@.handle, result),
                    (last, result),
                )
            &&& call_ensures(
                P::validate_tokens_raw,
                (old(matcher)@.phase->Normal_0, tokens),
                (final(matcher)@.phase->Normal_0, result),
            )
        },
        old(matcher)@.phase is Normal && (result matches Err(MatcherError::Cancelled(_))) ==> {
            &&& final(matcher)@.phase is Cancelled
            &&& (old(matcher)@.handle matches Some(handle) && handle.reads(true)) || exists|
                after: P,
                told: Result<usize, MatcherError>,
            | #[trigger]
                call_ensures(
                    P::validate_tokens_raw,
                    (old(matcher)@.phase->Normal_0, tokens),
                    (after, told),
                )
                    && (told matches Err(MatcherError::Cancelled(_)))
        },
        old(matcher)@.phase is Normal && (result matches Err(MatcherError::Failed(_))) ==> {
            &&& final(matcher)@.phase == Phase::<P>::Error(result->Err_0->Failed_0@)
            &&& old(matcher)@.handle matches Some(handle) ==> handle.reads(false)
            &&& exists|after: P, cause: String|
                {
                    &&& #[trigger] call_ensures(
                        P::validate_tokens_raw,
                        (old(matcher)@.phase->Normal_0, tokens),
                        (after, Err(MatcherError::Failed(cause))),
                    )
                    &&& call_ensures(P::augment_err, (after, cause), result->Err_0->Failed_0)
                    &&& exists|last: bool| #[trigger]
                        call_ensures(
                            crate::matcher::settle::<usize>,
                            (&old(matcher)@.handle, Err(MatcherError::Failed(cause))),
                            (last, Err(MatcherError::Failed(cause))),
                        )
                }
        },
{
    lemma_operated(old(matcher)@, MatcherView::<P>::validating(tokens), final(matcher)@, result);
}

/// The forced tokens of a matcher are those of its parser, all of them and in their order. There
/// are none after a failure, which is told in the words of the parser.
pub proof fn forced_tokens_are_the_parsers<P: TokenParser>(
    matcher: &mut Matcher<P>,
    tokens: Vec<TokenId>,
)
    requires
        call_ensures(Matcher::<P>::compute_ff_tokens, (matcher,), tokens),
    ensures
        final(matcher)@.handle == old(matcher)@.handle,
        !(old(matcher)@.phase is Normal) ==> final(matcher)@.phase == old(matcher)@.phase,
        !(final(matcher)@.phase is Normal) ==> tokens@.len() == 0,
        final(matcher)@.phase is Normal ==> {
            &&& old(matcher)@.phase is Normal
            &&& old(matcher)@.handle matches Some(handle) ==> handle.reads(false)
            &&& exists|found: Vec<TokenId>|
                {
                    &&& #[trigger] call_ensures(
                        P::compute_ff_tokens,
                        (old(matcher)@.phase->Normal_0,),
                        (final(matcher)@.phase->Normal_0, Ok(found)),
                    )
                    &&& found@ == tokens@
                    &&& exists|last: bool| #[trigger]
                        call_ensures(
                            crate::matcher::settle::<Vec<TokenId>>,
                            (&old(matcher)@.handle, Ok(found)),
                            (last, Ok(found)),
                        )
                }
        },
        old(matcher)@.phase is Normal && final(matcher)@.phase is Cancelled ==> {
            ||| old(matcher)@.handle matches Some(handle) && handle.reads(true)
            ||| exists|after: P, told: Result<Vec<TokenId>, MatcherError>| #[trigger]
                call_ensures(P::compute_ff_tokens, (old(matcher)@.phase->Normal_0,), (after, told))
                    && (told matches Err(MatcherError::Cancelled(_)))
        },
        old(matcher)@.phase is Normal && final(matcher)@.phase is Error ==> {
            &&& old(matcher)@.handle matches Some(handle) ==> handle.reads(false)
            &&& exists|after: P, cause: String, text: String|
                {
                    &&& #[trigger] call_ensures(
                        P::compute_ff_tokens,
                        (old(matcher)@.phase->Normal_0,),
                        (after, Err(MatcherError::Failed(cause))),
                    )
                    &&& #[trigger] call_ensures(P::augment_err, (after, cause), text)
                    &&& exists|last: bool| #[trigger]
                        call_ensures(
                            crate::matcher::settle::<Vec<TokenId>>,
                            (&old(matcher)@.handle, Err(MatcherError::Failed(cause))),
                            (last, Err(MatcherError::Failed(cause))),
                        )
                    &&& text@ == final(matcher)@.phase->Error_0
                }
        },
{
    let run = MatcherView::<P>::forcing_tokens();
    let pre = old(matcher)@;
    let post = final(matcher)@;
    let result = choose|result: Result<Vec<TokenId>, MatcherError>|
        {
            &&& #[trigger] pre.operated(run, post, result)
            &&& tokens@ == match result {
                Ok(items) => items@,
                Err(_) => Seq::<TokenId>::empty(),
            }
        };
    lemma_operated(pre, run, post, result);
}

/// The forced bytes of a matcher are those of its parser, all of them and in their order. There
/// are none after a failure, which is told in the words of the parser.
pub proof fn forced_bytes_are_the_parsers<P: TokenParser>(
    matcher: &mut Matcher<P>,
    bytes: Vec<u8>,
)
    requires
        call_ensures(Matcher::<P>::compute_ff_bytes, (matcher,), bytes),
    ensures
        final(matcher)@.handle == old(matcher)@.handle,
        !(old(matcher)@.phase is Normal) ==> final(matcher)@.phase == old(matcher)@.phase,
        !(final(matcher)@.phase is Normal) ==> bytes@.len() == 0,
        final(matcher)@.phase is Normal ==> {
            &&& old(matcher)@.phase is Normal
            &&& old(matcher)@.handle matches Some(handle) ==> handle.reads(false)
            &&& exists|found: Vec<u8>|
                {
                    &&& #[trigger] call_ensures(
                        P::force_bytes,
                        (old(matcher)@.phase->Normal_0,),
                        (final(matcher)@.phase->Normal_0, Ok(found)),
                    )
                    &&& found@ == bytes@
                    &&& exists|last: bool| #[trigger]
                        call_ensures(
                            crate::matcher::settle::<Vec<u8>>,
                            (&old(matcher)@.handle, Ok(found)),
                            (last, Ok(found)),
                        )
                }
        },
        old(matcher)@.phase is Normal && final(matcher)@.phase is Cancelled ==> {
            ||| old(matcher)@.handle matches Some(handle) && handle.reads(true)
            ||| exists|after: P, told: Result<Vec<u8>, MatcherError>| #[trigger]
                call_ensures(P::force_bytes, (old(matcher)@.phase->Normal_0,), (after, told))
                    && (told matches Err(MatcherError::Cancelled(_)))
        },
        old(matcher)@.phase is Normal && final(matcher)@.phase is Error ==> {
            &&& old(matcher)@.handle matches Some(handle) ==> handle.reads(false)
            &&& exists|after: P, cause: String, text: String|
                {
                    &&& #[trigger] call_ensures(
                        P::force_bytes,
                        (old(matcher)@.phase->Normal_0,),
                        (after, Err(MatcherError::Failed(cause))),
                    )
                    &&& #[trigger] call_ensures(P::augment_err, (after, cause), text)
                    &&& exists|last: bool| #[trigger]
                        call_ensures(
                            crate::matcher::settle::<Vec<u8>>,
                            (&old(matcher)@.handle, Err(MatcherError::Failed(cause))),
                            (last, Err(MatcherError::Failed(cause))),
                        )
                    &&& text@ == final(matcher)@.phase->Error_0
                }
        },
{
    let run = MatcherView::<P>::forcing_bytes();
    let pre = old(matcher)@;
    let post = final(matcher)@;
    let result = choose|result: Result<Vec<u8>, MatcherError>|
        {
            &&& #[trigger] pre.operated(run, post, result)
            &&& bytes@ == match result {
                Ok(items) => items@,
                Err(_) => Seq::<u8>::empty(),
            }
        };
    lemma_operated(pre, run, post, result);
}

} // verus!
