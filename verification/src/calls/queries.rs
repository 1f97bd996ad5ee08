//! What making, copying and asking a matcher comes to.
use crate::cancellation::CancellationHandle;
use crate::error::MatcherError;
use crate::matcher::Matcher;
use crate::model::Phase;
use crate::parser::{StopReason, TokenParser};
use vstd::prelude::*;

verus! {

/// A new matcher has no handle. It drives the parser that it was given, which it started if and
/// only if the parser was fresh, unless the parser may backtrack; that, and a parser that could
/// not be made, is an error with its message.
pub proof fn new_matcher_drives_its_parser<P: TokenParser>(
    parser: Result<P, MatcherError>,
    matcher: Matcher<P>,
)
    requires
        call_ensures(Matcher::<P>::new, (parser,), matcher),
    ensures
        matcher@.handle is None,
        !(matcher@.phase is Cancelled),
        matcher@.phase matches Phase::Normal(started) ==> (parser matches Ok(given) && {
            &&& call_ensures(P::may_backtrack, (&given,), false)
            &&& {
                ||| {
                    &&& call_ensures(P::is_fresh, (&given,), true)
                    &&& call_ensures(P::start_without_prompt, (given,), started)
                }
                ||| {
                    &&& call_ensures(P::is_fresh, (&given,), false)
                    &&& started == given
                }
            }
        }),
        matcher@.phase matches Phase::Error(message) ==> match parser {
            Ok(given) => {
                &&& call_ensures(P::may_backtrack, (&given,), true)
                &&& message == "backtracking not supported"@
            },
            Err(MatcherError::Failed(text)) => message == text@,
            Err(MatcherError::Cancelled(_)) => message == "operation cancelled"@,
        },
{
}

/// Making a matcher cancellable gives it a handle without a request, tells its parser of that
/// handle, and changes nothing else. A matcher that has a handle stays as it is.
pub proof fn cancellable_matcher_has_a_handle<P: TokenParser>(
    matcher: Matcher<P>,
    cancellable: Matcher<P>,
)
    requires
        call_ensures(Matcher::<P>::into_cancellable, (matcher,), cancellable),
    ensures
        cancellable@.handle is Some,
        matcher@.handle is Some ==> cancellable@ == matcher@,
        matcher@.handle is None ==> cancellable@.handle->0.starts_with(false),
        matcher@.phase is Cancelled ==> cancellable@.phase is Cancelled,
        matcher@.phase matches Phase::Error(message) ==> cancellable@.phase == Phase::<P>::Error(
            message,
        ),
        matcher@.handle is None && matcher@.phase is Normal ==> {
            &&& cancellable@.phase is Normal
            &&& call_ensures(
                P::set_cancellation_handle,
                (matcher@.phase->Normal_0, cancellable@.handle->0),
                cancellable@.phase->Normal_0,
            )
        },
{
}

/// The handle that a matcher gives out is its own.
pub proof fn handle_is_the_matchers<P: TokenParser>(
    matcher: &Matcher<P>,
    handle: Option<CancellationHandle>,
)
    requires
        call_ensures(Matcher::<P>::cancellation_handle, (matcher,), handle),
    ensures
        handle == matcher@.handle,
{
}

/// A clone of a matcher drives a clone of its parser. It has a handle if and only if the matcher
/// has one. That handle is a new one, which starts from the request as it was sampled, and the
/// cloned parser was told of it. The clone is cancelled, and no parser cloned, if and only if a
/// request was sampled. A terminal matcher has clones that are terminal for the same reason.
pub proof fn clone_drives_a_clone_of_the_parser<P: TokenParser>(
    matcher: &Matcher<P>,
    copy: Matcher<P>,
)
    requires
        call_ensures(Matcher::<P>::clone, (matcher,), copy),
    ensures
        copy@.handle is Some <==> matcher@.handle is Some,
        matcher@.handle matches Some(handle) ==> {
            ||| handle.reads(false) && copy@.handle->0.starts_with(false)
            ||| handle.reads(true) && copy@.handle->0.starts_with(true)
        },
        matcher@.phase is Cancelled ==> copy@.phase is Cancelled,
        matcher@.phase matches Phase::Error(message) ==> copy@.phase == Phase::<P>::Error(message),
        matcher@.phase is Normal ==> !(copy@.phase is Error),
        matcher@.phase is Normal && copy@.phase is Cancelled ==> {
            &&& matcher@.handle matches Some(handle) && handle.reads(true)
            &&& copy@.handle->0.starts_with(true)
        },
        copy@.phase is Normal ==> matcher@.phase is Normal,
        copy@.phase is Normal && matcher@.handle is None ==> call_ensures(
            P::clone,
            (&matcher@.phase->Normal_0,),
            copy@.phase->Normal_0,
        ),
        copy@.phase is Normal && matcher@.handle is Some ==> {
            &&& matcher@.handle->0.reads(false)
            &&& copy@.handle->0.starts_with(false)
            &&& exists|bare: P|
                {
                    &&& #[trigger] call_ensures(P::clone, (&matcher@.phase->Normal_0,), bare)
                    &&& call_ensures(
                        P::set_cancellation_handle,
                        (bare, copy@.handle->0),
                        copy@.phase->Normal_0,
                    )
                }
        },
{
}

/// A deep clone of a matcher is as [`clone_drives_a_clone_of_the_parser`] says of a clone, but for
/// the parser, which is cloned with its lexer caches.
pub proof fn deep_clone_drives_a_deep_clone_of_the_parser<P: TokenParser>(
    matcher: &Matcher<P>,
    copy: Matcher<P>,
)
    requires
        call_ensures(Matcher::<P>::deep_clone, (matcher,), copy),
    ensures
        copy@.handle is Some <==> matcher@.handle is Some,
        matcher@.handle matches Some(handle) ==> {
            ||| handle.reads(false) && copy@.handle->0.starts_with(false)
            ||| handle.reads(true) && copy@.handle->0.starts_with(true)
        },
        matcher@.phase is Cancelled ==> copy@.phase is Cancelled,
        matcher@.phase matches Phase::Error(message) ==> copy@.phase == Phase::<P>::Error(message),
        matcher@.phase is Normal ==> !(copy@.phase is Error),
        matcher@.phase is Normal && copy@.phase is Cancelled ==> {
            &&& matcher@.handle matches Some(handle) && handle.reads(true)
            &&& copy@.handle->0.starts_with(true)
        },
        copy@.phase is Normal ==> matcher@.phase is Normal,
        copy@.phase is Normal && matcher@.handle is None ==> call_ensures(
            P::deep_clone,
            (&matcher@.phase->Normal_0,),
            copy@.phase->Normal_0,
        ),
        copy@.phase is Normal && matcher@.handle is Some ==> {
            &&& matcher@.handle->0.reads(false)
            &&& copy@.handle->0.starts_with(false)
            &&& exists|bare: P|
                {
                    &&& #[trigger] call_ensures(P::deep_clone, (&matcher@.phase->Normal_0,), bare)
                    &&& call_ensures(
                        P::set_cancellation_handle,
                        (bare, copy@.handle->0),
                        copy@.phase->Normal_0,
                    )
                }
        },
{
}

/// A duplicated parser is a clone of the parser, a deep one if and only if that was asked for, and
/// was told of the handle, where there is one.
pub proof fn duplicate_is_a_clone<P: TokenParser>(
    parser: &P,
    deep: bool,
    handle: &Option<CancellationHandle>,
    copy: P,
)
    requires
        call_ensures(crate::matcher::duplicate::<P>, (parser, deep, handle), copy),
    ensures
        handle is None && deep ==> call_ensures(P::deep_clone, (parser,), copy),
        handle is None && !deep ==> call_ensures(P::clone, (parser,), copy),
        handle is Some && deep ==> exists|bare: P| #[trigger]
            call_ensures(P::deep_clone, (parser,), bare) && call_ensures(
                P::set_cancellation_handle,
                (bare, handle->0),
                copy,
            ),
        handle is Some && !deep ==> exists|bare: P| #[trigger]
            call_ensures(P::clone, (parser,), bare) && call_ensures(
                P::set_cancellation_handle,
                (bare, handle->0),
                copy,
            ),
{
}

/// Publishing an outcome lets it through as it is, unless a request was seen, which cancels it.
pub proof fn request_discards_the_outcome<T>(
    outcome: Result<T, MatcherError>,
    requested: bool,
    result: Result<T, MatcherError>,
)
    requires
        call_ensures(crate::matcher::publish::<T>, (outcome, requested), result),
    ensures
        !requested ==> result == outcome,
        requested ==> (result matches Err(MatcherError::Cancelled(_))),
{
}

/// Settling an outcome looks at the request and publishes the outcome by what it saw.
pub proof fn settling_looks_at_the_request<T>(
    handle: &Option<CancellationHandle>,
    outcome: Result<T, MatcherError>,
    settled: (bool, Result<T, MatcherError>),
)
    requires
        call_ensures(crate::matcher::settle::<T>, (handle, outcome), settled),
    ensures
        handle matches Some(handle) ==> handle.reads(settled.0),
        handle is None ==> !settled.0,
        !settled.0 ==> settled.1 == outcome,
        settled.0 ==> (settled.1 matches Err(MatcherError::Cancelled(_))),
{
}

/// A matcher is cancelled if a request is seen and it had not failed before, and not otherwise.
pub proof fn cancelled_means_requested_before_any_error<P: TokenParser>(
    matcher: &Matcher<P>,
    cancelled: bool,
)
    requires
        call_ensures(Matcher::<P>::is_cancelled, (matcher,), cancelled),
    ensures
        cancelled ==> !(matcher@.phase is Error) && (matcher@.handle matches Some(handle)
            && handle.reads(true)),
        !cancelled ==> matcher@.phase is Error || (matcher@.handle matches Some(handle)
            ==> handle.reads(false)),
{
}

/// [`cancelled_means_requested_before_any_error`] for a request that is seen as `requested`.
pub proof fn cancelled_when_means_requested_before_any_error<P: TokenParser>(
    matcher: &Matcher<P>,
    requested: bool,
    cancelled: bool,
)
    requires
        call_ensures(Matcher::<P>::is_cancelled_when, (matcher, requested), cancelled),
    ensures
        cancelled == (requested && !(matcher@.phase is Error)),
{
}

/// The stop reason of a matcher is that of its parser, which has an internal error if it fails to
/// tell. A failed matcher has an internal error. A cancelled matcher, and one that sees a request
/// before it failed, is cancelled.
pub proof fn stop_reason_is_the_parsers<P: TokenParser>(matcher: &Matcher<P>, reason: StopReason)
    requires
        call_ensures(Matcher::<P>::stop_reason, (matcher,), reason),
    ensures
        matcher@.phase is Error ==> reason == StopReason::InternalError,
        matcher@.phase is Cancelled ==> reason == StopReason::Cancelled,
        matcher@.phase matches Phase::Normal(parser) ==> {
            ||| {
                &&& reason == StopReason::Cancelled
                &&& matcher@.handle matches Some(handle) && handle.reads(true)
            }
            ||| {
                &&& matcher@.handle matches Some(handle) ==> handle.reads(false)
                &&& {
                    ||| call_ensures(P::stop_reason, (&parser,), Ok(reason))
                    ||| {
                        &&& reason == StopReason::InternalError
                        &&& exists|error: MatcherError| #[trigger]
                            call_ensures(P::stop_reason, (&parser,), Err(error))
                    }
                }
            }
        },
{
}

/// [`stop_reason_is_the_parsers`] for a request that is seen as `requested`.
pub proof fn stop_reason_when_is_the_parsers<P: TokenParser>(
    matcher: &Matcher<P>,
    requested: bool,
    reason: StopReason,
)
    requires
        call_ensures(Matcher::<P>::stop_reason_when, (matcher, requested), reason),
    ensures
        matcher@.phase is Error ==> reason == StopReason::InternalError,
        matcher@.phase is Cancelled ==> reason == StopReason::Cancelled,
        matcher@.phase is Normal && requested ==> reason == StopReason::Cancelled,
        matcher@.phase is Normal && !requested ==> {
            ||| call_ensures(P::stop_reason, (&matcher@.phase->Normal_0,), Ok(reason))
            ||| {
                &&& reason == StopReason::InternalError
                &&& exists|error: MatcherError| #[trigger]
                    call_ensures(P::stop_reason, (&matcher@.phase->Normal_0,), Err(error))
            }
        },
{
}

/// A matcher has not stopped only if its parser tells that it has not and no request is seen.
pub proof fn stopped_unless_the_parser_runs<P: TokenParser>(matcher: &Matcher<P>, stopped: bool)
    requires
        call_ensures(Matcher::<P>::is_stopped, (matcher,), stopped),
    ensures
        !stopped ==> {
            &&& matcher@.phase is Normal
            &&& matcher@.handle matches Some(handle) ==> handle.reads(false)
            &&& call_ensures(
                P::stop_reason,
                (&matcher@.phase->Normal_0,),
                Ok(StopReason::NotStopped),
            )
        },
        stopped && matcher@.phase is Normal ==> {
            ||| matcher@.handle matches Some(handle) && handle.reads(true)
            ||| exists|told: Result<StopReason, MatcherError>| #[trigger]
                call_ensures(P::stop_reason, (&matcher@.phase->Normal_0,), told) && told != Ok::<
                    StopReason,
                    MatcherError,
                >(StopReason::NotStopped)
        },
{
}

/// [`stopped_unless_the_parser_runs`] for a request that is seen as `requested`.
pub proof fn stopped_when_unless_the_parser_runs<P: TokenParser>(
    matcher: &Matcher<P>,
    requested: bool,
    stopped: bool,
)
    requires
        call_ensures(Matcher::<P>::is_stopped_when, (matcher, requested), stopped),
    ensures
        requested || !(matcher@.phase is Normal) ==> stopped,
        !stopped ==> call_ensures(
            P::stop_reason,
            (&matcher@.phase->Normal_0,),
            Ok(StopReason::NotStopped),
        ),
        stopped && !requested && matcher@.phase is Normal ==> exists|
            told: Result<StopReason, MatcherError>,
        | #[trigger]
            call_ensures(P::stop_reason, (&matcher@.phase->Normal_0,), told) && told != Ok::<
                StopReason,
                MatcherError,
            >(StopReason::NotStopped),
{
}

/// A matcher counts as failed if it is terminal or a request is seen, and not otherwise.
pub proof fn error_means_terminal_or_requested<P: TokenParser>(matcher: &Matcher<P>, error: bool)
    requires
        call_ensures(Matcher::<P>::is_error, (matcher,), error),
    ensures
        error ==> !(matcher@.phase is Normal) || (matcher@.handle matches Some(handle)
            && handle.reads(true)),
        !error ==> matcher@.phase is Normal && (matcher@.handle matches Some(handle)
            ==> handle.reads(false)),
{
}

/// [`error_means_terminal_or_requested`] for a request that is seen as `requested`.
pub proof fn error_when_means_terminal_or_requested<P: TokenParser>(
    matcher: &Matcher<P>,
    requested: bool,
    error: bool,
)
    requires
        call_ensures(Matcher::<P>::is_error_when, (matcher, requested), error),
    ensures
        error == (requested || !(matcher@.phase is Normal)),
{
}

/// A failed matcher tells the message it failed with, and keeps to it after a later request. A
/// cancelled one, and one that sees a request, tells that the operation was cancelled. Any other
/// tells nothing.
pub proof fn error_message_is_the_cause<P: TokenParser>(
    matcher: &Matcher<P>,
    message: Option<String>,
)
    requires
        call_ensures(Matcher::<P>::get_error, (matcher,), message),
    ensures
        matcher@.phase matches Phase::Error(cause) ==> (message matches Some(text) && text@
            == cause),
        matcher@.phase is Cancelled ==> (message matches Some(text) && text@
            == "operation cancelled"@),
        matcher@.phase is Normal ==> match message {
            Some(text) => {
                &&& text@ == "operation cancelled"@
                &&& matcher@.handle matches Some(handle) && handle.reads(true)
            },
            None => matcher@.handle matches Some(handle) ==> handle.reads(false),
        },
{
}

/// [`error_message_is_the_cause`] for a request that is seen as `requested`.
pub proof fn error_message_when_is_the_cause<P: TokenParser>(
    matcher: &Matcher<P>,
    requested: bool,
    message: Option<String>,
)
    requires
        call_ensures(Matcher::<P>::get_error_when, (matcher, requested), message),
    ensures
        matcher@.phase matches Phase::Error(cause) ==> (message matches Some(text) && text@
            == cause),
        matcher@.phase is Cancelled ==> (message matches Some(text) && text@
            == "operation cancelled"@),
        matcher@.phase is Normal && requested ==> (message matches Some(text) && text@
            == "operation cancelled"@),
        matcher@.phase is Normal && !requested ==> message is None,
{
}

/// An error tells its own message, and a cancellation the one message of every cancellation.
pub proof fn error_tells_its_message(error: &MatcherError, message: String)
    requires
        call_ensures(MatcherError::to_string, (error,), message),
    ensures
        *error matches MatcherError::Failed(text) ==> message@ == text@,
        *error is Cancelled ==> message@ == "operation cancelled"@,
{
}

/// The tokenizer environment that a matcher gives out is a clone of that of its parser, whatever
/// the request. A terminal matcher gives its cause instead.
pub proof fn environment_is_the_parsers<P: TokenParser>(
    matcher: &Matcher<P>,
    env: Result<P::Env, MatcherError>,
)
    requires
        call_ensures(Matcher::<P>::tok_env, (matcher,), env),
    ensures
        matcher@.phase matches Phase::Normal(parser) ==> (env matches Ok(copy) && exists|
            own: &P::Env,
        | #[trigger]
            call_ensures(P::token_env, (&parser,), own) && cloned(*own, copy)),
        matcher@.phase matches Phase::Error(message) ==> (env matches Err(
            MatcherError::Failed(text),
        ) && text@ == message),
        matcher@.phase is Cancelled ==> (env matches Err(MatcherError::Cancelled(_))),
{
}

/// The statistics that a matcher gives out are those of its parser, whatever the request. A
/// terminal matcher gives its cause instead.
pub proof fn statistics_are_the_parsers<P: TokenParser>(
    matcher: &Matcher<P>,
    stats: Result<&P::Stats, MatcherError>,
)
    requires
        call_ensures(Matcher::<P>::last_step_stats, (matcher,), stats),
    ensures
        matcher@.phase matches Phase::Normal(parser) ==> (stats matches Ok(own) && call_ensures(
            P::last_step_stats,
            (&parser,),
            own,
        )),
        matcher@.phase matches Phase::Error(message) ==> (stats matches Err(
            MatcherError::Failed(text),
        ) && text@ == message),
        matcher@.phase is Cancelled ==> (stats matches Err(MatcherError::Cancelled(_))),
{
}

/// What a matcher captured under a name is what its parser captured under that name. A terminal
/// matcher captured nothing.
pub proof fn capture_is_the_parsers<P: TokenParser>(
    matcher: &Matcher<P>,
    name: &str,
    capture: Option<&[u8]>,
)
    requires
        call_ensures(Matcher::<P>::get_capture, (matcher, name), capture),
    ensures
        matcher@.phase matches Phase::Normal(parser) ==> call_ensures(
            P::get_capture,
            (&parser, name),
            capture,
        ),
        !(matcher@.phase is Normal) ==> capture is None,
{
}

/// What a matcher captured is what its parser captured. A terminal matcher captured nothing.
pub proof fn captures_are_the_parsers<P: TokenParser>(
    matcher: &Matcher<P>,
    captures: &[(String, Vec<u8>)],
)
    requires
        call_ensures(Matcher::<P>::captures, (matcher,), captures),
    ensures
        matcher@.phase matches Phase::Normal(parser) ==> call_ensures(
            P::captures,
            (&parser,),
            captures,
        ),
        !(matcher@.phase is Normal) ==> captures@.len() == 0,
{
}

/// The warnings of a matcher are those of its parser. A terminal matcher has none.
pub proof fn warnings_are_the_parsers<P: TokenParser>(
    matcher: &mut Matcher<P>,
    warnings: Vec<String>,
)
    requires
        call_ensures(Matcher::<P>::grammar_warnings, (matcher,), warnings),
    ensures
        final(matcher)@.handle == old(matcher)@.handle,
        !(old(matcher)@.phase is Normal) ==> final(matcher)@.phase == old(matcher)@.phase
            && warnings@.len() == 0,
        old(matcher)@.phase is Normal ==> final(matcher)@.phase is Normal && exists|parser: &mut P|
            {
                &&& #[trigger] call_ensures(P::grammar_warnings, (parser,), warnings)
                &&& *parser == old(matcher)@.phase->Normal_0
                &&& *final(parser) == final(matcher)@.phase->Normal_0
            },
{
}

/// Forgetting cached masks is left to the parser. A terminal matcher has none to forget.
pub proof fn bias_cache_is_the_parsers<P: TokenParser>(matcher: &mut Matcher<P>)
    requires
        call_ensures(Matcher::<P>::invalidate_bias_cache, (matcher,), ()),
    ensures
        final(matcher)@.handle == old(matcher)@.handle,
        !(old(matcher)@.phase is Normal) ==> final(matcher)@.phase == old(matcher)@.phase,
        old(matcher)@.phase is Normal ==> final(matcher)@.phase is Normal && exists|parser: &mut P|
            {
                &&& #[trigger] call_ensures(P::invalidate_bias_cache, (parser,), ())
                &&& *parser == old(matcher)@.phase->Normal_0
                &&& *final(parser) == final(matcher)@.phase->Normal_0
            },
{
}

} // verus!
