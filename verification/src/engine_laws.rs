//! What holds of the engine's decisions taken together.
use vstd::prelude::*;

use crate::access;
use crate::access::{AccessView, LoopView, MAX_TRACKED_THREADS};
use crate::commands;
use crate::commands::{CommandOutcome, CommandSpec, CommandView, SpecView};
use crate::engine;
use crate::engine::{
    CommandStepView, Engine, ErrorView, ModelStepView, NextView, PlanView, Provider, Role,
    TurnEvent, TurnStepView,
};
use crate::config::{Config, ToolMode};
use crate::event::InboundView;
use crate::memory;
use crate::meta;
use crate::meta::MetaView;
use crate::text;
use crate::text::CharSet;
use crate::tools;
use crate::tools::Skill;

verus! {

/// The bot never answers itself, and nothing is counted for its own messages.
pub proof fn law_the_bot_never_answers_itself(
    access: AccessView,
    guard: LoopView,
    bot_id: Seq<char>,
    m: InboundView,
    known: bool,
)
    requires
        m.user == bot_id,
    ensures
        !engine::answered(access, guard, bot_id, m, known),
        engine::guard_after(access, guard, bot_id, m, known) == guard,
{
}

/// No message is answered that the access policy does not admit, and with
/// nothing listed none is answered at all.
pub proof fn law_only_admitted_messages_are_answered(
    access: AccessView,
    guard: LoopView,
    bot_id: Seq<char>,
    m: InboundView,
    known: bool,
)
    ensures
        engine::answered(access, guard, bot_id, m, known) ==> access::permits(access, m),
        !engine::answered(access::deny_all(), guard, bot_id, m, known),
{
}

/// The history of a conversation makes a difference only to the messages whose
/// history is asked for, and those are answered only when there is one.
pub proof fn law_history_matters_only_when_asked_for(
    access: AccessView,
    guard: LoopView,
    bot_id: Seq<char>,
    m: InboundView,
)
    ensures
        !engine::history_decides(access, bot_id, m) ==> {
            &&& engine::answered(access, guard, bot_id, m, true) == engine::answered(
                access,
                guard,
                bot_id,
                m,
                false,
            )
            &&& engine::guard_after(access, guard, bot_id, m, true) == engine::guard_after(
                access,
                guard,
                bot_id,
                m,
                false,
            )
        },
        engine::history_decides(access, bot_id, m) ==> !engine::answered(
            access,
            guard,
            bot_id,
            m,
            false,
        ),
{
}

/// A mention inside a thread arrives twice, as the mention and as a thread
/// reply: the reply is never answered, so it is answered once at most.
pub proof fn law_a_mention_is_not_answered_twice(
    access: AccessView,
    guard: LoopView,
    bot_id: Seq<char>,
    m: InboundView,
    known: bool,
)
    requires
        m.continuation,
        text::occurs(m.text, engine::mention(bot_id)),
    ensures
        !engine::answered(access, guard, bot_id, m, known),
{
}

/// A reply in a thread the bot is not in is dropped, whoever sends it and
/// whatever it says, a command included; nor does the loop guard count it.
pub proof fn law_an_unknown_thread_is_dropped(
    access: AccessView,
    guard: LoopView,
    bot_id: Seq<char>,
    m: InboundView,
)
    requires
        m.continuation,
    ensures
        !engine::answered(access, guard, bot_id, m, false),
        engine::guard_after(access, guard, bot_id, m, false) == guard,
{
}

/// In a thread the bot is in, an admitted person's reply is answered without
/// a mention, be it a command or not.
pub proof fn law_a_known_thread_needs_no_mention(
    access: AccessView,
    guard: LoopView,
    bot_id: Seq<char>,
    m: InboundView,
)
    requires
        m.continuation,
        m.user != bot_id,
        !m.is_bot,
        access::permits(access, m),
        !text::occurs(m.text, engine::mention(bot_id)),
    ensures
        engine::answered(access, guard, bot_id, m, true),
{
}

/// The loop cap is for bots: it neither holds back a person's message nor
/// counts it.
pub proof fn law_people_are_never_capped(
    access: AccessView,
    guard: LoopView,
    other: LoopView,
    bot_id: Seq<char>,
    m: InboundView,
    known: bool,
)
    requires
        !m.is_bot,
    ensures
        engine::answered(access, guard, bot_id, m, known) == engine::answered(
            access,
            other,
            bot_id,
            m,
            known,
        ),
        engine::guard_after(access, guard, bot_id, m, known) == guard,
{
}

/// A bot's message that passes every other gate is answered exactly when fewer
/// than `limit` earlier ones were in its thread, as long as the table tracks
/// every thread.
pub proof fn law_bot_loops_are_cut(
    access: AccessView,
    limit: u32,
    earlier: Seq<Seq<char>>,
    bot_id: Seq<char>,
    m: InboundView,
    known: bool,
)
    requires
        m.is_bot,
        engine::passes(access, bot_id, m, known),
        earlier.push(m.thread).to_set().len() <= MAX_TRACKED_THREADS,
    ensures
        ({
            let guard = access::after_turns(LoopView { limit, counts: Map::empty() }, earlier);
            &&& engine::answered(access, guard, bot_id, m, known) <==> access::turns_in(
                earlier,
                m.thread,
            ) < limit
            &&& engine::guard_after(access, guard, bot_id, m, known) == access::after_turns(
                LoopView { limit, counts: Map::empty() },
                earlier.push(m.thread),
            )
        }),
{
    access::law_the_first_turns_of_a_thread_pass(limit, earlier, m.thread);
    assert(earlier.push(m.thread).drop_last() =~= earlier);
}

/// A message with the bot's mention in front, whatever white space stands
/// around it, is read as the rest, trimmed.
pub proof fn law_a_leading_mention_is_stripped(
    space: Seq<char>,
    bot_id: Seq<char>,
    rest: Seq<char>,
)
    requires
        forall|k: int| 0 <= k < space.len() ==> text::white_space(#[trigger] space[k]),
    ensures
        engine::unmentioned(space + engine::mention(bot_id) + rest, bot_id) == text::trimmed(rest),
    decreases space.len(),
{
    reveal_strlit("<@");
    let token = engine::mention(bot_id);
    let text = space + token + rest;
    if space.len() == 0 {
        assert(text =~= token + rest);
        assert(text[0] == '<');
        assert(text.subrange(0, token.len() as int) =~= token);
        assert(text.subrange(token.len() as int, text.len() as int) =~= rest);
    } else {
        let tail = space.drop_first();
        assert forall|k: int| 0 <= k < tail.len() implies text::white_space(#[trigger] tail[k]) by {
            assert(tail[k] == space[k + 1]);
        }
        law_a_leading_mention_is_stripped(tail, bot_id, rest);
        assert(text.first() == space[0]);
        assert(text.drop_first() =~= tail + token + rest);
        lemma_begins_after_space(tail, token, rest);
    }
}

/// Leading white space is what stripping the start removes.
proof fn lemma_begins_after_space(space: Seq<char>, token: Seq<char>, rest: Seq<char>)
    requires
        forall|k: int| 0 <= k < space.len() ==> text::white_space(#[trigger] space[k]),
        token.len() > 0,
        !text::white_space(token[0]),
    ensures
        text::strip_start(space + token + rest, CharSet::Space) == token + rest,
        text::begins(token + rest, token),
    decreases space.len(),
{
    let text = space + token + rest;
    assert((token + rest).subrange(0, token.len() as int) =~= token);
    if space.len() == 0 {
        assert(text =~= token + rest);
        assert(text[0] == token[0]);
    } else {
        let tail = space.drop_first();
        assert forall|k: int| 0 <= k < tail.len() implies text::white_space(#[trigger] tail[k]) by {
            assert(tail[k] == space[k + 1]);
        }
        assert(text.drop_first() =~= tail + token + rest);
        assert(text.first() == space[0]);
        lemma_begins_after_space(tail, token, rest);
    }
}

/// Text that does not start with the bot's mention is only trimmed.
pub proof fn law_other_text_is_only_trimmed(text: Seq<char>, bot_id: Seq<char>)
    requires
        !text::begins(text::strip_start(text, CharSet::Space), engine::mention(bot_id)),
    ensures
        engine::unmentioned(text, bot_id) == text::trimmed(text),
{
}

/// A turn always has a prompt, and that prompt is no command.
pub proof fn law_a_turn_has_a_prompt(bot_id: Seq<char>, m: InboundView, specs: Seq<SpecView>)
    ensures
        engine::planned(bot_id, m, specs) matches PlanView::Turn { prompt, .. } ==> prompt.len() > 0
            && commands::invocation(prompt) is None,
{
    reveal_strlit("Greet the user briefly and offer to help.");
    reveal_strlit("!");
    let greeting = "Greet the user briefly and offer to help."@;
    text::lemma_trim_is_trimmed(greeting);
    assert(greeting.subrange(0, 1)[0] != '!');
}

/// The first user to take a turn owns the conversation: from then on nobody
/// else may change it, and recording another user changes nothing.
pub proof fn law_the_first_user_owns_the_conversation(
    meta: MetaView,
    first: Seq<char>,
    user: Seq<char>,
)
    requires
        meta.owner is None,
    ensures
        engine::may_change(meta, user),
        ({
            let owned = MetaView { owner: Some(first), model: meta.model };
            engine::may_change(owned, user) <==> user == first
        }),
{
}

/// A model set by `!model` is the one that the conversation's turns run on,
/// whatever the argument looked like. (For a bare model the default provider is
/// stored too; one that holds a `/`, or has white space around it, would not
/// survive.)
pub proof fn law_a_model_that_is_set_is_used(
    meta: MetaView,
    spec: Seq<char>,
    provider: Seq<char>,
    model: Seq<char>,
)
    requires
        text::divided(spec, CharSet::One('/')) is None ==> !provider.contains('/')
            && text::is_trim(provider),
    ensures
        ({
            let wanted = meta::model_parts(spec, provider);
            let set = MetaView { owner: meta.owner, model: Some(meta::model_spec(wanted)) };
            engine::model_of_turn(set, provider, model) == wanted
        }),
{
    meta::law_a_stored_model_is_read_back(spec, provider, provider);
}

/// The text of a turn after these events.
pub open spec fn text_after(events: Seq<TurnEvent>) -> Seq<char>
    decreases events.len(),
{
    if events.len() == 0 {
        seq![]
    } else {
        engine::streamed(text_after(events.drop_last()), events.last())
    }
}

/// The pieces of text among the events.
pub open spec fn deltas(events: Seq<TurnEvent>) -> Seq<Seq<char>>
    decreases events.len(),
{
    if events.len() == 0 {
        seq![]
    } else {
        match events.last() {
            TurnEvent::Text(delta) => deltas(events.drop_last()).push(delta@),
            _ => deltas(events.drop_last()),
        }
    }
}

/// The reply is what was streamed, in order and nothing else; a turn that
/// streamed only white space still gets a visible reply.
pub proof fn law_the_reply_is_what_was_streamed(events: Seq<TurnEvent>)
    ensures
        text_after(events) == text::concat(deltas(events)),
        text::trimmed(engine::reply_of(text_after(events))).len() > 0,
        text::trimmed(text_after(events)).len() > 0 ==> engine::reply_of(text_after(events))
            == text_after(events),
    decreases events.len(),
{
    reveal_strlit("(the model returned no text)");
    text::lemma_trim_is_trimmed("(the model returned no text)"@);
    if events.len() > 0 {
        law_the_reply_is_what_was_streamed(events.drop_last());
        if let TurnEvent::Text(delta) = events.last() {
            text::lemma_concat_push(deltas(events.drop_last()), delta@);
        }
    }
}

/// Whom the bot answers among those who are not itself. A person who addressed
/// it is answered exactly when the policy admits them. A bot that did is
/// answered exactly when the policy admits it and its thread has a turn left,
/// and its turn is counted exactly when the policy admits it.
pub proof fn law_who_is_answered(
    access: AccessView,
    guard: LoopView,
    bot_id: Seq<char>,
    m: InboundView,
    known: bool,
)
    requires
        m.user != bot_id,
        !m.continuation,
    ensures
        !m.is_bot ==> (engine::answered(access, guard, bot_id, m, known) <==> access::permits(
            access,
            m,
        )),
        m.is_bot ==> (engine::answered(access, guard, bot_id, m, known) <==> access::permits(
            access,
            m,
        ) && access::within_limit(guard, m.thread)),
        m.is_bot && access::permits(access, m) ==> engine::guard_after(
            access,
            guard,
            bot_id,
            m,
            known,
        ) == access::recorded(guard, m.thread),
        !access::permits(access, m) || !m.is_bot ==> engine::guard_after(
            access,
            guard,
            bot_id,
            m,
            known,
        ) == guard,
{
}

/// In a thread that the bot is in, a reply that does not mention it is answered
/// just as if it had been addressed to the bot: nothing but the policy and the
/// cap on bots decides, and the same turn is counted.
pub proof fn law_a_known_thread_is_followed(
    access: AccessView,
    guard: LoopView,
    bot_id: Seq<char>,
    m: InboundView,
)
    requires
        m.continuation,
        !text::occurs(m.text, engine::mention(bot_id)),
    ensures
        ({
            let addressed = InboundView { continuation: false, ..m };
            &&& engine::answered(access, guard, bot_id, m, true) == engine::answered(
                access,
                guard,
                bot_id,
                addressed,
                true,
            )
            &&& engine::guard_after(access, guard, bot_id, m, true) == engine::guard_after(
                access,
                guard,
                bot_id,
                addressed,
                true,
            )
        }),
{
}

/// Whether a message is answered does not depend on what it says, unless it is
/// a reply in a thread.
pub proof fn law_what_is_said_does_not_decide(
    access: AccessView,
    guard: LoopView,
    bot_id: Seq<char>,
    m: InboundView,
    text: Seq<char>,
    known: bool,
)
    requires
        !m.continuation,
    ensures
        engine::answered(access, guard, bot_id, m, known) == engine::answered(
            access,
            guard,
            bot_id,
            InboundView { text, ..m },
            known,
        ),
{
}

/// The bot's mention is its id between `<@` and `>`.
pub proof fn law_what_a_mention_is(bot_id: Seq<char>)
    ensures
        engine::mention(bot_id) == seq!['<', '@'] + bot_id + seq!['>'],
{
    reveal_strlit("<@");
    reveal_strlit(">");
    assert("<@"@ =~= seq!['<', '@']);
    assert(">"@ =~= seq!['>']);
}

/// What a message asks for, once the mention in front is off: the command it is,
/// by its name and with its argument, or else a turn in its own conversation,
/// with what it says as the prompt.
pub proof fn law_what_a_message_asks_for(
    bot_id: Seq<char>,
    m: InboundView,
    specs: Seq<SpecView>,
    name: Seq<char>,
    arg: Seq<char>,
)
    ensures
        commands::invocation(engine::unmentioned(m.text, bot_id)) == Some((name, arg))
            ==> engine::planned(bot_id, m, specs) == PlanView::Command(
            commands::meant(name, arg, specs),
        ),
        commands::invocation(engine::unmentioned(m.text, bot_id)) is None ==> (engine::planned(
            bot_id,
            m,
            specs,
        ) matches PlanView::Turn { id, prompt } && id == memory::conversation(m) && (
        engine::unmentioned(m.text, bot_id).len() > 0 ==> prompt == engine::unmentioned(
            m.text,
            bot_id,
        ))),
{
}

/// A message that says something, other than a command, after the bot's mention
/// is run as just that, whatever white space stands around it; without the
/// mention it is run as it stands.
pub proof fn law_a_message_is_run_as_it_is(
    bot_id: Seq<char>,
    m: InboundView,
    specs: Seq<SpecView>,
    before: Seq<char>,
    message: Seq<char>,
    after: Seq<char>,
)
    requires
        forall|k: int| 0 <= k < before.len() ==> text::white_space(#[trigger] before[k]),
        forall|k: int| 0 <= k < after.len() ==> text::white_space(#[trigger] after[k]),
        message.len() > 0,
        text::is_trim(message),
        message[0] != '!',
        m.text == engine::mention(bot_id) + (before + message + after),
    ensures
        engine::planned(bot_id, m, specs) == (PlanView::Turn {
            id: memory::conversation(m),
            prompt: message,
        }),
{
    let rest = before + message + after;
    law_a_leading_mention_is_stripped(seq![], bot_id, rest);
    assert(Seq::<char>::empty() + engine::mention(bot_id) + rest =~= m.text);
    text::law_what_trimming_leaves(before, message, after);
    text::lemma_trim_is_trimmed(message);
    reveal_strlit("!");
    assert(message.subrange(0, 1)[0] == message[0]);
}

/// Without tools the system prompt stands in place of the default body, and
/// nothing is appended. With tools the default body stays, and the skills notice
/// and the system prompt are appended, in that order, each if there is one.
pub proof fn law_what_goes_into_the_prompt(system: Option<Seq<char>>, notice: Option<Seq<char>>)
    ensures
        engine::prompt_parts(false, system, notice).custom == system,
        engine::prompt_parts(false, system, notice).append is None,
        engine::prompt_parts(true, system, notice).custom is None,
        engine::prompt_parts(true, system, notice).append == match (notice, system) {
            (Some(n), Some(s)) => Some(seq![n, s]),
            (Some(n), None) => Some(seq![n]),
            (None, Some(s)) => Some(seq![s]),
            (None, None) => None,
        },
{
    if let (Some(n), Some(s)) = (notice, system) {
        assert(seq![n].push(s) =~= seq![n, s]);
    }
    if let (None, Some(s)) = (notice, system) {
        assert(Seq::<Seq<char>>::empty().push(s) =~= seq![s]);
    }
}

/// A variable is set when it holds something other than white space.
pub proof fn law_what_is_set(value: Seq<char>)
    ensures
        engine::is_set(Some(value)) <==> exists|k: int|
            0 <= k < value.len() && !text::white_space(#[trigger] value[k]),
        !engine::is_set(None),
{
    if exists|k: int| 0 <= k < value.len() && !text::white_space(#[trigger] value[k]) {
        let k = choose|k: int| 0 <= k < value.len() && !text::white_space(#[trigger] value[k]);
        lemma_something_is_left(value, k);
    } else {
        let none = Seq::<char>::empty();
        assert(value + none + none =~= value);
        text::law_what_trimming_leaves(value, none, none);
    }
}

proof fn lemma_something_is_left(value: Seq<char>, k: int)
    requires
        0 <= k < value.len(),
        !text::white_space(value[k]),
    ensures
        text::trimmed(value).len() > 0,
    decreases value.len(),
{
    if text::white_space(value[0]) {
        let rest = value.drop_first();
        assert(rest[k - 1] == value[k]);
        lemma_something_is_left(rest, k - 1);
    } else {
        lemma_end_is_left(value, k);
    }
}

proof fn lemma_end_is_left(value: Seq<char>, k: int)
    requires
        0 <= k < value.len(),
        !text::white_space(value[k]),
    ensures
        text::strip_end(value, CharSet::Space).len() > 0,
    decreases value.len(),
{
    if text::white_space(value.last()) {
        lemma_end_is_left(value.drop_last(), k);
    }
}

/// The providers that are listed are those with a key, in order; so are their
/// models, each as `provider/model`, all of a provider's before the next one's.
pub proof fn law_the_active_providers_are_listed(a: Seq<Provider>, p: Provider)
    ensures
        engine::active_ids(Seq::<Provider>::empty()) == Seq::<Seq<char>>::empty(),
        engine::active_models(Seq::<Provider>::empty()) == Seq::<Seq<char>>::empty(),
        !engine::is_set(text::opt_text(p.key)) ==> engine::active_ids(a.push(p))
            == engine::active_ids(a) && engine::active_models(a.push(p)) == engine::active_models(
            a,
        ),
        engine::is_set(text::opt_text(p.key)) ==> {
            &&& engine::active_ids(a.push(p)) == engine::active_ids(a).push(p.id@)
            &&& engine::active_models(a.push(p)) == engine::active_models(a) + Seq::new(
                p.models@.len(),
                |k: int| p.id@ + seq!['/'] + p.models@[k]@,
            )
        },
{
    assert(a.push(p).drop_last() =~= a);
    reveal_strlit("/");
    assert("/"@ =~= seq!['/']);
    assert(engine::provider_models(p) =~= Seq::new(
        p.models@.len(),
        |k: int| p.id@ + seq!['/'] + p.models@[k]@,
    ));
}

/// A configured model is the one to run on, and the catalog's default only
/// stands in for a missing one.
pub proof fn law_the_configured_model_comes_first(
    model: Seq<char>,
    catalog_default: Option<Seq<char>>,
)
    ensures
        engine::chosen_model(Some(model), catalog_default) == Some(model),
        engine::chosen_model(None, catalog_default) == catalog_default,
{
}

/// The engine starts exactly when there is a model to run on, the provider's key
/// variable is known and set, and the tool mode is built in. What keeps it from
/// starting names the provider, and the variable that should be set.
pub proof fn law_when_the_engine_starts(
    config: Config,
    catalog_default: Option<Seq<char>>,
    var: Option<Seq<char>>,
    value: Option<Seq<char>>,
    has_sandbox: bool,
)
    ensures
        ({
            let error = engine::startup_error(config, catalog_default, var, value, has_sandbox);
            &&& error is None <==> {
                &&& config.agent.model is Some || catalog_default is Some
                &&& var is Some
                &&& engine::is_set(value)
                &&& config.agent.tools == ToolMode::Sandbox ==> has_sandbox
            }
            &&& error matches Some(e) ==> match e {
                ErrorView::NoModel { provider } => provider == config.agent.provider@
                    && config.agent.model is None && catalog_default is None,
                ErrorView::UnknownProvider { provider } => provider == config.agent.provider@
                    && var is None,
                ErrorView::MissingKey { var: name, provider } => provider
                    == config.agent.provider@ && var == Some(name) && !engine::is_set(value),
                ErrorView::NoSandbox => config.agent.tools == ToolMode::Sandbox && !has_sandbox,
                ErrorView::TurnFailed { .. } => false,
            }
        }),
{
}

/// A provider's key is in order exactly when its variable is known and set.
pub proof fn law_when_a_key_is_in_order(
    var: Seq<char>,
    value: Option<Seq<char>>,
    provider: Seq<char>,
)
    ensures
        engine::key_error(None, value, provider) == Some(ErrorView::UnknownProvider { provider }),
        engine::is_set(value) ==> engine::key_error(Some(var), value, provider) is None,
        !engine::is_set(value) ==> engine::key_error(Some(var), value, provider) == Some(
            ErrorView::MissingKey { var, provider },
        ),
{
}

/// A conversation without an override runs on the configured provider and model,
/// and one with an override on what that names.
pub proof fn law_what_a_turn_runs_on(
    meta: MetaView,
    spec: Seq<char>,
    provider: Seq<char>,
    model: Seq<char>,
)
    ensures
        meta.model is None ==> engine::model_of_turn(meta, provider, model) == (provider, model),
        meta.model == Some(spec) ==> engine::model_of_turn(meta, provider, model)
            == meta::model_parts(spec, provider),
{
}

/// `!model` shows the override, or the configured default as such, in backticks.
pub proof fn law_the_model_is_shown(meta: MetaView, provider: Seq<char>, model: Seq<char>)
    ensures
        meta.model matches Some(spec) ==> text::occurs(
            engine::model_shown(meta, provider, model),
            seq!['`'] + spec + seq!['`'],
        ),
        meta.model is None ==> text::occurs(
            engine::model_shown(meta, provider, model),
            seq!['`'] + (provider + seq!['/'] + model) + " (default)`"@,
        ),
{
    reveal_strlit("Model for this conversation: `");
    reveal_strlit("`.\nSet it with `!model provider/model`.");
    reveal_strlit(" (default)");
    reveal_strlit(" (default)`");
    reveal_strlit("/");
    assert("/"@ =~= seq!['/']);
    let t = engine::model_shown(meta, provider, model);
    let p = match meta.model {
        Some(spec) => seq!['`'] + spec + seq!['`'],
        None => seq!['`'] + (provider + seq!['/'] + model) + " (default)`"@,
    };
    assert(t.subrange(29, 29 + p.len() as int) =~= p);
    assert(text::stands_at(t, p, 29));
}

/// Who may change a conversation: its owner alone, and anyone while it has none.
/// A denial mentions the owner.
pub proof fn law_who_may_change_a_conversation(
    meta: MetaView,
    owner: Seq<char>,
    user: Seq<char>,
)
    ensures
        meta.owner == Some(owner) ==> (engine::may_change(meta, user) <==> user == owner),
        meta.owner is None ==> engine::may_change(meta, user),
        text::occurs(engine::denial_text(owner), seq!['<', '@'] + owner + seq!['>']),
{
    reveal_strlit("Only <@");
    reveal_strlit(">, who started this conversation, can do that.");
    let t = engine::denial_text(owner);
    let p = seq!['<', '@'] + owner + seq!['>'];
    assert(t.subrange(5, 5 + p.len() as int) =~= p);
    assert(text::stands_at(t, p, 5));
}

/// What the model streamed is the reply, as it was streamed, unless it is blank:
/// then the reply is something that is not.
pub proof fn law_a_reply_is_never_blank(text: Seq<char>)
    ensures
        text::trimmed(text).len() > 0 ==> engine::reply_of(text) == text,
        text::trimmed(engine::reply_of(text)).len() > 0,
{
    if text::trimmed(text).len() == 0 {
        reveal_strlit("(the model returned no text)");
        text::lemma_trim_is_trimmed("(the model returned no text)"@);
    }
}

/// Recording a turn makes its user the owner of a conversation that has none,
/// never of one that has; it never touches the model, and recording another user
/// after that changes nothing.
pub proof fn law_the_owner_stays(meta: MetaView, first: Seq<char>, second: Seq<char>)
    ensures
        meta.owner is None ==> engine::owned(meta, first).owner == Some(first),
        meta.owner is Some ==> engine::owned(meta, first) == meta,
        engine::owned(meta, first).model == meta.model,
        engine::owned(engine::owned(meta, first), second) == engine::owned(meta, first),
{
}

/// A model of the catalog that `!model` names is what the conversation runs on
/// from then on; one that is not in it changes nothing. Neither touches the
/// owner, and the reply names the model.
pub proof fn law_setting_a_model_sets_just_that(
    meta: MetaView,
    provider: Seq<char>,
    model: Seq<char>,
    other: (Seq<char>, Seq<char>),
)
    requires
        !provider.contains('/'),
        text::is_trim(provider),
        text::is_trim(model),
    ensures
        engine::model_of_turn(
            engine::with_model(meta, provider, model, true),
            other.0,
            other.1,
        ) == (provider, model),
        engine::with_model(meta, provider, model, true).owner == meta.owner,
        engine::with_model(meta, provider, model, false) == meta,
        text::occurs(
            engine::model_reply(provider, model, true),
            seq!['`'] + (provider + seq!['/'] + model) + seq!['`'],
        ),
        text::occurs(
            engine::model_reply(provider, model, false),
            seq!['`'] + (provider + seq!['/'] + model) + seq!['`'],
        ),
        engine::model_reply(provider, model, true) != engine::model_reply(provider, model, false),
{
    meta::law_what_a_model_argument_means(provider, model, other.0);
    text::lemma_trim_is_trimmed(provider);
    text::lemma_trim_is_trimmed(model);
    reveal_strlit("Model set to `");
    reveal_strlit("` for this conversation.");
    reveal_strlit("Unknown model `");
    reveal_strlit("` — see `!models`.");
    let p = seq!['`'] + (provider + seq!['/'] + model) + seq!['`'];
    let yes = engine::model_reply(provider, model, true);
    let no = engine::model_reply(provider, model, false);
    assert(yes.subrange(13, 13 + p.len() as int) =~= p);
    assert(text::stands_at(yes, p, 13));
    assert(no.subrange(14, 14 + p.len() as int) =~= p);
    assert(text::stands_at(no, p, 14));
    assert(yes[0] == 'M' && no[0] == 'U');
}

/// Only the owner, or anyone while there is none, gets anything from `!model`
/// and `!forget` but a denial that mentions the owner. For them `!model` looks
/// up what its argument names, or shows the model without one, and `!forget`
/// forgets.
pub proof fn law_session_commands_are_the_owners(
    meta: MetaView,
    owner: Seq<char>,
    user: Seq<char>,
    spec: Seq<char>,
    provider: Seq<char>,
    model: Seq<char>,
)
    ensures
        meta.owner == Some(owner) && user != owner ==> {
            &&& engine::model_step(meta, user, Some(spec), provider, model) == ModelStepView::Reply(
                engine::denial_text(owner),
            )
            &&& engine::model_step(meta, user, None, provider, model) == ModelStepView::Reply(
                engine::denial_text(owner),
            )
            &&& engine::forget_step(meta, user) == (engine::denial_text(owner), false)
        },
        meta.owner is None || meta.owner == Some(user) ==> {
            &&& engine::model_step(meta, user, Some(spec), provider, model)
                == (ModelStepView::LookUp {
                provider: meta::model_parts(spec, provider).0,
                model: meta::model_parts(spec, provider).1,
            })
            &&& engine::model_step(meta, user, None, provider, model) == ModelStepView::Reply(
                engine::model_shown(meta, provider, model),
            )
            &&& engine::forget_step(meta, user).1
        },
{
}

/// A turn works where its tools do: without any where the bot runs, on the host
/// in the channel's workspace, in a sandbox in the container's own directory.
pub proof fn law_where_a_turn_works<P>(workspace: P, here: P, guest: P)
    ensures
        engine::working_dir(ToolMode::TextOnly, Some(workspace), here, guest) == here,
        engine::working_dir(ToolMode::TextOnly, None, here, guest) == here,
        engine::working_dir(ToolMode::Host, Some(workspace), here, guest) == workspace,
        engine::working_dir(ToolMode::Sandbox, Some(workspace), here, guest) == guest,
        engine::working_dir(ToolMode::Sandbox, None, here, guest) == guest,
{
}

/// A turn is remembered as it was: what the user said, then what the bot
/// replied, and nothing else.
pub proof fn law_a_turn_is_remembered(prompt: Seq<char>, reply: Seq<char>)
    ensures
        engine::entries_of(prompt, reply).len() == 2,
        engine::entries_of(prompt, reply)[0] == (Role::User, prompt),
        engine::entries_of(prompt, reply)[1] == (Role::Assistant, reply),
{
}

/// A listing is answered with what the engine has: all its skills, its
/// registered commands and its help rows; every active provider and model. A
/// registered command is run, `!model` and `!forget` go on to the conversation,
/// each with its own argument; an unknown command is named.
pub proof fn law_a_command_is_carried_out(
    e: Engine,
    providers: Seq<Provider>,
    index: int,
    arg: Seq<char>,
    given: Option<Seq<char>>,
)
    ensures
        engine::command_step(e, CommandView::Registered { index, arg }, providers)
            == (CommandStepView::Run { index, arg }),
        engine::command_step(e, CommandView::Model(given), providers) == CommandStepView::Model(
            given,
        ),
        engine::command_step(e, CommandView::Forget, providers) is Forget,
        engine::command_step(e, CommandView::Unknown(arg), providers) == CommandStepView::Reply(
            commands::unknown_text(arg),
        ),
        engine::command_step(e, CommandView::Skills, providers) == CommandStepView::Reply(
            commands::skills_text(tools::skills_view(e.skills@)),
        ),
        engine::command_step(e, CommandView::Help, providers) == CommandStepView::Reply(
            commands::help_text(
                text::texts(e.help.hide@),
                commands::specs_view(e.registered@),
                e.help.extra@,
            ),
        ),
        engine::command_step(e, CommandView::Providers, providers) == CommandStepView::Reply(
            commands::providers_text(engine::active_ids(providers)),
        ),
        engine::command_step(e, CommandView::Models, providers) == CommandStepView::Reply(
            commands::models_text(engine::active_models(providers)),
        ),
{
}

/// The message of an error says what is wrong: the provider as it is quoted, the
/// variable that should be set, or what the model reported.
pub proof fn law_an_error_says_what_is_wrong(e: ErrorView)
    ensures
        match e {
            ErrorView::NoModel { provider } => text::occurs(
                engine::error_text(e),
                text::debug_text(provider),
            ),
            ErrorView::UnknownProvider { provider } => text::ends(
                engine::error_text(e),
                text::debug_text(provider),
            ),
            ErrorView::MissingKey { var, provider } => text::begins(engine::error_text(e), var)
                && text::occurs(engine::error_text(e), text::debug_text(provider)),
            ErrorView::NoSandbox => true,
            ErrorView::TurnFailed { message } => text::ends(engine::error_text(e), message),
        },
{
    let t = engine::error_text(e);
    match e {
        ErrorView::NoModel { provider } => {
            let p = text::debug_text(provider);
            let at = "no model for provider "@.len() as int;
            assert(t.subrange(at, at + p.len()) =~= p);
            assert(text::stands_at(t, p, at));
        },
        ErrorView::UnknownProvider { provider } => {
            let p = text::debug_text(provider);
            assert(t.subrange(t.len() - p.len(), t.len() as int) =~= p);
        },
        ErrorView::MissingKey { var, provider } => {
            let p = text::debug_text(provider);
            assert(t.subrange(0, var.len() as int) =~= var);
            let at = var.len() as int + " must be set for provider "@.len();
            assert(t.subrange(at, at + p.len()) =~= p);
            assert(text::stands_at(t, p, at));
        },
        ErrorView::TurnFailed { message } => {
            assert(t.subrange(t.len() - message.len(), t.len() as int) =~= message);
        },
        _ => {},
    }
}

/// What a registered command replies is posted as it is, and what it asks to be
/// run is run as it is, as long as it says anything.
pub proof fn law_an_outcome_is_followed(outcome: CommandOutcome)
    ensures
        outcome matches CommandOutcome::Reply(reply) ==> engine::next_of(outcome) == NextView::Post(
            reply@,
        ),
        outcome matches CommandOutcome::Prompt(prompt) ==> (engine::next_of(
            outcome,
        ) matches NextView::Turn(p) && p.len() > 0 && (prompt@.len() > 0 ==> p == prompt@)),
{
    reveal_strlit("Greet the user briefly and offer to help.");
}

/// A turn shows what is added to its reply, ends when the model is done, and
/// fails with what the model reported; anything else it passes over. What was
/// streamed before stays, and only text is added to it, at the end.
pub proof fn law_what_an_event_does(text: Seq<char>, event: TurnEvent)
    ensures
        engine::turn_step(event) is Show <==> event is Text,
        engine::turn_step(event) is Finish <==> event is Done,
        engine::turn_step(event) is Continue <==> event is Other,
        event matches TurnEvent::Error(message) ==> engine::turn_step(event) == TurnStepView::Fail(
            ErrorView::TurnFailed { message: message@ },
        ),
        event matches TurnEvent::Text(delta) ==> engine::streamed(text, event) == text + delta@,
        !(event is Text) ==> engine::streamed(text, event) == text,
{
}

/// The engine works with what the config says: its provider, its prompt, its
/// directories (the facts beside the transcripts unless they have one of their
/// own), its tool mode and its help; with all the skills, and the notice that
/// lists them; and with all the registered commands.
pub proof fn law_the_engine_is_what_the_config_says(
    config: Config,
    skills: Seq<Skill>,
    registered: Seq<CommandSpec>,
    model: Seq<char>,
)
    ensures
        ({
            let e = engine::engine_of(config, skills, registered, model);
            &&& e.provider == config.agent.provider@
            &&& e.model == model
            &&& config.agent.system_prompt is None <==> e.system_prompt is None
            &&& config.agent.system_prompt matches Some(prompt) ==> e.system_prompt == Some(
                prompt@,
            )
            &&& e.data_dir == config.storage.dir@
            &&& config.storage.memory_dir is None ==> e.memory_dir == config.storage.dir@
            &&& config.storage.memory_dir matches Some(dir) ==> e.memory_dir == dir@
            &&& e.tools == config.agent.tools
            &&& e.skills == skills
            &&& e.skills_notice == tools::notice(tools::skills_view(skills))
            &&& e.help == config.help
            &&& e.registered == registered
        }),
{
}

} // verus!
