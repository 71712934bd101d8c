//! What is kept of a conversation besides its history: who created it (the
//! owner, for command authorization) and an optional model override.
use vstd::prelude::*;

use crate::text;
use crate::text::CharSet;

verus! {

/// A conversation's metadata. Both fields are absent until set.
#[derive(Debug, PartialEq, Eq)]
pub struct ConversationMeta {
    /// The user who created the conversation; only they may change it.
    pub owner: Option<String>,
    /// A `provider/model` override; `None` uses the configured default.
    pub model: Option<String>,
}

/// The mathematical form of a [`ConversationMeta`].
pub struct MetaView {
    pub owner: Option<Seq<char>>,
    pub model: Option<Seq<char>>,
}

impl View for ConversationMeta {
    type V = MetaView;

    open spec fn view(&self) -> MetaView {
        MetaView { owner: text::opt_text(self.owner), model: text::opt_text(self.model) }
    }
}

impl Default for ConversationMeta {
    /// No owner, no override.
    fn default() -> (r: ConversationMeta)
        ensures
            r@ == (MetaView { owner: None, model: None }),
    {
        ConversationMeta { owner: None, model: None }
    }
}

impl Clone for ConversationMeta {
    fn clone(&self) -> (r: ConversationMeta)
        ensures
            r@ == self@,
    {
        ConversationMeta {
            owner: text::copy_text(&self.owner),
            model: text::copy_text(&self.model),
        }
    }
}

/// The name of a conversation's metadata file.
pub fn meta_file(id: &str) -> (r: String)
    ensures
        r@ == id@ + ".toml"@,
{
    let mut out: String = id.to_owned();
    out.append(".toml");
    out
}

/// What the file name of a conversation's transcript ends with.
pub open spec fn transcript_suffix(id: Seq<char>) -> Seq<char> {
    "_"@ + id + ".jsonl"@
}

/// Whether a file of the sessions directory is a transcript of the
/// conversation.
pub fn is_transcript(name: &str, id: &str) -> (r: bool)
    ensures
        r == text::ends(name@, transcript_suffix(id@)),
{
    let mut suffix: String = "_".to_owned();
    suffix.append(id);
    suffix.append(".jsonl");
    text::ends_with(name, suffix.as_str())
}

/// A model argument as provider and model: `provider/model` as given, or a bare
/// model of the default provider.
pub open spec fn model_parts(spec: Seq<char>, default_provider: Seq<char>) -> (
    Seq<char>,
    Seq<char>,
) {
    match text::divided(spec, CharSet::One('/')) {
        Some(parts) => (text::trimmed(parts.0), text::trimmed(parts.1)),
        None => (default_provider, text::trimmed(spec)),
    }
}

/// Split a model argument into its provider and model.
pub fn split_model_spec(spec: &str, default_provider: &str) -> (r: (String, String))
    ensures
        (r.0@, r.1@) == model_parts(spec@, default_provider@),
{
    match text::split_once(spec, CharSet::One('/')) {
        Some((provider, model)) => (
            text::trim(provider).to_owned(),
            text::trim(model).to_owned(),
        ),
        None => (default_provider.to_owned(), text::trim(spec).to_owned()),
    }
}

/// A provider and model as one argument.
pub open spec fn model_spec(parts: (Seq<char>, Seq<char>)) -> Seq<char> {
    parts.0 + "/"@ + parts.1
}

/// A provider and model as one argument.
pub fn join_model_spec(provider: &str, model: &str) -> (r: String)
    ensures
        r@ == model_spec((provider@, model@)),
{
    let mut out: String = provider.to_owned();
    out.append("/");
    out.append(model);
    out
}

/// A stored model override is read back as the provider and model it was made
/// of: whatever the argument was, splitting it, joining the parts and splitting
/// again gives the same parts. (For a bare model the default provider is stored
/// too; one that holds a `/`, or has white space around it, would not survive.)
pub proof fn law_a_stored_model_is_read_back(
    spec: Seq<char>,
    default_provider: Seq<char>,
    other_default: Seq<char>,
)
    requires
        text::divided(spec, CharSet::One('/')) is None ==> !default_provider.contains('/')
            && text::is_trim(default_provider),
    ensures
        model_parts(model_spec(model_parts(spec, default_provider)), other_default) == model_parts(
            spec,
            default_provider,
        ),
{
    reveal_strlit("/");
    let parts = model_parts(spec, default_provider);
    text::lemma_run_before(spec, CharSet::One('/'));
    text::lemma_trimmed(spec);
    if let Some(p) = text::divided(spec, CharSet::One('/')) {
        text::lemma_trimmed(p.0);
        text::lemma_trimmed(p.1);
        text::lemma_trimmed_is_part(p.0);
        assert forall|k: int| 0 <= k < parts.0.len() implies (#[trigger] parts.0[k]) != '/' by {
            let from = choose|from: int|
                0 <= from && from + parts.0.len() <= p.0.len() && parts.0 == #[trigger] p.0.subrange(
                    from,
                    from + parts.0.len(),
                );
            assert(parts.0[k] == p.0[from + k]);
            assert(p.0[from + k] == spec[from + k]);
            assert(!CharSet::One('/').contains(spec[from + k]));
        }
    } else {
        text::lemma_trim_is_trimmed(default_provider);
    }
    let stored = model_spec(parts);
    let n = parts.0.len();
    assert forall|k: int| 0 <= k < n implies !CharSet::One('/').contains(#[trigger] stored[k]) by {
        assert(stored[k] == parts.0[k]);
        if parts.0[k] == '/' {
            assert(default_provider.contains('/'));
        }
    }
    text::lemma_run_before_is(stored, CharSet::One('/'), n);
    assert(stored.subrange(0, n as int) =~= parts.0);
    assert(stored.subrange(n as int + 1, stored.len() as int) =~= parts.1);
    text::lemma_trim_is_trimmed(parts.0);
    text::lemma_trim_is_trimmed(parts.1);
}

/// Forgetting a conversation spares every other one: a transcript is taken for
/// the conversation `id` exactly when it is that one's, as long as conversation
/// ids hold no underscore.
pub proof fn law_forgetting_spares_other_conversations(
    prefix: Seq<char>,
    owner: Seq<char>,
    id: Seq<char>,
)
    requires
        !owner.contains('_'),
        !id.contains('_'),
    ensures
        text::ends(prefix + transcript_suffix(owner), transcript_suffix(id)) <==> owner == id,
{
    reveal_strlit("_");
    reveal_strlit(".jsonl");
    let own = transcript_suffix(owner);
    let sought = transcript_suffix(id);
    let name = prefix + own;
    let at = name.len() - sought.len();
    if owner == id {
        assert(name.subrange(at, name.len() as int) =~= sought);
    } else if text::ends(name, sought) {
        let tail = name.subrange(at, at + sought.len());
        assert(tail == sought);
        assert(at + sought.len() == name.len());
        if id.len() < owner.len() {
            let k = owner.len() - id.len();
            assert(tail[0] == '_');
            assert(name[at] == own[k]);
            assert(own[k] == owner[k - 1]);
            assert(owner.contains('_'));
        } else if owner.len() < id.len() {
            let k = id.len() - owner.len();
            assert(name[prefix.len() as int] == '_');
            assert(tail[k] == name[prefix.len() as int]);
            assert(sought[k] == id[k - 1]);
            assert(id.contains('_'));
        } else {
            assert forall|k: int| 0 <= k < id.len() implies id[k] == owner[k] by {
                assert(tail[k + 1] == sought[k + 1]);
                assert(sought[k + 1] == id[k]);
                assert(tail[k + 1] == name[at + k + 1]);
                assert(own[k + 1] == owner[k]);
            }
            assert(id =~= owner);
        }
    }
}

/// A model argument with a `/` names the provider before the first one and the
/// model after it; without one it names a model of the default provider. White
/// space around a name is no part of it.
pub proof fn law_what_a_model_argument_means(
    provider: Seq<char>,
    model: Seq<char>,
    default_provider: Seq<char>,
)
    requires
        !provider.contains('/'),
    ensures
        model_parts(provider + seq!['/'] + model, default_provider) == (
            text::trimmed(provider),
            text::trimmed(model),
        ),
        model_parts(provider, default_provider) == (default_provider, text::trimmed(provider)),
        model_spec((provider, model)) == provider + seq!['/'] + model,
{
    let slash = CharSet::One('/');
    let all = provider + seq!['/'] + model;
    let n = provider.len();
    assert forall|k: int| 0 <= k < n implies !slash.contains(#[trigger] all[k]) by {
        assert(all[k] == provider[k]);
        assert(provider.contains(provider[k]));
    }
    assert(all[n as int] == '/');
    text::lemma_run_before_is(all, slash, n);
    assert(all.subrange(0, n as int) =~= provider);
    assert(all.subrange(n as int + 1, all.len() as int) =~= model);
    assert forall|k: int| 0 <= k < n implies !slash.contains(#[trigger] provider[k]) by {
        assert(provider.contains(provider[k]));
    }
    text::lemma_run_before_is(provider, slash, n);
    reveal_strlit("/");
    assert("/"@ =~= seq!['/']);
}

/// Every transcript of a conversation is known as one, whatever stands before
/// its id in the file name.
pub proof fn law_a_transcript_is_known_by_its_id(stamp: Seq<char>, id: Seq<char>)
    ensures
        text::ends(stamp + seq!['_'] + id + ".jsonl"@, transcript_suffix(id)),
{
    reveal_strlit("_");
    let name = stamp + seq!['_'] + id + ".jsonl"@;
    let p = transcript_suffix(id);
    assert(name.subrange(name.len() - p.len(), name.len() as int) =~= p);
}

} // verus!
