//! What holds of the `!`-commands: how one is read, which one it is, and what
//! the listings list.
use vstd::prelude::*;

use crate::commands;
use crate::commands::{CommandView, SpecView};
use crate::config::HelpRow;
use crate::text;
use crate::text::CharSet;
use crate::text_laws;
use crate::tools::SkillView;

verus! {

/// Whether all of it is white space.
pub open spec fn blank(s: Seq<char>) -> bool {
    forall|k: int| 0 <= k < s.len() ==> text::white_space(#[trigger] s[k])
}

/// Whether it is a word: something, without white space in it.
pub open spec fn is_word(s: Seq<char>) -> bool {
    s.len() > 0 && forall|k: int| 0 <= k < s.len() ==> !text::white_space(#[trigger] s[k])
}

/// A command is read as its name and its argument, whatever white space stands
/// before it, between the two and after it. Without an argument it is empty.
pub proof fn law_a_command_is_read(
    before: Seq<char>,
    name: Seq<char>,
    gap: Seq<char>,
    arg: Seq<char>,
    after: Seq<char>,
)
    requires
        blank(before),
        is_word(name),
        gap.len() > 0,
        blank(gap),
        arg.len() > 0,
        text::is_trim(arg),
        blank(after),
    ensures
        commands::invocation(before + ("!"@ + name + gap + arg) + after) == Some((name, arg)),
        commands::invocation(before + ("!"@ + name) + after) == Some((name, Seq::<char>::empty())),
{
    reveal_strlit("!");
    let core = "!"@ + name + gap + arg;
    assert(core[0] == '!');
    assert(core.last() == arg.last());
    text::law_what_trimming_leaves(before, core, after);
    let rest = name + gap + arg;
    assert(core =~= "!"@ + rest);
    text_laws::law_what_stands_where(seq![], "!"@, rest);
    let more = gap.subrange(1, gap.len() as int);
    assert(rest =~= name + seq![gap[0]] + (more + arg));
    assert(text::white_space(gap[0]));
    assert forall|k: int| 0 <= k < name.len() implies !CharSet::Space.contains(
        #[trigger] name[k],
    ) by {
        assert(!text::white_space(name[k]));
    }
    text_laws::law_what_dividing_gives(name, gap[0], more + arg, CharSet::Space);
    assert forall|k: int| 0 <= k < more.len() implies text::white_space(#[trigger] more[k]) by {
        assert(more[k] == gap[k + 1]);
    }
    text::law_what_trimming_leaves(more, arg, seq![]);
    assert(more + arg + Seq::<char>::empty() =~= more + arg);
    let bare = "!"@ + name;
    assert(!text::white_space(name[name.len() - 1]));
    assert(bare.last() == name.last());
    text::law_what_trimming_leaves(before, bare, after);
    text_laws::law_what_stands_where(seq![], "!"@, name);
    assert(text::trimmed(Seq::<char>::empty()) =~= seq![]);
}

/// A `!` without a name right behind it is no command, whatever follows.
pub proof fn law_a_command_has_a_name(
    before: Seq<char>,
    gap: Seq<char>,
    arg: Seq<char>,
    after: Seq<char>,
)
    requires
        blank(before),
        gap.len() > 0,
        blank(gap),
        arg.len() > 0,
        text::is_trim(arg),
        blank(after),
    ensures
        commands::invocation(before + ("!"@ + gap + arg) + after) is None,
        commands::invocation(before + "!"@ + after) is None,
{
    reveal_strlit("!");
    let core = "!"@ + gap + arg;
    assert(core[0] == '!');
    assert(core.last() == arg.last());
    text::law_what_trimming_leaves(before, core, after);
    let rest = gap + arg;
    assert(core =~= "!"@ + rest);
    text_laws::law_what_stands_where(seq![], "!"@, rest);
    let more = gap.subrange(1, gap.len() as int);
    assert(rest =~= Seq::<char>::empty() + seq![gap[0]] + (more + arg));
    assert(text::white_space(gap[0]));
    text_laws::law_what_dividing_gives(seq![], gap[0], more + arg, CharSet::Space);
    text::law_what_trimming_leaves(before, "!"@, after);
    let none = Seq::<char>::empty();
    text_laws::law_what_stands_where(seq![], "!"@, none);
    assert("!"@ + none =~= "!"@);
    text_laws::law_what_dividing_gives(none, ' ', none, CharSet::Space);
}

/// Each built-in answers to its own name and to no other; `!model` is handed
/// its argument, if it has one. Every other name is the first registered
/// command's that has it, and unknown when none does.
pub proof fn law_what_a_name_means(name: Seq<char>, arg: Seq<char>, specs: Seq<SpecView>)
    ensures
        commands::meant(name, arg, specs) is Providers <==> name == "providers"@,
        commands::meant(name, arg, specs) is Models <==> name == "models"@,
        commands::meant(name, arg, specs) is Skills <==> name == "skills"@,
        commands::meant(name, arg, specs) is Model <==> name == "model"@,
        commands::meant(name, arg, specs) is Forget <==> name == "forget"@,
        commands::meant(name, arg, specs) is Help <==> name == "help"@,
        commands::meant(name, arg, specs) matches CommandView::Model(given) ==> if arg.len() == 0 {
            given is None
        } else {
            given == Some(arg)
        },
        ({
            let own = name == "providers"@ || name == "models"@ || name == "skills"@ || name
                == "model"@ || name == "forget"@ || name == "help"@;
            let known = exists|k: int| 0 <= k < specs.len() && (#[trigger] specs[k]).name == name;
            &&& commands::meant(name, arg, specs) is Registered <==> !own && known
            &&& commands::meant(name, arg, specs) is Unknown <==> !own && !known
        }),
        commands::meant(name, arg, specs) matches CommandView::Registered { arg: given, .. }
            ==> given == arg,
        commands::meant(name, arg, specs) matches CommandView::Unknown(given) ==> given == name,
{
    reveal_strlit("providers");
    reveal_strlit("models");
    reveal_strlit("skills");
    reveal_strlit("model");
    reveal_strlit("forget");
    reveal_strlit("help");
    assert("providers"@.len() == 9 && "models"@.len() == 6 && "skills"@.len() == 6
        && "model"@.len() == 5 && "forget"@.len() == 6 && "help"@.len() == 4);
    assert("models"@[0] == 'm' && "skills"@[0] == 's' && "forget"@[0] == 'f');
    commands::law_built_ins_come_first(name, arg, specs);
}

/// The items of a list, one per line.
pub open spec fn on_lines(items: Seq<Seq<char>>) -> Seq<char> {
    text::joined(items.map_values(|item: Seq<char>| "- "@ + item), "\n"@)
}

proof fn lemma_bullets(items: Seq<Seq<char>>)
    requires
        items.len() > 0,
    ensures
        commands::bullets(items) == on_lines(items) + "\n"@,
    decreases items.len(),
{
    let rows = items.map_values(|item: Seq<char>| "- "@ + item + "\n"@);
    let bare = items.map_values(|item: Seq<char>| "- "@ + item);
    let head = items.drop_last();
    assert(rows.drop_last() =~= head.map_values(|item: Seq<char>| "- "@ + item + "\n"@));
    assert(bare.drop_last() =~= head.map_values(|item: Seq<char>| "- "@ + item));
    if items.len() == 1 {
        assert(text::concat(rows.drop_last()) =~= seq![]);
        assert(commands::bullets(items) =~= on_lines(items) + "\n"@);
    } else {
        lemma_bullets(head);
        assert(commands::bullets(items) =~= on_lines(items) + "\n"@);
    }
}

proof fn lemma_titled(title: Seq<char>, items: Seq<Seq<char>>)
    requires
        items.len() > 0,
        items.last().len() > 0,
        !text::white_space(items.last().last()),
    ensures
        commands::titled(title, items) == title + on_lines(items),
{
    reveal_strlit("\n");
    lemma_bullets(items);
    let body = title + on_lines(items);
    let bare = items.map_values(|item: Seq<char>| "- "@ + item);
    assert(on_lines(items).last() == items.last().last()) by {
        assert(bare.last() == "- "@ + items.last());
    }
    assert(body.last() == items.last().last());
    assert(title + commands::bullets(items) =~= body + "\n"@);
    text::lemma_strip_end_of(body, "\n"@, CharSet::Space);
}

/// `!providers` and `!models` list every item they were given, in order, one
/// per line under their title; with none they say so.
pub proof fn law_a_listing_lists_every_item(items: Seq<Seq<char>>)
    requires
        items.len() > 0,
        items.last().len() > 0,
        !text::white_space(items.last().last()),
    ensures
        commands::providers_text(items) == "**Active providers:**\n"@ + on_lines(items),
        commands::models_text(items) == "**Available models:**\n"@ + on_lines(items),
{
    lemma_titled("**Active providers:**\n"@, items);
    lemma_titled("**Available models:**\n"@, items);
}

/// A model listing names each model after its provider, with a slash between
/// them, in the order given.
pub proof fn law_a_model_is_listed_after_its_provider(
    rows: Seq<(&str, &str)>,
    provider: &str,
    model: &str,
)
    ensures
        commands::model_items(rows.push((provider, model))) == commands::model_items(rows).push(
            provider@ + seq!['/'] + model@,
        ),
        commands::model_items(Seq::<(&str, &str)>::empty()) == Seq::<Seq<char>>::empty(),
{
    reveal_strlit("/");
    assert("/"@ =~= seq!['/']);
    assert(commands::model_items(rows.push((provider, model))) =~= commands::model_items(rows).push(
        provider@ + seq!['/'] + model@,
    ));
    assert(commands::model_items(Seq::<(&str, &str)>::empty()) =~= Seq::<Seq<char>>::empty());
}

/// A row of `!help`.
pub open spec fn shown_row(command: Seq<char>, description: Seq<char>) -> Seq<char> {
    "\n- `"@ + command + "` — "@ + description
}

/// `!help` has one more row for one more registered command, with its name, its
/// arguments and what it does, and one more for one more row of the config; the
/// built-ins come first, under the title.
pub proof fn law_help_has_a_row_for_each(
    hide: Seq<Seq<char>>,
    specs: Seq<SpecView>,
    extra: Seq<HelpRow>,
    s: SpecView,
    row: HelpRow,
)
    ensures
        commands::help_text(hide, specs, extra.push(row)) == commands::help_text(
            hide,
            specs,
            extra,
        ) + shown_row(row.command@, row.description@),
        commands::help_text(hide, specs.push(s), seq![]) == commands::help_text(
            hide,
            specs,
            seq![],
        ) + shown_row(
            match s.args {
                Some(args) => "!"@ + s.name + " "@ + args,
                None => "!"@ + s.name,
            },
            s.description,
        ),
        commands::help_text(hide, seq![], seq![]) == "**Commands:**"@ + text::concat(
            commands::listed(commands::builtins(), hide),
        ),
{
    let rows = commands::extra_rows(extra);
    assert(commands::extra_rows(extra.push(row)) =~= rows.push(
        commands::help_row(row.command@, row.description@),
    ));
    text::lemma_concat_push(rows, commands::help_row(row.command@, row.description@));
    let own = commands::spec_rows(specs);
    assert(commands::spec_rows(specs.push(s)) =~= own.push(commands::spec_row(s)));
    text::lemma_concat_push(own, commands::spec_row(s));
    let none = commands::extra_rows(seq![]);
    assert(none =~= seq![]);
    assert(text::concat(none) =~= seq![]);
    let title = "**Commands:**"@ + text::concat(commands::listed(commands::builtins(), hide));
    assert(title + text::concat(own) + text::concat(rows.push(
        commands::help_row(row.command@, row.description@),
    )) =~= title + text::concat(own) + text::concat(rows) + commands::help_row(
        row.command@,
        row.description@,
    ));
    assert(commands::help_text(hide, specs.push(s), seq![]) =~= commands::help_text(
        hide,
        specs,
        seq![],
    ) + commands::spec_row(s));
    assert(commands::spec_rows(seq![]) =~= seq![]);
    assert(commands::help_text(hide, seq![], seq![]) =~= title);
}

/// Of the built-ins, each one that is not hidden has its row, in order, and a
/// hidden one has none; hiding one says nothing of the others.
pub proof fn law_hiding_a_row_hides_only_that(
    rows: Seq<(Seq<char>, Seq<char>, Seq<char>)>,
    row: (Seq<char>, Seq<char>, Seq<char>),
    hide: Seq<Seq<char>>,
)
    ensures
        commands::listed(rows.push(row), hide) == if hide.contains(row.0) {
            commands::listed(rows, hide)
        } else {
            commands::listed(rows, hide).push(shown_row(row.1, row.2))
        },
        commands::listed(Seq::<(Seq<char>, Seq<char>, Seq<char>)>::empty(), hide) == Seq::<
            Seq<char>,
        >::empty(),
{
    assert(rows.push(row).drop_last() =~= rows);
}

/// Every built-in that `!help` lists is one that answers to the name shown.
pub proof fn law_help_lists_what_answers(at: int, arg: Seq<char>, specs: Seq<SpecView>)
    requires
        0 <= at < commands::builtins().len(),
    ensures
        text::begins(commands::builtins()[at].1, "!"@ + commands::builtins()[at].0),
        !(commands::meant(commands::builtins()[at].0, arg, specs) is Unknown),
        !(commands::meant(commands::builtins()[at].0, arg, specs) is Registered),
{
    commands::law_built_ins_come_first(commands::builtins()[at].0, arg, specs);
    assert((commands::builtins()[at]).0 == commands::builtins()[at].0);
    reveal_strlit("!");
    reveal_strlit("providers");
    reveal_strlit("!providers");
    reveal_strlit("models");
    reveal_strlit("!models");
    reveal_strlit("skills");
    reveal_strlit("!skills");
    reveal_strlit("model");
    reveal_strlit("!model [provider/model]");
    reveal_strlit("forget");
    reveal_strlit("!forget");
    reveal_strlit("help");
    reveal_strlit("!help");
    let p = "!"@ + commands::builtins()[at].0;
    let shown = commands::builtins()[at].1;
    assert(shown.subrange(0, p.len() as int) =~= p);
}

/// A skill's row of the table.
pub open spec fn table_row(s: SkillView) -> Seq<char> {
    let name = match s.args {
        Some(args) => s.name + " "@ + args,
        None => s.name,
    };
    let description = match s.description {
        Some(description) => description,
        None => seq![],
    };
    "\n| `"@ + name + "` | "@ + description + " |"@
}

/// `!skills` has one row for each skill, in order, with its name, its arguments
/// and its description, under the head of the table.
pub proof fn law_every_skill_has_a_row(skills: Seq<SkillView>, s: SkillView)
    ensures
        skills.len() > 0 ==> commands::skills_text(skills.push(s)) == commands::skills_text(skills)
            + table_row(s),
        commands::skills_text(seq![s]) == "| Skill | Description |\n| --- | --- |"@ + table_row(s),
{
    reveal_strlit("`");
    reveal_strlit(" | ");
    reveal_strlit("\n| ");
    reveal_strlit("\n| `");
    reveal_strlit("` | ");
    reveal_strlit("");
    let row = commands::skill_row(s);
    assert(row =~= table_row(s));
    let rows = commands::skill_rows(skills);
    assert(commands::skill_rows(skills.push(s)) =~= rows.push(row));
    text::lemma_concat_push(rows, row);
    let title = "| Skill | Description |\n| --- | --- |"@;
    assert(title + text::concat(rows.push(row)) =~= title + text::concat(rows) + row);
    assert(commands::skill_rows(seq![s]) =~= seq![row]);
    text_laws::law_what_concatenating_gives(seq![], seq![], row);
}

/// The reply to an unknown command names it, and points to `!help`.
pub proof fn law_an_unknown_command_is_named(name: Seq<char>)
    ensures
        text::occurs(commands::unknown_text(name), "`!"@ + name + "`"@),
        text::occurs(commands::unknown_text(name), "`!help`"@),
{
    reveal_strlit("Unknown command: `!");
    reveal_strlit("`. Try `!help`.");
    reveal_strlit("`!");
    reveal_strlit("`");
    reveal_strlit("`!help`");
    let t = commands::unknown_text(name);
    let p = "`!"@ + name + "`"@;
    assert(t.subrange(17, 17 + p.len() as int) =~= p);
    assert(text::stands_at(t, p, 17));
    let at = 19 + name.len() as int + 7;
    assert(t.subrange(at, at + 7) =~= "`!help`"@);
    assert(text::stands_at(t, "`!help`"@, at));
}

} // verus!
