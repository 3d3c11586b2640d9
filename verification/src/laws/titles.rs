//! Titles: what each variable of a template stands for, and how a template is
//! filled in.

use crate::context::pane::Context;
use crate::context::title::{
    alternatives_of, below_home, chosen, displayed, filled, group_matches, is_title, parts_of,
    value_of, values_are, TitleSource, TitleValues,
};
use crate::laws::texts::{law_first_occurrence_is_found, law_replacing_replaces_each_occurrence};
use crate::text::{ascii_lowered, decimal, first_at, occurs_at, replace_all, split_on, trimmed};
use vstd::prelude::*;

verus! {

/// The values of a pane are what the pane reports: its size, the title that its
/// terminal asked for, its program, and its path unchanged, which is the directory
/// that the terminal reported, or else that of the program.
pub proof fn law_values_are_what_the_pane_reports(
    values: TitleValues,
    source: TitleSource,
    home: Option<Seq<char>>,
)
    requires
        values_are(values, source, home),
    ensures
        values.columns == source.columns,
        values.lines == source.lines,
        values.title@ == source.title@,
        values.program@ == match source.program {
            Some(program) => program@,
            None => Seq::empty(),
        },
        values.absolute_path@ == match (source.directory, source.process_path) {
            (Some(directory), _) => directory@,
            (None, Some(path)) => path@,
            (None, None) => Seq::empty(),
        },
        source.directory is None && source.process_path is None
            ==> values.relative_path@.len() == 0,
{
}

/// What a pane tells of itself: its size, the title and the directory that its
/// terminal reported, and no program.
pub proof fn law_panes_tell_their_own_size_and_place(pane: Context)
    ensures
        pane.title_source().columns == pane.dimension.columns,
        pane.title_source().lines == pane.dimension.lines,
        pane.title_source().title == pane.terminal.title,
        pane.title_source().program is None,
        pane.title_source().directory == pane.terminal.current_directory,
        pane.title_source().process_path == pane.terminal.current_directory,
{
}

/// Each variable stands for the value of its name, whatever its case and the
/// white space round it; a name that is not known stands for nothing.
pub proof fn law_variables_stand_for_their_values(variable: Seq<char>, values: TitleValues)
    ensures
        ({
            let name = ascii_lowered(trimmed(variable));
            let value = value_of(variable, values);
            &&& name == "absolute_path"@ ==> value == Some(values.absolute_path@)
            &&& name == "relative_path"@ ==> value == Some(values.relative_path@)
            &&& name == "program"@ ==> value == Some(values.program@)
            &&& name == "title"@ ==> value == Some(values.title@)
            &&& name == "columns"@ ==> value == Some(decimal(values.columns as nat))
            &&& name == "lines"@ ==> value == Some(decimal(values.lines as nat))
            &&& value is Some ==> name == "absolute_path"@ || name == "relative_path"@ || name
                == "program"@ || name == "title"@ || name == "columns"@ || name == "lines"@
        }),
{
    reveal_strlit("absolute_path");
    reveal_strlit("relative_path");
    reveal_strlit("program");
    reveal_strlit("title");
    reveal_strlit("columns");
    reveal_strlit("lines");
    let name = ascii_lowered(trimmed(variable));
    if name == "absolute_path"@ {
        assert(name[0] == 'a');
    }
    if name == "relative_path"@ {
        assert(name[0] == 'r');
    }
    if name == "program"@ {
        assert(name[0] == 'p');
    }
    if name == "columns"@ {
        assert(name[0] == 'c');
    }
    if name == "title"@ {
        assert(name[0] == 't');
    }
    if name == "lines"@ {
        assert(name[0] == 'l');
    }
}

/// Of some alternatives the first that has a value is taken. An empty value is
/// taken of the last one alone.
pub proof fn law_first_alternative_with_a_value_is_taken(
    alternatives: Seq<Seq<char>>,
    values: TitleValues,
    from: int,
)
    requires
        0 <= from <= alternatives.len(),
    ensures
        match chosen(alternatives, values, from) {
            Some(value) => exists|i: int|
                {
                    &&& from <= i < alternatives.len()
                    &&& value_of(#[trigger] alternatives[i], values) == Some(value)
                    &&& value.len() > 0 || i == alternatives.len() - 1
                    &&& forall|j: int|
                        from <= j < i ==> (match value_of(#[trigger] alternatives[j], values) {
                            Some(earlier) => earlier.len() == 0,
                            None => true,
                        })
                },
            None => forall|j: int|
                from <= j < alternatives.len() ==> (match value_of(
                    #[trigger] alternatives[j],
                    values,
                ) {
                    Some(value) => value.len() == 0 && j != alternatives.len() - 1,
                    None => true,
                }),
        },
    decreases alternatives.len() - from,
{
    if from < alternatives.len() {
        law_first_alternative_with_a_value_is_taken(alternatives, values, from + 1);
        let here = value_of(alternatives[from], values);
        if here is Some && (here->0.len() > 0 || from + 1 == alternatives.len()) {
            assert(chosen(alternatives, values, from) == here);
        } else if chosen(alternatives, values, from) is Some {
            let value = chosen(alternatives, values, from)->0;
            let i = choose|i: int|
                {
                    &&& from + 1 <= i < alternatives.len()
                    &&& value_of(#[trigger] alternatives[i], values) == Some(value)
                    &&& value.len() > 0 || i == alternatives.len() - 1
                    &&& forall|j: int|
                        from + 1 <= j < i ==> (match value_of(#[trigger] alternatives[j], values) {
                            Some(earlier) => earlier.len() == 0,
                            None => true,
                        })
                };
            assert(value_of(alternatives[i], values) == Some(value));
        }
    }
}

/// A text stands nowhere in another one.
pub open spec fn lacks(text: Seq<char>, part: Seq<char>) -> bool {
    forall|k: int| 0 <= k ==> !#[trigger] occurs_at(text, part, k)
}

/// A slot that names one variable alone.
pub open spec fn names_one(variables: Seq<char>, name: Seq<char>) -> bool {
    &&& lacks(variables, seq!['|', '|'])
    &&& ascii_lowered(trimmed(variables)) == name
}

proof fn lemma_one_slot(
    title: Seq<char>,
    template: Seq<char>,
    variables: Seq<char>,
    source: TitleSource,
    home: Option<Seq<char>>,
) -> (values: TitleValues)
    requires
        template.len() > 0,
        group_matches("\\{\\{(.*?)\\}\\}"@, template) == Some(seq![(template, variables)]),
        lacks(variables, seq!['|', '|']),
        is_title(title, template, source, home),
        forall|values: TitleValues| value_of(variables, values) is Some,
    ensures
        values_are(values, source, home),
        title == value_of(variables, values)->0,
{
    let slots = seq![(template, variables)];
    let values = choose|values: TitleValues|
        #[trigger] values_are(values, source, home) && title == filled(
            template,
            slots,
            values,
            slots.len() as int,
        );
    law_first_occurrence_is_found(variables, seq!['|', '|'], 0);
    assert(alternatives_of(variables) == seq![variables]);
    law_first_alternative_with_a_value_is_taken(seq![variables], values, 0);
    assert(value_of(seq![variables][0], values) is Some);
    let value = value_of(variables, values)->0;
    assert(chosen(seq![variables], values, 0) == Some(value));
    reveal_with_fuel(filled, 2);
    assert(filled(template, slots, values, 1) == replace_all(template, template, value));
    assert(template.subrange(0, template.len() as int) =~= template);
    assert(occurs_at(template, template, 0));
    law_replacing_replaces_each_occurrence(template, template, value, 0);
    let rest = template.skip(template.len() as int);
    assert(rest.len() == 0);
    assert(replace_all(rest, template, value) == rest);
    assert(template.take(0) + value + rest =~= value);
    values
}

/// A template that is the path alone makes the path the title, character by
/// character, whatever the home directory is.
pub proof fn law_absolute_path_is_the_whole_path(
    title: Seq<char>,
    template: Seq<char>,
    variables: Seq<char>,
    source: TitleSource,
    home: Option<Seq<char>>,
)
    requires
        template.len() > 0,
        group_matches("\\{\\{(.*?)\\}\\}"@, template) == Some(seq![(template, variables)]),
        names_one(variables, "absolute_path"@),
        is_title(title, template, source, home),
    ensures
        title == match (source.directory, source.process_path) {
            (Some(directory), _) => directory@,
            (None, Some(path)) => path@,
            (None, None) => Seq::empty(),
        },
{
    assert forall|values: TitleValues| value_of(variables, values) is Some by {
        law_variables_stand_for_their_values(variables, values);
    }
    let values = lemma_one_slot(title, template, variables, source, home);
    law_variables_stand_for_their_values(variables, values);
    law_values_are_what_the_pane_reports(values, source, home);
}

/// A template that is the title of the terminal, its program or its size alone
/// makes just that the title.
pub proof fn law_one_variable_is_the_whole_title(
    title: Seq<char>,
    template: Seq<char>,
    variables: Seq<char>,
    source: TitleSource,
    home: Option<Seq<char>>,
)
    requires
        template.len() > 0,
        group_matches("\\{\\{(.*?)\\}\\}"@, template) == Some(seq![(template, variables)]),
        names_one(variables, "title"@) || names_one(variables, "program"@) || names_one(
            variables,
            "columns"@,
        ) || names_one(variables, "lines"@),
        is_title(title, template, source, home),
    ensures
        names_one(variables, "title"@) ==> title == source.title@,
        names_one(variables, "program"@) ==> title == match source.program {
            Some(program) => program@,
            None => Seq::empty(),
        },
        names_one(variables, "columns"@) ==> title == decimal(source.columns as nat),
        names_one(variables, "lines"@) ==> title == decimal(source.lines as nat),
{
    assert forall|values: TitleValues| value_of(variables, values) is Some by {
        law_variables_stand_for_their_values(variables, values);
    }
    let values = lemma_one_slot(title, template, variables, source, home);
    law_variables_stand_for_their_values(variables, values);
    law_values_are_what_the_pane_reports(values, source, home);
}

/// An empty template is an empty title, and a template without slots is its own
/// title.
pub proof fn law_template_without_slots_is_the_title(
    title: Seq<char>,
    template: Seq<char>,
    source: TitleSource,
    home: Option<Seq<char>>,
)
    requires
        is_title(title, template, source, home),
        template.len() == 0 || group_matches("\\{\\{(.*?)\\}\\}"@, template) == Some(
            Seq::<(Seq<char>, Seq<char>)>::empty(),
        ) || group_matches("\\{\\{(.*?)\\}\\}"@, template) is None,
    ensures
        title == template,
{
}

/// The slots of a template are filled in one after the other: each place where a
/// slot stands becomes the value that was taken for it, and a slot without a value
/// stays.
pub proof fn law_slots_become_their_values(
    template: Seq<char>,
    slots: Seq<(Seq<char>, Seq<char>)>,
    values: TitleValues,
    n: int,
)
    requires
        0 <= n < slots.len(),
    ensures
        ({
            let before = filled(template, slots, values, n);
            let now = filled(template, slots, values, n + 1);
            let taken = chosen(split_on(slots[n].1, seq!['|', '|']), values, 0);
            &&& filled(template, slots, values, 0) == template
            &&& taken is None ==> now == before
            &&& taken is Some && slots[n].0.len() > 0 ==> {
                let first = first_at(before, slots[n].0, 0);
                &&& first is None ==> now == before
                &&& first matches Some(at) ==> now == before.take(at) + taken->0 + replace_all(
                    before.skip(at + slots[n].0.len()),
                    slots[n].0,
                    taken->0,
                )
            }
        }),
{
    let before = filled(template, slots, values, n);
    let whole = slots[n].0;
    let taken = chosen(alternatives_of(slots[n].1), values, 0);
    if taken is Some && whole.len() > 0 {
        law_first_occurrence_is_found(before, whole, 0);
        match first_at(before, whole, 0) {
            Some(at) => law_replacing_replaces_each_occurrence(before, whole, taken->0, at),
            None => law_replacing_replaces_each_occurrence(
                before,
                whole,
                taken->0,
                before.len() as int,
            ),
        }
    }
}

/// The parts of a path are the pieces between its slashes that hold something, in
/// their order.
pub proof fn law_parts_are_what_slashes_part(pieces: Seq<Seq<char>>)
    ensures
        parts_of(pieces) == pieces.filter(|p: Seq<char>| p.len() != 0),
    decreases pieces.len(),
{
    reveal(Seq::filter);
    if pieces.len() > 0 {
        law_parts_are_what_slashes_part(pieces.drop_last());
    }
}

/// A path is shown by its last three parts behind an ellipsis where it has four or
/// more, and else in full. Below the home directory a tilde stands for it, only
/// what is below counts, and the home directory itself is a tilde alone.
pub proof fn law_long_paths_show_their_last_three_parts(path: Seq<char>, rest: Seq<char>)
    ensures
        ({
            let parts = split_on(path, seq!['/']).filter(|p: Seq<char>| p.len() != 0);
            let n = parts.len() as int;
            &&& n < 4 ==> displayed(path, None) == path
            &&& n >= 4 ==> displayed(path, None) == "…/"@ + parts[n - 3] + "/"@ + parts[n - 2]
                + "/"@ + parts[n - 1]
        }),
        displayed(path, Some(Seq::empty())) == "~"@,
        rest.len() > 0 ==> {
            let parts = split_on(rest, seq!['/']).filter(|p: Seq<char>| p.len() != 0);
            let n = parts.len() as int;
            &&& n < 4 ==> displayed(path, Some(rest)) == "~/"@ + rest
            &&& n >= 4 ==> displayed(path, Some(rest)) == "…/"@ + parts[n - 3] + "/"@ + parts[n - 2]
                + "/"@ + parts[n - 1]
        },
        below_home(path, None) is None,
{
    law_parts_are_what_slashes_part(split_on(path, seq!['/']));
    law_parts_are_what_slashes_part(split_on(rest, seq!['/']));
}

/// The short form of a path in a title is the path as it is shown below the home
/// directory.
pub proof fn law_relative_path_is_the_shown_path(
    values: TitleValues,
    source: TitleSource,
    home: Option<Seq<char>>,
)
    requires
        values_are(values, source, home),
        source.directory is Some || source.process_path is Some,
    ensures
        values.relative_path@ == displayed(
            values.absolute_path@,
            match home {
                Some(home) => crate::context::title::path_below(values.absolute_path@, home),
                None => None,
            },
        ),
{
}

} // verus!
