//! Tab titles made from a template.

use crate::text::{
    ascii_lower_chars, ascii_lowered, copy_chars, decimal, decimal_text, from_chars, joined,
    lemma_texts_push, replace_all, replace_chars, same_text, split_chars, split_on, texts, to_chars,
    trim_chars, trimmed,
};
use vstd::prelude::*;

verus! {

/// What a title knows of the program in a tab.
pub struct ContextTitleExtra {
    pub program: String,
}

/// The title of a tab.
pub struct ContextTitle {
    pub content: String,
    pub extra: Option<ContextTitleExtra>,
}

impl Default for ContextTitle {
    fn default() -> (r: Self)
        ensures
            r.content@ == "~"@,
            r.extra is None,
    {
        ContextTitle { content: "~".to_owned(), extra: None }
    }
}

/// What a pane contributes to a title.
pub struct TitleSource {
    pub columns: usize,
    pub lines: usize,
    /// The title that the terminal asked for.
    pub title: String,
    /// The program in the foreground, if it is known.
    pub program: Option<String>,
    /// The directory that the terminal reported.
    pub directory: Option<String>,
    /// The directory of the program in the foreground, if it is known.
    pub process_path: Option<String>,
}

/// The text, or none at all.
pub open spec fn text_or_empty(text: Option<Seq<char>>) -> Seq<char> {
    match text {
        Some(text) => text,
        None => Seq::empty(),
    }
}

/// The contents of an optional text.
pub open spec fn text_of(text: Option<String>) -> Option<Seq<char>> {
    match text {
        Some(text) => Some(text@),
        None => None,
    }
}

pub fn create_title_extra_from_context(source: &TitleSource) -> (r: Option<ContextTitleExtra>)
    ensures
        match (r, source.program) {
            (Some(extra), Some(program)) => extra.program == program,
            (None, None) => true,
            _ => false,
        },
{
    match &source.program {
        Some(program) => Some(ContextTitleExtra { program: program.clone() }),
        None => None,
    }
}

/// Where a pane is: the directory that its terminal reported, or else that of
/// its program.
pub open spec fn path_of(source: TitleSource) -> Option<Seq<char>> {
    match source.directory {
        Some(directory) => Some(directory@),
        None => text_of(source.process_path),
    }
}

pub fn current_path(source: &TitleSource) -> (r: Option<String>)
    ensures
        text_of(r) == path_of(*source),
{
    match &source.directory {
        Some(directory) => Some(directory.clone()),
        None => source.process_path.clone(),
    }
}

/// What is left of a path below another one, if it is below it.
pub uninterp spec fn path_below(path: Seq<char>, base: Seq<char>) -> Option<Seq<char>>;

/// `Path::strip_prefix`: on one platform the result depends on the two paths
/// alone. How paths are compared is left to the standard library.
#[verifier::external_body]
fn strip_path(path: &str, base: &str) -> (r: Option<String>)
    ensures
        text_of(r) == path_below(path@, base@),
{
    let rest = std::path::Path::new(path).strip_prefix(base).ok()?;
    Some(rest.to_string_lossy().into_owned())
}

/// `std::path::is_separator`: whether a character separates the parts of a path,
/// which depends on the platform.
#[verifier::external_body]
fn is_separator(c: char) -> (r: bool) {
    std::path::is_separator(c)
}

/// `dirs::home_dir`: the home directory, which depends on the environment. One
/// that is no valid text is left out: no path that is a text lies below it.
#[verifier::external_body]
pub(crate) fn home_dir() -> (r: Option<String>) {
    dirs::home_dir()?.into_os_string().into_string().ok()
}

/// The parts of a path that hold something.
pub open spec fn parts_of(pieces: Seq<Seq<char>>) -> Seq<Seq<char>>
    decreases pieces.len(),
{
    if pieces.len() == 0 {
        Seq::empty()
    } else if pieces.last().len() == 0 {
        parts_of(pieces.drop_last())
    } else {
        parts_of(pieces.drop_last()).push(pieces.last())
    }
}

/// The last three of some parts behind an ellipsis.
pub open spec fn last_three(parts: Seq<Seq<char>>) -> Seq<char> {
    let n = parts.len() as int;
    "…/"@ + parts[n - 3] + "/"@ + parts[n - 2] + "/"@ + parts[n - 1]
}

/// A path with four or more parts by its last three; any other as it is given.
pub open spec fn abbreviated(path: Seq<char>, shown: Seq<char>) -> Seq<char> {
    let parts = parts_of(split_on(path, seq!['/']));
    if parts.len() >= 4 {
        last_three(parts)
    } else {
        shown
    }
}

/// A path as it is shown, given what is left of it below the home directory: only
/// the parts below it count.
pub open spec fn displayed(absolute: Seq<char>, below_home: Option<Seq<char>>) -> Seq<char> {
    match below_home {
        Some(rest) if rest.len() == 0 => "~"@,
        Some(rest) => abbreviated(rest, "~/"@ + rest),
        None => abbreviated(absolute, absolute),
    }
}

/// What is left of a path below a home directory, where there is one.
pub open spec fn below_home(absolute: Seq<char>, home: Option<Seq<char>>) -> Option<Seq<char>> {
    match home {
        Some(home) => path_below(absolute, home),
        None => None,
    }
}

fn parts(path: &str) -> (r: Vec<Vec<char>>)
    ensures
        texts(r@) == parts_of(split_on(path@, seq!['/'])),
{
    let separator: Vec<char> = vec!['/'];
    let pieces: Vec<Vec<char>> = split_chars(to_chars(path).as_slice(), separator.as_slice());
    let mut out: Vec<Vec<char>> = Vec::new();
    let mut i: usize = 0;
    let ghost all = texts(pieces@);
    proof {
        assert(separator@ =~= seq!['/']);
        assert(texts(out@) =~= Seq::<Seq<char>>::empty());
        assert(all.take(0) =~= Seq::<Seq<char>>::empty());
    }
    while i < pieces.len()
        invariant
            i <= pieces@.len(),
            all == texts(pieces@),
            texts(out@) == parts_of(all.take(i as int)),
        decreases pieces@.len() - i,
    {
        proof {
            assert(all.take(i + 1).drop_last() =~= all.take(i as int));
            assert(all.take(i + 1).last() == pieces@[i as int]@);
        }
        if pieces[i].len() != 0 {
            let piece: Vec<char> = copy_chars(pieces[i].as_slice());
            proof {
                lemma_texts_push(out@, piece);
            }
            out.push(piece);
        }
        i += 1;
    }
    proof {
        assert(all.take(all.len() as int) =~= all);
    }
    out
}

fn abbreviate(path: &str, shown: String) -> (r: String)
    ensures
        r@ == abbreviated(path@, shown@),
{
    let parts: Vec<Vec<char>> = parts(path);
    let n: usize = parts.len();
    if n >= 4 {
        proof {
            assert(texts(parts@).len() == n);
            assert(texts(parts@)[n - 3] == parts@[n - 3]@);
            assert(texts(parts@)[n - 2] == parts@[n - 2]@);
            assert(texts(parts@)[n - 1] == parts@[n - 1]@);
        }
        let a: String = joined("…/", from_chars(parts[n - 3].as_slice()).as_str());
        let b: String = joined(a.as_str(), "/");
        let c: String = joined(b.as_str(), from_chars(parts[n - 2].as_slice()).as_str());
        let d: String = joined(c.as_str(), "/");
        joined(d.as_str(), from_chars(parts[n - 1].as_slice()).as_str())
    } else {
        shown
    }
}

/// A path shown below the home directory and without its first parts, if it has
/// many.
pub fn shorten_display(absolute: &str, below_home: Option<String>) -> (r: String)
    ensures
        r@ == displayed(absolute@, text_of(below_home)),
{
    match below_home {
        Some(rest) => {
            let chars: Vec<char> = to_chars(rest.as_str());
            if chars.len() == 0 {
                "~".to_owned()
            } else {
                abbreviate(rest.as_str(), joined("~/", rest.as_str()))
            }
        },
        None => abbreviate(absolute, absolute.to_owned()),
    }
}

/// A path shown for a given home directory.
pub fn shorten_below(absolute: &str, home: Option<&str>) -> (r: String)
    ensures
        r@ == displayed(
            absolute@,
            below_home(
                absolute@,
                match home {
                    Some(home) => Some(home@),
                    None => None,
                },
            ),
        ),
{
    let rest: Option<String> = match home {
        Some(home) => strip_path(absolute, home),
        None => None,
    };
    shorten_display(absolute, rest)
}

/// Shortens an absolute path for display: the home directory becomes `~`, and
/// of four or more parts, counted below it, only the last three are shown. Where
/// paths are written with backslashes, no home directory is looked for.
pub fn shorten_path(absolute: &str) -> (r: String)
    ensures
        exists|home: Option<Seq<char>>|
            r@ == displayed(absolute@, #[trigger] below_home(absolute@, home)),
{
    let home: Option<String> = if is_separator('\\') {
        None
    } else {
        home_dir()
    };
    match &home {
        Some(dir) => {
            let r: String = shorten_below(absolute, Some(dir.as_str()));
            proof {
                assert(r@ == displayed(absolute@, below_home(absolute@, Some(dir@))));
            }
            r
        },
        None => {
            let r: String = shorten_below(absolute, None);
            proof {
                assert(r@ == displayed(absolute@, below_home(absolute@, None)));
            }
            r
        },
    }
}

/// The values that a template can name.
pub struct TitleValues {
    pub columns: usize,
    pub lines: usize,
    pub title: String,
    pub program: String,
    pub absolute_path: String,
    pub relative_path: String,
}

/// The values of a pane.
pub open spec fn values_are(values: TitleValues, source: TitleSource, home: Option<Seq<char>>) -> bool {
    &&& values.columns == source.columns
    &&& values.lines == source.lines
    &&& values.title@ == source.title@
    &&& values.program@ == text_or_empty(text_of(source.program))
    &&& values.absolute_path@ == text_or_empty(path_of(source))
    &&& values.relative_path@ == match path_of(source) {
        Some(path) => displayed(path, below_home(path, home)),
        None => Seq::empty(),
    }
}

/// Gathers the values of a pane for a given home directory.
pub fn title_values(source: &TitleSource, home: Option<&str>) -> (r: TitleValues)
    ensures
        values_are(
            r,
            *source,
            match home {
                Some(home) => Some(home@),
                None => None,
            },
        ),
{
    let program: String = match &source.program {
        Some(program) => program.clone(),
        None => String::new(),
    };
    let (absolute_path, relative_path): (String, String) = match current_path(source) {
        Some(path) => {
            let short: String = shorten_below(path.as_str(), home);
            (path, short)
        },
        None => (String::new(), String::new()),
    };
    TitleValues {
        columns: source.columns,
        lines: source.lines,
        title: source.title.clone(),
        program,
        absolute_path,
        relative_path,
    }
}

/// The value that a variable of a template stands for.
pub open spec fn value_of(variable: Seq<char>, values: TitleValues) -> Option<Seq<char>> {
    let name = ascii_lowered(trimmed(variable));
    if name == "columns"@ {
        Some(decimal(values.columns as nat))
    } else if name == "lines"@ {
        Some(decimal(values.lines as nat))
    } else if name == "title"@ {
        Some(values.title@)
    } else if name == "program"@ {
        Some(values.program@)
    } else if name == "absolute_path"@ {
        Some(values.absolute_path@)
    } else if name == "relative_path"@ {
        Some(values.relative_path@)
    } else {
        None
    }
}

pub fn variable_value(variable: &[char], values: &TitleValues) -> (r: Option<String>)
    ensures
        text_of(r) == value_of(variable@, *values),
{
    let name: String = from_chars(
        ascii_lower_chars(trim_chars(variable).as_slice()).as_slice(),
    );
    if same_text(name.as_str(), "columns") {
        Some(decimal_text(values.columns as u64))
    } else if same_text(name.as_str(), "lines") {
        Some(decimal_text(values.lines as u64))
    } else if same_text(name.as_str(), "title") {
        Some(values.title.clone())
    } else if same_text(name.as_str(), "program") {
        Some(values.program.clone())
    } else if same_text(name.as_str(), "absolute_path") {
        Some(values.absolute_path.clone())
    } else if same_text(name.as_str(), "relative_path") {
        Some(values.relative_path.clone())
    } else {
        None
    }
}

/// The first alternative, from `from` on, that has a value. An empty value
/// counts only where no further alternative follows.
pub open spec fn chosen(alternatives: Seq<Seq<char>>, values: TitleValues, from: int) -> Option<
    Seq<char>,
>
    decreases alternatives.len() - from,
{
    if from < 0 || from >= alternatives.len() {
        None
    } else {
        match value_of(alternatives[from], values) {
            Some(value) if value.len() > 0 || from + 1 == alternatives.len() => Some(value),
            _ => chosen(alternatives, values, from + 1),
        }
    }
}

fn choose_value(alternatives: &Vec<Vec<char>>, values: &TitleValues) -> (r: Option<Vec<char>>)
    ensures
        match (r, chosen(texts(alternatives@), *values, 0)) {
            (Some(value), Some(expected)) => value@ == expected,
            (None, None) => true,
            _ => false,
        },
{
    let ghost all = texts(alternatives@);
    let mut i: usize = 0;
    while i < alternatives.len()
        invariant
            i <= alternatives@.len(),
            all == texts(alternatives@),
            chosen(all, *values, 0) == chosen(all, *values, i as int),
        decreases alternatives@.len() - i,
    {
        proof {
            assert(all[i as int] == alternatives@[i as int]@);
        }
        if let Some(value) = variable_value(alternatives[i].as_slice(), values) {
            let chars: Vec<char> = to_chars(value.as_str());
            if chars.len() > 0 || i + 1 == alternatives.len() {
                return Some(chars);
            }
        }
        i += 1;
    }
    None
}

/// A place in a template: all of it, and what stands between the braces.
pub struct Slot {
    pub whole: String,
    pub variables: String,
}

/// The contents of some slots.
pub open spec fn slot_views(slots: Seq<Slot>) -> Seq<(Seq<char>, Seq<char>)> {
    slots.map_values(|s: Slot| (s.whole@, s.variables@))
}

/// The alternatives that a slot names.
pub open spec fn alternatives_of(variables: Seq<char>) -> Seq<Seq<char>> {
    split_on(variables, seq!['|', '|'])
}

/// A template with the first `n` slots filled in.
pub open spec fn filled(
    template: Seq<char>,
    slots: Seq<(Seq<char>, Seq<char>)>,
    values: TitleValues,
    n: int,
) -> Seq<char>
    decreases n,
{
    if n <= 0 {
        template
    } else {
        let before = filled(template, slots, values, n - 1);
        match chosen(alternatives_of(slots[n - 1].1), values, 0) {
            Some(value) => replace_all(before, slots[n - 1].0, value),
            None => before,
        }
    }
}

/// Fills the slots of a template in.
pub fn fill_template(template: &str, slots: &Vec<Slot>, values: &TitleValues) -> (r: String)
    ensures
        r@ == filled(template@, slot_views(slots@), *values, slots@.len() as int),
{
    let ghost views = slot_views(slots@);
    let separator: Vec<char> = vec!['|', '|'];
    proof {
        assert(separator@ =~= seq!['|', '|']);
    }
    let mut out: Vec<char> = to_chars(template);
    let mut i: usize = 0;
    while i < slots.len()
        invariant
            i <= slots@.len(),
            views == slot_views(slots@),
            separator@ == seq!['|', '|'],
            out@ == filled(template@, views, *values, i as int),
        decreases slots@.len() - i,
    {
        proof {
            assert(views[i as int] == (slots@[i as int].whole@, slots@[i as int].variables@));
        }
        let whole: Vec<char> = to_chars(slots[i].whole.as_str());
        let alternatives: Vec<Vec<char>> = split_chars(
            to_chars(slots[i].variables.as_str()).as_slice(),
            separator.as_slice(),
        );
        if let Some(value) = choose_value(&alternatives, values) {
            if whole.len() > 0 {
                out = replace_chars(out.as_slice(), whole.as_slice(), value.as_slice());
            } else {
                proof {
                    assert(replace_all(out@, whole@, value@) == out@);
                }
            }
        }
        i += 1;
    }
    from_chars(out.as_slice())
}

/// The matches of an expression in a text, each with its first group; absent
/// where the expression is not valid.
pub uninterp spec fn group_matches(pattern: Seq<char>, text: Seq<char>) -> Option<
    Seq<(Seq<char>, Seq<char>)>,
>;

/// `regex::Regex::new` and `regex::Regex::captures_iter`: the result depends on
/// the expression and the text alone. What an expression matches is left to
/// the expression library; a group that took no part is empty.
#[verifier::external_body]
fn find_groups(pattern: &str, text: &str) -> (r: Option<Vec<Slot>>)
    ensures
        match r {
            Some(slots) => group_matches(pattern@, text@) == Some(slot_views(slots@)),
            None => group_matches(pattern@, text@) is None,
        },
{
    let regex = regex::Regex::new(pattern).ok()?;
    Some(
        regex.captures_iter(text).map(
            |found| Slot {
                whole: found[0].to_owned(),
                variables: found.get(1).map_or(String::new(), |group| group.as_str().to_owned()),
            },
        ).collect(),
    )
}

/// The title that a template makes of a pane, for a given home directory.
pub open spec fn is_title(
    title: Seq<char>,
    template: Seq<char>,
    source: TitleSource,
    home: Option<Seq<char>>,
) -> bool {
    if template.len() == 0 {
        title == template
    } else {
        match group_matches("\\{\\{(.*?)\\}\\}"@, template) {
            Some(slots) => exists|values: TitleValues|
                #[trigger] values_are(values, source, home) && title == filled(
                    template,
                    slots,
                    values,
                    slots.len() as int,
                ),
            None => title == template,
        }
    }
}

/// The title of a pane: each `{{ variable }}` of the template is replaced by the
/// value of the variable, and of `{{ a || b }}` by the first that has one.
pub fn update_title(template: &str, source: &TitleSource) -> (r: String)
    ensures
        exists|home: Option<Seq<char>>| #[trigger] is_title(r@, template@, *source, home),
{
    let home: Option<String> = if is_separator('\\') {
        None
    } else {
        home_dir()
    };
    let r: String = match &home {
        Some(dir) => title_at_home(template, source, Some(dir.as_str())),
        None => title_at_home(template, source, None),
    };
    proof {
        assert(is_title(r@, template@, *source, text_of(home)));
    }
    r
}

/// The title of a pane for a given home directory.
pub fn title_at_home(template: &str, source: &TitleSource, home: Option<&str>) -> (r: String)
    ensures
        is_title(
            r@,
            template@,
            *source,
            match home {
                Some(home) => Some(home@),
                None => None,
            },
        ),
{
    let chars: Vec<char> = to_chars(template);
    if chars.len() == 0 {
        return template.to_owned();
    }
    match find_groups("\\{\\{(.*?)\\}\\}", template) {
        Some(slots) => {
            let values: TitleValues = title_values(source, home);
            let r: String = fill_template(template, &slots, &values);
            proof {
                assert(slot_views(slots@).len() == slots@.len());
            }
            r
        },
        None => template.to_owned(),
    }
}

/// A template without slots is its own title.
pub proof fn law_plain_template_is_its_title(template: Seq<char>, values: TitleValues)
    ensures
        filled(template, Seq::empty(), values, 0) == template,
{
}

/// A variable that is not known leaves its slot as it is.
pub proof fn law_unknown_variable_is_left(
    template: Seq<char>,
    whole: Seq<char>,
    variables: Seq<char>,
    values: TitleValues,
)
    requires
        forall|i: int|
            0 <= i < alternatives_of(variables).len() ==> value_of(
                #[trigger] alternatives_of(variables)[i],
                values,
            ) is None,
    ensures
        filled(template, seq![(whole, variables)], values, 1) == template,
{
    lemma_none_chosen(alternatives_of(variables), values, 0);
    reveal_with_fuel(filled, 2);
}

proof fn lemma_none_chosen(alternatives: Seq<Seq<char>>, values: TitleValues, from: int)
    requires
        0 <= from <= alternatives.len(),
        forall|i: int|
            0 <= i < alternatives.len() ==> value_of(#[trigger] alternatives[i], values) is None,
    ensures
        chosen(alternatives, values, from) is None,
    decreases alternatives.len() - from,
{
    if from < alternatives.len() {
        assert(value_of(alternatives[from], values) is None);
        lemma_none_chosen(alternatives, values, from + 1);
    }
}

} // verus!
