use vstd::prelude::*;

use crate::command::{
    format_command, lemma_arguments_roundtrip, lemma_format_parse_roundtrip, lemma_plain_part,
    parse_command, plain_word, shown_part, CommandView,
};
use crate::command_matcher::{anchored, regex_error, CommandMatcher};
use crate::executable_path::shown_form;
use crate::test_spec::{
    file_keys, keys_complaint, pairs_of, pairs_view, plain_step, step_keys, step_of, steps_of,
    strings_of, strings_view, test_keys, test_of, tests_from_yaml, tests_of, unexpected_field_message,
    MatcherView, Step, StepView, Test, TestView, Tests, TestsView,
};
use crate::text::{string_from_chars, utf8_lossy_string};
use crate::yaml::{field_value, is_key, string_of, Yaml};

verus! {

broadcast use vstd::utf8::group_utf8_lib;

/// The complaint, if any, about the key of one entry of a hash.
pub open spec fn key_complaint(known: Seq<Seq<char>>, key: Yaml) -> Option<Seq<char>> {
    match string_of(key) {
        Err(message) => Some(message),
        Ok(k) => if known.contains(k) {
            None
        } else {
            Some(unexpected_field_message(k, known))
        },
    }
}

proof fn lemma_field_value_push(entries: Seq<(Yaml, Yaml)>, pair: (Yaml, Yaml), key: Seq<char>)
    ensures
        field_value(entries.push(pair), key) == match field_value(entries, key) {
            Some(v) => Some(v),
            None => if is_key(pair.0, key) {
                Some(pair.1)
            } else {
                None
            },
        },
    decreases entries.len(),
{
    if entries.len() > 0 {
        lemma_field_value_push(entries.drop_first(), pair, key);
        assert(entries.push(pair).drop_first() =~= entries.drop_first().push(pair));
        assert(entries.push(pair)[0] == entries[0]);
    } else {
        assert(entries.push(pair).drop_first() =~= Seq::<(Yaml, Yaml)>::empty());
        assert(entries.push(pair)[0] == pair);
        assert(field_value(Seq::<(Yaml, Yaml)>::empty(), key) is None);
    }
}

proof fn lemma_keys_complaint_push(known: Seq<Seq<char>>, entries: Seq<(Yaml, Yaml)>, pair: (Yaml, Yaml))
    ensures
        keys_complaint(known, entries.push(pair)) == match keys_complaint(known, entries) {
            Some(m) => Some(m),
            None => key_complaint(known, pair.0),
        },
    decreases entries.len(),
{
    if entries.len() > 0 {
        lemma_keys_complaint_push(known, entries.drop_first(), pair);
        assert(entries.push(pair).drop_first() =~= entries.drop_first().push(pair));
        assert(entries.push(pair)[0] == entries[0]);
    } else {
        assert(entries.push(pair).drop_first() =~= Seq::<(Yaml, Yaml)>::empty());
        assert(entries.push(pair)[0] == pair);
        assert(keys_complaint(known, Seq::<(Yaml, Yaml)>::empty()) is None);
    }
}

/// Whether a YAML value is the string `text`.
pub open spec fn is_text(value: Yaml, text: Seq<char>) -> bool {
    value matches Yaml::String(s) && s@ == text
}

/// A field of a hash as it is written: its key, and a condition on its
/// value when it is written, or nothing when it is left out.
pub type FieldShape = (Seq<char>, Option<spec_fn(Yaml) -> bool>);

/// Whether `entries` are the fields of `fields` that are written, in
/// order: each with its key as a string and a value that its condition
/// accepts.
pub open spec fn written_fields(entries: Seq<(Yaml, Yaml)>, fields: Seq<FieldShape>) -> bool
    decreases fields.len(),
{
    if fields.len() == 0 {
        entries.len() == 0
    } else {
        match fields.last().1 {
            Some(accepts) => {
                &&& entries.len() > 0
                &&& is_text(entries.last().0, fields.last().0)
                &&& accepts(entries.last().1)
                &&& written_fields(entries.drop_last(), fields.drop_last())
            },
            None => written_fields(entries, fields.drop_last()),
        }
    }
}

/// The fields with the given keys and values, each value exactly.
pub open spec fn exact_fields(keys: Seq<String>, values: Seq<Option<Yaml>>) -> Seq<FieldShape> {
    Seq::new(
        keys.len(),
        |i: int|
            (
                keys[i]@,
                match values[i] {
                    Some(v) => Some(|y: Yaml| y == v),
                    None => None,
                },
            ),
    )
}

/// Fields written under one shape are written under another that has the
/// same keys, leaves out the same fields and accepts at least as much.
proof fn lemma_written_weaker(entries: Seq<(Yaml, Yaml)>, exact: Seq<FieldShape>, shape: Seq<FieldShape>)
    requires
        written_fields(entries, exact),
        exact.len() == shape.len(),
        forall|i: int| 0 <= i < exact.len() ==> (#[trigger] exact[i]).0 == shape[i].0 && (exact[i].1 is Some
            <==> shape[i].1 is Some),
        forall|i: int, y: Yaml|
            #![trigger (exact[i].1->Some_0)(y)]
            0 <= i < exact.len() && exact[i].1 is Some && (exact[i].1->Some_0)(y) ==> (shape[i].1->Some_0)(y),
    ensures
        written_fields(entries, shape),
    decreases exact.len(),
{
    if exact.len() > 0 {
        let n = exact.len() - 1;
        assert(exact[n].0 == shape[n].0);
        lemma_written_weaker(
            if exact.last().1 is Some { entries.drop_last() } else { entries },
            exact.drop_last(),
            shape.drop_last(),
        );
        if let Some(a) = exact.last().1 {
            assert(a(entries.last().1));
        }
    }
}

/// Adds a field with a string key to the entries of a hash.
fn push_field(entries: &mut Vec<(Yaml, Yaml)>, key: &str, value: Yaml)
    ensures
        final(entries)@.len() == old(entries)@.len() + 1,
        final(entries)@.drop_last() == old(entries)@,
        is_text(final(entries)@.last().0, key@),
        final(entries)@.last().1 == value,
        forall|k: Seq<char>|
            #[trigger] field_value(final(entries)@, k) == match field_value(old(entries)@, k) {
                Some(v) => Some(v),
                None => if k == key@ {
                    Some(value)
                } else {
                    None
                },
            },
        forall|known: Seq<Seq<char>>|
            #[trigger] keys_complaint(known, final(entries)@) == match keys_complaint(known, old(entries)@) {
                Some(m) => Some(m),
                None => if known.contains(key@) {
                    None
                } else {
                    Some(unexpected_field_message(key@, known))
                },
            },
{
    let key_string = String::from_str(key);
    let pair = (Yaml::String(key_string), value);
    let ghost before = entries@;
    entries.push(pair);
    assert forall|k: Seq<char>| #[trigger]
        field_value(entries@, k) == match field_value(before, k) {
            Some(v) => Some(v),
            None => if k == key@ {
                Some(value)
            } else {
                None
            },
        } by {
        lemma_field_value_push(before, pair, k);
    }
    assert forall|known: Seq<Seq<char>>| #[trigger]
        keys_complaint(known, entries@) == match keys_complaint(known, before) {
            Some(m) => Some(m),
            None => if known.contains(key@) {
                None
            } else {
                Some(unexpected_field_message(key@, known))
            },
        } by {
        lemma_keys_complaint_push(known, before, pair);
    }
}

/// Whether `shown` is a step as it reads back once written: the same,
/// with the executable of an exact command in a form in which it may be
/// shown.
pub open spec fn shown_step(step: StepView, shown: StepView) -> bool {
    &&& shown.stdout == step.stdout
    &&& shown.exitcode == step.exitcode
    &&& match step.matcher {
        MatcherView::Exact(command) => shown.matcher matches MatcherView::Exact(c) && shown_form(
            Seq::empty(),
            command.executable,
            c.executable,
        ) && c.arguments == command.arguments,
        MatcherView::Regex(_) => shown.matcher == step.matcher,
    }
}

/// Whether a step reads back once written: its output is valid UTF-8, and
/// an exact command has an executable that is written as it is and no
/// empty argument.
pub open spec fn representable_step(step: StepView) -> bool {
    &&& vstd::utf8::valid_utf8(step.stdout)
    &&& match step.matcher {
        MatcherView::Exact(command) => plain_word(command.executable) && forall|i: int|
            0 <= i < command.arguments.len() ==> (#[trigger] command.arguments[i]).len() > 0,
        MatcherView::Regex(_) => true,
    }
}

/// A YAML string of a string.
fn string_yaml(s: &str) -> (result: Yaml)
    ensures
        result matches Yaml::String(t) && t@ == s@,
{
    Yaml::String(String::from_str(s))
}

/// The fields of a step written as a hash: `command` (for an exact
/// command) or `regex` with `line`, then `stdout` when it is not empty and
/// `exitcode` when it is not 0.
pub open spec fn step_fields(exact: bool, line: Seq<char>, step: StepView) -> Seq<FieldShape> {
    seq![
        ("command"@, if exact { Some(|y: Yaml| is_text(y, line)) } else { None }),
        ("regex"@, if exact { None } else { Some(|y: Yaml| is_text(y, line)) }),
        ("stdout"@, if step.stdout.len() > 0 {
            Some(|y: Yaml| is_text(y, crate::text::utf8_lossy(step.stdout)))
        } else {
            None
        }),
        ("exitcode"@, if step.exitcode != 0 {
            Some(|y: Yaml| y == Yaml::Integer(step.exitcode as i64))
        } else {
            None
        }),
    ]
}

/// Whether `result` is a step written with `line` as its command line (an
/// exact command) or its pattern: the command line alone when the mock
/// writes nothing and exits with 0 (and the line is not the hole `_`), else
/// a hash (see `step_fields`).
pub open spec fn step_written(result: Yaml, exact: bool, line: Seq<char>, step: StepView) -> bool {
    if exact && step.stdout.len() == 0 && step.exitcode == 0 && line != "_"@ {
        is_text(result, line)
    } else {
        result matches Yaml::Hash(entries) && written_fields(entries@, step_fields(exact, line, step))
    }
}

/// Whether `result` is how a step is written, the executable of an exact
/// command in a form in which it may be shown.
pub open spec fn written_step(result: Yaml, step: StepView) -> bool {
    match step.matcher {
        MatcherView::Exact(command) => exists|shown: Seq<char>|
            #[trigger] shown_form(Seq::empty(), command.executable, shown) && step_written(
                result,
                true,
                format_command(shown, command.arguments),
                step,
            ),
        MatcherView::Regex(pattern) => step_written(result, false, pattern, step),
    }
}

impl Step {
    /// The step written as YAML: its command line, or a hash with the field
    /// `command` or `regex`, and `stdout` and `exitcode` where they are not
    /// empty or 0. Read back, it gives the step (see `shown_step`).
    pub fn serialize(&self) -> (result: Yaml)
        ensures
            representable_step(self.view()) ==> exists|shown: StepView|
                shown_step(self.view(), shown) && #[trigger] step_of(result) == Ok::<StepView, Seq<char>>(shown),
            !crate::test_spec::is_hole(result),
            written_step(result, self.view()),
    {
        proof {
            reveal_strlit("command");
            reveal_strlit("regex");
            reveal_strlit("stdout");
            reveal_strlit("exitcode");
            reveal_strlit("_");
        }
        let ghost view = self.view();
        let ghost mut matcher = view.matcher;
        let ghost mut text: Seq<char> = Seq::empty();
        let ghost mut shown_executable: Seq<char> = Seq::empty();
        let (command, regex) = match &self.command_matcher {
            CommandMatcher::ExactMatch(command) => {
                let line = command.format();
                let ghost shown_exe = choose|shown: Seq<char>|
                    shown_form(Seq::empty(), command.executable@, shown) && shown_part(command.executable@, shown)
                        && #[trigger] format_command(shown, command.view().arguments) == line@;
                let ghost shown_command = CommandView { executable: shown_exe, arguments: command.view().arguments };
                proof {
                    text = line@;
                    shown_executable = shown_exe;
                    matcher = MatcherView::Exact(shown_command);
                    if representable_step(view) {
                        lemma_plain_part(command.executable@, shown_exe);
                        lemma_format_parse_roundtrip(shown_exe, command.view().arguments);
                        assert(parse_command(line@) == Ok::<CommandView, Seq<char>>(shown_command));
                    }
                }
                let marker = String::from_str("_");
                if self.stdout.len() == 0 && self.exitcode == 0 && line != marker {
                    let result = Yaml::String(line);
                    proof {
                        assert(step_written(result, true, format_command(shown_exe, command.view().arguments), view));
                        assert(written_step(result, view));
                        if representable_step(view) {
                            let shown = plain_step(shown_command);
                            assert(shown.stdout =~= view.stdout);
                            assert(shown_step(view, shown));
                            assert(step_of(result) == Ok::<StepView, Seq<char>>(shown));
                        }
                    }
                    return result;
                }
                (Some(Yaml::String(line)), None)
            },
            CommandMatcher::RegexMatch(regex) => {
                let pattern = regex.original_string();
                proof {
                    text = pattern@;
                }
                (None, Some(Yaml::String(pattern)))
            },
        };
        let stdout = if self.stdout.len() > 0 {
            Some(Yaml::String(utf8_lossy_string(&self.stdout)))
        } else {
            None
        };
        let exitcode = if self.exitcode != 0 {
            Some(Yaml::Integer(self.exitcode as i64))
        } else {
            None
        };
        let keys = vec![
            String::from_str("command"),
            String::from_str("regex"),
            String::from_str("stdout"),
            String::from_str("exitcode"),
        ];
        let values = vec![command, regex, stdout, exitcode];
        let ghost table = values@;
        proof {
            let names = seq!["command"@, "regex"@, "stdout"@, "exitcode"@];
            assert forall|i: int| 0 <= i < keys.len() implies #[trigger] keys@[i]@ == names[i] by {}
            assert forall|i: int, j: int| 0 <= i < j < keys.len() implies keys@[i]@ != keys@[j]@ by {
                assert(keys@[i]@ == names[i]);
                assert(keys@[j]@ == names[j]);
            }
        }
        let entries = fields_hash(&keys, values);
        let result = Yaml::Hash(entries);
        proof {
            let exact = table[0] is Some;
            let shape = step_fields(exact, text, view);
            let fields = exact_fields(keys@, table);
            assert forall|i: int| 0 <= i < fields.len() implies (#[trigger] fields[i]).0 == shape[i].0 && (
            fields[i].1 is Some <==> shape[i].1 is Some) by {
                assert(keys@[i]@ == shape[i].0);
            }
            assert forall|i: int, y: Yaml|
                #![trigger (fields[i].1->Some_0)(y)]
                0 <= i < fields.len() && fields[i].1 is Some && (fields[i].1->Some_0)(y) implies (shape[i].1->Some_0)(
                y,
            ) by {
                assert(y == table[i]->Some_0);
            }
            lemma_written_weaker(entries@, fields, shape);
            assert(step_written(result, exact, text, view));
            assert(written_step(result, view));
            assert(field_value(entries@, "command"@) == table[0]) by { assert(keys@[0]@ == "command"@); }
            assert(field_value(entries@, "regex"@) == table[1]) by { assert(keys@[1]@ == "regex"@); }
            assert(field_value(entries@, "stdout"@) == table[2]) by { assert(keys@[2]@ == "stdout"@); }
            assert(field_value(entries@, "exitcode"@) == table[3]) by { assert(keys@[3]@ == "exitcode"@); }
            if representable_step(view) {
                let shown = StepView { matcher, stdout: view.stdout, exitcode: view.exitcode };
                assert forall|i: int| 0 <= i < keys.len() && table[i] is Some implies step_keys().contains(
                    #[trigger] keys@[i]@,
                ) by {
                    assert(step_keys()[i] == keys@[i]@);
                }
                assert(keys_complaint(step_keys(), entries@) is None);
                assert(shown_step(view, shown));
                assert(crate::test_spec::matcher_of(entries@) == Ok::<MatcherView, Seq<char>>(matcher));
                assert(crate::test_spec::optional_bytes(entries@, "stdout"@) == Ok::<Option<Seq<u8>>, Seq<char>>(
                    if view.stdout.len() > 0 { Some(view.stdout) } else { None }));
                assert(crate::test_spec::optional_integer(entries@, "exitcode"@) == Ok::<Option<i32>, Seq<char>>(
                    if view.exitcode != 0 { Some(view.exitcode) } else { None }));
                if view.stdout.len() == 0 {
                    assert(view.stdout =~= Seq::<u8>::empty());
                }
                assert(step_of(result) == Ok::<StepView, Seq<char>>(shown));
            }
        }
        result
    }
}

/// The entries of a YAML hash with the given fields, in order, leaving out
/// the fields without a value.
fn fields_hash(keys: &Vec<String>, values: Vec<Option<Yaml>>) -> (result: Vec<(Yaml, Yaml)>)
    requires
        keys.len() == values.len(),
        forall|i: int, j: int| 0 <= i < j < keys.len() ==> keys@[i]@ != keys@[j]@,
    ensures
        written_fields(result@, exact_fields(keys@, values@)),
        forall|i: int| 0 <= i < keys.len() ==> #[trigger] field_value(result@, keys@[i]@) == values@[i],
        forall|known: Seq<Seq<char>>|
            (forall|i: int| 0 <= i < keys.len() && values@[i] is Some ==> known.contains(#[trigger] keys@[i]@))
                ==> #[trigger] keys_complaint(known, result@) is None,
{
    let mut entries: Vec<(Yaml, Yaml)> = Vec::new();
    let mut values = values;
    let ghost all = values@;
    let mut i: usize = 0;
    while i < keys.len()
        invariant
            keys.len() == all.len(),
            i <= keys.len(),
            values@.len() == all.len() - i,
            forall|j: int| 0 <= j < values@.len() ==> values@[j] == all[i + j],
            forall|a: int, b: int| 0 <= a < b < keys.len() ==> keys@[a]@ != keys@[b]@,
            forall|j: int|
                0 <= j < keys.len() ==> #[trigger] field_value(entries@, keys@[j]@) == if j < i {
                    all[j]
                } else {
                    None
                },
            forall|known: Seq<Seq<char>>|
                (forall|j: int| 0 <= j < i && all[j] is Some ==> known.contains(#[trigger] keys@[j]@))
                    ==> #[trigger] keys_complaint(known, entries@) is None,
            written_fields(entries@, exact_fields(keys@, all).take(i as int)),
        decreases keys.len() - i,
    {
        let ghost before = entries@;
        let value = values.remove(0);
        assert(value == all[i as int]);
        if let Some(v) = value {
            push_field(&mut entries, keys[i].as_str(), v);
        }
        proof {
            let fields = exact_fields(keys@, all);
            assert(fields.take(i + 1).drop_last() =~= fields.take(i as int));
            assert(fields.take(i + 1).last() == fields[i as int]);
        }
        assert forall|j: int| 0 <= j < keys.len() implies #[trigger] field_value(entries@, keys@[j]@) == if j < i + 1 {
            all[j]
        } else {
            None
        } by {
            if j != i {
                assert(keys@[j]@ != keys@[i as int]@);
            }
        }
        i += 1;
    }
    assert(exact_fields(keys@, all).take(keys.len() as int) =~= exact_fields(keys@, all));
    entries
}

/// Whether `shown` is a test as it reads back once written: the same
/// settings, steps as they read back (see `shown_step`), and no hole.
pub open spec fn shown_test(test: TestView, shown: TestView) -> bool {
    &&& shown.steps.len() == test.steps.len()
    &&& forall|i: int| 0 <= i < test.steps.len() ==> #[trigger] shown_step(test.steps[i], shown.steps[i])
    &&& shown == TestView { steps: shown.steps, ends_with_hole: false, ..test }
}

/// Whether a test reads back once written: its steps do (see
/// `representable_step`), its arguments are not empty, its working
/// directory starts with `/`, and its expected output is valid UTF-8.
pub open spec fn representable_test(test: TestView) -> bool {
    &&& forall|i: int| 0 <= i < test.steps.len() ==> #[trigger] representable_step(test.steps[i])
    &&& forall|i: int| 0 <= i < test.arguments.len() ==> (#[trigger] test.arguments[i]).len() > 0
    &&& (test.cwd matches Some(cwd) ==> cwd.len() > 0 && cwd[0] == '/')
    &&& (test.stdout matches Some(bytes) ==> vstd::utf8::valid_utf8(bytes))
    &&& (test.stderr matches Some(bytes) ==> vstd::utf8::valid_utf8(bytes))
}

/// The YAML strings of some strings.
fn string_items(strings: &Vec<String>) -> (result: Vec<Yaml>)
    ensures
        strings_of(result@) == Ok::<Seq<Seq<char>>, Seq<char>>(strings_view(strings@)),
{
    let mut items: Vec<Yaml> = Vec::new();
    let mut i: usize = 0;
    assert(strings_view(strings@.take(0)) =~= Seq::<Seq<char>>::empty());
    while i < strings.len()
        invariant
            i <= strings.len(),
            items@.len() == i,
            strings_of(items@) == Ok::<Seq<Seq<char>>, Seq<char>>(strings_view(strings@.take(i as int))),
        decreases strings.len() - i,
    {
        let ghost before = items@;
        items.push(Yaml::String(strings[i].clone()));
        assert(items@.drop_last() =~= before);
        assert(strings_view(strings@.take(i + 1)) =~= strings_view(strings@.take(i as int)).push(strings@[i as int]@));
        i += 1;
    }
    assert(strings@.take(strings.len() as int) =~= strings@);
    items
}

/// The entries of a YAML hash of pairs of strings.
fn pair_items(pairs: &Vec<(String, String)>) -> (result: Vec<(Yaml, Yaml)>)
    ensures
        pairs_of(result@) == Ok::<Seq<(Seq<char>, Seq<char>)>, Seq<char>>(pairs_view(pairs@)),
{
    let mut items: Vec<(Yaml, Yaml)> = Vec::new();
    let mut i: usize = 0;
    assert(pairs_view(pairs@.take(0)) =~= Seq::<(Seq<char>, Seq<char>)>::empty());
    while i < pairs.len()
        invariant
            i <= pairs.len(),
            items@.len() == i,
            pairs_of(items@) == Ok::<Seq<(Seq<char>, Seq<char>)>, Seq<char>>(pairs_view(pairs@.take(i as int))),
        decreases pairs.len() - i,
    {
        let ghost before = items@;
        let (key, value) = &pairs[i];
        items.push((Yaml::String(key.clone()), Yaml::String(value.clone())));
        assert(items@.drop_last() =~= before);
        assert(pairs_view(pairs@.take(i + 1)) =~= pairs_view(pairs@.take(i as int)).push(
            (pairs@[i as int].0@, pairs@[i as int].1@),
        ));
        i += 1;
    }
    assert(pairs@.take(pairs.len() as int) =~= pairs@);
    items
}

/// Whether `shown` are steps as they read back once written (see
/// `shown_step`).
pub open spec fn shown_steps(steps: Seq<StepView>, shown: Seq<StepView>) -> bool {
    &&& shown.len() == steps.len()
    &&& forall|i: int| 0 <= i < steps.len() ==> #[trigger] shown_step(steps[i], shown[i])
}

/// The YAML values of the steps of a test.
fn step_items(test: &Test) -> (result: Vec<Yaml>)
    ensures
        result@.len() == test.view().steps.len(),
        forall|i: int| 0 <= i < result@.len() ==> !crate::test_spec::is_hole(#[trigger] result@[i]),
        forall|i: int| 0 <= i < result@.len() ==> written_step(#[trigger] result@[i], test.view().steps[i]),
        representable_test(test.view()) ==> exists|shown: Seq<StepView>|
            #[trigger] shown_steps(test.view().steps, shown) && steps_of(result@) == Ok::<Seq<StepView>, Seq<char>>(
                shown,
            ),
{
    let ghost steps = test.view().steps;
    let mut items: Vec<Yaml> = Vec::new();
    let mut i: usize = 0;
    assert(shown_steps(steps.take(0), Seq::<StepView>::empty()));
    assert(steps_of(items@) == Ok::<Seq<StepView>, Seq<char>>(Seq::<StepView>::empty()));
    while i < test.steps.len()
        invariant
            i <= test.steps@.len(),
            steps == test.view().steps,
            items@.len() == i,
            forall|j: int| 0 <= j < items@.len() ==> !crate::test_spec::is_hole(#[trigger] items@[j]),
            forall|j: int| 0 <= j < items@.len() ==> written_step(#[trigger] items@[j], steps[j]),
            representable_test(test.view()) ==> exists|shown: Seq<StepView>|
                #[trigger] shown_steps(steps.take(i as int), shown) && steps_of(items@) == Ok::<
                    Seq<StepView>,
                    Seq<char>,
                >(shown),
        decreases test.steps@.len() - i,
    {
        let ghost before = items@;
        let item = test.steps[i].serialize();
        items.push(item);
        assert(items@.drop_last() =~= before);
        assert(items@.last() == item);
        assert(steps[i as int] == test.steps@[i as int].view());
        assert(forall|j: int| 0 <= j < i ==> items@[j] == before[j]);
        proof {
            if representable_test(test.view()) {
                let prefix = choose|shown: Seq<StepView>|
                    #[trigger] shown_steps(steps.take(i as int), shown) && steps_of(before) == Ok::<
                        Seq<StepView>,
                        Seq<char>,
                    >(shown);
                assert(steps[i as int] == test.steps@[i as int].view());
                assert(representable_step(steps[i as int]));
                let last = choose|shown: StepView|
                    shown_step(test.steps@[i as int].view(), shown) && #[trigger] step_of(item)
                        == Ok::<StepView, Seq<char>>(shown);
                let next = prefix.push(last);
                assert forall|j: int| 0 <= j < i + 1 implies #[trigger] shown_step(steps.take(i + 1)[j], next[j]) by {
                    if j < i {
                        assert(shown_step(steps.take(i as int)[j], prefix[j]));
                    }
                }
                assert(shown_steps(steps.take(i + 1), next));
                assert(steps_of(items@) == Ok::<Seq<StepView>, Seq<char>>(next));
            }
        }
        i += 1;
    }
    assert(steps.take(i as int) =~= steps);
    items
}

/// The fields of a test written as a hash, in the order arguments, env,
/// cwd, mockedFiles, stdout, stderr, steps, exitcode; those that are empty
/// or absent are left out, the steps never.
pub open spec fn test_fields(test: TestView) -> Seq<FieldShape> {
    seq![
        ("arguments"@, if test.arguments.len() > 0 {
            Some(|y: Yaml| is_text(y, crate::command::joined_arguments(test.arguments)))
        } else {
            None
        }),
        ("env"@, if test.env.len() > 0 {
            Some(|y: Yaml| y matches Yaml::Hash(pairs) && pairs_of(pairs@) == Ok::<Seq<(Seq<char>, Seq<char>)>, Seq<char>>(test.env))
        } else {
            None
        }),
        ("cwd"@, match test.cwd {
            Some(cwd) => Some(|y: Yaml| is_text(y, cwd)),
            None => None,
        }),
        ("mockedFiles"@, if test.mocked_files.len() > 0 {
            Some(|y: Yaml| y matches Yaml::Array(items) && strings_of(items@) == Ok::<Seq<Seq<char>>, Seq<char>>(test.mocked_files))
        } else {
            None
        }),
        ("stdout"@, match test.stdout {
            Some(bytes) => Some(|y: Yaml| is_text(y, crate::text::utf8_lossy(bytes))),
            None => None,
        }),
        ("stderr"@, match test.stderr {
            Some(bytes) => Some(|y: Yaml| is_text(y, crate::text::utf8_lossy(bytes))),
            None => None,
        }),
        ("steps"@, Some(|y: Yaml| y matches Yaml::Array(items) && items.len() == test.steps.len() && forall|i: int|
            0 <= i < items.len() ==> written_step(#[trigger] items@[i], test.steps[i]))),
        ("exitcode"@, match test.exitcode {
            Some(n) => Some(|y: Yaml| y == Yaml::Integer(n as i64)),
            None => None,
        }),
    ]
}

/// Whether `result` is how a test is written (see `test_fields`).
pub open spec fn written_test(result: Yaml, test: TestView) -> bool {
    result matches Yaml::Hash(entries) && written_fields(entries@, test_fields(test))
}

impl Test {
    /// The test written as a YAML hash, with the fields that are not empty,
    /// in the order arguments, env, cwd, mockedFiles, stdout, stderr, steps,
    /// exitcode; it has no hole. Read back, it gives the test (see
    /// `shown_test`).
    #[verifier::rlimit(50)]
    pub fn serialize(&self) -> (result: Yaml)
        ensures
            result matches Yaml::Hash(entries) && (representable_test(self.view()) ==> exists|shown: TestView|
                #[trigger] shown_test(self.view(), shown) && test_of(entries@) == Ok::<TestView, Seq<char>>(shown)),
            written_test(result, self.view()),
    {
        proof {
            reveal_strlit("arguments");
            reveal_strlit("env");
            reveal_strlit("cwd");
            reveal_strlit("mockedFiles");
            reveal_strlit("stdout");
            reveal_strlit("stderr");
            reveal_strlit("exitcode");
            reveal_strlit("steps");
        }
        let ghost view = self.view();
        let keys = vec![
            String::from_str("arguments"),
            String::from_str("env"),
            String::from_str("cwd"),
            String::from_str("mockedFiles"),
            String::from_str("stdout"),
            String::from_str("stderr"),
            String::from_str("steps"),
            String::from_str("exitcode"),
        ];
        let arguments = if self.arguments.len() > 0 {
            let line = crate::command::format_arguments(&self.arguments);
            assert(self.arguments@.map_values(|a: String| a@) =~= view.arguments);
            proof {
                if representable_test(view) {
                    lemma_arguments_roundtrip(view.arguments);
                }
            }
            Some(Yaml::String(line))
        } else {
            None
        };
        let env = if self.env.len() > 0 {
            Some(Yaml::Hash(pair_items(&self.env)))
        } else {
            None
        };
        let cwd = match &self.cwd {
            Some(cwd) => Some(Yaml::String(cwd.clone())),
            None => None,
        };
        let mocked_files = if self.mocked_files.len() > 0 {
            Some(Yaml::Array(string_items(&self.mocked_files)))
        } else {
            None
        };
        let stdout = match &self.stdout {
            Some(bytes) => Some(Yaml::String(utf8_lossy_string(bytes))),
            None => None,
        };
        let stderr = match &self.stderr {
            Some(bytes) => Some(Yaml::String(utf8_lossy_string(bytes))),
            None => None,
        };
        let items = step_items(self);
        let ghost step_values = items@;
        let exitcode = match self.exitcode {
            Some(n) => Some(Yaml::Integer(n as i64)),
            None => None,
        };
        let values = vec![arguments, env, cwd, mocked_files, stdout, stderr, Some(Yaml::Array(items)), exitcode];
        proof {
            let names = seq![
                "arguments"@,
                "env"@,
                "cwd"@,
                "mockedFiles"@,
                "stdout"@,
                "stderr"@,
                "steps"@,
                "exitcode"@,
            ];
            assert forall|i: int| 0 <= i < keys.len() implies #[trigger] keys@[i]@ == names[i] by {}
            assert("env"@[0] != "cwd"@[0]);
            assert("stdout"@[3] != "stderr"@[3]);
            assert forall|i: int, j: int| 0 <= i < j < keys.len() implies keys@[i]@ != keys@[j]@ by {
                assert(keys@[i]@ == names[i]);
                assert(keys@[j]@ == names[j]);
            }
        }
        let ghost table = values@;
        let entries = fields_hash(&keys, values);
        assert(written_test(Yaml::Hash(entries), view)) by {
            let shape = test_fields(view);
            let fields = exact_fields(keys@, table);
            assert(self.arguments@.map_values(|a: String| a@) =~= view.arguments);
            assert forall|i: int| 0 <= i < fields.len() implies (#[trigger] fields[i]).0 == shape[i].0 && (
            fields[i].1 is Some <==> shape[i].1 is Some) by {
                assert(keys@[i]@ == shape[i].0);
            }
            assert forall|i: int, y: Yaml|
                #![trigger (fields[i].1->Some_0)(y)]
                0 <= i < fields.len() && fields[i].1 is Some && (fields[i].1->Some_0)(y) implies (shape[i].1->Some_0)(
                y,
            ) by {
                assert(y == table[i]->Some_0);
                if i == 6 {
                    assert(y == Yaml::Array(items));
                    assert(items@ == step_values);
                }
            }
            lemma_written_weaker(entries@, fields, shape);
        }
        proof {
            assert(field_value(entries@, "arguments"@) == table[0]) by { assert(keys@[0]@ == "arguments"@); }
            assert(field_value(entries@, "env"@) == table[1]) by { assert(keys@[1]@ == "env"@); }
            assert(field_value(entries@, "cwd"@) == table[2]) by { assert(keys@[2]@ == "cwd"@); }
            assert(field_value(entries@, "mockedFiles"@) == table[3]) by { assert(keys@[3]@ == "mockedFiles"@); }
            assert(field_value(entries@, "stdout"@) == table[4]) by { assert(keys@[4]@ == "stdout"@); }
            assert(field_value(entries@, "stderr"@) == table[5]) by { assert(keys@[5]@ == "stderr"@); }
            assert(field_value(entries@, "steps"@) == table[6]) by { assert(keys@[6]@ == "steps"@); }
            assert(field_value(entries@, "exitcode"@) == table[7]) by { assert(keys@[7]@ == "exitcode"@); }
            if representable_test(view) {
                let read_steps = choose|shown: Seq<StepView>|
                    #[trigger] shown_steps(view.steps, shown) && steps_of(step_values) == Ok::<
                        Seq<StepView>,
                        Seq<char>,
                    >(shown);
                let shown = TestView { steps: read_steps, ends_with_hole: false, ..view };
                assert(shown_test(view, shown));
                assert forall|i: int| 0 <= i < keys.len() && table[i] is Some implies test_keys().contains(
                    #[trigger] keys@[i]@,
                ) by {
                    if i == 0 { assert(test_keys()[0] == keys@[i]@); }
                    if i == 1 { assert(test_keys()[1] == keys@[i]@); }
                    if i == 2 { assert(test_keys()[2] == keys@[i]@); }
                    if i == 3 { assert(test_keys()[3] == keys@[i]@); }
                    if i == 4 { assert(test_keys()[4] == keys@[i]@); }
                    if i == 5 { assert(test_keys()[5] == keys@[i]@); }
                    if i == 6 { assert(test_keys()[7] == keys@[i]@); }
                    if i == 7 { assert(test_keys()[6] == keys@[i]@); }
                }
                assert(keys_complaint(test_keys(), entries@) is None);
                if step_values.len() > 0 {
                    assert(!crate::test_spec::is_hole(step_values.last()));
                }
                assert(crate::test_spec::test_steps_of(entries@) == Ok::<(Seq<StepView>, bool), Seq<char>>(
                    (read_steps, false),
                ));
                if view.arguments.len() == 0 {
                    assert(view.arguments =~= Seq::<Seq<char>>::empty());
                }
                assert(crate::test_spec::arguments_of(entries@) == Ok::<Seq<Seq<char>>, Seq<char>>(view.arguments));
                if view.env.len() == 0 {
                    assert(view.env =~= Seq::<(Seq<char>, Seq<char>)>::empty());
                }
                assert(crate::test_spec::env_of(entries@) == Ok::<Seq<(Seq<char>, Seq<char>)>, Seq<char>>(view.env));
                assert(crate::test_spec::cwd_of(entries@) == Ok::<Option<Seq<char>>, Seq<char>>(view.cwd));
                if view.mocked_files.len() == 0 {
                    assert(view.mocked_files =~= Seq::<Seq<char>>::empty());
                }
                assert(crate::test_spec::mocked_files_of(entries@) == Ok::<Seq<Seq<char>>, Seq<char>>(
                    view.mocked_files,
                ));
                assert(crate::test_spec::optional_bytes(entries@, "stdout"@) == Ok::<Option<Seq<u8>>, Seq<char>>(
                    view.stdout,
                ));
                assert(crate::test_spec::optional_bytes(entries@, "stderr"@) == Ok::<Option<Seq<u8>>, Seq<char>>(
                    view.stderr,
                ));
                assert(crate::test_spec::optional_integer(entries@, "exitcode"@) == Ok::<Option<i32>, Seq<char>>(
                    view.exitcode,
                ));
                assert(test_of(entries@) == Ok::<TestView, Seq<char>>(shown));
            }
        }
        Yaml::Hash(entries)
    }
}

/// Whether `shown` are tests as they read back once written (see
/// `shown_test`).
pub open spec fn shown_test_list(tests: Seq<TestView>, shown: Seq<TestView>) -> bool {
    &&& shown.len() == tests.len()
    &&& forall|i: int| 0 <= i < tests.len() ==> #[trigger] shown_test(tests[i], shown[i])
}

/// Whether `shown` is a test file as it reads back once written: the tests
/// as they read back, the same unmocked commands and interpreter.
pub open spec fn shown_tests(tests: TestsView, shown: TestsView) -> bool {
    &&& shown_test_list(tests.tests, shown.tests)
    &&& shown.unmocked_commands == tests.unmocked_commands
    &&& shown.interpreter == tests.interpreter
}

/// Whether the tests of a test file read back once written (see
/// `representable_test`).
pub open spec fn representable_tests(tests: TestsView) -> bool {
    forall|i: int| 0 <= i < tests.tests.len() ==> #[trigger] representable_test(tests.tests[i])
}

/// The YAML values of the tests of a test file.
fn test_items(tests: &Tests) -> (result: Vec<Yaml>)
    ensures
        result@.len() == tests.view().tests.len(),
        forall|i: int| 0 <= i < result@.len() ==> written_test(#[trigger] result@[i], tests.view().tests[i]),
        representable_tests(tests.view()) ==> exists|shown: Seq<TestView>|
            #[trigger] shown_test_list(tests.view().tests, shown) && tests_of(result@) == Ok::<
                Seq<TestView>,
                Seq<char>,
            >(shown),
{
    let ghost all = tests.view().tests;
    let mut items: Vec<Yaml> = Vec::new();
    let mut i: usize = 0;
    assert(shown_test_list(all.take(0), Seq::<TestView>::empty()));
    assert(tests_of(items@) == Ok::<Seq<TestView>, Seq<char>>(Seq::<TestView>::empty()));
    while i < tests.tests.len()
        invariant
            i <= tests.tests@.len(),
            all == tests.view().tests,
            items@.len() == i,
            forall|j: int| 0 <= j < items@.len() ==> written_test(#[trigger] items@[j], all[j]),
            representable_tests(tests.view()) ==> exists|shown: Seq<TestView>|
                #[trigger] shown_test_list(all.take(i as int), shown) && tests_of(items@) == Ok::<
                    Seq<TestView>,
                    Seq<char>,
                >(shown),
        decreases tests.tests@.len() - i,
    {
        let ghost before = items@;
        let item = tests.tests[i].serialize();
        let ghost item_value = item;
        items.push(item);
        assert(items@.drop_last() =~= before);
        assert(items@.last() == item_value);
        assert(all[i as int] == tests.tests@[i as int].view());
        assert(forall|j: int| 0 <= j < i ==> items@[j] == before[j]);
        proof {
            if representable_tests(tests.view()) {
                let prefix = choose|shown: Seq<TestView>|
                    #[trigger] shown_test_list(all.take(i as int), shown) && tests_of(before) == Ok::<
                        Seq<TestView>,
                        Seq<char>,
                    >(shown);
                assert(all[i as int] == tests.tests@[i as int].view());
                assert(representable_test(all[i as int]));
                let entries = match item_value {
                    Yaml::Hash(entries) => entries@,
                    _ => Seq::empty(),
                };
                let last = choose|shown: TestView|
                    #[trigger] shown_test(tests.tests@[i as int].view(), shown) && test_of(entries) == Ok::<
                        TestView,
                        Seq<char>,
                    >(shown);
                let next = prefix.push(last);
                assert forall|j: int| 0 <= j < i + 1 implies #[trigger] shown_test(all.take(i + 1)[j], next[j]) by {
                    if j < i {
                        assert(shown_test(all.take(i as int)[j], prefix[j]));
                    }
                }
                assert(shown_test_list(all.take(i + 1), next));
                assert(tests_of(items@) == Ok::<Seq<TestView>, Seq<char>>(next));
            }
        }
        i += 1;
    }
    assert(all.take(i as int) =~= all);
    items
}

/// The fields of a test file written as a hash, in the order
/// unmockedCommands, interpreter, tests; the first is left out when there
/// are no unmocked commands, the second when there is no interpreter.
pub open spec fn file_fields(tests: TestsView) -> Seq<FieldShape> {
    seq![
        ("unmockedCommands"@, if tests.unmocked_commands.len() > 0 {
            Some(|y: Yaml| y matches Yaml::Array(items) && strings_of(items@) == Ok::<Seq<Seq<char>>, Seq<char>>(tests.unmocked_commands))
        } else {
            None
        }),
        ("interpreter"@, match tests.interpreter {
            Some(interpreter) => Some(|y: Yaml| is_text(y, interpreter)),
            None => None,
        }),
        ("tests"@, Some(|y: Yaml| y matches Yaml::Array(items) && items.len() == tests.tests.len() && forall|i: int|
            0 <= i < items.len() ==> written_test(#[trigger] items@[i], tests.tests[i]))),
    ]
}

/// Whether `result` is how a test file is written (see `file_fields`).
pub open spec fn written_tests(result: Yaml, tests: TestsView) -> bool {
    result matches Yaml::Hash(entries) && written_fields(entries@, file_fields(tests))
}

impl Tests {
    /// The test file written as a YAML hash: the unmocked commands, if any,
    /// the interpreter, if any, and the tests. Read back, it gives the tests
    /// (see `shown_tests`).
    pub fn serialize(&self) -> (result: Yaml)
        ensures
            written_tests(result, self.view()),
            representable_tests(self.view()) ==> exists|shown: TestsView|
                #[trigger] shown_tests(self.view(), shown) && tests_from_yaml(result) == Ok::<TestsView, Seq<char>>(
                    shown,
                ),
    {
        proof {
            reveal_strlit("unmockedCommands");
            reveal_strlit("interpreter");
            reveal_strlit("tests");
        }
        let ghost view = self.view();
        let keys = vec![String::from_str("unmockedCommands"), String::from_str("interpreter"), String::from_str("tests")];
        let unmocked = if self.unmocked_commands.len() > 0 {
            Some(Yaml::Array(string_items(&self.unmocked_commands)))
        } else {
            None
        };
        let interpreter = match &self.interpreter {
            Some(interpreter) => Some(Yaml::String(interpreter.clone())),
            None => None,
        };
        let items = test_items(self);
        let ghost test_values = items@;
        let values = vec![unmocked, interpreter, Some(Yaml::Array(items))];
        let ghost table = values@;
        proof {
            let names = seq!["unmockedCommands"@, "interpreter"@, "tests"@];
            assert forall|i: int| 0 <= i < keys.len() implies #[trigger] keys@[i]@ == names[i] by {}
            assert forall|i: int, j: int| 0 <= i < j < keys.len() implies keys@[i]@ != keys@[j]@ by {
                assert(keys@[i]@ == names[i]);
                assert(keys@[j]@ == names[j]);
            }
        }
        let entries = fields_hash(&keys, values);
        let result = Yaml::Hash(entries);
        assert(written_tests(result, view)) by {
            let shape = file_fields(view);
            let fields = exact_fields(keys@, table);
            assert forall|i: int| 0 <= i < fields.len() implies (#[trigger] fields[i]).0 == shape[i].0 && (
            fields[i].1 is Some <==> shape[i].1 is Some) by {
                assert(keys@[i]@ == shape[i].0);
            }
            assert forall|i: int, y: Yaml|
                #![trigger (fields[i].1->Some_0)(y)]
                0 <= i < fields.len() && fields[i].1 is Some && (fields[i].1->Some_0)(y) implies (shape[i].1->Some_0)(
                y,
            ) by {
                assert(y == table[i]->Some_0);
            }
            lemma_written_weaker(entries@, fields, shape);
        }
        proof {
            assert(field_value(entries@, "unmockedCommands"@) == table[0]) by {
                assert(keys@[0]@ == "unmockedCommands"@);
            }
            assert(field_value(entries@, "interpreter"@) == table[1]) by {
                assert(keys@[1]@ == "interpreter"@);
            }
            assert(field_value(entries@, "tests"@) == table[2]) by {
                assert(keys@[2]@ == "tests"@);
            }
            if representable_tests(view) {
                let read_tests = choose|shown: Seq<TestView>|
                    #[trigger] shown_test_list(view.tests, shown) && tests_of(test_values) == Ok::<
                        Seq<TestView>,
                        Seq<char>,
                    >(shown);
                let shown = TestsView { tests: read_tests, ..view };
                assert(shown_tests(view, shown));
                assert forall|i: int| 0 <= i < keys.len() && table[i] is Some implies file_keys().contains(
                    #[trigger] keys@[i]@,
                ) by {
                    if i == 0 { assert(file_keys()[1] == keys@[i]@); }
                    if i == 1 { assert(file_keys()[2] == keys@[i]@); }
                    if i == 2 { assert(file_keys()[0] == keys@[i]@); }
                }
                assert(keys_complaint(file_keys(), entries@) is None);
                if view.unmocked_commands.len() == 0 {
                    assert(view.unmocked_commands =~= Seq::<Seq<char>>::empty());
                }
                assert(crate::test_spec::unmocked_commands_of(entries@) == Ok::<Seq<Seq<char>>, Seq<char>>(
                    view.unmocked_commands,
                ));
                assert(crate::test_spec::optional_string(entries@, "interpreter"@) == Ok::<
                    Option<Seq<char>>,
                    Seq<char>,
                >(view.interpreter));
                assert(tests_from_yaml(result) == Ok::<TestsView, Seq<char>>(shown));
            }
        }
        result
    }
}

} // verus!
