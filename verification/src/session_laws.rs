//! What is exported as text can be imported again.
use vstd::prelude::*;
use vstd::utf8::encode_utf8;
use crate::control::HttpControlError;
use crate::json::{json_field, json_fields, json_items, json_text, Json, JsonField};
use crate::rpc_budget::{RpcAccounts, RpcRequestLease};
use crate::session_aria2::{
    after_line, answered, begun, course, described, finished, holds_marker, is_line_option, line_options, lines_match,
    marker_text, names_no_uris, option_line, uri_line, Course, CurrentView, ImportView, Marker, Paid,
};
use crate::session_file::{
    form, lemma_field_at_end, lemma_field_of_option, option_forms, task_of, task_uris, texts_in, OptionForm,
    SessionLimits, TaskFindings, TaskView, MAX_SESSION_LINE_BYTES,
};
use crate::session_import::JsonFault;
use crate::session_lines::{is_ascii_white, lines, start_trimmed};
use crate::session_render::{
    aria2_text, is_control, json_at, line_uri, line_value, option_text, written, written_comment, written_line,
    written_options, written_task, written_tasks, written_uris, Written,
};
use crate::session_text::{
    fits, is_line, is_word, joined, law_lines_undo_joining, law_words_undo_tabbing, lemma_ascii_bytes,
    lemma_bytes_add, lemma_joined, lemma_not_blank, lemma_trimmed_start, tabbed,
};
use crate::text::{byte_len, char_from, is_white, trimmed};

verus! {

/// The addresses that a list names.
pub open spec fn named_uris(items: Seq<Json>) -> Seq<Seq<char>> {
    Seq::new(items.len(), |i: int| json_text(items[i])->0)
}

/// A name that an option line can carry.
pub open spec fn is_line_name(name: Seq<char>) -> bool {
    &&& name.len() > 0
    &&& trimmed(name) == name
    &&& name[0] != '#'
    &&& !name.contains('=')
    &&& !name.contains('\n')
    &&& fits(name)
    &&& byte_len(name) <= 1024
}

/// A value that an option line can carry.
pub open spec fn is_line_value(value: Json) -> bool {
    json_text(value) is Some ==> trimmed(json_text(value)->0) == json_text(value)->0 && fits(json_text(value)->0)
}

/// Whether a task is one that lines can carry: its JSON is one line; its
/// addresses are not empty, and the first begins with neither white space nor
/// `#`; the names and values of its options have no white space around them, no
/// name stands twice or holds `=`, and there are no more options than an import
/// takes.
pub open spec fn is_portable(task: Json, json: Seq<char>, options: Seq<String>) -> bool {
    &&& is_line(json) && fits(json)
    &&& json_field(task, "uris"@) matches Some(Json::Array(items)) ==> {
        &&& forall|i: int| 0 <= i < items@.len() && json_text(#[trigger] items@[i]) is Some ==> json_text(items@[i])->0.len() > 0
            && fits(json_text(items@[i])->0)
        &&& items@.len() > 0 && json_text(items@[0]) is Some ==> !is_white(json_text(items@[0])->0[0]) && json_text(
            items@[0],
        )->0[0] != '#'
    }
    &&& json_field(task, "options"@) matches Some(Json::Object(fields)) ==> {
        &&& fields@.len() <= 1024
        &&& forall|i: int| 0 <= i < fields@.len() && is_line_option(options, (#[trigger] fields@[i]).name@)
            ==> is_line_name(fields@[i].name@) && is_line_value(fields@[i].value)
        &&& forall|i: int, j: int| 0 <= i < j < fields@.len() ==> (#[trigger] fields@[i]).name@ != (#[trigger] fields@[j]).name@
    }
}

/// The comment line of a task.
pub open spec fn comment_line(json: Seq<char>) -> Seq<char> {
    "# ariax-task "@ + json
}

/// The line of an option.
pub open spec fn option_entry(name: Seq<char>, value: Seq<char>) -> Seq<char> {
    "  "@ + name + "="@ + value
}

/// The lines of the first `n` options.
pub open spec fn option_entries(fields: Seq<JsonField>, options: Seq<String>, n: int) -> Seq<Seq<char>>
    decreases n,
{
    if n <= 0 {
        Seq::empty()
    } else if is_line_option(options, fields[n - 1].name@) {
        option_entries(fields, options, n - 1).push(
            option_entry(fields[n - 1].name@, json_text(fields[n - 1].value)->0),
        )
    } else {
        option_entries(fields, options, n - 1)
    }
}

/// The addresses of a task, as JSON.
pub open spec fn uri_items(task: Json) -> Seq<Json> {
    json_items(json_field(task, "uris"@)->0)->0
}

/// The options of a task, as JSON.
pub open spec fn option_fields(task: Json) -> Seq<JsonField> {
    json_fields(json_field(task, "options"@)->0)->0
}

/// The lines of a task.
pub open spec fn task_lines(task: Json, json: Seq<char>, options: Seq<String>) -> Seq<Seq<char>> {
    let items = uri_items(task);
    let fields = option_fields(task);
    if items.len() == 0 {
        seq![comment_line(json)]
    } else {
        seq![comment_line(json), tabbed(named_uris(items))] + option_entries(fields, options, fields.len() as int)
    }
}

/// A line that an import takes.
pub open spec fn is_short_line(line: Seq<char>) -> bool {
    is_line(line) && byte_len(line) <= MAX_SESSION_LINE_BYTES
}

spec fn size(s: Seq<char>) -> int {
    encode_utf8(s).len() as int
}

/// Writing grows a text by what is written.
proof fn lemma_written(before: Written, more: Seq<char>, limit: int)
    requires
        written(before, more, limit) is Ok,
        fits(more),
    ensures
        written(before, more, limit)->Ok_0.text == before.text + more,
        written(before, more, limit)->Ok_0.bytes == before.bytes + size(more),
        before.bytes + size(more) <= limit,
{
}

proof fn lemma_literals()
    ensures
        "\t"@ == seq!['\t'],
        "\n"@ == seq!['\n'],
        "="@ == seq!['='],
        "  "@ == seq![' ', ' '],
        "# ariax-task "@.len() == 13,
        "# ariax-task "@[0] == '#',
        !"# ariax-task "@.contains('\n'),
        "# ariax-task "@.last() == ' ',
        size("\t"@) == 1,
        size("\n"@) == 1,
        size("="@) == 1,
        size("  "@) == 2,
        size("# ariax-task "@) == 13,
{
    reveal_strlit("\t");
    reveal_strlit("\n");
    reveal_strlit("=");
    reveal_strlit("  ");
    reveal_strlit("# ariax-task ");
    assert("\t"@ =~= seq!['\t']);
    assert("\n"@ =~= seq!['\n']);
    assert("="@ =~= seq!['=']);
    assert("  "@ =~= seq![' ', ' ']);
    lemma_ascii_bytes("\t"@);
    lemma_ascii_bytes("\n"@);
    lemma_ascii_bytes("="@);
    lemma_ascii_bytes("  "@);
    lemma_ascii_bytes("# ariax-task "@);
}

/// What a line of addresses is once it is written.
proof fn lemma_uris_written(before: Written, items: Seq<Json>, limit: int, n: int)
    requires
        0 <= n <= items.len(),
        written_uris(before, items, limit, n) is Ok,
        forall|i: int| 0 <= i < items.len() && json_text(#[trigger] items[i]) is Some ==> fits(json_text(items[i])->0),
    ensures
        forall|i: int| 0 <= i < n ==> (#[trigger] line_uri(items[i])) is Some,
        written_uris(before, items, limit, n)->Ok_0.text == before.text + tabbed(named_uris(items).take(n)),
        written_uris(before, items, limit, n)->Ok_0.bytes == before.bytes + size(tabbed(named_uris(items).take(n))),
    decreases n,
{
    lemma_literals();
    let uris = named_uris(items);
    if n == 0 {
        assert(uris.take(0) =~= Seq::empty());
        assert(before.text + tabbed(uris.take(0)) =~= before.text);
    } else {
        lemma_uris_written(before, items, limit, n - 1);
        let so_far = written_uris(before, items, limit, n - 1)->Ok_0;
        assert(line_uri(items[n - 1]) is Some);
        let uri = line_uri(items[n - 1])->0;
        assert(json_text(items[n - 1]) == Some(uri));
        assert(uris[n - 1] == uri);
        assert(uris.take(n).drop_last() =~= uris.take(n - 1));
        if n == 1 {
            assert(uris.take(0) =~= Seq::empty());
            lemma_written(so_far, uri, limit);
            assert(uris.take(1)[0] == uri);
            assert(so_far.text + uri =~= before.text + tabbed(uris.take(1)));
        } else {
            let separated = written(so_far, "\t"@, limit)->Ok_0;
            lemma_written(so_far, "\t"@, limit);
            lemma_written(separated, uri, limit);
            let head = tabbed(uris.take(n - 1));
            lemma_bytes_add(head + seq!['\t'], uri);
            lemma_bytes_add(head, seq!['\t']);
            assert(tabbed(uris.take(n)) == head + seq!['\t'] + uri);
            assert(separated.text + uri =~= before.text + tabbed(uris.take(n)));
        }
    }
}

/// What option lines are once they are written.
proof fn lemma_options_written(before: Written, fields: Seq<JsonField>, options: Seq<String>, limit: int, n: int)
    requires
        0 <= n <= fields.len(),
        written_options(before, fields, options, limit, n) is Ok,
        forall|i: int| 0 <= i < fields.len() && is_line_option(options, (#[trigger] fields[i]).name@) ==> is_line_name(
            fields[i].name@,
        ) && is_line_value(fields[i].value),
    ensures
        forall|i: int| 0 <= i < n && is_line_option(options, (#[trigger] fields[i]).name@) ==> fields[i].value is Text,
        written_options(before, fields, options, limit, n)->Ok_0.text == before.text + joined(
            option_entries(fields, options, n),
        ),
        forall|i: int| 0 <= i < option_entries(fields, options, n).len() ==> is_short_line(
            #[trigger] option_entries(fields, options, n)[i],
        ),
        option_entries(fields, options, n).len() <= n,
    decreases n,
{
    if n == 0 {
        assert(before.text + joined(option_entries(fields, options, 0)) =~= before.text);
    } else {
        lemma_options_written(before, fields, options, limit, n - 1);
        let so_far = written_options(before, fields, options, limit, n - 1)->Ok_0;
        let name = fields[n - 1].name@;
        let entries = option_entries(fields, options, n - 1);
        if is_line_option(options, name) {
            assert(is_line_name(name) && is_line_value(fields[n - 1].value));
            assert(line_value(fields[n - 1].value) is Some);
            let value = line_value(fields[n - 1].value)->0;
            lemma_entry(name, value);
            lemma_literals();
            let entry = option_entry(name, value);
            lemma_bytes_add(entry, "\n"@);
            assert(option_text(name, value) == entry + "\n"@);
            lemma_written(so_far, option_text(name, value), limit);
            assert(entries.push(entry).drop_last() =~= entries);
            assert(so_far.text + option_text(name, value) =~= before.text + joined(entries.push(entry)));
        }
    }
}

/// An option line is a line, of so many bytes.
proof fn lemma_entry(name: Seq<char>, value: Seq<char>)
    requires
        is_line_name(name),
        fits(value),
        forall|i: int| 0 <= i < value.len() ==> !is_control(#[trigger] value[i]),
        byte_len(name) + byte_len(value) + 3 <= MAX_SESSION_LINE_BYTES,
    ensures
        is_short_line(option_entry(name, value)),
        size(option_entry(name, value)) == size(name) + size(value) + 3,
        fits(option_entry(name, value) + "\n"@),
{
    lemma_literals();
    let entry = option_entry(name, value);
    lemma_bytes_add("  "@ + name + "="@, value);
    lemma_bytes_add("  "@ + name, "="@);
    lemma_bytes_add("  "@, name);
    lemma_bytes_add(entry, "\n"@);
    assert forall|i: int| 0 <= i < entry.len() implies entry[i] != '\n' by {
        if i < 2 {
            assert(entry[i] == ' ');
        } else if i < 2 + name.len() {
            assert(entry[i] == name[i - 2]);
            assert(name.contains(name[i - 2]));
        } else if i == 2 + name.len() {
            assert(entry[i] == '=');
        } else {
            assert(entry[i] == value[i - 3 - name.len()]);
        }
    }
    if value.len() > 0 {
        assert(entry.last() == value[value.len() - 1]);
    } else {
        assert(entry.last() == '=');
    }
}

/// What a task's lines are once they are written.
#[verifier::spinoff_prover]
proof fn lemma_task_written(before: Written, task: Json, json: Seq<char>, options: Seq<String>, limit: int)
    requires
        written_task(before, task, json, options, limit) is Ok,
        is_portable(task, json, options),
        before.bytes >= 0,
    ensures
        json_field(task, "uris"@) is Some && json_field(task, "uris"@)->0 is Array,
        json_field(task, "options"@) is Some && json_field(task, "options"@)->0 is Object,
        written_task(before, task, json, options, limit)->Ok_0.text == before.text + joined(
            task_lines(task, json, options),
        ),
        written_task(before, task, json, options, limit)->Ok_0.bytes >= 0,
        forall|i: int| 0 <= i < task_lines(task, json, options).len() ==> is_short_line(
            #[trigger] task_lines(task, json, options)[i],
        ),
        byte_len(json) <= limit,
        uri_items(task).len() > 0 ==> {
            &&& forall|i: int| 0 <= i < uri_items(task).len() ==> (#[trigger] line_uri(uri_items(task)[i])) is Some
            &&& forall|i: int| 0 <= i < option_fields(task).len() && is_line_option(
                options,
                (#[trigger] option_fields(task)[i]).name@,
            ) ==> option_fields(task)[i].value is Text && line_value(option_fields(task)[i].value) is Some
        },
{
    lemma_literals();
    let items = uri_items(task);
    let fields = option_fields(task);
    let comment = comment_line(json);
    let commented = written_comment(before, json, limit)->Ok_0;
    let opened = written(before, "# ariax-task "@, limit)->Ok_0;
    lemma_written(before, "# ariax-task "@, limit);
    lemma_written(opened, json, limit);
    let noted = written(opened, json, limit)->Ok_0;
    lemma_written(noted, "\n"@, limit);
    lemma_bytes_add("# ariax-task "@, json);
    assert(commented.text =~= before.text + comment + seq!['\n']);
    assert(is_short_line(comment)) by {
        assert forall|i: int| 0 <= i < comment.len() implies comment[i] != '\n' by {
            if i < 13 {
                assert(comment[i] == "# ariax-task "@[i]);
                assert("# ariax-task "@.contains("# ariax-task "@[i]));
            } else {
                assert(comment[i] == json[i - 13]);
                assert(json.contains(json[i - 13]));
            }
        }
        if json.len() > 0 {
            assert(comment.last() == json.last());
        } else {
            assert(comment.last() == "# ariax-task "@.last());
        }
    }
    let first = seq![comment];
    assert(first.drop_last() =~= Seq::empty());
    assert(joined(Seq::<Seq<char>>::empty()) =~= Seq::empty());
    assert(joined(first) =~= comment + seq!['\n']);
    if items.len() == 0 {
        assert(commented.text =~= before.text + joined(task_lines(task, json, options)));
    } else {
        let listed = written_line(commented, items, limit)->Ok_0;
        let spread = written_uris(commented, items, limit, items.len() as int)->Ok_0;
        let uris = named_uris(items);
        lemma_uris_written(commented, items, limit, items.len() as int);
        assert(uris.take(items.len() as int) =~= uris);
        lemma_written(spread, "\n"@, limit);
        let line = tabbed(uris);
        lemma_uris_line(items, items.len() as int);
        assert(is_short_line(line));
        lemma_options_written(listed, fields, options, limit, fields.len() as int);
        let entries = option_entries(fields, options, fields.len() as int);
        let head = seq![comment, line];
        assert(head.drop_last() =~= first);
        assert(joined(head) =~= comment + seq!['\n'] + line + seq!['\n']);
        lemma_joined(head, entries);
        assert(listed.text =~= before.text + joined(head));
        assert(before.text + joined(head) + joined(entries) =~= before.text + (joined(head) + joined(entries)));
        let all = task_lines(task, json, options);
        assert forall|i: int| 0 <= i < all.len() implies is_short_line(#[trigger] all[i]) by {
            if i >= 2 {
                assert(all[i] == entries[i - 2]);
            }
        }
        lemma_line_values(listed, fields, options, limit, fields.len() as int);
        lemma_options_bytes(listed, fields, options, limit, fields.len() as int);
    }
}

proof fn lemma_line_values(before: Written, fields: Seq<JsonField>, options: Seq<String>, limit: int, n: int)
    requires
        0 <= n <= fields.len(),
        written_options(before, fields, options, limit, n) is Ok,
    ensures
        forall|i: int| 0 <= i < n && is_line_option(options, (#[trigger] fields[i]).name@) ==> line_value(
            fields[i].value,
        ) is Some,
    decreases n,
{
    if n > 0 {
        lemma_line_values(before, fields, options, limit, n - 1);
    }
}

proof fn lemma_options_bytes(before: Written, fields: Seq<JsonField>, options: Seq<String>, limit: int, n: int)
    requires
        0 <= n <= fields.len(),
        written_options(before, fields, options, limit, n) is Ok,
    ensures
        written_options(before, fields, options, limit, n)->Ok_0.bytes >= before.bytes,
    decreases n,
{
    if n > 0 {
        lemma_options_bytes(before, fields, options, limit, n - 1);
    }
}

/// A line of addresses is a line.
proof fn lemma_uris_line(items: Seq<Json>, n: int)
    requires
        0 <= n <= items.len(),
        forall|i: int| 0 <= i < items.len() ==> (#[trigger] line_uri(items[i])) is Some,
        forall|i: int| 0 <= i < items.len() && json_text(#[trigger] items[i]) is Some ==> json_text(items[i])->0.len() > 0,
    ensures
        is_line(tabbed(named_uris(items).take(n))),
        forall|i: int| 0 <= i < items.len() ==> is_word(#[trigger] named_uris(items)[i]),
    decreases n,
{
    let uris = named_uris(items);
    assert forall|i: int| 0 <= i < items.len() implies is_word(#[trigger] uris[i]) by {
        assert(line_uri(items[i]) is Some);
        assert(json_text(items[i]) is Some);
    }
    let part = uris.take(n);
    if n == 1 {
        assert(is_word(uris[0]));
        lemma_word_is_line(part[0]);
    } else if n > 1 {
        lemma_uris_line(items, n - 1);
        assert(part.drop_last() =~= uris.take(n - 1));
        assert(is_word(uris[n - 1]));
        lemma_word_is_line(part.last());
        let s = tabbed(part);
        let head = tabbed(part.drop_last());
        assert(s == head + seq!['\t'] + part.last());
        assert forall|i: int| 0 <= i < s.len() implies s[i] != '\n' by {
            if i < head.len() {
                assert(s[i] == head[i]);
                assert(head.contains(head[i]));
            } else if i == head.len() {
                assert(s[i] == '\t');
            } else {
                assert(s[i] == part.last()[i - head.len() - 1]);
                assert(part.last().contains(part.last()[i - head.len() - 1]));
            }
        }
        assert(s.last() == part.last().last());
    }
    assert(n == items.len() ==> part =~= uris);
}

proof fn lemma_word_is_line(word: Seq<char>)
    requires
        is_word(word),
    ensures
        is_line(word),
{
    assert(!is_ascii_white(word[word.len() - 1]));
    assert forall|i: int| 0 <= i < word.len() implies word[i] != '\n' by {
        assert(!is_ascii_white(word[i]));
    }
}


/// The lines of the first `n` tasks.
pub open spec fn session_lines(tasks: Seq<Json>, texts: Seq<String>, options: Seq<String>, n: int) -> Seq<Seq<char>>
    decreases n,
{
    if n <= 0 {
        Seq::empty()
    } else {
        session_lines(tasks, texts, options, n - 1) + task_lines(tasks[n - 1], json_at(texts, n - 1), options)
    }
}

/// Whether every task is one that lines can carry.
pub open spec fn all_portable(tasks: Seq<Json>, texts: Seq<String>, options: Seq<String>) -> bool {
    forall|i: int| 0 <= i < tasks.len() ==> is_portable(#[trigger] tasks[i], json_at(texts, i), options)
}

/// What holds of a task whose lines have been written.
spec fn is_carried(task: Json, json: Seq<char>, options: Seq<String>, limit: int) -> bool {
    &&& json_field(task, "uris"@) is Some && json_field(task, "uris"@)->0 is Array
    &&& json_field(task, "options"@) is Some && json_field(task, "options"@)->0 is Object
    &&& forall|i: int| 0 <= i < task_lines(task, json, options).len() ==> is_short_line(
        #[trigger] task_lines(task, json, options)[i],
    )
    &&& byte_len(json) <= limit
    &&& uri_items(task).len() > 0 ==> {
        &&& forall|i: int| 0 <= i < uri_items(task).len() ==> (#[trigger] line_uri(uri_items(task)[i])) is Some
        &&& forall|i: int| 0 <= i < option_fields(task).len() && is_line_option(
            options,
            (#[trigger] option_fields(task)[i]).name@,
        ) ==> option_fields(task)[i].value is Text && line_value(option_fields(task)[i].value) is Some
    }
}

/// What a session is once it is written.
proof fn lemma_tasks_written(tasks: Seq<Json>, texts: Seq<String>, options: Seq<String>, limit: int, n: int)
    requires
        0 <= n <= tasks.len(),
        written_tasks(tasks, texts, options, limit, n) is Ok,
        all_portable(tasks, texts, options),
    ensures
        written_tasks(tasks, texts, options, limit, n)->Ok_0.text == joined(session_lines(tasks, texts, options, n)),
        written_tasks(tasks, texts, options, limit, n)->Ok_0.bytes >= 0,
        forall|i: int| 0 <= i < session_lines(tasks, texts, options, n).len() ==> is_short_line(
            #[trigger] session_lines(tasks, texts, options, n)[i],
        ),
        forall|i: int| 0 <= i < n ==> is_carried(#[trigger] tasks[i], json_at(texts, i), options, limit),
    decreases n,
{
    if n > 0 {
        lemma_tasks_written(tasks, texts, options, limit, n - 1);
        let so_far = written_tasks(tasks, texts, options, limit, n - 1)->Ok_0;
        let task = tasks[n - 1];
        let json = json_at(texts, n - 1);
        assert(is_portable(task, json, options));
        lemma_task_written(so_far, task, json, options, limit);
        let before = session_lines(tasks, texts, options, n - 1);
        let more = task_lines(task, json, options);
        lemma_joined(before, more);
        let all = session_lines(tasks, texts, options, n);
        assert forall|i: int| 0 <= i < all.len() implies is_short_line(#[trigger] all[i]) by {
            if i < before.len() {
                assert(all[i] == before[i]);
            } else {
                assert(all[i] == more[i - before.len()]);
            }
        }
        assert(is_carried(task, json, options, limit));
    } else {
        assert(joined(Seq::<Seq<char>>::empty()) =~= Seq::empty());
    }
}

/// The lines of tasks stay where they are when more follow.
proof fn lemma_lines_stay(tasks: Seq<Json>, texts: Seq<String>, options: Seq<String>, a: int, b: int)
    requires
        0 <= a <= b,
    ensures
        session_lines(tasks, texts, options, a).len() <= session_lines(tasks, texts, options, b).len(),
        forall|i: int| 0 <= i < session_lines(tasks, texts, options, a).len() ==> #[trigger] session_lines(tasks, texts, options, b)[i] == session_lines(tasks, texts, options, a)[i],
    decreases b - a,
{
    if a < b {
        lemma_lines_stay(tasks, texts, options, a, b - 1);
    }
}

/// The option lines stay where they are when more follow.
proof fn lemma_entries_stay(fields: Seq<JsonField>, options: Seq<String>, a: int, b: int)
    requires
        0 <= a <= b,
    ensures
        option_entries(fields, options, a).len() <= option_entries(fields, options, b).len(),
        forall|i: int| 0 <= i < option_entries(fields, options, a).len() ==> #[trigger] option_entries(fields, options, b)[i] == option_entries(fields, options, a)[i],
    decreases b - a,
{
    if a < b {
        lemma_entries_stay(fields, options, a, b - 1);
    }
}

/// What the engine says when it has no room.
pub open spec fn out_of_room() -> Course {
    Course::Failed(HttpControlError::Busy)
}

/// A line of addresses begins a task.
#[verifier::spinoff_prover]
proof fn lemma_step_uris(paid: Paid, items: Seq<Json>, states: Seq<String>, options: Seq<String>, limits: SessionLimits) -> (next: Paid)
    requires
        paid.import.current is None,
        0 <= paid.import.next < paid.import.lines.len(),
        paid.import.lines[paid.import.next] == tabbed(named_uris(items)),
        byte_len(tabbed(named_uris(items))) <= MAX_SESSION_LINE_BYTES,
        0 < items.len() <= limits.sources,
        forall|i: int| 0 <= i < items.len() ==> is_word(#[trigger] named_uris(items)[i]),
        !is_white(named_uris(items)[0][0]),
        named_uris(items)[0][0] != '#',
        course(paid, states, options, limits) != out_of_room(),
    ensures
        course(paid, states, options, limits) == course(next, states, options, limits),
        next.import == (ImportView {
            current: Some(CurrentView { uris: named_uris(items), options: Map::empty(), count: 0 }),
            next: paid.import.next + 1,
            ..paid.import
        }),
{
    let uris = named_uris(items);
    let line = tabbed(uris);
    law_words_undo_tabbing(uris);
    lemma_tabbed_start(uris);
    assert(is_word(uris[0]));
    lemma_not_blank(line);
    lemma_literals();
    assert(!holds_marker(line));
    let after = uri_line(paid, line, states, options, limits);
    assert(after is Ok);
    let landed = after->Ok_0;
    Paid { import: ImportView { lines: paid.import.lines, next: paid.import.next + 1, ..landed.import }, ..landed }
}

proof fn lemma_tabbed_start(list: Seq<Seq<char>>)
    requires
        list.len() > 0,
        list[0].len() > 0,
    ensures
        tabbed(list).len() > 0,
        tabbed(list)[0] == list[0][0],
    decreases list.len(),
{
    if list.len() > 1 {
        assert(list.drop_last()[0] == list[0]);
        lemma_tabbed_start(list.drop_last());
    }
}

/// What an import reads from an option line.
proof fn lemma_entry_read(name: Seq<char>, value: Seq<char>)
    requires
        is_line_name(name),
        trimmed(value) == value,
    ensures
        ({
            let line = option_entry(name, value);
            let rest = start_trimmed(line);
            &&& !holds_marker(line)
            &&& trimmed(line).len() > 0
            &&& rest.len() > 0 && rest[0] != '#'
            &&& line.len() > 0 && line[0] == ' '
            &&& char_from(rest, '=', 0) == Some(name.len() as int)
            &&& rest.take(name.len() as int) == name
            &&& rest.skip(name.len() as int + 1) == value
        }),
{
    lemma_literals();
    let line = option_entry(name, value);
    let rest = name + "="@ + value;
    lemma_trimmed_start(name);
    assert(rest[0] == name[0]);
    lemma_not_blank(rest);
    let one = line.drop_first();
    assert(line[0] == ' ');
    assert(one[0] == ' ');
    assert(one.drop_first() =~= rest);
    assert(start_trimmed(one) == start_trimmed(rest));
    assert(start_trimmed(line) == rest);
    assert(trimmed(line) == trimmed(one));
    assert(trimmed(one) == trimmed(rest));
    assert(rest.take(name.len() as int) =~= name);
    lemma_equals_at(rest, name.len() as int, 0);
    assert(rest.skip(name.len() as int + 1) =~= value);
}

/// An option line sets its option.
#[verifier::spinoff_prover]
proof fn lemma_step_option(
    paid: Paid,
    name: Seq<char>,
    value: Seq<char>,
    states: Seq<String>,
    options: Seq<String>,
    limits: SessionLimits,
) -> (next: Paid)
    requires
        paid.import.current is Some,
        paid.import.current->0.count < 1024,
        !paid.import.current->0.options.contains_key(name),
        0 <= paid.import.next < paid.import.lines.len(),
        paid.import.lines[paid.import.next] == option_entry(name, value),
        byte_len(option_entry(name, value)) <= MAX_SESSION_LINE_BYTES,
        is_line_name(name),
        trimmed(value) == value,
        course(paid, states, options, limits) != out_of_room(),
    ensures
        course(paid, states, options, limits) == course(next, states, options, limits),
        next.import == (ImportView {
            current: Some(
                CurrentView {
                    uris: paid.import.current->0.uris,
                    options: paid.import.current->0.options.insert(name, OptionForm::Text(value)),
                    count: paid.import.current->0.count + 1,
                },
            ),
            next: paid.import.next + 1,
            ..paid.import
        }),
{
    let line = option_entry(name, value);
    lemma_entry_read(name, value);
    let after = option_line(paid, line);
    assert(after_line(paid, line, states, options, limits) == after);
    assert(after is Ok);
    let landed = after->Ok_0;
    Paid { import: ImportView { lines: paid.import.lines, next: paid.import.next + 1, ..landed.import }, ..landed }
}

proof fn lemma_equals_at(s: Seq<char>, at: int, from: int)
    requires
        0 <= from <= at < s.len(),
        s[at] == '=',
        !s.take(at).contains('='),
    ensures
        char_from(s, '=', from) == Some(at),
    decreases at - from,
{
    if from < at {
        assert(s.take(at)[from] == s[from]);
        assert(s.take(at).contains(s.take(at)[from]));
        lemma_equals_at(s, at, from + 1);
    }
}


/// The options that the first `n` fields put on lines.
spec fn lined(fields: Seq<JsonField>, options: Seq<String>, n: int) -> Map<Seq<char>, OptionForm> {
    line_options(option_forms(fields.take(n)), options)
}

/// One more field puts its option on a line, if it is one that has a line.
proof fn lemma_lined(fields: Seq<JsonField>, options: Seq<String>, n: int)
    requires
        0 <= n < fields.len(),
        forall|i: int, j: int| 0 <= i < j < fields.len() ==> (#[trigger] fields[i]).name@ != (#[trigger] fields[j]).name@,
    ensures
        !lined(fields, options, n).contains_key(fields[n].name@),
        lined(fields, options, n + 1) == (if is_line_option(options, fields[n].name@) {
            lined(fields, options, n).insert(fields[n].name@, form(fields[n].value))
        } else {
            lined(fields, options, n)
        }),
{
    let before = fields.take(n);
    let field = fields[n];
    assert(fields.take(n + 1) =~= before.push(field));
    if option_forms(before).contains_key(field.name@) {
        lemma_field_of_option(before, field.name@);
        let k = crate::json::field_from(before, field.name@, 0)->0;
        assert(before[k] == fields[k]);
        assert(fields[k].name@ != fields[n].name@);
        assert(false);
    }
    lemma_field_at_end(before, field);
    let grown = option_forms(before).insert(field.name@, form(field.value));
    if is_line_option(options, field.name@) {
        assert(line_options(grown, options) =~= line_options(option_forms(before), options).insert(
            field.name@,
            form(field.value),
        ));
    } else {
        assert(line_options(grown, options) =~= line_options(option_forms(before), options));
    }
}

/// The option lines of a task set its options, from field `n` on.
#[verifier::spinoff_prover]
proof fn lemma_run_options(
    paid: Paid,
    fields: Seq<JsonField>,
    base: int,
    n: int,
    states: Seq<String>,
    options: Seq<String>,
    limits: SessionLimits,
) -> (next: Paid)
    requires
        0 <= n <= fields.len() <= 1024,
        0 <= base,
        base + option_entries(fields, options, fields.len() as int).len() <= paid.import.lines.len(),
        forall|i: int| 0 <= i < option_entries(fields, options, fields.len() as int).len() ==> #[trigger] paid.import.lines[base + i] == option_entries(fields, options, fields.len() as int)[i] && is_short_line(paid.import.lines[base + i]),
        paid.import.next == base + option_entries(fields, options, n).len(),
        paid.import.current is Some,
        paid.import.current->0.options == lined(fields, options, n),
        paid.import.current->0.count == option_entries(fields, options, n).len(),
        forall|i: int| 0 <= i < fields.len() && is_line_option(options, (#[trigger] fields[i]).name@) ==> is_line_name(
            fields[i].name@,
        ) && is_line_value(fields[i].value) && fields[i].value is Text,
        forall|i: int, j: int| 0 <= i < j < fields.len() ==> (#[trigger] fields[i]).name@ != (#[trigger] fields[j]).name@,
        course(paid, states, options, limits) != out_of_room(),
    ensures
        course(paid, states, options, limits) == course(next, states, options, limits),
        next.import == (ImportView {
            current: Some(
                CurrentView {
                    uris: paid.import.current->0.uris,
                    options: lined(fields, options, fields.len() as int),
                    count: option_entries(fields, options, fields.len() as int).len(),
                },
            ),
            next: base + option_entries(fields, options, fields.len() as int).len(),
            ..paid.import
        }),
    decreases fields.len() - n,
{
    if n == fields.len() {
        paid
    } else {
        let all = option_entries(fields, options, fields.len() as int);
        let done = option_entries(fields, options, n);
        lemma_lined(fields, options, n);
        lemma_entries_stay(fields, options, n + 1, fields.len() as int);
        lemma_entries_short(fields, options, n);
        let name = fields[n].name@;
        if is_line_option(options, name) {
            let value = json_text(fields[n].value)->0;
            assert(is_line_name(name) && is_line_value(fields[n].value));
            let place = done.len() as int;
            assert(option_entries(fields, options, n + 1)[place] == option_entry(name, value));
            assert(all[place] == option_entry(name, value));
            assert(paid.import.lines[base + place] == all[place]);
            let stepped = lemma_step_option(paid, name, value, states, options, limits);
            assert(form(fields[n].value) == OptionForm::Text(value));
            lemma_run_options(stepped, fields, base, n + 1, states, options, limits)
        } else {
            lemma_run_options(paid, fields, base, n + 1, states, options, limits)
        }
    }
}

proof fn lemma_entries_short(fields: Seq<JsonField>, options: Seq<String>, n: int)
    requires
        0 <= n,
    ensures
        option_entries(fields, options, n).len() <= n,
    decreases n,
{
    if n > 0 {
        lemma_entries_short(fields, options, n - 1);
    }
}

/// The texts of addresses that are texts.
proof fn lemma_texts(items: Seq<Json>, n: int)
    requires
        0 <= n <= items.len(),
        forall|i: int| 0 <= i < items.len() ==> (#[trigger] line_uri(items[i])) is Some,
    ensures
        texts_in(items, n) == Some(named_uris(items).take(n)),
    decreases n,
{
    let uris = named_uris(items);
    if n > 0 {
        lemma_texts(items, n - 1);
        assert(line_uri(items[n - 1]) is Some);
        assert(uris.take(n) =~= uris.take(n - 1).push(uris[n - 1]));
    } else {
        assert(uris.take(0) =~= Seq::empty());
    }
}

/// The course of an import whose questions are answered with these values.
pub open spec fn import_all(
    paid: Paid,
    values: Seq<Json>,
    findings: Seq<TaskFindings>,
    k: int,
    states: Seq<String>,
    options: Seq<String>,
    limits: SessionLimits,
) -> Course
    decreases values.len() - k,
{
    match course(paid, states, options, limits) {
        Course::Asks(asked, text) => if k < 0 || k >= values.len() {
            Course::Asks(asked, text)
        } else {
            match answered(
                asked,
                Ok::<Json, JsonFault>(values[k]),
                findings[k],
                states,
                limits,
            ) {
                Err(error) => Course::Failed(error),
                Ok(next) => import_all(next, values, findings, k + 1, states, options, limits),
            }
        },
        other => other,
    }
}

/// An import that stands before the lines of task `k`: the tasks before it are
/// imported, or are once the one under way is done with.
spec fn stands_before(
    paid: Paid,
    all: Seq<Seq<char>>,
    at: int,
    done: Seq<TaskView>,
    states: Seq<String>,
    options: Seq<String>,
    limits: SessionLimits,
) -> bool {
    &&& paid.import.lines == all
    &&& paid.import.next == at
    &&& finished(paid.import, states, options, limits) == Ok::<ImportView, HttpControlError>(
        ImportView { lines: all, next: at, current: None, marker: None, tasks: done },
    )
}

/// An import once it has asked for the JSON of a task.
spec fn asked_at(paid: Paid, at: int, done: Seq<TaskView>) -> Paid {
    Paid {
        import: ImportView { lines: paid.import.lines, next: at + 1, current: None, marker: None, tasks: done },
        ..paid
    }
}

/// A comment line asks for the JSON of a task.
proof fn lemma_asks(
    paid: Paid,
    json: Seq<char>,
    done: Seq<TaskView>,
    at: int,
    states: Seq<String>,
    options: Seq<String>,
    limits: SessionLimits,
)
    requires
        stands_before(paid, paid.import.lines, at, done, states, options, limits),
        0 <= at < paid.import.lines.len(),
        paid.import.lines[at] == comment_line(json),
        is_short_line(comment_line(json)),
        byte_len(json) <= limits.document_bytes,
    ensures
        course(paid, states, options, limits) == Course::Asks(asked_at(paid, at, done), json),
{
    lemma_literals();
    let line = comment_line(json);
    assert(holds_marker(line)) by {
        assert(line.subrange(0, 13) =~= "# ariax-task "@);
    }
    assert(marker_text(line) =~= json);
}

/// A task that is read stands before its lines, or is imported if it has none.
proof fn lemma_read(
    asked: Paid,
    task: Json,
    findings: TaskFindings,
    view: TaskView,
    states: Seq<String>,
    limits: SessionLimits,
) -> (read: Paid)
    requires
        asked.import.tasks.len() < limits.tasks,
        task_of(task, false, findings, states, limits) == Ok::<TaskView, HttpControlError>(view),
        answered(asked, Ok::<Json, JsonFault>(task), findings, states, limits) != Err::<Paid, HttpControlError>(
            HttpControlError::Busy,
        ),
    ensures
        answered(asked, Ok::<Json, JsonFault>(task), findings, states, limits) == Ok::<Paid, HttpControlError>(read),
        read.import == (if names_no_uris(task) {
            ImportView { tasks: asked.import.tasks.push(view), ..asked.import }
        } else {
            ImportView { marker: Some(Marker { value: task, findings }), ..asked.import }
        }),
{
    answered(asked, Ok::<Json, JsonFault>(task), findings, states, limits)->Ok_0
}

/// What a task says on its lines is what its comment says.
proof fn lemma_carried_matches(task: Json, json: Seq<char>, options: Seq<String>, limit: int, current: CurrentView)
    requires
        is_portable(task, json, options),
        is_carried(task, json, options, limit),
        uri_items(task).len() > 0,
        current.uris == named_uris(uri_items(task)),
        current.options == lined(option_fields(task), options, option_fields(task).len() as int),
    ensures
        lines_match(current, task, options),
{
    let items = uri_items(task);
    let fields = option_fields(task);
    lemma_texts(items, items.len() as int);
    assert(named_uris(items).take(items.len() as int) =~= named_uris(items));
    assert(fields.take(fields.len() as int) =~= fields);
}

/// The lines of a task behind its comment say what the comment says.
#[verifier::spinoff_prover]
proof fn lemma_lines_read(
    read: Paid,
    task: Json,
    json: Seq<char>,
    findings: TaskFindings,
    at: int,
    states: Seq<String>,
    options: Seq<String>,
    limits: SessionLimits,
) -> (next: Paid)
    requires
        is_portable(task, json, options),
        is_carried(task, json, options, limits.document_bytes as int),
        uri_items(task).len() > 0,
        uri_items(task).len() <= limits.sources,
        read.import.current is None,
        read.import.marker == Some(Marker { value: task, findings }),
        read.import.next == at + 1,
        0 <= at,
        at + task_lines(task, json, options).len() <= read.import.lines.len(),
        forall|i: int| 0 <= i < task_lines(task, json, options).len() ==> #[trigger] read.import.lines[at + i] == task_lines(task, json, options)[i],
        course(read, states, options, limits) != out_of_room(),
    ensures
        course(read, states, options, limits) == course(next, states, options, limits),
        next.import == (ImportView { current: next.import.current, next: at + task_lines(task, json, options).len(), ..read.import }),
        next.import.current is Some,
        lines_match(next.import.current->0, task, options),
{
    let all = read.import.lines;
    let own = task_lines(task, json, options);
    let items = uri_items(task);
    let fields = option_fields(task);
    let uris = named_uris(items);
    assert(all[at + 1] == own[1]);
    assert(own[1] == tabbed(uris));
    assert(is_short_line(own[1]));
    lemma_uris_line(items, items.len() as int);
    assert(line_uri(items[0]) is Some);
    assert(json_text(items[0]) is Some);
    let named = lemma_step_uris(read, items, states, options, limits);
    let entries = option_entries(fields, options, fields.len() as int);
    assert(own.len() == 2 + entries.len());
    assert forall|i: int| 0 <= i < entries.len() implies #[trigger] all[at + 2 + i] == entries[i] && is_short_line(
        all[at + 2 + i],
    ) by {
        assert(all[at + (2 + i)] == own[2 + i]);
        assert(own[2 + i] == entries[i]);
        assert(is_short_line(own[2 + i]));
    }
    assert(fields.take(0) =~= Seq::empty());
    assert(lined(fields, options, 0) =~= Map::empty());
    let next = lemma_run_options(named, fields, at + 2, 0, states, options, limits);
    lemma_carried_matches(task, json, options, limits.document_bytes as int, next.import.current->0);
    next
}

/// The lines of one task import it.
#[verifier::spinoff_prover]
proof fn lemma_task_imported(
    paid: Paid,
    read: Paid,
    task: Json,
    json: Seq<char>,
    findings: TaskFindings,
    done: Seq<TaskView>,
    view: TaskView,
    at: int,
    states: Seq<String>,
    options: Seq<String>,
    limits: SessionLimits,
) -> (next: Paid)
    requires
        read.import == (if names_no_uris(task) {
            ImportView { tasks: done.push(view), ..asked_at(paid, at, done).import }
        } else {
            ImportView { marker: Some(Marker { value: task, findings }), ..asked_at(paid, at, done).import }
        }),
        0 <= at,
        at + task_lines(task, json, options).len() <= paid.import.lines.len(),
        forall|i: int| 0 <= i < task_lines(task, json, options).len() ==> #[trigger] paid.import.lines[at + i] == task_lines(task, json, options)[i],
        is_portable(task, json, options),
        is_carried(task, json, options, limits.document_bytes as int),
        done.len() < limits.tasks,
        task_of(task, false, findings, states, limits) == Ok::<TaskView, HttpControlError>(view),
        task_uris(task, limits) is Ok,
        course(read, states, options, limits) != out_of_room(),
    ensures
        course(read, states, options, limits) == course(next, states, options, limits),
        stands_before(
            next,
            paid.import.lines,
            at + task_lines(task, json, options).len(),
            done.push(view),
            states,
            options,
            limits,
        ),
{
    if names_no_uris(task) {
        read
    } else {
        let next = lemma_lines_read(read, task, json, findings, at, states, options, limits);
        assert(described(next.import.current->0, next.import.marker, states, options, limits) == Ok::<
            TaskView,
            HttpControlError,
        >(view));
        next
    }
}

proof fn lemma_uris_ok(task: Json, findings: TaskFindings, states: Seq<String>, limits: SessionLimits)
    requires
        task_of(task, false, findings, states, limits) is Ok,
    ensures
        task_uris(task, limits) is Ok,
{
}

/// The first line of a task is its comment.
proof fn lemma_comment_first(task: Json, json: Seq<char>, options: Seq<String>, limit: int)
    requires
        is_carried(task, json, options, limit),
    ensures
        task_lines(task, json, options).len() > 0,
        task_lines(task, json, options)[0] == comment_line(json),
        is_short_line(comment_line(json)),
        byte_len(json) <= limit,
{
    assert(is_short_line(task_lines(task, json, options)[0]));
}

/// An import goes on from where its question was answered.
proof fn lemma_import_step(
    paid: Paid,
    asked: Paid,
    json: Seq<char>,
    read: Paid,
    values: Seq<Json>,
    findings: Seq<TaskFindings>,
    k: int,
    states: Seq<String>,
    options: Seq<String>,
    limits: SessionLimits,
)
    requires
        0 <= k < values.len(),
        course(paid, states, options, limits) == Course::Asks(asked, json),
        answered(asked, Ok::<Json, JsonFault>(values[k]), findings[k], states, limits) == Ok::<Paid, HttpControlError>(
            read,
        ),
    ensures
        import_all(paid, values, findings, k, states, options, limits) == import_all(
            read,
            values,
            findings,
            k + 1,
            states,
            options,
            limits,
        ),
        import_all(paid, values, findings, k, states, options, limits) != out_of_room() ==> course(
            read,
            states,
            options,
            limits,
        ) != out_of_room(),
{
}

/// Imports of the same course end alike.
proof fn lemma_import_same(
    a: Paid,
    b: Paid,
    values: Seq<Json>,
    findings: Seq<TaskFindings>,
    k: int,
    states: Seq<String>,
    options: Seq<String>,
    limits: SessionLimits,
)
    requires
        course(a, states, options, limits) == course(b, states, options, limits),
    ensures
        import_all(a, values, findings, k, states, options, limits) == import_all(
            b,
            values,
            findings,
            k,
            states,
            options,
            limits,
        ),
{
}

#[verifier::spinoff_prover]
proof fn lemma_session_imported(
    paid: Paid,
    tasks: Seq<Json>,
    texts: Seq<String>,
    findings: Seq<TaskFindings>,
    views: Seq<TaskView>,
    k: int,
    states: Seq<String>,
    options: Seq<String>,
    limits: SessionLimits,
)
    requires
        0 <= k <= tasks.len(),
        tasks.len() <= limits.tasks,
        views.len() == tasks.len(),
        all_portable(tasks, texts, options),
        forall|i: int| 0 <= i < tasks.len() ==> is_carried(
            #[trigger] tasks[i],
            json_at(texts, i),
            options,
            limits.document_bytes as int,
        ),
        forall|i: int| 0 <= i < tasks.len() ==> task_of(#[trigger] tasks[i], false, findings[i], states, limits) == Ok::<
            TaskView,
            HttpControlError,
        >(views[i]),
        stands_before(
            paid,
            session_lines(tasks, texts, options, tasks.len() as int),
            session_lines(tasks, texts, options, k).len() as int,
            views.take(k),
            states,
            options,
            limits,
        ),
        import_all(paid, tasks, findings, k, states, options, limits) != out_of_room(),
    ensures
        import_all(paid, tasks, findings, k, states, options, limits) is Done,
        import_all(paid, tasks, findings, k, states, options, limits)->Done_0 == views,
    decreases tasks.len() - k,
{
    let all = session_lines(tasks, texts, options, tasks.len() as int);
    if k == tasks.len() {
        assert(views.take(k) =~= views);
    } else {
        let task = tasks[k];
        let json = json_at(texts, k);
        let own = task_lines(task, json, options);
        let before = session_lines(tasks, texts, options, k);
        lemma_lines_stay(tasks, texts, options, k + 1, tasks.len() as int);
        let with = session_lines(tasks, texts, options, k + 1);
        assert(with == before + own);
        assert forall|i: int| 0 <= i < own.len() implies #[trigger] all[before.len() + i] == own[i] by {
            assert(with[before.len() + i] == own[i]);
            assert(all[before.len() + i] == with[before.len() + i]);
        }
        assert(is_portable(task, json, options));
        assert(is_carried(task, json, options, limits.document_bytes as int));
        let at = before.len() as int;
        let done = views.take(k);
        lemma_comment_first(task, json, options, limits.document_bytes as int);
        assert(all[before.len() + 0int] == own[0]);
        lemma_asks(paid, json, done, at, states, options, limits);
        let asked = asked_at(paid, at, done);
        let read = lemma_read(asked, task, findings[k], views[k], states, limits);
        lemma_import_step(paid, asked, json, read, tasks, findings, k, states, options, limits);
        lemma_uris_ok(task, findings[k], states, limits);
        let next = lemma_task_imported(
            paid,
            read,
            task,
            json,
            findings[k],
            done,
            views[k],
            at,
            states,
            options,
            limits,
        );
        assert(done.push(views[k]) =~= views.take(k + 1));
        lemma_import_same(read, next, tasks, findings, k + 1, states, options, limits);
        lemma_session_imported(next, tasks, texts, findings, views, k + 1, states, options, limits);
    }
}

/// What is exported as text is imported again: an import of the text of a
/// session, to whose questions the tasks are given as they were exported, gives
/// exactly those tasks, each as it is imported from its JSON, unless the request
/// runs out of room.
pub proof fn law_exported_text_imports_again(
    document: Json,
    tasks: Seq<Json>,
    texts: Seq<String>,
    findings: Seq<TaskFindings>,
    views: Seq<TaskView>,
    states: Seq<String>,
    options: Seq<String>,
    limits: SessionLimits,
    accounts: RpcAccounts,
    lease: RpcRequestLease,
)
    requires
        json_field(document, "tasks"@) is Some,
        json_items(json_field(document, "tasks"@)->0) == Some(tasks),
        aria2_text(document, texts, options, limits.document_bytes as int) is Ok,
        all_portable(tasks, texts, options),
        tasks.len() <= limits.tasks,
        views.len() == tasks.len(),
        forall|i: int| 0 <= i < tasks.len() ==> task_of(#[trigger] tasks[i], false, findings[i], states, limits) == Ok::<
            TaskView,
            HttpControlError,
        >(views[i]),
    ensures
        ({
            let text = aria2_text(document, texts, options, limits.document_bytes as int)->Ok_0;
            let result = import_all(
                Paid { import: begun(text), accounts, lease },
                tasks,
                findings,
                0,
                states,
                options,
                limits,
            );
            result == out_of_room() || (result is Done && result->Done_0 == views)
        }),
{
    let n = tasks.len() as int;
    lemma_tasks_written(tasks, texts, options, limits.document_bytes as int, n);
    let all = session_lines(tasks, texts, options, n);
    law_lines_undo_joining(all);
    let text = joined(all);
    let paid = Paid { import: begun(text), accounts, lease };
    assert(views.take(0) =~= Seq::empty());
    assert(finished(paid.import, states, options, limits) == Ok::<ImportView, HttpControlError>(paid.import));
    if import_all(paid, tasks, findings, 0, states, options, limits) != out_of_room() {
        lemma_session_imported(paid, tasks, texts, findings, views, 0, states, options, limits);
    }
}

} // verus!
