//! Laws of sessions in text form that only their lines describe.
use vstd::prelude::*;
use crate::control::HttpControlError;
use crate::rpc_budget::{RpcAccounts, RpcRequestLease};
use crate::session_aria2::{
    after_line, begun, course, holds_marker, is_blank, Course, ImportView, Paid,
};
use crate::session_file::{OptionForm, SessionLimits, TaskView, MAX_SESSION_LINE_BYTES};
use crate::session_lines::{lines, start_trimmed, words};
use crate::text::{byte_len, char_from, is_white, trimmed};

verus! {

/// Whether a line begins a task: it says something and is not indented.
pub open spec fn begins(line: Seq<char>) -> bool {
    !is_blank(line) && line.len() > 0 && line[0] != ' ' && line[0] != '\t'
}

/// Where tasks begin among the first `n` lines.
pub open spec fn starts(all: Seq<Seq<char>>, n: int) -> Seq<int>
    decreases n,
{
    if n <= 0 {
        Seq::empty()
    } else if begins(all[n - 1]) {
        starts(all, n - 1).push(n - 1)
    } else {
        starts(all, n - 1)
    }
}

/// Where the lines of the task that begins at the `k`-th start end.
pub open spec fn task_end(all: Seq<Seq<char>>, k: int) -> int {
    let begin = starts(all, all.len() as int);
    if k + 1 < begin.len() {
        begin[k + 1]
    } else {
        all.len() as int
    }
}

/// Whether a line spells a setting: a name before its first equals sign and a value
/// behind it, both without the white space around them.
pub open spec fn spells(line: Seq<char>, name: Seq<char>, value: Seq<char>) -> bool {
    exists|at: int| #[trigger] splits_at(line, at) && name == trimmed(line.take(at)) && value == trimmed(line.skip(at + 1))
}

/// Whether the first equals sign of a line stands at `at`.
pub open spec fn splits_at(line: Seq<char>, at: int) -> bool {
    &&& 0 <= at < line.len()
    &&& line[at] == '='
    &&& forall|k: int| 0 <= k < at ==> #[trigger] line[k] != '='
}

/// The name that a line sets.
spec fn name_on(line: Seq<char>) -> Seq<char> {
    let rest = start_trimmed(line);
    trimmed(rest.take(char_from(rest, '=', 0)->0))
}

/// The value that a line sets.
spec fn value_on(line: Seq<char>) -> Seq<char> {
    let rest = start_trimmed(line);
    trimmed(rest.skip(char_from(rest, '=', 0)->0 + 1))
}

/// What the lines from one place to another set.
spec fn settings(all: Seq<Seq<char>>, from: int, to: int) -> Map<Seq<char>, OptionForm>
    decreases to - from,
{
    if to <= from {
        Map::empty()
    } else if is_blank(all[to - 1]) {
        settings(all, from, to - 1)
    } else {
        settings(all, from, to - 1).insert(name_on(all[to - 1]), OptionForm::Text(value_on(all[to - 1])))
    }
}

/// Whether every line from one place to another that says something sets an option, each
/// another one.
spec fn set_apart(all: Seq<Seq<char>>, from: int, to: int) -> bool {
    &&& forall|i: int|
        from <= i < to && !is_blank(#[trigger] all[i]) ==> char_from(start_trimmed(all[i]), '=', 0) is Some
    &&& forall|i: int, j: int|
        from <= i < j < to && !is_blank(#[trigger] all[i]) && !is_blank(#[trigger] all[j]) ==> name_on(all[i]) != name_on(
            all[j],
        )
}

/// Whether a task is what the lines from its start to its end say.
spec fn plain(task: TaskView, all: Seq<Seq<char>>, start: int, end: int) -> bool {
    &&& task.uris == words(all[start])
    &&& task.options == settings(all, start + 1, end)
    &&& set_apart(all, start + 1, end)
    &&& task.bittorrent is None
    &&& task.sources is None
    &&& task.verification is None
    &&& task.metalink_index is None
}

/// Whether an import has come as far as the first `n` lines say.
spec fn has_read(import: ImportView, all: Seq<Seq<char>>, n: int) -> bool {
    let begin = starts(all, n);
    &&& import.lines == all
    &&& import.next == n
    &&& import.marker is None
    &&& begin.len() == 0 ==> import.current is None && import.tasks.len() == 0
    &&& begin.len() > 0 ==> {
        &&& import.current is Some
        &&& import.current->0.uris == words(all[begin.last()])
        &&& import.current->0.options == settings(all, begin.last() + 1, n)
        &&& set_apart(all, begin.last() + 1, n)
        &&& import.tasks.len() == begin.len() - 1
        &&& forall|k: int|
            0 <= k < import.tasks.len() ==> plain(#[trigger] import.tasks[k], all, begin[k], begin[k + 1])
    }
}

/// Starts ascend.
proof fn lemma_starts(all: Seq<Seq<char>>, n: int)
    requires
        0 <= n <= all.len(),
    ensures
        forall|k: int| 0 <= k < starts(all, n).len() ==> 0 <= #[trigger] starts(all, n)[k] < n && begins(
            all[starts(all, n)[k]],
        ),
        forall|j: int, k: int|
            0 <= j < k < starts(all, n).len() ==> #[trigger] starts(all, n)[j] < #[trigger] starts(all, n)[k],
        forall|i: int|
            0 <= i < n && begins(#[trigger] all[i]) ==> starts(all, n).contains(i),
    decreases n,
{
    if n > 0 {
        lemma_starts(all, n - 1);
        let before = starts(all, n - 1);
        let after = starts(all, n);
        assert forall|i: int| 0 <= i < n && begins(#[trigger] all[i]) implies after.contains(i) by {
            if i < n - 1 {
                let k = before.index_of(i);
                assert(after[k] == i);
            } else {
                assert(after[before.len() as int] == i);
            }
        }
    }
}

/// What is set has been set by a line.
proof fn lemma_settings(all: Seq<Seq<char>>, from: int, to: int)
    requires
        0 <= from,
        to <= all.len(),
        set_apart(all, from, to),
    ensures
        forall|i: int|
            from <= i < to && !is_blank(#[trigger] all[i]) ==> settings(all, from, to).contains_key(name_on(all[i]))
                && settings(all, from, to)[name_on(all[i])] == OptionForm::Text(value_on(all[i])),
        forall|name: Seq<char>| #[trigger]
            settings(all, from, to).contains_key(name) ==> exists|i: int|
                from <= i < to && !is_blank(#[trigger] all[i]) && name_on(all[i]) == name,
    decreases to - from,
{
    if to > from {
        assert(set_apart(all, from, to - 1));
        lemma_settings(all, from, to - 1);
        assert forall|name: Seq<char>| #[trigger] settings(all, from, to).contains_key(name) implies exists|i: int|
            from <= i < to && !is_blank(#[trigger] all[i]) && name_on(all[i]) == name by {
            if settings(all, from, to - 1).contains_key(name) {
                let i = choose|i: int|
                    from <= i < to - 1 && !is_blank(#[trigger] all[i]) && name_on(all[i]) == name;
                assert(!is_blank(all[i]));
            } else {
                assert(!is_blank(all[to - 1]));
            }
        }
    }
}

/// White space before a text does not count when it is trimmed.
proof fn lemma_trim_behind(s: Seq<char>, n: int)
    requires
        0 <= n <= s.len(),
        forall|i: int| 0 <= i < n ==> is_white(#[trigger] s[i]),
    ensures
        trimmed(s) == trimmed(s.skip(n)),
    decreases n,
{
    if n > 0 {
        let rest = s.drop_first();
        assert forall|i: int| 0 <= i < n - 1 implies is_white(#[trigger] rest[i]) by {
            assert(rest[i] == s[i + 1]);
        }
        assert(is_white(s[0]));
        lemma_trim_behind(rest, n - 1);
        assert(rest.skip(n - 1) =~= s.skip(n));
    } else {
        assert(s.skip(0) =~= s);
    }
}

/// How much white space stands before a text.
proof fn lemma_start(s: Seq<char>) -> (n: int)
    ensures
        0 <= n <= s.len(),
        start_trimmed(s) == s.skip(n),
        forall|i: int| 0 <= i < n ==> is_white(#[trigger] s[i]),
    decreases s.len(),
{
    if s.len() > 0 && is_white(s[0]) {
        let m = lemma_start(s.drop_first());
        assert(s.drop_first().skip(m) =~= s.skip(m + 1));
        assert forall|i: int| 0 <= i < m + 1 implies is_white(#[trigger] s[i]) by {
            if i > 0 {
                assert(s.drop_first()[i - 1] == s[i]);
            }
        }
        m + 1
    } else {
        assert(s.skip(0) =~= s);
        0
    }
}

proof fn lemma_found(s: Seq<char>, c: char, from: int)
    requires
        0 <= from <= s.len(),
        char_from(s, c, from) is Some,
    ensures
        from <= char_from(s, c, from)->0 < s.len(),
        s[char_from(s, c, from)->0] == c,
        forall|k: int| from <= k < char_from(s, c, from)->0 ==> #[trigger] s[k] != c,
    decreases s.len() - from,
{
    if s[from] != c {
        lemma_found(s, c, from + 1);
    }
}

/// A line that sets an option spells it.
proof fn lemma_spelled(line: Seq<char>)
    requires
        char_from(start_trimmed(line), '=', 0) is Some,
    ensures
        spells(line, name_on(line), value_on(line)),
{
    let rest = start_trimmed(line);
    let n = lemma_start(line);
    lemma_found(rest, '=', 0);
    let at = char_from(rest, '=', 0)->0;
    let whole = n + at;
    assert(line[whole] == rest[at]);
    assert forall|k: int| 0 <= k < whole implies #[trigger] line[k] != '=' by {
        if k < n {
            assert(is_white(line[k]));
        } else {
            assert(line[k] == rest[k - n]);
        }
    }
    assert(splits_at(line, whole));
    lemma_trim_behind(line.take(whole), n);
    assert(line.take(whole).skip(n) =~= rest.take(at));
    assert(line.skip(whole + 1) =~= rest.skip(at + 1));
}

/// A line spells one setting at most.
proof fn lemma_spelled_once(line: Seq<char>, name: Seq<char>, value: Seq<char>, other: Seq<char>, thing: Seq<char>)
    requires
        spells(line, name, value),
        spells(line, other, thing),
    ensures
        name == other,
        value == thing,
{
    let a = choose|at: int| #[trigger]
        splits_at(line, at) && name == trimmed(line.take(at)) && value == trimmed(line.skip(at + 1));
    let b = choose|at: int| #[trigger]
        splits_at(line, at) && other == trimmed(line.take(at)) && thing == trimmed(line.skip(at + 1));
    if a < b {
        assert(line[a] != '=');
    } else if b < a {
        assert(line[b] != '=');
    }
}

/// One line more is read.
proof fn lemma_line(
    paid: Paid,
    all: Seq<Seq<char>>,
    n: int,
    states: Seq<String>,
    options: Seq<String>,
    limits: SessionLimits,
)
    requires
        0 <= n < all.len(),
        has_read(paid.import, all, n),
        after_line(paid, all[n], states, options, limits) is Ok,
    ensures
        ({
            let after = after_line(paid, all[n], states, options, limits)->Ok_0;
            has_read(ImportView { lines: all, next: n + 1, ..after.import }, all, n + 1)
        }),
{
    let line = all[n];
    let begin = starts(all, n);
    let after = after_line(paid, line, states, options, limits)->Ok_0;
    lemma_starts(all, n);
    if is_blank(line) {
        if begin.len() > 0 {
            assert(set_apart(all, begin.last() + 1, n + 1));
        }
    } else if begins(line) {
        let next = starts(all, n + 1);
        assert(next == begin.push(n));
        assert(settings(all, n + 1, n + 1) =~= Map::empty());
        assert(set_apart(all, n + 1, n + 1));
        if begin.len() > 0 {
            let tasks = after.import.tasks;
            assert(tasks.len() == begin.len());
            assert forall|k: int| 0 <= k < tasks.len() implies plain(#[trigger] tasks[k], all, next[k], next[k + 1]) by {
                assert(next[k] == begin[k]);
                if k < tasks.len() - 1 {
                    assert(tasks[k] == paid.import.tasks[k]);
                    assert(next[k + 1] == begin[k + 1]);
                } else {
                    assert(next[k + 1] == n);
                }
            }
        }
    } else {
        assert(begin.len() > 0);
        let from = begin.last() + 1;
        lemma_settings(all, from, n);
        assert(set_apart(all, from, n + 1)) by {
            assert forall|i: int, j: int|
                from <= i < j < n + 1 && !is_blank(#[trigger] all[i]) && !is_blank(#[trigger] all[j]) implies name_on(
                all[i],
            ) != name_on(all[j]) by {
                if j == n {
                    assert(settings(all, from, n).contains_key(name_on(all[i])));
                }
            }
        }
    }
}

/// An import that goes on to its end gives the tasks that the lines say.
proof fn lemma_read_to_end(
    paid: Paid,
    all: Seq<Seq<char>>,
    n: int,
    states: Seq<String>,
    options: Seq<String>,
    limits: SessionLimits,
)
    requires
        0 <= n <= all.len(),
        has_read(paid.import, all, n),
        forall|i: int| 0 <= i < all.len() ==> !holds_marker(#[trigger] all[i]),
    ensures
        !(course(paid, states, options, limits) is Asks),
        course(paid, states, options, limits) matches Course::Done(tasks, _, _) ==> {
            let begin = starts(all, all.len() as int);
            &&& tasks.len() == begin.len()
            &&& forall|k: int|
                0 <= k < tasks.len() ==> plain(#[trigger] tasks[k], all, begin[k], task_end(all, k))
        },
    decreases all.len() - n,
{
    if n < all.len() {
        if byte_len(all[n]) <= MAX_SESSION_LINE_BYTES && after_line(paid, all[n], states, options, limits) is Ok {
            let after = after_line(paid, all[n], states, options, limits)->Ok_0;
            lemma_line(paid, all, n, states, options, limits);
            lemma_read_to_end(
                Paid { import: ImportView { lines: all, next: n + 1, ..after.import }, ..after },
                all,
                n + 1,
                states,
                options,
                limits,
            );
        }
    }
}

/// A session text whose tasks only their lines describe imports as its lines say: every
/// line that is neither blank nor indented is one task, in order, whose URIs are the
/// words of the line in their order, and whose options are exactly those that the
/// indented lines behind it spell.
pub proof fn law_lines_import_as_tasks(
    text: Seq<char>,
    accounts: RpcAccounts,
    lease: RpcRequestLease,
    states: Seq<String>,
    options: Seq<String>,
    limits: SessionLimits,
    tasks: Seq<TaskView>,
    left: RpcAccounts,
    grown: RpcRequestLease,
)
    requires
        forall|i: int| 0 <= i < lines(text).len() ==> !holds_marker(#[trigger] lines(text)[i]),
        course(Paid { import: begun(text), accounts, lease }, states, options, limits) == Course::Done(
            tasks,
            left,
            grown,
        ),
    ensures
        ({
            let all = lines(text);
            let begin = starts(all, all.len() as int);
            &&& tasks.len() == begin.len()
            &&& forall|k: int|
                0 <= k < tasks.len() ==> {
                    let task = #[trigger] tasks[k];
                    &&& task.uris == words(all[begin[k]])
                    &&& task.bittorrent is None
                    &&& task.sources is None
                    &&& task.verification is None
                    &&& task.metalink_index is None
                }
            &&& forall|k: int, i: int, name: Seq<char>, value: Seq<char>|
                #![trigger tasks[k], spells(all[i], name, value)]
                0 <= k < tasks.len() && begin[k] < i < task_end(all, k) && !is_blank(all[i]) && spells(
                    all[i],
                    name,
                    value,
                ) ==> tasks[k].options.contains_key(name) && tasks[k].options[name] == OptionForm::Text(value)
            &&& forall|k: int, name: Seq<char>|
                0 <= k < tasks.len() && #[trigger] tasks[k].options.contains_key(name) ==> exists|i: int, value: Seq<char>|
                    begin[k] < i < task_end(all, k) && !is_blank(all[i]) && #[trigger] spells(all[i], name, value)
        }),
        forall|i: int|
            0 <= i < lines(text).len() && begins(#[trigger] lines(text)[i]) ==> starts(
                lines(text),
                lines(text).len() as int,
            ).contains(i),
{
    let all = lines(text);
    let n = all.len() as int;
    let begin = starts(all, n);
    let paid = Paid { import: begun(text), accounts, lease };
    assert(has_read(paid.import, all, 0));
    lemma_read_to_end(paid, all, 0, states, options, limits);
    lemma_starts(all, n);
    assert forall|k: int, i: int, name: Seq<char>, value: Seq<char>|
        #![trigger tasks[k], spells(all[i], name, value)]
        0 <= k < tasks.len() && begin[k] < i < task_end(all, k) && !is_blank(all[i]) && spells(
            all[i],
            name,
            value,
        ) implies tasks[k].options.contains_key(name) && tasks[k].options[name] == OptionForm::Text(value) by {
        assert(plain(tasks[k], all, begin[k], task_end(all, k)));
        lemma_settings(all, begin[k] + 1, task_end(all, k));
        lemma_spelled(all[i]);
        lemma_spelled_once(all[i], name, value, name_on(all[i]), value_on(all[i]));
    }
    assert forall|k: int, name: Seq<char>| 0 <= k < tasks.len() && #[trigger] tasks[k].options.contains_key(
        name,
    ) implies exists|i: int, value: Seq<char>|
        begin[k] < i < task_end(all, k) && !is_blank(all[i]) && #[trigger] spells(all[i], name, value) by {
        assert(plain(tasks[k], all, begin[k], task_end(all, k)));
        lemma_settings(all, begin[k] + 1, task_end(all, k));
        let i = choose|i: int|
            begin[k] + 1 <= i < task_end(all, k) && !is_blank(#[trigger] all[i]) && name_on(all[i]) == name;
        lemma_spelled(all[i]);
        assert(spells(all[i], name, value_on(all[i])));
    }
}

/// How many of the lines from one place to another say something.
pub open spec fn said(all: Seq<Seq<char>>, from: int, to: int) -> int
    decreases to - from,
{
    if to <= from {
        0
    } else {
        said(all, from, to - 1) + if is_blank(all[to - 1]) {
            0int
        } else {
            1int
        }
    }
}

/// Whether the line at `i` belongs to the task that begins at `start`: it says something,
/// and no other task begins up to it.
pub open spec fn belongs(all: Seq<Seq<char>>, start: int, i: int) -> bool {
    &&& 0 <= start < i < all.len()
    &&& begins(all[start])
    &&& !is_blank(all[i])
    &&& forall|k: int| start < k <= i ==> !begins(#[trigger] all[k])
}

/// Whether a line sets an option that a task can be imported with.
pub open spec fn sets(line: Seq<char>) -> bool {
    exists|name: Seq<char>, value: Seq<char>|
        {
            &&& #[trigger] spells(line, name, value)
            &&& name.len() > 0
            &&& byte_len(name) <= 1024
            &&& name == "pause"@ ==> value == "true"@ || value == "false"@
            &&& name != "metadata-expansion"@
            &&& name != "verification-manifest"@
            &&& name != "metalink-file-index"@
        }
}

/// Whether the lines of a session are in order: none is too long or holds a comment that
/// describes a task; a line that begins a task names one to so many addresses; every
/// indented line belongs to a task and sets an option, another one each time; and there
/// are not too many of either.
pub open spec fn in_order(all: Seq<Seq<char>>, limits: SessionLimits) -> bool {
    &&& forall|i: int|
        0 <= i < all.len() ==> !holds_marker(#[trigger] all[i]) && byte_len(all[i]) <= MAX_SESSION_LINE_BYTES
    &&& forall|i: int|
        0 <= i < all.len() && begins(#[trigger] all[i]) ==> 0 < words(all[i]).len() <= limits.sources
    &&& forall|i: int|
        0 <= i < all.len() && !is_blank(#[trigger] all[i]) && !begins(all[i]) ==> sets(all[i]) && exists|start: int|
            #[trigger] belongs(all, start, i)
    &&& forall|start: int, i: int, j: int, name: Seq<char>, value: Seq<char>, other: Seq<char>, thing: Seq<char>|
        #[trigger] belongs(all, start, i) && #[trigger] belongs(all, start, j) && i < j && #[trigger] spells(
            all[i],
            name,
            value,
        ) && #[trigger] spells(all[j], other, thing) ==> name != other
    &&& forall|start: int, i: int| #[trigger] belongs(all, start, i) ==> said(all, start + 1, i) < 1024
    &&& starts(all, all.len() as int).len() <= limits.tasks
}

/// Fewer lines have fewer starts.
proof fn lemma_fewer_starts(all: Seq<Seq<char>>, a: int, b: int)
    requires
        0 <= a <= b <= all.len(),
    ensures
        starts(all, a).len() <= starts(all, b).len(),
    decreases b - a,
{
    if a < b {
        lemma_fewer_starts(all, a, b - 1);
    }
}

/// No task begins behind the last start.
proof fn lemma_behind_start(all: Seq<Seq<char>>, n: int)
    requires
        0 <= n <= all.len(),
        starts(all, n).len() > 0,
    ensures
        forall|k: int| starts(all, n).last() < k < n ==> !begins(#[trigger] all[k]),
    decreases n,
{
    if n > 0 && !begins(all[n - 1]) {
        lemma_behind_start(all, n - 1);
    }
}

/// The options of a task whose lines are in order can be imported.
proof fn lemma_options_fit(all: Seq<Seq<char>>, start: int, end: int, limits: SessionLimits)
    requires
        in_order(all, limits),
        0 <= start < end <= all.len(),
        begins(all[start]),
        forall|k: int| start < k < end ==> !begins(#[trigger] all[k]),
        set_apart(all, start + 1, end),
    ensures
        crate::session_file::pause_fits(settings(all, start + 1, end)),
        !crate::session_file::holds_binding(settings(all, start + 1, end)),
{
    let set = settings(all, start + 1, end);
    lemma_settings(all, start + 1, end);
    assert forall|name: Seq<char>| #[trigger] set.contains_key(name) implies name != "metadata-expansion"@ && name
        != "verification-manifest"@ && name != "metalink-file-index"@ && (name == "pause"@ ==> set[name]
        == OptionForm::Text("true"@) || set[name] == OptionForm::Text("false"@)) by {
        let i = choose|i: int| start + 1 <= i < end && !is_blank(#[trigger] all[i]) && name_on(all[i]) == name;
        assert(sets(all[i]));
        let (other, value) = choose|other: Seq<char>, value: Seq<char>|
            {
                &&& #[trigger] spells(all[i], other, value)
                &&& other.len() > 0
                &&& byte_len(other) <= 1024
                &&& other == "pause"@ ==> value == "true"@ || value == "false"@
                &&& other != "metadata-expansion"@
                &&& other != "verification-manifest"@
                &&& other != "metalink-file-index"@
            };
        lemma_spelled(all[i]);
        lemma_spelled_once(all[i], other, value, name_on(all[i]), value_on(all[i]));
    }
}

/// A line in order is read, as far as there is room.
proof fn lemma_line_in_order(
    paid: Paid,
    all: Seq<Seq<char>>,
    n: int,
    states: Seq<String>,
    options: Seq<String>,
    limits: SessionLimits,
)
    requires
        0 <= n < all.len(),
        in_order(all, limits),
        has_read(paid.import, all, n),
        paid.import.current matches Some(current) ==> current.count == said(all, starts(all, n).last() + 1, n),
    ensures
        match after_line(paid, all[n], states, options, limits) {
            Ok(after) => after.import.current matches Some(current) ==> current.count == said(
                all,
                starts(all, n + 1).last() + 1,
                n + 1,
            ),
            Err(error) => error == HttpControlError::Busy,
        },
{
    let line = all[n];
    let begin = starts(all, n);
    lemma_starts(all, n);
    lemma_fewer_starts(all, n + 1, all.len() as int);
    if begin.len() > 0 {
        lemma_behind_start(all, n);
        lemma_options_fit(all, begin.last(), n, limits);
    }
    if is_blank(line) {
    } else if begins(line) {
    } else {
        let start = choose|start: int| #[trigger] belongs(all, start, n);
        assert(begin.contains(start));
        let k = begin.index_of(start);
        assert(begin[k] == start);
        if k < begin.len() - 1 {
            assert(begin[k] < begin[begin.len() - 1]);
            assert(begins(all[begin[begin.len() - 1]]));
        }
        assert(start == begin.last());
        assert(sets(line));
        let (name, value) = choose|name: Seq<char>, value: Seq<char>|
            {
                &&& #[trigger] spells(line, name, value)
                &&& name.len() > 0
                &&& byte_len(name) <= 1024
                &&& name == "pause"@ ==> value == "true"@ || value == "false"@
                &&& name != "metadata-expansion"@
                &&& name != "verification-manifest"@
                &&& name != "metalink-file-index"@
            };
        lemma_equals_sign(line, name, value);
        lemma_spelled(line);
        lemma_spelled_once(line, name, value, name_on(line), value_on(line));
        lemma_settings(all, start + 1, n);
        if settings(all, start + 1, n).contains_key(name) {
            let i = choose|i: int| start + 1 <= i < n && !is_blank(#[trigger] all[i]) && name_on(all[i]) == name;
            assert(belongs(all, start, i));
            lemma_spelled(all[i]);
            assert(spells(all[i], name, value_on(all[i])));
            assert(name != name);
        }
    }
}

/// A line that spells a setting has an equals sign behind its white space.
proof fn lemma_equals_sign(line: Seq<char>, name: Seq<char>, value: Seq<char>)
    requires
        spells(line, name, value),
    ensures
        char_from(start_trimmed(line), '=', 0) is Some,
{
    let at = choose|at: int| #[trigger]
        splits_at(line, at) && name == trimmed(line.take(at)) && value == trimmed(line.skip(at + 1));
    let n = lemma_start(line);
    let rest = start_trimmed(line);
    if at < n {
        assert(is_white(line[at]));
    }
    assert(rest[at - n] == '=');
    lemma_has_char(rest, '=', 0, at - n);
}

proof fn lemma_has_char(s: Seq<char>, c: char, from: int, at: int)
    requires
        0 <= from <= at < s.len(),
        s[at] == c,
    ensures
        char_from(s, c, from) is Some,
    decreases at - from,
{
    if s[from] != c {
        lemma_has_char(s, c, from + 1, at);
    }
}

/// Lines in order are read to their end, as far as there is room.
proof fn lemma_in_order_to_end(
    paid: Paid,
    all: Seq<Seq<char>>,
    n: int,
    states: Seq<String>,
    options: Seq<String>,
    limits: SessionLimits,
)
    requires
        0 <= n <= all.len(),
        in_order(all, limits),
        has_read(paid.import, all, n),
        paid.import.current matches Some(current) ==> current.count == said(all, starts(all, n).last() + 1, n),
    ensures
        course(paid, states, options, limits) is Done || course(paid, states, options, limits) == Course::Failed(
            HttpControlError::Busy,
        ),
    decreases all.len() - n,
{
    if n < all.len() {
        lemma_line_in_order(paid, all, n, states, options, limits);
        assert(!holds_marker(all[n]) && byte_len(all[n]) <= MAX_SESSION_LINE_BYTES);
        if after_line(paid, all[n], states, options, limits) is Ok {
            let after = after_line(paid, all[n], states, options, limits)->Ok_0;
            lemma_line(paid, all, n, states, options, limits);
            lemma_in_order_to_end(
                Paid { import: ImportView { lines: all, next: n + 1, ..after.import }, ..after },
                all,
                n + 1,
                states,
                options,
                limits,
            );
        }
    } else {
        let begin = starts(all, n);
        lemma_starts(all, n);
        if begin.len() > 0 {
            lemma_behind_start(all, n);
            assert(begins(all[begin[begin.len() - 1]]));
            lemma_options_fit(all, begin.last(), n, limits);
        }
    }
}

/// A session text whose lines are in order is imported, unless the request runs out of
/// room.
pub proof fn law_lines_in_order_are_imported(
    text: Seq<char>,
    accounts: RpcAccounts,
    lease: RpcRequestLease,
    states: Seq<String>,
    options: Seq<String>,
    limits: SessionLimits,
)
    requires
        in_order(lines(text), limits),
    ensures
        ({
            let result = course(Paid { import: begun(text), accounts, lease }, states, options, limits);
            result is Done || result == Course::Failed(HttpControlError::Busy)
        }),
{
    let all = lines(text);
    let paid = Paid { import: begun(text), accounts, lease };
    assert(has_read(paid.import, all, 0));
    lemma_in_order_to_end(paid, all, 0, states, options, limits);
}

} // verus!
