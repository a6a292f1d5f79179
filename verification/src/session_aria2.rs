//! Importing sessions in text form. A comment line may hold a task as JSON, which
//! the driver reads; the lines after it have to say the same.
use vstd::prelude::*;
use crate::control::HttpControlError;
use crate::json::{capped, command, field_from, json_field, json_fields, json_items, plain_text, Json, JsonField};
use crate::native_api::returnable;
use crate::rpc_budget::{RpcAccounts, RpcRequestLease};
use crate::rpc_compat::{is_listed, lists};
use crate::session_file::{
    fault, find_option, import_options, imported_options, lemma_field_at_end, option_forms, parse_task, read_texts,
    same_form, task_of, texts_in, ImportedTask, OptionForm, SessionLimits, SessionRules, TaskFindings, TaskView,
    MAX_SESSION_LINE_BYTES,
};
use crate::session_format::invalid;
use crate::session_import::{charge_more, check_length, reserve_more, take_json, task_views, JsonFault};
use crate::session_lines::{lines, split_lines, split_words, start_trimmed, trim_start, words};
use crate::source_rows::all_chars;
use crate::text::{
    byte_len, char_from, char_lists, find_char, has_prefix, is_at, same_text, slice_chars, text_of, trim_bounds,
    trimmed,
};
use crate::text::chars_of;

verus! {

/// A task as its lines give it so far.
#[derive(Debug)]
pub struct CurrentTask {
    pub uris: Vec<String>,
    pub options: Vec<JsonField>,
}

/// What the lines of a task say so far.
#[verifier::ext_equal]
pub struct CurrentView {
    pub uris: Seq<Seq<char>>,
    pub options: Map<Seq<char>, OptionForm>,
    pub count: nat,
}

impl View for CurrentTask {
    type V = CurrentView;

    open spec fn view(&self) -> CurrentView {
        CurrentView {
            uris: all_chars(self.uris@),
            options: option_forms(self.options@),
            count: self.options@.len(),
        }
    }
}

/// A task that a comment line holds.
#[derive(Debug)]
pub struct Marker {
    pub value: Json,
    pub findings: TaskFindings,
}

/// An import under way.
pub struct Aria2Import {
    pub lines: Vec<Vec<char>>,
    pub next: usize,
    pub current: Option<CurrentTask>,
    pub marker: Option<Marker>,
    pub tasks: Vec<ImportedTask>,
}

/// What an import holds.
#[verifier::ext_equal]
pub struct ImportView {
    pub lines: Seq<Seq<char>>,
    pub next: int,
    pub current: Option<CurrentView>,
    pub marker: Option<Marker>,
    pub tasks: Seq<TaskView>,
}

/// Whether every option is a text.
pub open spec fn texts_only(options: Seq<JsonField>) -> bool {
    forall|i: int| 0 <= i < options.len() ==> (#[trigger] options[i]).value is Text
}

/// Whether every option that lines have set is a text.
pub open spec fn current_is_text(current: Option<CurrentTask>) -> bool {
    current matches Some(current) ==> texts_only(current.options@)
}

impl Aria2Import {
    /// Lines set options to texts.
    pub open spec fn valid(self) -> bool {
        current_is_text(self.current)
    }
}

/// What the lines of a task say, if there are any.
pub open spec fn current_view(current: Option<CurrentTask>) -> Option<CurrentView> {
    match current {
        Some(current) => Some(current@),
        None => None,
    }
}

impl View for Aria2Import {
    type V = ImportView;

    open spec fn view(&self) -> ImportView {
        ImportView {
            lines: char_lists(self.lines@),
            next: self.next as int,
            current: current_view(self.current),
            marker: self.marker,
            tasks: task_views(self.tasks@),
        }
    }
}

/// An import and the accounts of the request that pays for it.
#[verifier::ext_equal]
pub struct Paid {
    pub import: ImportView,
    pub accounts: RpcAccounts,
    pub lease: RpcRequestLease,
}

/// Whether an option goes on a line of its own: the others stand only in the
/// comment.
pub open spec fn is_line_option(rules: Seq<String>, name: Seq<char>) -> bool {
    name == "pause"@ || lists(rules, name)
}

pub fn line_option(rules: &SessionRules, name: &str) -> (r: bool)
    ensures
        r == is_line_option(rules.aria2_options@, name@),
{
    same_text(name, "pause") || is_listed(&rules.aria2_options, name)
}

/// The options that go on lines of their own.
pub open spec fn line_options(options: Map<Seq<char>, OptionForm>, rules: Seq<String>) -> Map<Seq<char>, OptionForm> {
    options.restrict(Set::new(|name: Seq<char>| is_line_option(rules, name)))
}

/// Whether the lines of a task say what its comment says.
pub open spec fn lines_match(current: CurrentView, marker: Json, rules: Seq<String>) -> bool {
    &&& json_field(marker, "uris"@) is Some
    &&& json_items(json_field(marker, "uris"@)->0) is Some
    &&& ({
        let items = json_items(json_field(marker, "uris"@)->0)->0;
        texts_in(items, items.len() as int) == Some(current.uris)
    })
    &&& json_field(marker, "options"@) is Some
    &&& json_fields(json_field(marker, "options"@)->0) is Some
    &&& current.options == line_options(
        option_forms(json_fields(json_field(marker, "options"@)->0)->0),
        rules,
    )
}

/// A task that only its lines describe.
pub open spec fn plain_task(current: CurrentView) -> Result<TaskView, HttpControlError> {
    match imported_options(current.options, false, false) {
        Err(error) => Err(error),
        Ok(options) => Ok(
            TaskView {
                bittorrent: None,
                uris: current.uris,
                sources: None,
                options,
                verification: None,
                metalink_index: None,
            },
        ),
    }
}

/// The task that lines and comment describe.
pub open spec fn described(
    current: CurrentView,
    marker: Option<Marker>,
    states: Seq<String>,
    options: Seq<String>,
    limits: SessionLimits,
) -> Result<TaskView, HttpControlError> {
    match marker {
        None => plain_task(current),
        Some(marker) => if !lines_match(current, marker.value, options) {
            Err(fault("aria2 projection differs from its source metadata"))
        } else {
            task_of(marker.value, false, marker.findings, states, limits)
        },
    }
}

/// The import with one more task.
pub open spec fn with_task(import: ImportView, task: Result<TaskView, HttpControlError>, limits: SessionLimits) -> Result<
    ImportView,
    HttpControlError,
> {
    match task {
        Err(error) => Err(error),
        Ok(task) => if import.tasks.len() >= limits.tasks {
            Err(fault("too many session tasks"))
        } else {
            Ok(ImportView { tasks: import.tasks.push(task), ..import })
        },
    }
}

/// The import once the task under way is done with.
pub open spec fn finished(import: ImportView, states: Seq<String>, options: Seq<String>, limits: SessionLimits) -> Result<
    ImportView,
    HttpControlError,
> {
    match import.current {
        Some(current) => with_task(
            ImportView { current: None, marker: None, ..import },
            described(current, import.marker, states, options, limits),
            limits,
        ),
        None => if import.marker is Some {
            Err(fault("session metadata has no URI projection"))
        } else {
            Ok(import)
        },
    }
}

/// What is charged for a line.
pub open spec fn line_charge(base: int, line: Seq<char>) -> int {
    capped(base + capped(12 * byte_len(line)))
}

/// The import after a line that sets an option.
pub open spec fn option_line(paid: Paid, line: Seq<char>) -> Result<Paid, HttpControlError> {
    let rest = start_trimmed(line);
    match (char_from(rest, '=', 0), paid.import.current) {
        (None, _) => Err(fault("session option requires '='")),
        (Some(_), None) => Err(fault("session option has no URI line")),
        (Some(at), Some(current)) => {
            let name = trimmed(rest.take(at));
            let value = trimmed(rest.skip(at + 1));
            if name.len() == 0 || byte_len(name) > 1024 || current.count >= 1024 || current.options.contains_key(
                name,
            ) {
                Err(fault("invalid or duplicate session option"))
            } else {
                match charge_more(paid.accounts, paid.lease, line_charge(2048, line)) {
                    Err(error) => Err(error),
                    Ok((accounts, lease)) => Ok(
                        Paid {
                            import: ImportView {
                                current: Some(
                                    CurrentView {
                                        uris: current.uris,
                                        options: current.options.insert(name, OptionForm::Text(value)),
                                        count: current.count + 1,
                                    },
                                ),
                                ..paid.import
                            },
                            accounts,
                            lease,
                        },
                    ),
                }
            }
        },
    }
}

/// The import after a line of addresses: it begins a task, and ends the one
/// before.
pub open spec fn uri_line(
    paid: Paid,
    line: Seq<char>,
    states: Seq<String>,
    options: Seq<String>,
    limits: SessionLimits,
) -> Result<Paid, HttpControlError> {
    let ended = if paid.import.current is Some {
        finished(paid.import, states, options, limits)
    } else {
        Ok(paid.import)
    };
    match ended {
        Err(error) => Err(error),
        Ok(import) => match charge_more(paid.accounts, paid.lease, line_charge(4096, line)) {
            Err(error) => Err(error),
            Ok((accounts, lease)) => {
                let uris = words(line);
                if uris.len() == 0 || uris.len() > limits.sources {
                    Err(fault("invalid session URI line"))
                } else {
                    Ok(
                        Paid {
                            import: ImportView {
                                current: Some(CurrentView { uris, options: Map::empty(), count: 0 }),
                                ..import
                            },
                            accounts,
                            lease,
                        },
                    )
                }
            },
        },
    }
}

/// What a line is.
pub open spec fn holds_marker(line: Seq<char>) -> bool {
    has_prefix(line, "# ariax-task "@)
}

/// A line that says nothing.
pub open spec fn is_blank(line: Seq<char>) -> bool {
    trimmed(line).len() == 0 || (start_trimmed(line).len() > 0 && start_trimmed(line)[0] == '#')
}

/// A line that sets an option.
pub open spec fn is_indented(line: Seq<char>) -> bool {
    line.len() > 0 && (line[0] == ' ' || line[0] == '\t')
}

/// The JSON that a comment line holds.
pub open spec fn marker_text(line: Seq<char>) -> Seq<char> {
    line.skip("# ariax-task "@.len() as int)
}

/// How far an import has come.
#[verifier::ext_equal]
pub enum Course {
    Failed(HttpControlError),
    /// The JSON of a comment line has to be read.
    Asks(Paid, Seq<char>),
    Done(Seq<TaskView>, RpcAccounts, RpcRequestLease),
}

/// The import after a line without JSON.
pub open spec fn after_line(
    paid: Paid,
    line: Seq<char>,
    states: Seq<String>,
    options: Seq<String>,
    limits: SessionLimits,
) -> Result<Paid, HttpControlError> {
    if is_blank(line) {
        Ok(paid)
    } else if is_indented(line) {
        option_line(paid, line)
    } else {
        uri_line(paid, line, states, options, limits)
    }
}

/// The import from where it stands to its end, or to the next JSON.
pub open spec fn course(paid: Paid, states: Seq<String>, options: Seq<String>, limits: SessionLimits) -> Course
    decreases paid.import.lines.len() - paid.import.next,
{
    let import = paid.import;
    if import.next < 0 || import.next >= import.lines.len() {
        match finished(import, states, options, limits) {
            Err(error) => Course::Failed(error),
            Ok(import) => Course::Done(import.tasks, paid.accounts, paid.lease),
        }
    } else {
        let line = import.lines[import.next];
        if byte_len(line) > MAX_SESSION_LINE_BYTES {
            Course::Failed(fault("session line exceeds its byte limit"))
        } else if holds_marker(line) {
            match finished(import, states, options, limits) {
                Err(error) => Course::Failed(error),
                Ok(ended) => if byte_len(marker_text(line)) > limits.document_bytes {
                    Course::Failed(fault("session document exceeds its byte limit"))
                } else {
                    Course::Asks(
                        Paid { import: ImportView { next: import.next + 1, ..ended }, ..paid },
                        marker_text(line),
                    )
                },
            }
        } else {
            match after_line(paid, line, states, options, limits) {
                Err(error) => Course::Failed(error),
                Ok(after) => course(
                    Paid {
                        import: ImportView { lines: import.lines, next: import.next + 1, ..after.import },
                        ..after
                    },
                    states,
                    options,
                    limits,
                ),
            }
        }
    }
}

/// Whether a task as JSON names no addresses, so that no lines follow it.
pub open spec fn names_no_uris(value: Json) -> bool {
    match json_field(value, "uris"@) {
        Some(Json::Array(items)) => items@.len() == 0,
        _ => false,
    }
}

/// The import once the JSON of a comment line has been read.
pub open spec fn answered(
    paid: Paid,
    parsed: Result<Json, JsonFault>,
    findings: TaskFindings,
    states: Seq<String>,
    limits: SessionLimits,
) -> Result<Paid, HttpControlError> {
    match parsed {
        Err(JsonFault::Budget) => Err(HttpControlError::Busy),
        Err(JsonFault::Parse) => Err(fault("invalid session JSON")),
        Ok(value) => match charge_more(paid.accounts, paid.lease, capped(command(value))) {
            Err(error) => Err(error),
            Ok((accounts, lease)) => if names_no_uris(value) {
                match with_task(paid.import, task_of(value, false, findings, states, limits), limits) {
                    Err(error) => Err(error),
                    Ok(import) => Ok(Paid { import, accounts, lease }),
                }
            } else {
                Ok(
                    Paid {
                        import: ImportView { marker: Some(Marker { value, findings }), ..paid.import },
                        accounts,
                        lease,
                    },
                )
            },
        },
    }
}

/// What an import hands to its driver.
pub enum Aria2Progress {
    /// The JSON to read, and the import to go on with.
    Asks(Aria2Import, String),
    Done(Vec<ImportedTask>),
}

/// Whether an import handed over what its course says.
pub open spec fn followed(
    expected: Course,
    r: Result<Aria2Progress, HttpControlError>,
    accounts: RpcAccounts,
    lease: RpcRequestLease,
) -> bool {
    match expected {
        Course::Failed(error) => r == Err::<Aria2Progress, HttpControlError>(error),
        Course::Asks(paid, text) => {
            &&& r is Ok && r->Ok_0 is Asks
            &&& (r->Ok_0->Asks_0).valid()
            &&& (r->Ok_0->Asks_0)@ == paid.import
            &&& (r->Ok_0->Asks_1)@ == text
            &&& accounts == paid.accounts && lease == paid.lease
        },
        Course::Done(tasks, after, grown) => {
            &&& r is Ok && r->Ok_0 is Done
            &&& task_views((r->Ok_0->Done_0)@) == tasks
            &&& accounts == after && lease == grown
        },
    }
}

fn line_bytes(line: &Vec<char>) -> (r: usize)
    ensures
        r == byte_len(line@),
{
    text_of(line).as_str().len()
}

fn charge_for(base: usize, bytes: usize) -> (r: usize)
    ensures
        r == capped(base + capped(12 * bytes)),
{
    let scaled: usize = match bytes.checked_mul(12) {
        Some(product) => product,
        None => usize::MAX,
    };
    base.saturating_add(scaled)
}

fn match_uris(current: &CurrentTask, marker: &Json) -> (r: bool)
    ensures
        r == (json_field(*marker, "uris"@) is Some && json_items(json_field(*marker, "uris"@)->0) is Some && ({
            let items = json_items(json_field(*marker, "uris"@)->0)->0;
            texts_in(items, items.len() as int) == Some(all_chars(current.uris@))
        })),
{
    match marker.get("uris") {
        Some(Json::Array(items)) => match read_texts(items) {
            Some(texts) => {
                if texts.len() != current.uris.len() {
                    assert(all_chars(texts@).len() != all_chars(current.uris@).len());
                    return false;
                }
                let mut i: usize = 0;
                while i < texts.len()
                    invariant
                        i <= texts.len(),
                        texts.len() == current.uris.len(),
                        json_field(*marker, "uris"@) == Some(Json::Array(*items)),
                        texts_in(items@, items@.len() as int) == Some(all_chars(texts@)),
                        forall|k: int| 0 <= k < i ==> (#[trigger] texts@[k])@ == current.uris@[k]@,
                    decreases texts.len() - i,
                {
                    if !same_text(texts[i].as_str(), current.uris[i].as_str()) {
                        assert(all_chars(texts@)[i as int] != all_chars(current.uris@)[i as int]);
                        return false;
                    }
                    i = i + 1;
                }
                assert(all_chars(texts@) =~= all_chars(current.uris@));
                true
            },
            None => false,
        },
        _ => false,
    }
}

fn match_options(actual: &Vec<JsonField>, expected: &Vec<JsonField>, rules: &SessionRules) -> (r: bool)
    requires
        texts_only(actual@),
    ensures
        r == (option_forms(actual@) == line_options(option_forms(expected@), rules.aria2_options@)),
{
    let ghost have = option_forms(actual@);
    let ghost want = line_options(option_forms(expected@), rules.aria2_options@);
    let mut i: usize = 0;
    while i < actual.len()
        invariant
            i <= actual.len(),
            texts_only(actual@),
            have == option_forms(actual@),
            want == line_options(option_forms(expected@), rules.aria2_options@),
            forall|k: int|
                0 <= k < i ==> want.contains_key((#[trigger] actual@[k]).name@) && want[actual@[k].name@]
                    == have[actual@[k].name@],
        decreases actual.len() - i,
    {
        let name = actual[i].name.as_str();
        proof {
            crate::session_file::lemma_option_of_field(actual@, i as int);
            crate::session_file::lemma_field_of_option(actual@, name@);
        }
        let same = match (find_option(actual, name), find_option(expected, name)) {
            (Some(a), Some(b)) => same_form(a, b) && line_option(rules, name),
            _ => false,
        };
        if !same {
            assert(have.contains_key(actual@[i as int].name@));
            assert(!(want.contains_key(name@) && want[name@] == have[name@]));
            return false;
        }
        i = i + 1;
    }
    let mut j: usize = 0;
    while j < expected.len()
        invariant
            j <= expected.len(),
            have == option_forms(actual@),
            want == line_options(option_forms(expected@), rules.aria2_options@),
            forall|k: int|
                0 <= k < j && is_line_option(rules.aria2_options@, (#[trigger] expected@[k]).name@)
                    ==> have.contains_key(expected@[k].name@),
        decreases expected.len() - j,
    {
        let name = expected[j].name.as_str();
        proof {
            crate::session_file::lemma_option_of_field(expected@, j as int);
        }
        if line_option(rules, name) && find_option(actual, name).is_none() {
            assert(want.contains_key(name@));
            return false;
        }
        j = j + 1;
    }
    proof {
        assert forall|name: Seq<char>| have.contains_key(name) implies #[trigger] want.contains_key(name) && want[name]
            == have[name] by {
            crate::session_file::lemma_field_of_option(actual@, name);
            let k = field_from(actual@, name, 0)->0;
            assert(actual@[k].name@ == name);
        }
        assert forall|name: Seq<char>| #[trigger] want.contains_key(name) implies have.contains_key(name) by {
            crate::session_file::lemma_field_of_option(expected@, name);
            let k = field_from(expected@, name, 0)->0;
            assert(expected@[k].name@ == name);
        }
        assert(have =~= want);
    }
    true
}

fn match_lines(current: &CurrentTask, marker: &Json, rules: &SessionRules) -> (r: bool)
    requires
        texts_only(current.options@),
    ensures
        r == lines_match(current@, *marker, rules.aria2_options@),
{
    if !match_uris(current, marker) {
        return false;
    }
    match marker.get("options") {
        Some(Json::Object(expected)) => match_options(&current.options, expected, rules),
        _ => false,
    }
}

impl Aria2Import {
    /// An import that has not begun.
    pub fn new(text: &str, limits: &SessionLimits) -> (r: Result<Self, HttpControlError>)
        ensures
            if byte_len(text@) > limits.document_bytes {
                r == Err::<Self, HttpControlError>(fault("session document exceeds its byte limit"))
            } else {
                r is Ok && r->Ok_0@ == begun(text@) && r->Ok_0.valid()
            },
    {
        match check_length(text, limits) {
            Ok(_) => {},
            Err(error) => return Err(error),
        }
        let import = Aria2Import {
            lines: split_lines(text),
            next: 0,
            current: None,
            marker: None,
            tasks: Vec::new(),
        };
        assert(task_views(import.tasks@) =~= Seq::empty());
        Ok(import)
    }

    fn add_task(&mut self, task: Result<ImportedTask, HttpControlError>, limits: &SessionLimits) -> (r: Result<
        (),
        HttpControlError,
    >)
        requires
            old(self).valid(),
        ensures
            final(self).valid(),
            match with_task(old(self)@, viewed(task), *limits) {
                Ok(import) => r is Ok && final(self)@ == import,
                Err(error) => r == Err::<(), HttpControlError>(error),
            },
            final(self).lines == old(self).lines,
            final(self).next == old(self).next,
    {
        let task = match task {
            Ok(task) => task,
            Err(error) => return Err(error),
        };
        if self.tasks.len() >= limits.tasks {
            return Err(invalid("too many session tasks"));
        }
        let ghost before = self.tasks@;
        self.tasks.push(task);
        assert(task_views(self.tasks@) =~= task_views(before).push(task@));
        Ok(())
    }

    fn finish(&mut self, rules: &SessionRules, limits: &SessionLimits) -> (r: Result<(), HttpControlError>)
        requires
            old(self).valid(),
        ensures
            final(self).valid(),
            match finished(old(self)@, rules.task_states@, rules.aria2_options@, *limits) {
                Ok(import) => r is Ok && final(self)@ == import,
                Err(error) => r == Err::<(), HttpControlError>(error),
            },
            final(self).lines == old(self).lines,
            final(self).next == old(self).next,
    {
        let current = match self.current.take() {
            Some(current) => current,
            None => {
                if self.marker.is_some() {
                    return Err(invalid("session metadata has no URI projection"));
                }
                return Ok(());
            },
        };
        let task = match self.marker.take() {
            Some(marker) => {
                if !match_lines(&current, &marker.value, rules) {
                    return Err(invalid("aria2 projection differs from its source metadata"));
                }
                parse_task(marker.value, false, &marker.findings, rules, limits)
            },
            None => match import_options(current.options, false, false) {
                Err(error) => Err(error),
                Ok(options) => Ok(
                    ImportedTask {
                        bittorrent: None,
                        uris: current.uris,
                        sources: None,
                        options,
                        verification: None,
                        metalink_index: None,
                    },
                ),
            },
        };
        self.add_task(task, limits)
    }

    fn set_option(
        &mut self,
        line: &Vec<char>,
        accounts: &mut RpcAccounts,
        lease: &mut RpcRequestLease,
    ) -> (r: Result<(), HttpControlError>)
        requires
            old(self).valid(),
            old(accounts).valid(),
            returnable(*old(accounts), *old(lease)),
        ensures
            final(self).valid(),
            final(accounts).valid(),
            returnable(*final(accounts), *final(lease)),
            match option_line(
                Paid { import: old(self)@, accounts: *old(accounts), lease: *old(lease) },
                line@,
            ) {
                Ok(paid) => r is Ok && final(self)@ == paid.import && *final(accounts) == paid.accounts
                    && *final(lease) == paid.lease,
                Err(error) => r == Err::<(), HttpControlError>(error),
            },
            final(self).lines == old(self).lines,
            final(self).next == old(self).next,
    {
        let rest = trim_start(line);
        let at: usize = match find_char(&rest, '=', 0) {
            Some(at) => at,
            None => return Err(invalid("session option requires '='")),
        };
        let mut current = match self.current.take() {
            Some(current) => current,
            None => return Err(invalid("session option has no URI line")),
        };
        let before = slice_chars(&rest, 0, at);
        let after = slice_chars(&rest, at + 1, rest.len());
        assert(before@ =~= rest@.take(at as int));
        assert(after@ =~= rest@.skip(at as int + 1));
        let (start, end) = trim_bounds(&before);
        let name = text_of(&slice_chars(&before, start, end));
        let (start, end) = trim_bounds(&after);
        let value = text_of(&slice_chars(&after, start, end));
        assert(name@ == trimmed(rest@.take(at as int)));
        assert(value@ == trimmed(rest@.skip(at as int + 1)));
        if name.as_str().is_empty() || name.as_str().len() > 1024 || current.options.len() >= 1024 || find_option(
            &current.options,
            name.as_str(),
        ).is_some() {
            return Err(invalid("invalid or duplicate session option"));
        }
        match reserve_more(accounts, lease, charge_for(2048, line_bytes(line))) {
            Ok(_) => {},
            Err(error) => return Err(error),
        }
        let field = JsonField { name, value: plain_text(value) };
        proof {
            lemma_field_at_end(current.options@, field);
        }
        current.options.push(field);
        assert(current@ =~= (CurrentView {
            uris: current_view(old(self).current)->0.uris,
            options: current_view(old(self).current)->0.options.insert(name@, OptionForm::Text(value@)),
            count: current_view(old(self).current)->0.count + 1,
        }));
        self.current = Some(current);
        Ok(())
    }

    fn start_task(
        &mut self,
        line: &Vec<char>,
        accounts: &mut RpcAccounts,
        lease: &mut RpcRequestLease,
        rules: &SessionRules,
        limits: &SessionLimits,
    ) -> (r: Result<(), HttpControlError>)
        requires
            old(self).valid(),
            old(accounts).valid(),
            returnable(*old(accounts), *old(lease)),
        ensures
            final(self).valid(),
            final(accounts).valid(),
            returnable(*final(accounts), *final(lease)),
            match uri_line(
                Paid { import: old(self)@, accounts: *old(accounts), lease: *old(lease) },
                line@,
                rules.task_states@,
                rules.aria2_options@,
                *limits,
            ) {
                Ok(paid) => r is Ok && final(self)@ == paid.import && *final(accounts) == paid.accounts
                    && *final(lease) == paid.lease,
                Err(error) => r == Err::<(), HttpControlError>(error),
            },
            final(self).lines == old(self).lines,
            final(self).next == old(self).next,
    {
        if self.current.is_some() {
            match self.finish(rules, limits) {
                Ok(_) => {},
                Err(error) => return Err(error),
            }
        }
        match reserve_more(accounts, lease, charge_for(4096, line_bytes(line))) {
            Ok(_) => {},
            Err(error) => return Err(error),
        }
        let found = split_words(line);
        if found.len() == 0 || found.len() > limits.sources {
            return Err(invalid("invalid session URI line"));
        }
        let ghost expected = words(line@);
        let mut uris: Vec<String> = Vec::new();
        let mut i: usize = 0;
        while i < found.len()
            invariant
                i <= found.len(),
                uris@.len() == i,
                expected == char_lists(found@),
                forall|k: int| 0 <= k < i ==> (#[trigger] uris@[k])@ == expected[k],
            decreases found.len() - i,
        {
            uris.push(text_of(&found[i]));
            i = i + 1;
        }
        assert(all_chars(uris@) =~= expected);
        let current = CurrentTask { uris, options: Vec::new() };
        assert(option_forms(current.options@) =~= Map::empty());
        self.current = Some(current);
        Ok(())
    }

    /// Goes on to the end, or to the next JSON.
    pub fn run(
        self,
        accounts: &mut RpcAccounts,
        lease: &mut RpcRequestLease,
        rules: &SessionRules,
        limits: &SessionLimits,
    ) -> (r: Result<Aria2Progress, HttpControlError>)
        requires
            old(accounts).valid(),
            returnable(*old(accounts), *old(lease)),
            self.valid(),
        ensures
            final(accounts).valid(),
            returnable(*final(accounts), *final(lease)),
            followed(
                course(
                    Paid { import: self@, accounts: *old(accounts), lease: *old(lease) },
                    rules.task_states@,
                    rules.aria2_options@,
                    *limits,
                ),
                r,
                *final(accounts),
                *final(lease),
            ),
    {
        let ghost states = rules.task_states@;
        let ghost options = rules.aria2_options@;
        let ghost begin = Paid { import: self@, accounts: *accounts, lease: *lease };
        let mut import = self;
        while import.next < import.lines.len()
            invariant
                import.valid(),
                accounts.valid(),
                returnable(*accounts, *lease),
                states == rules.task_states@,
                options == rules.aria2_options@,
                begin == (Paid { import: self@, accounts: *old(accounts), lease: *old(lease) }),
                course(begin, states, options, *limits) == course(
                    Paid { import: import@, accounts: *accounts, lease: *lease },
                    states,
                    options,
                    *limits,
                ),
            decreases import.lines.len() - import.next,
        {
            let line = slice_chars(&import.lines[import.next], 0, import.lines[import.next].len());
            assert(line@ =~= import@.lines[import@.next]);
            let bytes = line_bytes(&line);
            if bytes > MAX_SESSION_LINE_BYTES {
                return Err(invalid("session line exceeds its byte limit"));
            }
            let marker = chars_of("# ariax-task ");
            if is_at(&line, &marker, 0) {
                match import.finish(rules, limits) {
                    Ok(_) => {},
                    Err(error) => return Err(error),
                }
                let json = text_of(&slice_chars(&line, marker.len(), line.len()));
                assert(json@ =~= marker_text(line@));
                match check_length(json.as_str(), limits) {
                    Ok(_) => {},
                    Err(error) => return Err(error),
                }
                import.next = import.next + 1;
                return Ok(Aria2Progress::Asks(import, json));
            }
            let (start, end) = trim_bounds(&line);
            let rest = trim_start(&line);
            if start == end || (rest.len() > 0 && rest[0] == '#') {
                import.next = import.next + 1;
                continue;
            }
            if line.len() > 0 && (line[0] == ' ' || line[0] == '\t') {
                match import.set_option(&line, accounts, lease) {
                    Ok(_) => {},
                    Err(error) => return Err(error),
                }
            } else {
                match import.start_task(&line, accounts, lease, rules, limits) {
                    Ok(_) => {},
                    Err(error) => return Err(error),
                }
            }
            import.next = import.next + 1;
        }
        match import.finish(rules, limits) {
            Ok(_) => Ok(Aria2Progress::Done(import.tasks)),
            Err(error) => Err(error),
        }
    }

    /// Goes on with the JSON that was asked for, and with what was found out about
    /// the task that it is.
    pub fn answer(
        self,
        parsed: Result<Json, JsonFault>,
        findings: TaskFindings,
        accounts: &mut RpcAccounts,
        lease: &mut RpcRequestLease,
        rules: &SessionRules,
        limits: &SessionLimits,
    ) -> (r: Result<Aria2Progress, HttpControlError>)
        requires
            self.valid(),
            old(accounts).valid(),
            returnable(*old(accounts), *old(lease)),
        ensures
            final(accounts).valid(),
            returnable(*final(accounts), *final(lease)),
            match answered(
                Paid { import: self@, accounts: *old(accounts), lease: *old(lease) },
                parsed,
                findings,
                rules.task_states@,
                *limits,
            ) {
                Err(error) => r == Err::<Aria2Progress, HttpControlError>(error),
                Ok(paid) => followed(
                    course(paid, rules.task_states@, rules.aria2_options@, *limits),
                    r,
                    *final(accounts),
                    *final(lease),
                ),
            },
    {
        let value = match take_json(parsed, accounts, lease) {
            Ok(value) => value,
            Err(error) => return Err(error),
        };
        let mut import = self;
        let alone = match value.get("uris") {
            Some(Json::Array(items)) => items.len() == 0,
            _ => false,
        };
        if alone {
            match import.add_task(parse_task(value, false, &findings, rules, limits), limits) {
                Ok(_) => {},
                Err(error) => return Err(error),
            }
        } else {
            import.marker = Some(Marker { value, findings });
        }
        import.run(accounts, lease, rules, limits)
    }
}

/// What a result of reading a task says.
pub open spec fn viewed(task: Result<ImportedTask, HttpControlError>) -> Result<TaskView, HttpControlError> {
    match task {
        Ok(task) => Ok(task@),
        Err(error) => Err(error),
    }
}

/// An import that has not begun.
pub open spec fn begun(text: Seq<char>) -> ImportView {
    ImportView { lines: lines(text), next: 0, current: None, marker: None, tasks: Seq::empty() }
}

} // verus!
