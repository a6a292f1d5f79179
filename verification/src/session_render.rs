//! Exporting sessions.
use vstd::prelude::*;
use crate::control::HttpControlError;
use crate::json::{field_text, json_field, Json, JsonField};
use crate::session_aria2::{is_line_option, line_option};
use crate::session_file::{fault, SessionLimits, SessionRules, MAX_SESSION_LINE_BYTES};
use crate::session_format::{invalid, SessionFormat};
use crate::session_lines::{ascii_white, is_ascii_white};
use crate::text::{byte_len, chars_of, same_text};

verus! {

/// A text that is written, and how long it is.
#[verifier::ext_equal]
pub struct Written {
    pub text: Seq<char>,
    pub bytes: int,
}

/// A text with more written to it, where it does not grow too long.
pub open spec fn written(before: Written, more: Seq<char>, limit: int) -> Result<Written, HttpControlError> {
    if before.bytes + byte_len(more) > limit {
        Err(HttpControlError::ResponseTooLarge)
    } else {
        Ok(Written { text: before.text + more, bytes: before.bytes + byte_len(more) })
    }
}

/// The address that may go on a line: it may be persisted and has no white space.
pub open spec fn line_uri(value: Json) -> Option<Seq<char>> {
    match value {
        Json::Text(text) => if text.persistable && forall|i: int|
            0 <= i < text.text@.len() ==> !is_ascii_white(#[trigger] text.text@[i]) {
            Some(text.text@)
        } else {
            None
        },
        _ => None,
    }
}

/// The first `n` addresses on a line, with tabs between them.
pub open spec fn written_uris(before: Written, items: Seq<Json>, limit: int, n: int) -> Result<
    Written,
    HttpControlError,
>
    decreases n,
{
    if n <= 0 {
        Ok(before)
    } else {
        match written_uris(before, items, limit, n - 1) {
            Err(error) => Err(error),
            Ok(so_far) => match line_uri(items[n - 1]) {
                None => Err(fault("URI cannot be exported as aria2 text")),
                Some(uri) => if n == 1 {
                    written(so_far, uri, limit)
                } else {
                    match written(so_far, "\t"@, limit) {
                        Err(error) => Err(error),
                        Ok(separated) => written(separated, uri, limit),
                    }
                },
            },
        }
    }
}

/// A control character of ASCII.
pub open spec fn is_control(c: char) -> bool {
    c < ' ' || c == '\u{7f}'
}

/// The value of an option that may go on a line.
pub open spec fn line_value(value: Json) -> Option<Seq<char>> {
    match value {
        Json::Text(text) => if forall|i: int| 0 <= i < text.text@.len() ==> !is_control(#[trigger] text.text@[i]) {
            Some(text.text@)
        } else {
            None
        },
        _ => None,
    }
}

/// The line of an option.
pub open spec fn option_text(name: Seq<char>, value: Seq<char>) -> Seq<char> {
    "  "@ + name + "="@ + value + "\n"@
}

/// The first `n` options, each on a line of its own; the others stand only in the
/// comment.
pub open spec fn written_options(
    before: Written,
    fields: Seq<JsonField>,
    options: Seq<String>,
    limit: int,
    n: int,
) -> Result<Written, HttpControlError>
    decreases n,
{
    if n <= 0 {
        Ok(before)
    } else {
        match written_options(before, fields, options, limit, n - 1) {
            Err(error) => Err(error),
            Ok(so_far) => {
                let name = fields[n - 1].name@;
                if !is_line_option(options, name) {
                    Ok(so_far)
                } else {
                    match line_value(fields[n - 1].value) {
                        None => Err(fault("option cannot be exported as aria2 text")),
                        Some(value) => if byte_len(name) + byte_len(value) + 3 > MAX_SESSION_LINE_BYTES {
                            Err(HttpControlError::ResponseTooLarge)
                        } else {
                            written(so_far, option_text(name, value), limit)
                        },
                    }
                }
            },
        }
    }
}

/// A text whose last line is ended, where that line is not too long.
pub open spec fn ended(start: Written, line: Written, limit: int) -> Result<Written, HttpControlError> {
    if line.bytes - start.bytes > MAX_SESSION_LINE_BYTES {
        Err(HttpControlError::ResponseTooLarge)
    } else {
        written(line, "\n"@, limit)
    }
}

/// The comment line of a task.
pub open spec fn written_comment(before: Written, json: Seq<char>, limit: int) -> Result<Written, HttpControlError> {
    match written(before, "# ariax-task "@, limit) {
        Err(error) => Err(error),
        Ok(begun) => match written(begun, json, limit) {
            Err(error) => Err(error),
            Ok(line) => ended(before, line, limit),
        },
    }
}

/// The line of addresses of a task.
pub open spec fn written_line(before: Written, items: Seq<Json>, limit: int) -> Result<Written, HttpControlError> {
    match written_uris(before, items, limit, items.len() as int) {
        Err(error) => Err(error),
        Ok(line) => ended(before, line, limit),
    }
}

/// The lines of a task: its comment, and its addresses and options where it has
/// addresses.
pub open spec fn written_task(
    before: Written,
    task: Json,
    json: Seq<char>,
    options: Seq<String>,
    limit: int,
) -> Result<Written, HttpControlError> {
    match (json_field(task, "uris"@), json_field(task, "options"@)) {
        (Some(Json::Array(uris)), Some(Json::Object(fields))) => match written_comment(before, json, limit) {
            Err(error) => Err(error),
            Ok(commented) => if uris@.len() == 0 {
                Ok(commented)
            } else {
                match written_line(commented, uris@, limit) {
                    Err(error) => Err(error),
                    Ok(listed) => written_options(listed, fields@, options, limit, fields@.len() as int),
                }
            },
        },
        (Some(Json::Array(_)), _) => Err(fault("invalid export options")),
        _ => Err(fault("invalid export URIs")),
    }
}

/// The JSON of a task.
pub open spec fn json_at(texts: Seq<String>, i: int) -> Seq<char> {
    if 0 <= i < texts.len() {
        texts[i]@
    } else {
        Seq::empty()
    }
}

/// The lines of the first `n` tasks.
pub open spec fn written_tasks(
    tasks: Seq<Json>,
    texts: Seq<String>,
    options: Seq<String>,
    limit: int,
    n: int,
) -> Result<Written, HttpControlError>
    decreases n,
{
    if n <= 0 {
        Ok(Written { text: Seq::empty(), bytes: 0 })
    } else {
        match written_tasks(tasks, texts, options, limit, n - 1) {
            Err(error) => Err(error),
            Ok(so_far) => written_task(so_far, tasks[n - 1], json_at(texts, n - 1), options, limit),
        }
    }
}

/// Whether a task was verified by a document.
pub open spec fn is_verified(task: Json) -> bool {
    json_field(task, "verification"@) is Some && !(json_field(task, "verification"@)->0 is Null)
}

/// Whether some task was verified by a document.
pub open spec fn some_verified(tasks: Seq<Json>) -> bool {
    exists|i: int| 0 <= i < tasks.len() && is_verified(#[trigger] tasks[i])
}

/// Whether some task is a torrent.
pub open spec fn some_torrent(tasks: Seq<Json>) -> bool {
    exists|i: int| 0 <= i < tasks.len() && field_text(#[trigger] tasks[i], "kind"@) == Some("bittorrent"@)
}

/// A session in text form, or why there is none.
pub open spec fn aria2_text(document: Json, texts: Seq<String>, options: Seq<String>, limit: int) -> Result<
    Seq<char>,
    HttpControlError,
> {
    match json_field(document, "tasks"@) {
        Some(Json::Array(tasks)) => if some_verified(tasks@) {
            Err(HttpControlError::Unsupported("VerificationMetadataRequiresJson"))
        } else if some_torrent(tasks@) {
            Err(HttpControlError::Unsupported("BitTorrentMetadataRequiresJson"))
        } else {
            match written_tasks(tasks@, texts, options, limit, tasks@.len() as int) {
                Ok(all) => Ok(all.text),
                Err(error) => Err(error),
            }
        },
        _ => Err(fault("invalid export document")),
    }
}

/// A text that is written, with its length.
#[derive(Debug)]
pub struct SessionWriter {
    pub text: String,
    pub bytes: usize,
}

impl View for SessionWriter {
    type V = Written;

    open spec fn view(&self) -> Written {
        Written { text: self.text@, bytes: self.bytes as int }
    }
}

impl SessionWriter {
    /// Writes more, where the text does not grow too long.
    pub fn write(&mut self, more: &str, limit: usize) -> (r: Result<(), HttpControlError>)
        ensures
            match written(old(self)@, more@, limit as int) {
                Ok(after) => r is Ok && final(self)@ == after,
                Err(error) => r == Err::<(), HttpControlError>(error) && final(self)@ == old(self)@,
            },
    {
        let more_bytes: usize = more.len();
        if self.bytes > limit || more_bytes > limit - self.bytes {
            return Err(HttpControlError::ResponseTooLarge);
        }
        self.text.append(more);
        self.bytes = self.bytes + more_bytes;
        Ok(())
    }
}

fn read_line_uri(value: &Json) -> (r: Option<&str>)
    ensures
        (match r {
            Some(uri) => Some(uri@),
            None => None,
        }) == line_uri(*value),
{
    match value {
        Json::Text(text) => {
            if !text.persistable {
                return None;
            }
            let chars = chars_of(text.text.as_str());
            let mut i: usize = 0;
            while i < chars.len()
                invariant
                    i <= chars.len(),
                    *value == Json::Text(*text),
                    chars@ == text.text@,
                    forall|k: int| 0 <= k < i ==> !is_ascii_white(#[trigger] text.text@[k]),
                decreases chars.len() - i,
            {
                if ascii_white(chars[i]) {
                    assert(is_ascii_white(text.text@[i as int]));
                    return None;
                }
                i = i + 1;
            }
            Some(text.text.as_str())
        },
        _ => None,
    }
}

fn read_line_value(value: &Json) -> (r: Option<&str>)
    ensures
        (match r {
            Some(text) => Some(text@),
            None => None,
        }) == line_value(*value),
{
    match value {
        Json::Text(text) => {
            let chars = chars_of(text.text.as_str());
            let mut i: usize = 0;
            while i < chars.len()
                invariant
                    i <= chars.len(),
                    *value == Json::Text(*text),
                    chars@ == text.text@,
                    forall|k: int| 0 <= k < i ==> !is_control(#[trigger] text.text@[k]),
                decreases chars.len() - i,
            {
                if chars[i] < ' ' || chars[i] == '\u{7f}' {
                    assert(is_control(text.text@[i as int]));
                    return None;
                }
                i = i + 1;
            }
            Some(text.text.as_str())
        },
        _ => None,
    }
}

proof fn lemma_uri_fault_stays(before: Written, items: Seq<Json>, limit: int, a: int, b: int)
    requires
        a <= b,
        written_uris(before, items, limit, a) is Err,
    ensures
        written_uris(before, items, limit, b) == written_uris(before, items, limit, a),
    decreases b - a,
{
    if a < b {
        lemma_uri_fault_stays(before, items, limit, a, b - 1);
    }
}

fn write_uris(writer: &mut SessionWriter, items: &Vec<Json>, limit: usize) -> (r: Result<(), HttpControlError>)
    ensures
        match written_uris(old(writer)@, items@, limit as int, items@.len() as int) {
            Ok(after) => r is Ok && final(writer)@ == after,
            Err(error) => r == Err::<(), HttpControlError>(error),
        },
{
    let ghost before = writer@;
    let mut i: usize = 0;
    while i < items.len()
        invariant
            i <= items.len(),
            before == old(writer)@,
            written_uris(before, items@, limit as int, i as int) == Ok::<Written, HttpControlError>(writer@),
        decreases items.len() - i,
    {
        proof {
            if written_uris(before, items@, limit as int, i as int + 1) is Err {
                lemma_uri_fault_stays(before, items@, limit as int, i as int + 1, items@.len() as int);
            }
        }
        let uri = match read_line_uri(&items[i]) {
            Some(uri) => uri,
            None => return Err(invalid("URI cannot be exported as aria2 text")),
        };
        if i != 0 {
            match writer.write("\t", limit) {
                Ok(_) => {},
                Err(error) => return Err(error),
            }
        }
        match writer.write(uri, limit) {
            Ok(_) => {},
            Err(error) => return Err(error),
        }
        i = i + 1;
    }
    Ok(())
}

proof fn lemma_option_fault_stays(
    before: Written,
    fields: Seq<JsonField>,
    options: Seq<String>,
    limit: int,
    a: int,
    b: int,
)
    requires
        a <= b,
        written_options(before, fields, options, limit, a) is Err,
    ensures
        written_options(before, fields, options, limit, b) == written_options(before, fields, options, limit, a),
    decreases b - a,
{
    if a < b {
        lemma_option_fault_stays(before, fields, options, limit, a, b - 1);
    }
}

fn write_options(writer: &mut SessionWriter, fields: &Vec<JsonField>, rules: &SessionRules, limit: usize) -> (r: Result<
    (),
    HttpControlError,
>)
    ensures
        match written_options(
            old(writer)@,
            fields@,
            rules.aria2_options@,
            limit as int,
            fields@.len() as int,
        ) {
            Ok(after) => r is Ok && final(writer)@ == after,
            Err(error) => r == Err::<(), HttpControlError>(error),
        },
{
    let ghost before = writer@;
    let ghost options = rules.aria2_options@;
    let mut i: usize = 0;
    while i < fields.len()
        invariant
            i <= fields.len(),
            before == old(writer)@,
            options == rules.aria2_options@,
            written_options(before, fields@, options, limit as int, i as int) == Ok::<Written, HttpControlError>(
                writer@,
            ),
        decreases fields.len() - i,
    {
        proof {
            if written_options(before, fields@, options, limit as int, i as int + 1) is Err {
                lemma_option_fault_stays(
                    before,
                    fields@,
                    options,
                    limit as int,
                    i as int + 1,
                    fields@.len() as int,
                );
            }
        }
        let name = fields[i].name.as_str();
        if line_option(rules, name) {
            let value = match read_line_value(&fields[i].value) {
                Some(value) => value,
                None => return Err(invalid("option cannot be exported as aria2 text")),
            };
            if name.len().saturating_add(value.len()).saturating_add(3) > MAX_SESSION_LINE_BYTES {
                return Err(HttpControlError::ResponseTooLarge);
            }
            let mut line = "  ".to_owned();
            line.append(name);
            line.append("=");
            line.append(value);
            line.append("\n");
            assert(line@ =~= option_text(name@, value@));
            match writer.write(line.as_str(), limit) {
                Ok(_) => {},
                Err(error) => return Err(error),
            }
        }
        i = i + 1;
    }
    Ok(())
}

fn end_line(writer: &mut SessionWriter, start: usize, limit: usize, Ghost(before): Ghost<Written>) -> (r: Result<
    (),
    HttpControlError,
>)
    requires
        before.bytes == start,
        start <= old(writer).bytes,
    ensures
        match ended(before, old(writer)@, limit as int) {
            Ok(after) => r is Ok && final(writer)@ == after,
            Err(error) => r == Err::<(), HttpControlError>(error),
        },
{
    if writer.bytes - start > MAX_SESSION_LINE_BYTES {
        return Err(HttpControlError::ResponseTooLarge);
    }
    writer.write("\n", limit)
}

proof fn lemma_uris_grow(before: Written, items: Seq<Json>, limit: int, n: int)
    ensures
        written_uris(before, items, limit, n) matches Ok(after) ==> after.bytes >= before.bytes,
    decreases n,
{
    if n > 0 {
        lemma_uris_grow(before, items, limit, n - 1);
    }
}

fn write_task(writer: &mut SessionWriter, task: &Json, json: &str, rules: &SessionRules, limit: usize) -> (r: Result<
    (),
    HttpControlError,
>)
    ensures
        match written_task(old(writer)@, *task, json@, rules.aria2_options@, limit as int) {
            Ok(after) => r is Ok && final(writer)@ == after,
            Err(error) => r == Err::<(), HttpControlError>(error),
        },
{
    let uris = match task.get("uris") {
        Some(Json::Array(uris)) => uris,
        _ => return Err(invalid("invalid export URIs")),
    };
    let fields = match task.get("options") {
        Some(Json::Object(fields)) => fields,
        _ => return Err(invalid("invalid export options")),
    };
    let start: usize = writer.bytes;
    let ghost before = writer@;
    match writer.write("# ariax-task ", limit) {
        Ok(_) => {},
        Err(error) => return Err(error),
    }
    match writer.write(json, limit) {
        Ok(_) => {},
        Err(error) => return Err(error),
    }
    match end_line(writer, start, limit, Ghost(before)) {
        Ok(_) => {},
        Err(error) => return Err(error),
    }
    if uris.len() == 0 {
        return Ok(());
    }
    let start: usize = writer.bytes;
    let ghost commented = writer@;
    proof {
        lemma_uris_grow(commented, uris@, limit as int, uris@.len() as int);
    }
    match write_uris(writer, uris, limit) {
        Ok(_) => {},
        Err(error) => return Err(error),
    }
    match end_line(writer, start, limit, Ghost(commented)) {
        Ok(_) => {},
        Err(error) => return Err(error),
    }
    write_options(writer, fields, rules, limit)
}

proof fn lemma_task_fault_stays(
    tasks: Seq<Json>,
    texts: Seq<String>,
    options: Seq<String>,
    limit: int,
    a: int,
    b: int,
)
    requires
        a <= b,
        written_tasks(tasks, texts, options, limit, a) is Err,
    ensures
        written_tasks(tasks, texts, options, limit, b) == written_tasks(tasks, texts, options, limit, a),
    decreases b - a,
{
    if a < b {
        lemma_task_fault_stays(tasks, texts, options, limit, a, b - 1);
    }
}

fn any_verified(tasks: &Vec<Json>) -> (r: bool)
    ensures
        r == some_verified(tasks@),
{
    let mut i: usize = 0;
    while i < tasks.len()
        invariant
            i <= tasks.len(),
            forall|k: int| 0 <= k < i ==> !is_verified(#[trigger] tasks@[k]),
        decreases tasks.len() - i,
    {
        let verified = match tasks[i].get("verification") {
            None => false,
            Some(Json::Null) => false,
            Some(_) => true,
        };
        if verified {
            assert(is_verified(tasks@[i as int]));
            return true;
        }
        i = i + 1;
    }
    false
}

fn any_torrent(tasks: &Vec<Json>) -> (r: bool)
    ensures
        r == some_torrent(tasks@),
{
    let mut i: usize = 0;
    while i < tasks.len()
        invariant
            i <= tasks.len(),
            forall|k: int| 0 <= k < i ==> field_text(#[trigger] tasks@[k], "kind"@) != Some("bittorrent"@),
        decreases tasks.len() - i,
    {
        let torrent = match tasks[i].get_text("kind") {
            Some(kind) => same_text(kind, "bittorrent"),
            None => false,
        };
        if torrent {
            assert(field_text(tasks@[i as int], "kind"@) == Some("bittorrent"@));
            return true;
        }
        i = i + 1;
    }
    false
}

/// Writes a session in text form; the JSON of each task is given.
pub fn render_aria2(document: &Json, texts: &Vec<String>, rules: &SessionRules, limits: &SessionLimits) -> (r: Result<
    String,
    HttpControlError,
>)
    ensures
        match aria2_text(*document, texts@, rules.aria2_options@, limits.document_bytes as int) {
            Ok(text) => r is Ok && r->Ok_0@ == text,
            Err(error) => r == Err::<String, HttpControlError>(error),
        },
{
    let tasks = match document.get("tasks") {
        Some(Json::Array(tasks)) => tasks,
        _ => return Err(invalid("invalid export document")),
    };
    if any_verified(tasks) {
        return Err(HttpControlError::Unsupported("VerificationMetadataRequiresJson"));
    }
    if any_torrent(tasks) {
        return Err(HttpControlError::Unsupported("BitTorrentMetadataRequiresJson"));
    }
    let limit: usize = limits.document_bytes;
    let ghost options = rules.aria2_options@;
    let mut writer = SessionWriter { text: String::new(), bytes: 0 };
    let mut i: usize = 0;
    while i < tasks.len()
        invariant
            i <= tasks.len(),
            options == rules.aria2_options@,
            aria2_text(*document, texts@, options, limit as int) == (match written_tasks(
                tasks@,
                texts@,
                options,
                limit as int,
                tasks@.len() as int,
            ) {
                Ok(all) => Ok::<Seq<char>, HttpControlError>(all.text),
                Err(error) => Err::<Seq<char>, HttpControlError>(error),
            }),
            limit == limits.document_bytes,
            written_tasks(tasks@, texts@, options, limit as int, i as int) == Ok::<Written, HttpControlError>(writer@),
        decreases tasks.len() - i,
    {
        proof {
            if written_tasks(tasks@, texts@, options, limit as int, i as int + 1) is Err {
                lemma_task_fault_stays(tasks@, texts@, options, limit as int, i as int + 1, tasks@.len() as int);
            }
        }
        let json = if i < texts.len() {
            texts[i].clone()
        } else {
            String::new()
        };
        assert(json@ =~= json_at(texts@, i as int));
        match write_task(&mut writer, &tasks[i], json.as_str(), rules, limit) {
            Ok(_) => {},
            Err(error) => return Err(error),
        }
        i = i + 1;
    }
    Ok(writer.text)
}

/// A session in JSON, where it is not too long.
pub fn render_json(text: String, limits: &SessionLimits) -> (r: Result<String, HttpControlError>)
    ensures
        r == (if byte_len(text@) > limits.document_bytes {
            Err::<String, HttpControlError>(HttpControlError::ResponseTooLarge)
        } else {
            Ok::<String, HttpControlError>(text)
        }),
{
    if text.as_str().len() > limits.document_bytes {
        Err(HttpControlError::ResponseTooLarge)
    } else {
        Ok(text)
    }
}

/// The tasks of a document.
pub open spec fn tasks_of(document: Json) -> Seq<Json> {
    match json_field(document, "tasks"@) {
        Some(Json::Array(tasks)) => tasks@,
        _ => Seq::empty(),
    }
}

/// Whether texts are what values are printed as.
pub open spec fn printed<P: Fn(&Json) -> String>(print: P, values: Seq<Json>, texts: Seq<String>) -> bool {
    texts.len() == values.len() && forall|i: int|
        0 <= i < values.len() ==> print.ensures((&#[trigger] values[i],), texts[i])
}

/// Whether a result is what a session is written as in a form.
pub open spec fn renders<P: Fn(&Json) -> String>(
    document: Json,
    format: SessionFormat,
    print: P,
    rules: SessionRules,
    limits: SessionLimits,
    r: Result<String, HttpControlError>,
) -> bool {
    match format {
        SessionFormat::Json => exists|text: String| #[trigger]
            print.ensures((&document,), text) && r == (if byte_len(text@) > limits.document_bytes {
                Err::<String, HttpControlError>(HttpControlError::ResponseTooLarge)
            } else {
                Ok::<String, HttpControlError>(text)
            }),
        SessionFormat::Aria2 => exists|texts: Seq<String>| #[trigger]
            printed(print, tasks_of(document), texts) && match aria2_text(
                document,
                texts,
                rules.aria2_options@,
                limits.document_bytes as int,
            ) {
                Ok(text) => r is Ok && r->Ok_0@ == text,
                Err(error) => r == Err::<String, HttpControlError>(error),
            },
    }
}

/// Writes a session in a form; `print` gives the JSON of a value.
pub fn render<P: Fn(&Json) -> String>(
    document: &Json,
    format: SessionFormat,
    print: P,
    rules: &SessionRules,
    limits: &SessionLimits,
) -> (r: Result<String, HttpControlError>)
    requires
        forall|value: Json| #[trigger] print.requires((&value,)),
    ensures
        renders(*document, format, print, *rules, *limits, r),
{
    match format {
        SessionFormat::Json => {
            let text = print(document);
            let ghost given = text;
            assert(print.ensures((document,), given));
            render_json(text, limits)
        },
        SessionFormat::Aria2 => {
            let mut texts: Vec<String> = Vec::new();
            match document.get("tasks") {
                Some(Json::Array(tasks)) => {
                    let mut i: usize = 0;
                    while i < tasks.len()
                        invariant
                            i <= tasks.len(),
                            texts@.len() == i,
                            forall|value: Json| #[trigger] print.requires((&value,)),
                            forall|k: int| 0 <= k < i ==> print.ensures((&#[trigger] tasks@[k],), texts@[k]),
                        decreases tasks.len() - i,
                    {
                        texts.push(print(&tasks[i]));
                        i = i + 1;
                    }
                },
                _ => {},
            }
            assert(printed(print, tasks_of(*document), texts@));
            render_aria2(document, &texts, rules, limits)
        },
    }
}

} // verus!
