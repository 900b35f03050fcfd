//! What a call of a host function asks of the host. The library checks
//! the arguments and lays the request out; the host does the work.

use vstd::prelude::*;
use vstd::string::StringExecFns;
use crate::display::{piece_views, show, shown, Piece, PieceView};
use crate::heap::{entry_views, object_views, Object, ObjectView};
use crate::model::{uppercased, NativeKind};
use crate::number::Number;
use crate::text::is_text;
use crate::value::{views, KeyView, Value, ValueKey, ValueView};

verus! {

/// The options of an HTTP request.
#[derive(Debug, PartialEq)]
pub struct RequestOptions {
    /// The headers, each value laid out as text.
    pub headers: Vec<(String, Vec<Piece>)>,
    pub body: Option<String>,
    /// The value to send as a JSON body.
    pub json_body: Option<Value>,
    pub timeout_ms: Option<usize>,
    /// Whether the answer is to be read as JSON whatever it says it is.
    pub expect_json: bool,
}

/// What the host is asked to do.
#[derive(Debug, PartialEq)]
pub enum HostCall {
    /// Write the items, each followed by a space, then a line feed.
    Print { items: Vec<Vec<Piece>> },
    /// Write the prompt, read a line, hand it back trimmed.
    Input { prompt: Option<String> },
    ReadFile { path: String },
    WriteFile { path: String, content: String },
    FileExists { path: String },
    DeleteFile { path: String },
    /// Run the command and hand back what it wrote.
    Execute { command: String, arguments: Vec<Vec<Piece>> },
    EnvGet { name: String },
    EnvSet { name: String, value: Vec<Piece> },
    /// Hand back the arguments of the command line.
    Args,
    JsonParse { text: String },
    JsonStringify { value: Value },
    Request { method: String, url: String, options: RequestOptions },
}

pub struct OptionsView {
    pub headers: Seq<(Seq<char>, Seq<PieceView>)>,
    pub body: Option<Seq<char>>,
    pub json_body: Option<ValueView>,
    pub timeout_ms: Option<usize>,
    pub expect_json: bool,
}

pub enum HostCallView {
    Print { items: Seq<Seq<PieceView>> },
    Input { prompt: Option<Seq<char>> },
    ReadFile { path: Seq<char> },
    WriteFile { path: Seq<char>, content: Seq<char> },
    FileExists { path: Seq<char> },
    DeleteFile { path: Seq<char> },
    Execute { command: Seq<char>, arguments: Seq<Seq<PieceView>> },
    EnvGet { name: Seq<char> },
    EnvSet { name: Seq<char>, value: Seq<PieceView> },
    Args,
    JsonParse { text: Seq<char> },
    JsonStringify { value: ValueView },
    Request { method: Seq<char>, url: Seq<char>, options: OptionsView },
}

pub open spec fn header_views(s: Seq<(String, Vec<Piece>)>) -> Seq<(Seq<char>, Seq<PieceView>)> {
    s.map_values(|h: (String, Vec<Piece>)| (h.0@, piece_views(h.1@)))
}

pub open spec fn lists_views(s: Seq<Vec<Piece>>) -> Seq<Seq<PieceView>> {
    s.map_values(|l: Vec<Piece>| piece_views(l@))
}

impl View for RequestOptions {
    type V = OptionsView;

    open spec fn view(&self) -> OptionsView {
        OptionsView {
            headers: header_views(self.headers@),
            body: match self.body {
                Some(b) => Some(b@),
                None => None,
            },
            json_body: match self.json_body {
                Some(v) => Some(v@),
                None => None,
            },
            timeout_ms: self.timeout_ms,
            expect_json: self.expect_json,
        }
    }
}

impl View for HostCall {
    type V = HostCallView;

    open spec fn view(&self) -> HostCallView {
        match *self {
            HostCall::Print { items } => HostCallView::Print { items: lists_views(items@) },
            HostCall::Input { prompt } => HostCallView::Input {
                prompt: match prompt {
                    Some(p) => Some(p@),
                    None => None,
                },
            },
            HostCall::ReadFile { path } => HostCallView::ReadFile { path: path@ },
            HostCall::WriteFile { path, content } => HostCallView::WriteFile { path: path@, content: content@ },
            HostCall::FileExists { path } => HostCallView::FileExists { path: path@ },
            HostCall::DeleteFile { path } => HostCallView::DeleteFile { path: path@ },
            HostCall::Execute { command, arguments } => HostCallView::Execute {
                command: command@,
                arguments: lists_views(arguments@),
            },
            HostCall::EnvGet { name } => HostCallView::EnvGet { name: name@ },
            HostCall::EnvSet { name, value } => HostCallView::EnvSet { name: name@, value: piece_views(value@) },
            HostCall::Args => HostCallView::Args,
            HostCall::JsonParse { text } => HostCallView::JsonParse { text: text@ },
            HostCall::JsonStringify { value } => HostCallView::JsonStringify { value: value@ },
            HostCall::Request { method, url, options } => HostCallView::Request {
                method: method@,
                url: url@,
                options: options@,
            },
        }
    }
}

pub const READ_ARGS: &'static str = "читать ожидает 1 аргумент (путь)";
pub const WRITE_ARGS: &'static str = "писать ожидает 2 аргумента";
pub const EXISTS_ARGS: &'static str = "существует ожидает 1 аргумент";
pub const DELETE_ARGS: &'static str = "удалить ожидает 1 аргумент";
pub const PATH_NOT_TEXT: &'static str = "Путь должен быть строкой";
pub const CONTENT_NOT_TEXT: &'static str = "Содержимое должно быть строкой";
pub const EXECUTE_ARGS: &'static str = "выполнить ожидает команду";
pub const COMMAND_NOT_TEXT: &'static str = "Команда должна быть строкой";
pub const ENV_GET_ARGS: &'static str = "получить_переменную требует 1 аргумент: имя переменной";
pub const ENV_SET_ARGS: &'static str = "задать_переменную требует 2 аргумента: имя и значение";
pub const ENV_NAME_NOT_TEXT: &'static str = "Имя переменной должно быть строкой";
pub const ENV_VALUE: &'static str = "Значение должно быть строкой, числом или булевым";
pub const PARSE_ARGS: &'static str = "десериализовать требует 1 аргумент: строку с JSON";
pub const STRINGIFY_ARGS: &'static str = "сериализовать требует 1 аргумент: значение";
pub const NOT_TEXT: &'static str = "Аргумент должен быть строкой";
pub const REQUEST_ARGS: &'static str = "запрос требует 2 или 3 аргумента: метод, url, [опции]";
pub const GET_ARGS: &'static str = "получить требует 1 или 2 аргумента: url, [опции]";
pub const REQUEST_JSON_ARGS: &'static str = "запрос_json требует 3 или 4 аргумента: метод, url, данные, [опции]";
pub const METHOD_NOT_TEXT: &'static str = "Первый аргумент (метод) должен быть строкой";
pub const URL_SECOND_NOT_TEXT: &'static str = "Второй аргумент (url) должен быть строкой";
pub const URL_FIRST_NOT_TEXT: &'static str = "Первый аргумент (url) должен быть строкой";
pub const JSON_TWICE: &'static str = "В запрос_json тело задается третьим аргументом, уберите 'json' из опций";
pub const OPTIONS_NOT_DICT: &'static str = "Опции должны быть словарем";
pub const OPTION_KEY: &'static str = "Ключи опций должны быть строками";
pub const BODY_NOT_TEXT: &'static str = "Опция 'тело' должна быть строкой";
pub const TIMEOUT: &'static str = "Опция 'таймаут_мс' должна быть неотрицательным числом";
pub const EXPECT_NOT_BOOL: &'static str = "Опция 'ожидать_json' должна быть булевой";
pub const UNKNOWN_OPTION_BEFORE: &'static str = "Неизвестная опция '";
pub const UNKNOWN_OPTION_AFTER: &'static str = "'";
pub const BODY_AND_JSON: &'static str = "Нельзя указывать одновременно 'тело' и 'json'";
pub const HEADERS_NOT_DICT: &'static str = "Заголовки должны быть словарем";
pub const HEADER_NAME: &'static str = "Имена заголовков должны быть строками";
pub const HEADER_VALUE: &'static str = "Значения заголовков должны быть строками/числами/булевыми";

pub const NOT_FOR_HOST: &'static str = "Функция выполняется самой машиной";

pub const OPTION_HEADERS: &'static str = "заголовки";
pub const OPTION_BODY: &'static str = "тело";
pub const OPTION_JSON: &'static str = "json";
pub const OPTION_TIMEOUT: &'static str = "таймаут_мс";
pub const OPTION_EXPECT: &'static str = "ожидать_json";
pub const GET: &'static str = "GET";

/// A string, a number or a boolean as text; nothing for any other value.
pub open spec fn plain_shown(v: ValueView) -> Option<Seq<PieceView>> {
    match v {
        ValueView::String(s) => Some(seq![PieceView::Text(s)]),
        ValueView::Number(n) => Some(seq![PieceView::Number(n)]),
        ValueView::Boolean(b) => Some(seq![PieceView::Text(crate::display::truth_text(b))]),
        _ => None,
    }
}

/// The headers that the first `n` entries of a dictionary give, or the
/// first error among them.
pub open spec fn headers_of(entries: Seq<(KeyView, ValueView)>, n: nat) -> Result<
    Seq<(Seq<char>, Seq<PieceView>)>,
    Seq<char>,
>
    decreases n,
{
    if n == 0 || n > entries.len() {
        Ok(Seq::empty())
    } else {
        match headers_of(entries, (n - 1) as nat) {
            Err(reason) => Err(reason),
            Ok(before) => match entries[n - 1].0 {
                KeyView::String(name) => match plain_shown(entries[n - 1].1) {
                    Some(value) => Ok(before.push((name, value))),
                    None => Err(HEADER_VALUE@),
                },
                _ => Err(HEADER_NAME@),
            },
        }
    }
}

/// The headers that a value gives: it is to be a dictionary of strings,
/// numbers and booleans under strings.
pub open spec fn headers_from(heap: Seq<ObjectView>, v: ValueView) -> Result<
    Seq<(Seq<char>, Seq<PieceView>)>,
    Seq<char>,
> {
    match v {
        ValueView::Dict(d) => if d < heap.len() && heap[d as int] is Dict {
            headers_of(heap[d as int]->Dict_0, heap[d as int]->Dict_0.len())
        } else {
            Err(HEADERS_NOT_DICT@)
        },
        _ => Err(HEADERS_NOT_DICT@),
    }
}

/// The time limit in milliseconds that a value gives.
pub open spec fn timeout_of(v: ValueView) -> Result<usize, Seq<char>> {
    match v {
        ValueView::Number(n) => if !n.is_nan() && n.rank() >= 0 {
            Ok(n.to_index() as usize)
        } else {
            Err(TIMEOUT@)
        },
        _ => Err(TIMEOUT@),
    }
}

/// The options after one more entry of the options dictionary.
pub open spec fn with_option(
    heap: Seq<ObjectView>,
    options: OptionsView,
    key: KeyView,
    v: ValueView,
) -> Result<OptionsView, Seq<char>> {
    match key {
        KeyView::String(name) => if name == OPTION_HEADERS@ {
            match headers_from(heap, v) {
                Ok(headers) => Ok(OptionsView { headers, ..options }),
                Err(reason) => Err(reason),
            }
        } else if name == OPTION_BODY@ {
            match v {
                ValueView::String(body) => Ok(OptionsView { body: Some(body), ..options }),
                _ => Err(BODY_NOT_TEXT@),
            }
        } else if name == OPTION_JSON@ {
            Ok(OptionsView { json_body: Some(v), ..options })
        } else if name == OPTION_TIMEOUT@ {
            match timeout_of(v) {
                Ok(ms) => Ok(OptionsView { timeout_ms: Some(ms), ..options }),
                Err(reason) => Err(reason),
            }
        } else if name == OPTION_EXPECT@ {
            match v {
                ValueView::Boolean(flag) => Ok(OptionsView { expect_json: flag, ..options }),
                _ => Err(EXPECT_NOT_BOOL@),
            }
        } else {
            Err(UNKNOWN_OPTION_BEFORE@ + name + UNKNOWN_OPTION_AFTER@)
        },
        _ => Err(OPTION_KEY@),
    }
}

pub open spec fn no_options(expect_json: bool) -> OptionsView {
    OptionsView { headers: Seq::empty(), body: None, json_body: None, timeout_ms: None, expect_json }
}

/// The options after the first `n` entries of the options dictionary.
pub open spec fn options_of(
    heap: Seq<ObjectView>,
    entries: Seq<(KeyView, ValueView)>,
    n: nat,
    expect_json: bool,
) -> Result<OptionsView, Seq<char>>
    decreases n,
{
    if n == 0 || n > entries.len() {
        Ok(no_options(expect_json))
    } else {
        match options_of(heap, entries, (n - 1) as nat, expect_json) {
            Err(reason) => Err(reason),
            Ok(before) => with_option(heap, before, entries[n - 1].0, entries[n - 1].1),
        }
    }
}

/// The options that a value gives: it is to be a dictionary of known
/// options, and a body is to be given in one way only.
pub open spec fn options_from(heap: Seq<ObjectView>, v: ValueView, expect_json: bool) -> Result<
    OptionsView,
    Seq<char>,
> {
    match v {
        ValueView::Dict(d) => if d < heap.len() && heap[d as int] is Dict {
            match options_of(heap, heap[d as int]->Dict_0, heap[d as int]->Dict_0.len(), expect_json) {
                Ok(options) => if options.body is Some && options.json_body is Some {
                    Err(BODY_AND_JSON@)
                } else {
                    Ok(options)
                },
                Err(reason) => Err(reason),
            }
        } else {
            Err(OPTIONS_NOT_DICT@)
        },
        _ => Err(OPTIONS_NOT_DICT@),
    }
}

/// The items of a print, each laid out as text.
pub open spec fn print_items(heap: Seq<ObjectView>, args: Seq<ValueView>) -> Seq<Seq<PieceView>> {
    args.map_values(|v: ValueView| shown(heap, v, heap.len()))
}

/// The arguments of a command: a string, a number or a boolean as text,
/// anything else as nothing.
pub open spec fn command_arguments(args: Seq<ValueView>) -> Seq<Seq<PieceView>> {
    args.skip(1).map_values(
        |v: ValueView|
            match plain_shown(v) {
                Some(pieces) => pieces,
                None => Seq::empty(),
            },
    )
}

/// What a call of a host function asks of the host, or the error in its
/// arguments.
pub open spec fn host_call(heap: Seq<ObjectView>, kind: NativeKind, args: Seq<ValueView>) -> Result<
    HostCallView,
    Seq<char>,
> {
    match kind {
        NativeKind::IoPrint => Ok(HostCallView::Print { items: print_items(heap, args) }),
        NativeKind::IoInput => Ok(
            HostCallView::Input {
                prompt: if args.len() > 0 && args[0] is String {
                    Some(args[0]->String_0)
                } else {
                    None
                },
            },
        ),
        NativeKind::FsRead => if args.len() != 1 {
            Err(READ_ARGS@)
        } else {
            match args[0] {
                ValueView::String(path) => Ok(HostCallView::ReadFile { path }),
                _ => Err(PATH_NOT_TEXT@),
            }
        },
        NativeKind::FsWrite => if args.len() != 2 {
            Err(WRITE_ARGS@)
        } else {
            match (args[0], args[1]) {
                (ValueView::String(path), ValueView::String(content)) => Ok(HostCallView::WriteFile { path, content }),
                (ValueView::String(_), _) => Err(CONTENT_NOT_TEXT@),
                _ => Err(PATH_NOT_TEXT@),
            }
        },
        NativeKind::FsExists => if args.len() != 1 {
            Err(EXISTS_ARGS@)
        } else {
            match args[0] {
                ValueView::String(path) => Ok(HostCallView::FileExists { path }),
                _ => Err(PATH_NOT_TEXT@),
            }
        },
        NativeKind::FsDelete => if args.len() != 1 {
            Err(DELETE_ARGS@)
        } else {
            match args[0] {
                ValueView::String(path) => Ok(HostCallView::DeleteFile { path }),
                _ => Err(PATH_NOT_TEXT@),
            }
        },
        NativeKind::SysExecute => if args.len() == 0 {
            Err(EXECUTE_ARGS@)
        } else {
            match args[0] {
                ValueView::String(command) => Ok(
                    HostCallView::Execute { command, arguments: command_arguments(args) },
                ),
                _ => Err(COMMAND_NOT_TEXT@),
            }
        },
        NativeKind::EnvGet => if args.len() != 1 {
            Err(ENV_GET_ARGS@)
        } else {
            match args[0] {
                ValueView::String(name) => Ok(HostCallView::EnvGet { name }),
                _ => Err(ENV_NAME_NOT_TEXT@),
            }
        },
        NativeKind::EnvSet => if args.len() != 2 {
            Err(ENV_SET_ARGS@)
        } else {
            match args[0] {
                ValueView::String(name) => match plain_shown(args[1]) {
                    Some(value) => Ok(HostCallView::EnvSet { name, value }),
                    None => Err(ENV_VALUE@),
                },
                _ => Err(ENV_NAME_NOT_TEXT@),
            }
        },
        NativeKind::SysArgs => Ok(HostCallView::Args),
        NativeKind::JsonParse => if args.len() != 1 {
            Err(PARSE_ARGS@)
        } else {
            match args[0] {
                ValueView::String(text) => Ok(HostCallView::JsonParse { text }),
                _ => Err(NOT_TEXT@),
            }
        },
        NativeKind::JsonStringify => if args.len() != 1 {
            Err(STRINGIFY_ARGS@)
        } else {
            Ok(HostCallView::JsonStringify { value: args[0] })
        },
        NativeKind::NetRequest => if args.len() < 2 || args.len() > 3 {
            Err(REQUEST_ARGS@)
        } else {
            match (args[0], args[1]) {
                (ValueView::String(method), ValueView::String(url)) => {
                    let options = if args.len() == 3 {
                        options_from(heap, args[2], false)
                    } else {
                        Ok(no_options(false))
                    };
                    match options {
                        Ok(options) => Ok(HostCallView::Request { method: uppercased(method), url, options }),
                        Err(reason) => Err(reason),
                    }
                },
                (ValueView::String(_), _) => Err(URL_SECOND_NOT_TEXT@),
                _ => Err(METHOD_NOT_TEXT@),
            }
        },
        NativeKind::NetGet => if args.len() < 1 || args.len() > 2 {
            Err(GET_ARGS@)
        } else {
            match args[0] {
                ValueView::String(url) => {
                    let options = if args.len() == 2 {
                        options_from(heap, args[1], false)
                    } else {
                        Ok(no_options(false))
                    };
                    match options {
                        Ok(options) => Ok(HostCallView::Request { method: GET@, url, options }),
                        Err(reason) => Err(reason),
                    }
                },
                _ => Err(URL_FIRST_NOT_TEXT@),
            }
        },
        NativeKind::NetRequestJson => if args.len() < 3 || args.len() > 4 {
            Err(REQUEST_JSON_ARGS@)
        } else {
            match (args[0], args[1]) {
                (ValueView::String(method), ValueView::String(url)) => {
                    let options = if args.len() == 4 {
                        options_from(heap, args[3], true)
                    } else {
                        Ok(no_options(true))
                    };
                    match options {
                        Ok(options) => if options.json_body is Some {
                            Err(JSON_TWICE@)
                        } else {
                            Ok(
                                HostCallView::Request {
                                    method: uppercased(method),
                                    url,
                                    options: OptionsView { json_body: Some(args[2]), ..options },
                                },
                            )
                        },
                        Err(reason) => Err(reason),
                    }
                },
                (ValueView::String(_), _) => Err(URL_SECOND_NOT_TEXT@),
                _ => Err(METHOD_NOT_TEXT@),
            }
        },
        _ => Err(NOT_FOR_HOST@),
    }
}

fn plain(v: &Value) -> (r: Option<Vec<Piece>>)
    ensures
        match r {
            Some(pieces) => plain_shown(v@) == Some(piece_views(pieces@)),
            None => plain_shown(v@) is None,
        },
{
    let mut pieces: Vec<Piece> = Vec::new();
    match v {
        Value::String(s) => {
            pieces.push(Piece::Text(s.clone()));
        },
        Value::Number(n) => {
            pieces.push(Piece::Number(*n));
        },
        Value::Boolean(b) => {
            pieces.push(
                Piece::Text(
                    if *b {
                        crate::display::TRUE.to_string()
                    } else {
                        crate::display::FALSE.to_string()
                    },
                ),
            );
        },
        _ => {
            return None;
        },
    }
    assert(piece_views(pieces@) =~= seq![pieces@[0]@]);
    Some(pieces)
}

fn headers_in(heap: &Vec<Object>, v: &Value) -> (r: Result<Vec<(String, Vec<Piece>)>, String>)
    ensures
        match r {
            Ok(headers) => headers_from(object_views(heap@), v@) == Ok::<
                Seq<(Seq<char>, Seq<PieceView>)>,
                Seq<char>,
            >(header_views(headers@)),
            Err(reason) => headers_from(object_views(heap@), v@) == Err::<
                Seq<(Seq<char>, Seq<PieceView>)>,
                Seq<char>,
            >(reason@),
        },
{
    let d: usize = match v {
        Value::Dict(d) => *d,
        _ => {
            return Err(HEADERS_NOT_DICT.to_string());
        },
    };
    if d >= heap.len() {
        return Err(HEADERS_NOT_DICT.to_string());
    }
    match &heap[d] {
        Object::Dict(entries) => {
            let ghost ve = entry_views(entries@);
            let mut headers: Vec<(String, Vec<Piece>)> = Vec::new();
            assert(header_views(headers@) =~= Seq::empty());
            let mut i: usize = 0;
            while i < entries.len()
                invariant
                    i <= entries.len(),
                    ve == entry_views(entries@),
                    v@ == ValueView::Dict(d),
                    d < heap.len(),
                    object_views(heap@)[d as int] == ObjectView::Dict(ve),
                    headers_of(ve, i as nat) == Ok::<Seq<(Seq<char>, Seq<PieceView>)>, Seq<char>>(
                        header_views(headers@),
                    ),
                decreases entries.len() - i,
            {
                let name: String = match &entries[i].0 {
                    ValueKey::String(name) => name.clone(),
                    _ => {
                        proof {
                            assert(ve[i as int] == (entries[i as int].0@, entries[i as int].1@));
                            assert(headers_of(ve, (i + 1) as nat) is Err);
                            lemma_headers_fail(ve, (i + 1) as nat, ve.len());
                        }
                        return Err(HEADER_NAME.to_string());
                    },
                };
                match plain(&entries[i].1) {
                    Some(value) => {
                        let ghost before = header_views(headers@);
                        headers.push((name, value));
                        assert(header_views(headers@) =~= before.push((name@, piece_views(value@))));
                    },
                    None => {
                        proof {
                            assert(ve[i as int] == (entries[i as int].0@, entries[i as int].1@));
                            assert(headers_of(ve, (i + 1) as nat) is Err);
                            lemma_headers_fail(ve, (i + 1) as nat, ve.len());
                        }
                        return Err(HEADER_VALUE.to_string());
                    },
                }
                i = i + 1;
            }
            Ok(headers)
        },
        _ => Err(HEADERS_NOT_DICT.to_string()),
    }
}

proof fn lemma_headers_fail(entries: Seq<(KeyView, ValueView)>, k: nat, n: nat)
    requires
        k <= n <= entries.len(),
        headers_of(entries, k) is Err,
    ensures
        headers_of(entries, n) == headers_of(entries, k),
    decreases n,
{
    if k < n {
        lemma_headers_fail(entries, k, (n - 1) as nat);
    }
}

proof fn lemma_options_fail(
    heap: Seq<ObjectView>,
    entries: Seq<(KeyView, ValueView)>,
    k: nat,
    n: nat,
    expect_json: bool,
)
    requires
        k <= n <= entries.len(),
        options_of(heap, entries, k, expect_json) is Err,
    ensures
        options_of(heap, entries, n, expect_json) == options_of(heap, entries, k, expect_json),
    decreases n,
{
    if k < n {
        lemma_options_fail(heap, entries, k, (n - 1) as nat, expect_json);
    }
}

fn timeout_in(v: &Value) -> (r: Result<usize, String>)
    ensures
        match r {
            Ok(ms) => timeout_of(v@) == Ok::<usize, Seq<char>>(ms),
            Err(reason) => timeout_of(v@) == Err::<usize, Seq<char>>(reason@),
        },
{
    match v {
        Value::Number(n) => {
            let zero = Number { bits: 0 };
            if !n.nan() && (n.greater(&zero) || n.same(&zero)) {
                Ok(n.index())
            } else {
                Err(TIMEOUT.to_string())
            }
        },
        _ => Err(TIMEOUT.to_string()),
    }
}

fn apply_option(heap: &Vec<Object>, options: RequestOptions, key: &ValueKey, v: &Value) -> (r: Result<
    RequestOptions,
    String,
>)
    ensures
        match r {
            Ok(after) => with_option(object_views(heap@), options@, key@, v@) == Ok::<OptionsView, Seq<char>>(
                after@,
            ),
            Err(reason) => with_option(object_views(heap@), options@, key@, v@) == Err::<OptionsView, Seq<char>>(
                reason@,
            ),
        },
{
    let mut options = options;
    let name: &String = match key {
        ValueKey::String(name) => name,
        _ => {
            return Err(OPTION_KEY.to_string());
        },
    };
    if is_text(name, OPTION_HEADERS) {
        match headers_in(heap, v) {
            Ok(headers) => {
                options.headers = headers;
                Ok(options)
            },
            Err(reason) => Err(reason),
        }
    } else if is_text(name, OPTION_BODY) {
        match v {
            Value::String(body) => {
                options.body = Some(body.clone());
                Ok(options)
            },
            _ => Err(BODY_NOT_TEXT.to_string()),
        }
    } else if is_text(name, OPTION_JSON) {
        options.json_body = Some(v.duplicate());
        Ok(options)
    } else if is_text(name, OPTION_TIMEOUT) {
        match timeout_in(v) {
            Ok(ms) => {
                options.timeout_ms = Some(ms);
                Ok(options)
            },
            Err(reason) => Err(reason),
        }
    } else if is_text(name, OPTION_EXPECT) {
        match v {
            Value::Boolean(flag) => {
                options.expect_json = *flag;
                Ok(options)
            },
            _ => Err(EXPECT_NOT_BOOL.to_string()),
        }
    } else {
        Err(UNKNOWN_OPTION_BEFORE.to_string().concat(name.as_str()).concat(UNKNOWN_OPTION_AFTER))
    }
}

fn empty_options(expect_json: bool) -> (r: RequestOptions)
    ensures
        r@ == no_options(expect_json),
{
    let r = RequestOptions { headers: Vec::new(), body: None, json_body: None, timeout_ms: None, expect_json };
    assert(header_views(r.headers@) =~= Seq::empty());
    r
}

/// The options that a value gives.
pub fn parse_options(heap: &Vec<Object>, v: &Value, expect_json: bool) -> (r: Result<RequestOptions, String>)
    ensures
        match r {
            Ok(options) => options_from(object_views(heap@), v@, expect_json) == Ok::<OptionsView, Seq<char>>(
                options@,
            ),
            Err(reason) => options_from(object_views(heap@), v@, expect_json) == Err::<OptionsView, Seq<char>>(
                reason@,
            ),
        },
{
    let d: usize = match v {
        Value::Dict(d) => *d,
        _ => {
            return Err(OPTIONS_NOT_DICT.to_string());
        },
    };
    if d >= heap.len() {
        return Err(OPTIONS_NOT_DICT.to_string());
    }
    match &heap[d] {
        Object::Dict(entries) => {
            let ghost h = object_views(heap@);
            let ghost ve = entry_views(entries@);
            let mut options = empty_options(expect_json);
            let mut i: usize = 0;
            while i < entries.len()
                invariant
                    i <= entries.len(),
                    h == object_views(heap@),
                    ve == entry_views(entries@),
                    v@ == ValueView::Dict(d),
                    d < heap.len(),
                    h[d as int] == ObjectView::Dict(ve),
                    options_of(h, ve, i as nat, expect_json) == Ok::<OptionsView, Seq<char>>(options@),
                decreases entries.len() - i,
            {
                match apply_option(heap, options, &entries[i].0, &entries[i].1) {
                    Ok(after) => {
                        options = after;
                    },
                    Err(reason) => {
                        proof {
                            assert(ve[i as int] == (entries[i as int].0@, entries[i as int].1@));
                            assert(options_of(h, ve, (i + 1) as nat, expect_json) is Err);
                            lemma_options_fail(h, ve, (i + 1) as nat, ve.len(), expect_json);
                        }
                        return Err(reason);
                    },
                }
                i = i + 1;
            }
            if options.body.is_some() && options.json_body.is_some() {
                Err(BODY_AND_JSON.to_string())
            } else {
                Ok(options)
            }
        },
        _ => Err(OPTIONS_NOT_DICT.to_string()),
    }
}

fn items_to_print(heap: &Vec<Object>, args: &Vec<Value>) -> (r: Vec<Vec<Piece>>)
    ensures
        lists_views(r@) == print_items(object_views(heap@), views(args@)),
{
    let mut items: Vec<Vec<Piece>> = Vec::new();
    let depth: usize = heap.len();
    let mut i: usize = 0;
    while i < args.len()
        invariant
            i <= args.len(),
            depth == heap.len(),
            items.len() == i,
            forall|k: int|
                0 <= k < i ==> piece_views((#[trigger] items[k])@) == shown(
                    object_views(heap@),
                    args[k]@,
                    heap.len() as nat,
                ),
        decreases args.len() - i,
    {
        items.push(show(heap, &args[i], depth));
        i = i + 1;
    }
    assert(lists_views(items@) =~= print_items(object_views(heap@), views(args@)));
    items
}

fn arguments_of_command(args: &Vec<Value>) -> (r: Vec<Vec<Piece>>)
    requires
        args.len() > 0,
    ensures
        lists_views(r@) == command_arguments(views(args@)),
{
    let mut items: Vec<Vec<Piece>> = Vec::new();
    let mut i: usize = 1;
    while i < args.len()
        invariant
            1 <= i <= args.len(),
            items.len() == i - 1,
            forall|k: int|
                0 <= k < i - 1 ==> piece_views((#[trigger] items[k])@) == match plain_shown(args[k + 1]@) {
                    Some(pieces) => pieces,
                    None => Seq::empty(),
                },
        decreases args.len() - i,
    {
        match plain(&args[i]) {
            Some(pieces) => {
                items.push(pieces);
            },
            None => {
                let empty: Vec<Piece> = Vec::new();
                assert(piece_views(empty@) =~= Seq::empty());
                items.push(empty);
            },
        }
        i = i + 1;
    }
    assert(lists_views(items@) =~= command_arguments(views(args@)));
    items
}

/// What a call of a host function asks of the host, or the error in its
/// arguments. The functions of the strings module ask nothing of the host,
/// the machine runs them itself: for them the answer is an error.
pub fn decode(heap: &Vec<Object>, kind: NativeKind, args: &Vec<Value>) -> (r: Result<HostCall, String>)
    ensures
        match r {
            Ok(call) => host_call(object_views(heap@), kind, views(args@)) == Ok::<HostCallView, Seq<char>>(
                call@,
            ),
            Err(reason) => host_call(object_views(heap@), kind, views(args@)) == Err::<HostCallView, Seq<char>>(
                reason@,
            ),
        },
{
    match kind {
        NativeKind::IoPrint => Ok(HostCall::Print { items: items_to_print(heap, args) }),
        NativeKind::IoInput => {
            let prompt: Option<String> = if args.len() > 0 {
                match &args[0] {
                    Value::String(p) => Some(p.clone()),
                    _ => None,
                }
            } else {
                None
            };
            Ok(HostCall::Input { prompt })
        },
        NativeKind::FsRead => {
            if args.len() != 1 {
                return Err(READ_ARGS.to_string());
            }
            match &args[0] {
                Value::String(path) => Ok(HostCall::ReadFile { path: path.clone() }),
                _ => Err(PATH_NOT_TEXT.to_string()),
            }
        },
        NativeKind::FsWrite => {
            if args.len() != 2 {
                return Err(WRITE_ARGS.to_string());
            }
            match (&args[0], &args[1]) {
                (Value::String(path), Value::String(content)) => Ok(
                    HostCall::WriteFile { path: path.clone(), content: content.clone() },
                ),
                (Value::String(_), _) => Err(CONTENT_NOT_TEXT.to_string()),
                _ => Err(PATH_NOT_TEXT.to_string()),
            }
        },
        NativeKind::FsExists => {
            if args.len() != 1 {
                return Err(EXISTS_ARGS.to_string());
            }
            match &args[0] {
                Value::String(path) => Ok(HostCall::FileExists { path: path.clone() }),
                _ => Err(PATH_NOT_TEXT.to_string()),
            }
        },
        NativeKind::FsDelete => {
            if args.len() != 1 {
                return Err(DELETE_ARGS.to_string());
            }
            match &args[0] {
                Value::String(path) => Ok(HostCall::DeleteFile { path: path.clone() }),
                _ => Err(PATH_NOT_TEXT.to_string()),
            }
        },
        NativeKind::SysExecute => {
            if args.len() == 0 {
                return Err(EXECUTE_ARGS.to_string());
            }
            match &args[0] {
                Value::String(command) => Ok(
                    HostCall::Execute { command: command.clone(), arguments: arguments_of_command(args) },
                ),
                _ => Err(COMMAND_NOT_TEXT.to_string()),
            }
        },
        NativeKind::EnvGet => {
            if args.len() != 1 {
                return Err(ENV_GET_ARGS.to_string());
            }
            match &args[0] {
                Value::String(name) => Ok(HostCall::EnvGet { name: name.clone() }),
                _ => Err(ENV_NAME_NOT_TEXT.to_string()),
            }
        },
        NativeKind::EnvSet => {
            if args.len() != 2 {
                return Err(ENV_SET_ARGS.to_string());
            }
            match &args[0] {
                Value::String(name) => match plain(&args[1]) {
                    Some(value) => Ok(HostCall::EnvSet { name: name.clone(), value }),
                    None => Err(ENV_VALUE.to_string()),
                },
                _ => Err(ENV_NAME_NOT_TEXT.to_string()),
            }
        },
        NativeKind::SysArgs => Ok(HostCall::Args),
        NativeKind::JsonParse => {
            if args.len() != 1 {
                return Err(PARSE_ARGS.to_string());
            }
            match &args[0] {
                Value::String(text) => Ok(HostCall::JsonParse { text: text.clone() }),
                _ => Err(NOT_TEXT.to_string()),
            }
        },
        NativeKind::JsonStringify => {
            if args.len() != 1 {
                return Err(STRINGIFY_ARGS.to_string());
            }
            Ok(HostCall::JsonStringify { value: args[0].duplicate() })
        },
        NativeKind::NetRequest => {
            if args.len() < 2 || args.len() > 3 {
                return Err(REQUEST_ARGS.to_string());
            }
            match (&args[0], &args[1]) {
                (Value::String(method), Value::String(url)) => {
                    let options = if args.len() == 3 {
                        parse_options(heap, &args[2], false)
                    } else {
                        Ok(empty_options(false))
                    };
                    match options {
                        Ok(options) => Ok(
                            HostCall::Request {
                                method: crate::text::upper_text(method),
                                url: url.clone(),
                                options,
                            },
                        ),
                        Err(reason) => Err(reason),
                    }
                },
                (Value::String(_), _) => Err(URL_SECOND_NOT_TEXT.to_string()),
                _ => Err(METHOD_NOT_TEXT.to_string()),
            }
        },
        NativeKind::NetGet => {
            if args.len() < 1 || args.len() > 2 {
                return Err(GET_ARGS.to_string());
            }
            match &args[0] {
                Value::String(url) => {
                    let options = if args.len() == 2 {
                        parse_options(heap, &args[1], false)
                    } else {
                        Ok(empty_options(false))
                    };
                    match options {
                        Ok(options) => Ok(HostCall::Request { method: GET.to_string(), url: url.clone(), options }),
                        Err(reason) => Err(reason),
                    }
                },
                _ => Err(URL_FIRST_NOT_TEXT.to_string()),
            }
        },
        NativeKind::NetRequestJson => {
            if args.len() < 3 || args.len() > 4 {
                return Err(REQUEST_JSON_ARGS.to_string());
            }
            match (&args[0], &args[1]) {
                (Value::String(method), Value::String(url)) => {
                    let options = if args.len() == 4 {
                        parse_options(heap, &args[3], true)
                    } else {
                        Ok(empty_options(true))
                    };
                    match options {
                        Ok(options) => {
                            if options.json_body.is_some() {
                                return Err(JSON_TWICE.to_string());
                            }
                            let mut options = options;
                            options.json_body = Some(args[2].duplicate());
                            Ok(
                                HostCall::Request {
                                    method: crate::text::upper_text(method),
                                    url: url.clone(),
                                    options,
                                },
                            )
                        },
                        Err(reason) => Err(reason),
                    }
                },
                (Value::String(_), _) => Err(URL_SECOND_NOT_TEXT.to_string()),
                _ => Err(METHOD_NOT_TEXT.to_string()),
            }
        },
        _ => Err(NOT_FOR_HOST.to_string()),
    }
}

pub const TOO_MANY_OBJECTS: &'static str = "Слишком много объектов";

/// The arguments of the command line, as a program may ask for them.
pub struct CliArgs {
    pub args: Vec<String>,
}

impl CliArgs {
    pub fn new() -> (r: Self)
        ensures
            r.args@.len() == 0,
    {
        CliArgs { args: Vec::new() }
    }
}

/// Sets the arguments that `get_args` hands out.
pub fn set_cli_args(store: &mut CliArgs, args: Vec<String>)
    ensures
        final(store).args == args,
{
    store.args = args;
}

/// The arguments as values of the language.
pub open spec fn argument_values(args: Seq<String>) -> Seq<ValueView> {
    args.map_values(|a: String| ValueView::String(a@))
}

/// The arguments as an array of strings, laid out on the heap. A heap
/// that is full stays as it is and the answer is an error.
pub fn get_args(store: &CliArgs, heap: &mut Vec<Object>) -> (r: Result<Value, String>)
    ensures
        match r {
            Ok(v) => {
                &&& old(heap).len() < usize::MAX
                &&& v@ == ValueView::Array(old(heap).len())
                &&& object_views(final(heap)@) == object_views(old(heap)@).push(
                    ObjectView::Array(argument_values(store.args@)),
                )
            },
            Err(message) => old(heap).len() == usize::MAX && *final(heap) == *old(heap) && message@
                == TOO_MANY_OBJECTS@,
        },
{
    if heap.len() == usize::MAX {
        return Err(TOO_MANY_OBJECTS.to_string());
    }
    let mut items: Vec<Value> = Vec::new();
    let mut i: usize = 0;
    while i < store.args.len()
        invariant
            i <= store.args.len(),
            items.len() == i,
            forall|k: int| 0 <= k < i ==> (#[trigger] items[k])@ == ValueView::String(store.args[k]@),
        decreases store.args.len() - i,
    {
        items.push(Value::String(store.args[i].clone()));
        i = i + 1;
    }
    let at: usize = heap.len();
    let ghost before = object_views(heap@);
    heap.push(Object::Array(items));
    proof {
        assert(views(items@) =~= argument_values(store.args@));
        assert(object_views(heap@) =~= before.push(ObjectView::Array(argument_values(store.args@))));
    }
    Ok(Value::Array(at))
}

} // verus!
