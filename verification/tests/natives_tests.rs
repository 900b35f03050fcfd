use ponos::display::{show, Piece};
use ponos::heap::Object;
use ponos::model::NativeKind;
use ponos::natives::{decode, get_args, parse_options, set_cli_args, CliArgs, HostCall, RequestOptions};
use ponos::number::Number;
use ponos::response::{answer, has_json_content_type, reading, Reading};
use ponos::value::{Value, ValueKey};

fn num(x: f64) -> Number {
    Number::from_bits(x.to_bits())
}

fn text(s: &str) -> Value {
    Value::String(s.to_string())
}

fn render(pieces: &Vec<Piece>) -> String {
    let mut out = String::new();
    for p in pieces {
        match p {
            Piece::Text(t) => out.push_str(t),
            Piece::Number(n) => out.push_str(&format!("{}", f64::from_bits(n.to_bits()))),
        }
    }
    out
}

#[test]
fn show_scalars() {
    let heap: Vec<Object> = Vec::new();
    assert_eq!(show(&heap, &Value::Nil, 4), vec![Piece::Text("ничто".to_string())]);
    assert_eq!(show(&heap, &Value::Boolean(true), 4), vec![Piece::Text("true".to_string())]);
    assert_eq!(show(&heap, &Value::Boolean(false), 4), vec![Piece::Text("false".to_string())]);
    assert_eq!(show(&heap, &text("привет"), 4), vec![Piece::Text("привет".to_string())]);
    assert_eq!(show(&heap, &Value::Number(num(2.5)), 0), vec![Piece::Number(num(2.5))]);
}

#[test]
fn show_array_and_dict() {
    let heap = vec![
        Object::Array(vec![Value::Number(num(1.0)), text("a"), Value::Array(1)]),
        Object::Array(vec![]),
        Object::Dict(vec![
            (ValueKey::String("k".to_string()), Value::Number(num(7.0))),
            (ValueKey::Boolean(true), Value::Nil),
        ]),
    ];
    assert_eq!(render(&show(&heap, &Value::Array(0), 3)), "[1, a, []]");
    assert_eq!(render(&show(&heap, &Value::Dict(2), 3)), "{\"k\": 7, true: ничто}");
}

#[test]
fn show_stops_at_depth_and_at_strangers() {
    let heap = vec![Object::Array(vec![Value::Array(0)])];
    assert_eq!(render(&show(&heap, &Value::Array(0), 0)), "<объект>");
    assert_eq!(render(&show(&heap, &Value::Array(0), 2)), "[[<объект>]]");
    assert_eq!(render(&show(&heap, &Value::Array(9), 2)), "<объект>");
    assert_eq!(render(&show(&heap, &Value::Dict(0), 2)), "<объект>");
    assert_eq!(render(&show(&heap, &Value::Function(0), 2)), "<объект>");
}

#[test]
fn decode_print_lays_every_argument_out() {
    let heap = vec![Object::Array(vec![Value::Number(num(1.0)), Value::Number(num(2.0))])];
    let call = decode(&heap, NativeKind::IoPrint, &vec![text("x"), Value::Array(0)]).unwrap();
    match call {
        HostCall::Print { items } => {
            assert_eq!(items.len(), 2);
            assert_eq!(render(&items[0]), "x");
            assert_eq!(render(&items[1]), "[1, 2]");
        }
        other => panic!("{:?}", other),
    }
    assert_eq!(
        decode(&heap, NativeKind::IoPrint, &vec![]),
        Ok(HostCall::Print { items: vec![] })
    );
}

#[test]
fn decode_input_takes_a_text_prompt_only() {
    let heap: Vec<Object> = Vec::new();
    assert_eq!(
        decode(&heap, NativeKind::IoInput, &vec![text("> ")]),
        Ok(HostCall::Input { prompt: Some("> ".to_string()) })
    );
    assert_eq!(
        decode(&heap, NativeKind::IoInput, &vec![Value::Number(num(1.0))]),
        Ok(HostCall::Input { prompt: None })
    );
    assert_eq!(decode(&heap, NativeKind::IoInput, &vec![]), Ok(HostCall::Input { prompt: None }));
}

#[test]
fn decode_files() {
    let heap: Vec<Object> = Vec::new();
    assert_eq!(
        decode(&heap, NativeKind::FsRead, &vec![text("a.txt")]),
        Ok(HostCall::ReadFile { path: "a.txt".to_string() })
    );
    assert_eq!(
        decode(&heap, NativeKind::FsRead, &vec![]),
        Err("читать ожидает 1 аргумент (путь)".to_string())
    );
    assert_eq!(
        decode(&heap, NativeKind::FsRead, &vec![Value::Nil]),
        Err("Путь должен быть строкой".to_string())
    );
    assert_eq!(
        decode(&heap, NativeKind::FsWrite, &vec![text("a.txt"), text("b")]),
        Ok(HostCall::WriteFile { path: "a.txt".to_string(), content: "b".to_string() })
    );
    assert_eq!(
        decode(&heap, NativeKind::FsWrite, &vec![text("a.txt")]),
        Err("писать ожидает 2 аргумента".to_string())
    );
    assert_eq!(
        decode(&heap, NativeKind::FsWrite, &vec![text("a.txt"), Value::Nil]),
        Err("Содержимое должно быть строкой".to_string())
    );
    assert_eq!(
        decode(&heap, NativeKind::FsWrite, &vec![Value::Nil, text("b")]),
        Err("Путь должен быть строкой".to_string())
    );
    assert_eq!(
        decode(&heap, NativeKind::FsExists, &vec![text("p")]),
        Ok(HostCall::FileExists { path: "p".to_string() })
    );
    assert_eq!(
        decode(&heap, NativeKind::FsExists, &vec![]),
        Err("существует ожидает 1 аргумент".to_string())
    );
    assert_eq!(
        decode(&heap, NativeKind::FsDelete, &vec![text("p")]),
        Ok(HostCall::DeleteFile { path: "p".to_string() })
    );
    assert_eq!(
        decode(&heap, NativeKind::FsDelete, &vec![text("p"), text("q")]),
        Err("удалить ожидает 1 аргумент".to_string())
    );
}

#[test]
fn decode_system() {
    let heap: Vec<Object> = Vec::new();
    let call = decode(
        &heap,
        NativeKind::SysExecute,
        &vec![text("echo"), text("a"), Value::Number(num(2.0)), Value::Boolean(false), Value::Nil],
    )
    .unwrap();
    match call {
        HostCall::Execute { command, arguments } => {
            assert_eq!(command, "echo");
            let shown: Vec<String> = arguments.iter().map(render).collect();
            assert_eq!(shown, vec!["a", "2", "false", ""]);
        }
        other => panic!("{:?}", other),
    }
    assert_eq!(
        decode(&heap, NativeKind::SysExecute, &vec![]),
        Err("выполнить ожидает команду".to_string())
    );
    assert_eq!(
        decode(&heap, NativeKind::SysExecute, &vec![Value::Nil]),
        Err("Команда должна быть строкой".to_string())
    );
    assert_eq!(decode(&heap, NativeKind::SysArgs, &vec![text("x")]), Ok(HostCall::Args));
    assert_eq!(
        decode(&heap, NativeKind::EnvGet, &vec![text("HOME")]),
        Ok(HostCall::EnvGet { name: "HOME".to_string() })
    );
    assert_eq!(
        decode(&heap, NativeKind::EnvGet, &vec![]),
        Err("получить_переменную требует 1 аргумент: имя переменной".to_string())
    );
    assert_eq!(
        decode(&heap, NativeKind::EnvGet, &vec![Value::Nil]),
        Err("Имя переменной должно быть строкой".to_string())
    );
    assert_eq!(
        decode(&heap, NativeKind::EnvSet, &vec![text("A"), Value::Boolean(true)]),
        Ok(HostCall::EnvSet { name: "A".to_string(), value: vec![Piece::Text("true".to_string())] })
    );
    assert_eq!(
        decode(&heap, NativeKind::EnvSet, &vec![text("A")]),
        Err("задать_переменную требует 2 аргумента: имя и значение".to_string())
    );
    assert_eq!(
        decode(&heap, NativeKind::EnvSet, &vec![text("A"), Value::Nil]),
        Err("Значение должно быть строкой, числом или булевым".to_string())
    );
    assert_eq!(
        decode(&heap, NativeKind::EnvSet, &vec![Value::Nil, text("v")]),
        Err("Имя переменной должно быть строкой".to_string())
    );
}

#[test]
fn decode_leaves_the_functions_of_strings_to_the_machine() {
    let heap: Vec<Object> = Vec::new();
    for kind in [
        NativeKind::StrSplit,
        NativeKind::StrTrim,
        NativeKind::StrReplace,
        NativeKind::StrUpper,
        NativeKind::StrLower,
        NativeKind::StrStartsWith,
    ] {
        assert_eq!(decode(&heap, kind, &vec![text("a")]), Err("Функция выполняется самой машиной".to_string()));
    }
}

#[test]
fn decode_json_calls() {
    let heap: Vec<Object> = Vec::new();
    assert_eq!(
        decode(&heap, NativeKind::JsonParse, &vec![text("[1]")]),
        Ok(HostCall::JsonParse { text: "[1]".to_string() })
    );
    assert_eq!(
        decode(&heap, NativeKind::JsonParse, &vec![]),
        Err("десериализовать требует 1 аргумент: строку с JSON".to_string())
    );
    assert_eq!(
        decode(&heap, NativeKind::JsonParse, &vec![Value::Nil]),
        Err("Аргумент должен быть строкой".to_string())
    );
    assert_eq!(
        decode(&heap, NativeKind::JsonStringify, &vec![Value::Number(num(3.0))]),
        Ok(HostCall::JsonStringify { value: Value::Number(num(3.0)) })
    );
    assert_eq!(
        decode(&heap, NativeKind::JsonStringify, &vec![]),
        Err("сериализовать требует 1 аргумент: значение".to_string())
    );
}

fn key(s: &str) -> ValueKey {
    ValueKey::String(s.to_string())
}

#[test]
fn options_are_read_entry_by_entry() {
    let heap = vec![
        Object::Dict(vec![(key("Accept"), text("text/plain")), (key("X-N"), Value::Number(num(5.0)))]),
        Object::Dict(vec![
            (key("заголовки"), Value::Dict(0)),
            (key("тело"), text("hello")),
            (key("таймаут_мс"), Value::Number(num(1500.0))),
            (key("ожидать_json"), Value::Boolean(true)),
        ]),
    ];
    let options = parse_options(&heap, &Value::Dict(1), false).unwrap();
    assert_eq!(
        options,
        RequestOptions {
            headers: vec![
                ("Accept".to_string(), vec![Piece::Text("text/plain".to_string())]),
                ("X-N".to_string(), vec![Piece::Number(num(5.0))]),
            ],
            body: Some("hello".to_string()),
            json_body: None,
            timeout_ms: Some(1500),
            expect_json: true,
        }
    );
}

#[test]
fn options_errors() {
    let one = |k: ValueKey, v: Value| vec![Object::Array(vec![]), Object::Dict(vec![(k, v)])];
    let fails = |heap: Vec<Object>| parse_options(&heap, &Value::Dict(heap.len() - 1), false).unwrap_err();
    assert_eq!(
        parse_options(&vec![], &Value::Nil, false).unwrap_err(),
        "Опции должны быть словарем"
    );
    assert_eq!(
        parse_options(&vec![Object::Array(vec![])], &Value::Dict(0), false).unwrap_err(),
        "Опции должны быть словарем"
    );
    assert_eq!(fails(one(ValueKey::Boolean(true), Value::Nil)), "Ключи опций должны быть строками");
    assert_eq!(fails(one(key("тело"), Value::Nil)), "Опция 'тело' должна быть строкой");
    assert_eq!(
        fails(one(key("таймаут_мс"), Value::Number(num(-1.0)))),
        "Опция 'таймаут_мс' должна быть неотрицательным числом"
    );
    assert_eq!(
        fails(one(key("таймаут_мс"), text("1"))),
        "Опция 'таймаут_мс' должна быть неотрицательным числом"
    );
    assert_eq!(
        fails(one(key("ожидать_json"), Value::Nil)),
        "Опция 'ожидать_json' должна быть булевой"
    );
    assert_eq!(fails(one(key("цвет"), Value::Nil)), "Неизвестная опция 'цвет'");
    assert_eq!(fails(one(key("заголовки"), Value::Nil)), "Заголовки должны быть словарем");
    assert_eq!(fails(one(key("заголовки"), Value::Dict(0))), "Заголовки должны быть словарем");
    let bad_name = vec![
        Object::Dict(vec![(ValueKey::Boolean(true), text("v"))]),
        Object::Dict(vec![(key("заголовки"), Value::Dict(0))]),
    ];
    assert_eq!(fails(bad_name), "Имена заголовков должны быть строками");
    let bad_value = vec![
        Object::Dict(vec![(key("A"), Value::Nil)]),
        Object::Dict(vec![(key("заголовки"), Value::Dict(0))]),
    ];
    assert_eq!(fails(bad_value), "Значения заголовков должны быть строками/числами/булевыми");
    let both = vec![Object::Dict(vec![(key("тело"), text("a")), (key("json"), Value::Nil)])];
    assert_eq!(fails(both), "Нельзя указывать одновременно 'тело' и 'json'");
}

#[test]
fn decode_requests() {
    let heap = vec![
        Object::Dict(vec![(key("тело"), text("b"))]),
        Object::Dict(vec![(key("json"), Value::Number(num(1.0)))]),
    ];
    let plain = |expect_json: bool| RequestOptions {
        headers: vec![],
        body: None,
        json_body: None,
        timeout_ms: None,
        expect_json,
    };
    assert_eq!(
        decode(&heap, NativeKind::NetGet, &vec![text("http://x")]),
        Ok(HostCall::Request { method: "GET".to_string(), url: "http://x".to_string(), options: plain(false) })
    );
    assert_eq!(
        decode(&heap, NativeKind::NetRequest, &vec![text("post"), text("http://x"), Value::Dict(0)]),
        Ok(HostCall::Request {
            method: "POST".to_string(),
            url: "http://x".to_string(),
            options: RequestOptions { body: Some("b".to_string()), ..plain(false) },
        })
    );
    assert_eq!(
        decode(&heap, NativeKind::NetRequestJson, &vec![text("put"), text("http://x"), Value::Boolean(true)]),
        Ok(HostCall::Request {
            method: "PUT".to_string(),
            url: "http://x".to_string(),
            options: RequestOptions { json_body: Some(Value::Boolean(true)), ..plain(true) },
        })
    );
    assert_eq!(
        decode(
            &heap,
            NativeKind::NetRequestJson,
            &vec![text("put"), text("http://x"), Value::Nil, Value::Dict(1)]
        ),
        Err("В запрос_json тело задается третьим аргументом, уберите 'json' из опций".to_string())
    );
    assert_eq!(
        decode(&heap, NativeKind::NetGet, &vec![]),
        Err("получить требует 1 или 2 аргумента: url, [опции]".to_string())
    );
    assert_eq!(
        decode(&heap, NativeKind::NetGet, &vec![Value::Nil]),
        Err("Первый аргумент (url) должен быть строкой".to_string())
    );
    assert_eq!(
        decode(&heap, NativeKind::NetRequest, &vec![text("get")]),
        Err("запрос требует 2 или 3 аргумента: метод, url, [опции]".to_string())
    );
    assert_eq!(
        decode(&heap, NativeKind::NetRequest, &vec![Value::Nil, text("u")]),
        Err("Первый аргумент (метод) должен быть строкой".to_string())
    );
    assert_eq!(
        decode(&heap, NativeKind::NetRequest, &vec![text("get"), Value::Nil]),
        Err("Второй аргумент (url) должен быть строкой".to_string())
    );
    assert_eq!(
        decode(&heap, NativeKind::NetRequestJson, &vec![text("get"), text("u")]),
        Err("запрос_json требует 3 или 4 аргумента: метод, url, данные, [опции]".to_string())
    );
}

fn header(name: &str, value: &str) -> (String, String) {
    (name.to_string(), value.to_string())
}

#[test]
fn json_content_type_is_found_whatever_the_case() {
    assert!(has_json_content_type(&vec![header("Content-Type", "application/json")]));
    assert!(has_json_content_type(&vec![
        header("Server", "x"),
        header("CONTENT-TYPE", "Application/JSON; charset=utf-8"),
    ]));
    assert!(!has_json_content_type(&vec![header("Content-Type", "text/html")]));
    assert!(!has_json_content_type(&vec![header("X-Content-Type", "application/json")]));
    assert!(!has_json_content_type(&vec![header("Content-Typ", "application/json")]));
    assert!(!has_json_content_type(&vec![]));
    for (name, value) in [("cOnTeNt-TyPe", "xxAPPLICATION/JSONxx"), ("content-type", "application/jso")] {
        assert_eq!(
            has_json_content_type(&vec![header(name, value)]),
            name.eq_ignore_ascii_case("content-type")
                && value.to_ascii_lowercase().contains("application/json")
        );
    }
}

#[test]
fn reading_of_a_body() {
    let json = vec![header("content-type", "application/json")];
    let none: Vec<(String, String)> = vec![];
    assert_eq!(reading(false, &none, &"{}".to_string()), Reading::Text);
    assert_eq!(reading(false, &json, &"{}".to_string()), Reading::Json { strict: false });
    assert_eq!(reading(true, &none, &"{}".to_string()), Reading::Json { strict: true });
    assert_eq!(reading(true, &none, &"  \n ".to_string()), Reading::Nothing);
    assert_eq!(reading(false, &json, &"".to_string()), Reading::Nothing);
}

#[test]
fn answer_is_laid_out_on_the_heap() {
    let mut heap = vec![Object::Array(vec![])];
    let v = answer(
        &mut heap,
        404,
        &vec![header("a", "b")],
        "body".to_string(),
        Value::Nil,
    );
    assert_eq!(v, Value::Dict(2));
    assert_eq!(heap.len(), 3);
    assert_eq!(heap[1], Object::Dict(vec![(key("a"), text("b"))]));
    assert_eq!(
        heap[2],
        Object::Dict(vec![
            (key("статус"), Value::Number(num(404.0))),
            (key("заголовки"), Value::Dict(1)),
            (key("тело"), text("body")),
            (key("json"), Value::Nil),
        ])
    );
}

#[test]
fn command_line_arguments_are_handed_out_as_an_array() {
    let mut store = CliArgs::new();
    let mut heap = vec![Object::Array(vec![])];
    assert_eq!(get_args(&store, &mut heap), Ok(Value::Array(1)));
    assert_eq!(heap[1], Object::Array(vec![]));
    set_cli_args(&mut store, vec!["ponos".to_string(), "файл.pns".to_string()]);
    assert_eq!(store.args, vec!["ponos", "файл.pns"]);
    assert_eq!(get_args(&store, &mut heap), Ok(Value::Array(2)));
    assert_eq!(heap[2], Object::Array(vec![text("ponos"), text("файл.pns")]));
    assert_eq!(heap.len(), 3);
}
