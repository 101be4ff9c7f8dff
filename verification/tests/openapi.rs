use chimely::api::contract::{RateLimited, TooManyConnections};
use chimely::error::ErrorCode;
use chimely::http::routes::{Endpoint, Method};
use chimely::openapi::dialect::{downconvert_examples, downconvert_nullable};
use chimely::openapi::document::{
    fixups, is_rate_limited, ApiDoc, BodyOutline, Carrier, OperationOutline, ParameterOutline,
    ParameterSchema, SchemaType, INFO_DESCRIPTION,
};
use chimely::openapi::export::{
    contract_document, contract_parameters, to_contract_yaml, ExportError,
};
use chimely::openapi::yaml::Yaml;

const DOCUMENT: &str = "\
openapi: 3.1.0
info:
  title: Chimely API
  version: 0.1.0
paths:
  /v1/inbox/items:
    get:
      responses:
        '429':
          $ref: '#/components/responses/RateLimited'
components:
  schemas:
    InboxPage:
      type: object
      properties:
        next_cursor:
          type:
          - string
          - 'null'
          description: Opaque keyset token.
        either:
          type:
          - string
          - integer
          - 'null'
    NotificationId:
      type: string
      examples:
      - notif_01h455vb4pex5vsknk084sn02q
      - second
      pattern: ^notif_
  responses:
    RateLimited:
      description: Per-API-key (management) or per-subscriber (widget) rate limit.
";

fn text(s: &str) -> Yaml {
    Yaml::Text(s.to_owned())
}

fn map(entries: Vec<(&str, Yaml)>) -> Yaml {
    Yaml::Mapping(entries.into_iter().map(|(k, v)| (text(k), v)).collect())
}

fn list(items: Vec<Yaml>) -> Yaml {
    Yaml::Sequence(items)
}

/// A one-line rendering for comparison.
fn show(y: &Yaml) -> String {
    match y {
        Yaml::Null => "~".to_owned(),
        Yaml::Bool(b) => b.to_string(),
        Yaml::Number(n) => n.to_string(),
        Yaml::Text(s) => s.clone(),
        Yaml::Sequence(v) => {
            let items: Vec<String> = v.iter().map(show).collect();
            format!("[{}]", items.join(","))
        }
        Yaml::Mapping(v) => {
            let items: Vec<String> = v
                .iter()
                .map(|(k, v)| format!("{}:{}", show(k), show(v)))
                .collect();
            format!("{{{}}}", items.join(","))
        }
        Yaml::Tagged(tag, inner) => format!("{tag} {}", show(inner)),
    }
}

fn nullable(mut y: Yaml) -> String {
    downconvert_nullable(&mut y);
    show(&y)
}

fn examples(mut y: Yaml) -> String {
    downconvert_examples(&mut y);
    show(&y)
}

#[test]
fn exports_yaml_with_expected_identity() {
    let yaml = to_contract_yaml(&format!(
        "info:\n  title: {}\n  version: {}\n",
        ApiDoc::title(),
        ApiDoc::version()
    ))
    .unwrap_or_else(|_| panic!("spec serializes"));
    assert!(yaml.contains("title: Chimely API"));
    assert!(yaml.contains("version: 0.1.0"));
}

#[test]
fn contract_export_speaks_the_3_0_dialect() {
    let yaml =
        to_contract_yaml(DOCUMENT).unwrap_or_else(|_| panic!("contract export serializes"));
    assert!(yaml.starts_with("openapi: 3.0.3"));
    assert!(
        !yaml.contains("- 'null'"),
        "3.1 null types must be downconverted"
    );
    assert!(yaml.contains("nullable: true"));
    assert!(
        yaml.contains("example: "),
        "schema examples must fold to the singular example"
    );
    assert!(
        !yaml.contains("examples:"),
        "no 3.1 examples arrays may leak into the 3.0.3 export"
    );
    for parameter in [
        "SubscriberIdPath:",
        "NotificationIdPath:",
        "BroadcastIdPath:",
    ] {
        assert!(
            yaml.contains(parameter),
            "missing reusable parameter {parameter}"
        );
    }
    assert!(yaml.contains("$ref: '#/components/responses/RateLimited'"));
}

#[test]
fn rate_limited_responses_reference_the_shared_component() {
    let doc = ApiDoc::operations();
    for (path, has_429) in [
        ("/v1/notifications", true),
        ("/v1/broadcasts", true),
        ("/v1/inbox/items", true),
        ("/v1/inbox/counts", false),
    ] {
        let at = |method: Method| doc.iter().find(|e| e.path() == path && e.method() == method);
        let op = at(Method::Post).or(at(Method::Get)).expect("operation");
        assert_eq!(is_rate_limited(*op), has_429, "429 on {path}");
        if let Some(statuses) = ApiDoc::statuses(*op) {
            assert_eq!(statuses.contains(&429), has_429, "429 on {path}");
        }
    }
    assert_eq!(RateLimited::response().name, "RateLimited");
}

#[test]
fn declares_both_planes_as_tags() {
    let tags: Vec<&str> = ApiDoc::tags().into_iter().map(|t| t.name).collect();
    assert_eq!(tags, ["management", "subscriber", "admin"]);
}

#[test]
fn the_export_is_written_entry_by_entry() {
    assert_eq!(
        to_contract_yaml("openapi: 3.1.0\ncomponents:\n  schemas: {}\n")
            .unwrap_or_else(|_| panic!("exports")),
        "\
openapi: 3.0.3
components:
  schemas: {}
  parameters:
    SubscriberIdPath:
      name: subscriber_id
      in: path
      required: true
      schema:
        type: string
        maxLength: 255
      description: Customer-provided subscriber id (e.g. `usr_42`).
    NotificationIdPath:
      name: id
      in: path
      required: true
      schema:
        $ref: '#/components/schemas/NotificationId'
    BroadcastIdPath:
      name: id
      in: path
      required: true
      schema:
        $ref: '#/components/schemas/BroadcastId'
"
    );
}

#[test]
fn documents_that_take_no_keys_are_refused() {
    assert!(matches!(to_contract_yaml("a: b: c"), Err(ExportError::Unreadable(_))));
    assert!(matches!(to_contract_yaml("- a"), Err(ExportError::NotADocument)));
    assert!(matches!(to_contract_yaml("just text"), Err(ExportError::NotADocument)));
    assert!(matches!(
        to_contract_yaml("components: text"),
        Err(ExportError::NotADocument)
    ));
    // Nothing yet counts as an empty mapping.
    assert!(to_contract_yaml("~").is_ok());
    assert!(to_contract_yaml("components: ~").is_ok());
    assert!(contract_document(Yaml::Bool(true)).is_err());
    assert!(contract_document(Yaml::Null).is_ok());
}

#[test]
fn null_types_become_nullable() {
    assert_eq!(
        nullable(map(vec![
            ("type", list(vec![text("string"), text("null")])),
            ("description", text("d")),
        ])),
        "{type:string,description:d,nullable:true}"
    );
    assert_eq!(
        nullable(map(vec![
            ("nullable", Yaml::Bool(false)),
            ("type", list(vec![text("null"), text("a"), text("b"), text("null")])),
        ])),
        "{nullable:true,type:[a,b]}"
    );
    assert_eq!(
        nullable(map(vec![("type", list(vec![text("null")]))])),
        "{type:[],nullable:true}"
    );
    // Only a list names the null type.
    assert_eq!(nullable(map(vec![("type", text("null"))])), "{type:null}");
    assert_eq!(
        nullable(map(vec![("type", list(vec![Yaml::Null]))])),
        "{type:[~]}"
    );
}

#[test]
fn nullability_is_converted_at_every_depth() {
    let inner = || map(vec![("type", list(vec![text("a"), text("null")]))]);
    assert_eq!(
        nullable(list(vec![map(vec![("x", inner())]), inner()])),
        "[{x:{type:a,nullable:true}},{type:a,nullable:true}]"
    );
    let once = nullable(map(vec![("x", inner())]));
    let mut twice = map(vec![("x", inner())]);
    downconvert_nullable(&mut twice);
    downconvert_nullable(&mut twice);
    assert_eq!(show(&twice), once);
    // A list nested in the list is taken for the type itself.
    assert_eq!(
        nullable(map(vec![(
            "type",
            list(vec![list(vec![text("a"), text("null")]), text("null")])
        )])),
        "{type:[a,null],nullable:true}"
    );
}

#[test]
fn tags_are_read_through_and_kept() {
    let tag = || serde_norway::value::Tag::new("!t");
    let tagged = Yaml::Tagged(tag(), Box::new(text("null")));
    assert_eq!(
        nullable(map(vec![("type", list(vec![text("a"), tagged]))])),
        "{type:a,nullable:true}"
    );
    let hidden = Yaml::Tagged(
        tag(),
        Box::new(map(vec![("type", list(vec![text("a"), text("null")]))])),
    );
    assert_eq!(nullable(hidden), "!t {type:[a,null]}");
    let out = to_contract_yaml("!doc\nopenapi: 3.1.0\n").unwrap_or_else(|_| panic!("exports"));
    assert!(out.starts_with("!doc\nopenapi: 3.0.3\n"), "{out}");
}

#[test]
fn example_lists_fold_to_the_first() {
    assert_eq!(
        examples(map(vec![
            ("examples", list(vec![text("a"), text("b")])),
            ("type", text("string")),
        ])),
        "{type:string,example:a}"
    );
    assert_eq!(
        examples(map(vec![
            ("example", text("old")),
            ("examples", list(vec![map(vec![("examples", list(vec![text("a")]))])])),
        ])),
        "{example:{example:a}}"
    );
    assert_eq!(examples(map(vec![("examples", list(vec![]))])), "{examples:[]}");
    assert_eq!(
        examples(map(vec![("examples", map(vec![("a", text("b"))]))])),
        "{examples:{a:b}}"
    );
}

#[test]
fn reusable_parameters_have_an_order() {
    assert!(show(&contract_parameters()).starts_with("{SubscriberIdPath:{name:subscriber_id,in:path"));
}

#[test]
fn error_codes_match_the_documented_table() {
    for code in [
        ErrorCode::InvalidRequest,
        ErrorCode::Unauthorized,
        ErrorCode::Forbidden,
        ErrorCode::NotFound,
        ErrorCode::Conflict,
        ErrorCode::RateLimited,
        ErrorCode::TooManyConnections,
        ErrorCode::Internal,
    ] {
        let line = format!("| `{}` | {} |", code.as_str(), code.status());
        assert!(INFO_DESCRIPTION.contains(&line), "{line}");
    }
}

#[test]
fn shared_responses_name_their_codes() {
    let r = RateLimited::response();
    assert_eq!((r.name, r.code.as_str(), r.header), ("RateLimited", "rate_limited", "retry-after"));
    assert_eq!(r.message, "rate limit exceeded");
    assert_eq!((r.schema, r.content_type), ("Error", "application/json"));
    assert_eq!(r.header_type, SchemaType::Integer);
    let r = TooManyConnections::response();
    assert_eq!((r.name, r.code.as_str()), ("TooManyConnections", "too_many_connections"));
    assert_eq!(r.message, "too many concurrent streams for this subscriber");
    assert_eq!(r.code.status(), 429);
    assert_eq!((r.schema, r.header, r.header_type), ("Error", "retry-after", SchemaType::Integer));
}

#[test]
fn corrected_schemas_are_outlined() {
    assert!(ParameterSchema::Generated.outline().is_none());
    let size = ParameterSchema::PageSize.outline().unwrap();
    assert_eq!(size.kind, SchemaType::Integer);
    assert_eq!((size.minimum, size.maximum, size.default), (Some(1), Some(100), Some(20)));
    assert_eq!(size.choices, None);
    let view = ParameterSchema::ListView.outline().unwrap();
    assert_eq!(view.kind, SchemaType::Text);
    assert_eq!((view.minimum, view.maximum, view.default), (None, None, None));
    assert_eq!(view.choices, Some(vec!["unread", "archived"]));
    let text = ParameterSchema::PlainText.outline().unwrap();
    assert_eq!(text.kind, SchemaType::Text);
    assert_eq!((text.minimum, text.maximum, text.default), (None, None, None));
    assert_eq!(text.choices, None);
}

#[test]
fn the_document_names_no_licence_and_no_common_credentials() {
    assert_eq!(ApiDoc::license(), None);
    assert!(ApiDoc::security().is_empty());
    for r in ApiDoc::error_responses() {
        assert_eq!((r.schema, r.content_type), ("Error", "application/json"));
    }
}

#[test]
fn inbox_operations_declare_their_statuses() {
    assert_eq!(ApiDoc::statuses(Endpoint::ListItems), Some(vec![200, 304, 400, 401, 429]));
    assert_eq!(ApiDoc::statuses(Endpoint::GetCounts), Some(vec![200, 401]));
    assert_eq!(ApiDoc::statuses(Endpoint::ArchiveRead), Some(vec![202, 401]));
    assert_eq!(ApiDoc::statuses(Endpoint::MarkBroadcastRead), Some(vec![204, 401, 404]));
    assert_eq!(ApiDoc::statuses(Endpoint::CreateBroadcast), None);
}

#[test]
fn security_schemes_are_declared() {
    let all = ApiDoc::security_schemes();
    let names: Vec<&str> = all.iter().map(|s| s.name).collect();
    assert_eq!(
        names,
        [
            "ApiKeyBearer",
            "AdminSession",
            "SubscriberEnv",
            "SubscriberId",
            "SubscriberHash",
            "SubscriberEnvQ",
            "SubscriberIdQ",
            "SubscriberHashQ"
        ]
    );
    assert_eq!((all[1].carrier, all[1].parameter), (Carrier::Cookie, "chimely_admin"));
    assert_eq!((all[7].carrier, all[7].parameter), (Carrier::Query, "subscriber_hash"));
    assert_eq!(ApiDoc::server(), "https://chimely.dev");
    let responses: Vec<&str> = ApiDoc::error_responses().iter().map(|r| r.name).collect();
    assert_eq!(responses, ["BadRequest", "Unauthorized", "NotFound"]);
}

#[test]
fn generated_operations_are_corrected() {
    let parameter = |name: &str| ParameterOutline {
        name: name.to_owned(),
        schema: ParameterSchema::Generated,
    };
    let operation = |path: &str, method: Method, names: &[&str], body: BodyOutline| OperationOutline {
        path: path.to_owned(),
        method,
        parameters: Some(names.iter().map(|n| parameter(n)).collect()),
        body,
    };
    let fixed = fixups(vec![
        operation(
            "/v1/inbox/items",
            Method::Get,
            &["cursor", "limit", "filter", "If-None-Match"],
            BodyOutline::Absent,
        ),
        operation("/v1/inbox/items", Method::Post, &["limit"], BodyOutline::Absent),
        operation("/v1/inbox/stream", Method::Get, &["Last-Event-ID", "limit"], BodyOutline::Absent),
        operation("/v1/subscribers/{subscriber_id}", Method::Put, &[], BodyOutline::Generated),
        operation("/v1/broadcasts", Method::Post, &["limit"], BodyOutline::Generated),
        OperationOutline {
            path: "/v1/inbox/items".to_owned(),
            method: Method::Get,
            parameters: None,
            body: BodyOutline::Absent,
        },
    ]);
    let schemas: Vec<Vec<ParameterSchema>> = fixed
        .iter()
        .map(|o| match &o.parameters {
            Some(ps) => ps.iter().map(|p| p.schema).collect(),
            None => vec![],
        })
        .collect();
    assert_eq!(
        schemas[0],
        [
            ParameterSchema::Generated,
            ParameterSchema::PageSize,
            ParameterSchema::ListView,
            ParameterSchema::PlainText
        ]
    );
    assert_eq!(schemas[1], [ParameterSchema::Generated]);
    assert_eq!(schemas[2], [ParameterSchema::PlainText, ParameterSchema::Generated]);
    assert_eq!(schemas[4], [ParameterSchema::Generated]);
    assert_eq!(fixed[3].body, BodyOutline::Optional);
    assert_eq!(fixed[4].body, BodyOutline::Generated);
    assert_eq!(fixed[0].body, BodyOutline::Absent);
    assert!(fixed[5].parameters.is_none());
}
