//! The fixed parts of the API document, and the corrections to its generated
//! parts.

use vstd::prelude::*;
use crate::api::inbox::list::{DEFAULT_PAGE_SIZE, MAX_PAGE_SIZE};
use crate::http::routes::{endpoints, Endpoint, Method};
use crate::text::same;

verus! {

/// Rendered as the document's `info.description`.
pub const INFO_DESCRIPTION: &'static str = r#"Two planes, one binary:

* **Management plane** — called by the customer's backend with a Bearer API
  key. Creates notifications and broadcasts, manages subscribers and their
  preferences. API keys are environment-scoped; the environment is implied
  by the key.
* **Subscriber plane** — called by `@chimely/client` (the `<Inbox />`
  widget) on behalf of one end user. Authenticated with an HMAC subscriber
  hash: `hex(HMAC-SHA256(environment.subscriber_hmac_secret, subscriber_id))`
  computed by the customer's backend. Mandatory in environments with
  `require_subscriber_hash = true` (the production default); optional in
  dev environments so the quickstart works without a backend.

Subscriber-plane scoping travels in headers (or query parameters where
headers are impossible, i.e. `EventSource`):

| Header | Query fallback | Meaning |
|---|---|---|
| `X-Chimely-Environment` | `environment` | environment slug |
| `X-Chimely-Subscriber` | `subscriber_id` | customer-provided subscriber id |
| `X-Chimely-Subscriber-Hash` | `subscriber_hash` | HMAC hash (when required) |

**Idempotency.** Every create accepts `idempotency_key` (client-supplied or
server-generated and echoed). Uniqueness is per environment per resource
type. A retried key returns the original response byte-identically with
HTTP 200 (first acceptance is 201) — acknowledged-and-dropped.

**Timestamps** are RFC 3339 UTC. **IDs** are
[TypeIDs](https://github.com/jetify-com/typeid): a resource prefix plus a
UUIDv7 in Crockford base32 — `notif_01h455vb4pex5vsknk084sn02q` for
notifications, `bcast_…` for broadcasts. The prefix is part of the id;
treat ids as opaque strings.

**Errors** use a single envelope: `{"error": {"code", "message"}}`. Branch on
`code` (stable, machine-readable), never on `message` (human text that may
change). Status codes are conventional and 429 carries `Retry-After`.

| Code | HTTP | Meaning |
|---|---|---|
| `invalid_request` | 400 | Malformed request or failed validation. |
| `unauthorized` | 401 | Missing or invalid credentials (API key, subscriber hash, or admin session). |
| `forbidden` | 403 | Authenticated, but the role or scope lacks the capability. |
| `not_found` | 404 | No such resource in this environment. |
| `conflict` | 409 | Well-formed, but the current state forbids it (guard rail or duplicate). |
| `rate_limited` | 429 | Request rate limit exceeded. Retry after `Retry-After` seconds. |
| `too_many_connections` | 429 | Per-subscriber live-stream connection cap reached. |
| `internal` | 500 | Unexpected server error. The detail is logged, never returned. |
"#;

/// The API document.
pub struct ApiDoc;

/// A group of operations.
#[derive(Clone, Copy, Debug)]
pub struct TagOutline {
    pub name: &'static str,
    pub description: &'static str,
}

/// How a credential travels.
#[derive(Clone, Copy, Debug, PartialEq, Eq, Structural)]
pub enum Carrier {
    Bearer,
    Cookie,
    Header,
    Query,
}

/// A way to authenticate.
#[derive(Clone, Copy, Debug)]
pub struct SecurityOutline {
    pub name: &'static str,
    pub carrier: Carrier,
    /// The cookie, header or query parameter; empty for a bearer token.
    pub parameter: &'static str,
    pub description: Option<&'static str>,
}

/// An error response without an example.
#[derive(Clone, Copy, Debug)]
pub struct ResponseOutline {
    pub name: &'static str,
    pub description: &'static str,
    pub content_type: &'static str,
    /// The schema of the content, by its name.
    pub schema: &'static str,
}

/// The groups of operations.
pub open spec fn tag_list() -> Seq<TagOutline> {
    seq![
        TagOutline { name: "management", description: "Backend-to-Chimely. Bearer API key." },
        TagOutline { name: "subscriber", description: "Widget-to-Chimely. HMAC subscriber hash." },
        TagOutline {
            name: "admin",
            description: "Instance admin dashboard. Built-in users, session cookie.",
        },
    ]
}

/// The ways to authenticate.
pub open spec fn security_list() -> Seq<SecurityOutline> {
    seq![
        SecurityOutline {
            name: "ApiKeyBearer",
            carrier: Carrier::Bearer,
            parameter: "",
            description: Some("Environment-scoped management API key."),
        },
        SecurityOutline {
            name: "AdminSession",
            carrier: Carrier::Cookie,
            parameter: "chimely_admin",
            description: Some(
                "Server-side admin session cookie, set by POST /admin/api/login.",
            ),
        },
        SecurityOutline {
            name: "SubscriberEnv",
            carrier: Carrier::Header,
            parameter: "X-Chimely-Environment",
            description: None,
        },
        SecurityOutline {
            name: "SubscriberId",
            carrier: Carrier::Header,
            parameter: "X-Chimely-Subscriber",
            description: None,
        },
        SecurityOutline {
            name: "SubscriberHash",
            carrier: Carrier::Header,
            parameter: "X-Chimely-Subscriber-Hash",
            description: Some(
                "Optional when the environment has require_subscriber_hash = false.",
            ),
        },
        SecurityOutline {
            name: "SubscriberEnvQ",
            carrier: Carrier::Query,
            parameter: "environment",
            description: None,
        },
        SecurityOutline {
            name: "SubscriberIdQ",
            carrier: Carrier::Query,
            parameter: "subscriber_id",
            description: None,
        },
        SecurityOutline {
            name: "SubscriberHashQ",
            carrier: Carrier::Query,
            parameter: "subscriber_hash",
            description: None,
        },
    ]
}

/// A shared error response: the error envelope as JSON.
pub open spec fn error_response(name: &'static str, description: &'static str) -> ResponseOutline {
    ResponseOutline { name, description, content_type: "application/json", schema: "Error" }
}

/// The shared error responses that no example goes with.
pub open spec fn response_list() -> Seq<ResponseOutline> {
    seq![
        error_response("BadRequest", "Validation error."),
        error_response("Unauthorized", "Missing/invalid API key or subscriber hash."),
        error_response("NotFound", "Resource not found in this environment."),
    ]
}

/// The statuses that the document declares for an operation of the inbox. The
/// other operations declare theirs with their handlers.
pub open spec fn inbox_statuses(e: Endpoint) -> Option<Seq<u16>> {
    match e {
        Endpoint::ListItems => Some(seq![200u16, 304u16, 400u16, 401u16, 429u16]),
        Endpoint::GetFilteredCounts => Some(seq![200u16, 400u16, 401u16]),
        Endpoint::GetCounts
        | Endpoint::MarkAllRead
        | Endpoint::MarkAllSeen
        | Endpoint::ArchiveAll => Some(seq![200u16, 401u16]),
        Endpoint::ArchiveRead => Some(seq![202u16, 401u16]),
        Endpoint::MarkNotificationRead
        | Endpoint::MarkNotificationUnread
        | Endpoint::MarkBroadcastRead
        | Endpoint::MarkBroadcastUnread
        | Endpoint::ArchiveNotification
        | Endpoint::UnarchiveNotification
        | Endpoint::ArchiveBroadcast
        | Endpoint::UnarchiveBroadcast => Some(seq![204u16, 401u16, 404u16]),
        _ => None,
    }
}

impl ApiDoc {
    /// The document's title.
    pub fn title() -> (r: &'static str)
        ensures
            r@ == "Chimely API"@,
    {
        "Chimely API"
    }

    /// The published API version.
    pub fn version() -> (r: &'static str)
        ensures
            r@ == "0.1.0"@,
    {
        "0.1.0"
    }

    /// The only server.
    pub fn server() -> (r: &'static str)
        ensures
            r@ == "https://chimely.dev"@,
    {
        "https://chimely.dev"
    }

    /// The groups of operations, in order.
    pub fn tags() -> (r: Vec<TagOutline>)
        ensures
            r@ == tag_list(),
            r@ == seq![
                TagOutline { name: "management", description: "Backend-to-Chimely. Bearer API key." },
                TagOutline { name: "subscriber", description: "Widget-to-Chimely. HMAC subscriber hash." },
                TagOutline {
                    name: "admin",
                    description: "Instance admin dashboard. Built-in users, session cookie.",
                },
            ],
    {
        vec![
            TagOutline { name: "management", description: "Backend-to-Chimely. Bearer API key." },
            TagOutline {
                name: "subscriber",
                description: "Widget-to-Chimely. HMAC subscriber hash.",
            },
            TagOutline {
                name: "admin",
                description: "Instance admin dashboard. Built-in users, session cookie.",
            },
        ]
    }

    /// The ways to authenticate.
    pub fn security_schemes() -> (r: Vec<SecurityOutline>)
        ensures
            r@ == security_list(),
            r@ == seq![
                SecurityOutline {
                    name: "ApiKeyBearer",
                    carrier: Carrier::Bearer,
                    parameter: "",
                    description: Some("Environment-scoped management API key."),
                },
                SecurityOutline {
                    name: "AdminSession",
                    carrier: Carrier::Cookie,
                    parameter: "chimely_admin",
                    description: Some(
                        "Server-side admin session cookie, set by POST /admin/api/login.",
                    ),
                },
                SecurityOutline {
                    name: "SubscriberEnv",
                    carrier: Carrier::Header,
                    parameter: "X-Chimely-Environment",
                    description: None,
                },
                SecurityOutline {
                    name: "SubscriberId",
                    carrier: Carrier::Header,
                    parameter: "X-Chimely-Subscriber",
                    description: None,
                },
                SecurityOutline {
                    name: "SubscriberHash",
                    carrier: Carrier::Header,
                    parameter: "X-Chimely-Subscriber-Hash",
                    description: Some(
                        "Optional when the environment has require_subscriber_hash = false.",
                    ),
                },
                SecurityOutline {
                    name: "SubscriberEnvQ",
                    carrier: Carrier::Query,
                    parameter: "environment",
                    description: None,
                },
                SecurityOutline {
                    name: "SubscriberIdQ",
                    carrier: Carrier::Query,
                    parameter: "subscriber_id",
                    description: None,
                },
                SecurityOutline {
                    name: "SubscriberHashQ",
                    carrier: Carrier::Query,
                    parameter: "subscriber_hash",
                    description: None,
                },
            ],
    {
        vec![
            SecurityOutline {
                name: "ApiKeyBearer",
                carrier: Carrier::Bearer,
                parameter: "",
                description: Some("Environment-scoped management API key."),
            },
            SecurityOutline {
                name: "AdminSession",
                carrier: Carrier::Cookie,
                parameter: "chimely_admin",
                description: Some(
                    "Server-side admin session cookie, set by POST /admin/api/login.",
                ),
            },
            SecurityOutline {
                name: "SubscriberEnv",
                carrier: Carrier::Header,
                parameter: "X-Chimely-Environment",
                description: None,
            },
            SecurityOutline {
                name: "SubscriberId",
                carrier: Carrier::Header,
                parameter: "X-Chimely-Subscriber",
                description: None,
            },
            SecurityOutline {
                name: "SubscriberHash",
                carrier: Carrier::Header,
                parameter: "X-Chimely-Subscriber-Hash",
                description: Some(
                    "Optional when the environment has require_subscriber_hash = false.",
                ),
            },
            SecurityOutline {
                name: "SubscriberEnvQ",
                carrier: Carrier::Query,
                parameter: "environment",
                description: None,
            },
            SecurityOutline {
                name: "SubscriberIdQ",
                carrier: Carrier::Query,
                parameter: "subscriber_id",
                description: None,
            },
            SecurityOutline {
                name: "SubscriberHashQ",
                carrier: Carrier::Query,
                parameter: "subscriber_hash",
                description: None,
            },
        ]
    }

    /// The shared error responses that no example goes with.
    pub fn error_responses() -> (r: Vec<ResponseOutline>)
        ensures
            r@ == response_list(),
            r@ == seq![
                ResponseOutline {
                    name: "BadRequest",
                    description: "Validation error.",
                    content_type: "application/json",
                    schema: "Error",
                },
                ResponseOutline {
                    name: "Unauthorized",
                    description: "Missing/invalid API key or subscriber hash.",
                    content_type: "application/json",
                    schema: "Error",
                },
                ResponseOutline {
                    name: "NotFound",
                    description: "Resource not found in this environment.",
                    content_type: "application/json",
                    schema: "Error",
                },
            ],
    {
        vec![
            ResponseOutline {
                name: "BadRequest",
                description: "Validation error.",
                content_type: "application/json",
                schema: "Error",
            },
            ResponseOutline {
                name: "Unauthorized",
                description: "Missing/invalid API key or subscriber hash.",
                content_type: "application/json",
                schema: "Error",
            },
            ResponseOutline {
                name: "NotFound",
                description: "Resource not found in this environment.",
                content_type: "application/json",
                schema: "Error",
            },
        ]
    }

    /// The licence: none is named.
    pub fn license() -> (r: Option<&'static str>)
        ensures
            r is None,
    {
        None
    }

    /// The authentication that every operation asks for: none, each operation
    /// names its own.
    pub fn security() -> (r: Vec<&'static str>)
        ensures
            r@.len() == 0,
    {
        Vec::new()
    }

    /// The operations that the document declares, each once.
    pub fn operations() -> (r: Vec<Endpoint>)
        ensures
            forall|e: Endpoint| #[trigger] r@.contains(e) <==> e.is_documented(),
            forall|e: Endpoint| #[trigger]
                r@.contains(e) <==> !(e is AdminSpaRoot || e is AdminSpa || e is Root || e is Healthz
                    || e is Readyz || e is Metrics),
            r@.no_duplicates(),
    {
        let all: Vec<Endpoint> = endpoints();
        let mut r: Vec<Endpoint> = Vec::new();
        let mut i: usize = 0;
        while i < all.len()
            invariant
                i <= all.len(),
                all@.no_duplicates(),
                forall|e: Endpoint| #[trigger]
                    r@.contains(e) <==> e.is_documented() && all@.take(i as int).contains(e),
                r@.no_duplicates(),
            decreases all.len() - i,
        {
            let ghost before = r@;
            let e: Endpoint = all[i];
            proof {
                assert(all@.take(i + 1) =~= all@.take(i as int).push(e));
                assert(!all@.take(i as int).contains(e)) by {
                    if all@.take(i as int).contains(e) {
                        let k = choose|k: int| 0 <= k < i && all@.take(i as int)[k] == e;
                        assert(all@[k] == all@[i as int]);
                    }
                }
            }
            if e.documented() {
                r.push(e);
            }
            proof {
                assert(!before.contains(e));
                assert forall|j: int, k: int| 0 <= j < k < r@.len() implies r@[j] != r@[k] by {
                    if k == before.len() {
                        assert(before.contains(before[j]));
                    } else {
                        assert(before[j] != before[k]);
                    }
                }
                assert forall|x: Endpoint| #[trigger]
                    r@.contains(x) <==> x.is_documented() && all@.take(i + 1).contains(x) by {
                    lemma_push_contains(all@.take(i as int), e, x);
                    lemma_push_contains(before, e, x);
                }
            }
            i = i + 1;
        }
        proof {
            assert(all@.take(i as int) =~= all@);
            assert forall|e: Endpoint| all@.contains(e) by {
                assert(all@[e.place()] == e);
            }
        }
        r
    }

    /// The statuses that the document declares for an operation of the inbox.
    pub fn statuses(e: Endpoint) -> (r: Option<Vec<u16>>)
        ensures
            match (r, inbox_statuses(e)) {
                (Some(v), Some(s)) => v@ == s,
                (None, None) => true,
                _ => false,
            },
            e is ListItems ==> r is Some && r->0@ == seq![200u16, 304u16, 400u16, 401u16, 429u16],
            e is GetFilteredCounts ==> r is Some && r->0@ == seq![200u16, 400u16, 401u16],
            e is GetCounts || e is MarkAllRead || e is MarkAllSeen || e is ArchiveAll ==> r is Some
                && r->0@ == seq![200u16, 401u16],
            e is ArchiveRead ==> r is Some && r->0@ == seq![202u16, 401u16],
            e is MarkNotificationRead || e is MarkNotificationUnread || e is MarkBroadcastRead
                || e is MarkBroadcastUnread || e is ArchiveNotification || e is UnarchiveNotification
                || e is ArchiveBroadcast || e is UnarchiveBroadcast ==> r is Some && r->0@
                == seq![204u16, 401u16, 404u16],
    {
        match e {
            Endpoint::ListItems => Some(vec![200, 304, 400, 401, 429]),
            Endpoint::GetFilteredCounts => Some(vec![200, 400, 401]),
            Endpoint::GetCounts
            | Endpoint::MarkAllRead
            | Endpoint::MarkAllSeen
            | Endpoint::ArchiveAll => Some(vec![200, 401]),
            Endpoint::ArchiveRead => Some(vec![202, 401]),
            Endpoint::MarkNotificationRead
            | Endpoint::MarkNotificationUnread
            | Endpoint::MarkBroadcastRead
            | Endpoint::MarkBroadcastUnread
            | Endpoint::ArchiveNotification
            | Endpoint::UnarchiveNotification
            | Endpoint::ArchiveBroadcast
            | Endpoint::UnarchiveBroadcast => Some(vec![204, 401, 404]),
            _ => None,
        }
    }
}

/// Whether the document declares the shared rate-limit response for an
/// operation: for the two creates and for the list of items.
pub fn is_rate_limited(e: Endpoint) -> (r: bool)
    ensures
        r == (e is CreateNotifications || e is CreateBroadcast || e is ListItems),
{
    match e {
        Endpoint::CreateNotifications | Endpoint::CreateBroadcast | Endpoint::ListItems => true,
        _ => false,
    }
}

/// Of the inbox, exactly the list of items declares a rate limit.
pub proof fn the_list_alone_is_rate_limited(e: Endpoint)
    requires
        inbox_statuses(e) is Some,
    ensures
        inbox_statuses(e)->0.contains(429u16) <==> e is ListItems,
{
    if e is ListItems {
        assert(inbox_statuses(e)->0[4] == 429u16);
    }
}

proof fn lemma_push_contains(s: Seq<Endpoint>, e: Endpoint, x: Endpoint)
    ensures
        s.push(e).contains(x) <==> s.contains(x) || x == e,
{
    let t = s.push(e);
    assert(t[s.len() as int] == e);
    if s.contains(x) {
        let k = choose|k: int| 0 <= k < s.len() && s[k] == x;
        assert(t[k] == x);
    }
    if t.contains(x) && x != e {
        let k = choose|k: int| 0 <= k < t.len() && t[k] == x;
        assert(s[k] == x);
    }
}

/// What a value is.
#[derive(Clone, Copy, Debug, PartialEq, Eq, Structural)]
pub enum SchemaType {
    Integer,
    Text,
}

/// A schema of the document.
#[derive(Debug)]
pub struct SchemaOutline {
    pub kind: SchemaType,
    pub minimum: Option<i64>,
    pub maximum: Option<i64>,
    pub default: Option<i64>,
    /// The only values, where they are listed.
    pub choices: Option<Vec<&'static str>>,
}

/// The schema of a parameter.
#[derive(Clone, Copy, Debug, PartialEq, Eq, Structural)]
pub enum ParameterSchema {
    /// As generated.
    Generated,
    /// A plain integer with the bounds and the default of a page size.
    PageSize,
    /// One of the names of a list view.
    ListView,
    /// A plain text: optional, not nullable.
    PlainText,
}

impl ParameterSchema {
    /// Whether `o` is this schema in full.
    pub open spec fn is_outlined(self, o: SchemaOutline) -> bool {
        match self {
            ParameterSchema::Generated => false,
            ParameterSchema::PageSize => {
                &&& o.kind == SchemaType::Integer
                &&& o.minimum == Some(1i64)
                &&& o.maximum == Some(MAX_PAGE_SIZE)
                &&& o.default == Some(DEFAULT_PAGE_SIZE)
                &&& o.choices is None
            },
            ParameterSchema::ListView => {
                &&& o.kind == SchemaType::Text
                &&& o.minimum is None && o.maximum is None && o.default is None
                &&& o.choices is Some
                &&& o.choices->0@ == seq!["unread", "archived"]
            },
            ParameterSchema::PlainText => {
                &&& o.kind == SchemaType::Text
                &&& o.minimum is None && o.maximum is None && o.default is None
                &&& o.choices is None
            },
        }
    }

    /// The schema in full; none where the generated one stays.
    pub fn outline(self) -> (r: Option<SchemaOutline>)
        ensures
            match r {
                Some(o) => self.is_outlined(o),
                None => self == ParameterSchema::Generated,
            },
            self is PageSize ==> r is Some && r->0.kind is Integer && r->0.minimum == Some(1i64)
                && r->0.maximum == Some(100i64) && r->0.default == Some(20i64)
                && r->0.choices is None,
            self is ListView ==> r is Some && r->0.kind is Text && r->0.minimum is None
                && r->0.maximum is None && r->0.default is None && r->0.choices is Some
                && r->0.choices->0@ == seq!["unread", "archived"],
            self is PlainText ==> r is Some && r->0.kind is Text && r->0.minimum is None
                && r->0.maximum is None && r->0.default is None && r->0.choices is None,
            self is Generated ==> r is None,
    {
        let plain: SchemaOutline = SchemaOutline {
            kind: SchemaType::Text,
            minimum: None,
            maximum: None,
            default: None,
            choices: None,
        };
        match self {
            ParameterSchema::Generated => None,
            ParameterSchema::PageSize => Some(
                SchemaOutline {
                    kind: SchemaType::Integer,
                    minimum: Some(1),
                    maximum: Some(MAX_PAGE_SIZE),
                    default: Some(DEFAULT_PAGE_SIZE),
                    choices: None,
                },
            ),
            ParameterSchema::ListView => Some(
                SchemaOutline { choices: Some(vec!["unread", "archived"]), ..plain },
            ),
            ParameterSchema::PlainText => Some(plain),
        }
    }
}

/// A parameter of an operation.
#[derive(Debug)]
pub struct ParameterOutline {
    pub name: String,
    pub schema: ParameterSchema,
}

/// The request body of an operation.
#[derive(Clone, Copy, Debug, PartialEq, Eq, Structural)]
pub enum BodyOutline {
    /// There is none.
    Absent,
    /// As generated.
    Generated,
    /// Not required.
    Optional,
}

/// The part of an operation that may need correction.
#[derive(Debug)]
pub struct OperationOutline {
    pub path: String,
    pub method: Method,
    pub parameters: Option<Vec<ParameterOutline>>,
    pub body: BodyOutline,
}

/// The schema that a parameter should have.
pub open spec fn fixed_schema(
    path: Seq<char>,
    method: Method,
    name: Seq<char>,
    schema: ParameterSchema,
) -> ParameterSchema {
    if path == "/v1/inbox/items"@ && method == Method::Get && name == "limit"@ {
        ParameterSchema::PageSize
    } else if path == "/v1/inbox/items"@ && method == Method::Get && name == "filter"@ {
        ParameterSchema::ListView
    } else if path == "/v1/inbox/items"@ && method == Method::Get && name == "If-None-Match"@ {
        ParameterSchema::PlainText
    } else if path == "/v1/inbox/stream"@ && method == Method::Get && name == "Last-Event-ID"@ {
        ParameterSchema::PlainText
    } else {
        schema
    }
}

/// The request body that an operation should have.
pub open spec fn fixed_body(path: Seq<char>, method: Method, body: BodyOutline) -> BodyOutline {
    if path == "/v1/subscribers/{subscriber_id}"@ && method == Method::Put && body
        != BodyOutline::Absent {
        BodyOutline::Optional
    } else {
        body
    }
}

/// `after` is `before`, corrected.
pub open spec fn is_fixed(before: OperationOutline, after: OperationOutline) -> bool {
    &&& after.path@ == before.path@
    &&& after.method == before.method
    &&& after.body == fixed_body(before.path@, before.method, before.body)
    &&& match (before.parameters, after.parameters) {
        (None, None) => true,
        (Some(p), Some(q)) => {
            &&& q@.len() == p@.len()
            &&& forall|i: int|
                0 <= i < p@.len() ==> (#[trigger] q@[i]).name@ == p@[i].name@ && q@[i].schema
                    == fixed_schema(before.path@, before.method, p@[i].name@, p@[i].schema)
        },
        _ => false,
    }
}

fn schema_for(path: &str, method: Method, name: &str, schema: ParameterSchema) -> (r:
    ParameterSchema)
    ensures
        r == fixed_schema(path@, method, name@, schema),
{
    if method != Method::Get {
        schema
    } else if same(path, "/v1/inbox/items") {
        if same(name, "limit") {
            ParameterSchema::PageSize
        } else if same(name, "filter") {
            ParameterSchema::ListView
        } else if same(name, "If-None-Match") {
            ParameterSchema::PlainText
        } else {
            proof {
                lemma_paths_differ();
            }
            schema
        }
    } else if same(path, "/v1/inbox/stream") && same(name, "Last-Event-ID") {
        ParameterSchema::PlainText
    } else {
        schema
    }
}

proof fn lemma_paths_differ()
    ensures
        "/v1/inbox/items"@ != "/v1/inbox/stream"@,
{
    reveal_strlit("/v1/inbox/items");
    reveal_strlit("/v1/inbox/stream");
    assert("/v1/inbox/items"@.len() == 15 && "/v1/inbox/stream"@.len() == 16);
}

fn fix(operation: OperationOutline) -> (r: OperationOutline)
    ensures
        is_fixed(operation, r),
{
    let parameters: Option<Vec<ParameterOutline>> = match operation.parameters {
        None => None,
        Some(all) => {
            let ghost before = all@;
            let mut fixed: Vec<ParameterOutline> = Vec::new();
            for p in it: all
                invariant
                    it.seq() == before,
                    fixed@.len() == it.index(),
                    forall|i: int|
                        0 <= i < it.index() ==> (#[trigger] fixed@[i]).name@ == before[i].name@
                            && fixed@[i].schema == fixed_schema(
                            operation.path@,
                            operation.method,
                            before[i].name@,
                            before[i].schema,
                        ),
            {
                let schema: ParameterSchema = schema_for(
                    operation.path.as_str(),
                    operation.method,
                    p.name.as_str(),
                    p.schema,
                );
                fixed.push(ParameterOutline { name: p.name, schema });
            }
            Some(fixed)
        },
    };
    let body: BodyOutline = if operation.body != BodyOutline::Absent && operation.method
        == Method::Put && same(operation.path.as_str(), "/v1/subscribers/{subscriber_id}") {
        BodyOutline::Optional
    } else {
        operation.body
    };
    OperationOutline { path: operation.path, method: operation.method, parameters, body }
}

/// Corrects what the generator cannot express: plain-integer query parameters
/// with defaults, optional header parameters that are not nullable, and an
/// optional request body. Everything else stays as generated.
pub fn fixups(operations: Vec<OperationOutline>) -> (r: Vec<OperationOutline>)
    ensures
        r@.len() == operations@.len(),
        forall|i: int| 0 <= i < r@.len() ==> is_fixed(operations@[i], #[trigger] r@[i]),
{
    let ghost before = operations@;
    let mut r: Vec<OperationOutline> = Vec::new();
    for operation in it: operations
        invariant
            it.seq() == before,
            r@.len() == it.index(),
            forall|i: int| 0 <= i < it.index() ==> is_fixed(before[i], #[trigger] r@[i]),
    {
        r.push(fix(operation));
    }
    r
}

/// The corrections, one by one: the page size, the view and the validator of
/// the list, the last event of the stream. Every other parameter keeps its
/// schema.
pub proof fn which_parameters_are_corrected(
    path: Seq<char>,
    method: Method,
    name: Seq<char>,
    schema: ParameterSchema,
)
    ensures
        path == "/v1/inbox/items"@ && method is Get && name == "limit"@ ==> fixed_schema(
            path,
            method,
            name,
            schema,
        ) is PageSize,
        path == "/v1/inbox/items"@ && method is Get && name == "filter"@ ==> fixed_schema(
            path,
            method,
            name,
            schema,
        ) is ListView,
        path == "/v1/inbox/items"@ && method is Get && name == "If-None-Match"@ ==> fixed_schema(
            path,
            method,
            name,
            schema,
        ) is PlainText,
        path == "/v1/inbox/stream"@ && method is Get && name == "Last-Event-ID"@ ==> fixed_schema(
            path,
            method,
            name,
            schema,
        ) is PlainText,
        !(method is Get && ((path == "/v1/inbox/items"@ && (name == "limit"@ || name == "filter"@
            || name == "If-None-Match"@)) || (path == "/v1/inbox/stream"@ && name
            == "Last-Event-ID"@))) ==> fixed_schema(path, method, name, schema) == schema,
{
    lemma_paths_differ();
    reveal_strlit("limit");
    reveal_strlit("filter");
    reveal_strlit("If-None-Match");
    assert("limit"@.len() == 5 && "filter"@.len() == 6 && "If-None-Match"@.len() == 13);
}

/// One body is made optional, where there is one: that of the request that
/// puts a subscriber. Every other stays as it is.
pub proof fn which_body_is_corrected(path: Seq<char>, method: Method, body: BodyOutline)
    ensures
        path == "/v1/subscribers/{subscriber_id}"@ && method is Put && !(body is Absent)
            ==> fixed_body(path, method, body) is Optional,
        path != "/v1/subscribers/{subscriber_id}"@ || !(method is Put) || body is Absent
            ==> fixed_body(path, method, body) == body,
{
}

/// A corrected operation is the same operation with the same parameters in the
/// same order: nothing but schemas and the body differ.
pub proof fn what_the_corrections_keep(before: OperationOutline, after: OperationOutline, i: int)
    requires
        is_fixed(before, after),
    ensures
        after.path@ == before.path@,
        after.method == before.method,
        before.parameters is None <==> after.parameters is None,
        before.parameters is Some ==> after.parameters->0@.len() == before.parameters->0@.len(),
        before.parameters is Some && 0 <= i < before.parameters->0@.len()
            ==> after.parameters->0@[i].name@ == before.parameters->0@[i].name@
            && after.parameters->0@[i].schema == fixed_schema(
            before.path@,
            before.method,
            before.parameters->0@[i].name@,
            before.parameters->0@[i].schema,
        ),
        after.body == fixed_body(before.path@, before.method, before.body),
{
    if before.parameters is Some && 0 <= i < before.parameters->0@.len() {
        assert(after.parameters->0@[i].name@ == before.parameters->0@[i].name@);
    }
}

/// The statuses of the inbox: exactly the list answers that nothing changed,
/// exactly the background archive is only accepted, exactly the requests for
/// one item answer without content and find it missing, and each operation
/// refuses a caller that it does not know.
pub proof fn which_statuses_the_inbox_declares(e: Endpoint)
    requires
        inbox_statuses(e) is Some,
    ensures
        inbox_statuses(e)->0.contains(401u16),
        inbox_statuses(e)->0.contains(304u16) <==> e is ListItems,
        inbox_statuses(e)->0.contains(202u16) <==> e is ArchiveRead,
        inbox_statuses(e)->0.contains(400u16) <==> e is ListItems || e is GetFilteredCounts,
        inbox_statuses(e)->0.contains(404u16) <==> inbox_statuses(e)->0.contains(204u16),
        inbox_statuses(e)->0.contains(204u16) <==> e is MarkNotificationRead
            || e is MarkNotificationUnread || e is MarkBroadcastRead || e is MarkBroadcastUnread
            || e is ArchiveNotification || e is UnarchiveNotification || e is ArchiveBroadcast
            || e is UnarchiveBroadcast,
{
    let s = inbox_statuses(e)->0;
    if s.len() == 5 {
        assert(s[1] == 304u16 && s[2] == 400u16 && s[3] == 401u16);
    } else if s.len() == 2 {
        assert(s[1] == 401u16 && (s[0] == 200u16 || s[0] == 202u16));
    } else {
        assert(s[0] == 200u16 || s[0] == 204u16);
        assert(s[1] == 400u16 || s[1] == 401u16);
        assert(s[2] == 401u16 || s[2] == 404u16);
    }
}

} // verus!
