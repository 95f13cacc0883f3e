//! The API's documentation: its description, and every route with its
//! operations, their parameters, request bodies and documented responses.

use vstd::prelude::*;

use crate::str_map::StrMap;

verus! {

/// An HTTP method.
#[derive(Debug, Clone, Copy, PartialEq, Eq, Structural)]
pub enum HttpMethod {
    Get,
    Post,
}

/// Where a parameter is passed.
#[derive(Debug, Clone, Copy, PartialEq, Eq, Structural)]
pub enum ParamLocation {
    Path,
    Query,
}

/// The type of a parameter's value.
#[derive(Debug, Clone, Copy, PartialEq, Eq, Structural)]
pub enum ParamType {
    /// An unsigned 64-bit integer.
    U64,
    /// An unsigned 32-bit integer.
    U32,
    /// A string.
    Text,
}

/// One documented parameter of an operation.
#[derive(Debug)]
pub struct ParameterDoc {
    pub name: String,
    pub location: ParamLocation,
    pub required: bool,
    pub param_type: ParamType,
    pub description: String,
}

/// One documented response of an operation.
#[derive(Debug)]
pub struct ResponseDoc {
    pub status: u16,
    pub description: String,
}

/// One method of a route.
#[derive(Debug)]
pub struct OperationDoc {
    pub method: HttpMethod,
    pub operation_id: String,
    pub summary: String,
    pub parameters: Vec<ParameterDoc>,
    /// The name of the schema of the JSON request body, if there is one.
    pub request_body: Option<String>,
    pub responses: Vec<ResponseDoc>,
}

/// The operations of one route.
#[derive(Debug)]
pub struct PathItem {
    pub operations: Vec<OperationDoc>,
}

/// The content of a [`ParameterDoc`].
#[verifier::ext_equal]
pub struct ParameterView {
    pub name: Seq<char>,
    pub location: ParamLocation,
    pub required: bool,
    pub param_type: ParamType,
    pub description: Seq<char>,
}

/// The content of an [`OperationDoc`].
#[verifier::ext_equal]
pub struct OperationView {
    pub method: HttpMethod,
    pub operation_id: Seq<char>,
    pub summary: Seq<char>,
    pub parameters: Seq<ParameterView>,
    pub request_body: Option<Seq<char>>,
    pub responses: Seq<(u16, Seq<char>)>,
}

/// The content of a parameter's documentation.
pub open spec fn parameter_view(p: ParameterDoc) -> ParameterView {
    ParameterView {
        name: p.name@,
        location: p.location,
        required: p.required,
        param_type: p.param_type,
        description: p.description@,
    }
}

/// The content of an operation's documentation.
pub open spec fn operation_view(o: OperationDoc) -> OperationView {
    OperationView {
        method: o.method,
        operation_id: o.operation_id@,
        summary: o.summary@,
        parameters: o.parameters@.map_values(|p: ParameterDoc| parameter_view(p)),
        request_body: match o.request_body {
            Some(name) => Some(name@),
            None => None,
        },
        responses: o.responses@.map_values(|d: ResponseDoc| (d.status, d.description@)),
    }
}

/// The content of each operation of a route.
pub open spec fn route_view(p: PathItem) -> Seq<OperationView> {
    p.operations@.map_values(|o: OperationDoc| operation_view(o))
}

impl View for PathItem {
    type V = PathItem;

    open spec fn view(&self) -> PathItem {
        *self
    }
}

/// The documented routes, keyed by path template.
#[derive(Debug)]
pub struct Paths {
    pub paths: StrMap<PathItem>,
}

/// General information about the API.
#[derive(Debug)]
pub struct ApiInfo {
    pub title: String,
    pub version: String,
    pub description: String,
    pub contact_name: String,
    pub contact_email: String,
    pub license: String,
}

/// A group of operations.
#[derive(Debug)]
pub struct TagDoc {
    pub name: String,
    pub description: String,
}

/// The whole API description.
#[derive(Debug)]
pub struct OpenApiDoc {
    pub info: ApiInfo,
    pub paths: Paths,
    /// Names of the documented data schemas.
    pub schemas: Vec<String>,
    pub tags: Vec<TagDoc>,
}

/// The operations of `GET /health`.
pub open spec fn health_route() -> Seq<OperationView> {
    seq![
        OperationView {
            method: HttpMethod::Get,
            operation_id: "health"@,
            summary: "Health check"@,
            parameters: Seq::<ParameterView>::empty(),
            request_body: None,
            responses: seq![(200u16, "Service is healthy"@)],
        },
    ]
}

/// The operations of `POST` and `GET /api/bounties`.
pub open spec fn bounties_route() -> Seq<OperationView> {
    seq![
        OperationView {
            method: HttpMethod::Post,
            operation_id: "create_bounty"@,
            summary: "Create a new bounty"@,
            parameters: Seq::<ParameterView>::empty(),
            request_body: Some("BountyRequest"@),
            responses: seq![(201u16, "Bounty created"@), (400u16, "Invalid request body"@)],
        },
        OperationView {
            method: HttpMethod::Get,
            operation_id: "list_bounties"@,
            summary: "List bounties (paginated)"@,
            parameters: seq![ParameterView { name: "page"@, location: ParamLocation::Query, required: false, param_type: ParamType::U32, description: "Page number (default 1)"@ }, ParameterView { name: "limit"@, location: ParamLocation::Query, required: false, param_type: ParamType::U32, description: "Items per page (default 10)"@ }, ParameterView { name: "status"@, location: ParamLocation::Query, required: false, param_type: ParamType::Text, description: "Filter by status: open | in-progress | completed"@ }],
            request_body: None,
            responses: seq![(200u16, "Paginated list of bounties"@)],
        },
    ]
}

/// The operations of `GET /api/bounties/{id}`.
pub open spec fn bounty_route() -> Seq<OperationView> {
    seq![
        OperationView {
            method: HttpMethod::Get,
            operation_id: "get_bounty"@,
            summary: "Get a single bounty by ID"@,
            parameters: seq![ParameterView { name: "id"@, location: ParamLocation::Path, required: true, param_type: ParamType::U64, description: "Bounty ID"@ }],
            request_body: None,
            responses: seq![(200u16, "Bounty details"@), (404u16, "Bounty not found"@)],
        },
    ]
}

/// The operations of `POST /api/bounties/{id}/apply`.
pub open spec fn apply_route() -> Seq<OperationView> {
    seq![
        OperationView {
            method: HttpMethod::Post,
            operation_id: "apply_for_bounty"@,
            summary: "Apply for a bounty"@,
            parameters: seq![ParameterView { name: "id"@, location: ParamLocation::Path, required: true, param_type: ParamType::U64, description: "Bounty ID"@ }],
            request_body: Some("BountyApplication"@),
            responses: seq![(201u16, "Application submitted"@), (400u16, "Invalid request body"@), (404u16, "Bounty not found"@)],
        },
    ]
}

/// The operations of `POST /api/freelancers/register`.
pub open spec fn register_route() -> Seq<OperationView> {
    seq![
        OperationView {
            method: HttpMethod::Post,
            operation_id: "register_freelancer"@,
            summary: "Register a freelancer profile"@,
            parameters: Seq::<ParameterView>::empty(),
            request_body: Some("FreelancerRegistration"@),
            responses: seq![(201u16, "Freelancer registered"@), (409u16, "Address already registered"@)],
        },
    ]
}

/// The operations of `GET /api/freelancers`.
pub open spec fn freelancers_route() -> Seq<OperationView> {
    seq![
        OperationView {
            method: HttpMethod::Get,
            operation_id: "list_freelancers"@,
            summary: "List freelancers"@,
            parameters: seq![ParameterView { name: "discipline"@, location: ParamLocation::Query, required: false, param_type: ParamType::Text, description: "Filter by discipline"@ }, ParameterView { name: "page"@, location: ParamLocation::Query, required: false, param_type: ParamType::U32, description: "Page number"@ }, ParameterView { name: "limit"@, location: ParamLocation::Query, required: false, param_type: ParamType::U32, description: "Items per page"@ }],
            request_body: None,
            responses: seq![(200u16, "Paginated list of freelancers"@)],
        },
    ]
}

/// The operations of `GET /api/freelancers/{address}`.
pub open spec fn freelancer_route() -> Seq<OperationView> {
    seq![
        OperationView {
            method: HttpMethod::Get,
            operation_id: "get_freelancer"@,
            summary: "Get a freelancer by Stellar address"@,
            parameters: seq![ParameterView { name: "address"@, location: ParamLocation::Path, required: true, param_type: ParamType::Text, description: "Stellar address"@ }],
            request_body: None,
            responses: seq![(200u16, "Freelancer profile"@), (404u16, "Freelancer not found"@)],
        },
    ]
}

/// The operations of `GET /api/escrow/{id}`.
pub open spec fn escrow_route() -> Seq<OperationView> {
    seq![
        OperationView {
            method: HttpMethod::Get,
            operation_id: "get_escrow"@,
            summary: "Get escrow details"@,
            parameters: seq![ParameterView { name: "id"@, location: ParamLocation::Path, required: true, param_type: ParamType::U64, description: "Escrow ID"@ }],
            request_body: None,
            responses: seq![(200u16, "Escrow details"@), (404u16, "Escrow not found"@)],
        },
    ]
}

/// The operations of `POST /api/escrow/{id}/release`.
pub open spec fn release_route() -> Seq<OperationView> {
    seq![
        OperationView {
            method: HttpMethod::Post,
            operation_id: "release_escrow"@,
            summary: "Release escrowed funds"@,
            parameters: seq![ParameterView { name: "id"@, location: ParamLocation::Path, required: true, param_type: ParamType::U64, description: "Escrow ID"@ }],
            request_body: None,
            responses: seq![(200u16, "Funds released"@), (403u16, "Not authorised to release"@), (404u16, "Escrow not found"@)],
        },
    ]
}

/// Every route with the content of each of its operations.
pub open spec fn documented_routes() -> Map<Seq<char>, Seq<OperationView>> {
    map![
        "/health"@ => health_route(),
        "/api/bounties"@ => bounties_route(),
        "/api/bounties/{id}"@ => bounty_route(),
        "/api/bounties/{id}/apply"@ => apply_route(),
        "/api/freelancers/register"@ => register_route(),
        "/api/freelancers"@ => freelancers_route(),
        "/api/freelancers/{address}"@ => freelancer_route(),
        "/api/escrow/{id}"@ => escrow_route(),
        "/api/escrow/{id}/release"@ => release_route(),
    ]
}

/// `path` holds the segment `{name}`.
pub open spec fn names_segment(path: Seq<char>, name: Seq<char>) -> bool {
    exists|i: int|
        0 <= i && i + name.len() + 2 <= path.len() && #[trigger] path.subrange(
            i,
            i + name.len() + 2,
        ) == seq!['{'] + name + seq!['}']
}

/// In every route, a parameter is documented as a path parameter exactly
/// when the route's template holds the segment `{name}` for it.
pub open spec fn parameters_match_templates(routes: Map<Seq<char>, Seq<OperationView>>) -> bool {
    forall|k: Seq<char>, o: int, q: int|
        routes.contains_key(k) && 0 <= o < routes[k].len() && 0 <= q
            < routes[k][o].parameters.len() ==> (names_segment(
            k,
            #[trigger] routes[k][o].parameters[q].name,
        ) <==> routes[k][o].parameters[q].location == ParamLocation::Path)
}

proof fn lemma_no_segment_without_brace(path: Seq<char>, name: Seq<char>)
    requires
        forall|i: int| 0 <= i < path.len() ==> path[i] != '{',
    ensures
        !names_segment(path, name),
{
    if names_segment(path, name) {
        let i = choose|i: int|
            0 <= i && i + name.len() + 2 <= path.len() && #[trigger] path.subrange(
                i,
                i + name.len() + 2,
            ) == seq!['{'] + name + seq!['}'];
        assert(path.subrange(i, i + name.len() + 2)[0] == '{');
        assert(path[i] == '{');
    }
}

proof fn lemma_segment_at(path: Seq<char>, name: Seq<char>, i: int)
    requires
        0 <= i,
        i + name.len() + 2 <= path.len(),
        path.subrange(i, i + name.len() + 2) =~= seq!['{'] + name + seq!['}'],
    ensures
        names_segment(path, name),
{
    assert(path.subrange(i, i + name.len() + 2) == seq!['{'] + name + seq!['}']);
}

/// Every documented parameter is a path parameter exactly when its route's
/// template names it as `{name}`.
pub proof fn lemma_documented_parameters_match_templates()
    ensures
        parameters_match_templates(documented_routes()),
{
    reveal_strlit("/health");
    reveal_strlit("/api/bounties");
    reveal_strlit("/api/bounties/{id}");
    reveal_strlit("/api/bounties/{id}/apply");
    reveal_strlit("/api/freelancers/register");
    reveal_strlit("/api/freelancers");
    reveal_strlit("/api/freelancers/{address}");
    reveal_strlit("/api/escrow/{id}");
    reveal_strlit("/api/escrow/{id}/release");
    reveal_strlit("id");
    reveal_strlit("address");
    reveal_strlit("page");
    reveal_strlit("limit");
    reveal_strlit("status");
    reveal_strlit("discipline");
    let routes = documented_routes();
    lemma_segment_at("/api/bounties/{id}"@, "id"@, 14);
    lemma_segment_at("/api/bounties/{id}/apply"@, "id"@, 14);
    lemma_segment_at("/api/freelancers/{address}"@, "address"@, 17);
    lemma_segment_at("/api/escrow/{id}"@, "id"@, 12);
    lemma_segment_at("/api/escrow/{id}/release"@, "id"@, 12);
    lemma_no_segment_without_brace("/api/bounties"@, "page"@);
    lemma_no_segment_without_brace("/api/bounties"@, "limit"@);
    lemma_no_segment_without_brace("/api/bounties"@, "status"@);
    lemma_no_segment_without_brace("/api/freelancers"@, "discipline"@);
    lemma_no_segment_without_brace("/api/freelancers"@, "page"@);
    lemma_no_segment_without_brace("/api/freelancers"@, "limit"@);
    assert forall|k: Seq<char>, o: int, q: int|
        routes.contains_key(k) && 0 <= o < routes[k].len() && 0 <= q
            < routes[k][o].parameters.len() implies (names_segment(
        k,
        #[trigger] routes[k][o].parameters[q].name,
    ) <==> routes[k][o].parameters[q].location == ParamLocation::Path) by {
        if k == "/api/bounties"@ {
            assert(o == 1);
        } else if k == "/api/freelancers"@ {
        } else {
        }
    }
}

/// The names of the documented data schemas.
pub open spec fn documented_schemas() -> Seq<Seq<char>> {
    seq![
        "BountyRequest"@,
        "BountyApplication"@,
        "FreelancerRegistration"@,
        "BountyRecord"@,
        "ApplicationRecord"@,
        "FreelancerRecord"@,
    ]
}

/// The operation groups, as (name, description).
pub open spec fn documented_tags() -> Seq<(Seq<char>, Seq<char>)> {
    seq![
        ("bounties"@, "Bounty management"@),
        ("freelancers"@, "Freelancer registry"@),
        ("escrow"@, "Payment escrow"@),
    ]
}

fn parameter(
    name: &str,
    location: ParamLocation,
    required: bool,
    param_type: ParamType,
    description: &str,
) -> (r: ParameterDoc)
    ensures
        parameter_view(r) == (ParameterView {
            name: name@,
            location,
            required,
            param_type,
            description: description@,
        }),
{
    ParameterDoc {
        name: name.to_string(),
        location,
        required,
        param_type,
        description: description.to_string(),
    }
}

fn response(status: u16, description: &str) -> (r: ResponseDoc)
    ensures
        r.status == status,
        r.description@ == description@,
{
    ResponseDoc { status, description: description.to_string() }
}

fn operation(
    method: HttpMethod,
    operation_id: &str,
    summary: &str,
    parameters: Vec<ParameterDoc>,
    request_body: Option<&str>,
    responses: Vec<ResponseDoc>,
) -> (r: OperationDoc)
    ensures
        r.method == method,
        r.operation_id@ == operation_id@,
        r.summary@ == summary@,
        r.parameters == parameters,
        r.responses == responses,
        match request_body {
            Some(name) => r.request_body matches Some(n) && n@ == name@,
            None => r.request_body is None,
        },
{
    let body = match request_body {
        Some(name) => Some(name.to_string()),
        None => None,
    };
    OperationDoc {
        method,
        operation_id: operation_id.to_string(),
        summary: summary.to_string(),
        parameters,
        request_body: body,
        responses,
    }
}

/// The documentation of the Stellar creator platform API.
pub struct ApiDoc;

impl ApiDoc {
    /// The API description served as OpenAPI.
    pub fn openapi() -> (r: OpenApiDoc)
        ensures
            r.paths.paths@.map_values(|p: PathItem| route_view(p)) == documented_routes(),
            r.info.title@ == "Stellar Creator Platform API"@,
            r.info.version@ == "0.1.0"@,
            r.info.description@ == "REST API for the Stellar Creator Portfolio & Bounty Marketplace"@,
            r.info.contact_name@ == "Stellar Team"@,
            r.info.contact_email@ == "support@stellar.dev"@,
            r.info.license@ == "MIT"@,
            r.schemas@.map_values(|n: String| n@) == documented_schemas(),
            r.tags@.map_values(|t: TagDoc| (t.name@, t.description@)) == documented_tags(),
            parameters_match_templates(r.paths.paths@.map_values(|p: PathItem| route_view(p))),
    {
        let mut paths: StrMap<PathItem> = StrMap::new();
        let ghost mut routes: Map<Seq<char>, Seq<OperationView>> = Map::empty();
        assert(paths@.map_values(|p: PathItem| route_view(p)) =~= routes);

        let mut operations = Vec::new();
        let mut parameters = Vec::new();
        let mut responses = Vec::new();
        responses.push(response(200, "Service is healthy"));
        operations.push(operation(HttpMethod::Get, "health", "Health check", parameters, None, responses));
        let item = PathItem { operations };
        assert(route_view(item) =~~= health_route());
        paths.insert("/health".to_string(), item);
        proof {
            routes = routes.insert("/health"@, health_route());
        }
        assert(paths@.map_values(|p: PathItem| route_view(p)) =~= routes);

        let mut operations = Vec::new();
        let mut parameters = Vec::new();
        let mut responses = Vec::new();
        responses.push(response(201, "Bounty created"));
        responses.push(response(400, "Invalid request body"));
        operations.push(operation(HttpMethod::Post, "create_bounty", "Create a new bounty", parameters, Some("BountyRequest"), responses));
        let mut parameters = Vec::new();
        parameters.push(parameter("page", ParamLocation::Query, false, ParamType::U32, "Page number (default 1)"));
        parameters.push(parameter("limit", ParamLocation::Query, false, ParamType::U32, "Items per page (default 10)"));
        parameters.push(parameter("status", ParamLocation::Query, false, ParamType::Text, "Filter by status: open | in-progress | completed"));
        let mut responses = Vec::new();
        responses.push(response(200, "Paginated list of bounties"));
        operations.push(operation(HttpMethod::Get, "list_bounties", "List bounties (paginated)", parameters, None, responses));
        let item = PathItem { operations };
        assert(route_view(item) =~~= bounties_route());
        paths.insert("/api/bounties".to_string(), item);
        proof {
            routes = routes.insert("/api/bounties"@, bounties_route());
        }
        assert(paths@.map_values(|p: PathItem| route_view(p)) =~= routes);

        let mut operations = Vec::new();
        let mut parameters = Vec::new();
        parameters.push(parameter("id", ParamLocation::Path, true, ParamType::U64, "Bounty ID"));
        let mut responses = Vec::new();
        responses.push(response(200, "Bounty details"));
        responses.push(response(404, "Bounty not found"));
        operations.push(operation(HttpMethod::Get, "get_bounty", "Get a single bounty by ID", parameters, None, responses));
        let item = PathItem { operations };
        assert(route_view(item) =~~= bounty_route());
        paths.insert("/api/bounties/{id}".to_string(), item);
        proof {
            routes = routes.insert("/api/bounties/{id}"@, bounty_route());
        }
        assert(paths@.map_values(|p: PathItem| route_view(p)) =~= routes);

        let mut operations = Vec::new();
        let mut parameters = Vec::new();
        parameters.push(parameter("id", ParamLocation::Path, true, ParamType::U64, "Bounty ID"));
        let mut responses = Vec::new();
        responses.push(response(201, "Application submitted"));
        responses.push(response(400, "Invalid request body"));
        responses.push(response(404, "Bounty not found"));
        operations.push(operation(HttpMethod::Post, "apply_for_bounty", "Apply for a bounty", parameters, Some("BountyApplication"), responses));
        let item = PathItem { operations };
        assert(route_view(item) =~~= apply_route());
        paths.insert("/api/bounties/{id}/apply".to_string(), item);
        proof {
            routes = routes.insert("/api/bounties/{id}/apply"@, apply_route());
        }
        assert(paths@.map_values(|p: PathItem| route_view(p)) =~= routes);

        let mut operations = Vec::new();
        let mut parameters = Vec::new();
        let mut responses = Vec::new();
        responses.push(response(201, "Freelancer registered"));
        responses.push(response(409, "Address already registered"));
        operations.push(operation(HttpMethod::Post, "register_freelancer", "Register a freelancer profile", parameters, Some("FreelancerRegistration"), responses));
        let item = PathItem { operations };
        assert(route_view(item) =~~= register_route());
        paths.insert("/api/freelancers/register".to_string(), item);
        proof {
            routes = routes.insert("/api/freelancers/register"@, register_route());
        }
        assert(paths@.map_values(|p: PathItem| route_view(p)) =~= routes);

        let mut operations = Vec::new();
        let mut parameters = Vec::new();
        parameters.push(parameter("discipline", ParamLocation::Query, false, ParamType::Text, "Filter by discipline"));
        parameters.push(parameter("page", ParamLocation::Query, false, ParamType::U32, "Page number"));
        parameters.push(parameter("limit", ParamLocation::Query, false, ParamType::U32, "Items per page"));
        let mut responses = Vec::new();
        responses.push(response(200, "Paginated list of freelancers"));
        operations.push(operation(HttpMethod::Get, "list_freelancers", "List freelancers", parameters, None, responses));
        let item = PathItem { operations };
        assert(route_view(item) =~~= freelancers_route());
        paths.insert("/api/freelancers".to_string(), item);
        proof {
            routes = routes.insert("/api/freelancers"@, freelancers_route());
        }
        assert(paths@.map_values(|p: PathItem| route_view(p)) =~= routes);

        let mut operations = Vec::new();
        let mut parameters = Vec::new();
        parameters.push(parameter("address", ParamLocation::Path, true, ParamType::Text, "Stellar address"));
        let mut responses = Vec::new();
        responses.push(response(200, "Freelancer profile"));
        responses.push(response(404, "Freelancer not found"));
        operations.push(operation(HttpMethod::Get, "get_freelancer", "Get a freelancer by Stellar address", parameters, None, responses));
        let item = PathItem { operations };
        assert(route_view(item) =~~= freelancer_route());
        paths.insert("/api/freelancers/{address}".to_string(), item);
        proof {
            routes = routes.insert("/api/freelancers/{address}"@, freelancer_route());
        }
        assert(paths@.map_values(|p: PathItem| route_view(p)) =~= routes);

        let mut operations = Vec::new();
        let mut parameters = Vec::new();
        parameters.push(parameter("id", ParamLocation::Path, true, ParamType::U64, "Escrow ID"));
        let mut responses = Vec::new();
        responses.push(response(200, "Escrow details"));
        responses.push(response(404, "Escrow not found"));
        operations.push(operation(HttpMethod::Get, "get_escrow", "Get escrow details", parameters, None, responses));
        let item = PathItem { operations };
        assert(route_view(item) =~~= escrow_route());
        paths.insert("/api/escrow/{id}".to_string(), item);
        proof {
            routes = routes.insert("/api/escrow/{id}"@, escrow_route());
        }
        assert(paths@.map_values(|p: PathItem| route_view(p)) =~= routes);

        let mut operations = Vec::new();
        let mut parameters = Vec::new();
        parameters.push(parameter("id", ParamLocation::Path, true, ParamType::U64, "Escrow ID"));
        let mut responses = Vec::new();
        responses.push(response(200, "Funds released"));
        responses.push(response(403, "Not authorised to release"));
        responses.push(response(404, "Escrow not found"));
        operations.push(operation(HttpMethod::Post, "release_escrow", "Release escrowed funds", parameters, None, responses));
        let item = PathItem { operations };
        assert(route_view(item) =~~= release_route());
        paths.insert("/api/escrow/{id}/release".to_string(), item);
        proof {
            routes = routes.insert("/api/escrow/{id}/release"@, release_route());
        }
        assert(paths@.map_values(|p: PathItem| route_view(p)) =~= routes);
        assert(routes =~~= documented_routes());
        proof {
            lemma_documented_parameters_match_templates();
        }

        let mut schemas = Vec::new();
        schemas.push("BountyRequest".to_string());
        schemas.push("BountyApplication".to_string());
        schemas.push("FreelancerRegistration".to_string());
        schemas.push("BountyRecord".to_string());
        schemas.push("ApplicationRecord".to_string());
        schemas.push("FreelancerRecord".to_string());

        let mut tags = Vec::new();
        tags.push(TagDoc { name: "bounties".to_string(), description: "Bounty management".to_string() });
        tags.push(
            TagDoc { name: "freelancers".to_string(), description: "Freelancer registry".to_string() },
        );
        tags.push(TagDoc { name: "escrow".to_string(), description: "Payment escrow".to_string() });
        assert(schemas@.map_values(|n: String| n@) =~= documented_schemas());
        assert(tags@.map_values(|t: TagDoc| (t.name@, t.description@)) =~= documented_tags());

        OpenApiDoc {
            info: ApiInfo {
                title: "Stellar Creator Platform API".to_string(),
                version: "0.1.0".to_string(),
                description: "REST API for the Stellar Creator Portfolio & Bounty Marketplace".to_string(),
                contact_name: "Stellar Team".to_string(),
                contact_email: "support@stellar.dev".to_string(),
                license: "MIT".to_string(),
            },
            paths: Paths { paths },
            schemas,
            tags,
        }
    }
}

} // verus!
