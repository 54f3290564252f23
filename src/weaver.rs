//! The entry-point weaver: merges the wiring of one component (imports,
//! construction, documentation aggregation, route registration) into the text
//! of the program's entry point, by locating anchors and splicing text in.
//!
//! Each edit is a phase: a spec function from the current text to the next
//! one, and an executable function proved equal to it.
use vstd::prelude::*;
use crate::text::{
    occurs_at, has_sub, find_from, find_last, splice, insert_at, replace_all,
    lower_of, lowercase, chars_of, push_str, push_chars, string_of, matches_at, find, find_last_of,
    contains, splice_exec, replace_all_exec, slice_exec, same_chars, lemma_find_from_bounds,
};
use crate::generator::{snake_of, pascal_of, to_snake_case, to_pascal_case};

verus! {

/// The startup banner of the placeholder entry function.
pub const BANNER: &'static str = "println!(\"🚀 Welcome";

/// The prefix shared by every handler import line.
pub const HANDLER_USE: &'static str = "use handler::";

/// The module declaration that the first import block replaces.
pub const MOD_HANDLER: &'static str = "mod handler;";

/// The imports that every first import block holds.
pub const IMPORTS_BASE: &'static str =
    "mod handler;\n\nuse axum::Router;\nuse std::sync::Arc;\nuse tokio::net::TcpListener;\nuse utoipa::OpenApi;\nuse utoipa_swagger_ui::SwaggerUi;\n";

/// The configuration import of the richer first import block.
pub const IMPORTS_CONFIG: &'static str = "\nuse config::database::DatabaseConfig;\n";

/// The start of the entry function.
pub const MAIN_HEAD: &'static str =
    "\n#[tokio::main]\nasync fn main() -> Result<(), Box<dyn std::error::Error>> {\n";

/// The richer entry function up to the construction of the first component.
pub const RICH_INIT: &'static str =
    "    // Load environment variables from .env file\n    dotenvy::dotenv().ok();\n    \n    println!(\"🚀 Starting API Server...\");\n    \n    // Initialize services\n    let config = config::database::DatabaseConfig::from_env();\n";

/// The documentation-serving clause as the first weave writes it.
pub const SWAGGER_DEFAULT: &'static str =
    ".merge(SwaggerUi::new(\"/swagger-ui\").url(\"/api-docs/openapi.json\", openapi))";

/// The start of the documentation-serving clause.
pub const SWAGGER_OPEN: &'static str = ".merge(SwaggerUi::new(\"/swagger-ui\")";

/// The marker of a documentation-serving clause.
pub const SWAGGER_MERGE: &'static str = ".merge(SwaggerUi::";

/// The end of the listener setup and of the entry function.
pub const MAIN_TAIL: &'static str =
    "    \n    let listener = TcpListener::bind(addr).await?;\n    axum::serve(listener, app).await?;\n    \n    Ok(())\n}\n";

/// The line that announces the listening address.
pub const LISTEN_LINE: &'static str =
    "    \n    let addr = \"127.0.0.1:3000\";\n    println!(\"✅ Server listening on http://{}\", addr);\n";

/// The line that announces the documentation endpoint.
pub const DOCS_LINE: &'static str =
    "    println!(\"📚 Swagger UI available at http://{}/swagger-ui\", addr);\n";

// ----- texts that depend on the component -----

/// The handler import line of a component, without its newline: the exact
/// import statement whose presence marks the component as woven.
pub open spec fn handler_import(s: Seq<char>, p: Seq<char>) -> Seq<char> {
    "use handler::"@ + s + "_handler::{"@ + p + "Handler, "@ + p + "ApiDoc};"@
}

pub open spec fn factory_marker(s: Seq<char>) -> Seq<char> {
    "use factory::"@ + s + "_factory"@
}

/// The persistence-factory import line of a component.
pub open spec fn factory_import(s: Seq<char>) -> Seq<char> {
    "use factory::"@ + s + "_factory;\n"@
}

pub open spec fn service_marker(s: Seq<char>) -> Seq<char> {
    "use service::"@ + s + "_service"@
}

/// The service-layer import line of a component.
pub open spec fn service_import(s: Seq<char>, p: Seq<char>) -> Seq<char> {
    "use service::"@ + s + "_service::"@ + p + "Service;\n"@
}

pub open spec fn usecase_marker(s: Seq<char>) -> Seq<char> {
    "use usecase::"@ + s + "_usecase"@
}

/// The use-case import line of a component.
pub open spec fn usecase_import(s: Seq<char>, p: Seq<char>) -> Seq<char> {
    "use usecase::"@ + s + "_usecase::"@ + p + "Usecase;\n"@
}

/// The import block that replaces the module declaration on the first weave.
pub open spec fn bootstrap_imports(s: Seq<char>, p: Seq<char>, rich: bool) -> Seq<char> {
    if rich {
        IMPORTS_BASE@ + IMPORTS_CONFIG@ + factory_import(s) + service_import(s, p)
            + usecase_import(s, p) + handler_import(s, p)
    } else {
        IMPORTS_BASE@ + handler_import(s, p)
    }
}

/// The construction of a component's persistence adapter, use-case and
/// service, each named with the snake form as a suffix.
pub open spec fn construction_block(s: Seq<char>, p: Seq<char>) -> Seq<char> {
    "    let repository_"@ + s + " = factory::"@ + s + "_factory::create_"@ + s
        + "_repository(&config).await?;\n    let usecase_"@ + s + " = Arc::new(usecase::"@ + s
        + "_usecase::"@ + p + "Usecase::new(repository_"@ + s + "));\n    let service_"@ + s
        + " = Arc::new(service::"@ + s + "_service::"@ + p + "Service::new(usecase_"@ + s
        + "));"@
}

/// The route-merge clause of a component.
pub open spec fn route_clause(s: Seq<char>, p: Seq<char>) -> Seq<char> {
    ".merge("@ + p + "Handler::routes(service_"@ + s + "))\n        "@
}

/// The declaration of a further documentation aggregate, with its leading newline.
pub open spec fn doc_var_decl(s: Seq<char>, p: Seq<char>) -> Seq<char> {
    "\n    let openapi_"@ + s + " = "@ + p + "ApiDoc::openapi();"@
}

/// The entry function that replaces the placeholder on the first weave.
pub open spec fn bootstrap_main(s: Seq<char>, p: Seq<char>, rich: bool) -> Seq<char> {
    if rich {
        MAIN_HEAD@ + RICH_INIT@ + construction_block(s, p)
            + "\n    \n    // Merge OpenAPI docs\n    let openapi = "@ + p
            + "ApiDoc::openapi();\n    \n    let app = Router::new()\n        "@ + route_clause(s, p)
            + SWAGGER_DEFAULT@ + ";\n"@ + LISTEN_LINE@ + DOCS_LINE@ + MAIN_TAIL@
    } else {
        MAIN_HEAD@
            + "    println!(\"🚀 Starting API Server...\");\n    \n    // Initialize your services here\n    // Example:\n    // let config = config::database::DatabaseConfig::from_env();\n    // let repository = factory::"@
            + s + "_factory::create_"@ + s
            + "_repository(&config).await?;\n    // let usecase = Arc::new(usecase::"@ + s
            + "_usecase::"@ + p + "Usecase::new(repository));\n    // let service = Arc::new(service::"@
            + s + "_service::"@ + p
            + "Service::new(usecase));\n    \n    let app = Router::new();\n        // .merge("@ + p
            + "Handler::routes(service));\n"@ + LISTEN_LINE@ + MAIN_TAIL@
    }
}

// ----- phases -----

/// `ins` inserted at the start of the line after the one that holds the last
/// occurrence of `marker`; `t` unchanged where either anchor is missing.
pub open spec fn after_last_line(t: Seq<char>, marker: Seq<char>, ins: Seq<char>) -> Seq<char> {
    match find_last(t, marker) {
        Some(i) => match find_from(t, "\n"@, i) {
            Some(j) => insert_at(t, j + 1, ins),
            None => t,
        },
        None => t,
    }
}

/// The factory, service and use-case imports of a component, each after the
/// last import of the category before it, where not present yet.
pub open spec fn layer_imports(t: Seq<char>, s: Seq<char>, p: Seq<char>) -> Seq<char> {
    let t1 = if has_sub(t, factory_marker(s)) {
        t
    } else {
        after_last_line(t, HANDLER_USE@, factory_import(s))
    };
    let t2 = if has_sub(t1, service_marker(s)) {
        t1
    } else {
        after_last_line(t1, "use factory::"@, service_import(s, p))
    };
    if has_sub(t2, usecase_marker(s)) {
        t2
    } else {
        after_last_line(t2, "use service::"@, usecase_import(s, p))
    }
}

/// The import phase: the first import block where no handler is imported yet,
/// else the handler import after the last one (and, under richer wiring, the
/// layer imports).
pub open spec fn import_phase(t: Seq<char>, s: Seq<char>, p: Seq<char>, rich: bool) -> Seq<char> {
    if !has_sub(t, HANDLER_USE@) {
        replace_all(t, MOD_HANDLER@, bootstrap_imports(s, p, rich))
    } else {
        let t1 = after_last_line(t, HANDLER_USE@, handler_import(s, p) + "\n"@);
        if rich {
            layer_imports(t1, s, p)
        } else {
            t1
        }
    }
}

/// The placeholder entry function, from its attribute to its closing brace,
/// replaced by the synthesized one.
pub open spec fn main_phase(t: Seq<char>, s: Seq<char>, p: Seq<char>, rich: bool) -> Seq<char> {
    match find_from(t, "#[tokio::main]"@, 0) {
        Some(st) => match find_from(t, "\n}\n"@, st) {
            Some(e) => splice(t, st, e + 2, bootstrap_main(s, p, rich)),
            None => t,
        },
        None => t,
    }
}

/// The construction block, after the statement that holds the last
/// `let service`.
pub open spec fn construction_phase(t: Seq<char>, s: Seq<char>, p: Seq<char>) -> Seq<char> {
    match find_last(t, "let service"@) {
        Some(i) => match find_from(t, ";\n"@, i) {
            Some(j) => insert_at(t, j + 2, "\n"@ + construction_block(s, p) + "\n"@),
            None => t,
        },
        None => t,
    }
}

/// The documentation aggregate, after the last one declared.
pub open spec fn doc_var_phase(t: Seq<char>, s: Seq<char>, p: Seq<char>) -> Seq<char> {
    match find_last(t, "let openapi"@) {
        Some(i) => match find_from(t, "ApiDoc::openapi();"@, i) {
            Some(j) => insert_at(t, j + "ApiDoc::openapi();"@.len(), doc_var_decl(s, p)),
            None => t,
        },
        None => t,
    }
}

/// The variable declared by `let openapi...` at index `i`, if one starts there.
pub open spec fn doc_var_at(t: Seq<char>, i: int) -> Option<Seq<char>> {
    if occurs_at(t, "let openapi"@, i) {
        match find_from(t, " = "@, i) {
            Some(e) => if i + 4 <= e && occurs_at(t.subrange(i + 4, e), "openapi"@, 0) {
                Some(t.subrange(i + 4, e))
            } else {
                None
            },
            None => None,
        }
    } else {
        None
    }
}

/// The documentation aggregates declared at or after index `i`, in order.
pub open spec fn doc_vars_from(t: Seq<char>, i: int) -> Seq<Seq<char>>
    decreases t.len() - i,
{
    if i < 0 || i >= t.len() {
        Seq::empty()
    } else {
        match doc_var_at(t, i) {
            Some(v) => seq![v] + doc_vars_from(t, i + 1),
            None => doc_vars_from(t, i + 1),
        }
    }
}

/// The documentation name of the unsuffixed aggregate: its type name
/// (between `openapi = ` and `ApiDoc::openapi()`), lower-cased; `api` where
/// either is missing.
pub open spec fn first_doc_name(t: Seq<char>) -> Seq<char> {
    match find_from(t, "openapi = "@, 0) {
        Some(pos) => match find_from(t, "ApiDoc::openapi()"@, pos + "openapi = "@.len()) {
            Some(a) => lower_of(t.subrange(pos + "openapi = "@.len(), a)),
            None => "api"@,
        },
        None => "api"@,
    }
}

/// The documentation name of aggregate `v`.
pub open spec fn doc_name(t: Seq<char>, v: Seq<char>) -> Seq<char> {
    if v == "openapi"@ {
        first_doc_name(t)
    } else {
        replace_all(v, "openapi_"@, Seq::empty())
    }
}

/// One registration of a documentation aggregate.
pub open spec fn url_clause(t: Seq<char>, v: Seq<char>) -> Seq<char> {
    ".url(\"/api-docs/"@ + doc_name(t, v) + ".json\", "@ + v + ")"@
}

/// The registrations of `vars`, in order.
pub open spec fn url_list(t: Seq<char>, vars: Seq<Seq<char>>) -> Seq<char>
    decreases vars.len(),
{
    if vars.len() == 0 {
        Seq::empty()
    } else {
        url_clause(t, vars[0]) + url_list(t, vars.drop_first())
    }
}

/// The documentation-serving clause rebuilt from every declared aggregate,
/// in place of the prior one, once there is more than one aggregate.
pub open spec fn docs_phase(t: Seq<char>) -> Seq<char> {
    match find_from(t, SWAGGER_OPEN@, 0) {
        Some(st) => match find_from(t, "))"@, st) {
            Some(e) => {
                let vars = doc_vars_from(t, 0);
                if vars.len() > 1 {
                    splice(t, st, e + 2, SWAGGER_OPEN@ + url_list(t, vars) + ")"@)
                } else {
                    t
                }
            },
            None => t,
        },
        None => t,
    }
}

/// The route-merge clause, just before the documentation-serving clause of
/// the route table.
pub open spec fn route_phase(t: Seq<char>, s: Seq<char>, p: Seq<char>) -> Seq<char> {
    match find_from(t, "let app = Router::new()"@, 0) {
        Some(a) => match find_from(t, SWAGGER_MERGE@, a) {
            Some(w) => insert_at(t, w, route_clause(s, p)),
            None => t,
        },
        None => t,
    }
}

/// The whole edit for a component not yet woven into `t`.
pub open spec fn weave_text(t: Seq<char>, s: Seq<char>, p: Seq<char>, rich: bool) -> Seq<char> {
    let t1 = import_phase(t, s, p, rich);
    if has_sub(t, BANNER@) {
        main_phase(t1, s, p, rich)
    } else if rich {
        route_phase(docs_phase(doc_var_phase(construction_phase(t1, s, p), s, p)), s, p)
    } else {
        t1
    }
}

/// How a weave treats the document.
#[derive(PartialEq, Eq, Structural, Clone, Copy, Debug)]
pub enum WeaveMode {
    /// No handler was imported yet: the first import block is written.
    Bootstrap,
    /// Handlers are imported already: this one is added after them.
    Incremental,
}

/// The classification of document `t`.
pub open spec fn mode_of(t: Seq<char>) -> WeaveMode {
    if has_sub(t, HANDLER_USE@) {
        WeaveMode::Incremental
    } else {
        WeaveMode::Bootstrap
    }
}

/// What a weave produced.
pub enum Weave {
    /// The component's handler is imported already; nothing changes.
    AlreadyWoven,
    /// The component was woven in; `text` is the new document, and `missed`
    /// lists the phases that found no anchor and so changed nothing.
    Woven { mode: WeaveMode, text: String, missed: Vec<Phase> },
}

/// An edit step of a weave, as named in the report of missed anchors.
#[derive(PartialEq, Eq, Structural, Clone, Copy, Debug)]
pub enum Phase {
    /// The handler import (the module declaration, or the line end after
    /// the last handler import).
    Imports,
    /// The placeholder entry function (its attribute and closing brace).
    EntryFunction,
    /// The construction block (the last `let service` statement).
    Construction,
    /// The documentation aggregate (the last `let openapi` declaration).
    DocAggregate,
    /// The documentation-serving clause (its opening and `))`).
    DocsClause,
    /// The route-merge clause (the route table and the clause after it).
    Routes,
}

pub open spec fn import_anchor(t: Seq<char>) -> bool {
    if !has_sub(t, HANDLER_USE@) {
        has_sub(t, MOD_HANDLER@)
    } else {
        find_last(t, HANDLER_USE@) matches Some(i) && find_from(t, "\n"@, i) is Some
    }
}

pub open spec fn main_anchor(t: Seq<char>) -> bool {
    find_from(t, "#[tokio::main]"@, 0) matches Some(st) && find_from(t, "\n}\n"@, st) is Some
}

pub open spec fn construction_anchor(t: Seq<char>) -> bool {
    find_last(t, "let service"@) matches Some(i) && find_from(t, ";\n"@, i) is Some
}

pub open spec fn doc_var_anchor(t: Seq<char>) -> bool {
    find_last(t, "let openapi"@) matches Some(i) && find_from(t, "ApiDoc::openapi();"@, i) is Some
}

pub open spec fn docs_anchor(t: Seq<char>) -> bool {
    find_from(t, SWAGGER_OPEN@, 0) matches Some(st) && find_from(t, "))"@, st) is Some
}

pub open spec fn route_anchor(t: Seq<char>) -> bool {
    find_from(t, "let app = Router::new()"@, 0) matches Some(a) && find_from(t, SWAGGER_MERGE@, a)
        is Some
}

/// `seq![ph]` when `found` is false, else nothing.
pub open spec fn missed_if(found: bool, ph: Phase) -> Seq<Phase> {
    if found {
        Seq::empty()
    } else {
        seq![ph]
    }
}

/// The phases of the weave of a component into `t` that find no anchor, in
/// the order they run.
pub open spec fn misses_of(t: Seq<char>, s: Seq<char>, p: Seq<char>, rich: bool) -> Seq<Phase> {
    let m0 = missed_if(import_anchor(t), Phase::Imports);
    let t1 = import_phase(t, s, p, rich);
    if has_sub(t, BANNER@) {
        m0 + missed_if(main_anchor(t1), Phase::EntryFunction)
    } else if rich {
        let t2 = construction_phase(t1, s, p);
        let t3 = doc_var_phase(t2, s, p);
        let t4 = docs_phase(t3);
        m0 + missed_if(construction_anchor(t1), Phase::Construction) + missed_if(
            doc_var_anchor(t2),
            Phase::DocAggregate,
        ) + missed_if(docs_anchor(t3), Phase::DocsClause) + missed_if(
            route_anchor(t4),
            Phase::Routes,
        )
    } else {
        m0
    }
}

/// The outcome of weaving component `name` into document `t`: `None` when
/// it is woven already, else the mode and the new text.
pub open spec fn weave_of(t: Seq<char>, name: Seq<char>, rich: bool) -> Option<(WeaveMode, Seq<char>)> {
    if has_sub(t, handler_import(snake_of(name), pascal_of(name))) {
        None
    } else {
        Some((mode_of(t), weave_text(t, snake_of(name), pascal_of(name), rich)))
    }
}

/// The model of a `Weave`.
pub open spec fn weave_view(w: Weave) -> Option<(WeaveMode, Seq<char>)> {
    match w {
        Weave::AlreadyWoven => None,
        Weave::Woven { mode, text, .. } => Some((mode, text@)),
    }
}

// ----- executable texts -----

fn handler_import_exec(s: &Vec<char>, p: &Vec<char>) -> (r: Vec<char>)
    ensures
        r@ == handler_import(s@, p@),
{
    let mut r = chars_of("use handler::");
    push_chars(&mut r, s);
    push_str(&mut r, "_handler::{");
    push_chars(&mut r, p);
    push_str(&mut r, "Handler, ");
    push_chars(&mut r, p);
    push_str(&mut r, "ApiDoc};");
    r
}

fn factory_marker_exec(s: &Vec<char>) -> (r: Vec<char>)
    ensures
        r@ == factory_marker(s@),
{
    let mut r = chars_of("use factory::");
    push_chars(&mut r, s);
    push_str(&mut r, "_factory");
    r
}

fn factory_import_exec(s: &Vec<char>) -> (r: Vec<char>)
    ensures
        r@ == factory_import(s@),
{
    let mut r = chars_of("use factory::");
    push_chars(&mut r, s);
    push_str(&mut r, "_factory;\n");
    r
}

fn service_marker_exec(s: &Vec<char>) -> (r: Vec<char>)
    ensures
        r@ == service_marker(s@),
{
    let mut r = chars_of("use service::");
    push_chars(&mut r, s);
    push_str(&mut r, "_service");
    r
}

fn service_import_exec(s: &Vec<char>, p: &Vec<char>) -> (r: Vec<char>)
    ensures
        r@ == service_import(s@, p@),
{
    let mut r = chars_of("use service::");
    push_chars(&mut r, s);
    push_str(&mut r, "_service::");
    push_chars(&mut r, p);
    push_str(&mut r, "Service;\n");
    r
}

fn usecase_marker_exec(s: &Vec<char>) -> (r: Vec<char>)
    ensures
        r@ == usecase_marker(s@),
{
    let mut r = chars_of("use usecase::");
    push_chars(&mut r, s);
    push_str(&mut r, "_usecase");
    r
}

fn usecase_import_exec(s: &Vec<char>, p: &Vec<char>) -> (r: Vec<char>)
    ensures
        r@ == usecase_import(s@, p@),
{
    let mut r = chars_of("use usecase::");
    push_chars(&mut r, s);
    push_str(&mut r, "_usecase::");
    push_chars(&mut r, p);
    push_str(&mut r, "Usecase;\n");
    r
}

fn bootstrap_imports_exec(s: &Vec<char>, p: &Vec<char>, rich: bool) -> (r: Vec<char>)
    ensures
        r@ == bootstrap_imports(s@, p@, rich),
{
    let mut r = chars_of(IMPORTS_BASE);
    if rich {
        push_str(&mut r, IMPORTS_CONFIG);
        push_chars(&mut r, &factory_import_exec(s));
        push_chars(&mut r, &service_import_exec(s, p));
        push_chars(&mut r, &usecase_import_exec(s, p));
    }
    push_chars(&mut r, &handler_import_exec(s, p));
    r
}

fn construction_block_exec(s: &Vec<char>, p: &Vec<char>) -> (r: Vec<char>)
    ensures
        r@ == construction_block(s@, p@),
{
    let mut r = chars_of("    let repository_");
    push_chars(&mut r, s);
    push_str(&mut r, " = factory::");
    push_chars(&mut r, s);
    push_str(&mut r, "_factory::create_");
    push_chars(&mut r, s);
    push_str(&mut r, "_repository(&config).await?;\n    let usecase_");
    push_chars(&mut r, s);
    push_str(&mut r, " = Arc::new(usecase::");
    push_chars(&mut r, s);
    push_str(&mut r, "_usecase::");
    push_chars(&mut r, p);
    push_str(&mut r, "Usecase::new(repository_");
    push_chars(&mut r, s);
    push_str(&mut r, "));\n    let service_");
    push_chars(&mut r, s);
    push_str(&mut r, " = Arc::new(service::");
    push_chars(&mut r, s);
    push_str(&mut r, "_service::");
    push_chars(&mut r, p);
    push_str(&mut r, "Service::new(usecase_");
    push_chars(&mut r, s);
    push_str(&mut r, "));");
    r
}

fn route_clause_exec(s: &Vec<char>, p: &Vec<char>) -> (r: Vec<char>)
    ensures
        r@ == route_clause(s@, p@),
{
    let mut r = chars_of(".merge(");
    push_chars(&mut r, p);
    push_str(&mut r, "Handler::routes(service_");
    push_chars(&mut r, s);
    push_str(&mut r, "))\n        ");
    r
}

fn doc_var_decl_exec(s: &Vec<char>, p: &Vec<char>) -> (r: Vec<char>)
    ensures
        r@ == doc_var_decl(s@, p@),
{
    let mut r = chars_of("\n    let openapi_");
    push_chars(&mut r, s);
    push_str(&mut r, " = ");
    push_chars(&mut r, p);
    push_str(&mut r, "ApiDoc::openapi();");
    r
}

fn bootstrap_main_exec(s: &Vec<char>, p: &Vec<char>, rich: bool) -> (r: Vec<char>)
    ensures
        r@ == bootstrap_main(s@, p@, rich),
{
    let mut r = chars_of(MAIN_HEAD);
    if rich {
        push_str(&mut r, RICH_INIT);
        push_chars(&mut r, &construction_block_exec(s, p));
        push_str(&mut r, "\n    \n    // Merge OpenAPI docs\n    let openapi = ");
        push_chars(&mut r, p);
        push_str(&mut r, "ApiDoc::openapi();\n    \n    let app = Router::new()\n        ");
        push_chars(&mut r, &route_clause_exec(s, p));
        push_str(&mut r, SWAGGER_DEFAULT);
        push_str(&mut r, ";\n");
        push_str(&mut r, LISTEN_LINE);
        push_str(&mut r, DOCS_LINE);
        push_str(&mut r, MAIN_TAIL);
    } else {
        push_str(
            &mut r,
            "    println!(\"🚀 Starting API Server...\");\n    \n    // Initialize your services here\n    // Example:\n    // let config = config::database::DatabaseConfig::from_env();\n    // let repository = factory::",
        );
        push_chars(&mut r, s);
        push_str(&mut r, "_factory::create_");
        push_chars(&mut r, s);
        push_str(&mut r, "_repository(&config).await?;\n    // let usecase = Arc::new(usecase::");
        push_chars(&mut r, s);
        push_str(&mut r, "_usecase::");
        push_chars(&mut r, p);
        push_str(&mut r, "Usecase::new(repository));\n    // let service = Arc::new(service::");
        push_chars(&mut r, s);
        push_str(&mut r, "_service::");
        push_chars(&mut r, p);
        push_str(&mut r, "Service::new(usecase));\n    \n    let app = Router::new();\n        // .merge(");
        push_chars(&mut r, p);
        push_str(&mut r, "Handler::routes(service));\n");
        push_str(&mut r, LISTEN_LINE);
        push_str(&mut r, MAIN_TAIL);
    }
    r
}

// ----- executable phases -----

fn after_last_line_exec(t: Vec<char>, marker: &Vec<char>, ins: &Vec<char>) -> (r: Vec<char>)
    ensures
        r@ == after_last_line(t@, marker@, ins@),
{
    // Bounds the length of `t`, for the index arithmetic below.
    let _len = t.len();
    let nl = chars_of("\n");
    proof {
        reveal_strlit("\n");
    }
    match find_last_of(&t, marker) {
        Some(i) => match find(&t, &nl, i) {
            Some(j) => {
                proof {
                    lemma_find_from_bounds(t@, nl@, i as int);
                }
                splice_exec(&t, j + 1, j + 1, ins)
            },
            None => t,
        },
        None => t,
    }
}

fn layer_imports_exec(t: Vec<char>, s: &Vec<char>, p: &Vec<char>) -> (r: Vec<char>)
    ensures
        r@ == layer_imports(t@, s@, p@),
{
    let t1 = if contains(&t, &factory_marker_exec(s)) {
        t
    } else {
        after_last_line_exec(t, &chars_of(HANDLER_USE), &factory_import_exec(s))
    };
    let t2 = if contains(&t1, &service_marker_exec(s)) {
        t1
    } else {
        after_last_line_exec(t1, &chars_of("use factory::"), &service_import_exec(s, p))
    };
    if contains(&t2, &usecase_marker_exec(s)) {
        t2
    } else {
        after_last_line_exec(t2, &chars_of("use service::"), &usecase_import_exec(s, p))
    }
}

fn import_phase_exec(t: Vec<char>, s: &Vec<char>, p: &Vec<char>, rich: bool) -> (r: Vec<char>)
    ensures
        r@ == import_phase(t@, s@, p@, rich),
{
    let handler_use = chars_of(HANDLER_USE);
    if !contains(&t, &handler_use) {
        let module = chars_of(MOD_HANDLER);
        proof {
            reveal_strlit("mod handler;");
        }
        replace_all_exec(&t, &module, &bootstrap_imports_exec(s, p, rich))
    } else {
        let mut line = handler_import_exec(s, p);
        push_str(&mut line, "\n");
        let t1 = after_last_line_exec(t, &handler_use, &line);
        if rich {
            layer_imports_exec(t1, s, p)
        } else {
            t1
        }
    }
}

fn main_phase_exec(t: Vec<char>, s: &Vec<char>, p: &Vec<char>, rich: bool) -> (r: Vec<char>)
    ensures
        r@ == main_phase(t@, s@, p@, rich),
{
    // Bounds the length of `t`, for the index arithmetic below.
    let _len = t.len();
    let attr = chars_of("#[tokio::main]");
    let close = chars_of("\n}\n");
    proof {
        reveal_strlit("\n}\n");
    }
    match find(&t, &attr, 0) {
        Some(st) => match find(&t, &close, st) {
            Some(e) => {
                proof {
                    lemma_find_from_bounds(t@, close@, st as int);
                }
                splice_exec(&t, st, e + 2, &bootstrap_main_exec(s, p, rich))
            },
            None => t,
        },
        None => t,
    }
}

fn construction_phase_exec(t: Vec<char>, s: &Vec<char>, p: &Vec<char>) -> (r: Vec<char>)
    ensures
        r@ == construction_phase(t@, s@, p@),
{
    // Bounds the length of `t`, for the index arithmetic below.
    let _len = t.len();
    let end = chars_of(";\n");
    proof {
        reveal_strlit(";\n");
    }
    match find_last_of(&t, &chars_of("let service")) {
        Some(i) => match find(&t, &end, i) {
            Some(j) => {
                proof {
                    lemma_find_from_bounds(t@, end@, i as int);
                }
                let mut block = chars_of("\n");
                push_chars(&mut block, &construction_block_exec(s, p));
                push_str(&mut block, "\n");
                splice_exec(&t, j + 2, j + 2, &block)
            },
            None => t,
        },
        None => t,
    }
}

fn doc_var_phase_exec(t: Vec<char>, s: &Vec<char>, p: &Vec<char>) -> (r: Vec<char>)
    ensures
        r@ == doc_var_phase(t@, s@, p@),
{
    // Bounds the length of `t`, for the index arithmetic below.
    let _len = t.len();
    let end = chars_of("ApiDoc::openapi();");
    match find_last_of(&t, &chars_of("let openapi")) {
        Some(i) => match find(&t, &end, i) {
            Some(j) => {
                proof {
                    lemma_find_from_bounds(t@, end@, i as int);
                }
                splice_exec(&t, j + end.len(), j + end.len(), &doc_var_decl_exec(s, p))
            },
            None => t,
        },
        None => t,
    }
}

fn first_doc_name_exec(t: &Vec<char>) -> (r: Vec<char>)
    ensures
        r@ == first_doc_name(t@),
{
    let _len = t.len();
    let decl = chars_of("openapi = ");
    let call = chars_of("ApiDoc::openapi()");
    match find(t, &decl, 0) {
        Some(pos) => {
            proof {
                lemma_find_from_bounds(t@, decl@, 0);
            }
            let start = pos + decl.len();
            match find(t, &call, start) {
                Some(a) => {
                    proof {
                        lemma_find_from_bounds(t@, call@, start as int);
                    }
                    let word = slice_exec(t, start, a);
                    let lower = lowercase(string_of(&word).as_str());
                    chars_of(lower.as_str())
                },
                None => chars_of("api"),
            }
        },
        None => chars_of("api"),
    }
}

fn doc_name_exec(t: &Vec<char>, v: &Vec<char>) -> (r: Vec<char>)
    ensures
        r@ == doc_name(t@, v@),
{
    if same_chars(v, &chars_of("openapi")) {
        first_doc_name_exec(t)
    } else {
        let prefix = chars_of("openapi_");
        proof {
            reveal_strlit("openapi_");
        }
        replace_all_exec(v, &prefix, &Vec::new())
    }
}

fn url_clause_exec(t: &Vec<char>, v: &Vec<char>) -> (r: Vec<char>)
    ensures
        r@ == url_clause(t@, v@),
{
    let mut r = chars_of(".url(\"/api-docs/");
    push_chars(&mut r, &doc_name_exec(t, v));
    push_str(&mut r, ".json\", ");
    push_chars(&mut r, v);
    push_str(&mut r, ")");
    r
}

fn doc_var_at_exec(t: &Vec<char>, i: usize) -> (r: Option<Vec<char>>)
    ensures
        r matches Some(v) ==> doc_var_at(t@, i as int) == Some(v@),
        r is None ==> doc_var_at(t@, i as int) is None,
{
    if !matches_at(t, &chars_of("let openapi"), i) {
        return None;
    }
    let eq = chars_of(" = ");
    match find(t, &eq, i) {
        Some(e) => {
            proof {
                lemma_find_from_bounds(t@, eq@, i as int);
            }
            if e >= 4 && i <= e - 4 {
                let v = slice_exec(t, i + 4, e);
                if matches_at(&v, &chars_of("openapi"), 0) {
                    Some(v)
                } else {
                    None
                }
            } else {
                None
            }
        },
        None => None,
    }
}

/// The registrations of every declared documentation aggregate, and how many
/// aggregates there are.
fn doc_urls_exec(t: &Vec<char>) -> (r: (Vec<char>, usize))
    ensures
        r.0@ == url_list(t@, doc_vars_from(t@, 0)),
        r.1 == doc_vars_from(t@, 0).len(),
{
    let mut out: Vec<char> = Vec::new();
    let mut count: usize = 0;
    let mut i: usize = 0;
    while i < t.len()
        invariant
            i <= t.len(),
            count <= i,
            url_list(t@, doc_vars_from(t@, 0)) == out@ + url_list(t@, doc_vars_from(t@, i as int)),
            doc_vars_from(t@, 0).len() == count + doc_vars_from(t@, i as int).len(),
        decreases t.len() - i,
    {
        let ghost rest = doc_vars_from(t@, i + 1);
        match doc_var_at_exec(t, i) {
            Some(v) => {
                let ghost vars = seq![v@] + rest;
                assert(vars[0] == v@);
                assert(vars.drop_first() =~= rest);
                push_chars(&mut out, &url_clause_exec(t, &v));
                count = count + 1;
            },
            None => {},
        }
        i = i + 1;
    }
    assert(out@ + Seq::<char>::empty() =~= out@);
    (out, count)
}

fn docs_phase_exec(t: Vec<char>) -> (r: Vec<char>)
    ensures
        r@ == docs_phase(t@),
{
    // Bounds the length of `t`, for the index arithmetic below.
    let _len = t.len();
    let open = chars_of(SWAGGER_OPEN);
    let close = chars_of("))");
    proof {
        reveal_strlit("))");
    }
    match find(&t, &open, 0) {
        Some(st) => match find(&t, &close, st) {
            Some(e) => {
                proof {
                    lemma_find_from_bounds(t@, close@, st as int);
                }
                let (urls, count) = doc_urls_exec(&t);
                if count > 1 {
                    let mut clause = chars_of(SWAGGER_OPEN);
                    push_chars(&mut clause, &urls);
                    push_str(&mut clause, ")");
                    splice_exec(&t, st, e + 2, &clause)
                } else {
                    t
                }
            },
            None => t,
        },
        None => t,
    }
}

fn route_phase_exec(t: Vec<char>, s: &Vec<char>, p: &Vec<char>) -> (r: Vec<char>)
    ensures
        r@ == route_phase(t@, s@, p@),
{
    let merge = chars_of(SWAGGER_MERGE);
    match find(&t, &chars_of("let app = Router::new()"), 0) {
        Some(a) => match find(&t, &merge, a) {
            Some(w) => {
                proof {
                    lemma_find_from_bounds(t@, merge@, a as int);
                }
                splice_exec(&t, w, w, &route_clause_exec(s, p))
            },
            None => t,
        },
        None => t,
    }
}

/// Whether `a` occurs in `t` and `b` occurs from there on.
fn pair_found(t: &Vec<char>, a: &Vec<char>, b: &Vec<char>, last: bool) -> (r: bool)
    ensures
        last ==> r == (find_last(t@, a@) matches Some(i) && find_from(t@, b@, i) is Some),
        !last ==> r == (find_from(t@, a@, 0) matches Some(i) && find_from(t@, b@, i) is Some),
{
    let first = if last {
        find_last_of(t, a)
    } else {
        find(t, a, 0)
    };
    match first {
        Some(i) => find(t, b, i).is_some(),
        None => false,
    }
}

fn import_anchor_exec(t: &Vec<char>) -> (r: bool)
    ensures
        r == import_anchor(t@),
{
    let hu = chars_of(HANDLER_USE);
    if !contains(t, &hu) {
        contains(t, &chars_of(MOD_HANDLER))
    } else {
        pair_found(t, &hu, &chars_of("\n"), true)
    }
}

fn note_miss(missed: &mut Vec<Phase>, found: bool, ph: Phase)
    ensures
        final(missed)@ == old(missed)@ + missed_if(found, ph),
{
    if !found {
        missed.push(ph);
    }
    assert(final(missed)@ =~= old(missed)@ + missed_if(found, ph));
}

/// Weaves component `name` into the entry-point text `content`. `rich`
/// selects the richer wiring (construction, persistence, documentation
/// aggregation) over the minimal routing stub.
pub fn weave(content: &str, name: &str, rich: bool) -> (r: Weave)
    ensures
        weave_view(r) == weave_of(content@, name@, rich),
        r matches Weave::Woven { missed, .. } ==> missed@ == misses_of(
            content@,
            snake_of(name@),
            pascal_of(name@),
            rich,
        ),
{
    let snake = chars_of(to_snake_case(name).as_str());
    let pascal = chars_of(to_pascal_case(name).as_str());
    let t = chars_of(content);
    if contains(&t, &handler_import_exec(&snake, &pascal)) {
        return Weave::AlreadyWoven;
    }
    let mode = if contains(&t, &chars_of(HANDLER_USE)) {
        WeaveMode::Incremental
    } else {
        WeaveMode::Bootstrap
    };
    let banner = contains(&t, &chars_of(BANNER));
    let mut missed: Vec<Phase> = Vec::new();
    note_miss(&mut missed, import_anchor_exec(&t), Phase::Imports);
    let t1 = import_phase_exec(t, &snake, &pascal, rich);
    let out = if banner {
        let found = pair_found(&t1, &chars_of("#[tokio::main]"), &chars_of("\n}\n"), false);
        note_miss(&mut missed, found, Phase::EntryFunction);
        main_phase_exec(t1, &snake, &pascal, rich)
    } else if rich {
        let found = pair_found(&t1, &chars_of("let service"), &chars_of(";\n"), true);
        note_miss(&mut missed, found, Phase::Construction);
        let t2 = construction_phase_exec(t1, &snake, &pascal);
        let found = pair_found(&t2, &chars_of("let openapi"), &chars_of("ApiDoc::openapi();"), true);
        note_miss(&mut missed, found, Phase::DocAggregate);
        let t3 = doc_var_phase_exec(t2, &snake, &pascal);
        let found = pair_found(&t3, &chars_of(SWAGGER_OPEN), &chars_of("))"), false);
        note_miss(&mut missed, found, Phase::DocsClause);
        let t4 = docs_phase_exec(t3);
        let found = pair_found(&t4, &chars_of("let app = Router::new()"), &chars_of(SWAGGER_MERGE), false);
        note_miss(&mut missed, found, Phase::Routes);
        route_phase_exec(t4, &snake, &pascal)
    } else {
        t1
    };
    Weave::Woven { mode, text: string_of(&out), missed }
}

} // verus!
