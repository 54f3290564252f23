use rvy::context::Context;
use rvy::generator::handler::update_main_router;
use rvy::weaver::{weave, Phase, Weave, WeaveMode};

const SKELETON: &str =
    "mod handler;\n\n#[tokio::main]\nasync fn main() {\n    println!(\"🚀 Welcome to shop!\");\n}\n";

fn woven(content: &str, name: &str, rich: bool) -> (WeaveMode, String) {
    match weave(content, name, rich) {
        Weave::Woven { mode, text, .. } => (mode, text),
        Weave::AlreadyWoven => panic!("expected a weave of {}", name),
    }
}

fn count(text: &str, pat: &str) -> usize {
    text.matches(pat).count()
}

fn pos(text: &str, pat: &str) -> usize {
    text.find(pat).unwrap_or_else(|| panic!("missing {:?}", pat))
}

/// The route-table expression: from its constructor to the end of the statement.
fn route_table(text: &str) -> String {
    let start = pos(text, "let app = Router::new()");
    let end = start + text[start..].find(";\n").unwrap();
    text[start..end].to_string()
}

#[test]
fn bootstrap_rich_builds_one_component() {
    let (mode, text) = woven(SKELETON, "order", true);
    assert_eq!(mode, WeaveMode::Bootstrap);
    assert!(text.contains(
        "    let repository_order = factory::order_factory::create_order_repository(&config).await?;\n"
    ));
    assert!(text.contains(
        "    let usecase_order = Arc::new(usecase::order_usecase::OrderUsecase::new(repository_order));\n"
    ));
    assert!(text.contains(
        "    let service_order = Arc::new(service::order_service::OrderService::new(usecase_order));\n"
    ));
    assert!(pos(&text, "let repository_order") < pos(&text, "let usecase_order"));
    assert!(pos(&text, "let usecase_order") < pos(&text, "let service_order"));
    assert_eq!(count(&text, "let openapi"), 1);
    assert!(text.contains("    let openapi = OrderApiDoc::openapi();\n"));
    assert_eq!(
        route_table(&text),
        "let app = Router::new()\n        .merge(OrderHandler::routes(service_order))\n        .merge(SwaggerUi::new(\"/swagger-ui\").url(\"/api-docs/openapi.json\", openapi))"
    );
    assert!(!text.contains("Welcome"));
    assert!(text.contains("use handler::order_handler::{OrderHandler, OrderApiDoc};"));
    assert!(text.contains("use factory::order_factory;\nuse service::order_service::OrderService;\nuse usecase::order_usecase::OrderUsecase;\n"));
}

#[test]
fn bootstrap_rich_exact_head() {
    let (_, text) = woven(SKELETON, "order", true);
    let expected_head = "mod handler;\n\nuse axum::Router;\nuse std::sync::Arc;\nuse tokio::net::TcpListener;\nuse utoipa::OpenApi;\nuse utoipa_swagger_ui::SwaggerUi;\n\nuse config::database::DatabaseConfig;\nuse factory::order_factory;\nuse service::order_service::OrderService;\nuse usecase::order_usecase::OrderUsecase;\nuse handler::order_handler::{OrderHandler, OrderApiDoc};\n\n\n#[tokio::main]\nasync fn main() -> Result<(), Box<dyn std::error::Error>> {\n";
    assert!(text.starts_with(expected_head));
    assert!(text.ends_with("    Ok(())\n}\n\n"));
}

#[test]
fn two_components_rich() {
    let (_, one) = woven(SKELETON, "order", true);
    let (mode, two) = woven(&one, "invoice", true);
    assert_eq!(mode, WeaveMode::Incremental);
    assert_eq!(count(&two, "let openapi"), 2);
    assert!(two.contains("    let openapi = OrderApiDoc::openapi();\n    let openapi_invoice = InvoiceApiDoc::openapi();"));
    assert_eq!(
        route_table(&two),
        "let app = Router::new()\n        .merge(OrderHandler::routes(service_order))\n        .merge(InvoiceHandler::routes(service_invoice))\n        .merge(SwaggerUi::new(\"/swagger-ui\").url(\"/api-docs/order.json\", openapi).url(\"/api-docs/invoice.json\", openapi_invoice))"
    );
    assert!(two.contains(
        "    let repository_invoice = factory::invoice_factory::create_invoice_repository(&config).await?;\n    let usecase_invoice = Arc::new(usecase::invoice_usecase::InvoiceUsecase::new(repository_invoice));\n    let service_invoice = Arc::new(service::invoice_service::InvoiceService::new(usecase_invoice));"
    ));
    assert!(two.contains("use handler::order_handler::{OrderHandler, OrderApiDoc};\nuse handler::invoice_handler::{InvoiceHandler, InvoiceApiDoc};\nuse factory::invoice_factory;\nuse service::invoice_service::InvoiceService;\nuse usecase::invoice_usecase::InvoiceUsecase;\n"));
}

#[test]
fn weaving_twice_changes_nothing() {
    let (_, once) = woven(SKELETON, "order", true);
    assert!(matches!(weave(&once, "order", true), Weave::AlreadyWoven));
    let (_, two) = woven(&once, "invoice", true);
    assert!(matches!(weave(&two, "invoice", true), Weave::AlreadyWoven));
    assert!(matches!(weave(&two, "order", false), Weave::AlreadyWoven));
    let (_, minimal) = woven(SKELETON, "order", false);
    assert!(matches!(weave(&minimal, "order", false), Weave::AlreadyWoven));
}

#[test]
fn three_components_keep_arrival_order() {
    let (_, one) = woven(SKELETON, "order", true);
    let (_, two) = woven(&one, "invoice", true);
    let (_, three) = woven(&two, "line-item", true);
    let imports = [
        "use handler::order_handler::{OrderHandler, OrderApiDoc};",
        "use handler::invoice_handler::{InvoiceHandler, InvoiceApiDoc};",
        "use handler::line_item_handler::{LineItemHandler, LineItemApiDoc};",
    ];
    assert!(pos(&three, imports[0]) < pos(&three, imports[1]));
    assert!(pos(&three, imports[1]) < pos(&three, imports[2]));
    assert!(pos(&three, "let service_order") < pos(&three, "let service_invoice"));
    assert!(pos(&three, "let service_invoice") < pos(&three, "let service_line_item"));
    assert!(pos(&three, "let openapi = ") < pos(&three, "let openapi_invoice"));
    assert!(pos(&three, "let openapi_invoice") < pos(&three, "let openapi_line_item"));
    assert_eq!(
        route_table(&three),
        "let app = Router::new()\n        .merge(OrderHandler::routes(service_order))\n        .merge(InvoiceHandler::routes(service_invoice))\n        .merge(LineItemHandler::routes(service_line_item))\n        .merge(SwaggerUi::new(\"/swagger-ui\").url(\"/api-docs/order.json\", openapi).url(\"/api-docs/invoice.json\", openapi_invoice).url(\"/api-docs/line_item.json\", openapi_line_item))"
    );
    for element in [
        "use handler::order_handler::{OrderHandler, OrderApiDoc};",
        "    let repository_invoice = factory::invoice_factory::create_invoice_repository(&config).await?;\n    let usecase_invoice = Arc::new(usecase::invoice_usecase::InvoiceUsecase::new(repository_invoice));\n    let service_invoice = Arc::new(service::invoice_service::InvoiceService::new(usecase_invoice));",
        "    let openapi_invoice = InvoiceApiDoc::openapi();",
        ".merge(InvoiceHandler::routes(service_invoice))\n        ",
    ] {
        assert!(two.contains(element));
        assert!(three.contains(element));
    }
}

#[test]
fn docs_clause_stays_last() {
    let mut text = woven(SKELETON, "alpha", true).1;
    for name in ["beta", "gamma", "delta"] {
        text = woven(&text, name, true).1;
        let table = route_table(&text);
        let docs = pos(&table, ".merge(SwaggerUi::");
        assert!(table[docs..].find(".merge(").unwrap() == 0);
        assert_eq!(count(&table[docs..], ".merge("), 1);
    }
}

#[test]
fn first_documentation_name_is_the_whole_type_name() {
    let (_, one) = woven(SKELETON, "order-item", true);
    let (_, two) = woven(&one, "invoice", true);
    assert!(two.contains(".url(\"/api-docs/orderitem.json\", openapi).url(\"/api-docs/invoice.json\", openapi_invoice))"));
}

#[test]
fn bootstrap_minimal_is_a_stub() {
    let (mode, text) = woven(SKELETON, "order", false);
    assert_eq!(mode, WeaveMode::Bootstrap);
    assert!(text.contains("    let app = Router::new();\n        // .merge(OrderHandler::routes(service));\n"));
    assert!(text.contains("    // let repository = factory::order_factory::create_order_repository(&config).await?;\n"));
    assert!(!text.contains("use factory::"));
    assert!(!text.contains("SwaggerUi::new"));
    assert!(text.starts_with("mod handler;\n\nuse axum::Router;\nuse std::sync::Arc;\nuse tokio::net::TcpListener;\nuse utoipa::OpenApi;\nuse utoipa_swagger_ui::SwaggerUi;\nuse handler::order_handler::{OrderHandler, OrderApiDoc};\n"));
}

#[test]
fn incremental_minimal_adds_the_import_only() {
    let (_, one) = woven(SKELETON, "order", false);
    let (mode, two) = woven(&one, "invoice", false);
    assert_eq!(mode, WeaveMode::Incremental);
    let expected = one.replace(
        "use handler::order_handler::{OrderHandler, OrderApiDoc};\n",
        "use handler::order_handler::{OrderHandler, OrderApiDoc};\nuse handler::invoice_handler::{InvoiceHandler, InvoiceApiDoc};\n",
    );
    assert_eq!(two, expected);
}

#[test]
fn missing_anchors_leave_text_alone() {
    let (mode, text) = woven("fn main() {}\n", "order", true);
    assert_eq!(mode, WeaveMode::Bootstrap);
    assert_eq!(text, "fn main() {}\n");
}

#[test]
fn dry_run_reports_and_writes_nothing() {
    let dry = Context { dry_run: true, force: false, is_new_all: true };
    let real = Context { dry_run: false, force: false, is_new_all: true };
    let a = update_main_router(&dry, SKELETON, "order");
    let b = update_main_router(&real, SKELETON, "order");
    assert!(!a.write);
    assert!(b.write);
    match (a.outcome, b.outcome) {
        (Weave::Woven { mode: m1, text: t1, .. }, Weave::Woven { mode: m2, text: t2, .. }) => {
            assert_eq!(m1, m2);
            assert_eq!(t1, t2);
        }
        _ => panic!("both runs weave"),
    }
    let (_, once) = woven(SKELETON, "order", true);
    let again = update_main_router(&real, &once, "order");
    assert!(!again.write);
    assert!(matches!(again.outcome, Weave::AlreadyWoven));
}

#[test]
fn woven_only_by_the_exact_import() {
    let (_, one) = woven(SKELETON, "x_handler_y", false);
    let (mode, two) = woven(&one, "x", false);
    assert_eq!(mode, WeaveMode::Incremental);
    assert!(two.contains(
        "use handler::x_handler_y_handler::{XHandlerYHandler, XHandlerYApiDoc};\nuse handler::x_handler::{XHandler, XApiDoc};\n"
    ));
    assert!(matches!(weave(&two, "x", false), Weave::AlreadyWoven));
}

#[test]
fn missed_anchors_are_reported() {
    match weave("fn main() {}\n", "order", true) {
        Weave::Woven { missed, .. } => assert_eq!(
            missed,
            vec![Phase::Imports, Phase::Construction, Phase::DocAggregate, Phase::DocsClause, Phase::Routes]
        ),
        Weave::AlreadyWoven => panic!("not woven yet"),
    }
    match weave(SKELETON, "order", true) {
        Weave::Woven { missed, .. } => assert!(missed.is_empty()),
        Weave::AlreadyWoven => panic!("not woven yet"),
    }
    let (_, one) = woven(SKELETON, "order", true);
    match weave(&one, "invoice", true) {
        Weave::Woven { missed, .. } => assert!(missed.is_empty()),
        Weave::AlreadyWoven => panic!("not woven yet"),
    }
    match weave("mod handler;\n#[tokio::main]\nfn main() { println!(\"🚀 Welcome\"); }", "order", false) {
        Weave::Woven { missed, .. } => assert_eq!(missed, vec![Phase::EntryFunction]),
        Weave::AlreadyWoven => panic!("not woven yet"),
    }
}
