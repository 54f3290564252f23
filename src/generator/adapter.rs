//! Database adapters, configuration, repository factory and usage examples
//! of a component.
use vstd::prelude::*;
use vstd::string::*;
use crate::generator::{
    snake_of, to_snake_case,
    Templates, Step, StepModel, DbKind, GenError, render, render_of, plan_view, write_and_export,
    write_and_export_exec, append_plan, db_name, db_name_exec, db_kind, db_kind_of,
};
use crate::text::{lower_of, lowercase};

verus! {

/// The adapter template for database kind `k`.
pub open spec fn adapter_template(t: Templates, k: DbKind) -> Seq<char> {
    match k {
        DbKind::Postgres => t.adapter_postgres@,
        DbKind::Mysql => t.adapter_mysql@,
        DbKind::Mongodb => t.adapter_mongodb@,
        DbKind::Sqlite => t.adapter_sqlite@,
    }
}

/// The plan for the adapter of component `name` on database kind `k`.
pub open spec fn adapter_plan(t: Templates, name: Seq<char>, k: DbKind) -> Seq<StepModel> {
    write_and_export(
        "src/adapter/"@ + snake_of(name) + "_"@ + db_name(k) + ".rs"@,
        render_of(adapter_template(t, k), name),
        "src/adapter/mod.rs"@,
        snake_of(name) + "_"@ + db_name(k),
    )
}

/// Renders the adapter of component `name` for database kind `k`.
pub fn generate_for(templates: &Templates, name: &str, k: DbKind) -> (r: Vec<Step>)
    ensures
        plan_view(r@) == adapter_plan(*templates, name@, k),
{
    let template = match k {
        DbKind::Postgres => &templates.adapter_postgres,
        DbKind::Mysql => &templates.adapter_mysql,
        DbKind::Mongodb => &templates.adapter_mongodb,
        DbKind::Sqlite => &templates.adapter_sqlite,
    };
    let content = render(template.as_str(), name);
    let db = db_name_exec(k);
    let snake = to_snake_case(name);
    let mut module = String::from_str(snake.as_str());
    module.append("_");
    module.append(db);
    let mut path = String::from_str("src/adapter/");
    path.append(module.as_str());
    path.append(".rs");
    assert(path@ =~= "src/adapter/"@ + snake_of(name@) + "_"@ + db_name(k) + ".rs"@);
    write_and_export_exec(path, content, "src/adapter/mod.rs", module)
}

/// The adapter of component `name` for the database kind `db_type` names,
/// in any letter case; an unsupported kind is an error.
pub fn generate(templates: &Templates, name: &str, db_type: &str) -> (r: Result<Vec<Step>, GenError>)
    ensures
        r matches Ok(plan) ==> (db_kind_of(lower_of(db_type@)) matches Some(k) && plan_view(plan@)
            == adapter_plan(*templates, name@, k)),
        r matches Err(e) ==> db_kind_of(lower_of(db_type@)) is None && (e matches GenError::UnsupportedDatabase(d) && d@ == db_type@),
        db_kind_of(lower_of(db_type@)) is Some ==> r is Ok,
{
    let lower = lowercase(db_type);
    match db_kind(lower.as_str()) {
        Some(k) => Ok(generate_for(templates, name, k)),
        None => Err(GenError::UnsupportedDatabase(String::from_str(db_type))),
    }
}

/// The plan for the adapters of every database kind.
pub open spec fn all_adapters_plan(t: Templates, name: Seq<char>) -> Seq<StepModel> {
    adapter_plan(t, name, DbKind::Postgres) + adapter_plan(t, name, DbKind::Mysql) + adapter_plan(
        t,
        name,
        DbKind::Mongodb,
    ) + adapter_plan(t, name, DbKind::Sqlite)
}

/// The adapters of component `name` for postgres, mysql, mongodb and sqlite.
pub fn generate_all(templates: &Templates, name: &str) -> (r: Vec<Step>)
    ensures
        plan_view(r@) == all_adapters_plan(*templates, name@),
{
    let mut r = generate_for(templates, name, DbKind::Postgres);
    append_plan(&mut r, generate_for(templates, name, DbKind::Mysql));
    append_plan(&mut r, generate_for(templates, name, DbKind::Mongodb));
    append_plan(&mut r, generate_for(templates, name, DbKind::Sqlite));
    r
}

/// The plan for the database configuration.
pub open spec fn config_plan(template: Seq<char>, name: Seq<char>) -> Seq<StepModel> {
    write_and_export(
        "src/config/database.rs"@,
        render_of(template, name),
        "src/config/mod.rs"@,
        "database"@,
    )
}

/// Renders the database configuration into `src/config/database.rs` and
/// declares it.
pub fn generate_config(templates: &Templates, name: &str) -> (r: Vec<Step>)
    ensures
        plan_view(r@) == config_plan(templates.config@, name@),
{
    let content = render(templates.config.as_str(), name);
    write_and_export_exec(
        String::from_str("src/config/database.rs"),
        content,
        "src/config/mod.rs",
        String::from_str("database"),
    )
}

/// The plan for the repository factory of component `name`.
pub open spec fn factory_plan(template: Seq<char>, name: Seq<char>) -> Seq<StepModel> {
    write_and_export(
        "src/factory/"@ + snake_of(name) + "_factory.rs"@,
        render_of(template, name),
        "src/factory/mod.rs"@,
        snake_of(name) + "_factory"@,
    )
}

/// Renders the repository factory into `src/factory/<snake>_factory.rs` and
/// declares it.
pub fn generate_factory(templates: &Templates, name: &str) -> (r: Vec<Step>)
    ensures
        plan_view(r@) == factory_plan(templates.factory@, name@),
{
    let content = render(templates.factory.as_str(), name);
    let snake = to_snake_case(name);
    let mut path = String::from_str("src/factory/");
    path.append(snake.as_str());
    path.append("_factory.rs");
    let mut module = String::from_str(snake.as_str());
    module.append("_factory");
    write_and_export_exec(path, content, "src/factory/mod.rs", module)
}

/// The plan for the usage example and usage documentation of `name`.
pub open spec fn usage_docs_plan(t: Templates, name: Seq<char>) -> Seq<StepModel> {
    seq![
        StepModel::Write {
            path: "examples/"@ + snake_of(name) + "_example.rs"@,
            content: render_of(t.example_main@, name),
        },
        StepModel::Write {
            path: "docs/"@ + snake_of(name) + "_USAGE.md"@,
            content: render_of(t.example_usage@, name),
        },
    ]
}

/// Renders the usage example into `examples/<snake>_example.rs` and the usage
/// documentation into `docs/<snake>_USAGE.md`.
pub fn generate_usage_docs(templates: &Templates, name: &str) -> (r: Vec<Step>)
    ensures
        plan_view(r@) == usage_docs_plan(*templates, name@),
{
    let main_content = render(templates.example_main.as_str(), name);
    let snake = to_snake_case(name);
    let mut main_path = String::from_str("examples/");
    main_path.append(snake.as_str());
    main_path.append("_example.rs");
    let doc_content = render(templates.example_usage.as_str(), name);
    let mut doc_path = String::from_str("docs/");
    doc_path.append(snake.as_str());
    doc_path.append("_USAGE.md");
    let mut r: Vec<Step> = Vec::new();
    r.push(Step::Write { path: main_path, content: main_content });
    r.push(Step::Write { path: doc_path, content: doc_content });
    assert(plan_view(r@) =~= usage_docs_plan(*templates, name@));
    r
}

} // verus!
