//! Selects the generators that one request runs.
use vstd::prelude::*;
use crate::generator::{
    Templates, Step, StepModel, DbKind, GenError, plan_view, append_plan, db_kind_of, service,
    usecase, repository, data, adapter, handler, migration,
};
use crate::text::{lower_of, lowercase, chars_of, same_chars};
use vstd::string::*;

verus! {

/// What a request generates.
pub enum GenKind {
    Service,
    Usecase,
    Repository,
    Data,
    Handler,
    /// The adapter for one database kind, named in any letter case.
    Adapter(String),
    /// The adapters for every database kind.
    AdapterAll,
    Config,
    Factory,
    Example,
    /// Unit tests.
    Test,
    /// Integration tests.
    IntegrationTest,
    /// Unit and integration tests.
    AllTests,
    /// The migration for one database kind, named exactly.
    Migration(String),
    /// The migrations for every database kind.
    MigrationAll,
}

/// The plan of a request whose plan depends on nothing but the templates
/// and the name; `None` for the others.
pub open spec fn fixed_plan(kind: GenKind, t: Templates, name: Seq<char>) -> Option<Seq<StepModel>> {
    match kind {
        GenKind::Service => Some(service::plan(t.service@, name)),
        GenKind::Usecase => Some(usecase::plan(t.usecase@, name)),
        GenKind::Repository => Some(repository::plan(t.repository@, name)),
        GenKind::Data => Some(data::plan(t.data@, name)),
        GenKind::Handler => Some(handler::plan(t.handler@, name)),
        GenKind::AdapterAll => Some(adapter::all_adapters_plan(t, name)),
        GenKind::Config => Some(adapter::config_plan(t.config@, name)),
        GenKind::Factory => Some(adapter::factory_plan(t.factory@, name)),
        GenKind::Example => Some(adapter::usage_docs_plan(t, name)),
        GenKind::Test => Some(crate::generator::test::unit_tests_plan(t, name)),
        GenKind::IntegrationTest => Some(crate::generator::test::integration_tests_plan(t, name)),
        GenKind::AllTests => Some(crate::generator::test::unit_tests_plan(t, name) + crate::generator::test::integration_tests_plan(t, name)),
        _ => None,
    }
}

/// Whether `plan` holds, in order, one migration of `name` for each of `kinds`.
pub open spec fn migrations_of(plan: Seq<Step>, t: Templates, name: Seq<char>, kinds: Seq<DbKind>) -> bool {
    &&& plan.len() == kinds.len()
    &&& forall|i: int|
        0 <= i < kinds.len() ==> migration::is_migration(#[trigger] plan[i]@, t, name, kinds[i])
}

/// Runs the generator that `kind` selects for component `name`.
pub fn dispatch(kind: GenKind, templates: &Templates, name: &str) -> (r: Result<Vec<Step>, GenError>)
    ensures
        fixed_plan(kind, *templates, name@) matches Some(p) ==> (r matches Ok(plan) && plan_view(
            plan@,
        ) == p),
        kind matches GenKind::Adapter(db) ==> {
            &&& r is Ok <==> db_kind_of(lower_of(db@)) is Some
            &&& r matches Ok(plan) ==> (db_kind_of(lower_of(db@)) matches Some(k) && plan_view(
                plan@,
            ) == adapter::adapter_plan(*templates, name@, k))
            &&& r matches Err(e) ==> (e matches GenError::UnsupportedDatabase(d) && d@ == db@)
        },
        kind matches GenKind::Migration(db) ==> {
            &&& migration::migration_kinds(db@) is None ==> (r matches Err(e)
                && e matches GenError::UnknownDatabase(d) && d@ == db@)
            &&& r matches Ok(plan) ==> (migration::migration_kinds(db@) matches Some(kinds)
                && migrations_of(plan@, *templates, name@, kinds))
            &&& r matches Err(e) ==> ((e is ClockUnavailable && migration::migration_kinds(db@) is Some)
                || (e is UnknownDatabase && migration::migration_kinds(db@) is None))
        },
        kind is MigrationAll ==> {
            &&& r matches Ok(plan) ==> migrations_of(
                plan@,
                *templates,
                name@,
                seq![DbKind::Postgres, DbKind::Mysql, DbKind::Sqlite, DbKind::Mongodb],
            )
            &&& r matches Err(e) ==> e is ClockUnavailable
        },
{
    match kind {
        GenKind::Service => Ok(service::generate(templates, name)),
        GenKind::Usecase => Ok(usecase::generate(templates, name)),
        GenKind::Repository => Ok(repository::generate(templates, name)),
        GenKind::Data => Ok(data::generate(templates, name)),
        GenKind::Handler => Ok(handler::generate(templates, name)),
        GenKind::Adapter(db) => adapter::generate(templates, name, db.as_str()),
        GenKind::AdapterAll => Ok(adapter::generate_all(templates, name)),
        GenKind::Config => Ok(adapter::generate_config(templates, name)),
        GenKind::Factory => Ok(adapter::generate_factory(templates, name)),
        GenKind::Example => Ok(adapter::generate_usage_docs(templates, name)),
        GenKind::Test => Ok(crate::generator::test::generate_unit_tests(templates, name)),
        GenKind::IntegrationTest => Ok(crate::generator::test::generate_integration_tests(templates, name)),
        GenKind::AllTests => Ok(crate::generator::test::generate_all_tests(templates, name)),
        GenKind::Migration(db) => migration::generate_migration(templates, name, db.as_str()),
        GenKind::MigrationAll => {
            proof {
                reveal_all_kinds();
            }
            migration::generate_migration(templates, name, "all")
        },
    }
}

/// The request for adapters of `db_type`: every kind for `all` in any
/// letter case, else the kind it names.
pub fn adapter_request(db_type: &str) -> (r: GenKind)
    ensures
        lower_of(db_type@) == "all"@ ==> r is AdapterAll,
        lower_of(db_type@) != "all"@ ==> (r matches GenKind::Adapter(d) && d@ == db_type@),
{
    let lower = lowercase(db_type);
    if same_chars(&chars_of(lower.as_str()), &chars_of("all")) {
        GenKind::AdapterAll
    } else {
        GenKind::Adapter(String::from_str(db_type))
    }
}

/// The request for migrations of `db_type`: every kind for `all` in any
/// letter case, else the kind it names.
pub fn migration_request(db_type: &str) -> (r: GenKind)
    ensures
        lower_of(db_type@) == "all"@ ==> r is MigrationAll,
        lower_of(db_type@) != "all"@ ==> (r matches GenKind::Migration(d) && d@ == db_type@),
{
    let lower = lowercase(db_type);
    if same_chars(&chars_of(lower.as_str()), &chars_of("all")) {
        GenKind::MigrationAll
    } else {
        GenKind::Migration(String::from_str(db_type))
    }
}

/// `all` is none of the database kind names.
proof fn reveal_all_kinds()
    ensures
        migration::migration_kinds("all"@) == Some(
            seq![DbKind::Postgres, DbKind::Mysql, DbKind::Sqlite, DbKind::Mongodb],
        ),
{
    reveal_strlit("all");
    reveal_strlit("postgres");
    reveal_strlit("mysql");
    reveal_strlit("sqlite");
    reveal_strlit("mongodb");
    assert("all"@.len() != "postgres"@.len());
    assert("all"@ != "mysql"@) by {
        assert("all"@[0] != "mysql"@[0]);
    }
    assert("all"@.len() != "sqlite"@.len());
    assert("all"@.len() != "mongodb"@.len());
}

/// The plan of every layer of component `name`, up to its migrations.
pub open spec fn all_layers_plan(t: Templates, name: Seq<char>) -> Seq<StepModel> {
    service::plan(t.service@, name) + usecase::plan(t.usecase@, name) + repository::plan(
        t.repository@,
        name,
    ) + data::plan(t.data@, name) + handler::plan(t.handler@, name)
        + adapter::all_adapters_plan(t, name) + adapter::config_plan(t.config@, name)
        + adapter::factory_plan(t.factory@, name) + adapter::usage_docs_plan(t, name)
        + crate::generator::test::unit_tests_plan(t, name) + crate::generator::test::integration_tests_plan(t, name)
}

/// Every layer of component `name`: service, use-case, repository, data
/// model, handler, all adapters, configuration, factory, examples, tests,
/// and the migrations for every database kind, in that order. An error
/// only when the clock cannot name the migrations.
pub fn generate_all(templates: &Templates, name: &str) -> (r: Result<Vec<Step>, GenError>)
    ensures
        r matches Ok(plan) ==> {
            &&& plan@.len() == all_layers_plan(*templates, name@).len() + 4
            &&& plan_view(plan@.subrange(0, all_layers_plan(*templates, name@).len() as int))
                == all_layers_plan(*templates, name@)
            &&& migrations_of(
                plan@.subrange(all_layers_plan(*templates, name@).len() as int, plan@.len() as int),
                *templates,
                name@,
                seq![DbKind::Postgres, DbKind::Mysql, DbKind::Sqlite, DbKind::Mongodb],
            )
        },
        r matches Err(e) ==> e is ClockUnavailable,
{
    let mut r = service::generate(templates, name);
    append_plan(&mut r, usecase::generate(templates, name));
    append_plan(&mut r, repository::generate(templates, name));
    append_plan(&mut r, data::generate(templates, name));
    append_plan(&mut r, handler::generate(templates, name));
    append_plan(&mut r, adapter::generate_all(templates, name));
    append_plan(&mut r, adapter::generate_config(templates, name));
    append_plan(&mut r, adapter::generate_factory(templates, name));
    append_plan(&mut r, adapter::generate_usage_docs(templates, name));
    append_plan(&mut r, crate::generator::test::generate_all_tests(templates, name));
    let ghost layers = r@;
    assert(plan_view(layers) =~= all_layers_plan(*templates, name@));
    proof {
        reveal_all_kinds();
    }
    let migrations = migration::generate_migration(templates, name, "all")?;
    let ghost ms = migrations@;
    append_plan(&mut r, migrations);
    assert(r@.subrange(0, layers.len() as int) =~= layers);
    assert(r@.subrange(layers.len() as int, r@.len() as int) =~= ms);
    Ok(r)
}

} // verus!
