use rvy::context::Context;
use rvy::generator::dispatch::{adapter_request, dispatch, generate_all, migration_request, GenKind};
use rvy::generator::migration::{
    format_stamp, generate_migration, migration_present, generate_mongodb_setup, generate_postgres_migration,
    migration_for, Timestamp,
};
use rvy::generator::{
    adapter, append_unit_tests, data, handler, repository, service, update_module_exports,
    usecase, write_action, DbKind, GenError, Step, Templates, WriteAction,
};

fn templates() -> Templates {
    let t = |s: &str| s.to_string();
    Templates {
        service: t("service {{Name}}"),
        usecase: t("usecase {{name}}"),
        repository: t("repository {{Name}}"),
        data: t("data {{name}}"),
        handler: t("handler {{Name}}"),
        adapter_postgres: t("pg {{name}}"),
        adapter_mysql: t("my {{name}}"),
        adapter_mongodb: t("mongo {{name}}"),
        adapter_sqlite: t("lite {{name}}"),
        config: t("config {{Name}}"),
        factory: t("factory {{name}}"),
        example_main: t("example {{name}}"),
        example_usage: t("usage {{Name}}"),
        unit_test: t("#[cfg(test)]\nmod tests {} // {{name}}"),
        integration_test: t("integration {{Name}}"),
        test_common: t("common {{name}}"),
        migration_postgres: t("CREATE TABLE {{name}}s;"),
        migration_mysql: t("CREATE TABLE `{{name}}s`;"),
        migration_sqlite: t("CREATE TABLE {{name}}s ();"),
        migration_mongodb: t("db.createCollection(\"{{name}}s\")"),
        project_cargo: t("[package]\nname = \"{{package_name}}\""),
        project_main: t("mod handler;\nfn main() {}"),
        project_lib: t("pub mod {{name}};"),
    }
}

fn write(step: &Step) -> (&str, &str) {
    match step {
        Step::Write { path, content } => (path.as_str(), content.as_str()),
        _ => panic!("expected a write"),
    }
}

fn export(step: &Step) -> (&str, &str) {
    match step {
        Step::Export { index, module } => (index.as_str(), module.as_str()),
        _ => panic!("expected an export"),
    }
}

fn migration(step: &Step) -> (&str, &str) {
    match step {
        Step::Migration { file, content } => (file.as_str(), content.as_str()),
        _ => panic!("expected a migration"),
    }
}

#[test]
fn layer_generators_write_and_export() {
    let t = templates();
    let s = service::generate(&t, "order-item");
    assert_eq!(s.len(), 2);
    assert_eq!(write(&s[0]), ("src/service/order_item_service.rs", "service OrderItem"));
    assert_eq!(export(&s[1]), ("src/service/mod.rs", "order_item_service"));
    let u = usecase::generate(&t, "order");
    assert_eq!(write(&u[0]), ("src/usecase/order_usecase.rs", "usecase order"));
    assert_eq!(export(&u[1]), ("src/usecase/mod.rs", "order_usecase"));
    let r = repository::generate(&t, "order");
    assert_eq!(write(&r[0]), ("src/repository/order.rs", "repository Order"));
    assert_eq!(export(&r[1]), ("src/repository/mod.rs", "order"));
    let d = data::generate(&t, "order");
    assert_eq!(write(&d[0]), ("src/data/order_data.rs", "data order"));
    assert_eq!(export(&d[1]), ("src/data/mod.rs", "order_data"));
}

#[test]
fn handler_generator_weaves() {
    let h = handler::generate(&templates(), "order");
    assert_eq!(h.len(), 3);
    assert_eq!(write(&h[0]), ("src/handler/order_handler.rs", "handler Order"));
    assert_eq!(export(&h[1]), ("src/handler/mod.rs", "order_handler"));
    assert!(matches!(&h[2], Step::Weave { name } if name == "order"));
}

#[test]
fn adapter_kind_is_case_insensitive() {
    let t = templates();
    let a = match adapter::generate(&t, "order", "PostGres") {
        Ok(plan) => plan,
        Err(_) => panic!("postgres is supported"),
    };
    assert_eq!(write(&a[0]), ("src/adapter/order_postgres.rs", "pg order"));
    assert_eq!(export(&a[1]), ("src/adapter/mod.rs", "order_postgres"));
}

#[test]
fn adapter_kind_unsupported() {
    match adapter::generate(&templates(), "order", "oracle") {
        Err(GenError::UnsupportedDatabase(d)) => assert_eq!(d, "oracle"),
        _ => panic!("oracle is not supported"),
    }
}

#[test]
fn adapters_for_every_kind() {
    let a = adapter::generate_all(&templates(), "order");
    let paths: Vec<&str> = a.iter().step_by(2).map(|s| write(s).0).collect();
    assert_eq!(
        paths,
        vec![
            "src/adapter/order_postgres.rs",
            "src/adapter/order_mysql.rs",
            "src/adapter/order_mongodb.rs",
            "src/adapter/order_sqlite.rs"
        ]
    );
}

#[test]
fn config_factory_and_docs() {
    let t = templates();
    let c = adapter::generate_config(&t, "order");
    assert_eq!(write(&c[0]), ("src/config/database.rs", "config Order"));
    assert_eq!(export(&c[1]), ("src/config/mod.rs", "database"));
    let f = adapter::generate_factory(&t, "order");
    assert_eq!(write(&f[0]), ("src/factory/order_factory.rs", "factory order"));
    assert_eq!(export(&f[1]), ("src/factory/mod.rs", "order_factory"));
    let e = adapter::generate_usage_docs(&t, "order");
    assert_eq!(write(&e[0]), ("examples/order_example.rs", "example order"));
    assert_eq!(write(&e[1]), ("docs/order_USAGE.md", "usage Order"));
}

#[test]
fn test_generators() {
    let t = templates();
    let all = rvy::generator::test::generate_all_tests(&t, "order");
    assert_eq!(all.len(), 2);
    assert!(matches!(&all[0], Step::AppendTests { path, content }
        if path == "src/service/order_service.rs" && content == "#[cfg(test)]\nmod tests {} // order"));
    assert!(matches!(&all[1], Step::IntegrationTests { path, content, common }
        if path == "tests/order_test.rs" && content == "integration Order" && common == "common order"));
}

#[test]
fn stamp_is_fourteen_digits() {
    let ts = Timestamp { year: 2024, month: 1, day: 2, hour: 3, minute: 4, second: 5 };
    assert_eq!(format_stamp(&ts), "20240102030405");
    let early = Timestamp { year: 987, month: 12, day: 31, hour: 23, minute: 59, second: 59 };
    assert_eq!(format_stamp(&early), "09871231235959");
}

#[test]
fn stamp_signs_years_outside_four_digits() {
    let late = Timestamp { year: 12345, month: 6, day: 7, hour: 8, minute: 9, second: 10 };
    assert_eq!(format_stamp(&late), "+123450607080910");
    let before = Timestamp { year: -44, month: 3, day: 15, hour: 12, minute: 0, second: 0 };
    assert_eq!(format_stamp(&before), "-00440315120000");
}

#[test]
fn migration_file_names() {
    let t = templates();
    let ts = Timestamp { year: 2024, month: 1, day: 2, hour: 3, minute: 4, second: 5 };
    let m = migration_for(&t, "order", DbKind::Postgres, &ts);
    assert_eq!(migration(&m), ("20240102030405_create_orders_table_postgres.sql", "CREATE TABLE orders;"));
    let m = migration_for(&t, "order", DbKind::Mysql, &ts);
    assert_eq!(migration(&m), ("20240102030405_create_orders_table_mysql.sql", "CREATE TABLE `orders`;"));
    let m = migration_for(&t, "order-item", DbKind::Sqlite, &ts);
    assert_eq!(migration(&m).0, "20240102030405_create_order_items_table_sqlite.sql");
    let m = generate_mongodb_setup(&t, "order");
    assert_eq!(migration(&m), ("setup_orders_collection.rs", "db.createCollection(\"orders\")"));
}

#[test]
fn migration_now_is_stamped() {
    let m = generate_postgres_migration(&templates(), "order").ok().unwrap();
    let (file, _) = migration(&m);
    assert!(file.ends_with("_create_orders_table_postgres.sql"));
    let stamp = &file[..14];
    assert!(stamp.chars().all(|c| c.is_ascii_digit()));
}

#[test]
fn migration_kinds() {
    let t = templates();
    match generate_migration(&t, "order", "all") {
        Ok(plan) => {
            assert_eq!(plan.len(), 4);
            assert!(migration(&plan[0]).0.ends_with("_postgres.sql"));
            assert!(migration(&plan[1]).0.ends_with("_mysql.sql"));
            assert!(migration(&plan[2]).0.ends_with("_sqlite.sql"));
            assert_eq!(migration(&plan[3]).0, "setup_orders_collection.rs");
        }
        Err(_) => panic!("all is accepted"),
    }
    match generate_migration(&t, "order", "Postgres") {
        Err(GenError::UnknownDatabase(d)) => assert_eq!(d, "Postgres"),
        _ => panic!("kinds are matched exactly"),
    }
}

#[test]
fn dispatch_selects_generators() {
    let t = templates();
    let plan = dispatch(GenKind::Data, &t, "order").ok().unwrap();
    assert_eq!(write(&plan[0]).0, "src/data/order_data.rs");
    assert!(dispatch(GenKind::Adapter("redis".to_string()), &t, "order").is_err());
    assert!(dispatch(GenKind::Migration("redis".to_string()), &t, "order").is_err());
    assert_eq!(dispatch(GenKind::MigrationAll, &t, "order").ok().unwrap().len(), 4);
}

#[test]
fn generate_all_runs_every_layer() {
    let plan = generate_all(&templates(), "order").ok().unwrap();
    // service, usecase, repository, data: 2 each; handler: 3; adapters: 8;
    // config, factory: 2 each; examples: 2; tests: 2; migrations: 4.
    assert_eq!(plan.len(), 8 + 3 + 8 + 2 + 2 + 2 + 2 + 4);
    assert_eq!(write(&plan[0]).0, "src/service/order_service.rs");
    assert!(matches!(&plan[10], Step::Weave { .. }));
    assert!(matches!(&plan[plan.len() - 1], Step::Migration { .. }));
}

#[test]
fn write_policy() {
    let ctx = |dry_run, force| Context { dry_run, force, is_new_all: false };
    assert_eq!(write_action(&ctx(true, false), true), WriteAction::Preview);
    assert_eq!(write_action(&ctx(true, true), false), WriteAction::Preview);
    assert_eq!(write_action(&ctx(false, false), true), WriteAction::Skip);
    assert_eq!(write_action(&ctx(false, true), true), WriteAction::Write);
    assert_eq!(write_action(&ctx(false, false), false), WriteAction::Write);
}

#[test]
fn exports_at_extension_point() {
    let ctx = Context { dry_run: false, force: false, is_new_all: false };
    let index = "pub mod a;\n// Add your modules here\n";
    assert_eq!(
        update_module_exports(&ctx, index, "order_service").unwrap(),
        "pub mod a;\npub mod order_service;\n// Add your modules here\n"
    );
}

#[test]
fn exports_appended_and_idempotent() {
    let ctx = Context { dry_run: false, force: false, is_new_all: false };
    let once = update_module_exports(&ctx, "  pub mod a;\n\n", "b").unwrap();
    assert_eq!(once, "pub mod a;\npub mod b;\n");
    assert_eq!(update_module_exports(&ctx, &once, "b"), None);
    assert_eq!(update_module_exports(&ctx, "", "b").unwrap(), "\npub mod b;\n");
    let dry = Context { dry_run: true, force: false, is_new_all: false };
    assert_eq!(update_module_exports(&dry, "", "b"), None);
}

#[test]
fn unit_tests_appended() {
    let keep = Context { dry_run: false, force: false, is_new_all: false };
    let force = Context { dry_run: false, force: true, is_new_all: false };
    let dry = Context { dry_run: true, force: true, is_new_all: false };
    assert_eq!(append_unit_tests(&dry, "fn x() {}\n", "#[cfg(test)]\nmod t {}"), None);
    assert_eq!(
        append_unit_tests(&keep, "fn x() {}\n", "#[cfg(test)]\nmod t {}").unwrap(),
        "fn x() {}\n\n\n#[cfg(test)]\nmod t {}"
    );
    assert_eq!(append_unit_tests(&keep, "fn x() {}\n\n#[cfg(test)]\nmod old {}", "#[cfg(test)]\nmod t {}"), None);
    assert_eq!(
        append_unit_tests(&force, "fn x() {}\n\n#[cfg(test)]\nmod old {}", "#[cfg(test)]\nmod t {}").unwrap(),
        "fn x() {}\n\n#[cfg(test)]\nmod t {}"
    );
}

#[test]
fn project_skeleton() {
    let plan = rvy::generator::project::generate(&templates(), "my-shop");
    assert_eq!(plan.len(), 11);
    assert_eq!(write(&plan[0]), ("my-shop/Cargo.toml", "[package]\nname = \"my-shop\""));
    assert_eq!(write(&plan[1]), ("my-shop/src/main.rs", "mod handler;\nfn main() {}"));
    assert_eq!(write(&plan[2]), ("my-shop/src/lib.rs", "pub mod my_shop;"));
    assert_eq!(write(&plan[3]), ("my-shop/src/service/mod.rs", "// Add your modules here\n"));
    assert_eq!(write(&plan[10]), ("my-shop/src/handler/mod.rs", "// Add your modules here\n"));
}

#[test]
fn all_requests_select_every_kind() {
    assert!(matches!(adapter_request("ALL"), GenKind::AdapterAll));
    assert!(matches!(adapter_request("mysql"), GenKind::Adapter(d) if d == "mysql"));
    assert!(matches!(migration_request("All"), GenKind::MigrationAll));
    assert!(matches!(migration_request("sqlite"), GenKind::Migration(d) if d == "sqlite"));
}

#[test]
fn error_messages_name_the_kind() {
    assert_eq!(
        GenError::UnsupportedDatabase("oracle".to_string()).message(),
        "Unsupported database type 'oracle' (supported types: postgres, mysql, mongodb, sqlite)"
    );
    assert_eq!(
        GenError::UnknownDatabase("redis".to_string()).message(),
        "Unknown database type: redis (supported types: postgres, mysql, sqlite, mongodb, all)"
    );
}

#[test]
fn hyphenated_names_give_snake_paths() {
    let t = templates();
    let h = handler::generate(&t, "order-item");
    assert_eq!(write(&h[0]), ("src/handler/order_item_handler.rs", "handler OrderItem"));
    assert_eq!(export(&h[1]), ("src/handler/mod.rs", "order_item_handler"));
    assert!(matches!(&h[2], Step::Weave { name } if name == "order-item"));
    assert_eq!(write(&repository::generate(&t, "order-item")[0]).0, "src/repository/order_item.rs");
    assert_eq!(export(&repository::generate(&t, "order-item")[1]).1, "order_item");
    assert_eq!(write(&usecase::generate(&t, "order-item")[0]).0, "src/usecase/order_item_usecase.rs");
    assert_eq!(write(&data::generate(&t, "order-item")[0]).0, "src/data/order_item_data.rs");
    assert_eq!(write(&adapter::generate_factory(&t, "order-item")[0]).0, "src/factory/order_item_factory.rs");
    let a = adapter::generate(&t, "order-item", "mysql").ok().unwrap();
    assert_eq!(write(&a[0]).0, "src/adapter/order_item_mysql.rs");
    assert_eq!(export(&a[1]).1, "order_item_mysql");
    let m = generate_mongodb_setup(&t, "order-item");
    assert_eq!(migration(&m), ("setup_order_items_collection.rs", "db.createCollection(\"order_items\")"));
}

#[test]
fn exports_compare_whole_lines() {
    let ctx = Context { dry_run: false, force: false, is_new_all: false };
    assert_eq!(
        update_module_exports(&ctx, "// pub mod a;\n", "a").unwrap(),
        "// pub mod a;\npub mod a;\n"
    );
    assert_eq!(update_module_exports(&ctx, "pub mod a;\npub mod b;", "b"), None);
    assert_eq!(
        update_module_exports(&ctx, "pub mod ab;\n", "b").unwrap(),
        "pub mod ab;\npub mod b;\n"
    );
}

#[test]
fn earlier_migrations_count_whatever_their_stamp() {
    let existing = vec![
        "20240102030405_create_orders_table_postgres.sql".to_string(),
        "setup_orders_collection.rs".to_string(),
    ];
    assert!(migration_present(&existing, "20991231235959_create_orders_table_postgres.sql"));
    assert!(!migration_present(&existing, "20991231235959_create_orders_table_mysql.sql"));
    assert!(!migration_present(&existing, "20991231235959_create_big_orders_table_postgres.sql"));
    assert!(migration_present(&existing, "setup_orders_collection.rs"));
    assert!(!migration_present(&existing, "setup_invoices_collection.rs"));
    assert!(!migration_present(&Vec::new(), "setup_orders_collection.rs"));
}

#[test]
fn clock_error_message() {
    assert_eq!(GenError::ClockUnavailable.message(), "The system clock cannot name a migration");
}
