use base64::Engine;
use natsforge::config::{
    AccountConfig, ExportConfig, JetStreamConfig, LeafNodeConfig, NatsConfig, OperatorConfig,
    RemoteConfig, ServerConfig, UserConfig,
};
use natsforge::distribute::{plan_credential_distribution, plan_jwt_replication};
use natsforge::errors::ForgeError;
use natsforge::forge::{account_creation_ops, import_wiring_ops, plan_deployment};
use natsforge::issuer::{expiry_date_arg, issuer_args, IssuerOp};
use natsforge::normalize::normalize_config;
use natsforge::pipeline::{build_resolver_preload, synthesize_server_config, system_account_id_for};
use natsforge::extract_account_id;

fn fake_jwt(sub: &str) -> String {
    let mut claims = serde_json::Map::new();
    claims.insert(
        "sub".to_string(),
        serde_json::Value::String(sub.to_string()),
    );
    let body = serde_json::to_string(&serde_json::Value::Object(claims)).unwrap();
    format!(
        "eyJ0eXAiOiJKV1QifQ.{}.sig",
        base64::engine::general_purpose::STANDARD_NO_PAD.encode(body.as_bytes())
    )
}

fn no_jetstream() -> JetStreamConfig {
    JetStreamConfig {
        enabled: false,
        store_dir: None,
        domain: None,
        max_memory: None,
        max_storage: None,
        subject_transform: None,
        republish: vec![],
    }
}

fn sys_account() -> AccountConfig {
    AccountConfig {
        name: "SYS".to_string(),
        users: vec![],
        is_system_account: true,
        unique_name: "SYS-unique".to_string(),
        max_connections: None,
        max_payload: None,
        exports: vec![],
        imports: vec![],
    }
}

#[test]
fn scenario_single_server_with_system_and_app_accounts() {
    // One server, accounts SYS (system) and APP with limits, an export and
    // one user; expect one operator artifact, two account tokens, one
    // credential bundle, and a config that names the system account and the
    // port but no jetstream block.
    let app_account = AccountConfig {
        name: "APP".to_string(),
        users: vec![UserConfig {
            name: "app-user".to_string(),
            allowed_subjects: vec!["app.>".to_string()],
            denied_subjects: vec![],
            expiry: None,
        }],
        is_system_account: false,
        unique_name: "APP-unique".to_string(),
        max_connections: Some(5),
        max_payload: Some(1048576),
        exports: vec![ExportConfig { subject: "app.data".to_string(), is_service: false }],
        imports: vec![],
    };
    let accounts = vec![sys_account(), app_account];
    let dirs = vec!["test-output-basic".to_string(), "test-output-basic".to_string()];

    let plan = plan_deployment(&accounts, &dirs).expect("valid deployment must plan");
    assert_eq!(plan.creation_order.len(), 2);

    // The designated system account is minted by the issuer itself, so the
    // account phase creates only APP, encodes its limits, adds its export,
    // and issues its one user.
    let add_accounts: Vec<&IssuerOp> = plan
        .account_ops
        .iter()
        .filter(|op| matches!(op, IssuerOp::AddAccount { .. }))
        .collect();
    assert_eq!(add_accounts.len(), 1);
    assert!(matches!(
        add_accounts[0],
        IssuerOp::AddAccount { unique_name } if unique_name == "APP-unique"
    ));
    assert!(plan.account_ops.iter().any(|op| matches!(
        op,
        IssuerOp::EditAccountLimits { max_connections: Some(5), max_payload: Some(1048576), .. }
    )));
    assert!(plan.account_ops.iter().any(|op| matches!(
        op,
        IssuerOp::AddExport { subject, .. } if subject == "app.data"
    )));
    let creds_ops: Vec<&IssuerOp> = plan
        .account_ops
        .iter()
        .filter(|op| matches!(op, IssuerOp::GenerateCreds { .. }))
        .collect();
    assert_eq!(creds_ops.len(), 1);
    assert!(matches!(
        creds_ops[0],
        IssuerOp::GenerateCreds { output_file, .. }
            if output_file == "test-output-basic/APP-app-user.creds"
    ));
    assert!(plan.import_ops.is_empty());

    // Simulate the issuer: one token per account.
    let sys_jwt = fake_jwt("SYSACCOUNTID");
    let app_jwt = fake_jwt("APPACCOUNTID");
    let jwts = vec![
        ("SYS".to_string(), sys_jwt.clone()),
        ("APP".to_string(), app_jwt.clone()),
    ];

    let server = ServerConfig {
        name: "main-server".to_string(),
        port: 4222,
        jetstream: no_jetstream(),
        leafnodes: LeafNodeConfig { port: None, remotes: vec![] },
        accounts,
        output_dir: "test-output-basic".to_string(),
        tls: None,
        mappings: vec![],
    };

    // Every server receives every account token.
    let replication = plan_jwt_replication(&vec![server.clone()], &jwts);
    assert_eq!(replication.len(), 2);
    assert!(replication.iter().any(|c| c.file_name == "SYS.jwt" && c.content == sys_jwt));
    assert!(replication.iter().any(|c| c.file_name == "APP.jwt" && c.content == app_jwt));

    let sys_id = system_account_id_for(&server, &jwts, &"FALLBACK".to_string()).unwrap();
    assert_eq!(sys_id, "SYSACCOUNTID");

    let (_entries, preload) =
        build_resolver_preload(&jwts, &sys_id, &sys_jwt).expect("tokens are readable");
    let operator_jwt = fake_jwt("OPERATORID");
    let text =
        synthesize_server_config(&server, &operator_jwt, &sys_id, &preload, &jwts).unwrap();
    assert!(text.contains("system_account:"));
    assert!(text.contains("port: 4222"));
    assert!(!text.contains("jetstream"));
    assert!(text.contains("system_account: \"SYSACCOUNTID\""));
}

#[test]
fn scenario_hub_and_leaf_with_remote_credentials() {
    // Two servers: a hub listening for leafnodes on 4248 and a leaf whose
    // remote dials the hub presenting a produced credential bundle.
    let sub: String = {
        let mut s = String::from("A");
        while s.len() < 56 {
            s.push('B');
        }
        s
    };
    assert_eq!(sub.len(), 56);
    let service_jwt = fake_jwt(&sub);
    let jwts = vec![("app-service".to_string(), service_jwt.clone())];

    let hub = ServerConfig {
        name: "hub".to_string(),
        port: 4222,
        jetstream: no_jetstream(),
        leafnodes: LeafNodeConfig { port: Some(4248), remotes: vec![] },
        accounts: vec![],
        output_dir: "hub-output".to_string(),
        tls: None,
        mappings: vec![],
    };
    let leaf = ServerConfig {
        name: "leaf".to_string(),
        port: 4223,
        jetstream: no_jetstream(),
        leafnodes: LeafNodeConfig {
            port: None,
            remotes: vec![RemoteConfig {
                url: "nats://localhost:4248".to_string(),
                account: "app-service".to_string(),
                credentials: "app-service-service-user.creds".to_string(),
            }],
        },
        accounts: vec![],
        output_dir: "leaf-output".to_string(),
        tls: None,
        mappings: vec![],
    };
    let servers = vec![hub.clone(), leaf.clone()];

    // Distribution: the produced bundle must land, byte for byte, in the
    // leaf's output location.
    let bundle = "-----BEGIN NATS USER JWT-----\nabc\n------END NATS USER JWT------\n";
    let produced = vec![("app-service-service-user.creds".to_string(), bundle.to_string())];
    let copies = plan_credential_distribution(&servers, &produced).expect("bundle exists");
    assert_eq!(copies.len(), 1);
    assert_eq!(copies[0].server_index, 1);
    assert_eq!(copies[0].file_name, "app-service-service-user.creds");
    assert_eq!(copies[0].content, bundle);

    let operator_jwt = fake_jwt("OPERATORID");
    let sys_id = "FALLBACKSYS".to_string();
    let empty_preload = String::new();
    let hub_text =
        synthesize_server_config(&hub, &operator_jwt, &sys_id, &empty_preload, &jwts).unwrap();
    let leaf_text =
        synthesize_server_config(&leaf, &operator_jwt, &sys_id, &empty_preload, &jwts).unwrap();
    assert!(hub_text.contains("port: 4222"));
    assert!(hub_text.contains("leafnodes {\n    port: 4248\n}"));
    assert!(leaf_text.contains("port: 4223"));
    assert!(leaf_text.contains("remotes = ["));
    assert!(leaf_text.contains("url: \"nats://localhost:4248\""));
    assert!(leaf_text.contains("credentials: \"leaf-output/app-service-service-user.creds\""));

    // The rendered account reference is the resolved 56-character subject
    // id, starting with 'A', of uppercase letters and digits.
    let start = leaf_text.find("account: \"").unwrap() + 10;
    let end = leaf_text[start..].find('"').unwrap() + start;
    let account_id = &leaf_text[start..end];
    assert_eq!(account_id, sub.as_str());
    assert!(account_id.starts_with('A'));
    assert_eq!(account_id.len(), 56);
    assert!(account_id.chars().all(|c| c.is_ascii_uppercase() || c.is_ascii_digit()));
    assert_eq!(account_id, extract_account_id(&service_jwt).unwrap());
}

#[test]
fn missing_credential_is_reported() {
    let leaf = ServerConfig {
        name: "leaf".to_string(),
        port: 4223,
        jetstream: no_jetstream(),
        leafnodes: LeafNodeConfig {
            port: None,
            remotes: vec![RemoteConfig {
                url: "nats://localhost:4248".to_string(),
                account: "app-service".to_string(),
                credentials: "nobody-made-this.creds".to_string(),
            }],
        },
        accounts: vec![],
        output_dir: "leaf-output".to_string(),
        tls: None,
        mappings: vec![],
    };
    let err = plan_credential_distribution(&vec![leaf], &vec![]).unwrap_err();
    match err {
        ForgeError::MissingCredential { remote } => {
            assert_eq!(remote, "nobody-made-this.creds")
        },
        other => panic!("expected MissingCredential, got {:?}", other),
    }
}

#[test]
fn unknown_remote_account_is_reported() {
    let leaf = ServerConfig {
        name: "leaf".to_string(),
        port: 4223,
        jetstream: no_jetstream(),
        leafnodes: LeafNodeConfig {
            port: None,
            remotes: vec![RemoteConfig {
                url: "nats://localhost:4248".to_string(),
                account: "ghost".to_string(),
                credentials: "x.creds".to_string(),
            }],
        },
        accounts: vec![],
        output_dir: "leaf-output".to_string(),
        tls: None,
        mappings: vec![],
    };
    let err = synthesize_server_config(
        &leaf,
        &"OP".to_string(),
        &"SYS".to_string(),
        &"".to_string(),
        &vec![],
    )
    .unwrap_err();
    match err {
        ForgeError::UnknownRemoteAccount { server, account } => {
            assert_eq!(server, "leaf");
            assert_eq!(account, "ghost");
        },
        other => panic!("expected UnknownRemoteAccount, got {:?}", other),
    }
}

#[test]
fn issuer_arguments_are_rendered_exactly() {
    let store = "/tmp/store".to_string();
    let init = IssuerOp::InitOperator { name: "op-1".to_string() };
    assert_eq!(
        issuer_args(&init, &store),
        vec!["init", "--name", "op-1", "--dir", "/tmp/store", "--data-dir", "/tmp/store"]
    );
    let edit = IssuerOp::EditAccountLimits {
        unique_name: "APP-unique".to_string(),
        max_connections: Some(5),
        max_payload: Some(1048576),
    };
    assert_eq!(
        issuer_args(&edit, &store),
        vec![
            "edit",
            "account",
            "--name",
            "APP-unique",
            "--data-dir",
            "/tmp/store",
            "--conns",
            "5",
            "--data",
            "1048576"
        ]
    );
    let user = IssuerOp::AddUser {
        account: "APP-unique".to_string(),
        name: "app-user".to_string(),
        allowed_subjects: vec!["app.>".to_string(), "evt.>".to_string()],
        denied_subjects: vec!["forbidden.>".to_string()],
        expiry: Some("2025-12-31T23:59:59Z".to_string()),
    };
    assert_eq!(
        issuer_args(&user, &store),
        vec![
            "add",
            "user",
            "--name",
            "app-user",
            "--account",
            "APP-unique",
            "--data-dir",
            "/tmp/store",
            "--allow-pubsub",
            "app.>,evt.>",
            "--deny-pubsub",
            "forbidden.>",
            "--expiry",
            "2025-12-31"
        ]
    );
}

#[test]
fn negative_limits_are_rendered_with_their_sign() {
    let store = "/s".to_string();
    let edit = IssuerOp::EditAccountLimits {
        unique_name: "A".to_string(),
        max_connections: Some(-1),
        max_payload: Some(-1),
    };
    assert_eq!(
        issuer_args(&edit, &store),
        vec!["edit", "account", "--name", "A", "--data-dir", "/s", "--conns", "-1", "--data", "-1"]
    );
}

#[test]
fn expiry_is_truncated_to_its_day() {
    assert_eq!(expiry_date_arg(&"2025-12-31T23:59:59Z".to_string()), "2025-12-31");
    assert_eq!(expiry_date_arg(&"2025-12-31".to_string()), "2025-12-31");
}

#[test]
fn import_wiring_targets_the_exporting_account() {
    let exporter = AccountConfig {
        name: "CORE".to_string(),
        users: vec![],
        is_system_account: false,
        unique_name: "CORE-unique".to_string(),
        max_connections: None,
        max_payload: None,
        exports: vec![ExportConfig { subject: "core.events".to_string(), is_service: true }],
        imports: vec![],
    };
    let importer = AccountConfig {
        name: "EDGE".to_string(),
        users: vec![],
        is_system_account: false,
        unique_name: "EDGE-unique".to_string(),
        max_connections: None,
        max_payload: None,
        exports: vec![],
        imports: vec![natsforge::config::ImportConfig {
            subject: "core.events".to_string(),
            account: "CORE".to_string(),
            local_subject: Some("local.events".to_string()),
            service: true,
        }],
    };
    let accounts = vec![exporter, importer];
    let ops = import_wiring_ops(&accounts);
    assert_eq!(ops.len(), 1);
    match &ops[0] {
        IssuerOp::AddImport { name, account, src_account, subject, local_subject, service } => {
            assert_eq!(name, "import-0");
            assert_eq!(account, "EDGE-unique");
            assert_eq!(src_account, "CORE-unique");
            assert_eq!(subject, "core.events");
            assert_eq!(local_subject.as_deref(), Some("local.events"));
            assert!(*service);
        },
        other => panic!("expected AddImport, got {:?}", other),
    }

    // In a full plan, wiring comes strictly after the account phase, so
    // both ends of the edge exist before it runs.
    let dirs = vec!["out".to_string(), "out".to_string()];
    let plan = plan_deployment(&accounts, &dirs).unwrap();
    assert!(plan.account_ops.iter().all(|op| !matches!(op, IssuerOp::AddImport { .. })));
    assert_eq!(plan.import_ops.len(), 1);
    // The exporter is created before the importer.
    let order: Vec<usize> = plan.creation_order.clone();
    let pos_core = order.iter().position(|&i| i == 0).unwrap();
    let pos_edge = order.iter().position(|&i| i == 1).unwrap();
    assert!(pos_core < pos_edge);
}

#[test]
fn account_phase_skips_only_the_designated_system_account() {
    let ops = account_creation_ops(&sys_account(), &"out".to_string());
    assert!(ops.is_empty());

    let mut named_sys = sys_account();
    named_sys.is_system_account = false;
    let ops = account_creation_ops(&named_sys, &"out".to_string());
    assert_eq!(ops.len(), 1);
    assert!(matches!(&ops[0], IssuerOp::AddAccount { unique_name } if unique_name == "SYS-unique"));
}

#[test]
fn normalization_assigns_unique_names_and_discriminates_the_operator() {
    let config = NatsConfig {
        name: Some("basic-setup".to_string()),
        operator: OperatorConfig { name: "test-operator".to_string(), reuse_existing: false },
        servers: vec![ServerConfig {
            name: "main-server".to_string(),
            port: 4222,
            jetstream: no_jetstream(),
            leafnodes: LeafNodeConfig { port: None, remotes: vec![] },
            accounts: vec![
                AccountConfig {
                    name: "APP".to_string(),
                    users: vec![],
                    is_system_account: false,
                    unique_name: "".to_string(),
                    max_connections: None,
                    max_payload: None,
                    exports: vec![],
                    imports: vec![],
                },
                AccountConfig {
                    name: "KEEP".to_string(),
                    users: vec![],
                    is_system_account: false,
                    unique_name: "fixed-name".to_string(),
                    max_connections: None,
                    max_payload: None,
                    exports: vec![],
                    imports: vec![],
                },
            ],
            output_dir: "out".to_string(),
            tls: None,
            mappings: vec![],
        }],
    };
    let normalized = normalize_config(config);
    assert!(normalized.operator.name.starts_with("test-operator-"));
    assert!(normalized.operator.name.len() > "test-operator-".len());
    let accounts = &normalized.servers[0].accounts;
    assert!(accounts[0].unique_name.starts_with("APP-"));
    assert!(accounts[0].unique_name.len() > "APP-".len());
    assert_eq!(accounts[1].unique_name, "fixed-name");
    assert_eq!(normalized.servers[0].name, "main-server");
    assert_eq!(normalized.servers[0].port, 4222);

    // Two runs draw different discriminators.
    let config2 = NatsConfig {
        name: None,
        operator: OperatorConfig { name: "test-operator".to_string(), reuse_existing: false },
        servers: vec![],
    };
    let n2 = normalize_config(config2);
    assert_ne!(n2.operator.name, normalized.operator.name);
}

#[test]
fn system_account_falls_back_to_the_deployment_default() {
    let server = ServerConfig {
        name: "s".to_string(),
        port: 4222,
        jetstream: no_jetstream(),
        leafnodes: LeafNodeConfig { port: None, remotes: vec![] },
        accounts: vec![],
        output_dir: "out".to_string(),
        tls: None,
        mappings: vec![],
    };
    let id = system_account_id_for(&server, &vec![], &"DEFAULT".to_string()).unwrap();
    assert_eq!(id, "DEFAULT");
}
