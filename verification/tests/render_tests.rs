use base64::Engine;
use natsforge::config::{
    JetStreamConfig, LeafNodeConfig, RemoteConfig, ServerConfig, SubjectTransformConfig, TlsConfig,
};
use natsforge::generate_server_config;
use natsforge::pipeline::build_resolver_preload;
use natsforge::extract_account_id;

fn fake_jwt(sub: &str) -> String {
    let mut claims = serde_json::Map::new();
    claims.insert(
        "sub".to_string(),
        serde_json::Value::String(sub.to_string()),
    );
    let body = serde_json::to_string(&serde_json::Value::Object(claims)).unwrap();
    format!(
        "eyJ0eXAiOiJKV1QifQ.{}.sig",
        base64::engine::general_purpose::STANDARD_NO_PAD.encode(body.as_bytes())
    )
}

fn plain_server(name: &str, port: u16, output_dir: &str) -> ServerConfig {
    ServerConfig {
        name: name.to_string(),
        port,
        jetstream: JetStreamConfig {
            enabled: false,
            store_dir: None,
            domain: None,
            max_memory: None,
            max_storage: None,
            subject_transform: None,
            republish: vec![],
        },
        leafnodes: LeafNodeConfig { port: None, remotes: vec![] },
        accounts: vec![],
        output_dir: output_dir.to_string(),
        tls: None,
        mappings: vec![],
    }
}

#[test]
fn renders_minimal_server_exactly() {
    let server = plain_server("main-server", 4222, "out");
    let text = generate_server_config(&server, "OPJWT", "SYSID", "", &vec![]);
    assert_eq!(
        text,
        "port: 4222\nserver_name: \"main-server\"\n\n\
         operator: \"OPJWT\"\nsystem_account: \"SYSID\"\nresolver: MEMORY\n"
    );
    assert!(text.contains("system_account:"));
    assert!(text.contains("port: 4222"));
    assert!(!text.contains("jetstream"));
}

#[test]
fn rendering_twice_is_byte_identical() {
    let mut server = plain_server("node", 4223, "out");
    server.jetstream = JetStreamConfig {
        enabled: true,
        store_dir: Some("store/js".to_string()),
        domain: Some("core".to_string()),
        max_memory: Some(1024 * 1024 * 1024),
        max_storage: Some(10 * 1024 * 1024 * 1024),
        subject_transform: Some(SubjectTransformConfig {
            src: "in.>".to_string(),
            dest: "out.>".to_string(),
        }),
        republish: vec![SubjectTransformConfig {
            src: "a.>".to_string(),
            dest: "b.>".to_string(),
        }],
    };
    server.tls = Some(TlsConfig {
        cert_file: "cert.pem".to_string(),
        key_file: "key.pem".to_string(),
        ca_file: Some("ca.pem".to_string()),
    });
    server.mappings = vec![SubjectTransformConfig {
        src: "old.>".to_string(),
        dest: "new.>".to_string(),
    }];
    let preload = "    K: \"V\"";
    let first = generate_server_config(&server, "OP", "SYS", preload, &vec![]);
    let second = generate_server_config(&server, "OP", "SYS", preload, &vec![]);
    assert_eq!(first, second);
    assert!(first.contains("jetstream"));
    assert!(first.contains("domain: \"core\""));
    assert!(first.contains("max_memory_store: 1073741824"));
    assert!(first.contains("max_file_store: 10737418240"));
    assert!(first.contains("subject_transform { src: \"in.>\", dest: \"out.>\" }"));
    assert!(first.contains("republish = ["));
    assert!(first.contains("tls {"));
    assert!(first.contains("ca_file: \"ca.pem\""));
    assert!(first.contains("mappings: {"));
    assert!(first.contains("    \"old.>\": \"new.>\",\n"));
    assert!(first.contains("resolver_preload: {\n    K: \"V\"\n}\n"));
}

#[test]
fn renders_leafnode_listen_port_block() {
    let mut server = plain_server("hub", 4222, "hub-output");
    server.leafnodes.port = Some(4248);
    let text = generate_server_config(&server, "OP", "SYS", "", &vec![]);
    assert!(text.contains("leafnodes {\n    port: 4248\n}"));
}

#[test]
fn renders_remotes_with_resolved_subject_id_and_local_credentials() {
    let sub = "ABCDEFGHIJKLMNOPQRSTUVWXYZ012345678901234567890123456A";
    let jwt = fake_jwt(sub);
    let mut server = plain_server("leaf", 4223, "leaf-output");
    server.leafnodes.remotes = vec![RemoteConfig {
        url: "nats://localhost:4248".to_string(),
        account: "app-service".to_string(),
        credentials: "app-service-service-user.creds".to_string(),
    }];
    let jwts = vec![("app-service".to_string(), jwt.clone())];
    let text = generate_server_config(&server, "OP", "SYS", "", &jwts);
    assert!(text.contains("remotes = ["));
    assert!(text.contains("url: \"nats://localhost:4248\""));
    let expected_account = format!("account: \"{}\"", sub);
    assert!(text.contains(&expected_account));
    assert!(text.contains(
        "credentials: \"leaf-output/app-service-service-user.creds\""
    ));
}

#[test]
fn decimal_rendering_handles_the_extremes() {
    assert_eq!(natsforge::strutil::i64_to_string(0), "0");
    assert_eq!(natsforge::strutil::i64_to_string(-1), "-1");
    assert_eq!(natsforge::strutil::i64_to_string(i64::MAX), "9223372036854775807");
    assert_eq!(natsforge::strutil::i64_to_string(i64::MIN), "-9223372036854775808");
}

#[test]
fn preload_keys_match_extraction() {
    let jwt_a = fake_jwt("AID1");
    let jwt_b = fake_jwt("AID2");
    let jwts = vec![
        ("A".to_string(), jwt_a.clone()),
        ("B".to_string(), jwt_b.clone()),
    ];
    let default_id = "DEFSYS".to_string();
    let default_jwt = fake_jwt("DEFSYS");
    let (entries, text) =
        build_resolver_preload(&jwts, &default_id, &default_jwt).expect("tokens are readable");
    // One entry per account plus the appended default system account.
    assert_eq!(entries.len(), 3);
    for (k, (_name, jwt)) in jwts.iter().enumerate() {
        assert_eq!(entries[k].0, extract_account_id(jwt).unwrap());
        assert_eq!(&entries[k].1, jwt);
    }
    assert_eq!(entries[2].0, "DEFSYS");
    let expected = format!(
        "    AID1: \"{}\"\n    AID2: \"{}\"\n    DEFSYS: \"{}\"",
        jwt_a, jwt_b, default_jwt
    );
    assert_eq!(text, expected);
}

#[test]
fn preload_does_not_duplicate_default_system_account() {
    let jwt_sys = fake_jwt("SYSID");
    let jwts = vec![("SYS".to_string(), jwt_sys.clone())];
    let default_id = "SYSID".to_string();
    let (entries, text) =
        build_resolver_preload(&jwts, &default_id, &jwt_sys).expect("token is readable");
    assert_eq!(entries.len(), 1);
    assert_eq!(text, format!("    SYSID: \"{}\"", jwt_sys));
}
