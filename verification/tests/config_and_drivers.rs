use revolt_core::drivers::{
    connect_reference, if_false, if_option_false, prefix_keys, test_database, unset_paths, ConnectStep, Database,
    DatabaseInfo,
};
use revolt_core::settings::{
    Api, ApiRegistration, ApiSecurity, ApiSecurityCaptcha, ApiSmtp, ApiUsers, ApiWorkers, FeaturesAdvanced, Hosts,
    PreflightWarning, PushApn, PushFcm, PushVapid, Pushd, production_flag,
};

fn s(v: &str) -> String {
    v.to_string()
}

fn pushd(production: bool) -> Pushd {
    Pushd {
        production,
        exchange: s("revolt.notifications"),
        mass_mention_chunk_size: 200,
        message_queue: s("notifications.origin.message"),
        mass_mention_queue: s("notifications.origin.mass_mention"),
        fr_accepted_queue: s("notifications.ingest.fr_accepted"),
        fr_received_queue: s("notifications.ingest.fr_received"),
        generic_queue: s("notifications.ingest.generic"),
        ack_queue: s("notifications.process.ack"),
        vapid: PushVapid { queue: s("v"), private_key: s(""), public_key: s("") },
        fcm: PushFcm {
            queue: s("f"),
            key_type: s(""),
            project_id: s(""),
            private_key_id: s(""),
            private_key: s(""),
            client_email: s(""),
            client_id: s(""),
            auth_uri: s(""),
            token_uri: s(""),
            auth_provider_x509_cert_url: s(""),
            client_x509_cert_url: s(""),
        },
        apn: PushApn { queue: s("a"), sandbox: false, pkcs8: s(""), key_id: s(""), team_id: s("") },
    }
}

fn hosts(api: &str) -> Hosts {
    Hosts {
        app: s(""),
        api: s(api),
        events: s(""),
        autumn: s(""),
        january: s(""),
        voso_legacy: s(""),
        voso_legacy_ws: s(""),
    }
}

fn api(smtp_host: &str, hcaptcha_key: &str) -> Api {
    Api {
        registration: ApiRegistration { invite_only: false },
        smtp: ApiSmtp {
            host: s(smtp_host),
            username: s(""),
            password: s(""),
            from_address: s(""),
            reply_to: None,
            port: None,
            use_tls: None,
            use_starttls: None,
        },
        security: ApiSecurity {
            authifier_shield_key: s(""),
            voso_legacy_token: s(""),
            captcha: ApiSecurityCaptcha { hcaptcha_key: s(hcaptcha_key), hcaptcha_sitekey: s("") },
            trust_cloudflare: false,
            easypwned: s(""),
            tenor_key: s(""),
        },
        workers: ApiWorkers { max_concurrent_connections: 50 },
        users: ApiUsers { early_adopter_cutoff: None },
    }
}

#[test]
fn routing_keys_carry_environment_suffix() {
    let prd = pushd(true);
    assert_eq!(prd.get_ack_routing_key(), "notifications.process.ack-prd");
    assert_eq!(prd.get_message_routing_key(), "notifications.origin.message-prd");
    assert_eq!(prd.get_mass_mention_routing_key(), "notifications.origin.mass_mention-prd");
    let tst = pushd(false);
    assert_eq!(tst.get_fr_accepted_routing_key(), "notifications.ingest.fr_accepted-tst");
    assert_eq!(tst.get_fr_received_routing_key(), "notifications.ingest.fr_received-tst");
    assert_eq!(tst.get_generic_routing_key(), "notifications.ingest.generic-tst");
}

#[test]
fn production_is_detected_from_api_host() {
    assert!(hosts("https://api.revolt.chat").is_production());
    assert!(!hosts("http://api.revolt.chat").is_production());
    assert!(!hosts("https://local.example").is_production());
    assert!(production_flag(false, &hosts("https://api.revolt.chat/0.8")));
    assert!(production_flag(true, &hosts("http://localhost")));
    assert!(!production_flag(false, &hosts("http://localhost")));
}

#[test]
fn preflight_warnings_name_missing_settings() {
    assert!(api("smtp.example", "key").preflight_warnings().is_empty());
    assert!(api("", "key").preflight_warnings() == vec![PreflightWarning::NoSmtp]);
    assert!(api("", "").preflight_warnings() == vec![PreflightWarning::NoSmtp, PreflightWarning::NoCaptcha]);
    assert!(api("h", "").preflight_warnings() == vec![PreflightWarning::NoCaptcha]);
    assert_eq!(PreflightWarning::NoSmtp.message(), "No SMTP settings specified! Remember to configure email.");
}

#[test]
fn advanced_features_default() {
    assert_eq!(FeaturesAdvanced::default().process_message_delay_limit, 5);
}

#[test]
fn serialisation_predicates() {
    assert!(if_false(&false));
    assert!(!if_false(&true));
    assert!(if_option_false(&None));
    assert!(if_option_false(&Some(false)));
    assert!(!if_option_false(&Some(true)));
}

#[test]
fn connect_plans() {
    assert!(matches!(DatabaseInfo::Auto.plan(Some("REFERENCE"), ""), ConnectStep::NeedTestDatabase));
    match DatabaseInfo::Auto.plan(None, "mongodb://localhost") {
        ConnectStep::UseMongo { uri, database_name } => {
            assert_eq!(uri, "mongodb://localhost");
            assert_eq!(database_name, "revolt");
        }
        _ => panic!("expected MongoDB"),
    }
    assert!(matches!(DatabaseInfo::Auto.plan(None, ""), ConnectStep::UseReference));
    assert!(matches!(DatabaseInfo::Test(s("t")).plan(Some("REFERENCE"), "x"), ConnectStep::UseReference));
    match DatabaseInfo::Test(s("revolt_test_1")).plan(Some("MONGODB"), "mongodb://db") {
        ConnectStep::UseMongo { uri, database_name } => {
            assert_eq!(uri, "mongodb://db");
            assert_eq!(database_name, "revolt_test_1");
        }
        _ => panic!("expected MongoDB"),
    }
    assert!(matches!(DatabaseInfo::Reference.plan(None, "x"), ConnectStep::UseReference));
    assert!(matches!(
        DatabaseInfo::MongoDb { uri: s("u"), database_name: s("d") }.plan(None, ""),
        ConnectStep::UseMongo { .. }
    ));
    let Database::Reference(db) = connect_reference();
    assert_eq!(db.accounts.len(), 0);
}

#[test]
fn test_database_names() {
    match test_database(1_234_567) {
        DatabaseInfo::Test(name) => assert_eq!(name, "revolt_test_1234567"),
        _ => panic!("expected a test database"),
    }
    match test_database(9_999_999) {
        DatabaseInfo::Test(name) => assert_eq!(name, "revolt_test_9999999"),
        _ => panic!("expected a test database"),
    }
}

#[test]
fn unset_paths_with_and_without_prefix() {
    let paths = vec![Some(s("avatar")), None, Some(s("profile.background"))];
    assert_eq!(unset_paths(&paths, &None), vec![s("avatar"), s("profile.background")]);
    assert_eq!(unset_paths(&paths, &Some(s("user."))), vec![s("user.avatar"), s("user.profile.background")]);
}

#[test]
fn prefix_keys_drops_nulls() {
    let entries = vec![(s("name"), Some(1)), (s("icon"), None), (s("rank"), Some(3))];
    assert_eq!(prefix_keys(entries, "roles.r1."), vec![(s("roles.r1.name"), 1), (s("roles.r1.rank"), 3)]);
    let empty: Vec<(String, Option<i32>)> = vec![];
    assert!(prefix_keys(empty, "x").is_empty());
}
