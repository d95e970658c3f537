use settlement_engine::config::{get_public_url, Config, EnvValues};
use settlement_engine::ctx::Ctx;
use settlement_engine::errors::ServiceError;

fn full_values() -> EnvValues {
    EnvValues {
        port: Some(String::from("8080")),
        db_url: Some(String::from("postgres://localhost/app")),
        access_secret_key: Some(String::from("SECRET-REDACTED")),
        aws_bucket_name: Some(String::from("bucket")),
        aws_access_key_id: Some(String::from("SECRET-REDACTED")),
        aws_secret_access_key: Some(String::from("SECRET-REDACTED")),
        aws_bucket_region: Some(String::from("us-east-1")),
        rpc_url: Some(String::from("https://rpc.example")),
        fee_faucet_secret: Some(String::from("SECRET-REDACTED")),
        fee_faucet_private_key: Some(String::from("SECRET-REDACTED")),
        google_oauth_client_id: Some(String::from("client")),
        google_oauth_client_secret: Some(String::from("SECRET-REDACTED")),
        privy_app_id: Some(String::from("app")),
        privy_app_secret: Some(String::from("SECRET-REDACTED")),
    }
}

#[test]
fn load_env_assembles_complete_values() {
    let config = Config::load_env(full_values()).unwrap();
    assert_eq!(config.PORT, "8080");
    assert_eq!(config.RPC_URL, "https://rpc.example");
    assert_eq!(config.AWS_BUCKET_NAME, "bucket");
}

#[test]
fn load_env_names_the_missing_variable() {
    let mut values = full_values();
    values.rpc_url = None;
    match Config::load_env(values) {
        Err(ServiceError::EnvMissing(name)) => assert_eq!(name, "SERVICE_RPC_URL"),
        other => panic!("unexpected: {:?}", other.is_ok()),
    }
}

#[test]
fn public_url_is_assembled_exactly() {
    let url = get_public_url("bucket", &String::from("images/a.png"));
    assert_eq!(url, "https://bucket.s3.amazonaws.com/images/a.png");
}

#[test]
fn ctx_wraps_user_id() {
    let ctx = Ctx::new(17);
    assert_eq!(ctx.user_id, 17);
}
